use spirograph::color::{Color, Pallet};

#[test]
fn create_color_unpacks_the_channels() {
    assert_eq!(Pallet::create_color(0xff8040), Color { r: 0xff, g: 0x80, b: 0x40, a: 0xff });
    assert_eq!(Pallet::create_color(0x010203), Color { r: 1, g: 2, b: 3, a: 255 });
    assert_eq!(Pallet::create_color(0), Color { r: 0, g: 0, b: 0, a: 255 });
}

#[test]
fn create_color_ignores_the_high_byte() {
    assert_eq!(Pallet::create_color(0x12ff8040), Pallet::create_color(0xff8040));
    assert_eq!(Pallet::create_color(u32::MAX), Color { r: 255, g: 255, b: 255, a: 255 });
    assert_eq!(Pallet::create_color(0xff000000), Color { r: 0, g: 0, b: 0, a: 255 });
}

#[test]
fn pallet_holds_the_eight_named_colors() {
    let p = Pallet::new();
    assert_eq!(p.black, Color { r: 0, g: 0, b: 0, a: 255 });
    assert_eq!(p.red, Color { r: 255, g: 0, b: 0, a: 255 });
    assert_eq!(p.yellow, Color { r: 255, g: 255, b: 0, a: 255 });
    assert_eq!(p.green, Color { r: 0, g: 255, b: 0, a: 255 });
    assert_eq!(p.cyan, Color { r: 0, g: 255, b: 255, a: 255 });
    assert_eq!(p.blue, Color { r: 0, g: 0, b: 255, a: 255 });
    assert_eq!(p.magenta, Color { r: 255, g: 0, b: 255, a: 255 });
    assert_eq!(p.white, Color { r: 255, g: 255, b: 255, a: 255 });
}

use minecraft_rust::client::light::LightSource;

#[test]
fn new_light_counts_as_updated() {
    let light = LightSource::new(1, 2, 3, [10, 20, 30]);
    assert_eq!((light.red(), light.green(), light.blue()), (1, 2, 3));
    assert_eq!(light.location(), [10, 20, 30]);
    assert!(light.updated());
}

#[test]
fn as_uint_packs_the_low_nibbles() {
    assert_eq!(LightSource::new(0xf, 0xf, 0xf, [0; 3]).as_uint(), 0xfff0);
    assert_eq!(LightSource::new(1, 2, 3, [0; 3]).as_uint(), 0x1230);
    assert_eq!(LightSource::new(0x1a, 0xb0, 0xfc, [0; 3]).as_uint(), 0xa0c0);
    assert_eq!(LightSource::new(0, 0, 0, [0; 3]).as_uint(), 0);
}

#[test]
fn changes_set_the_updated_flag() {
    let mut light = LightSource::new(0, 0, 0, [0; 3]);
    light.reset_updated();
    assert!(!light.updated());
    light.set_red(9);
    assert!(light.updated());
    assert_eq!(light.red(), 9);
    light.reset_updated();
    light.set_green(8);
    assert!(light.updated());
    assert_eq!(light.green(), 8);
    light.reset_updated();
    light.set_blue(7);
    assert!(light.updated());
    assert_eq!(light.blue(), 7);
    light.reset_updated();
    let position = [1.5f32.to_bits(), (-2.0f32).to_bits(), 0f32.to_bits()];
    light.set_location(position);
    assert!(light.updated());
    assert_eq!(light.location(), position);
    assert_eq!((light.red(), light.green(), light.blue()), (9, 8, 7));
    assert_eq!(f32::from_bits(light.location()[1]), -2.0);
}

#[test]
fn reach_grows_with_the_largest_channel() {
    assert_eq!(LightSource::new(0, 0, 0, [0; 3]).max_radius(), 0);
    assert_eq!(LightSource::new(3, 9, 5, [0; 3]).max_radius(), 9);
    assert_eq!(LightSource::new(3, 9, 200, [0; 3]).max_radius(), 200);
    assert_eq!(LightSource::new(0, 0, 0, [0; 3]).reach(), 1);
    assert_eq!(LightSource::new(15, 0, 0, [0; 3]).reach(), 1);
    assert_eq!(LightSource::new(0, 16, 0, [0; 3]).reach(), 2);
    assert_eq!(LightSource::new(0, 0, 255, [0; 3]).reach(), 16);
}

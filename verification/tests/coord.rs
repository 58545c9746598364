use falling_sand::coord::{get_coords_from_key, get_key_from_coords};

#[test]
fn test_get_key_from_coords() {
    let x = 123u16;
    let y = 102u16;

    let key = get_key_from_coords(x, y);
    let actual = 8061030u32;
    assert_eq!(actual, key, "{} is not equal to {}", key, actual);
}

#[test]
fn test_get_coords_from_key() {
    let x_actual = 123u16;
    let y_actual = 102u16;

    let key = 8061030u32;
    let (x, y) = get_coords_from_key(key);
    assert_eq!(x_actual, x, "{} is not equal to {}", x, x_actual);
    assert_eq!(y_actual, y, "{} is not equal to {}", y, y_actual);
}

#[test]
fn packing_puts_x_in_the_high_half_and_y_in_the_low_half() {
    assert_eq!(get_key_from_coords(0, 0), 0);
    assert_eq!(get_key_from_coords(0, 1), 1);
    assert_eq!(get_key_from_coords(1, 0), 65536);
    assert_eq!(get_key_from_coords(1, 1), 65537);
    assert_eq!(get_key_from_coords(0xABCD, 0x1234), 0xABCD_1234);
    assert_eq!(get_key_from_coords(65535, 65535), u32::MAX);
}

#[test]
fn unpacking_splits_the_key_in_two_halves() {
    assert_eq!(get_coords_from_key(0), (0, 0));
    assert_eq!(get_coords_from_key(65535), (0, 65535));
    assert_eq!(get_coords_from_key(65536), (1, 0));
    assert_eq!(get_coords_from_key(0xABCD_1234), (0xABCD, 0x1234));
    assert_eq!(get_coords_from_key(u32::MAX), (65535, 65535));
}

#[test]
fn unpacking_undoes_packing() {
    let samples: [u16; 9] = [0, 1, 2, 255, 256, 32767, 32768, 65534, 65535];
    for x in samples {
        for y in samples {
            assert_eq!(get_coords_from_key(get_key_from_coords(x, y)), (x, y));
        }
    }
}

#[test]
fn packing_undoes_unpacking() {
    let keys: [u32; 7] = [0, 1, 65535, 65536, 8061030, 0x8000_0000, u32::MAX];
    for key in keys {
        let (x, y) = get_coords_from_key(key);
        assert_eq!(get_key_from_coords(x, y), key);
    }
}

use falling_sand::coord::{CoordError, Direction, Vec2, COORD_MAX};

const DIRECTIONS: [Direction; 8] = [
    Direction::Up,
    Direction::UpRight,
    Direction::UpLeft,
    Direction::Right,
    Direction::Left,
    Direction::Down,
    Direction::DownRight,
    Direction::DownLeft,
];

#[test]
fn each_direction_is_its_unit_step() {
    assert_eq!(Vec2::from(Direction::Up), Vec2 { x: 0, y: -1 });
    assert_eq!(Vec2::from(Direction::UpRight), Vec2 { x: 1, y: -1 });
    assert_eq!(Vec2::from(Direction::UpLeft), Vec2 { x: -1, y: -1 });
    assert_eq!(Vec2::from(Direction::Right), Vec2 { x: 1, y: 0 });
    assert_eq!(Vec2::from(Direction::Left), Vec2 { x: -1, y: 0 });
    assert_eq!(Vec2::from(Direction::Down), Vec2 { x: 0, y: 1 });
    assert_eq!(Vec2::from(Direction::DownRight), Vec2 { x: 1, y: 1 });
    assert_eq!(Vec2::from(Direction::DownLeft), Vec2 { x: -1, y: 1 });
}

#[test]
fn the_eight_steps_are_the_eight_places_around_a_cell() {
    let mut steps: Vec<(i32, i32)> = DIRECTIONS.iter().map(|d| Vec2::from(*d).into()).collect();
    steps.sort();
    assert_eq!(
        steps,
        vec![(-1, -1), (-1, 0), (-1, 1), (0, -1), (0, 1), (1, -1), (1, 0), (1, 1)]
    );
}

#[test]
fn positions_add_componentwise() {
    let a = Vec2 { x: 3, y: -4 };
    let b = Vec2 { x: 10, y: 20 };
    assert_eq!(a + b, Vec2 { x: 13, y: 16 });
    assert_eq!(&a + &b, Vec2 { x: 13, y: 16 });
    assert_eq!(&a + b, Vec2 { x: 13, y: 16 });
}

#[test]
fn positions_subtract_componentwise() {
    let a = Vec2 { x: 3, y: -4 };
    let b = Vec2 { x: 10, y: 20 };
    assert_eq!(a - b, Vec2 { x: -7, y: -24 });
    assert_eq!(&a - &b, Vec2 { x: -7, y: -24 });
    assert_eq!(&a - b, Vec2 { x: -7, y: -24 });
}

#[test]
fn positions_scale_componentwise() {
    let a = Vec2 { x: 3, y: -4 };
    assert_eq!(a * 5, Vec2 { x: 15, y: -20 });
    assert_eq!(&a * -2, Vec2 { x: -6, y: 8 });
    assert_eq!(a * 0, Vec2 { x: 0, y: 0 });
}

#[test]
fn a_step_and_its_opposite_cancel() {
    let start = Vec2 { x: 7, y: 9 };
    for d in DIRECTIONS {
        let step = Vec2::from(d);
        assert_eq!(start + step - step, start);
        assert_eq!(start + step + step * -1, start);
    }
}

#[test]
fn positions_come_from_pairs_and_keys() {
    assert_eq!(Vec2::from((-1i16, 2i16)), Vec2 { x: -1, y: 2 });
    assert_eq!(Vec2::from((65535u16, 0u16)), Vec2 { x: 65535, y: 0 });
    assert_eq!(Vec2::from((70000i32, -70000i32)), Vec2 { x: 70000, y: -70000 });
    assert_eq!(Vec2::from(8061030u32), Vec2 { x: 123, y: 102 });
    assert_eq!(Vec2::from(u32::MAX), Vec2 { x: 65535, y: 65535 });
    let pair: (i32, i32) = Vec2 { x: 5, y: -6 }.into();
    assert_eq!(pair, (5, -6));
    let pair: (i32, i32) = (&Vec2 { x: 5, y: -6 }).into();
    assert_eq!(pair, (5, -6));
}

#[test]
fn a_position_inside_the_range_has_coordinates_and_a_key() {
    let pos = Vec2 { x: 123, y: 102 };
    assert_eq!(pos.to_coords(), Ok((123, 102)));
    assert_eq!(pos.to_key(), Ok(8061030));
    let coords: Result<(u16, u16), CoordError> = pos.try_into();
    assert_eq!(coords, Ok((123, 102)));
    let key: Result<u32, CoordError> = (&pos).try_into();
    assert_eq!(key, Ok(8061030));
    let corner = Vec2 { x: COORD_MAX, y: COORD_MAX };
    assert_eq!(corner.to_coords(), Ok((65535, 65535)));
    assert_eq!(corner.to_key(), Ok(u32::MAX));
    assert_eq!(Vec2 { x: 0, y: 0 }.to_key(), Ok(0));
}

#[test]
fn a_negative_position_is_an_invalid_coordinate() {
    let pos = Vec2 { x: -1, y: 5 };
    assert_eq!(pos.to_coords(), Err(CoordError::InvalidCoordinate { x: -1, y: 5 }));
    assert_eq!(pos.to_key(), Err(CoordError::InvalidCoordinate { x: -1, y: 5 }));
    let pos = Vec2 { x: 5, y: -1 };
    assert_eq!(pos.to_key(), Err(CoordError::InvalidCoordinate { x: 5, y: -1 }));
    let key: Result<u32, CoordError> = pos.try_into();
    assert_eq!(key, Err(CoordError::InvalidCoordinate { x: 5, y: -1 }));
    let coords: Result<(u16, u16), CoordError> = (&pos).try_into();
    assert_eq!(coords, Err(CoordError::InvalidCoordinate { x: 5, y: -1 }));
}

#[test]
fn a_position_beyond_sixteen_bits_is_an_invalid_coordinate() {
    let pos = Vec2 { x: 65536, y: 0 };
    assert_eq!(pos.to_coords(), Err(CoordError::InvalidCoordinate { x: 65536, y: 0 }));
    assert_eq!(pos.to_key(), Err(CoordError::InvalidCoordinate { x: 65536, y: 0 }));
    let pos = Vec2 { x: 0, y: 65536 };
    assert_eq!(pos.to_key(), Err(CoordError::InvalidCoordinate { x: 0, y: 65536 }));
    let pos = Vec2 { x: i32::MAX, y: i32::MIN };
    assert_eq!(pos.to_key(), Err(CoordError::InvalidCoordinate { x: i32::MAX, y: i32::MIN }));
}

#[test]
fn a_position_is_found_again_under_its_key() {
    for (x, y) in [(0, 0), (1, 2), (123, 102), (65535, 0), (0, 65535), (65535, 65535)] {
        let pos = Vec2 { x, y };
        let key = pos.to_key().unwrap();
        assert_eq!(Vec2::from(key), pos);
    }
}

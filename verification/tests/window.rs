use falling_sand::window::Window;

#[test]
fn a_window_holds_its_corner_and_not_the_places_past_its_extent() {
    let window = Window { height: 3, width: 4, x: 10, y: 20 };
    assert!(window.is_inside(10, 20));
    assert!(window.is_inside(13, 22));
    assert!(!window.is_inside(14, 22));
    assert!(!window.is_inside(13, 23));
    assert!(!window.is_inside(9, 20));
    assert!(!window.is_inside(10, 19));
}

#[test]
fn an_empty_window_holds_nothing() {
    let window = Window { height: 0, width: 0, x: 5, y: 5 };
    assert!(!window.is_inside(5, 5));
    let flat = Window { height: 0, width: 3, x: 0, y: 0 };
    assert!(!flat.is_inside(1, 0));
}

#[test]
fn a_window_that_reaches_past_the_last_column_holds_the_last_column() {
    let window = Window { height: 65535, width: 65535, x: 65535, y: 65535 };
    assert!(window.is_inside(65535, 65535));
    assert!(!window.is_inside(65534, 65535));
    let wide = Window { height: 10, width: 65535, x: 1, y: 0 };
    assert!(wide.is_inside(65535, 9));
    assert!(!wide.is_inside(0, 9));
}

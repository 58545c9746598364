use std::collections::HashMap;

use falling_sand::particle::Cell;
use falling_sand::simulation::Simulation;

const HEIGHT: i32 = 3;
const WIDTH: i32 = 3;

#[test]
fn test_cell_m1_m1_is_border() {
    let hash_map = HashMap::new();

    let cell_opt = Simulation::find_cell((-1i16, -1).into(), WIDTH, HEIGHT, &hash_map);
    assert!(matches!(*cell_opt.unwrap(), Cell::Border));
}

#[test]
fn test_cell_0_m1_is_border() {
    let hash_map = HashMap::new();

    let cell_opt = Simulation::find_cell((0i16, -1).into(), WIDTH, HEIGHT, &hash_map);
    assert!(matches!(*cell_opt.unwrap(), Cell::Border));
}

#[test]
fn test_cell_1_m1_is_border() {
    let hash_map = HashMap::new();

    let cell_opt = Simulation::find_cell((1i16, -1).into(), WIDTH, HEIGHT, &hash_map);
    assert!(matches!(*cell_opt.unwrap(), Cell::Border));
}

#[test]
fn test_cell_2_m1_is_border() {
    let hash_map = HashMap::new();

    let cell_opt = Simulation::find_cell((2i16, -1).into(), WIDTH, HEIGHT, &hash_map);
    assert!(matches!(*cell_opt.unwrap(), Cell::Border));
}

#[test]
fn test_cell_3_m1_is_border() {
    let hash_map = HashMap::new();

    let cell_opt = Simulation::find_cell((3i16, -1).into(), WIDTH, HEIGHT, &hash_map);
    assert!(matches!(*cell_opt.unwrap(), Cell::Border));
}

#[test]
fn test_cell_m1_0_is_border() {
    let hash_map = HashMap::new();

    let cell_opt = Simulation::find_cell((-1i16, 0).into(), WIDTH, HEIGHT, &hash_map);
    let cell = cell_opt.unwrap();
    assert!(matches!(cell, Cell::Border));
}

#[test]
fn test_cell_0_0_is_empty() {
    let hash_map = HashMap::new();

    let cell_opt = Simulation::find_cell((0i16, 0).into(), WIDTH, HEIGHT, &hash_map);
    assert!(cell_opt.is_none());
}

#[test]
fn test_cell_1_0_is_empty() {
    let hash_map = HashMap::new();

    let cell_opt = Simulation::find_cell((1i16, 0).into(), WIDTH, HEIGHT, &hash_map);
    assert!(cell_opt.is_none());
}

#[test]
fn test_cell_2_0_is_empty() {
    let hash_map = HashMap::new();

    let cell_opt = Simulation::find_cell((2i16, 0).into(), WIDTH, HEIGHT, &hash_map);
    assert!(cell_opt.is_none());
}

#[test]
fn test_cell_3_0_is_border() {
    let hash_map = HashMap::new();

    let cell_opt = Simulation::find_cell((3i16, 0).into(), WIDTH, HEIGHT, &hash_map);
    assert!(matches!(*cell_opt.unwrap(), Cell::Border));
}

#[test]
fn test_cell_m1_1_is_border() {
    let hash_map = HashMap::new();

    let cell_opt = Simulation::find_cell((-1i16, 1).into(), WIDTH, HEIGHT, &hash_map);
    assert!(matches!(*cell_opt.unwrap(), Cell::Border));
}

#[test]
fn test_cell_0_1_is_empty() {
    let hash_map = HashMap::new();

    let cell_opt = Simulation::find_cell((0i16, 1).into(), WIDTH, HEIGHT, &hash_map);
    assert!(cell_opt.is_none());
}

#[test]
fn test_cell_1_1_is_empty() {
    let hash_map = HashMap::new();

    let cell_opt = Simulation::find_cell((1i16, 1).into(), WIDTH, HEIGHT, &hash_map);
    assert!(cell_opt.is_none());
}

#[test]
fn test_cell_2_1_is_empty() {
    let hash_map = HashMap::new();

    let cell_opt = Simulation::find_cell((2i16, 1).into(), WIDTH, HEIGHT, &hash_map);
    assert!(cell_opt.is_none());
}

#[test]
fn test_cell_3_1_is_border() {
    let hash_map = HashMap::new();

    let cell_opt = Simulation::find_cell((3i16, 1).into(), WIDTH, HEIGHT, &hash_map);
    assert!(matches!(*cell_opt.unwrap(), Cell::Border));
}

#[test]
fn test_cell_m1_2_is_border() {
    let hash_map = HashMap::new();

    let cell_opt = Simulation::find_cell((-1i16, 2).into(), WIDTH, HEIGHT, &hash_map);
    assert!(matches!(*cell_opt.unwrap(), Cell::Border));
}

#[test]
fn test_cell_0_2_is_empty() {
    let hash_map = HashMap::new();

    let cell_opt = Simulation::find_cell((0i16, 2).into(), WIDTH, HEIGHT, &hash_map);
    assert!(cell_opt.is_none());
}

#[test]
fn test_cell_1_2_is_empty() {
    let hash_map = HashMap::new();

    let cell_opt = Simulation::find_cell((1i16, 2).into(), WIDTH, HEIGHT, &hash_map);
    assert!(cell_opt.is_none());
}

#[test]
fn test_cell_2_2_is_empty() {
    let hash_map = HashMap::new();

    let cell_opt = Simulation::find_cell((2i16, 2).into(), WIDTH, HEIGHT, &hash_map);
    assert!(cell_opt.is_none());
}

#[test]
fn test_cell_3_2_is_border() {
    let hash_map = HashMap::new();

    let cell_opt = Simulation::find_cell((3i16, 2).into(), WIDTH, HEIGHT, &hash_map);
    assert!(matches!(*cell_opt.unwrap(), Cell::Border));
}

#[test]
fn test_cell_m1_3_is_border() {
    let hash_map = HashMap::new();

    let cell_opt = Simulation::find_cell((-1i16, 3).into(), WIDTH, HEIGHT, &hash_map);
    assert!(matches!(*cell_opt.unwrap(), Cell::Border));
}

#[test]
fn test_cell_0_3_is_border() {
    let hash_map = HashMap::new();

    let cell_opt = Simulation::find_cell((0i16, 3).into(), WIDTH, HEIGHT, &hash_map);
    assert!(matches!(*cell_opt.unwrap(), Cell::Border));
}

#[test]
fn test_cell_1_3_is_border() {
    let hash_map = HashMap::new();

    let cell_opt = Simulation::find_cell((1i16, 3).into(), WIDTH, HEIGHT, &hash_map);
    assert!(matches!(*cell_opt.unwrap(), Cell::Border));
}

#[test]
fn test_cell_2_3_is_border() {
    let hash_map = HashMap::new();

    let cell_opt = Simulation::find_cell((2i16, 3).into(), WIDTH, HEIGHT, &hash_map);
    assert!(matches!(*cell_opt.unwrap(), Cell::Border));
}

#[test]
fn test_cell_3_3_is_border() {
    let hash_map = HashMap::new();

    let cell_opt = Simulation::find_cell((3i16, 3).into(), WIDTH, HEIGHT, &hash_map);
    assert!(matches!(*cell_opt.unwrap(), Cell::Border));
}

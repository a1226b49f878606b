use rust_snake::food::{check_and_grow, choose_food, cell_is_free, first_free_cell, place_initial, Growth};
use rust_snake::world::{Cell, Direction, World};

fn cell(row: usize, col: usize) -> Cell {
    Cell { row, col }
}

fn world_with(rows: usize, cols: usize, body: Vec<Cell>) -> World {
    let mut w = World::new(rows, cols);
    w.snake_body = body;
    w
}

#[test]
fn eating_grows_by_one_and_moves_food_off_snake() {
    let body = vec![cell(5, 3), cell(5, 4), cell(5, 5)];
    let mut w = world_with(20, 20, body.clone());
    let mut food = cell(5, 5);
    let r = check_and_grow(&mut w, &mut food);
    assert_eq!(r, Growth::Grew);
    assert_eq!(w.snake_body.len(), 4);
    assert_eq!(w.snake_body, vec![cell(5, 3), cell(5, 4), cell(5, 5), cell(5, 5)]);
    assert!(!w.snake_body.contains(&food));
    assert!(food.row < 20 && food.col < 20);
}

#[test]
fn food_elsewhere_changes_nothing() {
    let body = vec![cell(0, 0), cell(0, 1)];
    let mut w = world_with(6, 6, body.clone());
    let mut food = cell(3, 3);
    let r = check_and_grow(&mut w, &mut food);
    assert_eq!(r, Growth::NotEaten);
    assert_eq!(w.snake_body, body);
    assert_eq!(food, cell(3, 3));
}

#[test]
fn food_under_body_but_not_head_is_not_eaten() {
    let body = vec![cell(0, 0), cell(0, 1)];
    let mut w = world_with(6, 6, body.clone());
    let mut food = cell(0, 0);
    assert_eq!(check_and_grow(&mut w, &mut food), Growth::NotEaten);
    assert_eq!(w.snake_body, body);
}

#[test]
fn eating_on_nearly_full_grid_finds_last_free_cell() {
    let mut w = world_with(2, 2, vec![cell(0, 0), cell(0, 1)]);
    let mut food = cell(0, 1);
    let r = check_and_grow(&mut w, &mut food);
    assert_eq!(r, Growth::Grew);
    assert_eq!(w.snake_body.len(), 3);
    assert!(food == cell(1, 0) || food == cell(1, 1));
}

#[test]
fn eating_the_last_free_cell_reports_full_grid() {
    let mut w = world_with(1, 2, vec![cell(0, 0), cell(0, 1)]);
    let mut food = cell(0, 1);
    let r = check_and_grow(&mut w, &mut food);
    assert_eq!(r, Growth::GridFull);
    assert_eq!(w.snake_body, vec![cell(0, 0), cell(0, 1), cell(0, 1)]);
    assert_eq!(food, cell(0, 1));
}

#[test]
fn growth_then_step_extends_the_body() {
    let mut w = world_with(10, 10, vec![cell(2, 2), cell(2, 3)]);
    w.movement_direction = Direction::Right;
    let mut food = cell(2, 3);
    assert_eq!(check_and_grow(&mut w, &mut food), Growth::Grew);
    w.step();
    assert_eq!(w.snake_body, vec![cell(2, 3), cell(2, 3), cell(2, 4)]);
    w.step();
    assert_eq!(w.snake_body, vec![cell(2, 3), cell(2, 4), cell(2, 5)]);
}

#[test]
fn cell_is_free_checks_grid_and_body() {
    let w = world_with(3, 4, vec![cell(1, 1), cell(1, 2)]);
    assert!(cell_is_free(&w, cell(0, 0)));
    assert!(cell_is_free(&w, cell(2, 3)));
    assert!(!cell_is_free(&w, cell(1, 2)));
    assert!(!cell_is_free(&w, cell(3, 0)));
    assert!(!cell_is_free(&w, cell(0, 4)));
}

#[test]
fn first_free_cell_goes_in_row_major_order() {
    let w = world_with(2, 3, vec![cell(0, 0), cell(0, 1), cell(0, 2), cell(1, 0)]);
    assert_eq!(first_free_cell(&w), Some(cell(1, 1)));
    let full = world_with(1, 2, vec![cell(0, 1), cell(0, 0)]);
    assert_eq!(first_free_cell(&full), None);
}

#[test]
fn choose_food_takes_first_free_candidate() {
    let w = world_with(4, 4, vec![cell(0, 0), cell(0, 1)]);
    let cands = vec![cell(0, 1), cell(9, 9), cell(3, 2), cell(2, 2)];
    assert_eq!(choose_food(&w, &cands), Some(cell(3, 2)));
}

#[test]
fn choose_food_falls_back_to_grid_order() {
    let w = world_with(4, 4, vec![cell(0, 0), cell(0, 1)]);
    let cands = vec![cell(0, 1), cell(0, 0), cell(4, 0)];
    assert_eq!(choose_food(&w, &cands), Some(cell(0, 2)));
    assert_eq!(choose_food(&w, &Vec::new()), Some(cell(0, 2)));
}

#[test]
fn choose_food_on_full_grid_is_none() {
    let w = world_with(1, 1, vec![cell(0, 0)]);
    assert_eq!(choose_food(&w, &vec![cell(0, 0)]), None);
}

#[test]
fn initial_food_lies_on_grid() {
    let mut w = World::new(3, 5);
    let mut seen_nonzero = false;
    for _ in 0..200 {
        let f = place_initial(&mut w);
        assert!(f.row < 3 && f.col < 5);
        if f.row != 0 || f.col != 0 {
            seen_nonzero = true;
        }
    }
    assert!(seen_nonzero);
    let mut one = World::new(1, 1);
    assert_eq!(place_initial(&mut one), cell(0, 0));
}

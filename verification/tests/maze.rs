use laberinto::maze::{Maze, ENEMY, GOAL, OUTSIDE, SPAWN};

fn chars(text: &str) -> Vec<char> {
    text.chars().collect()
}

fn rows(m: &Maze) -> Vec<String> {
    (0..m.height())
        .map(|j| (0..m.width()).map(|i| m.cell(i, j)).collect())
        .collect()
}

#[test]
fn ragged_rows_are_padded_with_floor() {
    let m = Maze::load(&chars("+++\n+p\n+ g+\n")).unwrap();
    assert_eq!(m.width(), 4);
    assert_eq!(m.height(), 3);
    assert_eq!(rows(&m), vec!["+++ ", "+p  ", "+ g+"]);
}

#[test]
fn crlf_line_ends_and_trailing_blank_lines_are_dropped() {
    let m = Maze::load(&chars("+-+\r\n|p|\r\r\n+-+\r\n\n\r\n")).unwrap();
    assert_eq!(rows(&m), vec!["+-+", "|p|", "+-+"]);
}

#[test]
fn blank_lines_inside_the_maze_are_kept() {
    let m = Maze::load(&chars("++\n\n++")).unwrap();
    assert_eq!(rows(&m), vec!["++", "  ", "++"]);
}

#[test]
fn an_empty_file_is_no_maze() {
    assert!(Maze::load(&chars("")).is_none());
    assert!(Maze::load(&chars("\n\r\n\n")).is_none());
}

#[test]
fn outside_the_grid_is_wall() {
    let m = Maze::load(&chars(" p\n g")).unwrap();
    assert_eq!(m.cell(2, 0), OUTSIDE);
    assert_eq!(m.cell(0, 2), OUTSIDE);
    assert!(m.is_wall(2, 0));
    assert!(m.is_wall(usize::MAX, usize::MAX));
    assert!(!m.is_wall(0, 0));
}

#[test]
fn floor_spawn_goal_and_enemies_are_walkable() {
    let m = Maze::load(&chars(" pge+-|x")).unwrap();
    let walls: Vec<bool> = (0..8).map(|i| m.is_wall(i, 0)).collect();
    assert_eq!(walls, vec![false, false, false, false, true, true, true, true]);
}

#[test]
fn find_scans_rows_top_down_then_left_to_right() {
    let m = Maze::load(&chars("+++e\n+e+e\ne+++")).unwrap();
    assert_eq!(m.find(ENEMY), Some((3, 0)));
    assert_eq!(m.find_all(ENEMY), vec![(3, 0), (1, 1), (3, 1), (0, 2)]);
    assert_eq!(m.find(SPAWN), None);
    assert!(m.find_all(GOAL).is_empty());
}

#[test]
fn pixels_map_to_cells() {
    let m = Maze::load(&chars("+++\n+ +")).unwrap();
    assert_eq!(m.cell_at_pixel(45, 19, 20), (2, 0));
    assert!(!m.is_wall_at_pixel(25, 25, 20));
    assert!(m.is_wall_at_pixel(5, 25, 20));
    assert_eq!(m.world_width(20), 60);
    assert_eq!(m.world_height(20), 40);
}

use termviz::tui::draw_graph::{draw, draw_ascii_graph, draw_line, sample_matrix};
use termviz::tui::layout::{circular_layout, layout_radius, Direction, GraphError};
use termviz::tui::line::NodePosition;

fn canvas(width: usize, height: usize) -> Vec<Vec<char>> {
    vec![vec![' '; width]; height]
}

fn at(x: i64, y: i64) -> NodePosition {
    NodePosition { x, y }
}

fn marked(canvas: &Vec<Vec<char>>) -> Vec<(usize, usize)> {
    let mut cells = Vec::new();
    for (y, row) in canvas.iter().enumerate() {
        for (x, c) in row.iter().enumerate() {
            if *c == '*' {
                cells.push((x, y));
            }
        }
    }
    cells
}

fn directions(n: usize) -> Vec<Direction> {
    (0..n)
        .map(|i| {
            let angle = 2.0 * std::f64::consts::PI * (i as f64) / (n as f64);
            Direction {
                cos: (angle.cos() * 65536.0).round() as i32,
                sin: (angle.sin() * 65536.0).round() as i32,
            }
        })
        .collect()
}

fn walked(from: (i64, i64), to: (i64, i64)) -> Vec<(i64, i64)> {
    let (mut x, mut y) = from;
    let dx = (to.0 - x).abs();
    let dy = -(to.1 - y).abs();
    let sx = if x < to.0 { 1 } else { -1 };
    let sy = if y < to.1 { 1 } else { -1 };
    let mut err = dx + dy;
    let mut cells = Vec::new();
    loop {
        cells.push((x, y));
        if x == to.0 && y == to.1 {
            break;
        }
        let e2 = 2 * err;
        if e2 >= dy {
            err += dy;
            x += sx;
        }
        if e2 <= dx {
            err += dx;
            y += sy;
        }
    }
    cells
}

fn nearest(from: (i64, i64), to: (i64, i64)) -> Vec<(i64, i64)> {
    let across = (to.0 - from.0).abs();
    let down = (to.1 - from.1).abs();
    let steps = across.max(down);
    if steps == 0 {
        return vec![from];
    }
    (0..=steps)
        .map(|k| {
            let a = (2 * k * across + steps) / (2 * steps);
            let d = (2 * k * down + steps) / (2 * steps);
            (
                if from.0 < to.0 { from.0 + a } else { from.0 - a },
                if from.1 < to.1 { from.1 + d } else { from.1 - d },
            )
        })
        .collect()
}

#[test]
fn line_between_equal_points_marks_one_cell() {
    let mut c = canvas(10, 10);
    draw_line(&mut c, at(5, 5), at(5, 5));
    assert_eq!(marked(&c), vec![(5, 5)]);
}

#[test]
fn vertical_line_marks_a_run_of_six_cells() {
    let mut c = canvas(10, 10);
    draw_line(&mut c, at(0, 0), at(0, 5));
    assert_eq!(marked(&c), vec![(0, 0), (0, 1), (0, 2), (0, 3), (0, 4), (0, 5)]);
}

#[test]
fn horizontal_line_right_to_left() {
    let mut c = canvas(10, 3);
    draw_line(&mut c, at(7, 1), at(3, 1));
    assert_eq!(marked(&c), vec![(3, 1), (4, 1), (5, 1), (6, 1), (7, 1)]);
}

#[test]
fn diagonal_line() {
    let mut c = canvas(5, 5);
    draw_line(&mut c, at(4, 0), at(0, 4));
    assert_eq!(marked(&c), vec![(4, 0), (3, 1), (2, 2), (1, 3), (0, 4)]);
}

#[test]
fn shallow_line_rounds_to_the_nearest_row() {
    let mut c = canvas(6, 3);
    draw_line(&mut c, at(0, 0), at(5, 2));
    assert_eq!(marked(&c), vec![(0, 0), (1, 0), (2, 1), (3, 1), (4, 2), (5, 2)]);
}

#[test]
fn line_keeps_other_cells() {
    let mut c = canvas(4, 2);
    c[1][2] = '#';
    c[0][1] = '#';
    draw_line(&mut c, at(0, 0), at(3, 0));
    assert_eq!(c[0], vec!['*', '*', '*', '*']);
    assert_eq!(c[1], vec![' ', ' ', '#', ' ']);
}

#[test]
fn line_in_every_direction_is_the_walk_and_the_nearest_cells() {
    for x0 in -3..12i64 {
        for y0 in -3..10i64 {
            for (x1, y1) in [(0, 0), (8, 6), (4, 9), (11, 2), (-2, 5), (5, -3), (3, 3), (9, 9)] {
                let mut c = canvas(9, 7);
                draw_line(&mut c, at(x0, y0), at(x1, y1));
                let walk = walked((x0, y0), (x1, y1));
                assert_eq!(walk, nearest((x0, y0), (x1, y1)));
                for y in 0..7i64 {
                    for x in 0..9i64 {
                        let expected = if walk.contains(&(x, y)) { '*' } else { ' ' };
                        assert_eq!(c[y as usize][x as usize], expected);
                    }
                }
            }
        }
    }
}

#[test]
fn line_outside_the_canvas_is_skipped() {
    let mut c = canvas(3, 3);
    draw_line(&mut c, at(-5, -5), at(-1, -2));
    draw_line(&mut c, at(3, 0), at(10, 2));
    assert_eq!(marked(&c), Vec::<(usize, usize)>::new());
    draw_line(&mut c, at(-2, 1), at(5, 1));
    assert_eq!(marked(&c), vec![(0, 1), (1, 1), (2, 1)]);
}

#[test]
fn line_on_a_ragged_or_empty_canvas() {
    let mut none: Vec<Vec<char>> = Vec::new();
    draw_line(&mut none, at(0, 0), at(3, 3));
    assert_eq!(none, Vec::<Vec<char>>::new());
    let mut ragged = vec![vec![' '; 4], vec![' '; 1], vec![], vec![' '; 4]];
    draw_line(&mut ragged, at(0, 0), at(3, 3));
    assert_eq!(ragged, vec![vec!['*', ' ', ' ', ' '], vec![' '], vec![], vec![' ', ' ', ' ', '*']]);
}

#[test]
fn line_between_far_points_ends() {
    let mut c = canvas(2, 2);
    draw_line(&mut c, at(-100_000, 1), at(100_000, 0));
    assert_eq!(marked(&c), vec![(0, 0), (1, 0)]);
}

#[test]
fn radius_leaves_the_margin() {
    assert_eq!(layout_radius(40, 20), Ok(8));
    assert_eq!(layout_radius(20, 40), Ok(8));
    assert_eq!(layout_radius(4, 4), Ok(0));
    assert_eq!(layout_radius(5, 100), Ok(0));
    assert_eq!(layout_radius(65535, 65535), Ok(32765));
}

#[test]
fn radius_of_a_small_viewport_is_refused() {
    assert_eq!(layout_radius(3, 20), Err(GraphError::ViewportTooSmall));
    assert_eq!(layout_radius(40, 3), Err(GraphError::ViewportTooSmall));
    assert_eq!(layout_radius(0, 0), Err(GraphError::ViewportTooSmall));
}

#[test]
fn layout_of_four_nodes() {
    let positions = circular_layout(&directions(4), 40, 20).unwrap();
    assert_eq!(positions, vec![at(28, 10), at(20, 18), at(12, 10), at(20, 2)]);
}

#[test]
fn layout_of_no_node_is_empty() {
    assert_eq!(circular_layout(&[], 40, 20), Ok(Vec::new()));
    assert_eq!(circular_layout(&[], 2, 2), Err(GraphError::ViewportTooSmall));
}

#[test]
fn layout_agrees_with_the_float_formula() {
    for n in 1..=12usize {
        let positions = circular_layout(&directions(n), 40, 20).unwrap();
        assert_eq!(positions.len(), n);
        for i in 0..n {
            let angle = 2.0 * std::f32::consts::PI * (i as f32) / (n as f32);
            let x = (40.0f32 / 2.0 + 8.0 * angle.cos()).round() as i64;
            let y = (20.0f32 / 2.0 + 8.0 * angle.sin()).round() as i64;
            assert_eq!(positions[i], at(x, y), "node {} of {}", i, n);
        }
    }
}

#[test]
fn layout_with_an_odd_side_has_its_centre_between_cells() {
    let right = Direction { cos: 65536, sin: 0 };
    let left = Direction { cos: -65536, sin: 0 };
    let positions = circular_layout(&[right, left], 9, 21).unwrap();
    assert_eq!(positions, vec![at(7, 11), at(3, 11)]);
}

#[test]
fn layout_rounds_halves_away_from_zero() {
    let half = Direction { cos: 32768 / 8 * 3, sin: -32768 / 8 * 3 };
    let positions = circular_layout(&[half], 40, 20).unwrap();
    assert_eq!(positions, vec![at(22, 9)]);
    let far = Direction { cos: -65536 * 3 - 32768 / 8, sin: -65536 * 2 };
    assert_eq!(circular_layout(&[far], 40, 20).unwrap(), vec![at(-5, -6)]);
}

#[test]
fn graph_without_nodes_is_one_line() {
    assert_eq!(draw_ascii_graph(&[], &[], 40, 20), Ok(vec!["Empty graph.".to_string()]));
    assert_eq!(draw_ascii_graph(&[], &directions(3), 1, 1), Ok(vec!["Empty graph.".to_string()]));
}

#[test]
fn graph_of_two_joined_nodes() {
    let adj = vec![vec![0u8, 1], vec![1, 0]];
    let frame = draw_ascii_graph(&adj, &directions(2), 40, 20).unwrap();
    assert_eq!(frame.len(), 20);
    for (row, line) in frame.iter().enumerate() {
        if row == 10 {
            assert_eq!(
                *line,
                format!("{}(1){}(0){}", " ".repeat(12), "*".repeat(13), " ".repeat(9))
            );
        } else {
            assert_eq!(*line, " ".repeat(40));
        }
    }
}

#[test]
fn graph_draws_only_what_is_above_the_diagonal() {
    let lower = vec![vec![0u8, 0], vec![1, 0]];
    let frame = draw_ascii_graph(&lower, &directions(2), 40, 20).unwrap();
    assert_eq!(frame[10], format!("{}(1){}(0){}", " ".repeat(12), " ".repeat(13), " ".repeat(9)));
    let loops = vec![vec![1u8, 0], vec![0, 1]];
    assert_eq!(draw_ascii_graph(&loops, &directions(2), 40, 20).unwrap(), frame);
    let other = vec![vec![0u8, 2], vec![2, 0]];
    assert_eq!(draw_ascii_graph(&other, &directions(2), 40, 20).unwrap(), frame);
}

#[test]
fn graph_with_short_rows_has_no_edges_there() {
    let ragged = vec![vec![0u8], vec![], vec![0, 0, 0]];
    let frame = draw_ascii_graph(&ragged, &directions(3), 40, 20).unwrap();
    assert!(frame.iter().all(|line| !line.contains('*')));
    assert_eq!(frame.len(), 20);
}

#[test]
fn graph_frame_is_rectangular() {
    for (w, h) in [(40u16, 20u16), (4, 4), (17, 9), (80, 24)] {
        let frame = draw_ascii_graph(&sample_matrix(0), &directions(6), w, h).unwrap();
        assert_eq!(frame.len(), h as usize);
        assert!(frame.iter().all(|line| line.chars().count() == w as usize));
    }
}

#[test]
fn graph_in_a_small_viewport_is_refused() {
    let adj = vec![vec![0u8]];
    assert_eq!(draw_ascii_graph(&adj, &directions(1), 3, 20), Err(GraphError::ViewportTooSmall));
    assert_eq!(draw_ascii_graph(&adj, &[], 3, 20), Err(GraphError::ViewportTooSmall));
}

#[test]
fn graph_needs_one_direction_for_each_node() {
    let adj = vec![vec![0u8, 1], vec![1, 0]];
    assert_eq!(draw_ascii_graph(&adj, &directions(3), 40, 20), Err(GraphError::DirectionCount));
    assert_eq!(draw_ascii_graph(&adj, &directions(1), 40, 20), Err(GraphError::DirectionCount));
}

#[test]
fn graph_in_the_smallest_viewport_cuts_the_label() {
    let adj = vec![vec![0u8]];
    let frame = draw_ascii_graph(&adj, &directions(1), 4, 4).unwrap();
    assert_eq!(frame, vec!["    ", "    ", "  (0", "    "]);
}

#[test]
fn label_at_the_right_edge_is_cut() {
    let adj = vec![vec![0u8]];
    let edge = Direction { cos: 147456, sin: 0 };
    let frame = draw_ascii_graph(&adj, &[edge], 40, 20).unwrap();
    assert_eq!(frame[10], format!("{}(0", " ".repeat(38)));
}

#[test]
fn node_outside_the_viewport_has_no_label_but_its_edges_show() {
    let adj = vec![vec![0u8, 1], vec![0, 0]];
    let out = Direction { cos: -65536 * 3, sin: 0 };
    let inside = Direction { cos: 0, sin: 0 };
    let frame = draw_ascii_graph(&adj, &[out, inside], 40, 20).unwrap();
    assert_eq!(frame[10], format!("{}(1){}", "*".repeat(20), " ".repeat(17)));
}

#[test]
fn labels_show_every_digit() {
    let n = 11;
    let adj: Vec<Vec<u8>> = vec![vec![0u8; n]; n];
    let frame = draw_ascii_graph(&adj, &directions(n), 40, 20).unwrap();
    let row: Vec<char> = frame[6].chars().collect();
    assert_eq!(row[27..31].iter().collect::<String>(), "(10)");
}

#[test]
fn later_labels_cover_earlier_ones_and_edges() {
    let adj = vec![vec![0u8, 1, 1], vec![0, 0, 0], vec![0, 0, 0]];
    let a = Direction { cos: 0, sin: 0 };
    let b = Direction { cos: 8192, sin: 0 };
    let c = Direction { cos: 65536, sin: 0 };
    let frame = draw_ascii_graph(&adj, &[a, b, c], 40, 20).unwrap();
    assert_eq!(frame[10], format!("{}((1)****(2){}", " ".repeat(20), " ".repeat(9)));
}

#[test]
fn sample_graphs_alternate() {
    assert_eq!(
        sample_matrix(0),
        vec![
            vec![0, 1, 1, 0, 0, 0],
            vec![1, 0, 0, 0, 0, 0],
            vec![1, 0, 0, 1, 1, 0],
            vec![0, 0, 1, 0, 0, 0],
            vec![0, 0, 1, 0, 0, 1],
            vec![0, 0, 0, 0, 1, 0],
        ]
    );
    assert_eq!(
        sample_matrix(1),
        vec![
            vec![0, 1, 0, 0, 1, 0],
            vec![1, 0, 1, 0, 0, 0],
            vec![0, 1, 0, 1, 0, 0],
            vec![0, 0, 1, 0, 0, 1],
            vec![1, 0, 0, 0, 0, 0],
            vec![0, 0, 0, 1, 0, 0],
        ]
    );
    assert_eq!(sample_matrix(2), sample_matrix(0));
    assert_eq!(sample_matrix(usize::MAX), sample_matrix(1));
}

#[test]
fn draw_shows_the_sample_graph_of_the_tick() {
    let dirs = directions(6);
    for tick in 0..4usize {
        assert_eq!(draw(tick, &dirs), draw_ascii_graph(&sample_matrix(tick), &dirs, 40, 20));
    }
    assert_ne!(draw(0, &dirs), draw(1, &dirs));
    assert_eq!(draw(0, &directions(5)), Err(GraphError::DirectionCount));
}

#[test]
fn draw_of_the_first_sample_graph() {
    let frame = draw(0, &directions(6)).unwrap();
    assert_eq!(frame.len(), 20);
    let labels: Vec<(usize, usize, &str)> =
        vec![(28, 10, "(0)"), (24, 17, "(1)"), (16, 17, "(2)"), (12, 10, "(3)"), (16, 3, "(4)"), (24, 3, "(5)")];
    for (x, y, label) in labels {
        let row: Vec<char> = frame[y].chars().collect();
        assert_eq!(row[x..x + 3].iter().collect::<String>(), label);
    }
    assert_eq!(frame[3], format!("{}(4)*****(5){}", " ".repeat(16), " ".repeat(13)));
}

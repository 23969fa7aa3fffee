use troll_maze::draw::{color_of, render_triangle, Color, DrawStep, Point, CELL, MAX_PAINTED};
use troll_maze::{Direction, Maze, Piece};

fn lines(a: (i32, i32), b: (i32, i32), c: (i32, i32)) -> DrawStep {
    DrawStep::Lines {
        a: Point { x: a.0, y: a.1 },
        b: Point { x: b.0, y: b.1 },
        c: Point { x: c.0, y: c.1 },
    }
}

fn square(x: i32, y: i32) -> DrawStep {
    DrawStep::FillRect { x, y, width: 10, height: 10 }
}

const WHITE: Color = Color { r: 255, g: 255, b: 255 };

#[test]
fn the_colours_of_the_pieces() {
    assert_eq!(color_of(Piece::Boulder), Color { r: 128, g: 128, b: 128 });
    assert_eq!(color_of(Piece::Empty), WHITE);
    assert_eq!(color_of(Piece::Exit), Color { r: 255, g: 255, b: 0 });
    assert_eq!(color_of(Piece::Wall), Color { r: 0, g: 0, b: 0 });
    assert_eq!(color_of(Piece::Player(Direction::Up)), Color { r: 255, g: 0, b: 0 });
    assert_eq!(color_of(Piece::Troll(Direction::Down)), Color { r: 139, g: 69, b: 19 });
    assert_eq!(CELL, 10);
    assert_eq!(MAX_PAINTED, (i32::MAX / 10) as usize);
}

#[test]
fn the_arrow_heads() {
    assert_eq!(
        render_triangle(Direction::Left, 20, 30, 10, 10),
        lines((25, 40), (20, 35), (25, 30))
    );
    assert_eq!(
        render_triangle(Direction::Right, 20, 30, 10, 10),
        lines((25, 40), (30, 35), (25, 30))
    );
    assert_eq!(
        render_triangle(Direction::Up, 20, 30, 10, 10),
        lines((20, 35), (25, 30), (30, 35))
    );
    assert_eq!(
        render_triangle(Direction::Down, 20, 30, 10, 10),
        lines((20, 35), (25, 40), (30, 35))
    );
    assert_eq!(render_triangle(Direction::Down, -7, 0, 5, 3), lines((-7, 1), (-5, 3), (-2, 1)));
}

#[test]
fn the_picture_of_a_maze() {
    let m = Maze::from_rows(vec![
        vec![Piece::Boulder, Piece::Player(Direction::Left)],
        vec![Piece::Troll(Direction::Down), Piece::Exit],
    ])
    .unwrap();
    assert_eq!(
        m.render().unwrap(),
        vec![
            square(0, 0),
            DrawStep::SetColor(Color { r: 128, g: 128, b: 128 }),
            square(0, 0),
            DrawStep::SetColor(WHITE),
            square(10, 0),
            DrawStep::SetColor(Color { r: 255, g: 0, b: 0 }),
            lines((15, 10), (10, 5), (15, 0)),
            square(0, 10),
            DrawStep::SetColor(Color { r: 139, g: 69, b: 19 }),
            lines((0, 15), (5, 20), (10, 15)),
            square(10, 10),
            DrawStep::SetColor(Color { r: 255, g: 255, b: 0 }),
            square(10, 10),
            DrawStep::SetColor(WHITE),
        ]
    );
}

#[test]
fn the_picture_of_free_ground_and_walls() {
    let m = Maze::from_bytes(b" W\n").unwrap();
    assert_eq!(
        m.render().unwrap(),
        vec![
            square(0, 0),
            DrawStep::SetColor(WHITE),
            square(0, 0),
            DrawStep::SetColor(WHITE),
            square(10, 0),
            DrawStep::SetColor(Color { r: 0, g: 0, b: 0 }),
            square(10, 0),
            DrawStep::SetColor(WHITE),
        ]
    );
}

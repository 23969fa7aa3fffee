use troll_maze::{Direction, GameState, Maze, Phase, Piece, Session, TrollAction};

fn grid(rows: Vec<Vec<Piece>>) -> Maze {
    Maze::from_rows(rows).unwrap()
}

fn cells(m: &Maze) -> Vec<Vec<Piece>> {
    let mut out = Vec::new();
    for y in 0..m.rows() {
        let mut row = Vec::new();
        for x in 0..m.cols() {
            row.push(m.get(x, y).unwrap());
        }
        out.push(row);
    }
    out
}

#[test]
fn trolls_are_listed_in_row_major_order() {
    let m = grid(vec![
        vec![Piece::Empty, Piece::Troll(Direction::Left), Piece::Troll(Direction::Up)],
        vec![Piece::Troll(Direction::Down), Piece::Player(Direction::Up), Piece::Boulder],
        vec![Piece::Exit, Piece::Wall, Piece::Troll(Direction::Right)],
    ]);
    assert_eq!(
        m.find_trolls(),
        vec![
            (1, 0, Direction::Left),
            (2, 0, Direction::Up),
            (0, 1, Direction::Down),
            (2, 2, Direction::Right),
        ]
    );
    assert_eq!(m.find_player(), Some((1, 1, Direction::Up)));
}

#[test]
fn a_troll_turns_in_place() {
    let mut m = grid(vec![vec![Piece::Empty, Piece::Troll(Direction::Left), Piece::Empty]]);
    assert_eq!(
        m.step_troll(1, 0, Direction::Left, TrollAction::Turn(Direction::Down)),
        GameState::Moved
    );
    assert_eq!(
        cells(&m),
        vec![vec![Piece::Empty, Piece::Troll(Direction::Down), Piece::Empty]]
    );
}

#[test]
fn a_troll_steps_the_way_it_faces() {
    let mut m = grid(vec![vec![Piece::Empty, Piece::Troll(Direction::Left), Piece::Empty]]);
    assert_eq!(m.step_troll(1, 0, Direction::Left, TrollAction::Advance), GameState::Moved);
    assert_eq!(
        cells(&m),
        vec![vec![Piece::Troll(Direction::Left), Piece::Empty, Piece::Empty]]
    );
    assert_eq!(m.step_troll(0, 0, Direction::Left, TrollAction::Advance), GameState::InvalidMove);
    assert_eq!(
        cells(&m),
        vec![vec![Piece::Troll(Direction::Left), Piece::Empty, Piece::Empty]]
    );
}

#[test]
fn a_troll_reaching_the_player_kills() {
    let mut m = grid(vec![vec![Piece::Player(Direction::Up), Piece::Troll(Direction::Left)]]);
    let before = cells(&m);
    assert_eq!(m.step_troll(1, 0, Direction::Left, TrollAction::Advance), GameState::Dead);
    assert_eq!(cells(&m), before);
}

#[test]
fn a_troll_is_turned_back_by_exit_wall_and_troll() {
    for blocker in [Piece::Exit, Piece::Wall, Piece::Troll(Direction::Up)] {
        let mut m = grid(vec![vec![Piece::Troll(Direction::Right), blocker]]);
        let before = cells(&m);
        assert_eq!(
            m.step_troll(0, 0, Direction::Right, TrollAction::Advance),
            GameState::InvalidMove
        );
        assert_eq!(cells(&m), before);
    }
}

#[test]
fn a_troll_pushes_a_boulder_and_crushes_a_troll() {
    let mut m = grid(vec![vec![
        Piece::Troll(Direction::Right),
        Piece::Boulder,
        Piece::Troll(Direction::Up),
    ]]);
    assert_eq!(m.step_troll(0, 0, Direction::Right, TrollAction::Advance), GameState::Moved);
    assert_eq!(
        cells(&m),
        vec![vec![Piece::Empty, Piece::Troll(Direction::Right), Piece::Boulder]]
    );
}

#[test]
fn a_troll_that_is_gone_takes_no_turn() {
    let mut m = grid(vec![vec![Piece::Boulder, Piece::Empty, Piece::Troll(Direction::Up)]]);
    let before = cells(&m);
    assert_eq!(m.step_troll(0, 0, Direction::Up, TrollAction::Advance), GameState::InvalidMove);
    assert_eq!(
        m.step_troll(0, 0, Direction::Up, TrollAction::Turn(Direction::Left)),
        GameState::InvalidMove
    );
    assert_eq!(
        m.step_troll(2, 0, Direction::Left, TrollAction::Turn(Direction::Right)),
        GameState::InvalidMove
    );
    assert_eq!(m.step_troll(5, 5, Direction::Up, TrollAction::Advance), GameState::InvalidMove);
    assert_eq!(cells(&m), before);
}

#[test]
fn a_tick_without_trolls_changes_nothing() {
    let mut m = grid(vec![vec![Piece::Player(Direction::Up), Piece::Boulder, Piece::Exit]]);
    let before = cells(&m);
    for _ in 0..20 {
        assert_eq!(m.move_trolls(), GameState::Moved);
        assert_eq!(cells(&m), before);
    }
}

#[test]
fn a_tick_leaves_player_walls_and_exit_alone() {
    let mut m = grid(vec![
        vec![Piece::Wall, Piece::Wall, Piece::Wall, Piece::Wall, Piece::Wall],
        vec![Piece::Wall, Piece::Troll(Direction::Up), Piece::Empty, Piece::Boulder, Piece::Wall],
        vec![Piece::Wall, Piece::Empty, Piece::Troll(Direction::Left), Piece::Empty, Piece::Exit],
        vec![Piece::Wall, Piece::Wall, Piece::Wall, Piece::Player(Direction::Up), Piece::Wall],
    ]);
    for _ in 0..300 {
        let outcome = m.move_trolls();
        assert!(outcome == GameState::Moved || outcome == GameState::Dead);
        assert_eq!(m.find_player(), Some((3, 3, Direction::Up)));
        assert_eq!(m.get(4, 2), Some(Piece::Exit));
        for (x, y, _) in m.find_trolls() {
            assert!(1 <= x && x < 4 && 1 <= y && y < 3);
        }
        assert!(m.find_trolls().len() <= 2);
        let boulders = cells(&m).iter().flatten().filter(|p| **p == Piece::Boulder).count();
        assert_eq!(boulders, 1);
        for x in 0..5 {
            assert_eq!(m.get(x, 0), Some(Piece::Wall));
        }
    }
}

#[test]
fn a_tick_both_turns_and_moves_trolls() {
    let start = grid(vec![vec![
        Piece::Empty,
        Piece::Empty,
        Piece::Troll(Direction::Left),
        Piece::Empty,
        Piece::Empty,
    ]]);
    let mut stepped = false;
    let mut turned = false;
    for _ in 0..400 {
        let mut m = start.clone();
        assert_eq!(m.move_trolls(), GameState::Moved);
        let trolls = m.find_trolls();
        assert_eq!(trolls.len(), 1);
        let (x, y, dir) = trolls[0];
        assert_eq!(y, 0);
        if x == 1 {
            assert_eq!(dir, Direction::Left);
            stepped = true;
        } else {
            assert_eq!(x, 2);
            if dir != Direction::Left {
                turned = true;
            }
        }
    }
    assert!(stepped);
    assert!(turned);
}

#[test]
fn a_tick_in_which_a_troll_reaches_the_player_reports_dead() {
    let start = grid(vec![vec![Piece::Player(Direction::Up), Piece::Troll(Direction::Left)]]);
    let mut died = false;
    for _ in 0..400 {
        let mut m = start.clone();
        if m.move_trolls() == GameState::Dead {
            assert_eq!(cells(&m), cells(&start));
            died = true;
        } else {
            assert_eq!(m.find_player(), Some((0, 0, Direction::Up)));
            assert_eq!(m.find_trolls().len(), 1);
        }
    }
    assert!(died);
}

#[test]
fn a_session_reports_dead_after_the_tick_that_killed() {
    let mut session = Session::new(b"O \n  \n").unwrap();
    assert_eq!(session.phase(), Phase::Active);
    assert!(session.is_active());
    assert_eq!(session.tick_trolls(), GameState::Moved);
    assert!(session.is_active());

    let text = b"     \n     \n     \n";
    let mut killed = false;
    for _ in 0..200 {
        let mut s = Session::new(text).unwrap();
        for _ in 0..200 {
            if s.tick_trolls() == GameState::Dead {
                break;
            }
        }
        if s.phase() == Phase::Dead {
            killed = true;
            let frozen = cells(s.maze());
            assert!(!s.is_active());
            assert_eq!(s.request_direction(Direction::Left), GameState::Dead);
            assert_eq!(s.tick_trolls(), GameState::Dead);
            assert_eq!(cells(s.maze()), frozen);
            assert_eq!(s.phase(), Phase::Dead);
            assert_eq!(s.restart(b"?"), Err(troll_maze::LoadError::InvalidMapSymbol));
            assert_eq!(s.phase(), Phase::Dead);
            assert_eq!(s.restart(text), Ok(()));
            assert_eq!(s.phase(), Phase::Active);
            break;
        }
    }
    assert!(killed);
}

#[test]
fn a_session_ends_when_the_player_wins() {
    let mut s = Session::new(b"OX\n").unwrap();
    assert_eq!(s.maze().find_player(), Some((0, 0, Direction::Up)));
    assert_eq!(s.request_direction(Direction::Up), GameState::InvalidMove);
    assert_eq!(s.phase(), Phase::Active);
    assert_eq!(s.request_direction(Direction::Right), GameState::Moved);
    assert_eq!(s.phase(), Phase::Active);
    assert_eq!(s.request_direction(Direction::Right), GameState::Won);
    assert_eq!(s.phase(), Phase::Won);
    assert_eq!(s.request_direction(Direction::Left), GameState::Won);
    assert_eq!(s.tick_trolls(), GameState::Won);
    assert_eq!(s.maze().find_player(), Some((0, 0, Direction::Right)));
    assert_eq!(s.restart(b"O \n"), Ok(()));
    assert_eq!(s.phase(), Phase::Active);
    assert_eq!(s.maze().cols(), 2);
    assert_eq!(s.request_direction(Direction::Right), GameState::Moved);
}

use troll_maze::loader::piece_of_symbol;
use troll_maze::{make_new_game, Direction, LoadError, Maze, Piece};

fn count(m: &Maze, wanted: fn(Piece) -> bool) -> usize {
    let mut n = 0;
    for y in 0..m.rows() {
        for x in 0..m.cols() {
            if wanted(m.get(x, y).unwrap()) {
                n += 1;
            }
        }
    }
    n
}

fn is_player(p: Piece) -> bool {
    matches!(p, Piece::Player(_))
}

fn is_troll(p: Piece) -> bool {
    matches!(p, Piece::Troll(_))
}

#[test]
fn every_symbol_has_its_piece() {
    assert_eq!(piece_of_symbol(b' '), Some(Piece::Empty));
    assert_eq!(piece_of_symbol(b'#'), Some(Piece::Boulder));
    assert_eq!(piece_of_symbol(b'W'), Some(Piece::Wall));
    assert_eq!(piece_of_symbol(b'X'), Some(Piece::Exit));
    assert_eq!(piece_of_symbol(b'O'), Some(Piece::Player(Direction::Up)));
    assert_eq!(piece_of_symbol(b'o'), None);
    assert_eq!(piece_of_symbol(b'\n'), None);
    assert_eq!(piece_of_symbol(b'T'), None);
    assert_eq!(piece_of_symbol(0), None);
    assert_eq!(piece_of_symbol(255), None);
}

#[test]
fn a_map_is_read_row_by_row() {
    let m = Maze::from_bytes(b"#X \nW O\n").unwrap();
    assert_eq!(m.rows(), 2);
    assert_eq!(m.cols(), 3);
    assert_eq!(m.get(0, 0), Some(Piece::Boulder));
    assert_eq!(m.get(1, 0), Some(Piece::Exit));
    assert_eq!(m.get(2, 0), Some(Piece::Empty));
    assert_eq!(m.get(0, 1), Some(Piece::Wall));
    assert_eq!(m.get(1, 1), Some(Piece::Empty));
    assert_eq!(m.get(2, 1), Some(Piece::Player(Direction::Up)));
}

#[test]
fn the_last_newline_is_optional() {
    let with = Maze::from_bytes(b"# \n X\n").unwrap();
    let without = Maze::from_bytes(b"# \n X").unwrap();
    assert_eq!(with.rows(), 2);
    assert_eq!(without.rows(), 2);
    for y in 0..2 {
        for x in 0..2 {
            assert_eq!(with.get(x, y), without.get(x, y));
        }
    }
}

#[test]
fn an_empty_text_is_no_map() {
    assert_eq!(Maze::from_bytes(b"").err(), Some(LoadError::EmptyMap));
    assert_eq!(Maze::from_bytes(b"\n").err(), Some(LoadError::EmptyMap));
    assert_eq!(Maze::from_bytes(b"\n\n").err(), Some(LoadError::EmptyMap));
    assert_eq!(Maze::from_bytes(b"\n  \n").err(), Some(LoadError::EmptyMap));
}

#[test]
fn an_unknown_symbol_is_refused() {
    assert_eq!(Maze::from_bytes(b"  \n ?\n").err(), Some(LoadError::InvalidMapSymbol));
    assert_eq!(Maze::from_bytes(b"T").err(), Some(LoadError::InvalidMapSymbol));
    assert_eq!(Maze::from_bytes(b"  \r\n  \r\n").err(), Some(LoadError::InvalidMapSymbol));
    let accented = "  \n \u{e9}\n".as_bytes();
    assert_eq!(Maze::from_bytes(accented).err(), Some(LoadError::InvalidMapSymbol));
}

#[test]
fn an_unknown_symbol_outweighs_other_faults() {
    assert_eq!(Maze::from_bytes(b"  \n \n?\n").err(), Some(LoadError::InvalidMapSymbol));
    assert_eq!(Maze::from_bytes(b"OO?").err(), Some(LoadError::InvalidMapSymbol));
    assert_eq!(Maze::from_bytes(b"\n?").err(), Some(LoadError::InvalidMapSymbol));
}

#[test]
fn rows_of_different_length_are_refused() {
    assert_eq!(Maze::from_bytes(b"  \n   \n").err(), Some(LoadError::NonRectangular));
    assert_eq!(Maze::from_bytes(b"   \n  \n").err(), Some(LoadError::NonRectangular));
    assert_eq!(Maze::from_bytes(b"  \n\n  \n").err(), Some(LoadError::NonRectangular));
    assert_eq!(Maze::from_bytes(b"  \n  \n\n").err(), Some(LoadError::NonRectangular));
    assert_eq!(Maze::from_bytes(b"OO\nO\n").err(), Some(LoadError::NonRectangular));
}

#[test]
fn a_second_player_is_refused() {
    assert_eq!(Maze::from_bytes(b"OO").err(), Some(LoadError::DuplicatePlayer));
    assert_eq!(Maze::from_bytes(b"O \n O\n").err(), Some(LoadError::DuplicatePlayer));
    assert_eq!(
        Maze::from_rows(vec![
            vec![Piece::Player(Direction::Left), Piece::Empty],
            vec![Piece::Empty, Piece::Player(Direction::Left)],
        ])
        .err(),
        Some(LoadError::DuplicatePlayer)
    );
}

#[test]
fn a_matrix_is_checked_like_a_map() {
    assert_eq!(Maze::from_rows(vec![]).err(), Some(LoadError::EmptyMap));
    assert_eq!(Maze::from_rows(vec![vec![]]).err(), Some(LoadError::EmptyMap));
    assert_eq!(Maze::from_rows(vec![vec![], vec![Piece::Empty]]).err(), Some(LoadError::EmptyMap));
    assert_eq!(
        Maze::from_rows(vec![vec![Piece::Empty], vec![]]).err(),
        Some(LoadError::NonRectangular)
    );
    let m = Maze::from_rows(vec![
        vec![Piece::Troll(Direction::Down), Piece::Troll(Direction::Down)],
        vec![Piece::Wall, Piece::Exit],
    ])
    .unwrap();
    assert_eq!(m.rows(), 2);
    assert_eq!(m.cols(), 2);
    assert_eq!(m.get(1, 0), Some(Piece::Troll(Direction::Down)));
    assert_eq!(m.get(1, 1), Some(Piece::Exit));
}

#[test]
fn a_new_game_has_one_player_and_three_trolls() {
    let text = b"#######\n#     #\n#  #  #\n#    X#\n#######\n";
    let map = Maze::from_bytes(text).unwrap();
    for _ in 0..50 {
        let m = make_new_game(text).unwrap();
        assert_eq!(m.rows(), 5);
        assert_eq!(m.cols(), 7);
        assert_eq!(count(&m, is_player), 1);
        assert_eq!(count(&m, is_troll), 3);
        for y in 0..5 {
            for x in 0..7 {
                let was = map.get(x, y).unwrap();
                let is = m.get(x, y).unwrap();
                if was != is {
                    assert_eq!(was, Piece::Empty);
                    assert!(1 <= x && x < 6 && 1 <= y && y < 4);
                    assert!(is_player(is) || is_troll(is));
                }
            }
        }
    }
}

#[test]
fn a_new_game_keeps_the_player_that_the_map_marks() {
    let text = b"O    \n     \n     \n";
    for _ in 0..20 {
        let m = make_new_game(text).unwrap();
        assert_eq!(m.find_player(), Some((0, 0, Direction::Up)));
        assert_eq!(count(&m, is_player), 1);
        assert_eq!(count(&m, is_troll), 3);
        assert_eq!(m.find_trolls().len(), 3);
        for (x, y, _) in m.find_trolls() {
            assert_eq!(y, 1);
            assert!(1 <= x && x < 4);
        }
    }
}

#[test]
fn a_new_game_places_as_many_trolls_as_fit() {
    let m = make_new_game(b"     \n     \n     \n").unwrap();
    assert_eq!(count(&m, is_player), 1);
    assert_eq!(count(&m, is_troll), 2);
    let m = make_new_game(b"   \n   \n   \n").unwrap();
    assert_eq!(m.find_player().map(|p| (p.0, p.1)), Some((1, 1)));
    assert_eq!(count(&m, is_troll), 0);
    let m = make_new_game(b"O \n  \n").unwrap();
    assert_eq!(count(&m, is_player), 1);
    assert_eq!(count(&m, is_troll), 0);
}

#[test]
fn a_new_game_needs_room_for_the_player() {
    assert_eq!(make_new_game(b"  \n  \n").err(), Some(LoadError::MissingPlayer));
    assert_eq!(make_new_game(b"   \n # \n   \n").err(), Some(LoadError::MissingPlayer));
    assert_eq!(make_new_game(b"").err(), Some(LoadError::EmptyMap));
    assert_eq!(make_new_game(b"a").err(), Some(LoadError::InvalidMapSymbol));
    assert_eq!(make_new_game(b" \n  ").err(), Some(LoadError::NonRectangular));
    assert_eq!(make_new_game(b"O\nO").err(), Some(LoadError::DuplicatePlayer));
}

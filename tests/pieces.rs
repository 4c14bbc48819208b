use tetrominos::{
    color_from_index, get_piece, match_key, piece_from_index, random_color, random_piece, rotate,
    Color, Command, Key, Piece,
};

const ALL: [Piece; 25] = [
    Piece::I,
    Piece::J,
    Piece::L,
    Piece::O,
    Piece::S,
    Piece::T,
    Piece::Z,
    Piece::IL,
    Piece::JL,
    Piece::LL,
    Piece::SL,
    Piece::TL,
    Piece::ZL,
    Piece::IR,
    Piece::JR,
    Piece::LR,
    Piece::SR,
    Piece::TR,
    Piece::ZR,
    Piece::I2,
    Piece::J2,
    Piece::L2,
    Piece::S2,
    Piece::T2,
    Piece::Z2,
];

fn count_filled(m: &[[u8; 4]; 4]) -> usize {
    m.iter().map(|row| row.iter().filter(|&&x| x == 1).count()).sum()
}

#[test]
fn every_piece_has_four_cells() {
    for p in ALL.iter() {
        assert_eq!(count_filled(&get_piece(*p)), 4);
    }
}

#[test]
fn shapes_of_spawn_orientations() {
    assert_eq!(get_piece(Piece::O), [[0, 0, 0, 0], [0, 1, 1, 0], [0, 1, 1, 0], [0, 0, 0, 0]]);
    assert_eq!(get_piece(Piece::I), [[0, 0, 0, 0], [1, 1, 1, 1], [0, 0, 0, 0], [0, 0, 0, 0]]);
    assert_eq!(get_piece(Piece::T), [[0, 0, 0, 0], [0, 1, 0, 0], [1, 1, 1, 0], [0, 0, 0, 0]]);
    assert_eq!(get_piece(Piece::IR), [[0, 0, 1, 0], [0, 0, 1, 0], [0, 0, 1, 0], [0, 0, 1, 0]]);
    assert_eq!(get_piece(Piece::ZL), [[0, 0, 0, 0], [0, 1, 0, 0], [1, 1, 0, 0], [1, 0, 0, 0]]);
}

#[test]
fn rotate_four_times_is_identity() {
    for p in ALL.iter() {
        let q = rotate(rotate(rotate(rotate(*p))));
        assert_eq!(q, *p);
    }
}

#[test]
fn rotate_o_is_identity() {
    assert_eq!(rotate(Piece::O), Piece::O);
}

#[test]
fn rotate_runs_through_the_cycle() {
    assert_eq!(rotate(Piece::J), Piece::JR);
    assert_eq!(rotate(Piece::JR), Piece::J2);
    assert_eq!(rotate(Piece::J2), Piece::JL);
    assert_eq!(rotate(Piece::JL), Piece::J);
    for p in ALL.iter() {
        if *p != Piece::O {
            assert_ne!(rotate(*p), *p);
        }
    }
}

#[test]
fn piece_indices_name_spawn_orientations() {
    let expected = [Piece::I, Piece::J, Piece::L, Piece::O, Piece::S, Piece::T, Piece::Z];
    for i in 0..7u64 {
        assert_eq!(piece_from_index(i), expected[i as usize]);
    }
}

#[test]
fn random_pieces_are_spawn_orientations_and_vary() {
    let spawn = [Piece::I, Piece::J, Piece::L, Piece::O, Piece::S, Piece::T, Piece::Z];
    let mut seen = Vec::new();
    for _ in 0..300 {
        let p = random_piece();
        assert!(spawn.contains(&p));
        if !seen.contains(&p) {
            seen.push(p);
        }
    }
    assert!(seen.len() > 1);
}

#[test]
fn color_indices() {
    assert_eq!(color_from_index(0), Color::Red);
    assert_eq!(color_from_index(5), Color::Cyan);
    assert_eq!(color_from_index(6), Color::DarkRed);
    assert_eq!(color_from_index(11), Color::DarkCyan);
}

#[test]
fn random_colors_are_piece_colors_and_vary() {
    let mut seen = Vec::new();
    for _ in 0..300 {
        let c = random_color();
        assert!(c != Color::Black && c != Color::Grey);
        if !seen.contains(&c) {
            seen.push(c);
        }
    }
    assert!(seen.len() > 1);
}

#[test]
fn keys_map_to_commands() {
    assert_eq!(match_key(Key::Left), Command::Left);
    assert_eq!(match_key(Key::Right), Command::Right);
    assert_eq!(match_key(Key::Up), Command::Up);
    assert_eq!(match_key(Key::Down), Command::Down);
    assert_eq!(match_key(Key::Esc), Command::Escape);
    assert_eq!(match_key(Key::Char('a')), Command::Left);
    assert_eq!(match_key(Key::Char('S')), Command::Down);
    assert_eq!(match_key(Key::Char('l')), Command::Right);
    assert_eq!(match_key(Key::Char('k')), Command::Up);
    assert_eq!(match_key(Key::Char('W')), Command::Up);
    assert_eq!(match_key(Key::Char(' ')), Command::Space);
}

#[test]
fn unmapped_keys_are_ignored() {
    assert_eq!(match_key(Key::Char('x')), Command::Empty);
    assert_eq!(match_key(Key::Char('H')), Command::Empty);
    assert_eq!(match_key(Key::Other), Command::Empty);
}

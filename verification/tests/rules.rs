//! Positions, moves and the rules.

use clrsrc::attacks::{attacks_by_color, between, is_attacked, king_attacks, knight_attacks, pawn_attacks};
use clrsrc::bitboard::{lsb, pop_lsb, popcount, print_bb};
use clrsrc::board::{Position, STARTPOS_FEN};
use clrsrc::fen::fen_is_readable;
use clrsrc::game::{play_named, start_position, Start};
use clrsrc::magic::{bishop_attacks, queen_attacks, rook_attacks};
use clrsrc::movegen::{generate_all, generate_captures, generate_legal};
use clrsrc::perft::{first_mismatch, perft, perft_divide};
use clrsrc::play::{make_null, try_move, unmake_null};
use clrsrc::tables::{enumerate_subsets, find_magic, slider_mask, MagicRng, MagicTables};
use clrsrc::types::{
    chars_of, make_piece, mirror_sq, piece_char, piece_from_char, sq, sq_from_str, CastlingRights, Color, Move,
    MoveList, PieceType,
};
use clrsrc::zobrist;

fn legal(fen: &str) -> Vec<String> {
    let mut pos = Position::from_fen(fen).unwrap();
    let mut list = MoveList::new();
    generate_legal(&mut pos, &mut list);
    let mut v: Vec<String> = (0..list.len).map(|i| list.moves[i].to_uci()).collect();
    v.sort();
    v
}

#[test]
fn perft_of_the_standard_positions() {
    let suite: [(&str, Vec<u64>); 6] = [
        ("rnbqkbnr/pppppppp/8/8/8/8/PPPPPPPP/RNBQKBNR w KQkq - 0 1", vec![20, 400, 8_902, 197_281]),
        ("r3k2r/p1ppqpb1/bn2pnp1/3PN3/1p2P3/2N2Q1p/PPPBBPPP/R3K2R w KQkq - 0 1", vec![48, 2_039, 97_862]),
        ("8/2p5/3p4/KP5r/1R3p1k/8/4P1P1/8 w - - 0 1", vec![14, 191, 2_812, 43_238]),
        ("r3k2r/Pppp1ppp/1b3nbN/nP6/BBP1P3/q4N2/Pp1P2PP/R2Q1RK1 w kq - 0 1", vec![6, 264, 9_467]),
        ("rnbq1k1r/pp1Pbppp/2p5/8/2B5/8/PPP1NnPP/RNBQK2R w KQ - 1 8", vec![44, 1_486, 62_379]),
        ("r4rk1/1pp1qppp/p1np1n2/2b1p1B1/2B1P1b1/P1NP1N2/1PP1QPPP/R4RK1 w - - 0 10", vec![46, 2_079, 89_890]),
    ];
    for (fen, counts) in suite {
        let mut pos = Position::from_fen(fen).unwrap();
        assert_eq!(first_mismatch(&mut pos, &counts), None, "{}", fen);
        assert_eq!(pos.to_fen(), fen);
    }
}

#[test]
fn a_wrong_count_is_found() {
    let mut pos = Position::startpos();
    assert_eq!(first_mismatch(&mut pos, &vec![20, 401, 8902]), Some((2, 400)));
    assert_eq!(perft(&mut pos, 0), 1);
    let (moves, total) = perft_divide(&mut pos, 2);
    assert_eq!(moves.len(), 20);
    assert_eq!(total, 400);
    assert!(moves.iter().all(|m| m.1 == 20));
}

#[test]
fn fens_are_read_and_written() {
    for fen in [
        STARTPOS_FEN,
        "r3k2r/p1ppqpb1/bn2pnp1/3PN3/1p2P3/2N2Q1p/PPPBBPPP/R3K2R w KQkq - 0 1",
        "rnbqkbnr/ppp1p1pp/8/3pPp2/8/8/PPPP1PPP/RNBQKBNR w KQkq f6 0 3",
        "8/8/8/8/8/8/8/K1k5 b - - 99 120",
        "r3k2r/8/8/8/8/8/8/R3K2R b Qk - 3 7",
    ] {
        let p = Position::from_fen(fen).unwrap();
        assert_eq!(p.to_fen(), fen);
        let q = Position::from_fen(&p.to_fen()).unwrap();
        assert_eq!(p.hash, q.hash);
        assert_eq!(p.pawn_hash, q.pawn_hash);
        assert_eq!(p.mailbox, q.mailbox);
    }
    assert_eq!(Position::startpos().to_fen(), STARTPOS_FEN);
    assert_eq!(Position::startpos().hash, Position::from_fen(STARTPOS_FEN).unwrap().hash);
}

#[test]
fn fen_errors_and_defaults() {
    assert_eq!(Position::from_fen("8/8/8 w -").err(), Some("FEN needs at least 4 fields"));
    assert_eq!(Position::from_fen("8/8/8/8/8/8/8/K1x5 w - -").err(), Some("Invalid piece character"));
    assert_eq!(Position::from_fen("8/8/8/8/8/8/8/K1k5 x - -").err(), Some("Invalid side to move"));
    let p = Position::from_fen("8/8/8/8/8/8/8/K1k5 w - -").unwrap();
    assert_eq!((p.halfmove_clock, p.fullmove), (0, 1));
    let p = Position::from_fen("8/8/8/8/8/8/8/K1k5 w - - x 70000").unwrap();
    assert_eq!((p.halfmove_clock, p.fullmove), (0, 1));
}

#[test]
fn starts_of_games() {
    assert!(matches!(start_position("startpos"), Start::Ready(_)));
    assert!(matches!(start_position(""), Start::Ready(_)));
    assert!(matches!(start_position("8/8 w - -"), Start::Unplayable) || matches!(start_position("8/8 w - -"), Start::Refused(_)));
    assert!(matches!(start_position("nonsense"), Start::Refused("FEN needs at least 4 fields")));
    assert!(matches!(start_position("8/8/8/8/8/8/8/8 w - - 0 1"), Start::Unplayable));
    assert!(matches!(start_position("k6R/8/8/8/8/8/8/K7 w - - 0 1"), Start::Unplayable));
    assert!(matches!(start_position("k7/8/8/8/8/8/8/K7 w K - 0 1"), Start::Unplayable));
    assert!(matches!(start_position("k7/8/8/8/8/8/8/K7 w - - 0 1"), Start::Ready(_)));
    assert!(matches!(start_position("/////////k7 w - - 0 1"), Start::Unplayable));
    assert!(matches!(start_position("k7/8/8/8/8/8/8/K7/K7 w - - 0 1"), Start::Unplayable));
}

#[test]
fn moves_are_undone() {
    for fen in [
        "r3k2r/p1ppqpb1/bn2pnp1/3PN3/1p2P3/2N2Q1p/PPPBBPPP/R3K2R w KQkq - 0 1",
        "rnbqkbnr/ppp1p1pp/8/3pPp2/8/8/PPPP1PPP/RNBQKBNR w KQkq f6 0 3",
        "n1n5/PPPk4/8/8/8/8/4Kppp/5N1N b - - 0 1",
    ] {
        let mut pos = Position::from_fen(fen).unwrap();
        let mut list = MoveList::new();
        generate_legal(&mut pos, &mut list);
        for i in 0..list.len {
            let mv = list.moves[i];
            let undo = pos.make_move(mv);
            let fresh = Position::from_fen(&pos.to_fen()).unwrap();
            assert_eq!(pos.hash, fresh.hash, "{} after {}", fen, mv.to_uci());
            assert_eq!(pos.pawn_hash, fresh.pawn_hash);
            assert_eq!(pos.pieces, fresh.pieces);
            assert_eq!(pos.colors, fresh.colors);
            pos.unmake_move(mv, undo);
            assert_eq!(pos.to_fen(), fen);
        }
    }
}

#[test]
fn a_passed_turn_is_undone() {
    let fen = "rnbqkbnr/ppp1p1pp/8/3pPp2/8/8/PPPP1PPP/RNBQKBNR w KQkq f6 0 3";
    let mut pos = Position::from_fen(fen).unwrap();
    let before = pos.hash;
    let u = make_null(&mut pos);
    assert_eq!(pos.side, Color::Black);
    assert_ne!(pos.hash, before);
    unmake_null(&mut pos, u);
    assert_eq!(pos.to_fen(), fen);
    assert_eq!(pos.hash, before);
}

#[test]
fn special_moves_are_generated() {
    let v = legal("r3k2r/8/8/8/8/8/8/R3K2R w KQkq - 0 1");
    assert!(v.contains(&"e1g1".to_string()) && v.contains(&"e1c1".to_string()));
    let v = legal("r3k2r/8/8/8/8/8/4r3/R3K2R w KQkq - 0 1");
    assert!(!v.contains(&"e1g1".to_string()) && !v.contains(&"e1c1".to_string()));
    let v = legal("rnbqkbnr/ppp1p1pp/8/3pPp2/8/8/PPPP1PPP/RNBQKBNR w KQkq f6 0 3");
    assert!(v.contains(&"e5f6".to_string()) && !v.contains(&"e5d6".to_string()));
    let v = legal("8/P6k/8/8/8/8/8/K7 w - - 0 1");
    assert_eq!(v, vec!["a1a2", "a1b1", "a1b2", "a7a8b", "a7a8n", "a7a8q", "a7a8r"]);
    assert_eq!(legal("7k/5Q2/6K1/8/8/8/8/8 b - - 0 1"), Vec::<String>::new());
}

#[test]
fn captures_are_those_of_all_moves() {
    let mut pos = Position::from_fen("r3k2r/p1ppqpb1/bn2pnp1/3PN3/1p2P3/2N2Q1p/PPPBBPPP/R3K2R w KQkq - 0 1").unwrap();
    let mut all = MoveList::new();
    generate_all(&pos, &mut all);
    let mut caps = MoveList::new();
    generate_captures(&pos, &mut caps);
    let a: Vec<Move> = (0..all.len).map(|i| all.moves[i]).filter(|m| m.is_capture() || m.is_promotion()).collect();
    let c: Vec<Move> = (0..caps.len).map(|i| caps.moves[i]).collect();
    assert_eq!(a.len(), c.len());
    for m in a {
        assert!(c.contains(&m));
    }
    let mv = pos.parse_uci_move("e2a6").unwrap();
    assert!(try_move(&mut pos, mv).is_some());
}

#[test]
fn moves_by_name() {
    let pos = Position::startpos();
    assert_eq!(pos.parse_uci_move("e2e4").unwrap().to_uci(), "e2e4");
    assert_eq!(pos.parse_uci_move("e2e5"), None);
    assert_eq!(pos.parse_uci_move("e2"), None);
    assert_eq!(pos.parse_uci_move("e2e4q"), None);
    let pos = Position::from_fen("8/P6k/8/8/8/8/8/K7 w - - 0 1").unwrap();
    assert_eq!(pos.parse_uci_move("a7a8q").unwrap().promo_piece_type(), PieceType::Queen);
    assert_eq!(pos.parse_uci_move("a7a8"), None);
    assert_eq!(Move::null().to_uci(), "0000");
}

#[test]
fn legal_moves_are_read_back_from_their_names() {
    for fen in [
        STARTPOS_FEN,
        "r3k2r/p1ppqpb1/bn2pnp1/3PN3/1p2P3/2N2Q1p/PPPBBPPP/R3K2R w KQkq - 0 1",
        "rnbqkbnr/ppp1p1pp/8/3pPp2/8/8/PPPP1PPP/RNBQKBNR w KQkq f6 0 3",
        "8/P6k/8/8/8/8/p6K/8 w - - 0 1",
    ] {
        let mut pos = Position::from_fen(fen).unwrap();
        let mut list = MoveList::new();
        generate_legal(&mut pos, &mut list);
        assert!(list.len > 0);
        for i in 0..list.len {
            assert_eq!(pos.parse_uci_move(&list.moves[i].to_uci()), Some(list.moves[i]));
        }
    }
}

#[test]
fn games_stop_at_the_first_bad_move() {
    let start = Position::startpos();
    let moves: Vec<Vec<char>> = ["e2e4", "e7e5", "e4e5", "g1f3"].iter().map(|m| chars_of(m)).collect();
    let g = play_named(&start, &moves);
    assert_eq!(g.played, 2);
    assert_eq!(g.hashes.len(), 3);
    assert_eq!(g.hashes[0], start.hash);
    assert_eq!(g.hashes[2], g.pos.hash);
    assert_eq!(g.pos.to_fen(), "rnbqkbnr/pppp1ppp/8/4p3/4P3/8/PPPP1PPP/RNBQKBNR w KQkq e6 0 2");
}

#[test]
fn keys_are_those_of_the_generator() {
    let keys = zobrist::init();
    assert_eq!(keys.len(), 793);
    let mut all: Vec<u64> = Vec::new();
    for c in [Color::White, Color::Black] {
        for t in [PieceType::Pawn, PieceType::Knight, PieceType::Bishop, PieceType::Rook, PieceType::Queen, PieceType::King] {
            for s in 0..64u8 {
                all.push(zobrist::piece_key(c, t, s));
            }
        }
    }
    for r in 0..16u8 {
        all.push(zobrist::castling_key(CastlingRights(r)));
    }
    for f in 0..8u8 {
        all.push(zobrist::ep_key(f));
    }
    all.push(zobrist::side_key());
    assert_eq!(all, keys);
}

#[test]
fn attacks_of_single_pieces() {
    assert_eq!(knight_attacks(sq(0, 0)), (1 << sq(1, 2)) | (1 << sq(2, 1)));
    assert_eq!(popcount(king_attacks(sq(4, 4))), 8);
    assert_eq!(pawn_attacks(Color::White, sq(0, 1)), 1 << sq(1, 2));
    assert_eq!(pawn_attacks(Color::Black, sq(7, 6)), 1 << sq(6, 5));
    assert_eq!(popcount(rook_attacks(sq(0, 0), 0)), 14);
    assert_eq!(popcount(bishop_attacks(sq(3, 3), 0)), 13);
    assert_eq!(popcount(queen_attacks(sq(3, 3), 0)), 27);
    assert_eq!(rook_attacks(sq(0, 0), (1 << sq(0, 2)) | (1 << sq(1, 0))), (1 << sq(0, 1)) | (1 << sq(0, 2)) | (1 << sq(1, 0)));
    let pos = Position::startpos();
    assert!(is_attacked(&pos.pieces, &pos.colors, sq(4, 2), Color::White));
    assert!(!is_attacked(&pos.pieces, &pos.colors, sq(4, 3), Color::White));
    assert_eq!(attacks_by_color(&pos.pieces, &pos.colors, Color::White) & 0xFF0000, 0xFF0000);
}

#[test]
fn lines_between_squares() {
    assert_eq!(between(sq(0, 0), sq(3, 0)), (1 << sq(1, 0)) | (1 << sq(2, 0)));
    assert_eq!(between(sq(3, 3), sq(0, 0)), (1 << sq(1, 1)) | (1 << sq(2, 2)));
    assert_eq!(between(sq(0, 0), sq(1, 2)), 0);
    assert_eq!(between(sq(0, 0), sq(0, 1)), 0);
    assert_eq!(clrsrc::attacks::line(sq(0, 0), sq(3, 0)), 0xFF);
    assert_eq!(popcount(clrsrc::attacks::line(sq(2, 2), sq(5, 5))), 8);
    assert_eq!(popcount(clrsrc::attacks::line(sq(1, 0), sq(0, 1))), 2);
    assert_eq!(clrsrc::attacks::line(sq(0, 0), sq(1, 2)), 0);
}

#[test]
fn tables_give_the_attacks_of_the_rays() {
    let t = MagicTables::init(100_000_000).unwrap();
    let mut x: u64 = 88172645463325252;
    for s in 0..64u8 {
        for _ in 0..200 {
            x ^= x << 13;
            x ^= x >> 7;
            x ^= x << 17;
            assert_eq!(t.bishop_attacks(s, x), bishop_attacks(s, x));
            assert_eq!(t.rook_attacks(s, x), rook_attacks(s, x));
        }
    }
    assert_eq!(t.table.len(), 107_648);
}

#[test]
fn magic_numbers_are_the_first_that_keep_apart() {
    assert!(MagicTables::init(0).is_none());
    let mask = slider_mask(true, 0);
    let mut rng = MagicRng(0xDEADBEEF12345678);
    let first = find_magic(0, mask, true, &mut rng, 100_000_000).unwrap();
    let t = MagicTables::init(100_000_000).unwrap();
    assert_eq!(t.bishops[0].magic, first.magic);
    assert_eq!(&t.table[..64], &first.table[..]);
    assert_eq!((t.bishops[0].offset, t.bishops[1].offset), (0, 64));
    let mut again = MagicRng(0xDEADBEEF12345678);
    let mut tries = 0;
    while again != rng {
        again.sparse_u64();
        tries += 1;
    }
    let mut short = MagicRng(0xDEADBEEF12345678);
    assert!(find_magic(0, mask, true, &mut short, tries - 1).is_none());
    let mut exact = MagicRng(0xDEADBEEF12345678);
    assert_eq!(find_magic(0, mask, true, &mut exact, tries).unwrap().magic, first.magic);
}

#[test]
fn masks_and_their_subsets() {
    assert_eq!(popcount(slider_mask(false, sq(0, 0))), 12);
    assert_eq!(popcount(slider_mask(true, sq(3, 3))), 9);
    assert_eq!(popcount(slider_mask(true, sq(0, 0))), 6);
    assert_eq!(enumerate_subsets(0b1010), vec![0, 0b0010, 0b1000, 0b1010]);
    assert_eq!(enumerate_subsets(0), vec![0]);
    assert_eq!(enumerate_subsets(slider_mask(false, 0)).len(), 4096);
}

#[test]
fn small_conversions() {
    assert_eq!(sq_from_str("e4"), Some(sq(4, 3)));
    assert_eq!(sq_from_str("i4"), None);
    assert_eq!(sq_from_str("e9"), None);
    assert_eq!(mirror_sq(sq(0, 0)), sq(0, 7));
    assert_eq!(make_piece(Color::Black, PieceType::Queen), 10);
    assert_eq!(piece_from_char('q'), Some(10));
    assert_eq!(piece_from_char('x'), None);
    assert_eq!(piece_char(12), '.');
    assert_eq!(lsb(0b1000), 3);
    let mut b = 0b1010u64;
    assert_eq!(pop_lsb(&mut b), 1);
    assert_eq!(b, 0b1000);
}

#[test]
fn a_position_is_drawn_as_a_diagram() {
    let p = Position::from_fen("8/8/8/8/8/8/k7/7K w - - 0 1").unwrap();
    let t = p.to_diagram();
    assert!(t.contains("\n  2 k . . . . . . . \n  1 . . . . . . . K \n    a b c d e f g h\n"));
    assert!(t.contains("  FEN: 8/8/8/8/8/8/k7/7K w - - 0 1\n"));
    assert!(t.ends_with(&format!("  Hash: {:016x}\n\n", p.hash)));
}

#[test]
fn texts_that_leave_the_board_are_told() {
    assert!(fen_is_readable(STARTPOS_FEN));
    assert!(fen_is_readable("no fen"));
    assert!(fen_is_readable("x w - -"));
    assert!(!fen_is_readable("8/8/8/8/8/8/8/8/8/8/p w - -"));
}

#[test]
fn sets_are_drawn() {
    let row = ". ".repeat(8) + "\n";
    let text = print_bb((1 << 0) | (1 << 63));
    assert_eq!(text, ". ".repeat(7) + "1 \n" + &row.repeat(6) + "1 " + &". ".repeat(7) + "\n\n");
}

#[test]
fn each_move_is_listed_once() {
    for fen in [
        STARTPOS_FEN,
        "r3k2r/p1ppqpb1/bn2pnp1/3PN3/1p2P3/2N2Q1p/PPPBBPPP/R3K2R w KQkq - 0 1",
        "rnbq1k1r/pp1Pbppp/2p5/8/2B5/8/PPP1NnPP/RNBQK2R w KQ - 1 8",
        "8/8/8/2k5/2pP4/8/B7/4K3 b - d3 0 3",
    ] {
        let pos = Position::from_fen(fen).unwrap();
        let mut all = MoveList::new();
        generate_all(&pos, &mut all);
        let mut caps = MoveList::new();
        generate_captures(&pos, &mut caps);
        for i in 0..all.len {
            assert!((i + 1..all.len).all(|j| all.moves[i] != all.moves[j]));
        }
        for i in 0..caps.len {
            assert!((i + 1..caps.len).all(|j| caps.moves[i] != caps.moves[j]));
        }
        let captures = (0..all.len).filter(|i| all.moves[*i].is_capture()).count();
        assert_eq!(captures, caps.len);
    }
}

#[test]
fn only_captures_take_pieces() {
    for fen in [
        "r3k2r/p1ppqpb1/bn2pnp1/3PN3/1p2P3/2N2Q1p/PPPBBPPP/R3K2R w KQkq - 0 1",
        "rnbq1k1r/pp1Pbppp/2p5/8/2B5/8/PPP1NnPP/RNBQK2R w KQ - 1 8",
        "8/8/8/2k5/2pP4/8/B7/4K3 b - d3 0 3",
    ] {
        let mut pos = Position::from_fen(fen).unwrap();
        let before = popcount(pos.occupancy());
        let mut all = MoveList::new();
        generate_all(&pos, &mut all);
        for i in 0..all.len {
            let mv = all.moves[i];
            let undo = pos.make_move(mv);
            assert_eq!(popcount(pos.occupancy()), before - mv.is_capture() as u32);
            pos.unmake_move(mv, undo);
        }
        assert_eq!(pos.to_fen(), fen);
    }
}

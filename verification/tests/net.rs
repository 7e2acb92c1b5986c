//! Networks.

use clrsrc::board::Position;
use clrsrc::embedded::{load_net, NetLoad};
use clrsrc::netfile::NetError;
use clrsrc::nnue::{
    compute_delta, feature_index, output_bucket_for_occupied, Accumulator, Nnue,
};
use clrsrc::search::{evaluate_pos, search, SearchInfo};
use clrsrc::time::{Budget, TimeControl, TimeManager};
use clrsrc::tt::TTable;
use clrsrc::types::{Color, PieceType};

fn header_net(hidden: usize, weight: fn(usize) -> i16, bias: i16, out: &[i16], out_bias: i32) -> Vec<u8> {
    let mut d: Vec<u8> = Vec::new();
    d.extend_from_slice(b"CLNN");
    d.extend_from_slice(&1u32.to_le_bytes());
    d.extend_from_slice(&(hidden as u32).to_le_bytes());
    for i in 0..768 * hidden {
        d.extend_from_slice(&weight(i).to_le_bytes());
    }
    for _ in 0..hidden {
        d.extend_from_slice(&bias.to_le_bytes());
    }
    for w in out {
        d.extend_from_slice(&w.to_le_bytes());
    }
    d.extend_from_slice(&out_bias.to_le_bytes());
    d
}

fn mixed(i: usize) -> i16 {
    ((i * 37 + 11) % 23) as i16 - 11
}

#[test]
fn a_constant_network_gives_a_constant() {
    let mut n = Nnue::new();
    assert!(!n.is_loaded());
    n.load_bytes(&header_net(1, |_| 0, 255, &[64, 0], 0)).unwrap();
    assert!(n.is_loaded() && n.is_usable() && !n.is_bucketed());
    let pos = Position::startpos();
    let mut acc = Accumulator::new();
    n.refresh(&pos, &mut acc);
    assert_eq!(n.evaluate(&acc, Color::White, 0), 400);
    assert_eq!(n.evaluate(&acc, Color::Black, 0), -400);
}

#[test]
fn refused_networks() {
    let mut n = Nnue::new();
    assert_eq!(n.load_bytes(b"CLNN\x01"), Err(NetError::TooSmall));
    let mut d = header_net(1, |_| 0, 0, &[0, 0], 0);
    d[4] = 9;
    assert_eq!(n.load_bytes(&d), Err(NetError::Unsupported { version: 9, hidden: 1 }));
    assert_eq!(n.load_bytes(&[0; 100]), Err(NetError::UnknownFormat { size: 100 }));
    assert_eq!(NetError::UnknownFormat { size: 100 }.text(), "Unknown NNUE format (size: 100 bytes)");
    assert!(!n.is_loaded());
    let mut info = SearchInfo::new(TTable::new_shared(1));
    let good = header_net(2, mixed, 3, &[5, -6, 7, -8], 9);
    assert_eq!(load_net(&mut info, &good[..good.len() - 1]), NetLoad::Truncated);
    assert_eq!(load_net(&mut info, &[0; 100]), NetLoad::Failed(NetError::UnknownFormat { size: 100 }));
    assert!(!info.nnue.is_loaded());
    assert_eq!(load_net(&mut info, &good), NetLoad::Loaded);
    assert!(info.nnue.is_loaded());
}

#[test]
fn steps_give_what_a_refresh_gives() {
    let mut n = Nnue::new();
    n.load_bytes(&header_net(8, mixed, 20, &[3, -4, 5, -6, 7, -8, 9, 10, 1, 2, 3, 4, -5, -6, -7, -8], 100)).unwrap();
    let moves = ["e2e4", "d7d5", "e4d5", "g8f6", "g1f3", "f6d5", "f1c4", "e7e6", "e1g1"];
    let mut pos = Position::startpos();
    let mut acc = Accumulator::new();
    n.refresh(&pos, &mut acc);
    for m in moves {
        let mv = pos.parse_uci_move(m).unwrap();
        let delta = compute_delta(&pos, mv);
        let mut child = Accumulator::new();
        n.update_inc(&acc, &mut child, &delta);
        pos.make_move(mv);
        let mut fresh = Accumulator::new();
        n.refresh(&pos, &mut fresh);
        assert_eq!(child.white[..8], fresh.white[..8], "after {}", m);
        assert_eq!(child.black[..8], fresh.black[..8], "after {}", m);
        assert_eq!(n.evaluate(&child, pos.side, 0), n.evaluate(&fresh, pos.side, 0));
        acc = child;
    }
    let mut copy = Accumulator::new();
    n.copy_acc(&acc, &mut copy);
    assert_eq!(copy.white[..8], acc.white[..8]);
}

#[test]
fn a_search_uses_the_network() {
    let mut info = SearchInfo::new(TTable::new_shared(1));
    assert_eq!(load_net(&mut info, &header_net(4, mixed, 40, &[9, -4, 5, 6, 3, -2, 8, 1], 30)), NetLoad::Loaded);
    let mut pos = Position::startpos();
    let mut acc = Accumulator::new();
    info.nnue.refresh(&pos, &mut acc);
    let v = info.nnue.evaluate(&acc, Color::White, output_bucket_for_occupied(32));
    assert_eq!(evaluate_pos(&pos, &info.nnue, &Some(acc)), v);
    let tc = TimeControl { depth: 4, ..TimeControl::infinite() };
    let mut tm = TimeManager::new(&tc, true, Budget::none());
    let mv = search(&mut pos, &mut info, &mut tm);
    assert!(pos.parse_uci_move(&mv.to_uci()).is_some());
}

#[test]
fn features_of_both_sides() {
    assert_eq!(feature_index(Color::White, PieceType::Pawn, 8, Color::White), 8);
    assert_eq!(feature_index(Color::Black, PieceType::Pawn, 48, Color::Black), 8);
    assert_ne!(
        feature_index(Color::White, PieceType::Pawn, 8, Color::White),
        feature_index(Color::White, PieceType::Pawn, 8, Color::Black)
    );
    assert!(output_bucket_for_occupied(2) <= 7 && output_bucket_for_occupied(32) <= 7);
}

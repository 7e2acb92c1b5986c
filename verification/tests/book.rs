//! Opening books and experience books.

use clrsrc::board::Position;
use clrsrc::book::{
    decode_poly_move, encode_poly_move, merge_entries, polyglot_hash, write_sorted_main, Book, ExpBook,
    ExpEntry, OverlayFlush, OverlayWriter, EXP_FLAG_VALIDATED, EXP_SCORE_NONE, EXP_SOURCE_ENGINE,
    EXP_SOURCE_JUGERNAUT, EXP_SOURCE_STOCKFISH,
};
use clrsrc::expbook::pick_entry;
use clrsrc::movegen::generate_legal;
use clrsrc::types::{sq, Move, MoveList};

fn apply(file: &mut Vec<u8>, f: &OverlayFlush) -> usize {
    if let Some(h) = &f.header {
        *file = h.clone();
    }
    file.extend_from_slice(&f.body);
    file[8..16].copy_from_slice(&f.count);
    f.flushed
}

fn flush(w: &mut OverlayWriter, file: &mut Vec<u8>) -> usize {
    match w.flush(file.len() as u64, 1234) {
        Some(f) => apply(file, &f),
        None => 0,
    }
}

fn entry(key: u64, packed_move: u16) -> ExpEntry {
    ExpEntry {
        key,
        packed_move,
        score: 25,
        depth: 20,
        count: 1,
        source: EXP_SOURCE_ENGINE,
        flags: EXP_FLAG_VALIDATED,
        wdl_w: 0,
        wdl_l: 0,
        nnue_eval: EXP_SCORE_NONE,
        jug_score: EXP_SCORE_NONE,
        sf_score: EXP_SCORE_NONE,
        clrsrc_score: 25,
    }
}

#[test]
fn polyglot_hash_startpos_vector() {
    let pos = Position::startpos();
    assert_eq!(polyglot_hash(&pos), 0x463B96181691FC9C);
}

#[test]
fn polyglot_hash_of_known_lines() {
    let cases = [
        ("rnbqkbnr/pppppppp/8/8/4P3/8/PPPP1PPP/RNBQKBNR b KQkq e3 0 1", 0x823C9B50FD114196u64),
        ("rnbqkbnr/ppp1pppp/8/3p4/4P3/8/PPPP1PPP/RNBQKBNR w KQkq d6 0 2", 0x0756B94461C50FB0),
        ("rnbqkbnr/ppp1pppp/8/3pP3/8/8/PPPP1PPP/RNBQKBNR b KQkq - 0 2", 0x662FAFB965DB29D4),
        ("rnbqkbnr/ppp1p1pp/8/3pPp2/8/8/PPPP1PPP/RNBQKBNR w KQkq f6 0 3", 0x22A48B5A8E47FF78),
        ("rnbqkbnr/ppp1p1pp/8/3pPp2/8/8/PPPPKPPP/RNBQ1BNR b kq - 0 3", 0x652A607CA3F242C1),
        ("rnbq1bnr/ppp1pkpp/8/3pPp2/8/8/PPPPKPPP/RNBQ1BNR w - - 0 4", 0x00FDD303C946BDD9),
        ("rnbqkbnr/p1pppppp/8/8/PpP4P/8/1P1PPPP1/RNBQKBNR b KQkq c3 0 3", 0x3C8123EA7B067637),
        ("rnbqkbnr/p1pppppp/8/8/P6P/R1p5/1P1PPPP1/1NBQKBNR b Kkq - 0 4", 0x5C3F9B829B279560),
    ];
    for (fen, key) in cases {
        let pos = Position::from_fen(fen).unwrap();
        assert_eq!(polyglot_hash(&pos), key, "{}", fen);
    }
}

#[test]
fn encode_kingside_castle_vector() {
    let mv = Move::new(sq(4, 0), sq(6, 0), Move::FLAG_KING_CASTLE);
    assert_eq!(encode_poly_move(mv), 0x0107);
}

#[test]
fn encode_decode_roundtrip() {
    let fens = [
        "rnbqkbnr/pppppppp/8/8/8/8/PPPPPPPP/RNBQKBNR w KQkq - 0 1",
        "r3k2r/pppppppp/8/8/8/8/PPPPPPPP/R3K2R w KQkq - 0 1",
        "r3k2r/pppppppp/8/8/8/8/PPPPPPPP/R3K2R b KQkq - 0 1",
        "n1n5/PPPk4/8/8/8/8/4Kppp/5N1N b - - 0 1",
    ];
    for fen in fens {
        let mut pos = Position::from_fen(fen).unwrap();
        let mut list = MoveList::new();
        generate_legal(&mut pos, &mut list);
        assert!(list.len > 0, "no legal moves in {}", fen);
        for i in 0..list.len {
            let mv = list.moves[i];
            let raw = encode_poly_move(mv);
            let decoded = decode_poly_move(&mut pos, raw);
            assert!(
                decoded == Some(mv),
                "roundtrip mismatch for {} (raw {:#06x}) in {}: got {:?}",
                mv.to_uci(),
                raw,
                fen,
                decoded.map(|m| m.to_uci())
            );
        }
    }
}

#[test]
fn overlay_writer_append_and_count() {
    let mut file: Vec<u8> = Vec::new();
    let mut w = OverlayWriter::open(&file);
    w.push(entry(10, 0x0107));
    w.push(entry(20, 0x0107));
    assert_eq!(flush(&mut w, &mut file), 2);
    assert_eq!(flush(&mut w, &mut file), 0);

    let mut w2 = OverlayWriter::open(&file);
    w2.push(entry(30, 0x0107));
    assert_eq!(flush(&mut w2, &mut file), 1);

    let book = ExpBook::from_bytes(&file).expect("overlay loads as JBK2");
    assert_eq!(book.entry_count(), 3);
    assert_eq!(book.entry(0).key, 10);
    assert_eq!(book.entry(2).key, 30);
    assert_eq!(book.entry(0).source, EXP_SOURCE_ENGINE);
}

#[test]
fn probe_on_unsorted_overlay_bails() {
    let pos = Position::startpos();
    let mut file: Vec<u8> = Vec::new();
    let mut w = OverlayWriter::open(&file);
    let mut e = entry(polyglot_hash(&pos), 0x0107);
    e.wdl_w = 9;
    w.push(e);
    flush(&mut w, &mut file);

    let book = ExpBook::from_bytes(&file).expect("overlay loads as JBK2");
    assert!(!book.sorted, "overlay must be flagged unsorted");
    assert_eq!(book.entry_count(), 1);
    assert!(
        book.probe(&pos).is_empty(),
        "probe on an unsorted overlay must return nothing, not a wrong hit"
    );
}

#[test]
fn exp_entry_roundtrip() {
    let e = ExpEntry {
        key: 0x463B96181691FC9C,
        packed_move: 0x0795,
        score: -123,
        depth: 27,
        count: 65535,
        source: 0b0000_1011,
        flags: 0x01,
        wdl_w: 12,
        wdl_l: 7,
        nnue_eval: i16::MIN,
        jug_score: -123,
        sf_score: 456,
        clrsrc_score: 88,
    };
    let bytes = e.to_bytes();
    let d = ExpEntry::from_bytes(&bytes);
    assert_eq!(d.key, e.key);
    assert_eq!(d.packed_move, e.packed_move);
    assert_eq!(d.score, e.score);
    assert_eq!(d.depth, e.depth);
    assert_eq!(d.count, e.count);
    assert_eq!(d.source, e.source);
    assert_eq!(d.flags, e.flags);
    assert_eq!(d.wdl_w, e.wdl_w);
    assert_eq!(d.wdl_l, e.wdl_l);
    assert_eq!(d.nnue_eval, e.nnue_eval);
    assert_eq!(d.jug_score, e.jug_score);
    assert_eq!(d.sf_score, e.sf_score);
    assert_eq!(d.clrsrc_score, e.clrsrc_score);
}

#[test]
fn exp_book_load_search_and_version_reject() {
    let mut buf: Vec<u8> = Vec::new();
    buf.extend_from_slice(b"JBK2");
    buf.extend_from_slice(&2u16.to_le_bytes());
    buf.extend_from_slice(&1u16.to_le_bytes());
    buf.extend_from_slice(&1u64.to_le_bytes());
    buf.extend_from_slice(&0u64.to_le_bytes());
    buf.extend_from_slice(&0u64.to_le_bytes());
    let e = ExpEntry {
        key: 7,
        packed_move: 0x0795,
        score: 10,
        depth: 5,
        count: 3,
        source: 1,
        flags: 0,
        wdl_w: 0,
        wdl_l: 0,
        nnue_eval: EXP_SCORE_NONE,
        jug_score: EXP_SCORE_NONE,
        sf_score: EXP_SCORE_NONE,
        clrsrc_score: EXP_SCORE_NONE,
    };
    buf.extend_from_slice(&e.to_bytes());

    let mut bad_buf = buf.clone();
    bad_buf[4] = 9;

    let gb = ExpBook::from_bytes(&buf).expect("good book loads");
    assert_eq!(gb.entry_count(), 1);
    assert_eq!(gb.find_first(7), Some(0));
    assert_eq!(gb.find_first(8), None);
    assert_eq!(gb.entry(0).count, 3);

    assert!(ExpBook::from_bytes(&bad_buf).is_none());
}

#[test]
fn truncated_and_foreign_books_are_refused() {
    assert!(ExpBook::from_bytes(&[]).is_none());
    assert!(ExpBook::from_bytes(&[74u8; 64]).is_none());
    let mut d = write_sorted_main(&[entry(1, 2), entry(3, 4)], 7);
    d.truncate(32 + 40);
    let b = ExpBook::from_bytes(&d).unwrap();
    assert_eq!(b.entry_count(), 1);
}

#[test]
fn written_entries_are_read_back_in_order() {
    let es = [entry(9, 1), entry(3, 8), entry(9, 0), entry(3, 8), entry(1, 5)];
    let d = write_sorted_main(&es, 0x0102030405060708);
    assert_eq!(d.len(), 32 + 32 * 5);
    assert_eq!(&d[0..8], &[b'J', b'B', b'K', b'2', 2, 0, 1, 0]);
    assert_eq!(&d[8..16], &[5, 0, 0, 0, 0, 0, 0, 0]);
    assert_eq!(&d[16..24], &[8, 7, 6, 5, 4, 3, 2, 1]);
    assert_eq!(&d[24..32], &[0; 8]);
    let b = ExpBook::from_bytes(&d).unwrap();
    assert!(b.sorted);
    let keys: Vec<(u64, u16)> = b.all_entries().iter().map(|e| (e.key, e.packed_move)).collect();
    assert_eq!(keys, vec![(1, 5), (3, 8), (3, 8), (9, 0), (9, 1)]);
    assert_eq!(b.find_first(3), Some(1));
    assert_eq!(b.find_first(9), Some(3));
    assert_eq!(b.find_first(2), None);
}

#[test]
fn merged_entries_are_gathered_by_source_and_depth() {
    let mut own = entry(5, 7);
    own.clrsrc_score = 40;
    own.depth = 10;
    own.count = 65000;
    own.wdl_w = 3;
    let mut deeper = entry(5, 7);
    deeper.clrsrc_score = -12;
    deeper.depth = 14;
    deeper.count = 1000;
    deeper.wdl_l = 4;
    deeper.flags = 0x10;
    let mut sf = entry(5, 7);
    sf.source = EXP_SOURCE_STOCKFISH;
    sf.sf_score = 33;
    sf.clrsrc_score = 999;
    sf.depth = 30;
    sf.nnue_eval = 5;
    let mut jug = entry(2, 1);
    jug.source = EXP_SOURCE_JUGERNAUT;
    jug.jug_score = -70;
    jug.depth = 12;
    let m = merge_entries(&[own, sf, deeper, jug], true);
    assert_eq!(m.len(), 2);
    assert_eq!((m[0].key, m[0].packed_move, m[0].score, m[0].depth), (2, 1, -70, 12));
    assert_eq!((m[1].key, m[1].packed_move), (5, 7));
    assert_eq!(m[1].clrsrc_score, -12);
    assert_eq!(m[1].sf_score, 33);
    assert_eq!(m[1].jug_score, EXP_SCORE_NONE);
    assert_eq!(m[1].depth, 30);
    assert_eq!(m[1].count, 65535);
    assert_eq!(m[1].wdl_w, 3);
    assert_eq!(m[1].wdl_l, 4);
    assert_eq!(m[1].flags, EXP_FLAG_VALIDATED | 0x10);
    assert_eq!(m[1].source, EXP_SOURCE_ENGINE | EXP_SOURCE_STOCKFISH);
    assert_eq!(m[1].nnue_eval, 5);
    assert_eq!(m[1].score, -12);
    let other = merge_entries(&[own, sf, deeper, jug], false);
    assert_eq!(other[1].score, 33);
    assert_eq!(merge_entries(&m, true), m);
    assert_eq!(merge_entries(&other, false), other);
    let mut none = entry(1, 1);
    none.source = 0;
    none.depth = -5;
    let bare = merge_entries(&[none], true);
    assert_eq!((bare[0].score, bare[0].depth), (0, 0));
}

fn poly_book(pos: &Position, moves: &[(&str, u16)]) -> Book {
    let mut d: Vec<u8> = Vec::new();
    for (text, weight) in moves {
        let mv = pos.parse_uci_move(text).unwrap();
        d.extend_from_slice(&polyglot_hash(pos).to_be_bytes());
        d.extend_from_slice(&encode_poly_move(mv).to_be_bytes());
        d.extend_from_slice(&weight.to_be_bytes());
        d.extend_from_slice(&[0; 4]);
    }
    Book::from_bytes(d)
}

#[test]
fn polyglot_probe_takes_the_heaviest_or_draws() {
    let mut pos = Position::startpos();
    let b = poly_book(&pos, &[("e2e4", 10), ("d2d4", 30), ("c2c4", 0), ("g1f3", 60)]);
    assert_eq!(b.probe(&mut pos, 0, true).unwrap().to_uci(), "g1f3");
    assert_eq!(b.probe(&mut pos, 0, false).unwrap().to_uci(), "e2e4");
    assert_eq!(b.probe(&mut pos, 9, false).unwrap().to_uci(), "e2e4");
    assert_eq!(b.probe(&mut pos, 10, false).unwrap().to_uci(), "d2d4");
    assert_eq!(b.probe(&mut pos, 40, false).unwrap().to_uci(), "g1f3");
    assert_eq!(b.probe(&mut pos, 100, false).unwrap().to_uci(), "e2e4");
    let mv = pos.parse_uci_move("e2e4").unwrap();
    pos.make_move(mv);
    assert_eq!(b.probe(&mut pos, 0, true), None);
}

#[test]
fn losing_moves_are_dropped() {
    let mut loses = entry(1, 0x031C);
    loses.wdl_w = 3;
    loses.wdl_l = 4;
    loses.depth = 30;
    let mut wins = entry(1, 0x02DB);
    wins.wdl_w = 4;
    assert_eq!(pick_entry(&vec![loses, wins], 0, 1), wins);
    assert_eq!(pick_entry(&vec![loses], 0, 1), loses);
    let mut even = loses;
    even.wdl_l = 3;
    assert_eq!(pick_entry(&vec![even, wins], 0, 1), wins);
    let mut few = loses;
    few.wdl_w = 1;
    assert_eq!(pick_entry(&vec![few, wins], 0, 1), few);
    let mut better = loses;
    better.wdl_w = 5;
    assert_eq!(pick_entry(&vec![better, wins], 0, 1), better);
}

#[test]
fn en_passant_counts_where_a_pawn_can_take() {
    let hash = |fen: &str| polyglot_hash(&Position::from_fen(fen).unwrap());
    let taken = "rnbqkbnr/ppp1p1pp/8/3pPp2/8/8/PPPP1PPP/RNBQKBNR w KQkq f6 0 3";
    assert_ne!(hash(taken), hash(&taken.replace("f6", "-")));
    let alone = "rnbqkbnr/pppppppp/8/8/4P3/8/PPPP1PPP/RNBQKBNR b KQkq e3 0 1";
    assert_eq!(hash(alone), hash(&alone.replace("e3", "-")));
}

#[test]
fn a_book_out_of_order_finds_what_bisection_meets() {
    let entry16 = |key: u64| {
        let mut b = key.to_be_bytes().to_vec();
        b.extend_from_slice(&[0, 1, 0, 1, 0, 0, 0, 0]);
        b
    };
    let mut data = Vec::new();
    for key in [5u64, 1, 3] {
        data.extend_from_slice(&entry16(key));
    }
    let book = Book::from_bytes(data);
    assert_eq!(book.find_first(3), Some(2));
    assert_eq!(book.find_first(1), None);
    assert_eq!(book.find_first(5), None);
    let sorted: Vec<u8> = [1u64, 3, 3, 5].iter().flat_map(|k| entry16(*k)).collect();
    assert_eq!(Book::from_bytes(sorted).find_first(3), Some(1));
}

//! The embedded engine against the plain search.

use clrsrc::board::{Position, STARTPOS_FEN};
use clrsrc::book::{encode_poly_move, polyglot_hash, write_sorted_main, ExpBook, ExpEntry};
use clrsrc::search::{search, SearchInfo};
use clrsrc::time::{Budget, TimeControl, TimeManager};
use clrsrc::tt::TTable;
use clrsrc::types::Color;
use clrsrc::{
    search_embedded, EmbeddedConfig, EmbeddedEngine, EmbeddedFiles, EmbeddedLimits, Reply, SearchOutcome,
};
use std::sync::atomic::AtomicBool;

const DEPTH: i32 = 10;

const POSITIONS: [&str; 5] = [
    STARTPOS_FEN,
    "r1bqkbnr/pppp1ppp/2n5/4p3/2B1P3/5N2/PPPP1PPP/RNBQK2R b KQkq - 3 3",
    "r3k2r/p1ppqpb1/bn2pnp1/3PN3/1p2P3/2N2Q1p/PPPBBPPP/R3K2R w KQkq - 0 1",
    "8/2p5/3p4/KP5r/1R3p1k/8/4P1P1/8 w - - 0 1",
    "6k1/8/1p2R3/1Pb1p1B1/8/1r5P/6K1/8 w - - 4 45",
];

fn to_depth(depth: i32) -> TimeControl {
    TimeControl {
        wtime: 0,
        btime: 0,
        winc: 0,
        binc: 0,
        movestogo: 0,
        movetime: 0,
        depth,
        infinite: false,
        nodes: 0,
        soft_nodes: 0,
    }
}

fn fresh_info() -> SearchInfo {
    let mut info = SearchInfo::new(TTable::new_shared(64));
    info.silent = true;
    info
}

fn prepare(info: &mut SearchInfo, pos: &Position) {
    info.hash_history.clear();
    info.hash_history.push(pos.hash);
    info.game_history_len = 1;
    info.clear_for_search();
}

fn no_files() -> EmbeddedFiles {
    EmbeddedFiles { net: None, exp: None, book: None }
}

fn done(r: Reply) -> SearchOutcome {
    match r {
        Reply::Done(o) => o,
        _ => panic!("no outcome"),
    }
}

#[test]
fn embedded_matches_uci_path_at_fixed_depth() {
    for fen in POSITIONS {
        let is_white = Position::from_fen(fen).expect("valid FEN").side == Color::White;

        let mut ref_info = fresh_info();
        let mut ref_pos = Position::from_fen(fen).expect("valid FEN");
        prepare(&mut ref_info, &ref_pos);
        let mut ref_tm = TimeManager::new(&to_depth(DEPTH), is_white, Budget::none());
        let ref_best = search(&mut ref_pos, &mut ref_info, &mut ref_tm);
        let ref_nodes = ref_info.nodes;
        let ref_score = ref_info.root_score;

        let mut emb_info = fresh_info();
        let mut emb_pos = Position::from_fen(fen).expect("valid FEN");
        prepare(&mut emb_info, &emb_pos);
        let limits = EmbeddedLimits {
            tc: to_depth(DEPTH),
            deadline_ms: 3_600_000,
            budget: Budget::none(),
            ponder: false,
            game_ply: 0,
            depth: DEPTH,
            nodes: 0,
        };
        let cancel = AtomicBool::new(false);
        let outcome = search_embedded(&mut emb_pos, &mut emb_info, limits, &cancel);

        assert_eq!(
            outcome.best, ref_best,
            "best move diverged on {} (embedded {:?} vs uci {:?})",
            fen, outcome.best, ref_best
        );
        assert_eq!(
            outcome.nodes, ref_nodes,
            "node count diverged on {} (embedded {} vs uci {})",
            fen, outcome.nodes, ref_nodes
        );
        assert_eq!(outcome.score_cp, ref_score, "score diverged on {}", fen);
        println!("{} {} {} {}", fen, outcome.best.to_uci(), outcome.nodes, outcome.score_cp);
    }
}

#[test]
fn embedded_engine_plays_the_book() {
    let start = Position::startpos();
    let mut entries = Vec::new();
    for (text, score, depth) in [("e2e4", 20, 22), ("d2d4", 25, 24), ("a2a4", -60, 30)] {
        entries.push(ExpEntry {
            key: polyglot_hash(&start),
            packed_move: encode_poly_move(start.parse_uci_move(text).unwrap()),
            score,
            depth,
            count: 4,
            source: 1,
            flags: 0,
            wdl_w: 0,
            wdl_l: 0,
            nnue_eval: i16::MIN,
            jug_score: score,
            sf_score: i16::MIN,
            clrsrc_score: i16::MIN,
        });
    }
    let file = write_sorted_main(&entries, 0);
    let book = ExpBook::from_bytes(&file).unwrap();
    let mut probe_pos = Position::startpos();
    let expected = book.probe_best(&mut probe_pos, 0, 0).unwrap();
    assert_eq!(expected.to_uci(), "d2d4");

    let config = EmbeddedConfig { play_from_exp: true, book_variety: 0, ..Default::default() };
    let files = EmbeddedFiles { net: None, exp: Some(file), book: None };
    let (mut engine, load) = EmbeddedEngine::init(config, files, 42);
    assert!(load.is_none());
    assert!(!engine.nnue_loaded());

    let limits = EmbeddedLimits {
        tc: TimeControl { wtime: 60_000, btime: 60_000, ..to_depth(0) },
        deadline_ms: 3_600_000,
        budget: Budget::none(),
        ponder: false,
        game_ply: 0,
        depth: 0,
        nodes: 0,
    };
    let cancel = AtomicBool::new(false);
    let out = done(engine.search_position("startpos", &[], limits, &cancel));
    assert_eq!(out.best, expected, "engine book move must equal direct probe");
    assert_eq!(out.depth, 0, "book hit must report depth 0");
    assert_eq!(out.nodes, 0, "book hit must report 0 nodes (no search ran)");
}

#[test]
fn embedded_engine_matches_uci_on_book_miss() {
    let fens = [
        "r1bqkbnr/pppp1ppp/2n5/4p3/2B1P3/5N2/PPPP1PPP/RNBQK2R b KQkq - 3 3",
        "8/2p5/3p4/KP5r/1R3p1k/8/4P1P1/8 w - - 0 1",
    ];
    for fen in fens {
        let mut ref_info = fresh_info();
        let mut ref_pos = Position::from_fen(fen).expect("valid FEN");
        prepare(&mut ref_info, &ref_pos);
        let mut tm = TimeManager::new(&to_depth(DEPTH), ref_pos.side == Color::White, Budget::none());
        let ref_best = search(&mut ref_pos, &mut ref_info, &mut tm);
        let (ref_nodes, ref_score) = (ref_info.nodes, ref_info.root_score);

        let (mut engine, _) = EmbeddedEngine::init(EmbeddedConfig::default(), no_files(), 1);
        let limits = EmbeddedLimits {
            tc: to_depth(DEPTH),
            deadline_ms: 3_600_000,
            budget: Budget::none(),
            ponder: false,
            game_ply: 0,
            depth: DEPTH,
            nodes: 0,
        };
        let cancel = AtomicBool::new(false);
        let out = done(engine.search_position(fen, &[], limits, &cancel));

        assert_eq!(out.best, ref_best, "best move diverged on {}", fen);
        assert_eq!(out.nodes, ref_nodes, "nodes diverged on {} (emb {} vs ref {})", fen, out.nodes, ref_nodes);
        assert_eq!(out.score_cp, ref_score, "score diverged on {}", fen);
    }
}

#[test]
fn a_running_clock_is_kept_by_its_budget() {
    let (mut engine, _) = EmbeddedEngine::init(EmbeddedConfig::default(), no_files(), 1);
    let limits = EmbeddedLimits {
        tc: TimeControl { wtime: 60_000, btime: 60_000, ..to_depth(0) },
        deadline_ms: 2_000,
        budget: Budget { optimum: 50, maximum: 100, long_cap: 0 },
        ponder: false,
        game_ply: 2,
        depth: 0,
        nodes: 0,
    };
    let cancel = AtomicBool::new(false);
    let start = std::time::Instant::now();
    let out = done(engine.search_position("startpos", &["e2e4", "e7e5"], limits, &cancel));
    assert!(start.elapsed().as_millis() < 10_000);
    assert!(out.depth >= 1 && out.depth < 100);
    assert_eq!(out.pv[0], out.best);
    let pos = Position::from_fen("rnbqkbnr/pppp1ppp/8/4p3/4P3/8/PPPP1PPP/RNBQKBNR w KQkq e6 0 2").unwrap();
    assert_eq!(pos.parse_uci_move(&out.best.to_uci()), Some(out.best));
}

#[test]
fn settings_reach_the_engine() {
    let config = EmbeddedConfig { hash_mb: 0, ..EmbeddedConfig::default() };
    let (engine, load) = EmbeddedEngine::init(config, no_files(), 7);
    assert!(load.is_none() && !engine.nnue_loaded());
    assert_eq!(engine.info.tt.buckets.len(), 32768);
    assert!(engine.info.tables.tables.is_none());
    assert_eq!((engine.info.tables.probe_limit, engine.info.tables.probe_depth), (6, 1));
    let files = EmbeddedFiles { net: Some(vec![1, 2, 3]), exp: None, book: None };
    let (engine, load) = EmbeddedEngine::init(EmbeddedConfig::default(), files, 7);
    assert!(load.is_some() && !engine.nnue_loaded());
}

#[test]
fn a_new_engine_searches_like_a_new_search() {
    let fen = POSITIONS[1];
    let (mut engine, _) = EmbeddedEngine::init(EmbeddedConfig::default(), no_files(), 1);
    let limits = EmbeddedLimits {
        tc: to_depth(6),
        deadline_ms: 3_600_000,
        budget: Budget::none(),
        ponder: false,
        game_ply: 0,
        depth: 0,
        nodes: 0,
    };
    let o = done(engine.search_position(fen, &[], limits, &AtomicBool::new(false)));
    let mut info = SearchInfo::new(TTable::new_shared(64));
    let mut pos = Position::from_fen(fen).expect("valid FEN");
    info.hash_history.push(pos.hash);
    info.game_history_len = 1;
    let mut tm = TimeManager::new(&to_depth(6), false, Budget::none());
    let best = search(&mut pos, &mut info, &mut tm);
    assert_eq!((o.best, o.score_cp, o.nodes, o.depth), (best, info.root_score, info.nodes, info.completed_depth));
    assert_eq!(o.pv, info.pv);
}

#[test]
fn an_unplayable_position_changes_nothing() {
    let (mut engine, _) = EmbeddedEngine::init(EmbeddedConfig::default(), no_files(), 1);
    let limits = EmbeddedLimits {
        tc: to_depth(3),
        deadline_ms: 3_600_000,
        budget: Budget::none(),
        ponder: false,
        game_ply: 0,
        depth: 0,
        nodes: 0,
    };
    let r = engine.search_position("7k/8/8/8/8/8/8/K6R w - - 0 1", &[], limits, &AtomicBool::new(false));
    assert!(matches!(r, Reply::Unplayable));
    assert_eq!((engine.info.game_history_len, engine.info.nodes, engine.exp_rng), (0, 0, 1));
}

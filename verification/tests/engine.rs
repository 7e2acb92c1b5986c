//! Evaluation, search and what they rest on.

use clrsrc::board::Position;
use clrsrc::decide::{
    bound_kind, contempt_draw_score, fade, is_mate_score, is_repetition, is_settled, mate_in, narrow_by_mates,
    score_from_tt, score_to_tt, table_cuts, tb_score, Window, MATE_SCORE, TB_WIN_IN_MAX,
};
use clrsrc::eval::evaluate;
use clrsrc::lmr::{init_lmr, lmr_reduction, LmrInputs};
use clrsrc::nodes::note_probe;
use clrsrc::ordering::{pick_move, see_ge, CorrectionHistory, CounterMoves, History, Killers};
use clrsrc::search::{note_root_probe, search, take_probe, SearchInfo};
use clrsrc::tablebase::{root_result, Tablebases};
use clrsrc::time::{
    allow_ponder, is_pondering, plan_clock, set_allow_ponder, set_pondering, set_stop, should_stop,
    signal_ponderhit, Budget, Signals, TimeControl, TimeManager, SWINGS,
};
use clrsrc::tt::{TTable, FLAG_EXACT, FLAG_LOWER, FLAG_UPPER};
use clrsrc::tune::{all_params, param_by_name, Tunables, LMR_DIVISOR};
use clrsrc::types::{Color, Move, MoveList, PieceType};
use clrsrc::verify::{check_search, Verdict};

fn to_depth(depth: i32) -> TimeControl {
    TimeControl { depth, ..TimeControl::infinite() }
}

fn best(fen: &str, depth: i32) -> (String, i32, SearchInfo) {
    let mut pos = Position::from_fen(fen).unwrap();
    let mut info = SearchInfo::new(TTable::new_shared(16));
    info.hash_history.push(pos.hash);
    info.game_history_len = 1;
    let mut tm = TimeManager::new(&to_depth(depth), pos.side == Color::White, Budget::none());
    let mv = search(&mut pos, &mut info, &mut tm);
    assert_eq!(pos.to_fen(), fen);
    (mv.to_uci(), info.root_score, info)
}

#[test]
fn evaluation_is_symmetric() {
    assert_eq!(evaluate(&Position::startpos()), 15);
    let pairs = [
        ("4k3/8/8/8/8/8/4P3/4K3 w - - 0 1", "4k3/4p3/8/8/8/8/8/4K3 b - - 0 1"),
        ("r1bqkbnr/pppp1ppp/2n5/4p3/4P3/5N2/PPPP1PPP/RNBQKB1R w KQkq - 0 1", "rnbqkb1r/pppp1ppp/5n2/4p3/4P3/2N5/PPPP1PPP/R1BQKBNR b KQkq - 0 1"),
    ];
    for (a, b) in pairs {
        let x = evaluate(&Position::from_fen(a).unwrap());
        let y = evaluate(&Position::from_fen(b).unwrap());
        assert_eq!(x, y);
    }
    let w = Position::from_fen("4k3/8/8/8/8/8/8/Q3K3 w - - 0 1").unwrap();
    let b = Position::from_fen("4k3/8/8/8/8/8/8/Q3K3 b - - 0 1").unwrap();
    assert_eq!(evaluate(&w) - 15, -(evaluate(&b) - 15));
    assert!(evaluate(&w) > 500);
}

#[test]
fn tactics_are_found() {
    assert_eq!(best("6k1/5ppp/8/8/8/8/8/4R1K1 w - - 0 1", 4).0, "e1e8");
    let (mv, score, info) = best("6k1/5ppp/8/8/8/8/8/4R1K1 w - - 0 1", 6);
    assert_eq!(mv, "e1e8");
    assert_eq!(score, MATE_SCORE - 1);
    assert_eq!(mate_in(score), 1);
    assert!(info.completed_depth >= 1);
    assert_eq!(best("r1bqkb1r/pppp1ppp/2n2n2/4p2Q/2B1P3/8/PPPP1PPP/RNB1K1NR w KQkq - 4 4", 4).0, "h5f7");
}

#[test]
fn checks_of_a_running_engine() {
    let mut info = SearchInfo::new(TTable::new_shared(16));
    let mut pos = Position::from_fen("6k1/5ppp/8/8/8/8/8/4R1K1 w - - 0 1").unwrap();
    assert!(matches!(check_search(&mut info, &mut pos, 4, &["e1e8"]), Verdict::Passed(m) if m.to_uci() == "e1e8"));
    assert!(matches!(check_search(&mut info, &mut pos, 4, &["e1e7", "e1e6"]), Verdict::Failed(m) if m.to_uci() == "e1e8"));
    assert!(!info.silent);
}

#[test]
fn mated_and_stalemated_sides_have_no_move() {
    let (mv, score, info) = best("7k/5Q2/6K1/8/8/8/8/8 b - - 0 1", 3);
    assert_eq!(mv, "0000");
    assert_eq!(score, 0);
    assert!(info.pv.is_empty());
    let (mv, score, _) = best("7k/6Q1/6K1/8/8/8/8/8 b - - 0 1", 3);
    assert_eq!(mv, "0000");
    assert_eq!(score, -MATE_SCORE);
}

#[test]
fn searches_repeat_exactly() {
    let fen = "r1bqkbnr/pppp1ppp/2n5/4p3/2B1P3/5N2/PPPP1PPP/RNBQK2R b KQkq - 3 3";
    let (a, x, i) = best(fen, 7);
    let (b, y, j) = best(fen, 7);
    assert_eq!((a, x, i.nodes), (b, y, j.nodes));
    assert_eq!(i.completed_depth, 7);
    assert_eq!(i.pv[0].to_uci(), best(fen, 7).0);
}

#[test]
fn node_limits_end_a_search() {
    let mut pos = Position::startpos();
    let mut info = SearchInfo::new(TTable::new_shared(1));
    let tc = TimeControl { nodes: 5000, ..TimeControl::infinite() };
    let mut tm = TimeManager::new(&tc, true, Budget::none());
    let mv = search(&mut pos, &mut info, &mut tm);
    assert_ne!(mv, Move::null());
    assert!(info.nodes < 20_000);
    let mut tm = TimeManager::new(&TimeControl::infinite(), true, Budget::none());
    set_stop(&tm.signals, true);
    let mv = search(&mut pos, &mut info, &mut tm);
    assert!(info.completed_depth <= 1);
    let _ = mv;
}

#[test]
fn scores_survive_the_table() {
    for ply in [0, 5, 60] {
        for score in [0, 150, -28000, MATE_SCORE - 7, -(MATE_SCORE - 9), TB_WIN_IN_MAX] {
            assert_eq!(score_from_tt(score_to_tt(score, ply), ply), score);
        }
    }
    assert_eq!(score_to_tt(MATE_SCORE - 7, 5) as i32, MATE_SCORE - 2);
    assert!(is_mate_score(TB_WIN_IN_MAX) && !is_mate_score(TB_WIN_IN_MAX - 1));
    assert_eq!(tb_score(1, 3), 28869);
    assert_eq!(tb_score(-1, 3), -28869);
    assert_eq!(tb_score(0, 3), 0);
}

#[test]
fn mates_in_moves() {
    assert_eq!(mate_in(MATE_SCORE - 1), 1);
    assert_eq!(mate_in(MATE_SCORE - 3), 2);
    assert_eq!(mate_in(-(MATE_SCORE - 2)), -1);
    assert_eq!(mate_in(-(MATE_SCORE - 4)), -2);
    assert!(is_settled(MATE_SCORE - 5, 5) && !is_settled(MATE_SCORE - 5, 4) && !is_settled(-(MATE_SCORE - 5), 50));
}

#[test]
fn draws_and_windows() {
    assert_eq!(fade(200, 0), 200);
    assert_eq!(fade(200, 100), 100);
    assert_eq!(fade(200, 250), 0);
    assert!(is_repetition(&vec![7, 1, 2, 3, 7], 7, 4));
    assert!(!is_repetition(&vec![7, 1, 2, 3, 7], 7, 3));
    assert!(is_repetition(&vec![9, 9, 7, 1, 7], 7, 2));
    assert!(!is_repetition(&vec![9, 9, 9, 7, 7], 7, 4));
    assert!(!is_repetition(&vec![], 7, 4));
    assert_eq!(
        narrow_by_mates(-30000, 30000, 3),
        Window::Open { alpha: -MATE_SCORE + 3, beta: MATE_SCORE - 3 }
    );
    assert_eq!(narrow_by_mates(MATE_SCORE - 2, 30000, 3), Window::Closed(MATE_SCORE - 3));
    assert!(table_cuts(FLAG_EXACT, 5, 0, 10));
    assert!(table_cuts(FLAG_LOWER, 12, 0, 10) && !table_cuts(FLAG_LOWER, 5, 0, 10));
    assert!(table_cuts(FLAG_UPPER, -3, 0, 10) && !table_cuts(FLAG_UPPER, 5, 0, 10));
    assert_eq!(bound_kind(12, 10, true), FLAG_LOWER);
    assert_eq!(bound_kind(5, 10, true), FLAG_EXACT);
    assert_eq!(bound_kind(-5, 10, false), FLAG_UPPER);
    assert_eq!(contempt_draw_score(&Position::startpos()), 0);
    let ahead = Position::from_fen("4k3/8/8/8/8/8/8/R3K3 w - - 0 1").unwrap();
    assert_eq!(contempt_draw_score(&ahead), -10);
    let behind = Position::from_fen("4k3/8/8/8/8/8/8/R3K3 b - - 0 1").unwrap();
    assert_eq!(contempt_draw_score(&behind), 10);
}

#[test]
fn the_table_stores_and_finds() {
    let mut t = TTable::new_shared(1);
    assert!(t.probe(0x1234_5678_9abc_def0).is_none());
    t.store(0x1234_5678_9abc_def0, 7, FLAG_EXACT, true, 33, -5, Move(77));
    let e = t.probe(0x1234_5678_9abc_def0).unwrap();
    assert_eq!((e.depth, e.score, e.eval, e.best_move), (7, 33, -5, Move(77)));
    assert!(t.probe(0x1235_5678_9abc_def0).is_none());
    t.new_generation();
    assert_eq!(t.current_gen(), 1);
    assert_eq!(t.entry_count() % 2, 0);
    t.clear();
    assert!(t.probe(0x1234_5678_9abc_def0).is_none());
    assert_eq!(t.hashfull(), 0);
}

#[test]
fn exchanges_are_valued() {
    let pos = Position::from_fen("4k3/8/3p4/4p3/8/8/8/K3R3 w - - 0 1").unwrap();
    let takes = pos.parse_uci_move("e1e5").unwrap();
    assert!(!see_ge(&pos, takes, 0));
    assert!(see_ge(&pos, takes, -500));
    let pos = Position::from_fen("4k3/8/8/4p3/8/8/8/K3R3 w - - 0 1").unwrap();
    let takes = pos.parse_uci_move("e1e5").unwrap();
    assert!(see_ge(&pos, takes, 100));
    assert!(!see_ge(&pos, takes, 101));
}

#[test]
fn histories_learn_and_age() {
    let mut h = History::new();
    let mv = Move::new(12, 28, 1);
    assert_eq!(h.get(Color::White, mv), 0);
    h.update(Color::White, mv, 5, true);
    assert_eq!(h.get(Color::White, mv), 25);
    h.update(Color::White, mv, 3, false);
    assert_eq!(h.get(Color::White, mv), 16);
    assert_eq!(h.get(Color::Black, mv), 0);
    h.age();
    assert_eq!(h.get(Color::White, mv), 8);
    h.clear();
    assert_eq!(h.get(Color::White, mv), 0);

    let mut k = Killers::new();
    k.store(3, mv);
    assert!(k.is_killer(3, mv).is_some());
    assert!(k.is_killer(4, mv).is_none());

    let mut c = CounterMoves::new();
    c.store(Color::Black, PieceType::Knight, 20, mv);
    assert_eq!(c.get(Color::Black, PieceType::Knight, 20), mv);
    assert_eq!(c.get(Color::White, PieceType::Knight, 20), Move::null());

    let mut r = CorrectionHistory::new();
    assert_eq!(r.get(Color::White, 99), 0);
    r.update(Color::White, 99, 100, 4);
    assert!(r.get(Color::White, 99) >= 0);
}

#[test]
fn the_best_move_is_picked_first() {
    let mut pos = Position::startpos();
    let mut list = MoveList::new();
    clrsrc::movegen::generate_legal(&mut pos, &mut list);
    let mut scores: Vec<i32> = (0..list.len as i32).map(|i| (i * 7) % 11).collect();
    let mut seen = Vec::new();
    for i in 0..list.len {
        let mv = pick_move(&mut list, &mut scores, i);
        assert_eq!(mv, list.moves[i]);
        seen.push(scores[i]);
    }
    let mut sorted = seen.clone();
    sorted.sort_by(|a, b| b.cmp(a));
    assert_eq!(seen, sorted);
}

#[test]
fn reductions_follow_the_formula() {
    let tune = Tunables::new();
    assert_eq!(tune.values[LMR_DIVISOR], 137);
    let t = init_lmr(&tune);
    for d in 1..128usize {
        for m in 1..128usize {
            let x = (d as f64).ln() * (m as f64).ln() / (137.0 / 100.0);
            assert_eq!(t.table[d * 128 + m], x as i32, "{} {}", d, m);
        }
    }
    let x = LmrInputs {
        depth: 10,
        moves_searched: 12,
        on_pv: false,
        improving: true,
        hist_score: 0,
        cut_node: false,
        static_eval: 0,
        alpha: 0,
        gives_check: false,
    };
    let r = lmr_reduction(&t, &tune, &x);
    assert!(r >= 0 && r <= 8);
}

#[test]
fn parameters_have_names_and_ranges() {
    assert_eq!(all_params().len(), 25);
    let p = param_by_name("LMR_DIVISOR").unwrap();
    assert_eq!((p.default, p.param), (137, LMR_DIVISOR));
    assert!(param_by_name("lmr_divisor").is_none());
    let mut t = Tunables::new();
    assert!(t.is_in_range());
    t.values[LMR_DIVISOR] = 1;
    assert!(!t.is_in_range());
}

#[test]
fn signals_are_shared() {
    let s = Signals::new();
    let h = s.handle();
    assert!(!should_stop(&s) && !is_pondering(&s) && allow_ponder(&s));
    set_stop(&h, true);
    set_pondering(&h, true);
    set_allow_ponder(&h, false);
    assert!(should_stop(&s) && is_pondering(&s) && !allow_ponder(&s));
    signal_ponderhit(&s);
    assert!(!is_pondering(&h));
}

#[test]
fn limits_without_a_clock() {
    let tm = TimeManager::new(&to_depth(12), true, Budget::none());
    assert_eq!(tm.max_depth(), 12);
    assert!(!tm.should_stop_hard(1_000_000_000));
    let tc = TimeControl { movetime: 0, infinite: false, ..TimeControl::infinite() };
    let tm = TimeManager::new(&tc, true, Budget::none());
    assert_eq!(tm.hard_limit_ms, 100);
    let tc = TimeControl { movetime: 250, infinite: false, ..TimeControl::infinite() };
    let tm = TimeManager::with_deadline(&tc, true, Budget::none(), 90);
    assert_eq!((tm.hard_limit_ms, tm.deadline_ms), (250, Some(90)));
    let tc = TimeControl { nodes: 100, ..TimeControl::infinite() };
    let tm = TimeManager::new(&tc, true, Budget::none());
    assert!(tm.should_stop_hard(100) && !tm.should_stop_hard(99));
    let tc = TimeControl { soft_nodes: 100, ..TimeControl::infinite() };
    let tm = TimeManager::new(&tc, true, Budget::none());
    assert!(tm.should_stop_soft(100) && !tm.should_stop_soft(99));
    assert!(tm.elapsed_ms() >= 0);
}

#[test]
fn clocks_are_planned() {
    let tc = TimeControl { wtime: 60_000, btime: 30_000, winc: 1000, binc: 0, infinite: false, ..TimeControl::infinite() };
    let mut base = 0;
    let p = plan_clock(&tc, true, 0, &mut base);
    assert_eq!((p.time, p.inc, p.horizon, p.sudden, p.bullet, base), (60_000, 1000, 50, true, true, 60_000));
    let q = plan_clock(&tc, false, 20, &mut base);
    assert_eq!((q.time, q.inc, base), (30_000, 0, 60_000));
    let tm = TimeManager::new(&tc, true, Budget { optimum: 1500, maximum: 9000, long_cap: 0 });
    assert_eq!((tm.soft_limit_ms, tm.hard_limit_ms), (1500, 9000));
    let budget = Budget { optimum: 1500, maximum: 90_000, long_cap: 0 };
    assert_eq!(TimeManager::new(&tc, true, budget).hard_limit_ms, 10_000);
    assert_eq!(TimeManager::new(&tc, false, budget).hard_limit_ms, 4_500);
    let tm = TimeManager::with_deadline(&tc, true, budget, 700);
    assert_eq!((tm.soft_limit_ms, tm.hard_limit_ms, tm.deadline_ms), (700, 700, Some(700)));
    let tm = TimeManager::with_deadline(&tc, true, budget, -5);
    assert_eq!((tm.soft_limit_ms, tm.hard_limit_ms), (1, 1));
    let long = TimeControl { wtime: 141_000, ..tc };
    let tm = TimeManager::new(&long, true, Budget { optimum: 8_000, maximum: 72_000, long_cap: 35_000 });
    assert_eq!((tm.soft_limit_ms, tm.hard_limit_ms), (8_000, 35_000));
    let short = TimeControl { wtime: 400, ..tc };
    let mut base = 60_000;
    assert_eq!(plan_clock(&short, true, 40, &mut base).horizon, 20);
}

#[test]
fn a_limit_of_nodes_gives_one_result() {
    let run = |nodes: u64| {
        let mut pos = Position::from_fen("r3k2r/p1ppqpb1/bn2pnp1/3PN3/1p2P3/2N2Q1p/PPPBBPPP/R3K2R w KQkq - 0 1").unwrap();
        let mut info = SearchInfo::new(TTable::new_shared(4));
        info.hash_history.push(pos.hash);
        info.game_history_len = 1;
        let tc = TimeControl { nodes, ..TimeControl::infinite() };
        let mut tm = TimeManager::new(&tc, true, Budget::none());
        let mv = search(&mut pos, &mut info, &mut tm);
        (mv, info.root_score, info.nodes, info.completed_depth, info.stopped)
    };
    let a = run(5000);
    assert_eq!(a, run(5000));
    assert!(a.4 && a.0 != Move::null());
    assert!(a.2 >= 5000 && a.2 < 9000);
    assert!(run(20_000).2 >= 20_000);
}

#[test]
fn exchanges_have_one_worth() {
    for (fen, text, worth) in [
        ("1k1r4/1pp4p/p7/4p3/8/P5P1/1PP4P/2K1R3 w - - 0 1", "e1e5", 100),
        ("1k1r3q/1ppn3p/p4b2/4p3/8/P2N2P1/1PP1R1BP/2K1Q3 w - - 0 1", "d3e5", -220),
        ("4k3/8/8/3pP3/8/8/8/4K3 w - d6 0 2", "e5d6", 100),
        ("4k3/P7/8/8/8/8/8/4K3 w - - 0 1", "a7a8q", 900),
        ("r3k3/8/8/8/8/8/8/R3K2R w KQ - 0 1", "e1g1", 0),
        ("4k3/3p4/8/8/8/8/3R4/3RK3 w - - 0 1", "d2d7", 100),
        ("4k3/3p4/8/8/8/8/3R4/4K3 w - - 0 1", "d2d7", -400),
    ] {
        let pos = Position::from_fen(fen).unwrap();
        let mv = pos.parse_uci_move(text).unwrap();
        for d in [0, 1, 2, 50, 5000] {
            assert!(see_ge(&pos, mv, worth - d), "{} {}", fen, text);
            assert!(!see_ge(&pos, mv, worth + 1 + d), "{} {}", fen, text);
        }
    }
}

#[test]
fn limits_follow_the_iterations() {
    for d in -100..=100i32 {
        let exact = 2.0_f64.powf(-d as f64 / 100.0) * 4294967296.0;
        assert_eq!(SWINGS[(100 + d) as usize], exact.round() as u64);
    }
    let tc = TimeControl { wtime: 60_000, infinite: false, ..TimeControl::infinite() };
    let budget = Budget { optimum: 1000, maximum: 6000, long_cap: 0 };
    let mut tm = TimeManager::new(&tc, true, budget);
    tm.update_best_move(77);
    assert_eq!((tm.soft_limit_ms, tm.hard_limit_ms), (2500, 6000));
    for (soft, hard) in [(1200, 6000), (900, 5400), (800, 4800), (750, 4500), (750, 4500)] {
        tm.update_best_move(77);
        assert_eq!((tm.soft_limit_ms, tm.hard_limit_ms), (soft, hard));
    }
    tm.update_score(40, 4);
    assert_eq!((tm.soft_limit_ms, tm.hard_limit_ms), (750, 4500));
    tm.update_score(-60, 5);
    assert_eq!((tm.soft_limit_ms, tm.hard_limit_ms), (1500, 6000));
    tm.update_score(-10, 6);
    assert_eq!((tm.soft_limit_ms, tm.hard_limit_ms), (530, 3181));
    tm.update_score(500, 7);
    assert_eq!((tm.soft_limit_ms, tm.hard_limit_ms), (375, 2250));
    tm.update_score(500, 8);
    tm.update_node_fraction(95, 100);
    assert_eq!((tm.soft_limit_ms, tm.hard_limit_ms), (375, 2250));
    tm.update_node_fraction(20, 100);
    assert_eq!((tm.soft_limit_ms, tm.hard_limit_ms), (1125, 6000));
    tm.update_node_fraction(50, 100);
    tm.update_forced(30, 401);
    assert_eq!((tm.soft_limit_ms, tm.hard_limit_ms), (292, 1755));
    tm.update_forced(30, 171);
    assert_eq!((tm.soft_limit_ms, tm.hard_limit_ms), (472, 2835));
    tm.update_forced(1, 0);
    assert_eq!((tm.soft_limit_ms, tm.hard_limit_ms), (7, 45));
    let mut tm = TimeManager::new(&to_depth(9), true, budget);
    tm.update_best_move(77);
    tm.update_forced(1, 0);
    assert_eq!((tm.soft_limit_ms, tm.hard_limit_ms), (i64::MAX, i64::MAX));
}

#[test]
fn no_tables_know_nothing() {
    let mut t = Tablebases::new();
    let pos = Position::from_fen("8/8/8/8/8/k7/8/K6R w - - 0 1").unwrap();
    assert_eq!(t.probe_wdl(&pos), None);
    assert_eq!(t.probe_root(&pos), None);
    let reports = t.init("/no/such/directory;;/nor/this");
    assert_eq!(reports.len(), 2);
    assert_eq!(reports[0].dir, "/no/such/directory");
    assert!(reports[0].files.is_none() && reports[1].files.is_none());
    assert_eq!(t.probe_wdl(&pos), None);
    t.set_probe_depth(4);
    assert_eq!(t.probe_depth(), 4);
}

#[test]
fn answers_of_tables_are_taken() {
    let pos = Position::from_fen("8/8/8/8/8/k7/8/K6R w - - 0 1").unwrap();
    let answer = root_result(Some(1), Some("h1h3".to_string()));
    assert_eq!(answer, Some(("h1h3".to_string(), 1)));
    assert_eq!(root_result(None, Some("h1h3".to_string())), None);
    assert_eq!(root_result(Some(1), None), None);
    let mv = pos.parse_uci_move("h1h3").unwrap();
    assert_eq!(take_probe(&pos, answer), Some((mv, 1)));
    assert_eq!(take_probe(&pos, Some(("h1g3".to_string(), 1))), None);
    assert_eq!(take_probe(&pos, None), None);
    let mut info = SearchInfo::new(TTable::new_shared(1));
    assert_eq!(note_probe(&pos, &mut info, None, false, 3), None);
    assert_eq!((info.nodes, info.tb_hits), (0, 0));
    assert_eq!(note_probe(&pos, &mut info, Some(1), false, 3), Some(28_869));
    assert_eq!((info.nodes, info.tb_hits), (1, 1));
    let e = info.tt.probe(pos.hash).unwrap();
    assert_eq!((e.depth, e.score, e.best_move), (127, score_to_tt(28_869, 3), Move::null()));
    assert_eq!(note_probe(&pos, &mut info, Some(-1), false, 3), Some(-28_869));
    assert_eq!(note_probe(&pos, &mut info, Some(0), false, 3), Some(0));
}

#[test]
fn tables_are_asked_within_the_settings() {
    let mut t = Tablebases::new();
    let reports = t.init(" ; /no/such/directory ;");
    assert_eq!(reports.len(), 1);
    assert_eq!(reports[0].dir, "/no/such/directory");
    assert!(reports[0].files.is_none());
    assert_eq!((t.max_pieces, t.probe_limit), (0, 0));
    let bare = Position::from_fen("8/8/8/3k4/8/8/8/K7 w - - 0 1").unwrap();
    let rook = Position::from_fen("8/8/8/3k4/8/8/8/K6R w - - 0 1").unwrap();
    assert!(t.probe_wdl(&bare).is_none());
    assert!(t.text_to_probe(&bare).is_none());
    // Two kings are a draw without any table; other material needs one.
    t.max_pieces = 5;
    t.set_probe_limit(3);
    assert_eq!(t.text_to_probe(&bare).unwrap(), "8/8/8/3k4/8/8/8/K7 w - - 0 1");
    assert_eq!(t.probe_wdl(&bare), Some(0));
    assert_eq!(t.probe_wdl(&rook), None);
    let (mv, wdl) = t.probe_root(&bare).unwrap();
    assert_eq!(wdl, 0);
    assert!(bare.parse_uci_move(&mv).is_some());
    assert!(t.probe_root(&rook).is_none());
    t.set_50move_rule(false);
    assert_eq!(t.probe_wdl(&bare), Some(0));
    t.set_probe_limit(1);
    assert_eq!(t.probe_wdl(&bare), None);
}

#[test]
fn a_clock_leaves_the_last_completed_iteration() {
    let fen = "r3k2r/p1ppqpb1/bn2pnp1/3PN3/1p2P3/2N2Q1p/PPPBBPPP/R3K2R w KQkq - 0 1";
    for movetime in [1, 60, 300] {
        let mut pos = Position::from_fen(fen).unwrap();
        let mut info = SearchInfo::new(TTable::new_shared(16));
        info.hash_history.push(pos.hash);
        info.game_history_len = 1;
        let tc = TimeControl { movetime, infinite: false, depth: 0, ..TimeControl::infinite() };
        let mut tm = TimeManager::new(&tc, true, Budget::none());
        let mv = search(&mut pos, &mut info, &mut tm);
        assert!(info.completed_depth >= 1);
        if info.completed_depth > 1 {
            let (other, score, full) = best(fen, info.completed_depth);
            assert_eq!((mv.to_uci(), info.root_score, &info.pv), (other, score, &full.pv));
        }
    }
}

#[test]
fn an_accepted_mate_has_been_searched() {
    for fen in ["6k1/5ppp/8/8/8/8/8/4R1K1 w - - 0 1", "7k/8/8/8/8/8/R7/1R5K w - - 0 1"] {
        let (_, score, info) = best(fen, 30);
        assert!(score >= 28872, "{}", fen);
        assert!(info.completed_depth < 30);
        assert!(info.completed_depth >= MATE_SCORE - score);
    }
}

#[test]
fn a_new_search_knows_nothing() {
    let info = SearchInfo::new(TTable::new_shared(1));
    assert_eq!(info.tt.buckets.len(), 32768);
    assert!(info.history.table.iter().all(|x| *x == 0));
    assert!(info.cont_history.table.iter().all(|x| *x == 0));
    assert!(info.capture_history.table.iter().all(|x| *x == 0));
    assert_eq!((info.nodes, info.root_second_best, info.tables.probe_limit), (0, i32::MIN, 6));
    for p in all_params() {
        assert_eq!(info.tune.values[p.param], p.default);
    }
}

#[test]
fn deep_limits_are_searched_to_the_end() {
    let mut pos = Position::from_fen("7k/5Q2/6K1/8/8/8/8/8 b - - 0 1").unwrap();
    let mut info = SearchInfo::new(TTable::new_shared(1));
    let mut tm = TimeManager::new(&to_depth(20_000), false, Budget::none());
    assert_eq!(search(&mut pos, &mut info, &mut tm), Move::null());
    assert_eq!(info.completed_depth, 20_000);
}

#[test]
fn root_probes_are_noted() {
    let mut info = SearchInfo::new(TTable::new_shared(1));
    let mv = Move::new(12, 28, 1);
    assert_eq!(note_root_probe(&mut info, mv, 1), TB_WIN_IN_MAX);
    assert_eq!((info.root_score, info.tb_hits, info.pv.clone()), (TB_WIN_IN_MAX, 1, vec![mv]));
    assert_eq!(note_root_probe(&mut info, mv, -1), -TB_WIN_IN_MAX);
    assert_eq!(note_root_probe(&mut info, mv, 0), 0);
    assert_eq!((info.root_score, info.tb_hits), (0, 3));
}

#[test]
fn limits_are_at_least_a_millisecond() {
    let tc = TimeControl { wtime: 1, btime: 1, infinite: false, depth: 0, ..TimeControl::infinite() };
    let tm = TimeManager::new(&tc, true, Budget { optimum: 1, maximum: 1, long_cap: 1 });
    assert_eq!((tm.soft_limit_ms, tm.hard_limit_ms), (1, 1));
    let tm = TimeManager::with_deadline(&tc, true, Budget { optimum: 50, maximum: 60, long_cap: 1 }, -5);
    assert_eq!((tm.soft_limit_ms, tm.hard_limit_ms), (1, 1));
}

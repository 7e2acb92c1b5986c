//! Sessions, training records, self-play and books made by it.

use clrsrc::board::Position;
use clrsrc::book::{encode_poly_move, polyglot_hash, write_sorted_main, Book, ExpBook, ExpEntry, EXP_SCORE_NONE};
use clrsrc::datagen::{game_end, games_for, is_recorded, play_game, play_opening, rest, Tally};
use clrsrc::records::{is_record, pack_piece, pack_position, record_pieces, unpack_to_fen};
use clrsrc::rescore::{
    after_failure, filter_by_pieces, final_score, label, read_line, record_position, relabel,
    rescore_by_tables, resume_at, AfterFailure, EngineLine, Job, Label, Listener,
};
use clrsrc::rng::{thread_seed, Rng};
use clrsrc::search::SearchInfo;
use clrsrc::selfplaybook::{book_fens, fill_result, pick_reasonable, sample_book_move, PendingEntry};
use clrsrc::session::{best_text, info_text, learnt, ponder_move, GoAction, Placed, Session};
use clrsrc::tablebase::Tablebases;
use clrsrc::text::split_words;
use clrsrc::tt::TTable;
use clrsrc::types::{chars_of, Color, Move, MoveList};
use clrsrc::uci::{parse_go, read_command, read_setting, Command, Setting};
use clrsrc::verify::{check_book, Verdict};

fn tokens(line: &str) -> Vec<Vec<char>> {
    split_words(&chars_of(line))
}

// ---- Commands ----

#[test]
fn commands_by_their_first_word() {
    assert_eq!(read_command(&tokens("  uci ")), Command::Identify);
    assert_eq!(read_command(&tokens("isready")), Command::Ready);
    assert_eq!(read_command(&tokens("ucinewgame")), Command::NewGame);
    assert_eq!(read_command(&tokens("position startpos")), Command::Position);
    assert_eq!(read_command(&tokens("go depth 3")), Command::Go);
    assert_eq!(read_command(&tokens("ponderhit")), Command::PonderHit);
    assert_eq!(read_command(&tokens("stop")), Command::Stop);
    assert_eq!(read_command(&tokens("d")), Command::Display);
    assert_eq!(read_command(&tokens("display")), Command::Display);
    assert_eq!(read_command(&tokens("perft 4")), Command::Perft(4));
    assert_eq!(read_command(&tokens("perft")), Command::Nothing);
    assert_eq!(read_command(&tokens("perft x")), Command::Nothing);
    assert_eq!(read_command(&tokens("eval")), Command::Eval);
    assert_eq!(read_command(&tokens("verify")), Command::Verify);
    assert_eq!(read_command(&tokens("quit")), Command::Quit);
    assert_eq!(read_command(&tokens("setoption name Hash value 1")), Command::SetOption);
    assert_eq!(read_command(&tokens("")), Command::Nothing);
    assert_eq!(read_command(&tokens("Uci")), Command::Nothing);
}

#[test]
fn limits_of_go_commands() {
    let g = parse_go(&tokens("go wtime 60000 btime 50000 winc 1000 binc -5 movestogo 40"));
    assert_eq!((g.tc.wtime, g.tc.btime, g.tc.winc, g.tc.binc, g.tc.movestogo), (60000, 50000, 1000, -5, 40));
    assert_eq!((g.tc.depth, g.tc.infinite, g.ponder), (0, false, false));
    assert_eq!(parse_go(&tokens("go")).tc.depth, 10);
    assert_eq!(parse_go(&tokens("go depth 7")).tc.depth, 7);
    assert_eq!(parse_go(&tokens("go depth x")).tc.depth, 10);
    let g = parse_go(&tokens("go nodes 5000"));
    assert_eq!((g.tc.nodes, g.tc.depth), (5000, 0));
    assert!(parse_go(&tokens("go infinite")).tc.infinite);
    let g = parse_go(&tokens("go ponder"));
    assert!(g.ponder && g.tc.depth == 0);
    assert_eq!(parse_go(&tokens("go movetime 300")).tc.movetime, 300);
    assert_eq!(parse_go(&tokens("go wtime")).tc.depth, 10);
    assert_eq!(parse_go(&tokens("go wtime depth 3")).tc.depth, 10);
}

#[test]
fn settings_are_read() {
    assert!(matches!(read_setting(&tokens("setoption name Hash value 128")), Setting::Hash(128)));
    assert!(matches!(read_setting(&tokens("setoption name HASH value +7")), Setting::Hash(7)));
    assert!(matches!(read_setting(&tokens("setoption name hash value x")), Setting::Nothing));
    assert!(matches!(read_setting(&tokens("setoption name Threads value 999")), Setting::Threads(256)));
    assert!(matches!(read_setting(&tokens("setoption name Threads value 0")), Setting::Threads(1)));
    assert!(matches!(read_setting(&tokens("setoption name OwnBook value TRUE")), Setting::OwnBook(true)));
    assert!(matches!(read_setting(&tokens("setoption name OwnBook value yes")), Setting::OwnBook(false)));
    assert!(matches!(read_setting(&tokens("setoption name BestBookMove value 1")), Setting::BestBookMove(true)));
    assert!(matches!(read_setting(&tokens("setoption name SyzygyProbeDepth value 500")), Setting::SyzygyProbeDepth(100)));
    assert!(matches!(read_setting(&tokens("setoption name SyzygyProbeLimit value 9")), Setting::SyzygyProbeLimit(7)));
    assert!(matches!(read_setting(&tokens("setoption name Syzygy50MoveRule value false")), Setting::Syzygy50MoveRule(false)));
    assert!(matches!(read_setting(&tokens("setoption name ExpMinSaveDepth value -4")), Setting::ExpMinSaveDepth(1)));
    assert!(matches!(read_setting(&tokens("setoption name BookVariety value 9")), Setting::BookVariety(2)));
    assert!(matches!(read_setting(&tokens("setoption name BookVariety value 300")), Setting::Nothing));
    assert!(matches!(read_setting(&tokens("setoption name PlayFromExp value true")), Setting::PlayFromExp(true)));
    assert!(matches!(read_setting(&tokens("setoption name LearnDuringPlay value true")), Setting::LearnDuringPlay(true)));
    assert!(matches!(read_setting(&tokens("setoption name Ponder value false")), Setting::Ponder(false)));
    assert!(matches!(read_setting(&tokens("setoption name LongTimeNMP value true")), Setting::LongTimeNmp(true)));
    match read_setting(&tokens("setoption name EvalFile value my net file.nnue")) {
        Setting::EvalFile(Some(p)) => assert_eq!(p, "my net file.nnue"),
        _ => panic!(),
    }
    assert!(matches!(read_setting(&tokens("setoption name EvalFile value <empty>")), Setting::EvalFile(None)));
    assert!(matches!(read_setting(&tokens("setoption name BookFile value <empty>")), Setting::BookFile(None)));
    assert!(matches!(read_setting(&tokens("setoption name ExpFile value a.book")), Setting::ExpFile(Some(_))));
    assert!(matches!(read_setting(&tokens("setoption name SyzygyPath value <empty>")), Setting::Nothing));
    assert!(matches!(read_setting(&tokens("setoption name lmr_divisor value 9999")), Setting::Tune { value: 300, .. }));
    assert!(matches!(read_setting(&tokens("setoption name RFP_Depth value 1")), Setting::Tune { param: 2, value: 4 }));
    assert!(matches!(read_setting(&tokens("setoption name NoSuch value 1")), Setting::Nothing));
    assert!(matches!(read_setting(&tokens("setoption name Hash")), Setting::Nothing));
    assert!(matches!(read_setting(&tokens("setoption value 1 name Hash")), Setting::Nothing));
}

// ---- Sessions ----

#[test]
fn a_session_takes_over_settings() {
    let mut s = Session::new(6);
    assert_eq!(s.engine.exp_rng, 7);
    for line in [
        "setoption name Hash value 1",
        "setoption name Threads value 4",
        "setoption name OwnBook value true",
        "setoption name BookVariety value 1",
        "setoption name ExpMinSaveDepth value 9",
        "setoption name SyzygyProbeLimit value 3",
        "setoption name LongTimeNMP value true",
        "setoption name RFP_DEPTH value 9",
    ] {
        let x = read_setting(&tokens(line));
        s.apply(&x);
    }
    assert_eq!((s.threads, s.engine.own_book, s.engine.book_variety, s.exp_min_depth), (4, true, 1, 9));
    assert_eq!(s.engine.info.tables.probe_limit, 3);
    assert_eq!((s.engine.info.tune.values[4], s.engine.info.tune.values[2]), (5, 9));
    assert_eq!(s.engine.info.tt.entry_count(), 65536);
}

#[test]
fn positions_are_set_up() {
    let mut s = Session::new(0);
    assert!(matches!(
        s.position(&tokens("position startpos moves e2e4 e7e5 zzzz g1f3")),
        Placed::Played { fen_error: None, bad_move: Some(2) }
    ));
    assert_eq!(s.game_ply, 2);
    assert_eq!(s.engine.info.hash_history.len(), 3);
    assert_eq!(s.engine.info.game_history_len, 3);
    assert_eq!(s.pos.to_fen(), "rnbqkbnr/pppp1ppp/8/4p3/4P3/8/PPPP1PPP/RNBQKBNR w KQkq e6 0 2");
    assert!(matches!(
        s.position(&tokens("position fen 8/8/8/8/8/k7/8/K6R b - - 3 9 moves a3b3")),
        Placed::Played { fen_error: None, bad_move: None }
    ));
    assert_eq!(s.pos.to_fen(), "8/8/8/8/8/1k6/8/K6R w - - 4 10");
    match s.position(&tokens("position fen nonsense")) {
        Placed::Played { fen_error: Some(e), .. } => assert_eq!(e, "FEN needs at least 4 fields"),
        _ => panic!(),
    }
    assert_eq!(s.pos.to_fen(), "8/8/8/8/8/1k6/8/K6R w - - 4 10");
    assert!(matches!(s.position(&tokens("position fen 8/8/8/8/8/8/8/8 w - -")), Placed::Unplayable));
    assert!(matches!(s.position(&tokens("position moves h1h2")), Placed::Played { bad_move: None, .. }));
    assert_eq!(s.pos.to_fen(), "8/8/8/8/8/1k6/7R/K7 b - - 5 10");
    s.position(&tokens("position"));
    assert_eq!(s.engine.info.hash_history.len(), 0);
    s.new_game();
    assert_eq!(s.pos.to_fen(), Position::startpos().to_fen());
    assert_eq!(s.game_ply, 0);
}

fn start_entry(text: &str, score: i16, depth: i16, count: u16) -> ExpEntry {
    let start = Position::startpos();
    ExpEntry {
        key: polyglot_hash(&start),
        packed_move: encode_poly_move(start.parse_uci_move(text).unwrap()),
        score,
        depth,
        count,
        source: 1,
        flags: 0,
        wdl_w: 0,
        wdl_l: 0,
        nnue_eval: EXP_SCORE_NONE,
        jug_score: score,
        sf_score: EXP_SCORE_NONE,
        clrsrc_score: EXP_SCORE_NONE,
    }
}

#[test]
fn books_answer_before_a_search() {
    let mut s = Session::new(0);
    s.engine.exp = ExpBook::from_bytes(&write_sorted_main(&[start_entry("c2c4", 30, 20, 5)], 0));
    let g = parse_go(&tokens("go wtime 1000 btime 1000"));
    assert!(matches!(s.go(&g), GoAction::Search { ponder: false }));
    s.engine.play_from_exp = true;
    assert!(matches!(s.go(&g), GoAction::Book(m) if m.to_uci() == "c2c4"));
    let p = parse_go(&tokens("go ponder wtime 1000 btime 1000"));
    assert!(matches!(s.go(&p), GoAction::Search { ponder: true }));
    s.apply(&Setting::Ponder(false));
    assert!(matches!(s.go(&p), GoAction::Book(_)));
    assert!(matches!(s.go(&parse_go(&tokens("go depth 4"))), GoAction::Search { ponder: false }));
    assert!(matches!(s.go(&parse_go(&tokens("go infinite"))), GoAction::Search { ponder: false }));
}

#[test]
fn searches_are_learnt() {
    let pos = Position::startpos();
    let mut info = SearchInfo::new(TTable::new_shared(1));
    let mv = pos.parse_uci_move("e2e4").unwrap();
    info.completed_depth = 20;
    info.root_score = 35;
    let e = learnt(&pos, &info, mv, false, 16).unwrap();
    assert_eq!((e.key, e.packed_move), (polyglot_hash(&pos), encode_poly_move(mv)));
    assert_eq!((e.score, e.clrsrc_score, e.depth, e.count, e.source, e.flags), (35, 35, 20, 1, 0x20, 1));
    assert_eq!((e.jug_score, e.sf_score, e.nnue_eval), (EXP_SCORE_NONE, EXP_SCORE_NONE, EXP_SCORE_NONE));
    info.root_score = -28900;
    assert_eq!(learnt(&pos, &info, mv, false, 16).unwrap().flags, 0x11);
    assert!(learnt(&pos, &info, mv, true, 16).is_none());
    assert!(learnt(&pos, &info, mv, false, 21).is_none());
    assert!(learnt(&pos, &info, Move::null(), false, 16).is_none());
}

#[test]
fn reports_are_written() {
    let pos = Position::startpos();
    let e4 = pos.parse_uci_move("e2e4").unwrap();
    let mut after = Position::startpos();
    after.make_move(e4);
    let e5 = after.parse_uci_move("e7e5").unwrap();
    assert_eq!(best_text(e4, Some(e5)), "bestmove e2e4 ponder e7e5");
    assert_eq!(best_text(e4, None), "bestmove e2e4");
    assert_eq!(best_text(Move::null(), None), "bestmove 0000");
    assert_eq!(ponder_move(&pos, &vec![e4, e5], e4, true), Some(e5));
    assert_eq!(ponder_move(&pos, &vec![e4, e5], e4, false), None);
    assert_eq!(ponder_move(&pos, &vec![e4, e4], e4, true), None);
    assert_eq!(ponder_move(&pos, &vec![e4], e4, true), None);
    let mut info = SearchInfo::new(TTable::new_shared(1));
    info.completed_depth = 9;
    info.seldepth = 14;
    info.nodes = 12345;
    info.helper_nodes = 55;
    info.tb_hits = 3;
    info.pv = vec![e4, e5];
    assert_eq!(
        info_text(&info, -35, 200),
        "info depth 9 seldepth 14 score cp -35 nodes 12400 nps 62000 hashfull 0 tbhits 3 time 200 pv e2e4 e7e5"
    );
    assert_eq!(
        info_text(&info, 28997, 0),
        "info depth 9 seldepth 14 score mate 2 nodes 12400 nps 12400000 hashfull 0 tbhits 3 time 1 pv e2e4 e7e5"
    );
}

// ---- Random numbers ----

#[test]
fn random_numbers_of_a_seed() {
    let mut r = Rng::new(42);
    assert_eq!((r.a, r.b, r.c, r.d), (0xbdd732262feb6e95, 0xa224603c645ac87a, 0xe736d0a021080ef6, 0xc9212169148b74c5));
    assert_eq!(r.next_u64(), 0x32754ed1fa9eb9bd);
    assert_eq!(r.next_u64(), 0x5bfd626151463655);
    assert_eq!(r.next_u64(), 0x8e55881484500a5b);
}

#[test]
fn threads_get_seeds_of_their_own() {
    assert_eq!(thread_seed(0, 0), 0x517cc1b727220a95);
    assert_eq!(thread_seed(5, 3), 5 ^ 0x517cc1b727220a95u64.wrapping_mul(4));
    assert_ne!(thread_seed(7, 1), thread_seed(7, 2));
}

#[test]
fn players_rest_between_games() {
    let pos = Position::startpos();
    let mv = pos.parse_uci_move("e2e4").unwrap();
    let mut info = SearchInfo::new(TTable::new_shared(1));
    info.history.update(Color::White, mv, 4, true);
    info.tt.store(pos.hash, 5, 1, false, 10, 10, mv);
    rest(&mut info, 1);
    assert_eq!(info.history.get(Color::White, mv), 0);
    assert!(info.tt.probe(pos.hash).is_some());
    rest(&mut info, 100);
    assert!(info.tt.probe(pos.hash).is_none());
}

// ---- Records ----

#[test]
fn positions_are_packed_and_unpacked() {
    for fen in [
        "rnbqkbnr/pppppppp/8/8/8/8/PPPPPPPP/RNBQKBNR w KQkq - 0 1",
        "r3k2r/p1ppqpb1/bn2pnp1/3PN3/1p2P3/2N2Q1p/PPPBBPPP/R3K2R b KQkq - 0 1",
        "8/2p5/3p4/KP5r/1R3p1k/8/4P1P1/8 b - - 0 1",
    ] {
        let pos = Position::from_fen(fen).unwrap();
        let r = pack_position(&pos, -123);
        assert_eq!(r.len(), 32);
        assert!(is_record(&r));
        let u = unpack_to_fen(&r);
        assert_eq!(u.fen, fen);
        assert_eq!((u.score, u.result), (-123, 0));
        assert_eq!(r[29], (pos.side == Color::Black) as u8);
        assert_eq!(r[27], pos.king_sq(pos.side));
        assert_eq!(r[28], pos.king_sq(pos.side.flip()));
    }
    let pos = Position::startpos();
    let r = pack_position(&pos, 99_999);
    assert_eq!(i16::from_le_bytes([r[24], r[25]]), 32000);
    assert_eq!(record_pieces(&r), 32);
    assert_eq!(r[8], 0x13);
    assert_eq!(pack_piece(11), 13);
    let mut bad = r.clone();
    bad[8] = 0xFF;
    assert!(!is_record(&bad));
    assert!(!is_record(&bad[1..]));
}

#[test]
fn scores_decide_games() {
    let mut t = Tally::new();
    for i in 0..4 {
        assert_eq!(t.judge(if i % 2 == 0 { Color::White } else { Color::Black }, if i % 2 == 0 { 3000 } else { -3500 }, i), None);
    }
    assert_eq!(t.judge(Color::White, 4000, 4), Some(2));
    let mut t = Tally::new();
    for _ in 0..4 {
        assert_eq!(t.judge(Color::White, -3000, 10), None);
    }
    assert_eq!(t.judge(Color::Black, 3000, 10), Some(0));
    let mut t = Tally::new();
    for i in 0..9 {
        assert_eq!(t.judge(Color::White, 10, 70 + i), None);
    }
    assert_eq!(t.judge(Color::White, -10, 80), Some(1));
    let mut t = Tally::new();
    for i in 0..60 {
        assert_eq!(t.judge(Color::White, 0, i), None);
    }
}

#[test]
fn games_end_by_the_rules() {
    let mut p = Position::startpos();
    let h = p.hash;
    assert_eq!(game_end(&mut p, &vec![h]), None);
    assert_eq!(game_end(&mut p, &vec![h, 1, h, 2, h]), Some(1));
    let mut p = Position::from_fen("7k/6Q1/6K1/8/8/8/8/8 b - - 0 1").unwrap();
    assert_eq!(game_end(&mut p, &vec![]), Some(2));
    let mut p = Position::from_fen("7K/6q1/6k1/8/8/8/8/8 w - - 0 1").unwrap();
    assert_eq!(game_end(&mut p, &vec![]), Some(0));
    let mut p = Position::from_fen("7k/5Q2/6K1/8/8/8/8/8 b - - 0 1").unwrap();
    assert_eq!(game_end(&mut p, &vec![]), Some(1));
    let mut p = Position::from_fen("7k/8/6K1/8/8/8/8/R7 w - - 100 90").unwrap();
    assert_eq!(game_end(&mut p, &vec![]), Some(1));
}

#[test]
fn only_quiet_positions_are_recorded() {
    let p = Position::from_fen("r1bqkbnr/pppp1ppp/2n5/4p3/2B1P3/5N2/PPPP1PPP/RNBQK2R w KQkq - 3 3").unwrap();
    let quiet = p.parse_uci_move("d2d3").unwrap();
    let takes = p.parse_uci_move("c4f7").unwrap();
    assert!(is_recorded(&p, quiet, 40, 8));
    assert!(!is_recorded(&p, quiet, 40, 7));
    assert!(!is_recorded(&p, quiet, 10_000, 8));
    assert!(!is_recorded(&p, takes, 40, 8));
    let p = Position::from_fen("4k3/8/8/8/8/8/8/R3K3 w - - 0 1").unwrap();
    assert!(!is_recorded(&p, p.parse_uci_move("a1a8").unwrap(), 500, 20));
    assert!(is_recorded(&p, p.parse_uci_move("a1a7").unwrap(), 500, 20));
}

#[test]
fn openings_and_games_are_played() {
    let mut r = Rng::new(5);
    let a = play_opening(&mut r, None).unwrap();
    let mut q = Rng::new(5);
    let b = play_opening(&mut q, None).unwrap();
    assert_eq!(a.to_fen(), b.to_fen());
    assert_eq!(r, q);
    assert_eq!(a.fullmove, 5);
    let mut w = SearchInfo::new(TTable::new_shared(1));
    let mut k = SearchInfo::new(TTable::new_shared(1));
    w.silent = true;
    k.silent = true;
    let mut seen = 0;
    for seed in 0..3 {
        let mut r = Rng::new(seed);
        let v = play_game(&mut w, &mut k, &mut r, None, 300);
        let white: Vec<u8> = v.iter().filter(|e| e[29] == 0).map(|e| e[26]).collect();
        let black: Vec<u8> = v.iter().filter(|e| e[29] == 1).map(|e| 2 - e[26]).collect();
        let mut all = white.clone();
        all.extend(black);
        assert!(all.iter().all(|x| *x == all[0]));
        for e in &v {
            assert!(is_record(e));
        }
        seen += v.len();
    }
    assert!(seen > 0);
}

#[test]
fn games_are_shared_out() {
    for (games, threads) in [(10u32, 3u32), (0, 4), (7, 7), (5, 8)] {
        let total: u32 = (0..threads).map(|i| games_for(games, threads, i)).sum();
        assert_eq!(total, games);
    }
    assert_eq!((games_for(10, 3, 0), games_for(10, 3, 2)), (4, 3));
}

// ---- Books from self-play ----

#[test]
fn results_are_written_to_entries() {
    let p = PendingEntry { key: 5, packed_move: 6, clrsrc_score: -7, depth: 8, mate: false, mover_is_white: false };
    let e = fill_result(&p, 0);
    assert_eq!((e.wdl_w, e.wdl_l, e.source, e.flags, e.score, e.clrsrc_score, e.count), (1, 0, 0x28, 1, -7, -7, 1));
    assert_eq!((fill_result(&p, 2).wdl_w, fill_result(&p, 2).wdl_l), (0, 1));
    assert_eq!((fill_result(&p, 1).wdl_w, fill_result(&p, 1).wdl_l), (0, 0));
    let m = PendingEntry { mate: true, mover_is_white: true, ..p };
    assert_eq!((fill_result(&m, 2).flags, fill_result(&m, 2).wdl_w), (0x11, 1));
}

#[test]
fn a_self_play_game_gives_its_opening() {
    let mut w = SearchInfo::new(TTable::new_shared(1));
    let mut k = SearchInfo::new(TTable::new_shared(1));
    w.silent = true;
    k.silent = true;
    let book = ExpBook::from_bytes(&write_sorted_main(&[start_entry("c2c4", 30, 20, 5)], 0)).unwrap();
    let mut r = Rng::new(1);
    let v = clrsrc::selfplaybook::play_game(&mut w, &mut k, &mut r, Some(&book), 200);
    assert_eq!(v.len(), 18);
    assert_eq!(v[0].key, polyglot_hash(&Position::startpos()));
    assert_eq!(v[0].packed_move, start_entry("c2c4", 0, 0, 0).packed_move);
    assert!(v.iter().all(|e| e.source == 0x28 && e.count == 1));
    let start = Position::startpos();
    let c: Vec<Move> = ["e2e4", "d2d4"].iter().map(|m| start.parse_uci_move(m).unwrap()).collect();
    let v = clrsrc::selfplaybook::play_game_seeded(&mut w, &mut k, &mut r, &start, &c, 4, 200);
    if v.len() == 1 {
        assert_eq!(v[0].key, polyglot_hash(&start));
        assert!(c.iter().any(|m| encode_poly_move(*m) == v[0].packed_move));
    }
}

#[test]
fn reasonable_moves_do_not_hang_pieces() {
    let mut p = Position::from_fen("4k3/8/8/3q4/4P3/8/8/4K3 w - - 0 1").unwrap();
    let mut list = MoveList::new();
    clrsrc::movegen::generate_legal(&mut p, &mut list);
    for seed in 0..20 {
        let mut r = Rng::new(seed);
        assert_eq!(pick_reasonable(&mut p, &list, &mut r, 120).to_uci(), "e4d5");
    }
}

#[test]
fn walks_through_a_book() {
    let book = ExpBook::from_bytes(&write_sorted_main(
        &[start_entry("c2c4", 30, 20, 5), start_entry("e2e4", 30, 20, 9), start_entry("a2a3", 0, 1, 1)],
        0,
    ))
    .unwrap();
    let mut pos = Position::startpos();
    for seed in 0..20 {
        let mut r = Rng::new(seed);
        let m = sample_book_move(&book, &mut pos, &mut r, 2).unwrap().to_uci();
        assert!(m == "c2c4" || m == "e2e4");
    }
    let mut r = Rng::new(3);
    assert_eq!(sample_book_move(&book, &mut pos, &mut r, 9).unwrap().to_uci(), "e2e4");
    let (fens, short) = book_fens(&book, &mut r, 30, 1, 2);
    let lines: Vec<String> = fens.iter().map(|f| f.iter().collect()).collect();
    assert_eq!(short, 0);
    assert_eq!(
        lines,
        vec![
            "rnbqkbnr/pppppppp/8/8/2P5/8/PP1PPPPP/RNBQKBNR b KQkq c3 0 1",
            "rnbqkbnr/pppppppp/8/8/4P3/8/PPPP1PPP/RNBQKBNR b KQkq e3 0 1",
        ]
    );
    let (fens, short) = book_fens(&book, &mut r, 4, 2, 2);
    assert!(fens.is_empty() && short == 4);
}

// ---- New scores ----

#[test]
fn records_get_new_scores() {
    let p = Position::from_fen("8/8/8/8/8/k7/8/K6R w - - 0 1").unwrap();
    let r = pack_position(&p, 55);
    assert_eq!(label(&r, 6, Some(1)), Label::Win);
    assert_eq!(label(&r, 6, Some(-1)), Label::Loss);
    assert_eq!(label(&r, 6, Some(0)), Label::Draw);
    assert_eq!(label(&r, 6, None), Label::Unknown);
    assert_eq!(label(&r, 2, Some(1)), Label::Above);
    assert_eq!(label(&vec![0; 32], 6, Some(1)), Label::Blank);
    let score = |v: &Vec<u8>| i16::from_le_bytes([v[24], v[25]]);
    assert_eq!(score(&relabel(&r, Label::Win, 2000)), 2000);
    assert_eq!(score(&relabel(&r, Label::Loss, 2000)), -2000);
    assert_eq!(score(&relabel(&r, Label::Draw, 2000)), 0);
    assert_eq!(relabel(&r, Label::Above, 2000), r);
    let mut d = r.clone();
    d.extend_from_slice(&[0; 32]);
    d.extend_from_slice(&pack_position(&Position::startpos(), 1));
    let (out, n) = rescore_by_tables(&d, &Tablebases::new(), 2000, 6);
    assert_eq!(out, d);
    assert_eq!((n.unknown, n.blank, n.above, n.win + n.draw + n.loss), (1, 1, 1, 0));
}

#[test]
fn records_give_their_positions() {
    let pos = Position::from_fen("8/8/8/8/8/k7/8/K6R w - - 0 1").unwrap();
    let r = pack_position(&pos, 5);
    assert_eq!(record_position(&r).unwrap().to_fen(), pos.to_fen());
    assert!(record_position(&[0; 32]).is_none());
    assert!(record_position(&r[..31]).is_none());
}

#[test]
fn records_are_filtered_by_pieces() {
    let few = pack_position(&Position::from_fen("8/8/8/8/8/k7/8/K6R w - - 0 1").unwrap(), 5);
    let many = pack_position(&Position::startpos(), 5);
    let mut d = few.clone();
    d.extend_from_slice(&[0; 32]);
    d.extend_from_slice(&many);
    assert_eq!(filter_by_pieces(&d, 6, false), (few, 1));
    assert_eq!(filter_by_pieces(&d, 6, true), (many, 1));
}

#[test]
fn lines_of_another_engine() {
    assert_eq!(read_line("info depth 3 score cp -41 nodes 7"), EngineLine::Score(-41));
    assert_eq!(read_line("info depth 3 score mate 4 nodes 7"), EngineLine::Score(29996));
    assert_eq!(read_line("info score mate -4"), EngineLine::Score(-29996));
    assert_eq!(read_line("info score cp x"), EngineLine::Other);
    assert_eq!(read_line("bestmove e2e4"), EngineLine::Best);
    assert_eq!(read_line("readyok"), EngineLine::Other);
    let mut l = Listener::new();
    assert_eq!(l.hear("info score cp 40000"), None);
    assert_eq!(l.hear("info string nothing"), None);
    assert_eq!(l.hear("bestmove a2a3"), Some(32000));
    assert_eq!(final_score(-99_999), -32000);
    assert_eq!(after_failure(1, true), AfterFailure::Retry);
    assert_eq!(after_failure(2, true), AfterFailure::Skip);
    assert_eq!(after_failure(1, false), AfterFailure::Skip);
}

#[test]
fn jobs_are_resumed_and_checkpointed() {
    let r = resume_at(100, 5);
    assert_eq!((r.valid, r.done, r.complete), (96, 3, false));
    assert!(resume_at(160, 5).complete);
    let p = Position::from_fen("8/8/8/8/8/k7/8/K6R w - - 0 1").unwrap();
    let mut d = Vec::new();
    for i in 0..4 {
        d.extend_from_slice(&pack_position(&p, i));
    }
    let mut j = Job::new(&d, 1);
    assert_eq!(j.take(), Some(0));
    assert_eq!(j.take(), Some(1));
    assert_eq!(j.fen_of(0).unwrap(), "8/8/8/8/8/k7/8/K6R w - - 0 1");
    j.finish(1, Some(77));
    assert_eq!(j.checkpoint().1, 0);
    j.finish(0, None);
    let (bytes, to) = j.checkpoint();
    assert_eq!((bytes.len(), to), (64, 2));
    assert_eq!(&bytes[..32], &d[32..64]);
    assert_eq!(i16::from_le_bytes([bytes[56], bytes[57]]), 77);
    j.wrote(to);
    assert_eq!(j.checkpoint(), (vec![], 2));
    assert_eq!(j.take(), Some(2));
    assert_eq!(j.take(), None);
}

#[test]
fn book_moves_are_checked() {
    let start = Position::startpos();
    let mut d: Vec<u8> = Vec::new();
    d.extend_from_slice(&polyglot_hash(&start).to_be_bytes());
    d.extend_from_slice(&encode_poly_move(start.parse_uci_move("e2e4").unwrap()).to_be_bytes());
    d.extend_from_slice(&9u16.to_be_bytes());
    d.extend_from_slice(&[0; 4]);
    let b = Book::from_bytes(d);
    assert!(matches!(check_book(&b, "", &["d2d4", "e2e4"], true), Verdict::Passed(_)));
    assert!(matches!(check_book(&b, "", &["d2d4"], true), Verdict::Failed(_)));
    assert!(matches!(check_book(&b, "e2e4", &["e7e5"], true), Verdict::Skipped));
}

#[test]
fn forbidden_pondering_stays_off() {
    let mut s = Session::new(0);
    s.apply(&read_setting(&tokens("setoption name Ponder value false")));
    s.new_game();
    s.apply(&read_setting(&tokens("setoption name Threads value 2")));
    s.position(&tokens("position startpos moves e2e4"));
    let g = parse_go(&tokens("go ponder wtime 1000 btime 1000"));
    assert!(matches!(s.go(&g), GoAction::Search { ponder: false }));
    let e5 = s.pos.parse_uci_move("e7e5").unwrap();
    let mut after = s.pos.clone();
    after.make_move(e5);
    let f3 = after.parse_uci_move("g1f3").unwrap();
    assert_eq!(best_text(e5, ponder_move(&s.pos, &vec![e5, f3], e5, s.ponder_allowed)), "bestmove e7e5");
    s.apply(&Setting::Ponder(true));
    assert!(matches!(s.go(&g), GoAction::Search { ponder: true }));
}

#[test]
fn a_new_game_forgets() {
    let mut s = Session::new(0);
    let e4 = s.pos.parse_uci_move("e2e4").unwrap();
    s.engine.info.killers.store(3, e4);
    s.engine.info.correction_history.table[7].sum = 40;
    s.engine.info.history.table[5] = 9;
    s.new_game();
    assert!(s.engine.info.killers.moves.iter().all(|k| k.first == Move::null() && k.second == Move::null()));
    assert!(s.engine.info.correction_history.table.iter().all(|c| c.sum == 0 && c.weight == 0));
    assert!(s.engine.info.history.table.iter().all(|x| *x == 0));
}

//! The UCI protocol: reading commands, and the state that they change.

use crate::num::clamped;
use crate::text::{
    is_plain, join_words, joined, lowercase_chars, lowercase_of, parse_i32, parse_i64,
    parse_unsigned, parsed_i32, parsed_i64, parsed_unsigned, same_chars, small_letters, spells,
    texts, to_small,
};
use crate::time::TimeControl;
use crate::tune::{all_params, describes, largest_value, least_value, param_name, TuneParam};
use crate::types::chars_of;
use vstd::prelude::*;

verus! {

// ---- Commands ----
/// What a line asks for, by its first word.
#[derive(Clone, Copy, PartialEq, Eq, Structural, Debug)]
pub enum Command {
    Nothing,
    Identify,
    SetOption,
    Ready,
    NewGame,
    Position,
    Go,
    PonderHit,
    Stop,
    Display,
    /// Counts the leaves to a depth.
    Perft(u32),
    Eval,
    Verify,
    Quit,
}

/// The command that words make up. A count of leaves needs a depth.
pub open spec fn command_of(t: Seq<Seq<char>>) -> Command {
    if t.len() == 0 {
        Command::Nothing
    } else if t[0] == "uci"@ {
        Command::Identify
    } else if t[0] == "setoption"@ {
        Command::SetOption
    } else if t[0] == "isready"@ {
        Command::Ready
    } else if t[0] == "ucinewgame"@ {
        Command::NewGame
    } else if t[0] == "position"@ {
        Command::Position
    } else if t[0] == "go"@ {
        Command::Go
    } else if t[0] == "ponderhit"@ {
        Command::PonderHit
    } else if t[0] == "stop"@ {
        Command::Stop
    } else if t[0] == "d"@ || t[0] == "display"@ {
        Command::Display
    } else if t[0] == "perft"@ {
        if t.len() > 1 {
            match parsed_unsigned(t[1], 0xffff_ffff) {
                Some(d) => Command::Perft(d as u32),
                None => Command::Nothing,
            }
        } else {
            Command::Nothing
        }
    } else if t[0] == "eval"@ {
        Command::Eval
    } else if t[0] == "verify"@ {
        Command::Verify
    } else if t[0] == "quit"@ {
        Command::Quit
    } else {
        Command::Nothing
    }
}

/// Reads a command.
pub fn read_command(tokens: &Vec<Vec<char>>) -> (c: Command)
    ensures
        c == command_of(texts(tokens@)),
{
    if tokens.len() == 0 {
        return Command::Nothing;
    }
    let w: &Vec<char> = &tokens[0];
    assert(texts(tokens@)[0] == w@);
    if spells(w, "uci") {
        Command::Identify
    } else if spells(w, "setoption") {
        Command::SetOption
    } else if spells(w, "isready") {
        Command::Ready
    } else if spells(w, "ucinewgame") {
        Command::NewGame
    } else if spells(w, "position") {
        Command::Position
    } else if spells(w, "go") {
        Command::Go
    } else if spells(w, "ponderhit") {
        Command::PonderHit
    } else if spells(w, "stop") {
        Command::Stop
    } else if spells(w, "d") || spells(w, "display") {
        Command::Display
    } else if spells(w, "perft") {
        if tokens.len() > 1 {
            assert(texts(tokens@)[1] == tokens@[1]@);
            match parse_unsigned(&tokens[1], 0xffff_ffff) {
                Some(d) => Command::Perft(d as u32),
                None => Command::Nothing,
            }
        } else {
            Command::Nothing
        }
    } else if spells(w, "eval") {
        Command::Eval
    } else if spells(w, "verify") {
        Command::Verify
    } else if spells(w, "quit") {
        Command::Quit
    } else {
        Command::Nothing
    }
}

// ---- Going ----
/// The limits of a "go" command, and whether it ponders.
#[derive(Clone, Copy)]
pub struct GoCommand {
    pub tc: TimeControl,
    pub ponder: bool,
}

/// No limit is given yet.
pub open spec fn no_limits() -> GoCommand {
    GoCommand {
        tc: TimeControl {
            wtime: 0,
            btime: 0,
            winc: 0,
            binc: 0,
            movestogo: 0,
            movetime: 0,
            depth: 0,
            infinite: false,
            nodes: 0,
            soft_nodes: 0,
        },
        ponder: false,
    }
}

/// The word at an index, read as a 64-bit number; 0 if there is none.
pub open spec fn long_at(t: Seq<Seq<char>>, i: int) -> i64 {
    if i < t.len() {
        match parsed_i64(t[i]) {
            Some(n) => n,
            None => 0,
        }
    } else {
        0
    }
}

/// The word at an index, read as an unsigned number up to `max`.
pub open spec fn count_at(t: Seq<Seq<char>>, i: int, max: u64) -> u64 {
    if i < t.len() {
        match parsed_unsigned(t[i], max) {
            Some(n) => n,
            None => 0,
        }
    } else {
        0
    }
}

/// The word at an index, read as a 32-bit number.
pub open spec fn short_at(t: Seq<Seq<char>>, i: int) -> i32 {
    if i < t.len() {
        match parsed_i32(t[i]) {
            Some(n) => n,
            None => 0,
        }
    } else {
        0
    }
}

/// The word takes the one after it as its number.
pub open spec fn takes_number(w: Seq<char>) -> bool {
    w == "wtime"@ || w == "btime"@ || w == "winc"@ || w == "binc"@ || w == "movestogo"@ || w
        == "movetime"@ || w == "depth"@ || w == "nodes"@
}

/// The limits after the word at `i`.
pub open spec fn limited_at(t: Seq<Seq<char>>, i: int, g: GoCommand) -> GoCommand {
    let w = t[i];
    let tc = g.tc;
    if w == "wtime"@ {
        GoCommand { tc: TimeControl { wtime: long_at(t, i + 1), ..tc }, ..g }
    } else if w == "btime"@ {
        GoCommand { tc: TimeControl { btime: long_at(t, i + 1), ..tc }, ..g }
    } else if w == "winc"@ {
        GoCommand { tc: TimeControl { winc: long_at(t, i + 1), ..tc }, ..g }
    } else if w == "binc"@ {
        GoCommand { tc: TimeControl { binc: long_at(t, i + 1), ..tc }, ..g }
    } else if w == "movestogo"@ {
        GoCommand {
            tc: TimeControl { movestogo: count_at(t, i + 1, 0xffff_ffff) as u32, ..tc },
            ..g
        }
    } else if w == "movetime"@ {
        GoCommand { tc: TimeControl { movetime: long_at(t, i + 1), ..tc }, ..g }
    } else if w == "depth"@ {
        GoCommand { tc: TimeControl { depth: short_at(t, i + 1), ..tc }, ..g }
    } else if w == "nodes"@ {
        GoCommand { tc: TimeControl { nodes: count_at(t, i + 1, u64::MAX), ..tc }, ..g }
    } else if w == "infinite"@ {
        GoCommand { tc: TimeControl { infinite: true, ..tc }, ..g }
    } else if w == "ponder"@ {
        GoCommand { ponder: true, ..g }
    } else {
        g
    }
}

/// The limits that the words from `i` on add.
pub open spec fn limits_from(t: Seq<Seq<char>>, i: int, g: GoCommand) -> GoCommand
    decreases t.len() + 1 - i,
{
    if i >= t.len() {
        g
    } else if takes_number(t[i]) {
        limits_from(t, i + 2, limited_at(t, i, g))
    } else {
        limits_from(t, i + 1, limited_at(t, i, g))
    }
}

/// The limits of a "go" command. Without any limit the search goes to depth 10.
pub open spec fn go_of(t: Seq<Seq<char>>) -> GoCommand {
    let g = limits_from(t, 1, no_limits());
    if !g.tc.infinite && g.tc.depth == 0 && g.tc.nodes == 0 && g.tc.movetime == 0 && g.tc.wtime == 0
        && g.tc.btime == 0 && !g.ponder {
        GoCommand { tc: TimeControl { depth: 10, ..g.tc }, ..g }
    } else {
        g
    }
}

fn read_long(tokens: &Vec<Vec<char>>, i: usize) -> (n: i64)
    ensures
        n == long_at(texts(tokens@), i as int),
{
    if i < tokens.len() {
        assert(texts(tokens@)[i as int] == tokens@[i as int]@);
        match parse_i64(&tokens[i]) {
            Some(n) => n,
            None => 0,
        }
    } else {
        0
    }
}

fn read_count(tokens: &Vec<Vec<char>>, i: usize, max: u64) -> (n: u64)
    ensures
        n == count_at(texts(tokens@), i as int, max),
        n <= max,
{
    if i < tokens.len() {
        assert(texts(tokens@)[i as int] == tokens@[i as int]@);
        match parse_unsigned(&tokens[i], max) {
            Some(n) => n,
            None => 0,
        }
    } else {
        0
    }
}

fn read_short(tokens: &Vec<Vec<char>>, i: usize) -> (n: i32)
    ensures
        n == short_at(texts(tokens@), i as int),
{
    if i < tokens.len() {
        assert(texts(tokens@)[i as int] == tokens@[i as int]@);
        match parse_i32(&tokens[i]) {
            Some(n) => n,
            None => 0,
        }
    } else {
        0
    }
}

fn read_limit(tokens: &Vec<Vec<char>>, i: usize, g: GoCommand) -> (r: (GoCommand, bool))
    requires
        i < tokens@.len(),
    ensures
        r.0 == limited_at(texts(tokens@), i as int, g),
        r.1 == takes_number(texts(tokens@)[i as int]),
{
    let w: &Vec<char> = &tokens[i];
    assert(texts(tokens@)[i as int] == w@);
    let n: usize = tokens.len();
    assert(i + 1 <= n);
    let mut g: GoCommand = g;
    if spells(w, "wtime") {
        g.tc.wtime = read_long(tokens, i + 1);
    } else if spells(w, "btime") {
        g.tc.btime = read_long(tokens, i + 1);
    } else if spells(w, "winc") {
        g.tc.winc = read_long(tokens, i + 1);
    } else if spells(w, "binc") {
        g.tc.binc = read_long(tokens, i + 1);
    } else if spells(w, "movestogo") {
        g.tc.movestogo = read_count(tokens, i + 1, 0xffff_ffff) as u32;
    } else if spells(w, "movetime") {
        g.tc.movetime = read_long(tokens, i + 1);
    } else if spells(w, "depth") {
        g.tc.depth = read_short(tokens, i + 1);
    } else if spells(w, "nodes") {
        g.tc.nodes = read_count(tokens, i + 1, u64::MAX);
    } else {
        if spells(w, "infinite") {
            g.tc.infinite = true;
        } else if spells(w, "ponder") {
            g.ponder = true;
        }
        proof {
            number_words();
        }
        return (g, false);
    }
    proof {
        number_words();
    }
    (g, true)
}

/// The words without a number are none of those with one.
proof fn number_words()
    ensures
        !takes_number("infinite"@),
        !takes_number("ponder"@),
{
    reveal_strlit("infinite");
    reveal_strlit("ponder");
    reveal_strlit("wtime");
    reveal_strlit("btime");
    reveal_strlit("winc");
    reveal_strlit("binc");
    reveal_strlit("movestogo");
    reveal_strlit("movetime");
    reveal_strlit("depth");
    reveal_strlit("nodes");
    assert("infinite"@[0] == 'i' && "ponder"@[0] == 'p');
    assert("wtime"@[0] == 'w' && "btime"@[0] == 'b' && "winc"@[0] == 'w' && "binc"@[0] == 'b');
    assert("movestogo"@[0] == 'm' && "movetime"@[0] == 'm' && "depth"@[0] == 'd' && "nodes"@[0]
        == 'n');
}

/// Reads a "go" command.
pub fn parse_go(tokens: &Vec<Vec<char>>) -> (g: GoCommand)
    ensures
        g == go_of(texts(tokens@)),
{
    let mut g: GoCommand = GoCommand {
        tc: TimeControl {
            wtime: 0,
            btime: 0,
            winc: 0,
            binc: 0,
            movestogo: 0,
            movetime: 0,
            depth: 0,
            infinite: false,
            nodes: 0,
            soft_nodes: 0,
        },
        ponder: false,
    };
    let mut i: usize = 1;
    let n: usize = tokens.len();
    let ghost t = texts(tokens@);
    while i < n
        invariant
            n == tokens@.len(),
            t == texts(tokens@),
            limits_from(t, i as int, g) == limits_from(t, 1, no_limits()),
        decreases n - i,
    {
        let r: (GoCommand, bool) = read_limit(tokens, i, g);
        g = r.0;
        i = i + 1;
        if r.1 {
            if i < n {
                i = i + 1;
            } else {
                assert(limits_from(t, i as int, g) == g);
                assert(limits_from(t, i + 1, g) == g);
            }
        }
    }
    if !g.tc.infinite && g.tc.depth == 0 && g.tc.nodes == 0 && g.tc.movetime == 0 && g.tc.wtime == 0
        && g.tc.btime == 0 && !g.ponder {
        g.tc.depth = 10;
    }
    g
}

// ---- Settings ----
/// What a "setoption" command sets.
pub enum Setting {
    Nothing,
    Hash(usize),
    Threads(usize),
    /// The file of the network; nothing for an empty name.
    EvalFile(Option<String>),
    OwnBook(bool),
    BestBookMove(bool),
    SyzygyPath(String),
    SyzygyProbeDepth(usize),
    SyzygyProbeLimit(usize),
    Syzygy50MoveRule(bool),
    /// The file of a book; nothing to do without one.
    BookFile(Option<String>),
    ExpFile(Option<String>),
    PlayFromExp(bool),
    LearnDuringPlay(bool),
    ExpMinSaveDepth(i32),
    BookVariety(u8),
    Ponder(bool),
    LongTimeNmp(bool),
    /// A search parameter, within its range.
    Tune { param: usize, value: i32 },
}

/// The first word from `i` on that is "value".
pub open spec fn value_from(t: Seq<Seq<char>>, i: int) -> int
    decreases t.len() - i,
{
    if i >= t.len() || t[i] == "value"@ {
        i
    } else {
        value_from(t, i + 1)
    }
}

/// The command names an option and gives it a value.
pub open spec fn gives_value(t: Seq<Seq<char>>) -> bool {
    t.len() >= 5 && t[1] == "name"@ && 2 <= value_from(t, 0) && value_from(t, 0) + 1 < t.len()
}

/// The words of the option's name.
pub open spec fn option_name(t: Seq<Seq<char>>) -> Seq<char> {
    joined(t.subrange(2, value_from(t, 0)))
}

/// The first word of the value.
pub open spec fn option_word(t: Seq<Seq<char>>) -> Seq<char> {
    t[value_from(t, 0) + 1]
}

/// All words of the value.
pub open spec fn option_text(t: Seq<Seq<char>>) -> Seq<char> {
    joined(t.subrange(value_from(t, 0) + 1, t.len() as int))
}

/// A value in lowercase that stands for yes.
pub open spec fn says_yes(v: Seq<char>) -> bool {
    v == "true"@ || v == "1"@
}

/// The text stands for no file.
pub open spec fn names_nothing(t: Seq<char>) -> bool {
    t == "<empty>"@ || t.len() == 0
}

/// The first parameter from `i` on with this name in small letters; 25 if none is.
pub open spec fn tuned_from(name: Seq<char>, i: int) -> int
    decreases 25 - i,
{
    if i >= 25 || small_letters(param_name(i)) == name {
        i
    } else {
        tuned_from(name, i + 1)
    }
}

/// A number setting: nothing if the value is no number.
pub open spec fn number_or_none(r: Option<u64>, s: Setting, make: spec_fn(u64) -> Setting) -> bool {
    match r {
        Some(n) => s == make(n),
        None => s == Setting::Nothing,
    }
}

/// The setting names this file.
pub open spec fn names_file(f: Option<String>, text: Seq<char>) -> bool {
    match f {
        Some(p) => !names_nothing(text) && p@ == text,
        None => names_nothing(text),
    }
}

/// The setting that a name in lowercase, the value's first word, that word in
/// lowercase and the whole value give.
pub open spec fn sets(
    name: Seq<char>,
    word: Seq<char>,
    lowered: Seq<char>,
    text: Seq<char>,
    s: Setting,
) -> bool {
    let yes = says_yes(lowered);
    let size = parsed_unsigned(word, usize::MAX as u64);
    if name == "hash"@ {
        number_or_none(size, s, |n: u64| Setting::Hash(n as usize))
    } else if name == "threads"@ {
        number_or_none(
            size,
            s,
            |n: u64| Setting::Threads(clamped(n as int, 1, 256) as usize),
        )
    } else if name == "evalfile"@ {
        s matches Setting::EvalFile(f) && names_file(f, text)
    } else if name == "ownbook"@ {
        s == Setting::OwnBook(yes)
    } else if name == "bestbookmove"@ {
        s == Setting::BestBookMove(yes)
    } else if name == "syzygypath"@ {
        if names_nothing(text) {
            s == Setting::Nothing
        } else {
            s matches Setting::SyzygyPath(p) && p@ == text
        }
    } else if name == "syzygyprobedepth"@ {
        number_or_none(
            size,
            s,
            |n: u64| Setting::SyzygyProbeDepth(clamped(n as int, 1, 100) as usize),
        )
    } else if name == "syzygyprobelimit"@ {
        number_or_none(
            size,
            s,
            |n: u64| Setting::SyzygyProbeLimit(clamped(n as int, 0, 7) as usize),
        )
    } else if name == "syzygy50moverule"@ {
        s == Setting::Syzygy50MoveRule(yes)
    } else if name == "bookfile"@ {
        s matches Setting::BookFile(f) && names_file(f, text)
    } else if name == "expfile"@ {
        s matches Setting::ExpFile(f) && names_file(f, text)
    } else if name == "playfromexp"@ {
        s == Setting::PlayFromExp(yes)
    } else if name == "learnduringplay"@ {
        s == Setting::LearnDuringPlay(yes)
    } else if name == "expminsavedepth"@ {
        match parsed_i32(word) {
            Some(n) => s == Setting::ExpMinSaveDepth(clamped(n as int, 1, 100) as i32),
            None => s == Setting::Nothing,
        }
    } else if name == "bookvariety"@ {
        number_or_none(
            parsed_unsigned(word, 255),
            s,
            |n: u64| Setting::BookVariety(clamped(n as int, 0, 2) as u8),
        )
    } else if name == "ponder"@ {
        s == Setting::Ponder(yes)
    } else if name == "longtimenmp"@ {
        s == Setting::LongTimeNmp(yes)
    } else {
        let k = tuned_from(name, 0);
        match parsed_i32(word) {
            Some(n) => if k < 25 {
                s == (Setting::Tune {
                    param: k as usize,
                    value: clamped(n as int, least_value(k), largest_value(k)) as i32,
                })
            } else {
                s == Setting::Nothing
            },
            None => s == Setting::Nothing,
        }
    }
}

fn file_named(text: &String) -> (f: Option<String>)
    ensures
        names_file(f, text@),
{
    let t: Vec<char> = chars_of(text.as_str());
    if t.len() == 0 || spells(&t, "<empty>") {
        None
    } else {
        Some(crate::text::text_of(&t))
    }
}

fn tuned(name: &Vec<char>) -> (k: usize)
    ensures
        k == tuned_from(name@, 0),
        k <= 25,
{
    let params: Vec<TuneParam> = all_params();
    let mut i: usize = 0;
    while i < 25
        invariant
            i <= 25,
            params@.len() == 25,
            forall|k: int| 0 <= k < 25 ==> describes(#[trigger] params@[k], k),
            tuned_from(name@, i as int) == tuned_from(name@, 0),
        decreases 25 - i,
    {
        assert(describes(params@[i as int], i as int));
        if same_chars(&to_small(&chars_of(params[i].name)), name) {
            return i;
        }
        i = i + 1;
    }
    25
}

fn limited(n: u64, lo: u64, hi: u64) -> (r: u64)
    requires
        lo <= hi,
    ensures
        r == clamped(n as int, lo as int, hi as int),
{
    if n < lo {
        lo
    } else if n > hi {
        hi
    } else {
        n
    }
}

fn tune_setting(name: &Vec<char>, word: &Vec<char>) -> (s: Setting)
    ensures
        ({
            let k = tuned_from(name@, 0);
            match parsed_i32(word@) {
                Some(n) => if k < 25 {
                    s == (Setting::Tune {
                        param: k as usize,
                        value: clamped(n as int, least_value(k), largest_value(k)) as i32,
                    })
                } else {
                    s == Setting::Nothing
                },
                None => s == Setting::Nothing,
            }
        }),
{
    let k: usize = tuned(name);
    if k >= 25 {
        return Setting::Nothing;
    }
    let params: Vec<TuneParam> = all_params();
    assert(describes(params@[k as int], k as int));
    match parse_i32(word) {
        Some(n) => {
            let mut v: i32 = n;
            if v < params[k].min {
                v = params[k].min;
            }
            if v > params[k].max {
                v = params[k].max;
            }
            Setting::Tune { param: k, value: v }
        },
        None => Setting::Nothing,
    }
}

/// The setting that a name in lowercase, the value's first word, that word in
/// lowercase and the whole value give.
#[verifier::rlimit(40)]
pub fn setting_of(name: &Vec<char>, word: &Vec<char>, lowered: &Vec<char>, text: &String) -> (s:
    Setting)
    ensures
        sets(name@, word@, lowered@, text@, s),
{
    let yes: bool = spells(lowered, "true") || spells(lowered, "1");
    let size: Option<u64> = parse_unsigned(word, usize::MAX as u64);
    if spells(name, "hash") {
        match size {
            Some(n) => Setting::Hash(n as usize),
            None => Setting::Nothing,
        }
    } else if spells(name, "threads") {
        match size {
            Some(n) => Setting::Threads(limited(n, 1, 256) as usize),
            None => Setting::Nothing,
        }
    } else if spells(name, "evalfile") {
        Setting::EvalFile(file_named(text))
    } else if spells(name, "ownbook") {
        Setting::OwnBook(yes)
    } else if spells(name, "bestbookmove") {
        Setting::BestBookMove(yes)
    } else if spells(name, "syzygypath") {
        match file_named(text) {
            Some(p) => Setting::SyzygyPath(p),
            None => Setting::Nothing,
        }
    } else if spells(name, "syzygyprobedepth") {
        match size {
            Some(n) => Setting::SyzygyProbeDepth(limited(n, 1, 100) as usize),
            None => Setting::Nothing,
        }
    } else if spells(name, "syzygyprobelimit") {
        match size {
            Some(n) => Setting::SyzygyProbeLimit(limited(n, 0, 7) as usize),
            None => Setting::Nothing,
        }
    } else if spells(name, "syzygy50moverule") {
        Setting::Syzygy50MoveRule(yes)
    } else if spells(name, "bookfile") {
        Setting::BookFile(file_named(text))
    } else if spells(name, "expfile") {
        Setting::ExpFile(file_named(text))
    } else if spells(name, "playfromexp") {
        Setting::PlayFromExp(yes)
    } else if spells(name, "learnduringplay") {
        Setting::LearnDuringPlay(yes)
    } else if spells(name, "expminsavedepth") {
        match parse_i32(word) {
            Some(n) => Setting::ExpMinSaveDepth(
                if n < 1 {
                    1
                } else if n > 100 {
                    100
                } else {
                    n
                },
            ),
            None => Setting::Nothing,
        }
    } else if spells(name, "bookvariety") {
        match parse_unsigned(word, 255) {
            Some(n) => Setting::BookVariety(limited(n, 0, 2) as u8),
            None => Setting::Nothing,
        }
    } else if spells(name, "ponder") {
        Setting::Ponder(yes)
    } else if spells(name, "longtimenmp") {
        Setting::LongTimeNmp(yes)
    } else {
        tune_setting(name, word)
    }
}

/// Reads a "setoption" command. Names and yes-or-no values may be written in
/// capitals.
pub fn read_setting(tokens: &Vec<Vec<char>>) -> (s: Setting)
    ensures
        ({
            let t = texts(tokens@);
            if gives_value(t) {
                sets(
                    lowercase_of(option_name(t)),
                    option_word(t),
                    lowercase_of(option_word(t)),
                    option_text(t),
                    s,
                )
            } else {
                s == Setting::Nothing
            }
        }),
        ({
            let t = texts(tokens@);
            gives_value(t) && is_plain(option_name(t)) && is_plain(option_word(t)) ==> sets(
                small_letters(option_name(t)),
                option_word(t),
                small_letters(option_word(t)),
                option_text(t),
                s,
            )
        }),
{
    let n: usize = tokens.len();
    let ghost t = texts(tokens@);
    if n < 5 {
        return Setting::Nothing;
    }
    assert(t[1] == tokens@[1]@);
    if !spells(&tokens[1], "name") {
        return Setting::Nothing;
    }
    let mut vi: usize = 0;
    while vi < n && !spells(&tokens[vi], "value")
        invariant
            vi <= n,
            n == tokens@.len(),
            t == texts(tokens@),
            value_from(t, vi as int) == value_from(t, 0),
        decreases n - vi,
    {
        assert(t[vi as int] == tokens@[vi as int]@);
        vi = vi + 1;
    }
    proof {
        if vi < n {
            assert(t[vi as int] == tokens@[vi as int]@);
        }
        assert(value_from(t, 0) == vi);
    }
    if vi < 2 || vi >= n || vi + 1 >= n {
        return Setting::Nothing;
    }
    let name: Vec<char> = lowercase_chars(&join_words(tokens, 2, vi));
    let word: String = crate::text::text_of(&tokens[vi + 1]);
    let lowered: Vec<char> = lowercase_chars(&word);
    let text: String = join_words(tokens, vi + 1, n);
    assert(t[vi + 1] == tokens@[vi + 1]@);
    setting_of(&name, &tokens[vi + 1], &lowered, &text)
}

} // verus!

//! Words and numbers in text.

use crate::types::chars_of;
use vstd::prelude::*;

verus! {

/// White space: the code points with the Unicode property `White_Space`.
pub open spec fn is_space(c: char) -> bool {
    let n = c as int;
    ||| 9 <= n <= 13
    ||| n == 0x20
    ||| n == 0x85
    ||| n == 0xA0
    ||| n == 0x1680
    ||| 0x2000 <= n <= 0x200A
    ||| n == 0x2028
    ||| n == 0x2029
    ||| n == 0x202F
    ||| n == 0x205F
    ||| n == 0x3000
}

pub fn space(c: char) -> (b: bool)
    ensures
        b == is_space(c),
{
    let n: u32 = c as u32;
    (9 <= n && n <= 13) || n == 0x20 || n == 0x85 || n == 0xA0 || n == 0x1680 || (0x2000 <= n && n
        <= 0x200A) || n == 0x2028 || n == 0x2029 || n == 0x202F || n == 0x205F || n == 0x3000
}

/// The maximal runs of characters that are not white space, in order.
pub open spec fn words(t: Seq<char>) -> Seq<Seq<char>>
    decreases t.len(),
{
    if t.len() == 0 {
        Seq::empty()
    } else {
        let w = words(t.drop_last());
        let c = t.last();
        if is_space(c) {
            w
        } else if t.len() == 1 || is_space(t[t.len() - 2]) {
            w.push(seq![c])
        } else {
            w.drop_last().push(w.last().push(c))
        }
    }
}

/// The views of a list of character lists.
pub open spec fn texts(v: Seq<Vec<char>>) -> Seq<Seq<char>> {
    Seq::new(v.len(), |i: int| v[i]@)
}

pub fn split_words(t: &Vec<char>) -> (v: Vec<Vec<char>>)
    ensures
        texts(v@) == words(t@),
{
    let mut v: Vec<Vec<char>> = Vec::new();
    let mut open: bool = false;
    let mut cur: Vec<char> = Vec::new();
    let mut i: usize = 0;
    while i < t.len()
        invariant
            i <= t@.len(),
            open == (i > 0 && !is_space(t@[i - 1])),
            open ==> words(t@.take(i as int)).len() > 0 && texts(v@) == words(
                t@.take(i as int),
            ).drop_last() && cur@ == words(t@.take(i as int)).last(),
            !open ==> texts(v@) == words(t@.take(i as int)) && cur@.len() == 0,
        decreases t@.len() - i,
    {
        let c: char = t[i];
        let ghost a = t@.take(i as int);
        let ghost b = t@.take(i as int + 1);
        let ghost v0 = v@;
        proof {
            assert(b.drop_last() =~= a);
            assert(b.last() == c);
        }
        if space(c) {
            if open {
                let mut w: Vec<char> = Vec::new();
                std::mem::swap(&mut w, &mut cur);
                v.push(w);
                open = false;
                proof {
                    assert(texts(v@) =~= texts(v0).push(words(a).last()));
                    assert(words(a) =~= words(a).drop_last().push(words(a).last()));
                }
            }
        } else {
            cur.push(c);
            proof {
                if !open {
                    assert(cur@ =~= seq![c]);
                    assert(words(b) =~= texts(v@).push(seq![c]));
                }
                assert(words(b).drop_last() =~= texts(v@));
            }
            open = true;
        }
        i = i + 1;
    }
    assert(t@.take(i as int) =~= t@);
    if open {
        let ghost v0 = v@;
        v.push(cur);
        proof {
            assert(texts(v@) =~= texts(v0).push(words(t@).last()));
            assert(words(t@) =~= words(t@).drop_last().push(words(t@).last()));
        }
    }
    v
}

/// The number of a character.
pub fn code_point(c: char) -> (n: u32)
    ensures
        n as int == c as int,
{
    c as u32
}

/// A decimal digit.
pub open spec fn is_digit(c: char) -> bool {
    '0' <= c <= '9'
}

/// The number that a run of digits writes.
pub open spec fn digits_value(t: Seq<char>) -> nat
    decreases t.len(),
{
    if t.len() == 0 {
        0
    } else {
        digits_value(t.drop_last()) * 10 + (t.last() as int - 48) as nat
    }
}

pub open spec fn all_digits(t: Seq<char>) -> bool {
    forall|i: int| 0 <= i < t.len() ==> is_digit(#[trigger] t[i])
}

/// The text without a leading plus sign.
pub open spec fn unsigned_part(t: Seq<char>) -> Seq<char> {
    if t.len() > 0 && t[0] == '+' {
        t.skip(1)
    } else {
        t
    }
}

/// The unsigned number that a text writes: an optional plus sign and digits.
/// Numbers above `max` are no numbers.
pub open spec fn parsed_unsigned(t: Seq<char>, max: u64) -> Option<u64> {
    let d = unsigned_part(t);
    if d.len() > 0 && all_digits(d) && digits_value(d) <= max {
        Some(digits_value(d) as u64)
    } else {
        None
    }
}

proof fn digits_prefix_bound(t: Seq<char>, n: int)
    requires
        0 <= n <= t.len(),
        all_digits(t),
    ensures
        digits_value(t.take(n)) <= digits_value(t),
    decreases t.len() - n,
{
    if n < t.len() {
        digits_prefix_bound(t, n + 1);
        assert(t.take(n + 1).drop_last() =~= t.take(n));
    } else {
        assert(t.take(n) =~= t);
    }
}

/// The number of a run of digits that starts at `from`, if it fits.
fn parse_digits(t: &Vec<char>, from: usize, max: u64) -> (r: Option<u64>)
    requires
        from <= t@.len(),
    ensures
        r == ({
            let d = t@.skip(from as int);
            if d.len() > 0 && all_digits(d) && digits_value(d) <= max {
                Some(digits_value(d) as u64)
            } else {
                None
            }
        }),
{
    let ghost d = t@.skip(from as int);
    if from >= t.len() {
        return None;
    }
    let mut n: u64 = 0;
    let mut i: usize = from;
    while i < t.len()
        invariant
            from <= i <= t@.len(),
            d == t@.skip(from as int),
            n == digits_value(d.take(i - from)),
            n <= max,
            all_digits(d.take(i - from)),
        decreases t@.len() - i,
    {
        let ch: char = t[i];
        let c: u32 = code_point(ch);
        proof {
            assert(d[i - from] == t@[i as int]);
            assert(d.take(i - from + 1).drop_last() =~= d.take(i - from));
            assert(d.take(i - from + 1).last() == t@[i as int]);
        }
        if c < 48 || c > 57 {
            assert(!is_digit(d[i - from]));
            return None;
        }
        let k: u64 = (c - 48) as u64;
        if n > max / 10 || (n == max / 10 && k > max % 10) {
            proof {
                if all_digits(d) {
                    digits_prefix_bound(d, i - from + 1);
                    assert(n * 10 + k > max);
                }
            }
            return None;
        }
        assert(n * 10 + k <= max);
        n = n * 10 + k;
        assert(all_digits(d.take(i - from + 1))) by {
            assert forall|j: int| 0 <= j < i - from + 1 implies is_digit(
                #[trigger] d.take(i - from + 1)[j],
            ) by {
                assert(d.take(i - from + 1)[j] == d[j]);
                if j < i - from {
                    assert(is_digit(d.take(i - from)[j]));
                } else {
                    assert(d[j] == ch);
                    assert(is_digit(ch));
                }
            }
        }
        i = i + 1;
    }
    assert(d.take(i - from) =~= d);
    Some(n)
}

pub fn parse_unsigned(t: &Vec<char>, max: u64) -> (r: Option<u64>)
    ensures
        r == parsed_unsigned(t@, max),
{
    if t.len() > 0 && t[0] == '+' {
        parse_digits(t, 1, max)
    } else {
        assert(t@.skip(0) =~= t@);
        parse_digits(t, 0, max)
    }
}

/// The number that a text writes, as `i32` reads it: an optional sign and digits.
pub open spec fn parsed_i32(t: Seq<char>) -> Option<i32> {
    if t.len() > 0 && t[0] == '-' {
        let d = t.skip(1);
        if d.len() > 0 && all_digits(d) && digits_value(d) <= 2147483648 {
            Some((-(digits_value(d) as int)) as i32)
        } else {
            None
        }
    } else {
        match parsed_unsigned(t, 2147483647) {
            Some(n) => Some(n as i32),
            None => None,
        }
    }
}

pub fn parse_i32(t: &Vec<char>) -> (r: Option<i32>)
    ensures
        r == parsed_i32(t@),
{
    if t.len() > 0 && t[0] == '-' {
        match parse_digits(t, 1, 2147483648) {
            Some(n) => {
                let v: i64 = 0 - (n as i64);
                Some(v as i32)
            },
            None => None,
        }
    } else {
        match parse_unsigned(t, 2147483647) {
            Some(n) => Some(n as i32),
            None => None,
        }
    }
}

/// The number that a text writes, as `i64` reads it: an optional sign and digits.
pub open spec fn parsed_i64(t: Seq<char>) -> Option<i64> {
    if t.len() > 0 && t[0] == '-' {
        let d = t.skip(1);
        if d.len() > 0 && all_digits(d) && digits_value(d) <= 0x8000_0000_0000_0000 {
            Some((-(digits_value(d) as int)) as i64)
        } else {
            None
        }
    } else {
        match parsed_unsigned(t, 0x7fff_ffff_ffff_ffff) {
            Some(n) => Some(n as i64),
            None => None,
        }
    }
}

pub fn parse_i64(t: &Vec<char>) -> (r: Option<i64>)
    ensures
        r == parsed_i64(t@),
{
    if t.len() > 0 && t[0] == '-' {
        match parse_digits(t, 1, 0x8000_0000_0000_0000) {
            Some(n) => {
                let v: i128 = 0 - (n as i128);
                Some(v as i64)
            },
            None => None,
        }
    } else {
        match parse_unsigned(t, 0x7fff_ffff_ffff_ffff) {
            Some(n) => Some(n as i64),
            None => None,
        }
    }
}

/// The digits of a number, without leading zeros.
pub open spec fn decimal(n: nat) -> Seq<char>
    decreases n,
{
    if n < 10 {
        seq![(48 + n) as char]
    } else {
        decimal(n / 10).push((48 + n % 10) as char)
    }
}

/// Appends a number in decimal digits.
pub fn push_decimal(out: &mut String, n: u64)
    ensures
        final(out)@ == old(out)@ + decimal(n as nat),
    decreases n,
{
    if n >= 10 {
        push_decimal(out, n / 10);
    }
    let d: u8 = 48 + (n % 10) as u8;
    out.push(d as char);
    assert(out@ =~= old(out)@ + decimal(n as nat));
}

/// The digits of a number are read back as that number.
pub proof fn decimal_roundtrip(n: nat)
    ensures
        decimal(n).len() > 0,
        all_digits(decimal(n)),
        digits_value(decimal(n)) == n,
        decimal(n)[0] != '+',
        decimal(n)[0] != '-',
    decreases n,
{
    if n >= 10 {
        decimal_roundtrip(n / 10);
        let d = decimal(n);
        assert(d.drop_last() =~= decimal(n / 10));
        assert forall|i: int| 0 <= i < d.len() implies is_digit(#[trigger] d[i]) by {
            if i < d.len() - 1 {
                assert(d[i] == decimal(n / 10)[i]);
            }
        }
    } else {
        let d = decimal(n);
        assert(d.drop_last() =~= Seq::<char>::empty());
        assert(digits_value(Seq::<char>::empty()) == 0);
    }
}

/// A parsed number is read back from its digits.
pub proof fn decimal_parses(n: u64, max: u64)
    requires
        n <= max,
    ensures
        parsed_unsigned(decimal(n as nat), max) == Some(n),
{
    decimal_roundtrip(n as nat);
}

/// The digits of a number, after a minus sign if it is negative.
pub open spec fn signed_decimal(n: int) -> Seq<char> {
    if n < 0 {
        seq!['-'] + decimal((-n) as nat)
    } else {
        decimal(n as nat)
    }
}

/// Appends a signed number in decimal digits.
pub fn push_signed(out: &mut String, n: i32)
    ensures
        final(out)@ == old(out)@ + signed_decimal(n as int),
{
    if n < 0 {
        out.push('-');
        let v: i64 = 0 - (n as i64);
        push_decimal(out, v as u64);
    } else {
        push_decimal(out, n as u64);
    }
    assert(out@ =~= old(out)@ + signed_decimal(n as int));
}

/// Texts one after the other, with a space between them.
pub open spec fn joined(f: Seq<Seq<char>>) -> Seq<char>
    decreases f.len(),
{
    if f.len() == 0 {
        Seq::empty()
    } else if f.len() == 1 {
        f[0]
    } else {
        joined(f.drop_last()) + seq![' '] + f.last()
    }
}

/// Joins the texts from `from` to before `to` with spaces.
pub fn join_words(v: &Vec<Vec<char>>, from: usize, to: usize) -> (t: String)
    requires
        from <= to <= v@.len(),
    ensures
        t@ == joined(texts(v@).subrange(from as int, to as int)),
{
    let mut t: String = String::new();
    let mut i: usize = from;
    let ghost all = texts(v@);
    assert(t@ =~= joined(all.subrange(from as int, from as int)));
    while i < to
        invariant
            from <= i <= to <= v@.len(),
            all == texts(v@),
            t@ == joined(all.subrange(from as int, i as int)),
        decreases to - i,
    {
        let ghost before = t@;
        if i > from {
            t.push(' ');
        }
        push_chars(&mut t, &v[i]);
        proof {
            let s = all.subrange(from as int, i + 1);
            assert(s.drop_last() =~= all.subrange(from as int, i as int));
            assert(s.last() == v@[i as int]@);
            assert(t@ =~= joined(s));
        }
        i = i + 1;
    }
    t
}

/// The letter without its capital, of the letters A to Z.
pub open spec fn small_letter(c: char) -> char {
    if 'A' <= c <= 'Z' {
        (c as u32 + 32) as char
    } else {
        c
    }
}

/// A text with small letters for the capitals A to Z.
pub open spec fn small_letters(t: Seq<char>) -> Seq<char> {
    Seq::new(t.len(), |i: int| small_letter(t[i]))
}

/// Every character is one of ASCII.
pub open spec fn is_plain(t: Seq<char>) -> bool {
    forall|i: int| 0 <= i < t.len() ==> (#[trigger] t[i] as u32) < 128
}

/// A text with small letters for the capitals A to Z.
pub fn to_small(t: &Vec<char>) -> (v: Vec<char>)
    ensures
        v@ == small_letters(t@),
{
    let mut v: Vec<char> = Vec::new();
    let mut i: usize = 0;
    while i < t.len()
        invariant
            i <= t@.len(),
            v@.len() == i,
            forall|k: int| 0 <= k < i ==> #[trigger] v@[k] == small_letter(t@[k]),
        decreases t@.len() - i,
    {
        let c: char = t[i];
        let n: u32 = code_point(c);
        if 65 <= n && n <= 90 {
            let m: u8 = (n + 32) as u8;
            v.push(m as char);
        } else {
            v.push(c);
        }
        i = i + 1;
    }
    assert(v@ =~= small_letters(t@));
    v
}

/// The small letters of a text, by the rules of Unicode.
pub uninterp spec fn lowercase_of(t: Seq<char>) -> Seq<char>;

/// `str::to_lowercase`: the lowercase form of a text. Texts of ASCII alone have
/// their capital letters A to Z replaced; of other texts only the name of the
/// result is claimed.
#[verifier::external_body]
fn lowercase(t: &String) -> (r: String)
    ensures
        r@ == lowercase_of(t@),
        is_plain(t@) ==> r@ == small_letters(t@),
{
    t.to_lowercase()
}

/// The characters of a text in lowercase.
pub fn lowercase_chars(t: &String) -> (v: Vec<char>)
    ensures
        v@ == lowercase_of(t@),
        is_plain(t@) ==> v@ == small_letters(t@),
{
    let s: String = lowercase(t);
    chars_of(s.as_str())
}

/// Appends the characters of a list.
pub fn push_chars(out: &mut String, t: &Vec<char>)
    ensures
        final(out)@ == old(out)@ + t@,
{
    let mut i: usize = 0;
    while i < t.len()
        invariant
            i <= t@.len(),
            out@ == old(out)@ + t@.take(i as int),
        decreases t@.len() - i,
    {
        out.push(t[i]);
        assert(t@.take(i as int + 1) =~= t@.take(i as int).push(t@[i as int]));
        i = i + 1;
    }
    assert(t@.take(i as int) =~= t@);
}

/// Appends a text.
pub fn push_text(out: &mut String, t: &str)
    ensures
        final(out)@ == old(out)@ + t@,
{
    let v: Vec<char> = chars_of(t);
    push_chars(out, &v);
}

/// Two lists hold the same characters.
pub fn same_chars(a: &Vec<char>, b: &Vec<char>) -> (r: bool)
    ensures
        r == (a@ == b@),
{
    if a.len() != b.len() {
        return false;
    }
    let mut i: usize = 0;
    while i < a.len()
        invariant
            i <= a@.len(),
            a@.len() == b@.len(),
            forall|j: int| 0 <= j < i ==> a@[j] == b@[j],
        decreases a@.len() - i,
    {
        if a[i] != b[i] {
            return false;
        }
        i = i + 1;
    }
    assert(a@ =~= b@);
    true
}

/// A list of characters spells a text.
pub fn spells(a: &Vec<char>, t: &str) -> (r: bool)
    ensures
        r == (a@ == t@),
{
    let b: Vec<char> = chars_of(t);
    same_chars(a, &b)
}

/// A text that the characters of a list make up.
pub fn text_of(a: &Vec<char>) -> (s: String)
    ensures
        s@ == a@,
{
    let mut s: String = String::new();
    push_chars(&mut s, a);
    assert(s@ =~= a@);
    s
}

/// The parts of a text between separators.
pub open spec fn parts(t: Seq<char>, sep: char) -> Seq<Seq<char>>
    decreases t.len(),
{
    if t.len() == 0 {
        seq![Seq::empty()]
    } else {
        let p = parts(t.drop_last(), sep);
        if t.last() == sep {
            p.push(Seq::empty())
        } else {
            p.drop_last().push(p.last().push(t.last()))
        }
    }
}

proof fn some_part(t: Seq<char>, sep: char)
    ensures
        parts(t, sep).len() > 0,
    decreases t.len(),
{
    if t.len() > 0 {
        some_part(t.drop_last(), sep);
    }
}

pub fn split_on(t: &Vec<char>, sep: char) -> (v: Vec<Vec<char>>)
    ensures
        texts(v@) == parts(t@, sep),
{
    let mut v: Vec<Vec<char>> = Vec::new();
    let mut cur: Vec<char> = Vec::new();
    let mut i: usize = 0;
    assert(t@.take(0) =~= Seq::empty());
    assert(texts(v@) =~= parts(t@.take(0), sep).drop_last());
    assert(cur@ =~= parts(t@.take(0), sep).last());
    while i < t.len()
        invariant
            i <= t@.len(),
            parts(t@.take(i as int), sep).len() > 0,
            texts(v@) == parts(t@.take(i as int), sep).drop_last(),
            cur@ == parts(t@.take(i as int), sep).last(),
        decreases t@.len() - i,
    {
        let c: char = t[i];
        let ghost a = t@.take(i as int);
        let ghost b = t@.take(i as int + 1);
        let ghost v0 = v@;
        let ghost cur0 = cur@;
        proof {
            assert(b.drop_last() =~= a);
            assert(b.last() == c);
            some_part(a, sep);
            some_part(b, sep);
        }
        if c == sep {
            let mut w: Vec<char> = Vec::new();
            std::mem::swap(&mut w, &mut cur);
            v.push(w);
            proof {
                assert(texts(v@) =~= texts(v0).push(cur0));
                assert(parts(a, sep) =~= parts(a, sep).drop_last().push(parts(a, sep).last()));
                assert(parts(b, sep).drop_last() =~= parts(a, sep));
                assert(cur@ =~= parts(b, sep).last());
            }
        } else {
            cur.push(c);
            proof {
                assert(parts(b, sep).drop_last() =~= texts(v@));
            }
        }
        i = i + 1;
    }
    assert(t@.take(i as int) =~= t@);
    let ghost v0 = v@;
    let ghost last = cur@;
    v.push(cur);
    proof {
        assert(texts(v@) =~= texts(v0).push(last));
        assert(parts(t@, sep) =~= parts(t@, sep).drop_last().push(parts(t@, sep).last()));
    }
    v
}

/// A text without the white space at its ends.
pub open spec fn trimmed(t: Seq<char>) -> Seq<char>
    decreases t.len(),
{
    if t.len() > 0 && is_space(t[0]) {
        trimmed(t.drop_first())
    } else if t.len() > 0 && is_space(t.last()) {
        trimmed(t.drop_last())
    } else {
        t
    }
}

pub fn trim(t: &Vec<char>) -> (v: Vec<char>)
    ensures
        v@ == trimmed(t@),
{
    let mut a: usize = 0;
    let mut b: usize = t.len();
    assert(t@.subrange(0, b as int) =~= t@);
    while a < b && space(t[a])
        invariant
            a <= b,
            b == t@.len(),
            trimmed(t@.subrange(a as int, b as int)) == trimmed(t@),
        decreases b - a,
    {
        proof {
            let s = t@.subrange(a as int, b as int);
            assert(s.drop_first() =~= t@.subrange(a + 1, b as int));
        }
        a = a + 1;
    }
    while a < b && space(t[b - 1])
        invariant
            a <= b <= t@.len(),
            a < b ==> !is_space(t@[a as int]),
            trimmed(t@.subrange(a as int, b as int)) == trimmed(t@),
        decreases b - a,
    {
        proof {
            let s = t@.subrange(a as int, b as int);
            assert(s.drop_last() =~= t@.subrange(a as int, b - 1));
        }
        b = b - 1;
    }
    let mut v: Vec<char> = Vec::new();
    let mut i: usize = a;
    while i < b
        invariant
            a <= i <= b <= t@.len(),
            v@ == t@.subrange(a as int, i as int),
        decreases b - i,
    {
        v.push(t[i]);
        assert(v@ =~= t@.subrange(a as int, i + 1));
        i = i + 1;
    }
    v
}

} // verus!

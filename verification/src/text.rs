//! Character classes and low-level text helpers shared by the renderer and
//! the parser of the persisted form: whitespace skipping, literal matching,
//! and decimal numbers.

use vstd::prelude::*;

verus! {

pub open spec fn is_ws(c: char) -> bool {
    c == ' ' || c == '\n' || c == '\t' || c == '\r'
}

/// The Unicode `White_Space` characters: what `str::trim` removes. A file
/// holding nothing else counts as blank. (Inside the grammar only `is_ws`
/// is whitespace, as in JSON.)
pub open spec fn is_unicode_ws(c: char) -> bool {
    ||| is_ws(c)
    ||| c as u32 == 0x0B
    ||| c as u32 == 0x0C
    ||| c as u32 == 0x85
    ||| c as u32 == 0xA0
    ||| c as u32 == 0x1680
    ||| (0x2000 <= c as u32 && c as u32 <= 0x200A)
    ||| c as u32 == 0x2028
    ||| c as u32 == 0x2029
    ||| c as u32 == 0x202F
    ||| c as u32 == 0x205F
    ||| c as u32 == 0x3000
}

pub fn is_unicode_ws_exec(c: char) -> (b: bool)
    ensures
        b == is_unicode_ws(c),
{
    let u = c as u32;
    is_ws_exec(c) || u == 0x0B || u == 0x0C || u == 0x85 || u == 0xA0 || u == 0x1680 || (0x2000
        <= u && u <= 0x200A) || u == 0x2028 || u == 0x2029 || u == 0x202F || u == 0x205F || u
        == 0x3000
}

pub open spec fn is_digit(c: char) -> bool {
    48 <= c as u32 <= 57
}

pub open spec fn digit_val(c: char) -> int {
    c as u32 - 48
}

/// The decimal digit character for a value between 0 and 9.
pub open spec fn spec_digit_char(d: int) -> char {
    if d == 0 { '0' }
    else if d == 1 { '1' }
    else if d == 2 { '2' }
    else if d == 3 { '3' }
    else if d == 4 { '4' }
    else if d == 5 { '5' }
    else if d == 6 { '6' }
    else if d == 7 { '7' }
    else if d == 8 { '8' }
    else { '9' }
}

/// The lower-case hexadecimal digit character for a value between 0 and 15.
pub open spec fn spec_hex_char(d: int) -> char {
    if d < 10 { spec_digit_char(d) }
    else if d == 10 { 'a' }
    else if d == 11 { 'b' }
    else if d == 12 { 'c' }
    else if d == 13 { 'd' }
    else if d == 14 { 'e' }
    else { 'f' }
}

pub open spec fn is_hex(c: char) -> bool {
    is_digit(c) || (97 <= c as u32 <= 102) || (65 <= c as u32 <= 70)
}

pub open spec fn hex_val(c: char) -> int {
    if is_digit(c) { digit_val(c) }
    else if 97 <= c as u32 <= 102 { c as u32 - 87 }
    else { c as u32 - 55 }
}

pub proof fn lemma_digit_char_val(d: int)
    requires 0 <= d <= 9,
    ensures
        is_digit(spec_digit_char(d)),
        digit_val(spec_digit_char(d)) == d,
{
}

pub proof fn lemma_hex_char_val(d: int)
    requires 0 <= d <= 15,
    ensures
        is_hex(spec_hex_char(d)),
        hex_val(spec_hex_char(d)) == d,
        !is_ws(spec_hex_char(d)),
{
}

/// The suffix of `s` that remains after the longest run of leading
/// whitespace.
pub open spec fn skip_ws(s: Seq<char>) -> Seq<char>
    decreases s.len(),
{
    if s.len() > 0 && is_ws(s[0]) {
        skip_ws(s.drop_first())
    } else {
        s
    }
}

/// Skipping whitespace walks over any all-whitespace prefix.
pub proof fn lemma_skip_ws_prefix(p: Seq<char>, rest: Seq<char>)
    requires
        forall|i: int| 0 <= i < p.len() ==> is_ws(#[trigger] p[i]),
    ensures
        skip_ws(p + rest) == skip_ws(rest),
    decreases p.len(),
{
    if p.len() == 0 {
        assert(p + rest =~= rest);
    } else {
        assert((p + rest)[0] == p[0]);
        assert((p + rest).drop_first() =~= p.drop_first() + rest);
        assert forall|i: int| 0 <= i < p.drop_first().len()
            implies is_ws(#[trigger] p.drop_first()[i]) by {
            assert(p.drop_first()[i] == p[i + 1]);
        }
        lemma_skip_ws_prefix(p.drop_first(), rest);
    }
}

pub proof fn lemma_skip_ws_no_ws(s: Seq<char>)
    requires
        s.len() == 0 || !is_ws(s[0]),
    ensures
        skip_ws(s) == s,
{
}

/// Matches the literal `tok` at the front of `s`: the rest of `s` on
/// success, nothing on a mismatch.
pub open spec fn expect(s: Seq<char>, tok: Seq<char>) -> Option<Seq<char>> {
    if tok.len() <= s.len() && s.subrange(0, tok.len() as int) == tok {
        Some(s.skip(tok.len() as int))
    } else {
        None
    }
}

pub proof fn lemma_expect_prefix(tok: Seq<char>, rest: Seq<char>)
    ensures
        expect(tok + rest, tok) == Some(rest),
{
    let s = tok + rest;
    assert(s.subrange(0, tok.len() as int) =~= tok);
    assert(s.skip(tok.len() as int) =~= rest);
}

/// Reads a run of decimal digits at the front of `s`, folding them onto
/// `acc`; stops at the first non-digit.
pub open spec fn parse_number(s: Seq<char>, acc: int) -> (int, Seq<char>)
    decreases s.len(),
{
    if s.len() > 0 && is_digit(s[0]) {
        parse_number(s.drop_first(), acc * 10 + digit_val(s[0]))
    } else {
        (acc, s)
    }
}

pub proof fn lemma_parse_number_ge(s: Seq<char>, acc: int)
    requires
        acc >= 0,
    ensures
        parse_number(s, acc).0 >= acc,
        parse_number(s, acc).1.len() <= s.len(),
    decreases s.len(),
{
    if s.len() > 0 && is_digit(s[0]) {
        lemma_parse_number_ge(s.drop_first(), acc * 10 + digit_val(s[0]));
    }
}

/// A decimal number at the front of `s`: at least one digit, no leading
/// zero (a lone `0` only), value at most `u32::MAX`.
pub open spec fn parse_u32(s: Seq<char>) -> Option<(u32, Seq<char>)> {
    if s.len() > 0 && is_digit(s[0]) {
        if s[0] == '0' && s.len() > 1 && is_digit(s[1]) {
            None
        } else {
            let (v, rest) = parse_number(s, 0);
            if v <= u32::MAX {
                Some((v as u32, rest))
            } else {
                None
            }
        }
    } else {
        None
    }
}

pub fn is_ws_exec(c: char) -> (b: bool)
    ensures
        b == is_ws(c),
{
    c == ' ' || c == '\n' || c == '\t' || c == '\r'
}

pub fn is_digit_exec(c: char) -> (b: bool)
    ensures
        b == is_digit(c),
{
    let u = c as u32;
    48 <= u && u <= 57
}

/// The index at which the run of whitespace starting at `i` ends.
#[verifier::loop_isolation(false)]
pub fn ws_end(s: &Vec<char>, i: usize) -> (j: usize)
    requires
        i <= s@.len(),
    ensures
        i <= j <= s@.len(),
        skip_ws(s@.skip(i as int)) == s@.skip(j as int),
        j == s@.len() || !is_ws(s@[j as int]),
{
    let mut j = i;
    while j < s.len() && is_ws_exec(s[j])
        invariant
            i <= j <= s@.len(),
            skip_ws(s@.skip(i as int)) == skip_ws(s@.skip(j as int)),
        decreases s@.len() - j,
    {
        proof {
            let suf = s@.skip(j as int);
            assert(suf[0] == s@[j as int]);
            assert(suf.drop_first() =~= s@.skip(j as int + 1));
        }
        j = j + 1;
    }
    proof {
        lemma_skip_ws_no_ws(s@.skip(j as int));
    }
    j
}

/// Matches the literal `tok` in `s` at position `i`.
#[verifier::loop_isolation(false)]
pub fn expect_at(s: &Vec<char>, i: usize, tok: &Vec<char>) -> (r: Option<usize>)
    requires
        i <= s@.len(),
    ensures
        match r {
            Some(j) => {
                &&& j == i + tok@.len()
                &&& j <= s@.len()
                &&& expect(s@.skip(i as int), tok@) == Some(s@.skip(j as int))
            },
            None => expect(s@.skip(i as int), tok@) is None,
        },
{
    let suffix_len = s.len() - i;
    if suffix_len < tok.len() {
        return None;
    }
    let mut k: usize = 0;
    while k < tok.len()
        invariant
            0 <= k <= tok@.len(),
            i + tok@.len() <= s@.len(),
            forall|m: int| 0 <= m < k ==> s@[i + m] == tok@[m],
        decreases tok@.len() - k,
    {
        if s[i + k] != tok[k] {
            proof {
                let sub = s@.skip(i as int).subrange(0, tok@.len() as int);
                assert(sub[k as int] == s@[i + k]);
                assert(sub != tok@);
            }
            return None;
        }
        k = k + 1;
    }
    proof {
        assert(s@.skip(i as int).subrange(0, tok@.len() as int) =~= tok@);
        assert(s@.skip(i as int).skip(tok@.len() as int) =~= s@.skip(i + tok@.len()));
    }
    Some(i + tok.len())
}

/// Reads a decimal `u32` in `s` at position `i`.
#[verifier::loop_isolation(false)]
pub fn parse_u32_at(s: &Vec<char>, i: usize) -> (r: Option<(u32, usize)>)
    requires
        i <= s@.len(),
    ensures
        match r {
            Some((v, j)) => {
                &&& i < j <= s@.len()
                &&& parse_u32(s@.skip(i as int)) == Some((v, s@.skip(j as int)))
            },
            None => parse_u32(s@.skip(i as int)) is None,
        },
{
    if i >= s.len() {
        return None;
    }
    let c0 = s[i];
    if !is_digit_exec(c0) {
        proof {
            assert(s@.skip(i as int)[0] == c0);
        }
        return None;
    }
    if c0 == '0' && i + 1 < s.len() && is_digit_exec(s[i + 1]) {
        proof {
            let suf = s@.skip(i as int);
            assert(suf[0] == c0 && suf[1] == s@[i + 1]);
        }
        return None;
    }
    proof {
        let suf = s@.skip(i as int);
        if suf.len() > 1 {
            assert(suf[1] == s@[i + 1]);
        }
    }
    let mut acc: u64 = 0;
    let mut j: usize = i;
    while j < s.len() && is_digit_exec(s[j])
        invariant
            i <= j <= s@.len(),
            acc <= u32::MAX,
            parse_number(s@.skip(i as int), 0) == parse_number(s@.skip(j as int), acc as int),
        decreases s@.len() - j,
    {
        let c = s[j];
        let d: u64 = (c as u32 - 48) as u64;
        proof {
            let suf = s@.skip(j as int);
            assert(suf[0] == c);
            assert(suf.drop_first() =~= s@.skip(j as int + 1));
            assert(digit_val(c) == d);
        }
        let next = acc * 10 + d;
        if next > u32::MAX as u64 {
            proof {
                lemma_parse_number_ge(s@.skip(j as int + 1), next as int);
            }
            return None;
        }
        acc = next;
        j = j + 1;
    }
    proof {
        let suf = s@.skip(j as int);
        if suf.len() > 0 {
            assert(suf[0] == s@[j as int]);
        }
        assert(parse_number(suf, acc as int) == (acc as int, suf));
    }
    Some((acc as u32, j))
}

/// Relies on `String: FromIterator<char>`: collecting characters yields the
/// string of exactly those characters, in order.
#[verifier::external_body]
pub(crate) fn chars_to_string(v: &Vec<char>) -> (s: String)
    ensures
        s@ == v@,
{
    v.iter().collect()
}

/// The characters of `s`, in order, as a vector.
#[verifier::loop_isolation(false)]
pub fn str_to_chars(s: &str) -> (v: Vec<char>)
    ensures
        v@ == s@,
{
    let n = s.unicode_len();
    let mut v: Vec<char> = Vec::new();
    let mut i: usize = 0;
    while i < n
        invariant
            i <= n == s@.len(),
            v@ == s@.subrange(0, i as int),
        decreases n - i,
    {
        let c = s.get_char(i);
        v.push(c);
        proof {
            assert(v@ =~= s@.subrange(0, i + 1));
        }
        i = i + 1;
    }
    proof {
        assert(s@.subrange(0, s@.len() as int) =~= s@);
    }
    v
}

} // verus!

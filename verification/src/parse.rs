//! The parser of the persisted form: a collection of tasks written as a
//! pretty-printed array of records, each with the fields `id`, `title` and
//! `completed` in that order. The grammar is given by spec functions that
//! consume from the front of a character sequence; the executable parser is
//! proved to return exactly what they describe.

use vstd::prelude::*;
use crate::task::{Task, TaskModel, models};
use crate::text::{
    is_hex, hex_val, skip_ws, expect, parse_u32, ws_end, expect_at, parse_u32_at,
};

verus! {

pub open spec fn tok_id() -> Seq<char> {
    seq!['"', 'i', 'd', '"']
}

pub open spec fn tok_title() -> Seq<char> {
    seq!['"', 't', 'i', 't', 'l', 'e', '"']
}

pub open spec fn tok_completed() -> Seq<char> {
    seq!['"', 'c', 'o', 'm', 'p', 'l', 'e', 't', 'e', 'd', '"']
}

pub open spec fn tok_true() -> Seq<char> {
    seq!['t', 'r', 'u', 'e']
}

pub open spec fn tok_false() -> Seq<char> {
    seq!['f', 'a', 'l', 's', 'e']
}

/// The characters that may follow a backslash as a one-letter escape.
pub open spec fn is_simple_escape(c: char) -> bool {
    c == '"' || c == '\\' || c == '/' || c == 'b' || c == 'f' || c == 'n' || c == 'r' || c == 't'
}

/// The character a one-letter escape stands for.
pub open spec fn unescape_char(c: char) -> char {
    if c == 'b' { '\u{8}' }
    else if c == 'f' { '\u{c}' }
    else if c == 'n' { '\n' }
    else if c == 'r' { '\r' }
    else if c == 't' { '\t' }
    else { c }
}

/// The code point of a `\uXXXX` escape whose four hex digits start at
/// `s[2]`.
pub open spec fn hex4_code(s: Seq<char>) -> int {
    hex_val(s[2]) * 4096 + hex_val(s[3]) * 256 + hex_val(s[4]) * 16 + hex_val(s[5])
}

/// The body of a quoted string, read from just after the opening quote up
/// to and including the closing quote: the decoded text and the rest of the
/// input. Raw control characters are not accepted; escapes are the
/// one-letter ones and `\u` followed by four hex digits naming a
/// non-surrogate code point.
pub open spec fn parse_string_body(s: Seq<char>) -> Option<(Seq<char>, Seq<char>)>
    decreases s.len(),
{
    if s.len() == 0 {
        None
    } else if s[0] == '"' {
        Some((Seq::empty(), s.drop_first()))
    } else if s[0] == '\\' {
        if s.len() >= 2 && is_simple_escape(s[1]) {
            match parse_string_body(s.skip(2)) {
                Some((t, r)) => Some((seq![unescape_char(s[1])] + t, r)),
                None => None,
            }
        } else if s.len() >= 6 && s[1] == 'u' && is_hex(s[2]) && is_hex(s[3]) && is_hex(s[4])
            && is_hex(s[5]) {
            if 0xD800 <= hex4_code(s) < 0xE000 {
                None
            } else {
                match parse_string_body(s.skip(6)) {
                    Some((t, r)) => Some((seq![((hex4_code(s) as u32) as char)] + t, r)),
                    None => None,
                }
            }
        } else {
            None
        }
    } else if (s[0] as u32) < 32 {
        None
    } else {
        match parse_string_body(s.drop_first()) {
            Some((t, r)) => Some((seq![s[0]] + t, r)),
            None => None,
        }
    }
}

/// Relies on `char::from_u32`: a `char` comes back exactly for the code
/// points below the surrogate range or between it and the greatest code
/// point, and it carries the given code.
pub assume_specification[ char::from_u32 ](i: u32) -> (r: Option<char>)
    ensures
        (r is Some) == (i < 0xD800 || (0xE000 <= i && i <= 0x10FFFF)),
        r matches Some(c) ==> c as u32 == i,
;

pub open spec fn parse_bool(s: Seq<char>) -> Option<(bool, Seq<char>)> {
    match expect(s, tok_true()) {
        Some(r) => Some((true, r)),
        None => match expect(s, tok_false()) {
            Some(r) => Some((false, r)),
            None => None,
        },
    }
}

/// One `key: value` pair of a record, read where a key is expected. A key
/// already seen is refused, as is any key other than the three. The result
/// is the fields gathered so far and the rest of the input, just past the
/// value.
pub open spec fn parse_one_field(
    s: Seq<char>,
    id: Option<u32>,
    title: Option<Seq<char>>,
    completed: Option<bool>,
) -> Option<(Option<u32>, Option<Seq<char>>, Option<bool>, Seq<char>)> {
    let s0 = skip_ws(s);
    match expect(s0, tok_id()) {
        Some(r) => if id is Some {
            None
        } else {
            match expect(skip_ws(r), seq![':']) {
                None => None,
                Some(r) => match parse_u32(skip_ws(r)) {
                    None => None,
                    Some((v, r)) => Some((Some(v), title, completed, r)),
                },
            }
        },
        None => match expect(s0, tok_title()) {
            Some(r) => if title is Some {
                None
            } else {
                match expect(skip_ws(r), seq![':']) {
                    None => None,
                    Some(r) => match expect(skip_ws(r), seq!['"']) {
                        None => None,
                        Some(r) => match parse_string_body(r) {
                            None => None,
                            Some((t, r)) => Some((id, Some(t), completed, r)),
                        },
                    },
                }
            },
            None => match expect(s0, tok_completed()) {
                Some(r) => if completed is Some {
                    None
                } else {
                    match expect(skip_ws(r), seq![':']) {
                        None => None,
                        Some(r) => match parse_bool(skip_ws(r)) {
                            None => None,
                            Some((b, r)) => Some((id, title, Some(b), r)),
                        },
                    }
                },
                None => None,
            },
        },
    }
}

/// The fields of a record, in any order, each exactly once, from where the
/// first missing key is expected through the closing brace.
pub open spec fn parse_obj_fields(
    s: Seq<char>,
    id: Option<u32>,
    title: Option<Seq<char>>,
    completed: Option<bool>,
) -> Option<(TaskModel, Seq<char>)>
    decreases s.len(),
{
    match parse_one_field(s, id, title, completed) {
        None => None,
        Some((id2, title2, completed2, r)) => {
            let r1 = skip_ws(r);
            if r1.len() == 0 {
                None
            } else if r1[0] == ',' {
                let r2 = r1.drop_first();
                if r2.len() < s.len() {
                    parse_obj_fields(r2, id2, title2, completed2)
                } else {
                    None
                }
            } else if r1[0] == '}' {
                match (id2, title2, completed2) {
                    (Some(i), Some(t), Some(c)) => Some(
                        (TaskModel { id: i, title: t, completed: c }, r1.drop_first()),
                    ),
                    _ => None,
                }
            } else {
                None
            }
        },
    }
}

/// One task record: `{` … `}` with the fields `id`, `title` and
/// `completed`, in any order, each exactly once, arbitrary whitespace
/// between tokens.
pub open spec fn parse_obj(s: Seq<char>) -> Option<(TaskModel, Seq<char>)> {
    match expect(s, seq!['{']) {
        None => None,
        Some(r) => parse_obj_fields(r, None, None, None),
    }
}

/// One or more task records separated by commas, up to and past the closing
/// `]`.
pub open spec fn parse_items(s: Seq<char>) -> Option<(Seq<TaskModel>, Seq<char>)>
    decreases s.len(),
{
    match parse_obj(s) {
        None => None,
        Some((t, r)) => {
            let r1 = skip_ws(r);
            if r1.len() == 0 {
                None
            } else if r1[0] == ',' {
                let r2 = skip_ws(r1.drop_first());
                if r2.len() < s.len() {
                    match parse_items(r2) {
                        Some((ts, r3)) => Some((seq![t] + ts, r3)),
                        None => None,
                    }
                } else {
                    None
                }
            } else if r1[0] == ']' {
                Some((seq![t], r1.drop_first()))
            } else {
                None
            }
        },
    }
}

/// The whole persisted text. Blank text is the empty collection; otherwise
/// a `[` `]` array of task records, with nothing but whitespace after it.
pub open spec fn spec_parse_tasks(s: Seq<char>) -> Option<Seq<TaskModel>> {
    let r = skip_ws(s);
    if r.len() == 0 {
        Some(Seq::empty())
    } else if r[0] == '[' {
        let r1 = skip_ws(r.drop_first());
        if r1.len() > 0 && r1[0] == ']' {
            if skip_ws(r1.drop_first()).len() == 0 {
                Some(Seq::empty())
            } else {
                None
            }
        } else {
            match parse_items(r1) {
                Some((ts, r2)) => if skip_ws(r2).len() == 0 {
                    Some(ts)
                } else {
                    None
                },
                None => None,
            }
        }
    } else {
        None
    }
}

fn tok_id_exec() -> (t: Vec<char>)
    ensures
        t@ == tok_id(),
{
    let mut v: Vec<char> = Vec::new();
    v.push('"');
    v.push('i');
    v.push('d');
    v.push('"');
    proof {
        assert(v@ =~= tok_id());
    }
    v
}

fn tok_title_exec() -> (t: Vec<char>)
    ensures
        t@ == tok_title(),
{
    let mut v: Vec<char> = Vec::new();
    v.push('"');
    v.push('t');
    v.push('i');
    v.push('t');
    v.push('l');
    v.push('e');
    v.push('"');
    proof {
        assert(v@ =~= tok_title());
    }
    v
}

fn tok_completed_exec() -> (t: Vec<char>)
    ensures
        t@ == tok_completed(),
{
    let mut v: Vec<char> = Vec::new();
    v.push('"');
    v.push('c');
    v.push('o');
    v.push('m');
    v.push('p');
    v.push('l');
    v.push('e');
    v.push('t');
    v.push('e');
    v.push('d');
    v.push('"');
    proof {
        assert(v@ =~= tok_completed());
    }
    v
}

fn tok_true_exec() -> (t: Vec<char>)
    ensures
        t@ == tok_true(),
{
    let mut v: Vec<char> = Vec::new();
    v.push('t');
    v.push('r');
    v.push('u');
    v.push('e');
    proof {
        assert(v@ =~= tok_true());
    }
    v
}

fn tok_false_exec() -> (t: Vec<char>)
    ensures
        t@ == tok_false(),
{
    let mut v: Vec<char> = Vec::new();
    v.push('f');
    v.push('a');
    v.push('l');
    v.push('s');
    v.push('e');
    proof {
        assert(v@ =~= tok_false());
    }
    v
}

fn one_char_tok(c: char) -> (t: Vec<char>)
    ensures
        t@ == seq![c],
{
    let mut v: Vec<char> = Vec::new();
    v.push(c);
    proof {
        assert(v@ =~= seq![c]);
    }
    v
}

fn is_hex_exec(c: char) -> (b: bool)
    ensures
        b == is_hex(c),
{
    let u = c as u32;
    (48 <= u && u <= 57) || (97 <= u && u <= 102) || (65 <= u && u <= 70)
}

fn hex_val_exec(c: char) -> (v: u32)
    requires
        is_hex(c),
    ensures
        v as int == hex_val(c),
{
    let u = c as u32;
    if 48 <= u && u <= 57 {
        u - 48
    } else if 97 <= u && u <= 102 {
        u - 87
    } else {
        u - 55
    }
}

fn is_simple_escape_exec(c: char) -> (b: bool)
    ensures
        b == is_simple_escape(c),
{
    c == '"' || c == '\\' || c == '/' || c == 'b' || c == 'f' || c == 'n' || c == 'r' || c == 't'
}

fn unescape_char_exec(c: char) -> (r: char)
    ensures
        r == unescape_char(c),
{
    if c == 'b' { '\u{8}' }
    else if c == 'f' { '\u{c}' }
    else if c == 'n' { '\n' }
    else if c == 'r' { '\r' }
    else if c == 't' { '\t' }
    else { c }
}

/// Prepending `a` to the text of a string-body result.
pub open spec fn psb_ctx(
    a: Seq<char>,
    o: Option<(Seq<char>, Seq<char>)>,
) -> Option<(Seq<char>, Seq<char>)> {
    match o {
        Some((t, r)) => Some((a + t, r)),
        None => None,
    }
}

proof fn lemma_psb_ctx_assoc(a: Seq<char>, b: Seq<char>, o: Option<(Seq<char>, Seq<char>)>)
    ensures
        psb_ctx(a, psb_ctx(b, o)) == psb_ctx(a + b, o),
{
    match o {
        Some((t, r)) => {
            assert(a + (b + t) =~= (a + b) + t);
        },
        None => {},
    }
}

/// Reads a string body beginning at `i` (just past the opening quote).
#[verifier::loop_isolation(false)]
fn parse_string_at(s: &Vec<char>, i: usize) -> (r: Option<(Vec<char>, usize)>)
    requires
        i <= s@.len(),
    ensures
        match r {
            Some((t, j)) => {
                &&& i < j <= s@.len()
                &&& parse_string_body(s@.skip(i as int)) == Some((t@, s@.skip(j as int)))
            },
            None => parse_string_body(s@.skip(i as int)) is None,
        },
{
    let mut acc: Vec<char> = Vec::new();
    let mut j: usize = i;
    loop
        invariant
            i <= j <= s@.len(),
            parse_string_body(s@.skip(i as int)) == psb_ctx(
                acc@,
                parse_string_body(s@.skip(j as int)),
            ),
        decreases s@.len() - j,
    {
        if j >= s.len() {
            return None;
        }
        let ghost suf = s@.skip(j as int);
        proof {
            assert(suf[0] == s@[j as int]);
        }
        let c = s[j];
        if c == '"' {
            proof {
                assert(suf.drop_first() =~= s@.skip(j + 1));
                assert(acc@ + Seq::<char>::empty() =~= acc@);
            }
            return Some((acc, j + 1));
        } else if c == '\\' {
            if j + 1 >= s.len() {
                return None;
            }
            proof {
                assert(suf[1] == s@[j + 1]);
            }
            let e = s[j + 1];
            if is_simple_escape_exec(e) {
                let u = unescape_char_exec(e);
                proof {
                    assert(suf.skip(2) =~= s@.skip(j + 2));
                    lemma_psb_ctx_assoc(acc@, seq![u], parse_string_body(s@.skip(j + 2)));
                    assert(acc@ + seq![u] =~= acc@.push(u));
                }
                acc.push(u);
                j = j + 2;
            } else if e == 'u' {
                if s.len() - j <= 5 {
                    return None;
                }
                proof {
                    assert(suf[2] == s@[j + 2]);
                    assert(suf[3] == s@[j + 3]);
                    assert(suf[4] == s@[j + 4]);
                    assert(suf[5] == s@[j + 5]);
                }
                let h0 = s[j + 2];
                let h1 = s[j + 3];
                let h2 = s[j + 4];
                let h3 = s[j + 5];
                if !(is_hex_exec(h0) && is_hex_exec(h1) && is_hex_exec(h2) && is_hex_exec(h3)) {
                    return None;
                }
                let code: u32 = hex_val_exec(h0) * 4096 + hex_val_exec(h1) * 256 + hex_val_exec(h2)
                    * 16 + hex_val_exec(h3);
                proof {
                    assert(code as int == hex4_code(suf));
                }
                if 0xD800 <= code && code < 0xE000 {
                    return None;
                }
                let u = match char::from_u32(code) {
                    Some(c) => c,
                    None => {
                        // unreachable: the code is four hex digits and not a
                        // surrogate
                        return None;
                    },
                };
                proof {
                    vstd::utf8::char_u32_cast(u, code);
                    assert(u == ((hex4_code(suf) as u32) as char));
                    assert(suf.skip(6) =~= s@.skip(j + 6));
                    lemma_psb_ctx_assoc(acc@, seq![u], parse_string_body(s@.skip(j + 6)));
                    assert(acc@ + seq![u] =~= acc@.push(u));
                }
                acc.push(u);
                j = j + 6;
            } else {
                return None;
            }
        } else if (c as u32) < 32 {
            return None;
        } else {
            proof {
                assert(suf.drop_first() =~= s@.skip(j + 1));
                lemma_psb_ctx_assoc(acc@, seq![c], parse_string_body(s@.skip(j + 1)));
                assert(acc@ + seq![c] =~= acc@.push(c));
            }
            acc.push(c);
            j = j + 1;
        }
    }
}

/// Reads `true` or `false` at `i`.
fn parse_bool_at(s: &Vec<char>, i: usize) -> (r: Option<(bool, usize)>)
    requires
        i <= s@.len(),
    ensures
        match r {
            Some((b, j)) => {
                &&& i < j <= s@.len()
                &&& parse_bool(s@.skip(i as int)) == Some((b, s@.skip(j as int)))
            },
            None => parse_bool(s@.skip(i as int)) is None,
        },
{
    let t_tok = tok_true_exec();
    match expect_at(s, i, &t_tok) {
        Some(j) => Some((true, j)),
        None => {
            let f_tok = tok_false_exec();
            match expect_at(s, i, &f_tok) {
                Some(j) => Some((false, j)),
                None => None,
            }
        },
    }
}

/// The characters a gathered `title` field holds, if one was seen yet.
pub open spec fn opt_chars(o: Option<Vec<char>>) -> Option<Seq<char>> {
    match o {
        Some(v) => Some(v@),
        None => None,
    }
}

/// Reads one `key: value` pair at `i`, where a key is expected.
fn parse_one_field_at(
    s: &Vec<char>,
    i: usize,
    id: Option<u32>,
    title: Option<Vec<char>>,
    completed: Option<bool>,
) -> (r: Option<(Option<u32>, Option<Vec<char>>, Option<bool>, usize)>)
    requires
        i <= s@.len(),
    ensures
        match r {
            Some((id2, t2, c2, j)) => {
                &&& i < j <= s@.len()
                &&& parse_one_field(s@.skip(i as int), id, opt_chars(title), completed) == Some(
                    (id2, opt_chars(t2), c2, s@.skip(j as int)),
                )
            },
            None => parse_one_field(s@.skip(i as int), id, opt_chars(title), completed) is None,
        },
{
    let i0 = ws_end(s, i);
    let colon_tok = one_char_tok(':');
    let id_tok = tok_id_exec();
    match expect_at(s, i0, &id_tok) {
        Some(j) => {
            match id {
                Some(_) => { return None; },
                None => {},
            }
            let j = ws_end(s, j);
            let j = match expect_at(s, j, &colon_tok) {
                Some(j) => j,
                None => { return None; },
            };
            let j = ws_end(s, j);
            return match parse_u32_at(s, j) {
                Some((v, j2)) => Some((Some(v), title, completed, j2)),
                None => None,
            };
        },
        None => {},
    }
    let title_tok = tok_title_exec();
    match expect_at(s, i0, &title_tok) {
        Some(j) => {
            match title {
                Some(_) => { return None; },
                None => {},
            }
            let j = ws_end(s, j);
            let j = match expect_at(s, j, &colon_tok) {
                Some(j) => j,
                None => { return None; },
            };
            let j = ws_end(s, j);
            let quote_tok = one_char_tok('"');
            let j = match expect_at(s, j, &quote_tok) {
                Some(j) => j,
                None => { return None; },
            };
            return match parse_string_at(s, j) {
                Some((t, j2)) => Some((id, Some(t), completed, j2)),
                None => None,
            };
        },
        None => {},
    }
    let completed_tok = tok_completed_exec();
    match expect_at(s, i0, &completed_tok) {
        Some(j) => {
            match completed {
                Some(_) => { return None; },
                None => {},
            }
            let j = ws_end(s, j);
            let j = match expect_at(s, j, &colon_tok) {
                Some(j) => j,
                None => { return None; },
            };
            let j = ws_end(s, j);
            match parse_bool_at(s, j) {
                Some((b, j2)) => Some((id, title, Some(b), j2)),
                None => None,
            }
        },
        None => None,
    }
}

/// Reads a record's fields at `i` (just past the opening brace or a
/// separating comma) through the closing brace.
fn parse_fields_at(
    s: &Vec<char>,
    i: usize,
    id: Option<u32>,
    title: Option<Vec<char>>,
    completed: Option<bool>,
) -> (r: Option<(Task, usize)>)
    requires
        i <= s@.len(),
    ensures
        match r {
            Some((t, j)) => {
                &&& i < j <= s@.len()
                &&& parse_obj_fields(s@.skip(i as int), id, opt_chars(title), completed) == Some(
                    (t@, s@.skip(j as int)),
                )
            },
            None => parse_obj_fields(s@.skip(i as int), id, opt_chars(title), completed) is None,
        },
    decreases s@.len() - i,
{
    let (id2, t2, c2, j) = match parse_one_field_at(s, i, id, title, completed) {
        Some(x) => x,
        None => { return None; },
    };
    let j1 = ws_end(s, j);
    if j1 >= s.len() {
        proof {
            assert(s@.skip(j1 as int).len() == 0);
        }
        return None;
    }
    let ghost r1 = s@.skip(j1 as int);
    proof {
        assert(r1[0] == s@[j1 as int]);
        assert(r1.drop_first() =~= s@.skip(j1 + 1));
    }
    let c = s[j1];
    if c == ',' {
        parse_fields_at(s, j1 + 1, id2, t2, c2)
    } else if c == '}' {
        match (id2, t2, c2) {
            (Some(idv), Some(tv), Some(cv)) => {
                let tstr = crate::text::chars_to_string(&tv);
                let task = Task { id: idv, title: tstr, completed: cv };
                proof {
                    assert(task@ == TaskModel { id: idv, title: tv@, completed: cv });
                }
                Some((task, j1 + 1))
            },
            _ => None,
        }
    } else {
        None
    }
}

/// Reads one task record at `i`.
fn parse_obj_at(s: &Vec<char>, i: usize) -> (r: Option<(Task, usize)>)
    requires
        i <= s@.len(),
    ensures
        match r {
            Some((t, j)) => {
                &&& i < j <= s@.len()
                &&& parse_obj(s@.skip(i as int)) == Some((t@, s@.skip(j as int)))
            },
            None => parse_obj(s@.skip(i as int)) is None,
        },
{
    let open_tok = one_char_tok('{');
    let j = match expect_at(s, i, &open_tok) {
        Some(j) => j,
        None => { return None; },
    };
    parse_fields_at(s, j, None, None, None)
}

/// Reads the task records from the first `{` through the closing `]`.
fn parse_items_at(s: &Vec<char>, i: usize) -> (r: Option<(Vec<Task>, usize)>)
    requires
        i <= s@.len(),
    ensures
        match r {
            Some((ts, j)) => {
                &&& i < j <= s@.len()
                &&& parse_items(s@.skip(i as int)) == Some((models(ts@), s@.skip(j as int)))
            },
            None => parse_items(s@.skip(i as int)) is None,
        },
    decreases s@.len() - i,
{
    let (task, j1) = match parse_obj_at(s, i) {
        Some(p) => p,
        None => { return None; },
    };
    let j2 = ws_end(s, j1);
    if j2 >= s.len() {
        proof {
            assert(s@.skip(j2 as int).len() == 0);
        }
        return None;
    }
    let ghost r1 = s@.skip(j2 as int);
    proof {
        assert(r1[0] == s@[j2 as int]);
    }
    let c = s[j2];
    if c == ',' {
        let j3 = ws_end(s, j2 + 1);
        proof {
            assert(r1.drop_first() =~= s@.skip(j2 + 1));
        }
        let (rest, j4) = match parse_items_at(s, j3) {
            Some(p) => p,
            None => { return None; },
        };
        let mut out = rest;
        out.insert(0, task);
        proof {
            assert(models(out@) =~= seq![task@] + models(rest@));
        }
        Some((out, j4))
    } else if c == ']' {
        proof {
            assert(r1.drop_first() =~= s@.skip(j2 + 1));
        }
        let mut out: Vec<Task> = Vec::new();
        out.push(task);
        proof {
            assert(models(out@) =~= seq![task@]);
        }
        Some((out, j2 + 1))
    } else {
        return None;
    }
}

/// Reads a whole persisted collection from `s`: the collection exactly as
/// `spec_parse_tasks` describes it, or nothing where the text is malformed.
pub fn parse_tasks_chars(s: &Vec<char>) -> (r: Option<Vec<Task>>)
    ensures
        match r {
            Some(ts) => spec_parse_tasks(s@) == Some(models(ts@)),
            None => spec_parse_tasks(s@) is None,
        },
{
    proof {
        assert(s@.skip(0) =~= s@);
    }
    let i = ws_end(s, 0);
    if i >= s.len() {
        let out: Vec<Task> = Vec::new();
        proof {
            assert(models(out@) =~= Seq::<TaskModel>::empty());
        }
        return Some(out);
    }
    let ghost r0 = s@.skip(i as int);
    proof {
        assert(r0[0] == s@[i as int]);
    }
    if s[i] != '[' {
        return None;
    }
    proof {
        assert(r0.drop_first() =~= s@.skip(i + 1));
    }
    let j1 = ws_end(s, i + 1);
    let ghost r1 = s@.skip(j1 as int);
    if j1 < s.len() {
        proof {
            assert(r1[0] == s@[j1 as int]);
        }
    }
    if j1 < s.len() && s[j1] == ']' {
        proof {
            assert(r1.drop_first() =~= s@.skip(j1 + 1));
        }
        let j2 = ws_end(s, j1 + 1);
        if j2 >= s.len() {
            let out: Vec<Task> = Vec::new();
            proof {
                assert(models(out@) =~= Seq::<TaskModel>::empty());
            }
            return Some(out);
        } else {
            return None;
        }
    }
    let (ts, j2) = match parse_items_at(s, j1) {
        Some(p) => p,
        None => { return None; },
    };
    let j3 = ws_end(s, j2);
    if j3 >= s.len() {
        Some(ts)
    } else {
        None
    }
}

} // verus!

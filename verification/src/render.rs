//! The renderer of the persisted form: the collection as a pretty-printed
//! array of records, two-space indented, fields in the order `id`, `title`,
//! `completed`. The empty collection renders as an empty array.

use vstd::prelude::*;
use crate::task::{Task, TaskModel, models};
use crate::text::{spec_digit_char, spec_hex_char};
use crate::parse::{tok_id, tok_title, tok_completed, tok_true, tok_false};

verus! {

/// The decimal digits of `n`, most significant first, no leading zeros
/// (a single `0` for zero).
pub open spec fn spec_digits(n: int) -> Seq<char>
    decreases n,
{
    if n < 10 {
        seq![spec_digit_char(n)]
    } else {
        spec_digits(n / 10).push(spec_digit_char(n % 10))
    }
}

/// The rendering of one character inside a quoted string: quote and
/// backslash escaped, control characters written `\u00` + two hex digits,
/// everything else as itself.
pub open spec fn esc1(c: char) -> Seq<char> {
    if c == '"' {
        seq!['\\', '"']
    } else if c == '\\' {
        seq!['\\', '\\']
    } else if (c as u32) < 32 {
        seq!['\\', 'u', '0', '0', spec_hex_char(c as u32 as int / 16), spec_hex_char(c as u32 as int % 16)]
    } else {
        seq![c]
    }
}

pub open spec fn escape_string(t: Seq<char>) -> Seq<char>
    decreases t.len(),
{
    if t.len() == 0 {
        Seq::empty()
    } else {
        esc1(t[0]) + escape_string(t.drop_first())
    }
}

pub open spec fn obj_pre_id() -> Seq<char> {
    seq!['{', '\n', ' ', ' ', ' ', ' '] + tok_id() + seq![':', ' ']
}

pub open spec fn obj_pre_title() -> Seq<char> {
    seq![',', '\n', ' ', ' ', ' ', ' '] + tok_title() + seq![':', ' ', '"']
}

pub open spec fn obj_pre_completed() -> Seq<char> {
    seq!['"', ',', '\n', ' ', ' ', ' ', ' '] + tok_completed() + seq![':', ' ']
}

pub open spec fn obj_end() -> Seq<char> {
    seq!['\n', ' ', ' ', '}']
}

pub open spec fn arr_open() -> Seq<char> {
    seq!['[', '\n', ' ', ' ']
}

pub open spec fn arr_sep() -> Seq<char> {
    seq![',', '\n', ' ', ' ']
}

pub open spec fn arr_close() -> Seq<char> {
    seq!['\n', ']']
}

/// One record, without the surrounding indentation.
pub open spec fn render_obj(t: TaskModel) -> Seq<char> {
    obj_pre_id() + spec_digits(t.id as int) + obj_pre_title() + escape_string(t.title)
        + obj_pre_completed() + (if t.completed { tok_true() } else { tok_false() }) + obj_end()
}

/// The records after the first, each preceded by the separator.
pub open spec fn rest_items(ts: Seq<TaskModel>) -> Seq<char>
    decreases ts.len(),
{
    if ts.len() == 0 {
        Seq::empty()
    } else {
        arr_sep() + render_obj(ts[0]) + rest_items(ts.drop_first())
    }
}

/// The whole persisted text for a collection.
pub open spec fn spec_render_tasks(ts: Seq<TaskModel>) -> Seq<char> {
    if ts.len() == 0 {
        seq!['[', ']']
    } else {
        arr_open() + render_obj(ts[0]) + rest_items(ts.drop_first()) + arr_close()
    }
}

fn digit_char_exec(d: u32) -> (c: char)
    requires
        d <= 9,
    ensures
        c == spec_digit_char(d as int),
{
    if d == 0 { '0' }
    else if d == 1 { '1' }
    else if d == 2 { '2' }
    else if d == 3 { '3' }
    else if d == 4 { '4' }
    else if d == 5 { '5' }
    else if d == 6 { '6' }
    else if d == 7 { '7' }
    else if d == 8 { '8' }
    else { '9' }
}

fn hex_char_exec(d: u32) -> (c: char)
    requires
        d <= 15,
    ensures
        c == spec_hex_char(d as int),
{
    if d <= 9 {
        digit_char_exec(d)
    } else if d == 10 { 'a' }
    else if d == 11 { 'b' }
    else if d == 12 { 'c' }
    else if d == 13 { 'd' }
    else if d == 14 { 'e' }
    else { 'f' }
}

/// Appends the decimal digits of `n`.
pub(crate) fn push_digits(out: &mut Vec<char>, n: u32)
    ensures
        final(out)@ == old(out)@ + spec_digits(n as int),
    decreases n,
{
    if n < 10 {
        let c = digit_char_exec(n);
        out.push(c);
        proof {
            assert(final(out)@ =~= old(out)@ + spec_digits(n as int));
        }
    } else {
        push_digits(out, n / 10);
        let c = digit_char_exec(n % 10);
        out.push(c);
        proof {
            assert(final(out)@ =~= old(out)@ + spec_digits(n as int));
        }
    }
}

/// Appends the escaped form of `title` (without the surrounding quotes).
#[verifier::loop_isolation(false)]
fn push_escaped(out: &mut Vec<char>, title: &str)
    ensures
        final(out)@ == old(out)@ + escape_string(title@),
{
    let n = title.unicode_len();
    let mut i: usize = 0;
    proof {
        assert(title@.skip(0) =~= title@);
    }
    while i < n
        invariant
            i <= n == title@.len(),
            out@ + escape_string(title@.skip(i as int)) == old(out)@ + escape_string(title@),
        decreases n - i,
    {
        let ghost pre = out@;
        let ghost suf = title@.skip(i as int);
        proof {
            assert(suf[0] == title@[i as int]);
            assert(suf.drop_first() =~= title@.skip(i + 1));
        }
        let c = title.get_char(i);
        let cu = c as u32;
        if c == '"' {
            out.push('\\');
            out.push('"');
        } else if c == '\\' {
            out.push('\\');
            out.push('\\');
        } else if cu < 32 {
            out.push('\\');
            out.push('u');
            out.push('0');
            out.push('0');
            let h = hex_char_exec(cu / 16);
            out.push(h);
            let l = hex_char_exec(cu % 16);
            out.push(l);
        } else {
            out.push(c);
        }
        proof {
            assert(out@ =~= pre + esc1(title@[i as int]));
            assert(pre + (esc1(title@[i as int]) + escape_string(title@.skip(i + 1))) =~= (pre
                + esc1(title@[i as int])) + escape_string(title@.skip(i + 1)));
        }
        i = i + 1;
    }
    proof {
        assert(title@.skip(n as int) =~= Seq::<char>::empty());
        assert(out@ + Seq::<char>::empty() =~= out@);
    }
}

fn push_pre_id(out: &mut Vec<char>)
    ensures
        final(out)@ == old(out)@ + obj_pre_id(),
{
    let ghost s0 = out@;
    out.push('{');
    out.push('\n');
    out.push(' ');
    out.push(' ');
    out.push(' ');
    out.push(' ');
    out.push('"');
    out.push('i');
    out.push('d');
    out.push('"');
    out.push(':');
    out.push(' ');
    proof {
        assert(out@ =~= s0 + obj_pre_id());
    }
}

fn push_pre_title(out: &mut Vec<char>)
    ensures
        final(out)@ == old(out)@ + obj_pre_title(),
{
    let ghost s0 = out@;
    out.push(',');
    out.push('\n');
    out.push(' ');
    out.push(' ');
    out.push(' ');
    out.push(' ');
    out.push('"');
    out.push('t');
    out.push('i');
    out.push('t');
    out.push('l');
    out.push('e');
    out.push('"');
    out.push(':');
    out.push(' ');
    out.push('"');
    proof {
        assert(out@ =~= s0 + obj_pre_title());
    }
}

#[verifier::rlimit(30)]
fn push_pre_completed(out: &mut Vec<char>)
    ensures
        final(out)@ == old(out)@ + obj_pre_completed(),
{
    let ghost s0 = out@;
    out.push('"');
    out.push(',');
    out.push('\n');
    out.push(' ');
    out.push(' ');
    out.push(' ');
    out.push(' ');
    out.push('"');
    out.push('c');
    out.push('o');
    out.push('m');
    out.push('p');
    out.push('l');
    out.push('e');
    out.push('t');
    out.push('e');
    out.push('d');
    out.push('"');
    out.push(':');
    out.push(' ');
    proof {
        assert(out@ =~= s0 + obj_pre_completed());
    }
}

fn push_bool(out: &mut Vec<char>, b: bool)
    ensures
        final(out)@ == old(out)@ + (if b { tok_true() } else { tok_false() }),
{
    let ghost s0 = out@;
    if b {
        out.push('t');
        out.push('r');
        out.push('u');
        out.push('e');
        proof {
            assert(out@ =~= s0 + tok_true());
        }
    } else {
        out.push('f');
        out.push('a');
        out.push('l');
        out.push('s');
        out.push('e');
        proof {
            assert(out@ =~= s0 + tok_false());
        }
    }
}

fn push_obj_end(out: &mut Vec<char>)
    ensures
        final(out)@ == old(out)@ + obj_end(),
{
    let ghost s0 = out@;
    out.push('\n');
    out.push(' ');
    out.push(' ');
    out.push('}');
    proof {
        assert(out@ =~= s0 + obj_end());
    }
}

/// Appends one record.
fn push_obj(out: &mut Vec<char>, t: &Task)
    ensures
        final(out)@ == old(out)@ + render_obj(t@),
{
    let ghost s0 = out@;
    push_pre_id(out);
    push_digits(out, t.id);
    let ghost s2 = out@;
    push_pre_title(out);
    push_escaped(out, t.title.as_str());
    let ghost s4 = out@;
    push_pre_completed(out);
    push_bool(out, t.completed);
    let ghost s6 = out@;
    push_obj_end(out);
    proof {
        assert(s2 =~= s0 + (obj_pre_id() + spec_digits(t.id as int)));
        assert(s4 =~= s0 + (obj_pre_id() + spec_digits(t.id as int) + obj_pre_title()
            + escape_string(t.title@)));
        assert(s6 =~= s0 + (obj_pre_id() + spec_digits(t.id as int) + obj_pre_title()
            + escape_string(t.title@) + obj_pre_completed() + (if t.completed {
            tok_true()
        } else {
            tok_false()
        })));
        assert(out@ =~= s0 + render_obj(t@));
    }
}

/// Renders a whole collection: exactly the text `spec_render_tasks`
/// describes.
#[verifier::loop_isolation(false)]
pub fn render_tasks_chars(tasks: &Vec<Task>) -> (out: Vec<char>)
    ensures
        out@ == spec_render_tasks(models(tasks@)),
{
    let ghost ms = models(tasks@);
    let mut out: Vec<char> = Vec::new();
    if tasks.len() == 0 {
        out.push('[');
        out.push(']');
        proof {
            assert(out@ =~= spec_render_tasks(ms));
        }
        return out;
    }
    out.push('[');
    out.push('\n');
    out.push(' ');
    out.push(' ');
    proof {
        assert(out@ =~= arr_open());
    }
    let ghost s0 = out@;
    push_obj(&mut out, &tasks[0]);
    proof {
        assert(ms[0] == tasks@[0]@);
        assert(ms.drop_first() =~= ms.skip(1));
        assert(out@ + rest_items(ms.skip(1)) =~= arr_open() + render_obj(ms[0]) + rest_items(
            ms.drop_first(),
        ));
    }
    let mut i: usize = 1;
    while i < tasks.len()
        invariant
            1 <= i <= tasks@.len(),
            ms == models(tasks@),
            ms.len() == tasks@.len(),
            out@ + rest_items(ms.skip(i as int)) == arr_open() + render_obj(ms[0]) + rest_items(
                ms.drop_first(),
            ),
        decreases tasks@.len() - i,
    {
        let ghost pre = out@;
        let ghost suf = ms.skip(i as int);
        proof {
            assert(suf[0] == ms[i as int]);
            assert(suf.drop_first() =~= ms.skip(i + 1));
        }
        out.push(',');
        out.push('\n');
        out.push(' ');
        out.push(' ');
        proof {
            assert(out@ =~= pre + arr_sep());
        }
        let ghost mid = out@;
        push_obj(&mut out, &tasks[i]);
        proof {
            assert(ms[i as int] == tasks@[i as int]@);
            assert(out@ + rest_items(ms.skip(i + 1)) =~= pre + (arr_sep() + render_obj(
                ms[i as int],
            ) + rest_items(ms.skip(i + 1))));
            assert(arr_sep() + render_obj(ms[i as int]) + rest_items(ms.skip(i + 1)) =~= rest_items(
                suf,
            ));
            assert(pre + rest_items(suf) =~= pre + rest_items(ms.skip(i as int)));
        }
        i = i + 1;
    }
    proof {
        assert(ms.skip(ms.len() as int) =~= Seq::<TaskModel>::empty());
        assert(out@ + Seq::<char>::empty() =~= out@);
    }
    let ghost s7 = out@;
    out.push('\n');
    out.push(']');
    proof {
        assert(out@ =~= s7 + arr_close());
        assert(out@ =~= spec_render_tasks(ms));
    }
    out
}

} // verus!

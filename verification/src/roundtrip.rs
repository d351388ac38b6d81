//! Round trip: the persisted text the renderer writes for a collection is
//! always read back by the parser as exactly that collection.

use vstd::prelude::*;
use crate::task::TaskModel;
use crate::text::{
    is_ws, is_digit, digit_val, skip_ws, expect, parse_number, parse_u32,
    spec_digit_char, spec_hex_char, hex_val, is_hex,
    lemma_digit_char_val, lemma_hex_char_val, lemma_skip_ws_prefix, lemma_skip_ws_no_ws,
    lemma_expect_prefix,
};
use crate::parse::{
    tok_id, tok_title, tok_completed, tok_true, tok_false, is_simple_escape, unescape_char,
    hex4_code, parse_string_body, parse_bool, parse_obj, parse_one_field, parse_obj_fields,
    parse_items, spec_parse_tasks,
};
use crate::render::{
    spec_digits, esc1, escape_string, arr_sep, arr_close, render_obj, rest_items,
    spec_render_tasks,
};

verus! {

/// Every character of a rendered number is a decimal digit, and there is at
/// least one.
proof fn lemma_digits_are_digits(n: int)
    requires
        n >= 0,
    ensures
        spec_digits(n).len() >= 1,
        forall|i: int| 0 <= i < spec_digits(n).len() ==> is_digit(#[trigger] spec_digits(n)[i]),
    decreases n,
{
    if n < 10 {
        lemma_digit_char_val(n);
    } else {
        lemma_digits_are_digits(n / 10);
        lemma_digit_char_val(n % 10);
        assert forall|i: int| 0 <= i < spec_digits(n).len()
            implies is_digit(#[trigger] spec_digits(n)[i]) by {
            if i < spec_digits(n / 10).len() {
                assert(spec_digits(n)[i] == spec_digits(n / 10)[i]);
            } else {
                assert(spec_digits(n)[i] == spec_digit_char(n % 10));
            }
        }
    }
}

/// The value a digit run folds to, starting from `acc`.
pub open spec fn acc_digits(acc: int, ds: Seq<char>) -> int
    decreases ds.len(),
{
    if ds.len() == 0 {
        acc
    } else {
        acc_digits(acc * 10 + digit_val(ds[0]), ds.drop_first())
    }
}

proof fn lemma_parse_number_run(ds: Seq<char>, rest: Seq<char>, acc: int)
    requires
        forall|i: int| 0 <= i < ds.len() ==> is_digit(#[trigger] ds[i]),
        rest.len() == 0 || !is_digit(rest[0]),
    ensures
        parse_number(ds + rest, acc) == (acc_digits(acc, ds), rest),
    decreases ds.len(),
{
    if ds.len() == 0 {
        assert(ds + rest =~= rest);
    } else {
        assert((ds + rest)[0] == ds[0]);
        assert((ds + rest).drop_first() =~= ds.drop_first() + rest);
        assert forall|i: int| 0 <= i < ds.drop_first().len()
            implies is_digit(#[trigger] ds.drop_first()[i]) by {
            assert(ds.drop_first()[i] == ds[i + 1]);
        }
        lemma_parse_number_run(ds.drop_first(), rest, acc * 10 + digit_val(ds[0]));
    }
}

proof fn lemma_acc_digits_push(acc: int, ds: Seq<char>, c: char)
    ensures
        acc_digits(acc, ds.push(c)) == acc_digits(acc, ds) * 10 + digit_val(c),
    decreases ds.len(),
{
    if ds.len() == 0 {
        assert(ds.push(c)[0] == c);
        assert(ds.push(c).drop_first() =~= Seq::<char>::empty());
        assert(acc_digits(acc * 10 + digit_val(c), Seq::<char>::empty()) == acc * 10 + digit_val(
            c,
        ));
        assert(acc_digits(acc, ds) == acc);
    } else {
        assert(ds.push(c)[0] == ds[0]);
        assert(ds.push(c).drop_first() =~= ds.drop_first().push(c));
        lemma_acc_digits_push(acc * 10 + digit_val(ds[0]), ds.drop_first(), c);
    }
}

proof fn lemma_digits_value(n: int)
    requires
        n >= 0,
    ensures
        acc_digits(0, spec_digits(n)) == n,
    decreases n,
{
    if n < 10 {
        lemma_digit_char_val(n);
        let ds = spec_digits(n);
        assert(ds[0] == spec_digit_char(n));
        assert(ds.drop_first() =~= Seq::<char>::empty());
        assert(acc_digits(0, ds) == acc_digits(digit_val(ds[0]), Seq::<char>::empty()));
        assert(acc_digits(digit_val(ds[0]), Seq::<char>::empty()) == digit_val(ds[0]));
    } else {
        lemma_digits_value(n / 10);
        lemma_digit_char_val(n % 10);
        lemma_acc_digits_push(0, spec_digits(n / 10), spec_digit_char(n % 10));
    }
}

/// A rendered number never starts with a superfluous zero.
proof fn lemma_digits_leading(n: int)
    requires
        n >= 1,
    ensures
        spec_digits(n)[0] != '0',
    decreases n,
{
    if n < 10 {
    } else {
        lemma_digits_leading(n / 10);
        lemma_digits_are_digits(n / 10);
        assert(spec_digits(n)[0] == spec_digits(n / 10)[0]);
    }
}

/// A rendered number followed by a non-digit parses back to that number.
proof fn lemma_parse_u32_render(n: u32, rest: Seq<char>)
    requires
        rest.len() == 0 || !is_digit(rest[0]),
    ensures
        parse_u32(spec_digits(n as int) + rest) == Some((n, rest)),
{
    let ds = spec_digits(n as int);
    let s = ds + rest;
    lemma_digits_are_digits(n as int);
    assert(s[0] == ds[0]);
    if n == 0 {
        assert(ds =~= seq![spec_digit_char(0)]);
        if s.len() > 1 {
            assert(s[1] == rest[0]);
        }
    } else {
        lemma_digits_leading(n as int);
    }
    lemma_parse_number_run(ds, rest, 0);
    lemma_digits_value(n as int);
}

/// An escaped string body, closing quote appended, parses back to the
/// original text.
proof fn lemma_parse_escaped(t: Seq<char>, rest: Seq<char>)
    ensures
        parse_string_body(escape_string(t) + (seq!['"'] + rest)) == Some((t, rest)),
    decreases t.len(),
{
    if t.len() == 0 {
        let s = escape_string(t) + (seq!['"'] + rest);
        assert(s =~= seq!['"'] + rest);
        assert(s[0] == '"');
        assert(s.drop_first() =~= rest);
    } else {
        let c = t[0];
        let t2 = t.drop_first();
        let inner = escape_string(t2) + (seq!['"'] + rest);
        let s = escape_string(t) + (seq!['"'] + rest);
        assert(s =~= esc1(c) + inner);
        lemma_parse_escaped(t2, rest);
        if c == '"' {
            assert(s[0] == '\\' && s[1] == '"');
            assert(is_simple_escape(s[1]));
            assert(s.skip(2) =~= inner);
            assert(unescape_char('"') == '"');
            assert(seq![c] + t2 =~= t);
        } else if c == '\\' {
            assert(s[0] == '\\' && s[1] == '\\');
            assert(is_simple_escape(s[1]));
            assert(s.skip(2) =~= inner);
            assert(seq![c] + t2 =~= t);
        } else if (c as u32) < 32 {
            let cu = c as u32 as int;
            let h = spec_hex_char(cu / 16);
            let l = spec_hex_char(cu % 16);
            assert(s[0] == '\\' && s[1] == 'u' && s[2] == '0' && s[3] == '0' && s[4] == h && s[5]
                == l);
            assert(!is_simple_escape('u'));
            lemma_hex_char_val(cu / 16);
            lemma_hex_char_val(cu % 16);
            assert(is_hex('0') && hex_val('0') == 0);
            assert(s.skip(6) =~= inner);
            assert(hex4_code(s) == hex_val(s[4]) * 16 + hex_val(s[5]));
            assert(hex4_code(s) == cu);
            assert(0 <= cu < 32);
            vstd::utf8::char_u32_cast(c, c as u32);
            assert(((c as u32) as char) == c);
            assert(hex4_code(s) as u32 == c as u32);
            assert(((hex4_code(s) as u32) as char) == c);
            assert(seq![c] + t2 =~= t);
        } else {
            assert(s[0] == c);
            assert(s.drop_first() =~= inner);
            assert(seq![c] + t2 =~= t);
        }
    }
}

proof fn lemma_ws_run(p: Seq<char>, rest: Seq<char>)
    requires
        forall|i: int| 0 <= i < p.len() ==> is_ws(#[trigger] p[i]),
        rest.len() == 0 || !is_ws(rest[0]),
    ensures
        skip_ws(p + rest) == rest,
{
    lemma_skip_ws_prefix(p, rest);
    lemma_skip_ws_no_ws(rest);
}

spec fn ws5() -> Seq<char> {
    seq!['\n', ' ', ' ', ' ', ' ']
}

spec fn sp1() -> Seq<char> {
    seq![' ']
}

spec fn ws3() -> Seq<char> {
    seq!['\n', ' ', ' ']
}

/// What the renderer writes after a record's last field value.
spec fn rend_close(rest: Seq<char>) -> Seq<char> {
    ws3() + (seq!['}'] + rest)
}

/// What the renderer writes from the comma before `completed` on.
spec fn rend_completed(completed: bool, rest: Seq<char>) -> Seq<char> {
    seq![','] + (ws5() + (tok_completed() + (seq![':'] + (sp1() + ((if completed {
        tok_true()
    } else {
        tok_false()
    }) + rend_close(rest))))))
}

/// What the renderer writes from the comma before `title` on.
spec fn rend_title(title: Seq<char>, completed: bool, rest: Seq<char>) -> Seq<char> {
    seq![','] + (ws5() + (tok_title() + (seq![':'] + (sp1() + (seq!['"'] + (escape_string(title)
        + (seq!['"'] + rend_completed(completed, rest))))))))
}

/// What the renderer writes from just after a record's opening brace on.
spec fn rend_id(t: TaskModel, rest: Seq<char>) -> Seq<char> {
    ws5() + (tok_id() + (seq![':'] + (sp1() + (spec_digits(t.id as int) + rend_title(
        t.title,
        t.completed,
        rest,
    )))))
}

proof fn lemma_ws5_all_ws()
    ensures
        forall|i: int| 0 <= i < ws5().len() ==> is_ws(#[trigger] ws5()[i]),
        forall|i: int| 0 <= i < sp1().len() ==> is_ws(#[trigger] sp1()[i]),
        forall|i: int| 0 <= i < ws3().len() ==> is_ws(#[trigger] ws3()[i]),
{
}

proof fn lemma_obj_completed(id: u32, title: Seq<char>, completed: bool, rest: Seq<char>)
    ensures
        parse_obj_fields(
            ws5() + (tok_completed() + (seq![':'] + (sp1() + ((if completed {
                tok_true()
            } else {
                tok_false()
            }) + rend_close(rest))))),
            Some(id),
            Some(title),
            None,
        ) == Some((TaskModel { id, title, completed }, rest)),
{
    let btok = if completed { tok_true() } else { tok_false() };
    let s = ws5() + (tok_completed() + (seq![':'] + (sp1() + (btok + rend_close(rest)))));
    let x2 = tok_completed() + (seq![':'] + (sp1() + (btok + rend_close(rest))));
    let x3 = seq![':'] + (sp1() + (btok + rend_close(rest)));
    let x4 = sp1() + (btok + rend_close(rest));
    let x5 = btok + rend_close(rest);
    lemma_ws5_all_ws();
    assert(x2[0] == '"' && !is_ws('"'));
    lemma_ws_run(ws5(), x2);
    // the key is "completed": neither of the other two keys matches
    assert(x2[1] == 'c' && tok_id()[1] == 'i' && tok_title()[1] == 't');
    assert(expect(x2, tok_id()) is None);
    assert(expect(x2, tok_title()) is None);
    lemma_expect_prefix(tok_completed(), x3);
    assert(x3[0] == ':' && !is_ws(':'));
    lemma_skip_ws_no_ws(x3);
    lemma_expect_prefix(seq![':'], x4);
    assert(x5[0] == btok[0]);
    assert(!is_ws('t') && !is_ws('f'));
    lemma_ws_run(sp1(), x5);
    if completed {
        lemma_expect_prefix(tok_true(), rend_close(rest));
        assert(parse_bool(x5) == Some((true, rend_close(rest))));
    } else {
        assert(x5.subrange(0, 4)[0] == 'f');
        assert(expect(x5, tok_true()) is None);
        lemma_expect_prefix(tok_false(), rend_close(rest));
        assert(parse_bool(x5) == Some((false, rend_close(rest))));
    }
    assert(parse_one_field(s, Some(id), Some(title), None) == Some(
        (Some(id), Some(title), Some(completed), rend_close(rest)),
    ));
    // after the field: the closing brace, with all three fields in hand
    let xc = seq!['}'] + rest;
    assert(xc[0] == '}' && !is_ws('}'));
    lemma_ws_run(ws3(), xc);
    assert(xc.drop_first() =~= rest);
}

proof fn lemma_obj_title(id: u32, title: Seq<char>, completed: bool, rest: Seq<char>)
    ensures
        parse_obj_fields(
            ws5() + (tok_title() + (seq![':'] + (sp1() + (seq!['"'] + (escape_string(title)
                + (seq!['"'] + rend_completed(completed, rest))))))),
            Some(id),
            None,
            None,
        ) == Some((TaskModel { id, title, completed }, rest)),
{
    let esc = escape_string(title);
    let rc = rend_completed(completed, rest);
    let s = ws5() + (tok_title() + (seq![':'] + (sp1() + (seq!['"'] + (esc + (seq!['"'] + rc))))));
    let x2 = tok_title() + (seq![':'] + (sp1() + (seq!['"'] + (esc + (seq!['"'] + rc)))));
    let x3 = seq![':'] + (sp1() + (seq!['"'] + (esc + (seq!['"'] + rc))));
    let x4 = sp1() + (seq!['"'] + (esc + (seq!['"'] + rc)));
    let x5 = seq!['"'] + (esc + (seq!['"'] + rc));
    let x6 = esc + (seq!['"'] + rc);
    lemma_ws5_all_ws();
    assert(x2[0] == '"' && !is_ws('"'));
    lemma_ws_run(ws5(), x2);
    // the key is "title": neither of the other two keys matches
    assert(x2[1] == 't' && tok_id()[1] == 'i');
    assert(expect(x2, tok_id()) is None);
    lemma_expect_prefix(tok_title(), x3);
    assert(x3[0] == ':' && !is_ws(':'));
    lemma_skip_ws_no_ws(x3);
    lemma_expect_prefix(seq![':'], x4);
    assert(x5[0] == '"' && !is_ws('"'));
    lemma_ws_run(sp1(), x5);
    lemma_expect_prefix(seq!['"'], x6);
    lemma_parse_escaped(title, rc);
    assert(parse_string_body(x6) == Some((title, rc)));
    assert(parse_one_field(s, Some(id), None, None) == Some(
        (Some(id), Some(title), None::<bool>, rc),
    ));
    // after the field: the comma, then the completed field
    assert(rc[0] == ',' && !is_ws(','));
    lemma_skip_ws_no_ws(rc);
    let f3 = ws5() + (tok_completed() + (seq![':'] + (sp1() + ((if completed {
        tok_true()
    } else {
        tok_false()
    }) + rend_close(rest)))));
    assert(rc.drop_first() =~= f3);
    assert(f3.len() < s.len());
    lemma_obj_completed(id, title, completed, rest);
}

proof fn lemma_obj_id(t: TaskModel, rest: Seq<char>)
    ensures
        parse_obj_fields(rend_id(t, rest), None, None, None) == Some((t, rest)),
{
    let digits = spec_digits(t.id as int);
    let rt = rend_title(t.title, t.completed, rest);
    let s = rend_id(t, rest);
    let x1 = tok_id() + (seq![':'] + (sp1() + (digits + rt)));
    let x2 = seq![':'] + (sp1() + (digits + rt));
    let x3 = sp1() + (digits + rt);
    let x4 = digits + rt;
    lemma_ws5_all_ws();
    assert(x1[0] == '"' && !is_ws('"'));
    lemma_ws_run(ws5(), x1);
    lemma_expect_prefix(tok_id(), x2);
    assert(x2[0] == ':' && !is_ws(':'));
    lemma_skip_ws_no_ws(x2);
    lemma_expect_prefix(seq![':'], x3);
    lemma_digits_are_digits(t.id as int);
    assert(x4[0] == digits[0] && is_digit(x4[0]) && !is_ws(x4[0]));
    lemma_ws_run(sp1(), x4);
    assert(rt[0] == ',' && !is_digit(','));
    lemma_parse_u32_render(t.id, rt);
    assert(parse_u32(x4) == Some((t.id, rt)));
    assert(parse_one_field(s, None, None, None) == Some(
        (Some(t.id), None::<Seq<char>>, None::<bool>, rt),
    ));
    // after the field: the comma, then the title field
    lemma_skip_ws_no_ws(rt);
    let f2 = ws5() + (tok_title() + (seq![':'] + (sp1() + (seq!['"'] + (escape_string(t.title)
        + (seq!['"'] + rend_completed(t.completed, rest)))))));
    assert(rt.drop_first() =~= f2);
    assert(f2.len() < s.len());
    lemma_obj_title(t.id, t.title, t.completed, rest);
    assert(TaskModel { id: t.id, title: t.title, completed: t.completed } == t);
}

/// A rendered record followed by anything parses back to that record.
#[verifier::rlimit(100)]
proof fn lemma_parse_render_obj(t: TaskModel, rest: Seq<char>)
    ensures
        parse_obj(render_obj(t) + rest) == Some((t, rest)),
{
    let s = render_obj(t) + rest;
    assert(s =~= seq!['{'] + rend_id(t, rest));
    lemma_expect_prefix(seq!['{'], rend_id(t, rest));
    lemma_obj_id(t, rest);
}

/// One or more rendered records, separated and closed as the renderer
/// writes them, parse back to those records.
proof fn lemma_parse_items_render(ts: Seq<TaskModel>, after: Seq<char>)
    requires
        ts.len() >= 1,
    ensures
        parse_items(render_obj(ts[0]) + (rest_items(ts.drop_first()) + (arr_close() + after)))
            == Some((ts, after)),
    decreases ts.len(),
{
    let ts2 = ts.drop_first();
    let s = render_obj(ts[0]) + (rest_items(ts2) + (arr_close() + after));
    if ts2.len() == 0 {
        let tail = arr_close() + after;
        assert(rest_items(ts2) + tail =~= tail);
        lemma_parse_render_obj(ts[0], tail);
        assert(parse_obj(s) == Some((ts[0], tail)));
        let ws1 = seq!['\n'];
        let x1 = seq![']'] + after;
        assert(tail =~= ws1 + x1);
        assert forall|i: int| 0 <= i < ws1.len() implies is_ws(#[trigger] ws1[i]) by {}
        assert(x1[0] == ']' && !is_ws(']'));
        lemma_ws_run(ws1, x1);
        assert(skip_ws(tail) == x1);
        assert(x1.drop_first() =~= after);
        assert(seq![ts[0]] =~= ts);
    } else {
        let inner = render_obj(ts2[0]) + (rest_items(ts2.drop_first()) + (arr_close() + after));
        let ws2 = seq!['\n', ' ', ' '];
        let x1 = ws2 + inner;
        let tail = seq![','] + x1;
        assert(rest_items(ts2) =~= arr_sep() + render_obj(ts2[0]) + rest_items(ts2.drop_first()));
        assert(rest_items(ts2) + (arr_close() + after) =~= tail);
        lemma_parse_render_obj(ts[0], tail);
        assert(parse_obj(s) == Some((ts[0], tail)));
        assert(tail[0] == ',' && !is_ws(','));
        lemma_skip_ws_no_ws(tail);
        assert(tail.drop_first() =~= x1);
        assert forall|i: int| 0 <= i < ws2.len() implies is_ws(#[trigger] ws2[i]) by {}
        assert(inner[0] == '{' && !is_ws('{'));
        lemma_ws_run(ws2, inner);
        lemma_parse_items_render(ts2, after);
        assert(inner.len() < s.len());
        assert(seq![ts[0]] + ts2 =~= ts);
    }
}

/// Round trip: rendering a collection and parsing the result yields the
/// collection again, exactly, for every collection.
pub proof fn lemma_render_parse_round_trip(ts: Seq<TaskModel>)
    ensures
        spec_parse_tasks(spec_render_tasks(ts)) == Some(ts),
{
    let s = spec_render_tasks(ts);
    if ts.len() == 0 {
        assert(s == seq!['[', ']']);
        assert(s[0] == '[' && !is_ws('['));
        lemma_skip_ws_no_ws(s);
        assert(s.drop_first() =~= seq![']']);
        assert(seq![']'][0] == ']' && !is_ws(']'));
        lemma_skip_ws_no_ws(seq![']']);
        assert(seq![']'].drop_first() =~= Seq::<char>::empty());
        assert(skip_ws(Seq::<char>::empty()).len() == 0);
        assert(spec_parse_tasks(s) == Some(Seq::<TaskModel>::empty()));
        assert(Seq::<TaskModel>::empty() =~= ts);
    } else {
        let ws2 = seq!['\n', ' ', ' '];
        let body = render_obj(ts[0]) + (rest_items(ts.drop_first()) + (arr_close()
            + Seq::<char>::empty()));
        assert(s =~= seq!['['] + (ws2 + body));
        assert(s[0] == '[' && !is_ws('['));
        lemma_skip_ws_no_ws(s);
        assert(s.drop_first() =~= ws2 + body);
        assert forall|i: int| 0 <= i < ws2.len() implies is_ws(#[trigger] ws2[i]) by {}
        assert(body[0] == '{' && !is_ws('{'));
        lemma_ws_run(ws2, body);
        lemma_parse_items_render(ts, Seq::<char>::empty());
        assert(parse_items(body) == Some((ts, Seq::<char>::empty())));
        assert(skip_ws(Seq::<char>::empty()).len() == 0);
    }
}

} // verus!

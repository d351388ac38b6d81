//! The text the commands report to the user: confirmation messages and the
//! listing table. Each function returns exactly the characters its spec
//! names; printing them is the caller's business.

use vstd::prelude::*;
use crate::task::{Task, TaskModel, models};
use crate::render::{spec_digits, push_digits};
use crate::text::chars_to_string;

verus! {

/// `n` spaces.
pub open spec fn spaces(n: int) -> Seq<char>
    decreases n,
{
    if n <= 0 {
        Seq::empty()
    } else {
        spaces(n - 1).push(' ')
    }
}

/// `s` padded on the right with spaces to width `n` (unchanged when
/// already that wide).
pub open spec fn pad_right(s: Seq<char>, n: int) -> Seq<char> {
    if s.len() >= n {
        s
    } else {
        s + spaces(n - s.len())
    }
}

/// The status column text of a task.
pub open spec fn spec_marker(completed: bool) -> Seq<char> {
    if completed {
        "[Hecho]"@
    } else {
        "[ ]"@
    }
}

/// The confirmation printed after adding a task.
pub open spec fn spec_add_message(id: u32, title: Seq<char>) -> Seq<char> {
    "Tarea agregada: ID "@ + spec_digits(id as int) + " - "@ + title
}

/// The confirmation printed after completing a task.
pub open spec fn spec_completed_message(id: u32) -> Seq<char> {
    "Tarea "@ + spec_digits(id as int) + " marcada como completada."@
}

/// The notice printed when no task carries the asked-for id.
pub open spec fn spec_not_found_message(id: u32) -> Seq<char> {
    "No se encontr\u{f3} la tarea con ID "@ + spec_digits(id as int) + "."@
}

/// One row of the listing table: id and status, each padded to its column,
/// then the title.
pub open spec fn spec_list_row(t: TaskModel) -> Seq<char> {
    pad_right(spec_digits(t.id as int), 5) + " | "@ + pad_right(spec_marker(t.completed), 10)
        + " | "@ + t.title
}

/// The decimal digits of `n` as a string.
fn digits_string(n: u32) -> (out: String)
    ensures
        out@ == spec_digits(n as int),
{
    let mut v: Vec<char> = Vec::new();
    push_digits(&mut v, n);
    proof {
        assert(Seq::<char>::empty() + spec_digits(n as int) =~= spec_digits(n as int));
    }
    chars_to_string(&v)
}

/// Appends spaces to `v` until it is `n` characters wide.
#[verifier::loop_isolation(false)]
fn pad_chars(v: &mut Vec<char>, n: usize)
    ensures
        final(v)@ == pad_right(old(v)@, n as int),
{
    let ghost base = v@;
    proof {
        assert(base + spaces(0) =~= base);
    }
    while v.len() < n
        invariant
            v@.len() >= base.len(),
            v@ == base + spaces(v@.len() - base.len()),
            v@.len() > base.len() ==> v@.len() <= n,
        decreases n - v@.len(),
    {
        proof {
            assert((base + spaces(v@.len() - base.len())).push(' ') =~= base + spaces(
                v@.len() + 1 - base.len(),
            ));
        }
        v.push(' ');
    }
    proof {
        if base.len() >= n {
            assert(v@ =~= base);
            assert(v@ =~= pad_right(base, n as int));
        } else {
            assert(v@.len() == n);
            assert(v@ =~= pad_right(base, n as int));
        }
    }
}

/// The message for a freshly added task.
pub fn add_message(id: u32, title: &str) -> (out: String)
    ensures
        out@ == spec_add_message(id, title@),
{
    let mut out = String::new();
    out.append("Tarea agregada: ID ");
    let d = digits_string(id);
    out.append(d.as_str());
    out.append(" - ");
    out.append(title);
    proof {
        assert(out@ =~= spec_add_message(id, title@));
    }
    out
}

/// The message for a task just marked completed.
pub fn completed_message(id: u32) -> (out: String)
    ensures
        out@ == spec_completed_message(id),
{
    let mut out = String::new();
    out.append("Tarea ");
    let d = digits_string(id);
    out.append(d.as_str());
    out.append(" marcada como completada.");
    proof {
        assert(out@ =~= spec_completed_message(id));
    }
    out
}

/// The notice for an id no task carries.
pub fn not_found_message(id: u32) -> (out: String)
    ensures
        out@ == spec_not_found_message(id),
{
    let mut out = String::new();
    out.append("No se encontr\u{f3} la tarea con ID ");
    let d = digits_string(id);
    out.append(d.as_str());
    out.append(".");
    proof {
        assert(out@ =~= spec_not_found_message(id));
    }
    out
}

/// The notice shown in place of the table when there are no tasks.
pub fn empty_list_message() -> (out: &'static str)
    ensures
        out@ == "No hay tareas registradas."@,
{
    "No hay tareas registradas."
}

/// The header row of the listing table.
pub fn list_header() -> (out: &'static str)
    ensures
        out@ == pad_right("ID"@, 5) + " | "@ + pad_right("Estado"@, 10) + " | "@ + "T\u{ed}tulo"@,
{
    proof {
        reveal_strlit("ID");
        reveal_strlit("Estado");
        reveal_strlit("T\u{ed}tulo");
        reveal_strlit("ID    | Estado     | T\u{ed}tulo");
        assert("ID    | Estado     | T\u{ed}tulo"@ =~= pad_right("ID"@, 5) + " | "@ + pad_right(
            "Estado"@,
            10,
        ) + " | "@ + "T\u{ed}tulo"@) by {
            reveal_strlit(" | ");
            reveal_with_fuel(spaces, 6);
            assert(spaces(3) =~= seq![' ', ' ', ' ']);
            assert(spaces(4) =~= seq![' ', ' ', ' ', ' ']);
        }
    }
    "ID    | Estado     | T\u{ed}tulo"
}

/// The rule under the header: forty dashes.
pub fn list_rule() -> (out: &'static str)
    ensures
        out@.len() == 40,
        forall|i: int| 0 <= i < out@.len() ==> out@[i] == '-',
{
    proof {
        reveal_strlit("----------------------------------------");
    }
    "----------------------------------------"
}

/// One listing row.
pub fn list_row(t: &Task) -> (out: String)
    ensures
        out@ == spec_list_row(t@),
{
    let mut v: Vec<char> = Vec::new();
    push_digits(&mut v, t.id);
    proof {
        assert(Seq::<char>::empty() + spec_digits(t.id as int) =~= spec_digits(t.id as int));
    }
    pad_chars(&mut v, 5);
    let mut out = chars_to_string(&v);
    out.append(" | ");
    let mut m: Vec<char> = Vec::new();
    if t.completed {
        m.push('[');
        m.push('H');
        m.push('e');
        m.push('c');
        m.push('h');
        m.push('o');
        m.push(']');
        proof {
            reveal_strlit("[Hecho]");
            assert(m@ =~= spec_marker(true));
        }
    } else {
        m.push('[');
        m.push(' ');
        m.push(']');
        proof {
            reveal_strlit("[ ]");
            assert(m@ =~= spec_marker(false));
        }
    }
    pad_chars(&mut m, 10);
    let ms = chars_to_string(&m);
    out.append(ms.as_str());
    out.append(" | ");
    out.append(t.title.as_str());
    proof {
        assert(out@ =~= spec_list_row(t@));
    }
    out
}

/// All the lines the `list` command prints, in order: the notice alone when
/// the collection is empty, else the header, the rule, and one row per task
/// in collection order.
#[verifier::loop_isolation(false)]
pub fn list_lines(tasks: &Vec<Task>) -> (out: Vec<String>)
    ensures
        tasks@.len() == 0 ==> out@.len() == 1 && out@[0]@ == "No hay tareas registradas."@,
        tasks@.len() > 0 ==> {
            &&& out@.len() == 2 + tasks@.len()
            &&& out@[0]@ == pad_right("ID"@, 5) + " | "@ + pad_right("Estado"@, 10) + " | "@
                + "T\u{ed}tulo"@
            &&& out@[1]@.len() == 40
            &&& forall|i: int| 0 <= i < out@[1]@.len() ==> out@[1]@[i] == '-'
            &&& forall|i: int| 0 <= i < tasks@.len()
                ==> (#[trigger] out@[i + 2])@ == spec_list_row(models(tasks@)[i])
        },
{
    let mut out: Vec<String> = Vec::new();
    if tasks.len() == 0 {
        let mut s = String::new();
        s.append(empty_list_message());
        out.push(s);
        return out;
    }
    let mut h = String::new();
    h.append(list_header());
    out.push(h);
    let mut r = String::new();
    r.append(list_rule());
    out.push(r);
    let mut i: usize = 0;
    while i < tasks.len()
        invariant
            i <= tasks@.len(),
            out@.len() == 2 + i,
            out@[0]@ == pad_right("ID"@, 5) + " | "@ + pad_right("Estado"@, 10) + " | "@
                + "T\u{ed}tulo"@,
            out@[1]@.len() == 40,
            forall|k: int| 0 <= k < out@[1]@.len() ==> out@[1]@[k] == '-',
            forall|k: int| 0 <= k < i ==> (#[trigger] out@[k + 2])@ == spec_list_row(
                models(tasks@)[k],
            ),
        decreases tasks@.len() - i,
    {
        let row = list_row(&tasks[i]);
        out.push(row);
        proof {
            assert(models(tasks@)[i as int] == tasks@[i as int]@);
        }
        i = i + 1;
    }
    out
}

} // verus!

//! The store seen as pure text: loading a collection from the persisted
//! text (or from no text at all, when the backing file does not exist), and
//! rendering a collection to the text to be persisted. Reading and writing
//! the file itself is the caller's business.

use vstd::prelude::*;
use crate::task::{Task, TaskModel, models, FormatError};
use crate::text::{is_unicode_ws, is_unicode_ws_exec, skip_ws, str_to_chars, chars_to_string};
use crate::parse::{spec_parse_tasks, parse_tasks_chars};
use crate::render::{spec_render_tasks, render_tasks_chars};

verus! {

/// Text that trims to nothing: nothing but Unicode whitespace (or nothing
/// at all).
pub open spec fn is_blank(s: Seq<char>) -> bool {
    forall|i: int| 0 <= i < s.len() ==> is_unicode_ws(#[trigger] s[i])
}

/// Whether the text trims to nothing.
#[verifier::loop_isolation(false)]
fn all_blank(v: &Vec<char>) -> (b: bool)
    ensures
        b == is_blank(v@),
{
    let mut i: usize = 0;
    while i < v.len()
        invariant
            i <= v@.len(),
            forall|k: int| 0 <= k < i ==> is_unicode_ws(#[trigger] v@[k]),
        decreases v@.len() - i,
    {
        if !is_unicode_ws_exec(v[i]) {
            return false;
        }
        i = i + 1;
    }
    true
}

/// Loads a collection from the persisted text. `None` stands for a backing
/// file that does not exist: that, like text that trims to nothing, is the
/// empty collection, not an error. Any other text is parsed: it fails with
/// `FormatError` exactly where the grammar refuses it.
pub fn load_tasks_from_text(content: Option<&str>) -> (r: Result<Vec<Task>, FormatError>)
    ensures
        match r {
            Ok(ts) => match content {
                Some(c) => if is_blank(c@) {
                    models(ts@) == Seq::<TaskModel>::empty()
                } else {
                    spec_parse_tasks(c@) == Some(models(ts@))
                },
                None => models(ts@) == Seq::<TaskModel>::empty(),
            },
            Err(_) => content matches Some(c) && !is_blank(c@) && spec_parse_tasks(c@) is None,
        },
        (content matches Some(c) && skip_ws(c@).len() > 0 && skip_ws(c@)[0] != '[' && !is_blank(
            c@,
        )) ==> r is Err,
{
    match content {
        None => {
            let ts: Vec<Task> = Vec::new();
            proof {
                assert(models(ts@) =~= Seq::<TaskModel>::empty());
            }
            Ok(ts)
        },
        Some(c) => {
            let chars = str_to_chars(c);
            if all_blank(&chars) {
                let ts: Vec<Task> = Vec::new();
                proof {
                    assert(models(ts@) =~= Seq::<TaskModel>::empty());
                }
                return Ok(ts);
            }
            match parse_tasks_chars(&chars) {
                Some(ts) => Ok(ts),
                None => Err(FormatError {}),
            }
        },
    }
}

/// Renders a collection to the text to be persisted: always exactly the
/// text of the grammar, so that loading it gives the collection back.
pub fn save_tasks_to_text(tasks: &Vec<Task>) -> (out: String)
    ensures
        out@ == spec_render_tasks(models(tasks@)),
        spec_parse_tasks(out@) == Some(models(tasks@)),
{
    proof {
        crate::roundtrip::lemma_render_parse_round_trip(models(tasks@));
    }
    let chars = render_tasks_chars(tasks);
    chars_to_string(&chars)
}

} // verus!

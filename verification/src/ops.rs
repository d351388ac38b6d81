//! Operations on the in-memory collection: id assignment, adding a task,
//! and marking a task complete.

use vstd::prelude::*;
use crate::task::{Task, TaskModel, models, ids_unique};

verus! {

/// The greatest id present in the collection, or 0 if the collection is
/// empty. The next task added gets this value plus one.
pub open spec fn spec_max_id(s: Seq<TaskModel>) -> int
    decreases s.len(),
{
    if s.len() == 0 {
        0
    } else {
        let rest = spec_max_id(s.drop_last());
        if s.last().id > rest {
            s.last().id as int
        } else {
            rest
        }
    }
}

pub proof fn lemma_max_id_bounds(s: Seq<TaskModel>)
    ensures
        0 <= spec_max_id(s),
        forall|i: int| 0 <= i < s.len() ==> s[i].id <= spec_max_id(s),
    decreases s.len(),
{
    if s.len() > 0 {
        lemma_max_id_bounds(s.drop_last());
        assert forall|i: int| 0 <= i < s.len() implies s[i].id <= spec_max_id(s) by {
            if i < s.len() - 1 {
                assert(s.drop_last()[i] == s[i]);
            }
        }
    }
}

/// The index of the first task carrying `id`, or -1 when no task does.
pub open spec fn spec_find(s: Seq<TaskModel>, id: u32) -> int
    decreases s.len(),
{
    if s.len() == 0 {
        -1
    } else if s[0].id == id {
        0
    } else {
        let r = spec_find(s.drop_first(), id);
        if r < 0 {
            -1
        } else {
            r + 1
        }
    }
}

pub proof fn lemma_find_props(s: Seq<TaskModel>, id: u32)
    ensures
        spec_find(s, id) < 0 ==> forall|i: int| 0 <= i < s.len() ==> s[i].id != id,
        spec_find(s, id) >= 0 ==> {
            let k = spec_find(s, id);
            &&& 0 <= k < s.len()
            &&& s[k].id == id
            &&& forall|i: int| 0 <= i < k ==> s[i].id != id
        },
    decreases s.len(),
{
    if s.len() > 0 && s[0].id != id {
        lemma_find_props(s.drop_first(), id);
        assert forall|i: int| 1 <= i < s.len() implies s[i].id == s.drop_first()[i - 1].id by {}
    }
}

/// The greatest id in use, computed by a scan of the collection.
pub fn max_id(tasks: &Vec<Task>) -> (m: u32)
    ensures
        m == spec_max_id(models(tasks@)),
{
    let ghost all = models(tasks@);
    let mut m: u32 = 0;
    let mut i: usize = 0;
    proof {
        assert(all.subrange(0, 0) =~= Seq::<TaskModel>::empty());
    }
    while i < tasks.len()
        invariant
            i <= tasks@.len(),
            all == models(tasks@),
            m == spec_max_id(all.subrange(0, i as int)),
        decreases tasks@.len() - i,
    {
        let t_id = tasks[i].id;
        proof {
            let p = all.subrange(0, i + 1);
            assert(p.drop_last() =~= all.subrange(0, i as int));
            assert(p.last() == tasks@[i as int]@);
        }
        if t_id > m {
            m = t_id;
        }
        i = i + 1;
    }
    proof {
        assert(all.subrange(0, tasks@.len() as int) =~= all);
    }
    m
}

/// Appends a fresh task titled `title`, assigning it an id one greater than
/// the greatest id in use (1 on an empty collection). The new task starts
/// not completed, and every task already present keeps a strictly smaller id.
pub fn add_task(tasks: &mut Vec<Task>, title: String) -> (new_id: u32)
    requires
        spec_max_id(models(old(tasks)@)) < u32::MAX,
    ensures
        new_id == spec_max_id(models(old(tasks)@)) + 1,
        models(final(tasks)@) == models(old(tasks)@).push(
            TaskModel { id: new_id, title: title@, completed: false },
        ),
        forall|i: int| 0 <= i < old(tasks)@.len()
            ==> (#[trigger] models(old(tasks)@)[i]).id < new_id,
{
    proof {
        lemma_max_id_bounds(models(tasks@));
    }
    let m = max_id(tasks);
    let new_id = m + 1;
    let t = Task { id: new_id, title, completed: false };
    let ghost before = models(tasks@);
    let ghost tm = t@;
    tasks.push(t);
    proof {
        assert(models(tasks@) =~= before.push(tm));
    }
    new_id
}

/// Adding a task with an id above every id in use keeps ids unique.
pub proof fn lemma_add_keeps_ids_unique(s: Seq<TaskModel>, t: TaskModel)
    requires
        ids_unique(s),
        forall|i: int| 0 <= i < s.len() ==> (#[trigger] s[i]).id < t.id,
    ensures
        ids_unique(s.push(t)),
{
    let p = s.push(t);
    assert forall|i: int, j: int| 0 <= i < j < p.len() implies p[i].id != p[j].id by {
        if j < s.len() {
            assert(p[i] == s[i] && p[j] == s[j]);
        } else {
            assert(p[j] == t && p[i] == s[i]);
        }
    }
}

/// Across two consecutive additions the assigned ids grow strictly, whatever
/// the titles: the second id is the first plus one, and uniqueness of ids is
/// kept.
pub proof fn lemma_add_ids_strictly_increasing(s: Seq<TaskModel>, t1: TaskModel, t2: TaskModel)
    requires
        t1.id == spec_max_id(s) + 1,
        t1.id <= u32::MAX,
        t2.id == spec_max_id(s.push(t1)) + 1,
    ensures
        spec_max_id(s.push(t1)) == t1.id,
        t2.id == t1.id + 1,
        ids_unique(s) ==> ids_unique(s.push(t1).push(t2)),
{
    lemma_max_id_bounds(s);
    let p = s.push(t1);
    assert(p.drop_last() =~= s);
    assert(p.last() == t1);
    assert(spec_max_id(p) == t1.id);
    if ids_unique(s) {
        assert forall|i: int| 0 <= i < s.len() implies (#[trigger] s[i]).id < t1.id by {}
        lemma_add_keeps_ids_unique(s, t1);
        lemma_max_id_bounds(p);
        assert forall|i: int| 0 <= i < p.len() implies (#[trigger] p[i]).id < t2.id by {}
        lemma_add_keeps_ids_unique(p, t2);
    }
}

/// Marks the first task carrying `id` (the only one, when ids are unique) as
/// completed, leaving its id and title and every other task untouched.
/// Returns whether such a task was found; when none is, the collection is
/// left exactly as it was.
#[verifier::loop_isolation(false)]
pub fn complete_task(tasks: &mut Vec<Task>, id: u32) -> (found: bool)
    ensures
        found == (spec_find(models(old(tasks)@), id) >= 0),
        found ==> models(final(tasks)@) == ({
            let s = models(old(tasks)@);
            let k = spec_find(s, id);
            s.update(k, TaskModel { id: s[k].id, title: s[k].title, completed: true })
        }),
        !found ==> models(final(tasks)@) == models(old(tasks)@),
{
    let ghost all = models(tasks@);
    proof {
        lemma_find_props(all, id);
    }
    let mut i: usize = 0;
    while i < tasks.len()
        invariant
            i <= tasks@.len(),
            all == models(tasks@),
            forall|j: int| 0 <= j < i ==> (#[trigger] all[j]).id != id,
        decreases tasks@.len() - i,
    {
        if tasks[i].id == id {
            proof {
                lemma_find_first_at(all, id, i as int);
            }
            let te = &mut tasks[i];
            te.completed = true;
            proof {
                let k = i as int;
                assert(models(tasks@) =~= all.update(
                    k,
                    TaskModel { id: all[k].id, title: all[k].title, completed: true },
                ));
            }
            return true;
        }
        i = i + 1;
    }
    proof {
        if spec_find(all, id) >= 0 {
            lemma_find_props(all, id);
        }
    }
    false
}

/// When every index below `k` misses `id` and `k` hits it, `k` is the first
/// match.
proof fn lemma_find_first_at(s: Seq<TaskModel>, id: u32, k: int)
    requires
        0 <= k < s.len(),
        s[k].id == id,
        forall|j: int| 0 <= j < k ==> (#[trigger] s[j]).id != id,
    ensures
        spec_find(s, id) == k,
    decreases s.len(),
{
    if k > 0 {
        assert forall|j: int| 0 <= j < k - 1 implies (#[trigger] s.drop_first()[j]).id != id by {
            assert(s.drop_first()[j] == s[j + 1]);
        }
        lemma_find_first_at(s.drop_first(), id, k - 1);
    }
}

} // verus!

use vstd::prelude::*;
use crate::task::{
    add_spec, complete_spec, remove_spec, restored, lemma_add_wf, lemma_complete_wf,
    lemma_remove_wf, lemma_unique_position, ListView, TaskView,
};

verus! {

/// One change to a task list, as a value.
pub enum Step {
    Add(Seq<char>),
    Complete(nat),
    Remove(nat),
}

/// The list after `steps`, and the identifiers that their additions got, in order.
pub open spec fn run_steps(l: ListView, steps: Seq<Step>) -> (ListView, Seq<nat>)
    decreases steps.len(),
{
    if steps.len() == 0 {
        (l, Seq::empty())
    } else {
        let (m, ids) = run_steps(l, steps.drop_last());
        match steps.last() {
            Step::Add(title) => (add_spec(m, title), ids.push(m.next_id)),
            Step::Complete(id) => (complete_spec(m, id), ids),
            Step::Remove(id) => (remove_spec(m, id), ids),
        }
    }
}

/// Over any sequence of additions, completions and removals, the identifiers
/// handed out rise strictly (so none repeats), and each is above every
/// identifier that the list held at the start.
pub proof fn lemma_ids_increase(l: ListView, steps: Seq<Step>)
    requires
        l.wf(),
    ensures
        run_steps(l, steps).0.wf(),
        run_steps(l, steps).0.next_id >= l.next_id,
        forall|i: int, j: int|
            0 <= i < j < run_steps(l, steps).1.len() ==> run_steps(l, steps).1[i]
                < run_steps(l, steps).1[j],
        forall|i: int|
            0 <= i < run_steps(l, steps).1.len() ==> l.next_id <= #[trigger] run_steps(
                l,
                steps,
            ).1[i] < run_steps(l, steps).0.next_id,
        forall|i: int, k: int|
            0 <= i < run_steps(l, steps).1.len() && 0 <= k < l.tasks.len() ==> #[trigger] l.tasks[k].id
                < #[trigger] run_steps(l, steps).1[i],
    decreases steps.len(),
{
    if steps.len() > 0 {
        lemma_ids_increase(l, steps.drop_last());
        let (m, ids) = run_steps(l, steps.drop_last());
        match steps.last() {
            Step::Add(title) => lemma_add_wf(m, title),
            Step::Complete(id) => lemma_complete_wf(m, id),
            Step::Remove(id) => lemma_remove_wf(m, id),
        }
        let r = run_steps(l, steps).1;
        assert forall|i: int| 0 <= i < r.len() implies l.next_id <= #[trigger] r[i]
            < run_steps(l, steps).0.next_id by {
            if i < ids.len() {
                assert(r[i] == ids[i]);
            }
        }
        assert forall|i: int, k: int| 0 <= i < r.len() && 0 <= k < l.tasks.len() implies #[trigger] l.tasks[k].id
            < #[trigger] r[i] by {
            assert(l.tasks[k].id < l.next_id);
        }
    }
}

/// A well-formed list is rebuilt from its own tasks and counter exactly as
/// it was.
pub proof fn lemma_store_round_trip(l: ListView)
    requires
        l.wf(),
    ensures
        restored(l.tasks, l.next_id) == Some(l),
{
}

/// Completing an identifier that a task carries marks that task completed
/// and leaves every other task, and the counter, as they were; completing
/// one that no task carries changes nothing.
pub proof fn lemma_complete_effect(l: ListView, id: nat)
    requires
        l.wf(),
    ensures
        complete_spec(l, id).next_id == l.next_id,
        complete_spec(l, id).tasks.len() == l.tasks.len(),
        forall|i: int|
            0 <= i < l.tasks.len() && l.tasks[i].id == id ==> #[trigger] complete_spec(l, id).tasks[i]
                == (TaskView { completed: true, ..l.tasks[i] }),
        forall|i: int|
            0 <= i < l.tasks.len() && l.tasks[i].id != id ==> #[trigger] complete_spec(l, id).tasks[i]
                == l.tasks[i],
        !l.has_id(id) ==> complete_spec(l, id) == l,
{
    if !l.has_id(id) {
        assert(complete_spec(l, id).tasks =~= l.tasks);
    }
}

/// Removing an identifier that a task carries deletes exactly that task and
/// keeps the others in their order; removing one that no task carries
/// changes nothing.
pub proof fn lemma_remove_effect(l: ListView, id: nat)
    requires
        l.wf(),
    ensures
        remove_spec(l, id).next_id == l.next_id,
        l.has_id(id) ==> exists|i: int|
            0 <= i < l.tasks.len() && #[trigger] l.tasks[i].id == id && remove_spec(l, id).tasks
                == l.tasks.remove(i),
        l.has_id(id) ==> !remove_spec(l, id).has_id(id),
        !l.has_id(id) ==> remove_spec(l, id) == l,
{
    if l.has_id(id) {
        let i = choose|i: int| 0 <= i < l.tasks.len() && #[trigger] l.tasks[i].id == id;
        let r = remove_spec(l, id);
        assert forall|j: int| 0 <= j < r.tasks.len() implies #[trigger] r.tasks[j].id != id by {
            let k = if j < i { j } else { j + 1 };
            assert(r.tasks[j] == l.tasks[k]);
            if l.tasks[k].id == id {
                lemma_unique_position(l, i, k);
            }
        }
    }
}

} // verus!

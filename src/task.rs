use vstd::prelude::*;

verus! {

/// The mathematical value of a task.
pub struct TaskView {
    pub id: nat,
    pub title: Seq<char>,
    pub completed: bool,
}

/// The mathematical value of a task list: its tasks in insertion order and
/// the identifier that the next added task receives.
pub struct ListView {
    pub tasks: Seq<TaskView>,
    pub next_id: nat,
}

/// Identifiers rise strictly along the sequence (so no two are equal).
pub open spec fn ids_ascending(tasks: Seq<TaskView>) -> bool {
    forall|i: int, j: int| 0 <= i < j < tasks.len() ==> tasks[i].id < tasks[j].id
}

impl ListView {
    /// Every identifier is positive and below the counter, and identifiers
    /// rise along the list.
    pub open spec fn wf(self) -> bool {
        &&& self.next_id >= 1
        &&& ids_ascending(self.tasks)
        &&& forall|i: int| 0 <= i < self.tasks.len() ==> 0 < #[trigger] self.tasks[i].id < self.next_id
    }

    /// Whether some task carries identifier `id`.
    pub open spec fn has_id(self, id: nat) -> bool {
        exists|i: int| 0 <= i < self.tasks.len() && #[trigger] self.tasks[i].id == id
    }
}

/// The empty list, whose first task will get identifier 1.
pub open spec fn empty_list() -> ListView {
    ListView { tasks: Seq::empty(), next_id: 1 }
}

/// Appends an open task with the counter's identifier and advances the counter.
pub open spec fn add_spec(l: ListView, title: Seq<char>) -> ListView {
    ListView {
        tasks: l.tasks.push(TaskView { id: l.next_id, title, completed: false }),
        next_id: l.next_id + 1,
    }
}

/// Marks every task with identifier `id` as completed; the rest stay as they are.
pub open spec fn complete_spec(l: ListView, id: nat) -> ListView {
    ListView {
        tasks: l.tasks.map_values(
            |t: TaskView|
                if t.id == id {
                    TaskView { completed: true, ..t }
                } else {
                    t
                },
        ),
        next_id: l.next_id,
    }
}

/// Deletes the task with identifier `id`, if there is one; the others keep
/// their order.
pub open spec fn remove_spec(l: ListView, id: nat) -> ListView {
    if l.has_id(id) {
        let i = choose|i: int| 0 <= i < l.tasks.len() && #[trigger] l.tasks[i].id == id;
        ListView { tasks: l.tasks.remove(i), next_id: l.next_id }
    } else {
        l
    }
}

/// Adding keeps a list well formed.
pub proof fn lemma_add_wf(l: ListView, title: Seq<char>)
    requires
        l.wf(),
    ensures
        add_spec(l, title).wf(),
{
    let r = add_spec(l, title);
    assert forall|i: int| 0 <= i < r.tasks.len() implies 0 < #[trigger] r.tasks[i].id < r.next_id by {
        if i < l.tasks.len() {
            assert(r.tasks[i] == l.tasks[i]);
        }
    }
}

/// Completing keeps a list well formed.
pub proof fn lemma_complete_wf(l: ListView, id: nat)
    requires
        l.wf(),
    ensures
        complete_spec(l, id).wf(),
{
    let r = complete_spec(l, id);
    assert forall|i: int| 0 <= i < r.tasks.len() implies r.tasks[i].id == l.tasks[i].id by {}
}

/// Removing keeps a list well formed.
pub proof fn lemma_remove_wf(l: ListView, id: nat)
    requires
        l.wf(),
    ensures
        remove_spec(l, id).wf(),
{
    if l.has_id(id) {
        let i = choose|i: int| 0 <= i < l.tasks.len() && #[trigger] l.tasks[i].id == id;
        let r = remove_spec(l, id);
        assert forall|j: int| 0 <= j < r.tasks.len() implies #[trigger] r.tasks[j] == (if j < i {
            l.tasks[j]
        } else {
            l.tasks[j + 1]
        }) by {}
        assert forall|a: int, b: int| 0 <= a < b < r.tasks.len() implies r.tasks[a].id
            < r.tasks[b].id by {
            assert(r.tasks[a] == (if a < i { l.tasks[a] } else { l.tasks[a + 1] }));
            assert(r.tasks[b] == (if b < i { l.tasks[b] } else { l.tasks[b + 1] }));
        }
        assert forall|j: int| 0 <= j < r.tasks.len() implies 0 < #[trigger] r.tasks[j].id
            < r.next_id by {
            assert(r.tasks[j] == (if j < i { l.tasks[j] } else { l.tasks[j + 1] }));
        }
    }
}

/// In a well-formed list at most one task carries a given identifier.
pub proof fn lemma_unique_position(l: ListView, i: int, k: int)
    requires
        l.wf(),
        0 <= i < l.tasks.len(),
        0 <= k < l.tasks.len(),
        l.tasks[i].id == l.tasks[k].id,
    ensures
        i == k,
{
    if i < k {
        assert(l.tasks[i].id < l.tasks[k].id);
    } else if k < i {
        assert(l.tasks[k].id < l.tasks[i].id);
    }
}

/// Why stored parts do not make a task list.
#[derive(Debug, PartialEq, Eq, Structural)]
pub enum StoreError {
    /// An identifier is zero, not below the counter, or not above the one
    /// before it.
    Inconsistent,
}

/// The views of stored tasks.
pub open spec fn views_of(tasks: Seq<Task>) -> Seq<TaskView> {
    tasks.map_values(|t: Task| t@)
}

/// The list that stored parts describe, where they describe a well-formed one.
pub open spec fn restored(tasks: Seq<TaskView>, next_id: nat) -> Option<ListView> {
    let l = ListView { tasks, next_id };
    if l.wf() {
        Some(l)
    } else {
        None
    }
}

/// A single to-do item.
pub struct Task {
    pub id: usize,
    pub title: String,
    pub completed: bool,
}

impl View for Task {
    type V = TaskView;

    open spec fn view(&self) -> TaskView {
        TaskView { id: self.id as nat, title: self.title@, completed: self.completed }
    }
}

/// The tasks in insertion order, and the counter of identifiers.
pub struct TodoList {
    tasks: Vec<Task>,
    next_id: usize,
}

impl View for TodoList {
    type V = ListView;

    closed spec fn view(&self) -> ListView {
        ListView { tasks: views_of(self.tasks@), next_id: self.next_id as nat }
    }
}

impl TodoList {
    /// The list's value is well formed (see `ListView::wf`).
    pub open spec fn wf(&self) -> bool {
        self@.wf()
    }

    /// An empty list whose first task gets identifier 1.
    pub fn new() -> (r: TodoList)
        ensures
            r@ == empty_list(),
            r.wf(),
    {
        let r = TodoList { tasks: Vec::new(), next_id: 1 };
        assert(r@.tasks =~= Seq::<TaskView>::empty());
        r
    }

    /// Appends an open task titled `title` and returns the identifier it got.
    pub fn add_task(&mut self, title: String) -> (id: usize)
        requires
            old(self).wf(),
            old(self)@.next_id < usize::MAX,
        ensures
            id as nat == old(self)@.next_id,
            final(self)@ == add_spec(old(self)@, title@),
            final(self).wf(),
    {
        proof {
            lemma_add_wf(self@, title@);
        }
        let ghost title_view = title@;
        let id = self.next_id;
        self.tasks.push(Task { id, title, completed: false });
        self.next_id = self.next_id + 1;
        assert(self@.tasks =~= add_spec(old(self)@, title_view).tasks);
        id
    }

    /// The position of the task with identifier `id`, if any.
    fn position(&self, id: usize) -> (r: Option<usize>)
        requires
            self.wf(),
        ensures
            match r {
                Some(k) => k < self@.tasks.len() && self@.tasks[k as int].id == id as nat,
                None => !self@.has_id(id as nat),
            },
    {
        let mut i: usize = 0;
        while i < self.tasks.len()
            invariant
                i <= self.tasks.len(),
                forall|j: int| 0 <= j < i ==> self.tasks@[j].id != id,
            decreases self.tasks.len() - i,
        {
            if self.tasks[i].id == id {
                assert(self@.tasks[i as int] == self.tasks@[i as int]@);
                return Some(i);
            }
            i = i + 1;
        }
        assert forall|j: int| 0 <= j < self@.tasks.len() implies #[trigger] self@.tasks[j].id
            != id as nat by {
            assert(self@.tasks[j] == self.tasks@[j]@);
        }
        None
    }

    /// Marks the task with identifier `id` as completed. An identifier that
    /// no task carries leaves the list as it is (no error).
    pub fn complete_task(&mut self, id: usize)
        requires
            old(self).wf(),
        ensures
            final(self)@ == complete_spec(old(self)@, id as nat),
            final(self).wf(),
    {
        proof {
            lemma_complete_wf(self@, id as nat);
        }
        match self.position(id) {
            Some(k) => {
                let mut t = self.tasks.remove(k);
                t.completed = true;
                self.tasks.insert(k, t);
                let ghost target = complete_spec(old(self)@, id as nat);
                assert forall|j: int| 0 <= j < self@.tasks.len() implies #[trigger] self@.tasks[j]
                    == target.tasks[j] by {
                    if j != k && old(self)@.tasks[j].id == id as nat {
                        lemma_unique_position(old(self)@, j, k as int);
                    }
                }
                assert(self@.tasks =~= target.tasks);
            },
            None => {
                assert(self@.tasks =~= complete_spec(old(self)@, id as nat).tasks);
            },
        }
    }

    /// Deletes the task with identifier `id`, keeping the order of the rest.
    /// An identifier that no task carries leaves the list as it is (no error).
    pub fn remove_task(&mut self, id: usize)
        requires
            old(self).wf(),
        ensures
            final(self)@ == remove_spec(old(self)@, id as nat),
            final(self).wf(),
    {
        proof {
            lemma_remove_wf(self@, id as nat);
        }
        match self.position(id) {
            Some(k) => {
                self.tasks.remove(k);
                let ghost l = old(self)@;
                let ghost i = choose|i: int| 0 <= i < l.tasks.len() && #[trigger] l.tasks[i].id
                    == id as nat;
                proof {
                    lemma_unique_position(l, i, k as int);
                }
                assert(self@.tasks =~= l.tasks.remove(k as int));
            },
            None => {},
        }
    }
    /// Rebuilds a list from its stored tasks and counter, accepted exactly
    /// when they form a well-formed list.
    pub fn from_parts(tasks: Vec<Task>, next_id: usize) -> (r: Result<TodoList, StoreError>)
        ensures
            match r {
                Ok(l) => restored(views_of(tasks@), next_id as nat) == Some(l@) && l.wf(),
                Err(e) => restored(views_of(tasks@), next_id as nat) is None && e
                    == StoreError::Inconsistent,
            },
    {
        let ghost v = views_of(tasks@);
        if next_id == 0 {
            return Err(StoreError::Inconsistent);
        }
        let mut i: usize = 0;
        while i < tasks.len()
            invariant
                i <= tasks.len(),
                v == views_of(tasks@),
                forall|a: int, b: int| 0 <= a < b < i ==> v[a].id < v[b].id,
                forall|a: int| 0 <= a < i ==> 0 < #[trigger] v[a].id < next_id,
            decreases tasks.len() - i,
        {
            let id = tasks[i].id;
            if id == 0 || id >= next_id || (i > 0 && tasks[i - 1].id >= id) {
                assert(!ListView { tasks: v, next_id: next_id as nat }.wf()) by {
                    if i > 0 && tasks[i - 1].id >= id {
                        assert(v[i - 1].id >= v[i as int].id);
                    } else {
                        assert(v[i as int].id == id);
                    }
                }
                return Err(StoreError::Inconsistent);
            }
            assert(v[i as int].id == id);
            i = i + 1;
        }
        let l = TodoList { tasks, next_id };
        assert(l@ == ListView { tasks: v, next_id: next_id as nat });
        Ok(l)
    }

    /// The list that was stored, or an empty one where nothing was stored.
    pub fn from_stored(stored: Option<(Vec<Task>, usize)>) -> (r: Result<TodoList, StoreError>)
        ensures
            match stored {
                None => r matches Ok(l) && l@ == empty_list() && l.wf(),
                Some((tasks, next_id)) => match r {
                    Ok(l) => restored(views_of(tasks@), next_id as nat) == Some(l@) && l.wf(),
                    Err(e) => restored(views_of(tasks@), next_id as nat) is None && e
                        == StoreError::Inconsistent,
                },
            },
    {
        match stored {
            None => Ok(TodoList::new()),
            Some((tasks, next_id)) => TodoList::from_parts(tasks, next_id),
        }
    }

    /// Gives up the list's tasks and counter, for storing.
    pub fn into_parts(self) -> (r: (Vec<Task>, usize))
        ensures
            views_of(r.0@) == self@.tasks,
            r.1 as nat == self@.next_id,
    {
        (self.tasks, self.next_id)
    }

    /// The tasks, in insertion order.
    pub fn tasks(&self) -> (r: &Vec<Task>)
        ensures
            views_of(r@) == self@.tasks,
    {
        &self.tasks
    }

    /// The identifier that the next added task gets.
    pub fn next_id(&self) -> (r: usize)
        ensures
            r as nat == self@.next_id,
    {
        self.next_id
    }
}

} // verus!

//! The store of all task lists, keyed by list id.
//!
//! A list becomes resident the first time an operation names it: the one
//! that was loaded for it, or else an empty list whose first id is `1`.
//! Resident lists are never dropped.

use vstd::prelude::*;
use vstd::string::*;

use crate::tasks::{
    claim_spec, create_spec, dep_completed, incomplete_deps, listing, lookup, opt_strings_view,
    opt_task_view, opt_view, tasks_view, update_spec, Task, TaskError, TaskErrorView, TaskList,
    TaskListView, TaskStatus, TaskView,
};
use crate::text::str_eq;

verus! {

/// The map from list id to list that the ids and lists stand for.
pub open spec fn store_map(ids: Seq<Seq<char>>, lists: Seq<TaskListView>) -> Map<
    Seq<char>,
    TaskListView,
> {
    Map::new(
        |k: Seq<char>| ids.contains(k),
        |k: Seq<char>| lists[choose|i: int| 0 <= i < ids.len() && ids[i] == k],
    )
}

/// No list id occurs twice.
pub open spec fn keys_unique(ids: Seq<Seq<char>>) -> bool {
    forall|i: int, j: int| #![trigger ids[i], ids[j]] 0 <= i < j < ids.len() ==> ids[i] != ids[j]
}

/// The list that operations on `k` act on: the resident one, or a fresh one.
pub open spec fn resident(m: Map<Seq<char>, TaskListView>, k: Seq<char>) -> TaskListView {
    if m.contains_key(k) {
        m[k]
    } else {
        TaskListView::empty()
    }
}

proof fn lemma_store_lookup(ids: Seq<Seq<char>>, lists: Seq<TaskListView>, i: int)
    requires
        keys_unique(ids),
        ids.len() == lists.len(),
        0 <= i < ids.len(),
    ensures
        store_map(ids, lists).contains_key(ids[i]),
        store_map(ids, lists)[ids[i]] == lists[i],
{
    assert(ids[i] == ids[i]);
    let j = choose|j: int| 0 <= j < ids.len() && ids[j] == ids[i];
    if j < i {
        assert(ids[j] != ids[i]);
    } else if j > i {
        assert(ids[i] != ids[j]);
    }
}

proof fn lemma_store_set(ids: Seq<Seq<char>>, lists: Seq<TaskListView>, i: int, l: TaskListView)
    requires
        keys_unique(ids),
        ids.len() == lists.len(),
        0 <= i < ids.len(),
    ensures
        store_map(ids, lists.update(i, l)) == store_map(ids, lists).insert(ids[i], l),
{
    let a = store_map(ids, lists.update(i, l));
    let b = store_map(ids, lists).insert(ids[i], l);
    assert forall|k: Seq<char>| a.contains_key(k) implies a[k] == b[k] by {
        let j = choose|j: int| 0 <= j < ids.len() && ids[j] == k;
        if k == ids[i] {
            lemma_store_lookup(ids, lists.update(i, l), i);
        } else {
            assert(j != i);
        }
    }
    assert(a =~= b);
}

proof fn lemma_store_push(ids: Seq<Seq<char>>, lists: Seq<TaskListView>, k: Seq<char>, l: TaskListView)
    requires
        keys_unique(ids),
        ids.len() == lists.len(),
        !ids.contains(k),
    ensures
        keys_unique(ids.push(k)),
        store_map(ids.push(k), lists.push(l)) == store_map(ids, lists).insert(k, l),
{
    let ids2 = ids.push(k);
    let lists2 = lists.push(l);
    assert forall|i: int, j: int| 0 <= i < j < ids2.len() implies ids2[i] != ids2[j] by {
        if j == ids.len() {
            assert(ids2[i] == ids[i]);
        }
    }
    let a = store_map(ids2, lists2);
    let b = store_map(ids, lists).insert(k, l);
    assert forall|x: Seq<char>| a.contains_key(x) <==> b.contains_key(x) by {
        if ids2.contains(x) && x != k {
            let j = choose|j: int| 0 <= j < ids2.len() && ids2[j] == x;
            assert(ids[j] == x);
        }
        if ids.contains(x) {
            let j = choose|j: int| 0 <= j < ids.len() && ids[j] == x;
            assert(ids2[j] == x);
        }
        if x == k {
            assert(ids2[ids.len() as int] == x);
        }
    }
    assert forall|x: Seq<char>| a.contains_key(x) implies a[x] == b[x] by {
        if x == k {
            lemma_store_lookup(ids2, lists2, ids.len() as int);
        } else {
            let j = choose|j: int| 0 <= j < ids.len() && ids[j] == x;
            lemma_store_lookup(ids2, lists2, j);
            lemma_store_lookup(ids, lists, j);
        }
    }
    assert(a =~= b);
}

/// A task result as plain values.
pub open spec fn result_view(r: Result<Task, TaskError>) -> Result<TaskView, TaskErrorView> {
    match r {
        Ok(t) => Ok(t@),
        Err(e) => Err(e@),
    }
}

/// How a mutation of list `k` with list-level outcome `outcome` leaves the
/// store and what it returns: on success the new list replaces the old one;
/// on failure the list is left as it was.
pub open spec fn mutation(
    before: Map<Seq<char>, TaskListView>,
    k: Seq<char>,
    outcome: Result<(TaskListView, TaskView), TaskErrorView>,
    after: Map<Seq<char>, TaskListView>,
    r: Result<TaskView, TaskErrorView>,
) -> bool {
    match outcome {
        Ok((l, t)) => after == before.insert(k, l) && r == Ok::<TaskView, TaskErrorView>(t),
        Err(e) => after == before.insert(k, resident(before, k)) && r == Err::<
            TaskView,
            TaskErrorView,
        >(e),
    }
}

/// The outcome of `create` on list `k`: the counter must have room.
pub open spec fn create_outcome(
    before: Map<Seq<char>, TaskListView>,
    k: Seq<char>,
    subject: Seq<char>,
    description: Seq<char>,
    now: u64,
) -> Result<(TaskListView, TaskView), TaskErrorView> {
    let l = resident(before, k);
    if l.next_id < u64::MAX {
        Ok(create_spec(l, subject, description, now))
    } else {
        Err(TaskErrorView::IdsExhausted)
    }
}

/// All task lists that are resident, each under its list id.
#[derive(Debug)]
pub struct TaskStore {
    list_ids: Vec<String>,
    lists: Vec<TaskList>,
}

impl View for TaskStore {
    type V = Map<Seq<char>, TaskListView>;

    closed spec fn view(&self) -> Map<Seq<char>, TaskListView> {
        store_map(
            self.list_ids@.map_values(|s: String| s@),
            self.lists@.map_values(|l: TaskList| l@),
        )
    }
}

impl TaskStore {
    /// One list per id, ids unique, and every list well formed.
    pub closed spec fn wf(&self) -> bool {
        &&& self.list_ids.len() == self.lists.len()
        &&& keys_unique(self.list_ids@.map_values(|s: String| s@))
        &&& forall|i: int| 0 <= i < self.lists.len() ==> (#[trigger] self.lists@[i])@.wf()
    }

    /// Every resident list is well formed.
    pub proof fn lemma_wf_lists(&self)
        requires
            self.wf(),
        ensures
            forall|k: Seq<char>| #[trigger] self@.contains_key(k) ==> self@[k].wf(),
    {
        let ids = self.list_ids@.map_values(|s: String| s@);
        let lists = self.lists@.map_values(|l: TaskList| l@);
        assert forall|k: Seq<char>| #[trigger] self@.contains_key(k) implies self@[k].wf() by {
            let j = choose|j: int| 0 <= j < ids.len() && ids[j] == k;
            lemma_store_lookup(ids, lists, j);
            assert(self.lists@[j]@.wf());
        }
    }

    /// A store with no resident list.
    pub fn new() -> (r: TaskStore)
        ensures
            r.wf(),
            r@ == Map::<Seq<char>, TaskListView>::empty(),
    {
        let r = TaskStore { list_ids: Vec::new(), lists: Vec::new() };
        assert(r@ =~= Map::<Seq<char>, TaskListView>::empty());
        r
    }

    fn index_of(&self, list_id: &str) -> (r: Option<usize>)
        requires
            self.wf(),
        ensures
            match r {
                Some(i) => i < self.lists.len() && self.list_ids@[i as int]@ == list_id@
                    && self@.contains_key(list_id@) && self@[list_id@] == self.lists@[i as int]@,
                None => !self@.contains_key(list_id@),
            },
    {
        let ghost ids = self.list_ids@.map_values(|s: String| s@);
        let ghost lists = self.lists@.map_values(|l: TaskList| l@);
        let mut i: usize = 0;
        while i < self.list_ids.len()
            invariant
                self.wf(),
                ids == self.list_ids@.map_values(|s: String| s@),
                lists == self.lists@.map_values(|l: TaskList| l@),
                i <= self.list_ids.len(),
                forall|j: int| 0 <= j < i ==> ids[j] != list_id@,
            decreases self.list_ids.len() - i,
        {
            if str_eq(self.list_ids[i].as_str(), list_id) {
                proof {
                    lemma_store_lookup(ids, lists, i as int);
                }
                return Some(i);
            }
            i = i + 1;
        }
        proof {
            if ids.contains(list_id@) {
                let j = choose|j: int| 0 <= j < ids.len() && ids[j] == list_id@;
                assert(ids[j] != list_id@);
            }
        }
        None
    }

    /// Whether the list is resident.
    pub fn is_loaded(&self, list_id: &str) -> (r: bool)
        requires
            self.wf(),
        ensures
            r == self@.contains_key(list_id@),
    {
        self.index_of(list_id).is_some()
    }

    /// Make `list` resident under `list_id`, unless a list is resident there
    /// already.
    pub fn load(&mut self, list_id: &str, list: TaskList)
        requires
            old(self).wf(),
            list@.wf(),
        ensures
            final(self).wf(),
            final(self)@ == (if old(self)@.contains_key(list_id@) {
                old(self)@
            } else {
                old(self)@.insert(list_id@, list@)
            }),
    {
        if self.index_of(list_id).is_none() {
            self.push_list(list_id, list);
        }
    }

    fn push_list(&mut self, list_id: &str, list: TaskList)
        requires
            old(self).wf(),
            list@.wf(),
            !old(self)@.contains_key(list_id@),
        ensures
            final(self).wf(),
            final(self)@ == old(self)@.insert(list_id@, list@),
            final(self).lists.len() == old(self).lists.len() + 1,
            final(self).lists@[old(self).lists.len() as int]@ == list@,
            final(self).list_ids@[old(self).lists.len() as int]@ == list_id@,
    {
        let ghost ids = self.list_ids@.map_values(|s: String| s@);
        let ghost lists = self.lists@.map_values(|l: TaskList| l@);
        proof {
            lemma_store_push(ids, lists, list_id@, list@);
        }
        self.list_ids.push(String::from_str(list_id));
        self.lists.push(list);
        assert(self.list_ids@.map_values(|s: String| s@) =~= ids.push(list_id@));
        assert(self.lists@.map_values(|l: TaskList| l@) =~= lists.push(list@));
    }

    /// The position of the list, made resident first if it was not.
    fn ensure_list(&mut self, list_id: &str) -> (r: usize)
        requires
            old(self).wf(),
        ensures
            final(self).wf(),
            final(self)@ == old(self)@.insert(list_id@, resident(old(self)@, list_id@)),
            r < final(self).lists.len(),
            final(self).list_ids@[r as int]@ == list_id@,
            final(self).lists@[r as int]@ == resident(old(self)@, list_id@),
    {
        match self.index_of(list_id) {
            Some(i) => {
                assert(self@ =~= self@.insert(list_id@, self@[list_id@]));
                i
            },
            None => {
                let n = self.lists.len();
                let l = TaskList::new();
                self.push_list(list_id, l);
                n
            },
        }
    }

    /// Take the list at `i` out, leaving an empty one in its place.
    fn take_list(&mut self, i: usize) -> (r: TaskList)
        requires
            old(self).wf(),
            i < old(self).lists.len(),
        ensures
            final(self).list_ids == old(self).list_ids,
            final(self).lists@ == old(self).lists@.update(i as int, final(self).lists@[i as int]),
            final(self).lists.len() == old(self).lists.len(),
            r == old(self).lists@[i as int],
            final(self).lists@[i as int]@.wf(),
            final(self)@ == old(self)@.insert(
                old(self).list_ids@[i as int]@,
                final(self).lists@[i as int]@,
            ),
    {
        let ghost ids = self.list_ids@.map_values(|s: String| s@);
        let ghost lists = self.lists@.map_values(|l: TaskList| l@);
        let mut l = TaskList::new();
        proof {
            lemma_store_set(ids, lists, i as int, l@);
        }
        self.lists.set_and_swap(i, &mut l);
        assert(self.lists@.map_values(|l: TaskList| l@) =~= lists.update(i as int, TaskListView::empty()));
        l
    }

    /// Put `list` back at `i`.
    fn put_list(&mut self, i: usize, list: TaskList)
        requires
            old(self).list_ids.len() == old(self).lists.len(),
            keys_unique(old(self).list_ids@.map_values(|s: String| s@)),
            forall|j: int|
                0 <= j < old(self).lists.len() && j != i ==> (#[trigger] old(self).lists@[j])@.wf(),
            i < old(self).lists.len(),
            list@.wf(),
        ensures
            final(self).wf(),
            final(self).list_ids == old(self).list_ids,
            final(self).lists@ == old(self).lists@.update(i as int, list),
            final(self)@ == old(self)@.insert(old(self).list_ids@[i as int]@, list@),
    {
        let ghost ids = self.list_ids@.map_values(|s: String| s@);
        let ghost lists = self.lists@.map_values(|l: TaskList| l@);
        proof {
            lemma_store_set(ids, lists, i as int, list@);
        }
        self.lists.set(i, list);
        assert(self.lists@.map_values(|l: TaskList| l@) =~= lists.update(i as int, list@));
    }

    /// Create a task in the list `list_id`.
    pub fn create(&mut self, list_id: &str, subject: String, description: String, now: u64) -> (r:
        Result<Task, TaskError>)
        requires
            old(self).wf(),
        ensures
            final(self).wf(),
            mutation(
                old(self)@,
                list_id@,
                create_outcome(old(self)@, list_id@, subject@, description@, now),
                final(self)@,
                result_view(r),
            ),
    {
        let i = self.ensure_list(list_id);
        let ghost mid = self@;
        if self.lists[i].next_id == u64::MAX {
            assert(mid =~= old(self)@.insert(list_id@, resident(old(self)@, list_id@)));
            return Err(TaskError::IdsExhausted);
        }
        let mut l = self.take_list(i);
        let t = l.create(subject, description, now);
        self.put_list(i, l);
        assert(self@ =~= old(self)@.insert(list_id@, create_spec(resident(old(self)@, list_id@), subject@, description@, now).0));
        Ok(t)
    }

    /// Update the given fields of task `task_id` in list `list_id`.
    pub fn update(
        &mut self,
        list_id: &str,
        task_id: &str,
        status: Option<TaskStatus>,
        subject: Option<String>,
        description: Option<String>,
        owner: Option<String>,
        blocked_by: Option<Vec<String>>,
        now: u64,
    ) -> (r: Result<Task, TaskError>)
        requires
            old(self).wf(),
        ensures
            final(self).wf(),
            mutation(
                old(self)@,
                list_id@,
                update_spec(
                    resident(old(self)@, list_id@),
                    task_id@,
                    status,
                    opt_view(subject),
                    opt_view(description),
                    opt_view(owner),
                    opt_strings_view(blocked_by),
                    now,
                ),
                final(self)@,
                result_view(r),
            ),
    {
        let i = self.ensure_list(list_id);
        let mut l = self.take_list(i);
        let r = l.update(task_id, status, subject, description, owner, blocked_by, now);
        self.put_list(i, l);
        proof {
            let res = resident(old(self)@, list_id@);
            assert(self@ =~= old(self)@.insert(list_id@, self.lists@[i as int]@));
            if r is Err {
                assert(self.lists@[i as int]@ == res);
            }
        }
        r
    }

    /// Claim task `task_id` of list `list_id` for `owner`.
    pub fn claim(&mut self, list_id: &str, task_id: &str, owner: &str, now: u64) -> (r: Result<
        Task,
        TaskError,
    >)
        requires
            old(self).wf(),
        ensures
            final(self).wf(),
            mutation(
                old(self)@,
                list_id@,
                claim_spec(resident(old(self)@, list_id@), task_id@, owner@, now),
                final(self)@,
                result_view(r),
            ),
    {
        let i = self.ensure_list(list_id);
        let mut l = self.take_list(i);
        let r = l.claim(task_id, owner, now);
        self.put_list(i, l);
        proof {
            let res = resident(old(self)@, list_id@);
            assert(self@ =~= old(self)@.insert(list_id@, self.lists@[i as int]@));
            if r is Err {
                assert(self.lists@[i as int]@ == res);
            }
        }
        r
    }

    /// The tasks of list `list_id` that pass the filter, ascending by
    /// numeric id.
    pub fn list_tasks(&mut self, list_id: &str, status_filter: Option<TaskStatus>) -> (r: Vec<Task>)
        requires
            old(self).wf(),
        ensures
            final(self).wf(),
            final(self)@ == old(self)@.insert(list_id@, resident(old(self)@, list_id@)),
            listing(resident(old(self)@, list_id@).tasks, status_filter, tasks_view(r@)),
    {
        let i = self.ensure_list(list_id);
        self.lists[i].list_tasks(status_filter)
    }

    /// A copy of task `task_id` of list `list_id`, if present.
    pub fn get(&mut self, list_id: &str, task_id: &str) -> (r: Option<Task>)
        requires
            old(self).wf(),
        ensures
            final(self).wf(),
            final(self)@ == old(self)@.insert(list_id@, resident(old(self)@, list_id@)),
            opt_task_view(r) == lookup(resident(old(self)@, list_id@).tasks, task_id@),
    {
        let i = self.ensure_list(list_id);
        self.lists[i].get(task_id)
    }

    /// A copy of the resident list `list_id`, as it would be written out.
    pub fn snapshot(&self, list_id: &str) -> (r: Option<TaskList>)
        requires
            self.wf(),
        ensures
            match r {
                Some(l) => self@.contains_key(list_id@) && l@ == self@[list_id@],
                None => !self@.contains_key(list_id@),
            },
    {
        match self.index_of(list_id) {
            Some(i) => Some(self.lists[i].duplicate()),
            None => None,
        }
    }
}

/// A claim succeeds exactly when the task is pending and every id it is
/// blocked by names a completed task; a failed claim leaves the list, and so
/// the task, as it was.
pub proof fn lemma_claim_gate(
    before: Map<Seq<char>, TaskListView>,
    k: Seq<char>,
    task_id: Seq<char>,
    owner: Seq<char>,
    now: u64,
    after: Map<Seq<char>, TaskListView>,
    r: Result<TaskView, TaskErrorView>,
)
    requires
        mutation(before, k, claim_spec(resident(before, k), task_id, owner, now), after, r),
        lookup(resident(before, k).tasks, task_id) is Some,
    ensures
        ({
            let l = resident(before, k);
            let t = lookup(l.tasks, task_id)->Some_0;
            r is Ok <==> (t.status == TaskStatus::Pending && forall|d: Seq<char>|
                #[trigger] t.blocked_by.contains(d) ==> dep_completed(l.tasks, d))
        }),
        r is Err ==> after.contains_key(k) && after[k] == resident(before, k),
{
    let l = resident(before, k);
    let t = lookup(l.tasks, task_id)->Some_0;
    let p = |d: Seq<char>| !dep_completed(l.tasks, d);
    let blocked = incomplete_deps(l.tasks, t.blocked_by);
    if blocked.len() > 0 {
        let d = blocked[0];
        t.blocked_by.lemma_filter_pred(p, 0);
        assert(p(d));
        assert(blocked.contains(d));
        assert(t.blocked_by.filter(p).contains(d));
        t.blocked_by.lemma_filter_contains_rev(p, d);
        assert(t.blocked_by.contains(d));
    } else {
        assert forall|d: Seq<char>| #[trigger] t.blocked_by.contains(d) implies dep_completed(l.tasks, d) by {
            let i = choose|i: int| 0 <= i < t.blocked_by.len() && t.blocked_by[i] == d;
            if !dep_completed(l.tasks, d) {
                t.blocked_by.lemma_filter_contains(p, i);
            }
        }
    }
}

} // verus!

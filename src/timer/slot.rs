use std::collections::HashMap;

use vstd::prelude::*;

use crate::task::task::Task;
use crate::task::TaskId;

verus! {

broadcast use vstd::std_specs::hash::group_hash_axioms;

/// One bucket of a wheel: the tasks placed there, by id.
pub struct Slot<R> {
    task_map: HashMap<TaskId, Task<R>>,
}

impl<R> View for Slot<R> {
    type V = Map<TaskId, Task<R>>;

    closed spec fn view(&self) -> Map<TaskId, Task<R>> {
        self.task_map@
    }
}

/// Relies on `HashMap::shrink_to`: it only gives back capacity, the entries
/// stay as they are.
#[verifier::external_body]
fn shrink_map_to<R>(m: &mut HashMap<TaskId, Task<R>>, min_capacity: usize)
    ensures
        final(m)@ == old(m)@,
{
    m.shrink_to(min_capacity)
}

/// The capacity a slot keeps when it is shrunk.
pub const SLOT_SHRINK_CAPACITY: usize = 128;

impl<R> Slot<R> {
    /// Every task is stored under its own id.
    pub open spec fn wf(&self) -> bool {
        forall|id: TaskId| #[trigger] self@.contains_key(id) ==> self@[id].task_id == id
    }

    pub fn new() -> (r: Slot<R>)
        ensures
            r@ == Map::<TaskId, Task<R>>::empty(),
            r.wf(),
    {
        Slot { task_map: HashMap::new() }
    }

    /// Inserts `task`, replacing the task of the same id; returns the one replaced.
    pub fn add_task(&mut self, task: Task<R>) -> (r: Option<Task<R>>)
        ensures
            final(self)@ == old(self)@.insert(task.task_id, task),
            r == (if old(self)@.contains_key(task.task_id) {
                Some(old(self)@[task.task_id])
            } else {
                None
            }),
            old(self).wf() ==> final(self).wf(),
    {
        let id = task.task_id;
        self.task_map.insert(id, task)
    }

    /// Replaces the task of the same id as `task`, or inserts it; returns the
    /// one replaced.
    pub fn update_task(&mut self, task: Task<R>) -> (r: Option<Task<R>>)
        ensures
            final(self)@ == old(self)@.insert(task.task_id, task),
            r == (if old(self)@.contains_key(task.task_id) {
                Some(old(self)@[task.task_id])
            } else {
                None
            }),
            old(self).wf() ==> final(self).wf(),
    {
        let id = task.task_id;
        match self.task_map.remove(&id) {
            Some(previous) => {
                self.task_map.insert(id, task);
                proof {
                    assert(final(self)@ =~= old(self)@.insert(id, task));
                }
                Some(previous)
            },
            None => self.task_map.insert(id, task),
        }
    }

    /// Removes the task `task_id` and returns it.
    pub fn remove_task(&mut self, task_id: TaskId) -> (r: Option<Task<R>>)
        ensures
            final(self)@ == old(self)@.remove(task_id),
            r == (if old(self)@.contains_key(task_id) {
                Some(old(self)@[task_id])
            } else {
                None
            }),
            old(self).wf() ==> final(self).wf(),
    {
        self.task_map.remove(&task_id)
    }

    /// Whether a task `task_id` is in the slot.
    pub fn contains_task(&self, task_id: TaskId) -> (r: bool)
        ensures
            r == self@.contains_key(task_id),
    {
        self.task_map.contains_key(&task_id)
    }

    /// The ids of all tasks in the slot, each once, in no particular order.
    pub fn task_ids(&self) -> (r: Vec<TaskId>)
        ensures
            r@.to_set() == self@.dom(),
            r@.no_duplicates(),
    {
        let mut ids: Vec<TaskId> = Vec::new();
        for k in it: self.task_map.keys()
            invariant
                ids@ == it.seq().take(it.index() as int).unref(),
                ids@.len() == it.index(),
                it.seq().unref().to_set() == self@.dom(),
                it.seq().unref().no_duplicates(),
                it.seq().len() == self@.dom().len(),
                ids@.no_duplicates(),
                forall|x: TaskId| ids@.contains(x) ==> #[trigger] self@.dom().contains(x),
        {
            proof {
                let all = it.seq().unref();
                let next = ids@.push(*k);
                assert(next =~= it.seq().take(it.index() + 1).unref());
                assert(all[it.index() as int] == *k);
                assert(all.to_set().contains(*k));
                assert(!ids@.contains(*k)) by {
                    if ids@.contains(*k) {
                        let j = choose|j: int| 0 <= j < ids@.len() && ids@[j] == *k;
                        assert(all[j] == all[it.index() as int]);
                    }
                }
            }
            ids.push(*k);
        }
        proof {
            ids@.unique_seq_to_set();
            assert(ids@.to_set().subset_of(self@.dom()));
            vstd::set_lib::lemma_subset_equality(ids@.to_set(), self@.dom());
        }
        ids
    }

    /// The ids of the tasks in the slot that have arrived, each once, in no
    /// particular order.
    pub fn arrival_time_tasks(&self) -> (r: Vec<TaskId>)
        ensures
            r@.to_set() == self@.dom().filter(|id: TaskId| self@[id].cascade_guide.arrived()),
            r@.no_duplicates(),
    {
        let ids = self.task_ids();
        let mut arrived: Vec<TaskId> = Vec::new();
        let mut i: usize = 0;
        while i < ids.len()
            invariant
                i <= ids.len(),
                ids@.to_set() == self@.dom(),
                ids@.no_duplicates(),
                arrived@.no_duplicates(),
                forall|x: TaskId|
                    #![trigger arrived@.contains(x)]
                    arrived@.contains(x) <==> (ids@.take(i as int).contains(x)
                        && self@[x].cascade_guide.arrived()),
            decreases ids.len() - i,
        {
            let id = ids[i];
            assert(self@.contains_key(id)) by {
                assert(ids@.contains(id));
            }
            assert(ids@.take(i + 1) == ids@.take(i as int).push(id));
            assert(!ids@.take(i as int).contains(id)) by {
                if ids@.take(i as int).contains(id) {
                    let j = choose|j: int| 0 <= j < i && ids@.take(i as int)[j] == id;
                    assert(ids@[j] == ids@[i as int]);
                }
            }
            let arrives = match self.task_map.get(&id) {
                Some(t) => t.is_arrived(),
                None => false,
            };
            assert(arrives == self@[id].cascade_guide.arrived());
            let ghost prev = arrived@;
            assert(!prev.contains(id));
            if arrives {
                arrived.push(id);
            }
            proof {
                let before = ids@.take(i as int);
                let after = ids@.take(i + 1);
                assert forall|x: TaskId| after.contains(x) <==> (before.contains(x) || x == id) by {
                    if after.contains(x) && x != id {
                        let j = choose|j: int| 0 <= j < after.len() && after[j] == x;
                        assert(before[j] == x);
                    }
                    if before.contains(x) {
                        let j = choose|j: int| 0 <= j < before.len() && before[j] == x;
                        assert(after[j] == x);
                    }
                    if x == id {
                        assert(after[i as int] == x);
                    }
                }
                assert forall|x: TaskId|
                    #![trigger arrived@.contains(x)]
                    arrived@.contains(x) <==> (after.contains(x)
                        && self@[x].cascade_guide.arrived()) by {
                    if arrived@.contains(x) && x != id {
                        let j = choose|j: int| 0 <= j < arrived@.len() && arrived@[j] == x;
                        assert(prev[j] == x);
                        assert(prev.contains(x));
                        assert(before.contains(x) && self@[x].cascade_guide.arrived());
                    }
                    if arrived@.contains(x) && x == id {
                        assert(arrives);
                    }
                    if after.contains(x) && x != id && self@[x].cascade_guide.arrived() {
                        assert(prev.contains(x));
                        let j = choose|j: int| 0 <= j < prev.len() && prev[j] == x;
                        assert(arrived@[j] == x);
                    }
                    if x == id && arrives {
                        assert(arrived@[prev.len() as int] == id);
                    }
                }
            }
            i = i + 1;
        }
        proof {
            assert forall|x: TaskId|
                arrived@.to_set().contains(x) <==> self@.dom().filter(
                    |id: TaskId| self@[id].cascade_guide.arrived(),
                ).contains(x) by {
                assert(ids@.take(ids.len() as int) == ids@);
                if self@.dom().contains(x) && self@[x].cascade_guide.arrived() {
                    assert(ids@.to_set().contains(x));
                    assert(arrived@.contains(x));
                }
            }
            assert(arrived@.to_set() =~= self@.dom().filter(
                |id: TaskId| self@[id].cascade_guide.arrived(),
            ));
        }
        arrived
    }

    /// Gives back unused capacity; the tasks stay.
    pub fn shrink(&mut self)
        ensures
            final(self)@ == old(self)@,
    {
        shrink_map_to(&mut self.task_map, SLOT_SHRINK_CAPACITY);
    }

    /// Empties the slot and returns its tasks, each once, in no particular order.
    pub fn take_tasks(self) -> (r: Vec<Task<R>>)
        requires
            self.wf(),
        ensures
            r@.len() == self@.dom().len(),
            r@.map_values(|t: Task<R>| t.task_id).to_set() == self@.dom(),
            r@.map_values(|t: Task<R>| t.task_id).no_duplicates(),
            forall|i: int| 0 <= i < r@.len() ==> #[trigger] r@[i] == self@[r@[i].task_id],
    {
        let ids = self.task_ids();
        let ghost all = self@;
        let mut map = self.task_map;
        let mut tasks: Vec<Task<R>> = Vec::new();
        let mut i: usize = 0;
        while i < ids.len()
            invariant
                i <= ids.len(),
                ids@.to_set() == all.dom(),
                ids@.no_duplicates(),
                forall|id: TaskId| #[trigger] all.contains_key(id) ==> all[id].task_id == id,
                tasks@.len() == i,
                forall|j: int| 0 <= j < i ==> #[trigger] tasks@[j] == all[ids@[j]],
                forall|j: int| 0 <= j < i ==> all.contains_key(#[trigger] ids@[j]),
                map@ == all.remove_keys(ids@.take(i as int).to_set()),
            decreases ids.len() - i,
        {
            let id = ids[i];
            assert(all.contains_key(id)) by {
                assert(ids@.contains(id));
            }
            assert(!ids@.take(i as int).contains(id)) by {
                if ids@.take(i as int).contains(id) {
                    let j = choose|j: int| 0 <= j < i && ids@.take(i as int)[j] == id;
                    assert(ids@[j] == ids@[i as int]);
                }
            }
            assert(ids@.take(i + 1) == ids@.take(i as int).push(id));
            assert forall|x: TaskId|
                ids@.take(i + 1).contains(x) <==> (ids@.take(i as int).contains(x) || x == id) by {
                let before = ids@.take(i as int);
                let after = ids@.take(i + 1);
                if after.contains(x) && x != id {
                    let j = choose|j: int| 0 <= j < after.len() && after[j] == x;
                    assert(before[j] == x);
                }
                if before.contains(x) {
                    let j = choose|j: int| 0 <= j < before.len() && before[j] == x;
                    assert(after[j] == x);
                }
                if x == id {
                    assert(after[i as int] == x);
                }
            }
            assert(ids@.take(i + 1).to_set() =~= ids@.take(i as int).to_set().insert(id));
            let removed = map.remove(&id);
            assert(map@ =~= all.remove_keys(ids@.take(i + 1).to_set()));
            match removed {
                Some(t) => {
                    tasks.push(t);
                },
                None => {
                    assert(false);
                },
            }
            i = i + 1;
        }
        proof {
            let r_ids = tasks@.map_values(|t: Task<R>| t.task_id);
            assert(r_ids =~= ids@);
            ids@.unique_seq_to_set();
        }
        tasks
    }
}

} // verus!

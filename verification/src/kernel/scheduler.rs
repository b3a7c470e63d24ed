use vstd::prelude::*;
use crate::task::{Task, TaskModel, TaskState};
use crate::context::Context;

verus! {

/// The run queue: tasks ordered by priority, the one at the front runs.
pub struct Scheduler {
    list: Vec<Task>,
}

/// Whether priorities never rise from front to back.
pub open spec fn sorted(s: Seq<TaskModel>) -> bool {
    forall|i: int, j: int| 0 <= i < j < s.len() ==> s[i].priority >= s[j].priority
}

/// The first index at or after `i` whose task has a lower priority than `p`
/// (the length when there is none).
pub open spec fn scan(s: Seq<TaskModel>, p: usize, i: int) -> int
    decreases s.len() - i,
{
    if 0 <= i < s.len() && p <= s[i].priority {
        scan(s, p, i + 1)
    } else {
        i
    }
}

/// Where a task of priority `p` joins the queue: at the front, unless the
/// front task has a higher priority; then behind every task from the front
/// on whose priority is at least `p`.
pub open spec fn add_index(s: Seq<TaskModel>, p: usize) -> int {
    if s.len() > 0 && s[0].priority > p {
        scan(s, p, 0)
    } else {
        0
    }
}

/// The tasks of the queue, front first.
pub open spec fn views(l: Seq<Task>) -> Seq<TaskModel> {
    l.map_values(|t: Task| t@)
}

proof fn lemma_scan_bounds(s: Seq<TaskModel>, p: usize, i: int)
    requires
        0 <= i <= s.len(),
    ensures
        i <= scan(s, p, i) <= s.len(),
        forall|j: int| i <= j < scan(s, p, i) ==> p <= #[trigger] s[j].priority,
        scan(s, p, i) < s.len() ==> s[scan(s, p, i)].priority < p,
    decreases s.len() - i,
{
    if i < s.len() && p <= s[i].priority {
        lemma_scan_bounds(s, p, i + 1);
    }
}

/// The position of a newly added task: every task before it has at least its
/// priority, and the task after it, if any, has less (or, when the task goes
/// to the front, at most the new task's priority).
pub proof fn lemma_add_index(s: Seq<TaskModel>, p: usize)
    ensures
        0 <= add_index(s, p) <= s.len(),
        forall|j: int| 0 <= j < add_index(s, p) ==> p <= #[trigger] s[j].priority,
        add_index(s, p) < s.len() ==> s[add_index(s, p)].priority <= p,
{
    if s.len() > 0 && s[0].priority > p {
        lemma_scan_bounds(s, p, 0);
    }
}

/// Adding keeps the queue ordered: in a queue whose priorities never rise
/// from front to back, the added task lands where they still never rise.
pub proof fn lemma_add_keeps_sorted(s: Seq<TaskModel>, t: TaskModel)
    requires
        sorted(s),
    ensures
        sorted(s.insert(add_index(s, t.priority), t)),
{
    lemma_add_index(s, t.priority);
    let k = add_index(s, t.priority);
    let r = s.insert(k, t);
    assert forall|i: int, j: int| 0 <= i < j < r.len() implies r[i].priority >= r[j].priority by {
        if j < k {
        } else if j == k {
            assert(p_le(t.priority, s[i].priority));
        } else if i == k {
            if k == 0 && s.len() > 0 && !(s[0].priority > t.priority) {
                assert(s[0].priority >= s[j - 1].priority);
            } else {
                assert(s[k].priority <= t.priority);
                assert(s[k].priority >= s[j - 1].priority || k == j - 1);
            }
        } else if i < k {
            assert(s[i].priority >= s[j - 1].priority);
        } else {
            assert(s[i - 1].priority >= s[j - 1].priority);
        }
    }
}

spec fn p_le(a: usize, b: usize) -> bool {
    a <= b
}

/// Changing a task without changing its priority keeps the queue ordered.
pub proof fn lemma_update_keeps_sorted(s: Seq<TaskModel>, i: int, t: TaskModel)
    requires
        sorted(s),
        0 <= i < s.len(),
        t.priority == s[i].priority,
    ensures
        sorted(s.update(i, t)),
{
    let r = s.update(i, t);
    assert forall|a: int, b: int| 0 <= a < b < r.len() implies r[a].priority >= r[b].priority by {
        assert(r[a].priority == s[a].priority && r[b].priority == s[b].priority);
    }
}

/// The highest priority is at the front of an ordered queue.
pub proof fn lemma_front_has_highest_priority(s: Seq<TaskModel>)
    requires
        sorted(s),
        s.len() > 0,
    ensures
        forall|j: int| 0 <= j < s.len() ==> s[0].priority >= #[trigger] s[j].priority,
{
    assert forall|j: int| 0 <= j < s.len() implies s[0].priority >= #[trigger] s[j].priority by {
        if j > 0 {
        }
    }
}

/// Popping keeps the queue ordered.
pub proof fn lemma_pop_keeps_sorted(s: Seq<TaskModel>)
    requires
        sorted(s),
        s.len() > 0,
    ensures
        sorted(s.subrange(1, s.len() as int)),
{
    let r = s.subrange(1, s.len() as int);
    assert forall|i: int, j: int| 0 <= i < j < r.len() implies r[i].priority >= r[j].priority by {
        assert(r[i] == s[i + 1] && r[j] == s[j + 1]);
    }
}

impl Scheduler {
    /// The queued tasks, front first.
    pub closed spec fn tasks(&self) -> Seq<TaskModel> {
        views(self.list@)
    }

    /// An empty queue.
    pub fn new() -> (s: Scheduler)
        ensures
            s.tasks() == Seq::<TaskModel>::empty(),
    {
        let s = Scheduler { list: Vec::new() };
        proof {
            assert(s.tasks() =~= Seq::<TaskModel>::empty());
        }
        s
    }

    /// How many tasks are queued.
    pub fn len(&self) -> (n: usize)
        ensures
            n == self.tasks().len(),
    {
        self.list.len()
    }

    /// The task at the front, which runs next.
    pub fn current(&self) -> (t: Option<&Task>)
        ensures
            self.tasks().len() == 0 ==> t.is_none(),
            self.tasks().len() > 0 ==> t.is_some() && t.unwrap()@ == self.tasks()[0],
    {
        if self.list.len() == 0 {
            None
        } else {
            Some(&self.list[0])
        }
    }

    /// The task at `i`, front first.
    pub fn get(&self, i: usize) -> (t: &Task)
        requires
            i < self.tasks().len(),
        ensures
            t@ == self.tasks()[i as int],
    {
        &self.list[i]
    }

    /// Takes the front task off the queue.
    pub fn pop(&mut self) -> (t: Option<Task>)
        ensures
            old(self).tasks().len() == 0 ==> t.is_none() && final(self).tasks() == old(self).tasks(),
            old(self).tasks().len() > 0 ==> t.is_some() && t.unwrap()@ == old(self).tasks()[0]
                && final(self).tasks() == old(self).tasks().subrange(1, old(self).tasks().len() as int),
    {
        if self.list.len() == 0 {
            None
        } else {
            let t = self.list.remove(0);
            proof {
                assert(self.tasks() =~= old(self).tasks().subrange(1, old(self).tasks().len() as int));
            }
            Some(t)
        }
    }

    /// Queues `task` by its priority: at the front, unless the front task has
    /// a higher priority; then behind every task from the front on whose
    /// priority is at least the new task's.
    pub fn add(&mut self, task: Task)
        ensures
            final(self).tasks() == old(self).tasks().insert(
                add_index(old(self).tasks(), task@.priority),
                task@,
            ),
    {
        let p = task.header.priority;
        let ghost s = self.tasks();
        let mut idx: usize = 0;
        if self.list.len() > 0 && self.list[0].header.priority > p {
            while idx < self.list.len() && p <= self.list[idx].header.priority
                invariant
                    s == self.tasks(),
                    idx <= self.list@.len(),
                    s.len() == self.list@.len(),
                    scan(s, p, idx as int) == scan(s, p, 0),
                decreases self.list@.len() - idx,
            {
                assert(s[idx as int] == self.list@[idx as int]@);
                idx = idx + 1;
            }
            proof {
                if idx < s.len() {
                    assert(s[idx as int] == self.list@[idx as int]@);
                }
            }
        }
        self.list.insert(idx, task);
        proof {
            assert(self.tasks() =~= s.insert(add_index(s, p), task@));
        }
    }

    /// Replaces the state of the task at `i`.
    pub fn set_state(&mut self, i: usize, state: TaskState)
        requires
            i < old(self).tasks().len(),
        ensures
            final(self).tasks() == old(self).tasks().update(
                i as int,
                TaskModel { state, ..old(self).tasks()[i as int] },
            ),
    {
        let mut t = self.list.remove(i);
        t.header.state = state;
        self.list.insert(i, t);
        proof {
            assert(self.tasks() =~= old(self).tasks().update(
                i as int,
                TaskModel { state, ..old(self).tasks()[i as int] },
            ));
        }
    }

    /// Replaces the saved registers of the task at `i`.
    pub fn set_context(&mut self, i: usize, context: Context)
        requires
            i < old(self).tasks().len(),
        ensures
            final(self).tasks() == old(self).tasks().update(
                i as int,
                TaskModel { context, ..old(self).tasks()[i as int] },
            ),
    {
        let mut t = self.list.remove(i);
        t.header.context = context;
        self.list.insert(i, t);
        proof {
            assert(self.tasks() =~= old(self).tasks().update(
                i as int,
                TaskModel { context, ..old(self).tasks()[i as int] },
            ));
        }
    }

    /// The index of the first task blocked on the task with id `task_id`.
    pub fn find_blocked_on(&self, task_id: usize) -> (r: Option<usize>)
        ensures
            match r {
                Some(i) => i < self.tasks().len() && self.tasks()[i as int].state
                    == TaskState::Blocked(task_id) && forall|j: int|
                    0 <= j < i ==> self.tasks()[j].state != TaskState::Blocked(task_id),
                None => forall|j: int|
                    0 <= j < self.tasks().len() ==> self.tasks()[j].state != TaskState::Blocked(
                        task_id,
                    ),
            },
    {
        let mut i: usize = 0;
        while i < self.list.len()
            invariant
                i <= self.list@.len(),
                self.tasks().len() == self.list@.len(),
                forall|j: int| 0 <= j < i ==> self.tasks()[j].state != TaskState::Blocked(task_id),
            decreases self.list@.len() - i,
        {
            assert(self.tasks()[i as int] == self.list@[i as int]@);
            if self.list[i].header.state == TaskState::Blocked(task_id) {
                return Some(i);
            }
            i = i + 1;
        }
        None
    }
}

} // verus!

//! Graceful-shutdown accounting: the reasons a shutdown is announced for,
//! its timing policy, and the registry of long-lived tasks that a shutdown
//! must drain. The broadcast channels and signal handlers live outside the
//! library.

use vstd::prelude::*;

use crate::strutil::str_eq;

verus! {

/// Timing policy of a shutdown.
#[derive(Debug, Clone, Copy)]
pub struct ShutdownConfig {
    /// How long tasks get to drain, in seconds.
    pub timeout_secs: u64,
    /// How long a forced stop gets after that, in seconds.
    pub force_timeout_secs: u64,
    /// How often the drain is re-checked before forcing.
    pub max_retries: usize,
}

impl Default for ShutdownConfig {
    /// Half a minute to drain, ten seconds to force, three retries.
    fn default() -> (r: Self)
        ensures
            r.timeout_secs == 30,
            r.force_timeout_secs == 10,
            r.max_retries == 3,
    {
        ShutdownConfig { timeout_secs: 30, force_timeout_secs: 10, max_retries: 3 }
    }
}

/// Why a shutdown was announced.
#[derive(Debug)]
pub enum ShutdownReason {
    /// The operator interrupted the process.
    UserInterrupt,
    /// An error the process cannot continue past.
    CriticalError(String),
    /// A resource limit was exhausted.
    ResourceExhausted,
    /// Planned maintenance.
    Maintenance,
    /// A deadline passed.
    Timeout,
}

/// A snapshot of the tasks still registered.
#[derive(Debug, Clone, Copy)]
pub struct TaskStats {
    /// Tasks still registered.
    pub active_tasks: usize,
    /// Age of the oldest registered task, in milliseconds, when any exists.
    pub oldest_task_uptime_ms: Option<u64>,
}

/// The registry of long-lived tasks a shutdown waits for.
#[derive(Debug)]
pub struct TaskRegistry {
    tasks: Vec<(String, u64)>,
}

impl TaskRegistry {
    /// The registered tasks, as name and registration-time pairs.
    pub closed spec fn tasks_view(&self) -> Seq<(Seq<char>, u64)> {
        Seq::new(self.tasks@.len(), |i: int| (self.tasks@[i].0@, self.tasks@[i].1))
    }

    /// An empty registry.
    pub fn new() -> (r: Self)
        ensures
            r.tasks_view().len() == 0,
    {
        let r = TaskRegistry { tasks: Vec::new() };
        proof {
            assert(r.tasks_view() =~= Seq::<(Seq<char>, u64)>::empty());
        }
        r
    }

    /// Registers a task under its name at the given clock reading.
    pub fn register_task(&mut self, name: String, now: u64)
        ensures
            final(self).tasks_view() == old(self).tasks_view().push((name@, now)),
    {
        self.tasks.push((name, now));
        proof {
            assert(self.tasks_view() =~= old(self).tasks_view().push((name@, now)));
        }
    }

    /// Removes every registration under the name; says whether any existed.
    pub fn remove_task(&mut self, name: &str) -> (r: bool)
        ensures
            final(self).tasks_view() == old(self).tasks_view().filter(other_task_pred(name@)),
            r == exists|i: int|
                0 <= i < old(self).tasks_view().len() && (#[trigger] old(
                    self,
                ).tasks_view()[i]).0 == name@,
    {
        let n = self.tasks.len();
        let mut kept: Vec<(String, u64)> = Vec::new();
        let mut found = false;
        let mut i: usize = 0;
        while i < n
            invariant
                n == self.tasks@.len(),
                0 <= i <= n,
                Seq::new(kept@.len(), |j: int| (kept@[j].0@, kept@[j].1)) == self.tasks_view().take(
                    i as int,
                ).filter(other_task_pred(name@)),
                found == exists|j: int|
                    0 <= j < i && (#[trigger] self.tasks_view()[j]).0 == name@,
            decreases n - i,
        {
            let ghost prevk = Seq::new(kept@.len(), |j: int| (kept@[j].0@, kept@[j].1));
            let matches_name = str_eq(self.tasks[i].0.as_str(), name);
            if matches_name {
                found = true;
                proof {
                    assert((self.tasks_view()[i as int]).0 == name@);
                }
            } else {
                let entry = (self.tasks[i].0.clone(), self.tasks[i].1);
                kept.push(entry);
            }
            proof {
                reveal(Seq::filter);
                let tv = self.tasks_view();
                assert(tv.take(i + 1).drop_last() =~= tv.take(i as int));
                assert(tv.take(i + 1).last() == tv[i as int]);
                let newk = Seq::new(kept@.len(), |j: int| (kept@[j].0@, kept@[j].1));
                if other_task_pred(name@)(tv[i as int]) {
                    assert(newk =~= prevk.push(tv[i as int]));
                } else {
                    assert(newk =~= prevk);
                }
            }
            i = i + 1;
        }
        let ghost before = self.tasks_view();
        self.tasks = kept;
        proof {
            assert(before.take(n as int) =~= before);
            assert(self.tasks_view() =~= before.filter(other_task_pred(name@)));
        }
        found
    }

    /// The snapshot: how many tasks are registered, and the age of the
    /// oldest one at `now`.
    pub fn get_task_stats(&self, now: u64) -> (r: TaskStats)
        ensures
            r.active_tasks == self.tasks_view().len(),
            r.oldest_task_uptime_ms is Some <==> self.tasks_view().len() > 0,
            r.oldest_task_uptime_ms matches Some(age) ==> exists|i: int|
                0 <= i < self.tasks_view().len() && age == spec_age(
                    now,
                    (#[trigger] self.tasks_view()[i]).1,
                ) && (forall|j: int|
                    0 <= j < self.tasks_view().len() ==> spec_age(
                        now,
                        (#[trigger] self.tasks_view()[j]).1,
                    ) <= age),
    {
        let n = self.tasks.len();
        if n == 0 {
            return TaskStats { active_tasks: 0, oldest_task_uptime_ms: None };
        }
        let mut oldest: u64 = now.saturating_sub(self.tasks[0].1);
        proof {
            assert(oldest == spec_age(now, (self.tasks_view()[0]).1));
        }
        let mut i: usize = 1;
        while i < n
            invariant
                n == self.tasks@.len(),
                1 <= i <= n,
                exists|k: int|
                    0 <= k < i && oldest == spec_age(now, (#[trigger] self.tasks_view()[k]).1),
                forall|j: int|
                    0 <= j < i ==> spec_age(now, (#[trigger] self.tasks_view()[j]).1) <= oldest,
            decreases n - i,
        {
            let age = now.saturating_sub(self.tasks[i].1);
            proof {
                assert(age == spec_age(now, (self.tasks_view()[i as int]).1));
            }
            if age > oldest {
                oldest = age;
            }
            i = i + 1;
        }
        TaskStats { active_tasks: n, oldest_task_uptime_ms: Some(oldest) }
    }
}

/// Keeps the tasks registered under another name.
pub open spec fn other_task_pred(name: Seq<char>) -> spec_fn((Seq<char>, u64)) -> bool {
    |t: (Seq<char>, u64)| t.0 != name
}

/// A task's age at `now`: zero when the clock reads earlier than the
/// registration.
pub open spec fn spec_age(now: u64, created: u64) -> u64 {
    if now > created {
        (now - created) as u64
    } else {
        0
    }
}

/// Whether a shutdown should stop waiting and force termination: the drain
/// has been re-checked the permitted number of times and tasks remain.
pub fn should_force_shutdown(config: &ShutdownConfig, attempts: usize, active_tasks: usize) -> (r:
    bool)
    ensures
        r == (attempts >= config.max_retries && active_tasks > 0),
{
    attempts >= config.max_retries && active_tasks > 0
}

} // verus!

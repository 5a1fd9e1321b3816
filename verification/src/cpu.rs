//! Cumulative CPU counters of backend tasks and the utilisation between two
//! samples of them.
use vstd::prelude::*;
use vstd::string::*;

use crate::sums::{at_most, sum, sums_grow_by_what_is_appended};
use crate::text::same;
use crate::thread_filter::ThreadNameFilter;

verus! {

/// Nanoseconds in one second.
pub const NANOS_PER_SECOND: u64 = 1_000_000_000;

/// A fraction between nothing and one whole.
#[derive(Debug, Clone, Copy, PartialEq, Eq, Structural)]
pub struct Share {
    /// Numerator.
    pub part: u128,
    /// Denominator.
    pub whole: u128,
}

impl Share {
    /// The denominator is positive and the fraction is at most one.
    pub open spec fn wf(&self) -> bool {
        0 < self.whole && self.part <= self.whole
    }
}

/// No utilisation at all.
pub open spec fn no_share() -> Share {
    Share { part: 0, whole: 1 }
}

/// One task's identity, name, and cumulative CPU counter.
#[derive(Debug, Clone)]
pub struct TaskCpuSample {
    /// Linux task identifier.
    pub tid: i32,
    /// Task name read from `/proc/.../comm`.
    pub name: String,
    /// Cumulative user and system CPU ticks.
    pub cpu_ticks: u64,
}

/// What a task sample says.
#[verifier::ext_equal]
pub struct TaskModel {
    /// Task identifier.
    pub tid: i32,
    /// Task name.
    pub name: Seq<char>,
    /// Cumulative ticks.
    pub cpu_ticks: u64,
}

impl View for TaskCpuSample {
    type V = TaskModel;

    open spec fn view(&self) -> TaskModel {
        TaskModel { tid: self.tid, name: self.name@, cpu_ticks: self.cpu_ticks }
    }
}

/// The models of a list of task samples.
pub open spec fn task_models(tasks: Seq<TaskCpuSample>) -> Seq<TaskModel> {
    tasks.map_values(|task: TaskCpuSample| task@)
}

/// Cumulative CPU counters sampled across one backend process.
#[derive(Debug, Clone)]
pub struct CpuSample {
    /// Sum of user and system CPU ticks across sampled tasks.
    pub cpu_ticks: u64,
    /// Monotonic time at which this sample was taken, in nanoseconds.
    pub sampled_at: u64,
    /// Number of tasks included in the sample.
    pub thread_count: u32,
    /// Cumulative CPU counters for individual sampled tasks.
    pub per_worker: Vec<TaskCpuSample>,
}

impl CpuSample {
    /// The task count is the number of listed tasks.
    pub open spec fn wf(&self) -> bool {
        self.per_worker@.len() == self.thread_count
    }
}

/// Why no CPU sample could be taken.
#[derive(Debug)]
pub enum CpuSampleError {
    /// No task was readable and selected.
    NoCpuSamples,
    /// The process could not be inspected.
    Proc(String),
}

impl CpuSampleError {
    /// The message shown for this error.
    pub open spec fn message(&self) -> Seq<char> {
        match self {
            CpuSampleError::NoCpuSamples => "no usable backend task CPU samples"@,
            CpuSampleError::Proc(why) => why@,
        }
    }

    /// Render the error.
    pub fn to_string(&self) -> (r: String)
        ensures
            r@ == self.message(),
    {
        match self {
            CpuSampleError::NoCpuSamples => "no usable backend task CPU samples".to_owned(),
            CpuSampleError::Proc(why) => why.clone(),
        }
    }
}

/// Counters of one task as read from its `stat` file.
#[derive(Debug)]
pub struct TaskStat {
    /// Task identifier.
    pub pid: i32,
    /// Task name.
    pub comm: String,
    /// Cumulative user ticks.
    pub utime: u64,
    /// Cumulative system ticks.
    pub stime: u64,
}

/// The outcome of reading one task of a backend process.
#[derive(Debug)]
pub enum TaskReading {
    /// The task could not be enumerated.
    NotListed(String),
    /// The task's `stat` file could not be read.
    NotReadable(String),
    /// The task's counters.
    Read(TaskStat),
}

/// The sum, capped at the largest counter value.
pub open spec fn capped_sum(a: u64, b: u64) -> u64 {
    if a + b > u64::MAX {
        u64::MAX
    } else {
        (a + b) as u64
    }
}

/// The sample of a task, when it was read and the filter selects its name.
pub open spec fn selected(reading: TaskReading, filter: ThreadNameFilter) -> Option<TaskModel> {
    match reading {
        TaskReading::Read(stat) => if filter.accepts(stat.comm@) {
            Some(
                TaskModel {
                    tid: stat.pid,
                    name: stat.comm@,
                    cpu_ticks: capped_sum(stat.utime, stat.stime),
                },
            )
        } else {
            None
        },
        _ => None,
    }
}

/// The samples of all selected tasks, in reading order.
pub open spec fn all_selected(readings: Seq<TaskReading>, filter: ThreadNameFilter) -> Seq<
    TaskModel,
>
    decreases readings.len(),
{
    if readings.len() == 0 {
        Seq::empty()
    } else {
        let rest = all_selected(readings.drop_last(), filter);
        match selected(readings.last(), filter) {
            Some(task) => rest.push(task),
            None => rest,
        }
    }
}

/// The ticks of all tasks together, capped at the largest counter value.
pub open spec fn total_ticks(tasks: Seq<TaskModel>) -> u64
    decreases tasks.len(),
{
    if tasks.len() == 0 {
        0
    } else {
        capped_sum(total_ticks(tasks.drop_last()), tasks.last().cpu_ticks)
    }
}

/// Build one CPU sample from the tasks of a process: unreadable tasks and tasks
/// that the filter does not select are left out.
pub fn collect_cpu_sample(
    readings: Vec<TaskReading>,
    filter: &ThreadNameFilter,
    sampled_at: u64,
) -> (r: Result<CpuSample, CpuSampleError>)
    requires
        readings@.len() <= u32::MAX,
    ensures
        all_selected(readings@, *filter).len() == 0 ==> r matches Err(CpuSampleError::NoCpuSamples),
        all_selected(readings@, *filter).len() > 0 ==> (r matches Ok(sample) && sample.wf()
            && task_models(sample.per_worker@) == all_selected(readings@, *filter)
            && sample.cpu_ticks == total_ticks(all_selected(readings@, *filter))
            && sample.sampled_at == sampled_at),
{
    let mut cpu_ticks: u64 = 0;
    let mut thread_count: u32 = 0;
    let mut per_worker: Vec<TaskCpuSample> = Vec::new();
    let n: usize = readings.len();
    let mut i: usize = 0;
    assert(readings@.take(0) == Seq::<TaskReading>::empty());
    assert(task_models(per_worker@) == all_selected(readings@.take(0), *filter));
    while i < n
        invariant
            i <= n,
            n == readings@.len(),
            n <= u32::MAX,
            thread_count <= i,
            thread_count == per_worker@.len(),
            task_models(per_worker@) == all_selected(readings@.take(i as int), *filter),
            cpu_ticks == total_ticks(task_models(per_worker@)),
        decreases n - i,
    {
        let ghost before = per_worker@;
        proof {
            assert(readings@.take(i + 1).drop_last() == readings@.take(i as int));
            assert(readings@.take(i + 1).last() == readings@[i as int]);
        }
        if let TaskReading::Read(stat) = &readings[i] {
            if filter.matches(stat.comm.as_str()) {
                let task_ticks: u64 = stat.utime.saturating_add(stat.stime);
                cpu_ticks = cpu_ticks.saturating_add(task_ticks);
                thread_count = thread_count + 1;
                per_worker.push(
                    TaskCpuSample { tid: stat.pid, name: stat.comm.clone(), cpu_ticks: task_ticks },
                );
                proof {
                    let task = per_worker@.last()@;
                    assert(task_models(per_worker@) == task_models(before).push(task));
                    assert(task_models(per_worker@).drop_last() == task_models(before));
                }
            }
        }
        i += 1;
    }
    assert(readings@.take(n as int) == readings@);
    if thread_count == 0 {
        return Err(CpuSampleError::NoCpuSamples);
    }
    Ok(CpuSample { cpu_ticks, sampled_at, thread_count, per_worker })
}

/// Position of the last sample of a task.
pub open spec fn last_of_tid(tasks: Seq<TaskModel>, tid: i32) -> Option<int>
    decreases tasks.len(),
{
    if tasks.len() == 0 {
        None
    } else if tasks.last().tid == tid {
        Some(tasks.len() - 1)
    } else {
        last_of_tid(tasks.drop_last(), tid)
    }
}

/// The share of the wall time, given in billionths of a tick, that so many ticks
/// make up; more than the whole of it counts as the whole.
pub open spec fn tick_share(ticks: nat, wall: nat) -> Share {
    Share {
        part: (if ticks * NANOS_PER_SECOND <= wall {
            ticks * NANOS_PER_SECOND
        } else {
            wall as int
        }) as u128,
        whole: wall as u128,
    }
}

/// The utilisation of one task since the previous sample: there is one if the
/// previous sample lists the task under the same name with no more ticks.
pub open spec fn worker_share(previous: Seq<TaskModel>, task: TaskModel, wall: nat) -> Option<
    (Seq<char>, Share),
> {
    match last_of_tid(previous, task.tid) {
        Some(at) => if previous[at].name == task.name && previous[at].cpu_ticks <= task.cpu_ticks {
            Some((task.name, tick_share((task.cpu_ticks - previous[at].cpu_ticks) as nat, wall)))
        } else {
            None
        },
        None => None,
    }
}

/// The utilisation of every comparable task, in the order of the current sample.
pub open spec fn worker_shares(
    previous: Seq<TaskModel>,
    current: Seq<TaskModel>,
    wall: nat,
) -> Seq<(Seq<char>, Share)>
    decreases current.len(),
{
    if current.len() == 0 {
        Seq::empty()
    } else {
        let rest = worker_shares(previous, current.drop_last(), wall);
        match worker_share(previous, current.last(), wall) {
            Some(share) => rest.push(share),
            None => rest,
        }
    }
}

/// Names and shares of a utilisation list.
pub open spec fn share_models(workers: Seq<(String, Share)>) -> Seq<(Seq<char>, Share)> {
    workers.map_values(|worker: (String, Share)| (worker.0@, worker.1))
}

/// Find the last sample of a task.
fn find_last_of_tid(tasks: &Vec<TaskCpuSample>, tid: i32) -> (r: Option<usize>)
    ensures
        match last_of_tid(task_models(tasks@), tid) {
            Some(at) => r matches Some(found) && found == at && found < tasks@.len(),
            None => r is None,
        },
{
    let ghost models = task_models(tasks@);
    let mut i: usize = tasks.len();
    assert(models.take(i as int) == models);
    while i > 0
        invariant
            i <= tasks@.len(),
            models == task_models(tasks@),
            last_of_tid(models.take(i as int), tid) == last_of_tid(models, tid),
        decreases i,
    {
        proof {
            assert(models.take(i as int).last() == tasks@[i - 1]@);
            assert(models.take(i as int).drop_last() == models.take(i - 1));
        }
        if tasks[i - 1].tid == tid {
            return Some(i - 1);
        }
        i -= 1;
    }
    None
}

/// Match task counters by TID and convert deltas to utilisation fractions of
/// the elapsed time.
pub fn compute_per_worker_util(
    previous: &Vec<TaskCpuSample>,
    current: &Vec<TaskCpuSample>,
    elapsed_ns: u64,
    ticks_per_second: u32,
) -> (r: Vec<(String, Share)>)
    requires
        0 < elapsed_ns,
        0 < ticks_per_second,
    ensures
        share_models(r@) == worker_shares(
            task_models(previous@),
            task_models(current@),
            (elapsed_ns * ticks_per_second) as nat,
        ),
{
    let ghost wall_ticks = (elapsed_ns * ticks_per_second) as nat;
    let ghost before = task_models(previous@);
    let ghost now = task_models(current@);
    proof {
        lemma_wall_fits(elapsed_ns, ticks_per_second);
    }
    let wall: u128 = elapsed_ns as u128 * ticks_per_second as u128;
    let mut out: Vec<(String, Share)> = Vec::new();
    let mut i: usize = 0;
    assert(now.take(0) == Seq::<TaskModel>::empty());
    assert(share_models(out@) == worker_shares(before, now.take(0), wall_ticks));
    while i < current.len()
        invariant
            i <= current@.len(),
            before == task_models(previous@),
            now == task_models(current@),
            wall_ticks == wall,
            share_models(out@) == worker_shares(before, now.take(i as int), wall_ticks),
        decreases current@.len() - i,
    {
        let ghost done = out@;
        let task = &current[i];
        proof {
            assert(now.take(i + 1).drop_last() == now.take(i as int));
            assert(now.take(i + 1).last() == task@);
        }
        if let Some(at) = find_last_of_tid(previous, task.tid) {
            assert(before[at as int] == previous@[at as int]@);
            if same(previous[at].name.as_str(), task.name.as_str()) {
                if let Some(delta) = task.cpu_ticks.checked_sub(previous[at].cpu_ticks) {
                    let scaled: u128 = delta as u128 * NANOS_PER_SECOND as u128;
                    let part: u128 = if scaled <= wall {
                        scaled
                    } else {
                        wall
                    };
                    out.push((task.name.clone(), Share { part, whole: wall }));
                    assert(share_models(out@) == share_models(done).push(
                        (task.name@, Share { part, whole: wall }),
                    ));
                }
            }
        }
        i += 1;
    }
    assert(now.take(current@.len() as int) == now);
    out
}

/// The wall time of a comparison fits in 96 bits.
pub proof fn lemma_wall_fits(elapsed_ns: u64, ticks_per_second: u32)
    ensures
        0 <= elapsed_ns * ticks_per_second < 0x1_0000_0000_0000_0000_0000_0000,
        0 < elapsed_ns && 0 < ticks_per_second ==> 0 < elapsed_ns * ticks_per_second,
{
    assert(0 <= elapsed_ns * ticks_per_second <= 0xffff_ffff_ffff_ffff * 0xffff_ffff)
        by (nonlinear_arith)
        requires
            0 <= elapsed_ns <= 0xffff_ffff_ffff_ffff,
            0 <= ticks_per_second <= 0xffff_ffff,
    ;
    if 0 < elapsed_ns && 0 < ticks_per_second {
        assert(0 < elapsed_ns * ticks_per_second) by (nonlinear_arith)
            requires
                0 < elapsed_ns,
                0 < ticks_per_second,
        ;
    }
}

/// Every reported utilisation is a proper fraction of the same wall time.
pub proof fn worker_shares_are_fractions(
    previous: Seq<TaskModel>,
    current: Seq<TaskModel>,
    elapsed_ns: u64,
    ticks_per_second: u32,
    i: int,
)
    requires
        0 < elapsed_ns,
        0 < ticks_per_second,
        0 <= i < worker_shares(
            previous,
            current,
            (elapsed_ns * ticks_per_second) as nat,
        ).len(),
    ensures
        ({
            let wall = (elapsed_ns * ticks_per_second) as nat;
            let share = worker_shares(previous, current, wall)[i].1;
            share.wf() && share.whole == wall
        }),
        worker_shares(previous, current, (elapsed_ns * ticks_per_second) as nat).len()
            <= current.len(),
    decreases current.len(),
{
    lemma_wall_fits(elapsed_ns, ticks_per_second);
    let wall = (elapsed_ns * ticks_per_second) as nat;
    let rest = worker_shares(previous, current.drop_last(), wall);
    if 0 <= i < rest.len() {
        worker_shares_are_fractions(
            previous,
            current.drop_last(),
            elapsed_ns,
            ticks_per_second,
            i,
        );
    } else {
        lemma_at_most_one_share_per_task(previous, current.drop_last(), wall);
    }
}

/// There is at most one utilisation per current task.
pub proof fn lemma_at_most_one_share_per_task(
    previous: Seq<TaskModel>,
    current: Seq<TaskModel>,
    wall: nat,
)
    ensures
        worker_shares(previous, current, wall).len() <= current.len(),
    decreases current.len(),
{
    if current.len() > 0 {
        lemma_at_most_one_share_per_task(previous, current.drop_last(), wall);
    }
}

/// A task that the previous sample does not list has no utilisation, however
/// many ticks it has.
pub proof fn new_tasks_have_no_share(previous: Seq<TaskModel>, task: TaskModel, wall: nat)
    requires
        forall|i: int| 0 <= i < previous.len() ==> (#[trigger] previous[i]).tid != task.tid,
    ensures
        worker_share(previous, task, wall) is None,
{
    lemma_unlisted_tid(previous, task.tid);
}

proof fn lemma_unlisted_tid(tasks: Seq<TaskModel>, tid: i32)
    requires
        forall|i: int| 0 <= i < tasks.len() ==> (#[trigger] tasks[i]).tid != tid,
    ensures
        last_of_tid(tasks, tid) is None,
    decreases tasks.len(),
{
    if tasks.len() > 0 {
        assert(tasks.last() == tasks[tasks.len() - 1]);
        assert forall|i: int| 0 <= i < tasks.drop_last().len() implies (
        #[trigger] tasks.drop_last()[i]).tid != tid by {
            assert(tasks.drop_last()[i] == tasks[i]);
        }
        lemma_unlisted_tid(tasks.drop_last(), tid);
    }
}

/// The tasks' order in either sample does not matter for a task's utilisation
/// when the previous sample lists each task once.
pub proof fn share_depends_on_the_tid(
    previous: Seq<TaskModel>,
    at: int,
    task: TaskModel,
    wall: nat,
)
    requires
        0 <= at < previous.len(),
        previous[at].tid == task.tid,
        previous[at].name == task.name,
        previous[at].cpu_ticks <= task.cpu_ticks,
        forall|i: int, j: int|
            0 <= i < j < previous.len() ==> (#[trigger] previous[i]).tid != (
            #[trigger] previous[j]).tid,
    ensures
        worker_share(previous, task, wall) == Some(
            (task.name, tick_share((task.cpu_ticks - previous[at].cpu_ticks) as nat, wall)),
        ),
{
    lemma_listed_tid(previous, at);
}

proof fn lemma_listed_tid(tasks: Seq<TaskModel>, at: int)
    requires
        0 <= at < tasks.len(),
        forall|i: int, j: int|
            0 <= i < j < tasks.len() ==> (#[trigger] tasks[i]).tid != (#[trigger] tasks[j]).tid,
    ensures
        last_of_tid(tasks, tasks[at].tid) == Some(at),
    decreases tasks.len(),
{
    if at < tasks.len() - 1 {
        assert(tasks[at].tid != tasks[tasks.len() - 1].tid);
        let shorter = tasks.drop_last();
        assert forall|i: int, j: int| 0 <= i < j < shorter.len() implies (
        #[trigger] shorter[i]).tid != (#[trigger] shorter[j]).tid by {
            assert(shorter[i] == tasks[i] && shorter[j] == tasks[j]);
        }
        lemma_listed_tid(shorter, at);
    }
}

/// Each task is measured by itself: the utilisations of two lists put together
/// are those of the one followed by those of the other.
pub proof fn workers_are_measured_one_by_one(
    previous: Seq<TaskModel>,
    a: Seq<TaskModel>,
    b: Seq<TaskModel>,
    wall: nat,
)
    ensures
        worker_shares(previous, a + b, wall) == worker_shares(previous, a, wall) + worker_shares(
            previous,
            b,
            wall,
        ),
    decreases b.len(),
{
    if b.len() == 0 {
        assert(a + b == a);
    } else {
        assert((a + b).drop_last() == a + b.drop_last());
        workers_are_measured_one_by_one(previous, a, b.drop_last(), wall);
    }
}

/// A task is measured against its latest entry in the previous sample. Under the
/// same name and with no fewer ticks its utilisation is exactly the ticks in
/// between over the ticks that the time in between holds, and one where there are
/// more; otherwise it has none.
pub proof fn a_worker_is_its_ticks_over_the_elapsed_time(
    previous: Seq<TaskModel>,
    at: int,
    task: TaskModel,
    elapsed_ns: u64,
    ticks_per_second: u32,
)
    requires
        0 < elapsed_ns,
        0 < ticks_per_second,
        0 <= at < previous.len(),
        previous[at].tid == task.tid,
        forall|i: int| at < i < previous.len() ==> (#[trigger] previous[i]).tid != task.tid,
    ensures
        ({
            let wall = elapsed_ns * ticks_per_second;
            let delta = task.cpu_ticks - previous[at].cpu_ticks;
            let found = worker_shares(previous, seq![task], wall as nat);
            if previous[at].name == task.name && delta >= 0 {
                &&& found.len() == 1
                &&& found[0].0 == task.name
                &&& found[0].1.whole == wall
                &&& delta * 1_000_000_000 <= wall ==> found[0].1.part == delta * 1_000_000_000
                &&& delta * 1_000_000_000 >= wall ==> found[0].1.part == wall
            } else {
                found.len() == 0
            }
        }),
{
    lemma_wall_fits(elapsed_ns, ticks_per_second);
    lemma_last_listed(previous, at);
    let one = seq![task];
    assert(one.drop_last() == Seq::<TaskModel>::empty());
    assert(one.last() == task);
    assert(worker_shares(previous, one.drop_last(), (elapsed_ns * ticks_per_second) as nat).len()
        == 0);
}

/// A task that the previous sample does not list has no utilisation.
pub proof fn unlisted_workers_are_not_measured(
    previous: Seq<TaskModel>,
    task: TaskModel,
    wall: nat,
)
    requires
        forall|i: int| 0 <= i < previous.len() ==> (#[trigger] previous[i]).tid != task.tid,
    ensures
        worker_shares(previous, seq![task], wall).len() == 0,
{
    lemma_unlisted_tid(previous, task.tid);
    let one = seq![task];
    assert(one.drop_last() == Seq::<TaskModel>::empty());
    assert(worker_shares(previous, one.drop_last(), wall).len() == 0);
}

proof fn lemma_last_listed(tasks: Seq<TaskModel>, at: int)
    requires
        0 <= at < tasks.len(),
        forall|i: int| at < i < tasks.len() ==> (#[trigger] tasks[i]).tid != tasks[at].tid,
    ensures
        last_of_tid(tasks, tasks[at].tid) == Some(at),
    decreases tasks.len(),
{
    if at < tasks.len() - 1 {
        assert(tasks[tasks.len() - 1].tid != tasks[at].tid);
        let shorter = tasks.drop_last();
        assert forall|i: int| at < i < shorter.len() implies (#[trigger] shorter[i]).tid
            != shorter[at].tid by {
            assert(shorter[i] == tasks[i]);
        }
        lemma_last_listed(shorter, at);
    }
}

/// Each task is selected by itself.
pub proof fn tasks_are_selected_one_by_one(
    a: Seq<TaskReading>,
    b: Seq<TaskReading>,
    filter: ThreadNameFilter,
)
    ensures
        all_selected(a + b, filter) == all_selected(a, filter) + all_selected(b, filter),
    decreases b.len(),
{
    if b.len() == 0 {
        assert(a + b == a);
    } else {
        assert((a + b).drop_last() == a + b.drop_last());
        tasks_are_selected_one_by_one(a, b.drop_last(), filter);
    }
}

/// A task is sampled exactly when it could be read and the filter accepts its
/// name; its ticks are those spent in user and in system mode together, as far as
/// they can be counted.
pub proof fn a_selected_task_keeps_its_counters(reading: TaskReading, filter: ThreadNameFilter)
    ensures
        ({
            let found = all_selected(seq![reading], filter);
            match reading {
                TaskReading::Read(stat) => if filter.accepts(stat.comm@) {
                    &&& found.len() == 1
                    &&& found[0].tid == stat.pid
                    &&& found[0].name == stat.comm@
                    &&& found[0].cpu_ticks == at_most(
                        (stat.utime + stat.stime) as nat,
                        u64::MAX as nat,
                    )
                } else {
                    found.len() == 0
                },
                _ => found.len() == 0,
            }
        }),
{
    let one = seq![reading];
    assert(one.drop_last() == Seq::<TaskReading>::empty());
    assert(all_selected(one.drop_last(), filter).len() == 0);
}

/// The ticks of a sample are the sum of its tasks' ticks, as far as they can be
/// counted.
pub proof fn samples_count_all_ticks(tasks: Seq<TaskModel>)
    ensures
        total_ticks(tasks) == at_most(
            sum(tasks.map_values(|task: TaskModel| task.cpu_ticks as nat)),
            u64::MAX as nat,
        ),
    decreases tasks.len(),
{
    let ticks = |task: TaskModel| task.cpu_ticks as nat;
    let all = tasks.map_values(ticks);
    if tasks.len() > 0 {
        let rest = tasks.drop_last();
        samples_count_all_ticks(rest);
        sums_grow_by_what_is_appended(rest.map_values(ticks), tasks.last().cpu_ticks as nat);
        assert(all == rest.map_values(ticks).push(tasks.last().cpu_ticks as nat));
    }
}

/// Measuring gives a utilisation for every task that is listed before under the same
/// name with no more ticks: the ticks in between over the ticks that the time in
/// between holds, and one where there are more.
pub proof fn workers_listed_before_are_measured(
    previous: Vec<TaskCpuSample>,
    current: Vec<TaskCpuSample>,
    elapsed_ns: u64,
    ticks_per_second: u32,
    found: Vec<(String, Share)>,
    i: int,
    j: int,
)
    requires
        0 < elapsed_ns,
        0 < ticks_per_second,
        call_ensures(
            compute_per_worker_util,
            (&previous, &current, elapsed_ns, ticks_per_second),
            found,
        ),
        0 <= i < previous@.len(),
        forall|m: int|
            i < m < previous@.len() ==> (#[trigger] previous@[m]).tid != previous@[i].tid,
        0 <= j < current@.len(),
        previous@[i].tid == current@[j].tid,
        previous@[i].name@ == current@[j].name@,
        previous@[i].cpu_ticks <= current@[j].cpu_ticks,
    ensures
        exists|k: int|
            0 <= k < found@.len() && measured(
                previous@[i],
                current@[j],
                elapsed_ns,
                ticks_per_second,
                #[trigger] found@[k],
            ),
{
    let before = task_models(previous@);
    let after = task_models(current@);
    let wall = (elapsed_ns * ticks_per_second) as nat;
    let shares = worker_shares(before, after, wall);
    lemma_wall_fits(elapsed_ns, ticks_per_second);
    lemma_shares_come_from_tasks(before, after, wall);
    assert(shares == share_models(found@));
    assert(before[i] == previous@[i]@ && after[j] == current@[j]@);
    assert forall|m: int| i < m < before.len() implies (#[trigger] before[m]).tid
        != before[i].tid by {
        assert(before[m] == previous@[m]@);
    }
    lemma_last_listed(before, i);
    assert(worker_share(before, after[j], wall) is Some);
    let k = choose|k: int|
        0 <= k < shares.len() && #[trigger] shares[k] == worker_share(before, after[j], wall)->0;
    assert(shares[k] == (found@[k].0@, found@[k].1));
    assert(measured(previous@[i], current@[j], elapsed_ns, ticks_per_second, found@[k]));
}

/// Measuring gives nothing else: every utilisation belongs to a task that is in both
/// samples.
pub proof fn measured_workers_are_in_both_samples(
    previous: Vec<TaskCpuSample>,
    current: Vec<TaskCpuSample>,
    elapsed_ns: u64,
    ticks_per_second: u32,
    found: Vec<(String, Share)>,
    k: int,
)
    requires
        0 < elapsed_ns,
        0 < ticks_per_second,
        call_ensures(
            compute_per_worker_util,
            (&previous, &current, elapsed_ns, ticks_per_second),
            found,
        ),
        0 <= k < found@.len(),
    ensures
        found@.len() <= current@.len(),
        exists|i: int, j: int|
            0 <= i < previous@.len() && 0 <= j < current@.len() && (#[trigger] previous@[i]).tid
                == (#[trigger] current@[j]).tid && measured(
                previous@[i],
                current@[j],
                elapsed_ns,
                ticks_per_second,
                found@[k],
            ),
{
    let before = task_models(previous@);
    let after = task_models(current@);
    let wall = (elapsed_ns * ticks_per_second) as nat;
    let shares = worker_shares(before, after, wall);
    lemma_wall_fits(elapsed_ns, ticks_per_second);
    lemma_shares_come_from_tasks(before, after, wall);
    lemma_at_most_one_share_per_task(before, after, wall);
    assert(shares == share_models(found@));
    assert(shares[k] == (found@[k].0@, found@[k].1));
    let j = choose|j: int|
        0 <= j < after.len() && worker_share(before, #[trigger] after[j], wall) == Some(shares[k]);
    lemma_last_is_listed(before, after[j].tid);
    let i = last_of_tid(before, after[j].tid)->0;
    assert(before[i] == previous@[i]@ && after[j] == current@[j]@);
    assert(previous@[i].tid == current@[j].tid);
    assert(measured(previous@[i], current@[j], elapsed_ns, ticks_per_second, found@[k]));
}

/// The utilisation of a task between two samples of it.
pub open spec fn measured(
    before: TaskCpuSample,
    after: TaskCpuSample,
    elapsed_ns: u64,
    ticks_per_second: u32,
    worker: (String, Share),
) -> bool {
    let delta = after.cpu_ticks - before.cpu_ticks;
    let wall = elapsed_ns * ticks_per_second;
    &&& before.name@ == after.name@
    &&& delta >= 0
    &&& worker.0@ == after.name@
    &&& worker.1.whole == wall
    &&& delta * 1_000_000_000 <= wall ==> worker.1.part == delta * 1_000_000_000
    &&& delta * 1_000_000_000 >= wall ==> worker.1.part == wall
}

proof fn lemma_last_is_listed(tasks: Seq<TaskModel>, tid: i32)
    requires
        last_of_tid(tasks, tid) is Some,
    ensures
        ({
            let at = last_of_tid(tasks, tid)->0;
            0 <= at < tasks.len() && tasks[at].tid == tid
        }),
    decreases tasks.len(),
{
    if tasks.len() > 0 && tasks.last().tid != tid {
        lemma_last_is_listed(tasks.drop_last(), tid);
    }
}

proof fn lemma_shares_come_from_tasks(
    previous: Seq<TaskModel>,
    current: Seq<TaskModel>,
    wall: nat,
)
    ensures
        forall|j: int|
            0 <= j < current.len() && worker_share(previous, #[trigger] current[j], wall) is Some
                ==> exists|k: int|
                0 <= k < worker_shares(previous, current, wall).len() && #[trigger] worker_shares(
                    previous,
                    current,
                    wall,
                )[k] == worker_share(previous, current[j], wall)->0,
        forall|k: int|
            0 <= k < worker_shares(previous, current, wall).len() ==> exists|j: int|
                0 <= j < current.len() && worker_share(previous, #[trigger] current[j], wall)
                    == Some(#[trigger] worker_shares(previous, current, wall)[k]),
    decreases current.len(),
{
    if current.len() > 0 {
        let rest = current.drop_last();
        let all = worker_shares(previous, current, wall);
        let shorter = worker_shares(previous, rest, wall);
        lemma_shares_come_from_tasks(previous, rest, wall);
        assert forall|j: int|
            0 <= j < current.len() && worker_share(previous, #[trigger] current[j], wall)
                is Some implies exists|k: int|
            0 <= k < all.len() && #[trigger] all[k] == worker_share(
                previous,
                current[j],
                wall,
            )->0 by {
            if j < rest.len() {
                assert(rest[j] == current[j]);
                let k = choose|k: int|
                    0 <= k < shorter.len() && #[trigger] shorter[k] == worker_share(
                        previous,
                        rest[j],
                        wall,
                    )->0;
                assert(all[k] == shorter[k]);
            } else {
                assert(all[all.len() - 1] == worker_share(previous, current[j], wall)->0);
            }
        }
        assert forall|k: int| 0 <= k < all.len() implies exists|j: int|
            0 <= j < current.len() && worker_share(previous, #[trigger] current[j], wall) == Some(
                #[trigger] all[k],
            ) by {
            if k < shorter.len() {
                assert(all[k] == shorter[k]);
                let j = choose|j: int|
                    0 <= j < rest.len() && worker_share(previous, #[trigger] rest[j], wall) == Some(
                        shorter[k],
                    );
                assert(rest[j] == current[j]);
            } else {
                assert(current[current.len() - 1] == current.last());
            }
        }
    }
}

/// A sample carries the time that it was taken at and the sum of its tasks' ticks,
/// and its tasks are the accepted ones that were read, each with the ticks that it
/// spent in user and in system mode.
pub proof fn samples_hold_the_accepted_tasks(
    readings: Vec<TaskReading>,
    filter: ThreadNameFilter,
    sampled_at: u64,
    sample: CpuSample,
    stat: TaskStat,
    i: int,
)
    requires
        readings@.len() <= u32::MAX,
        call_ensures(
            collect_cpu_sample,
            (readings, &filter, sampled_at),
            Ok::<CpuSample, CpuSampleError>(sample),
        ),
        0 <= i < readings@.len(),
        readings@[i] == TaskReading::Read(stat),
        filter.accepts(stat.comm@),
    ensures
        sample.sampled_at == sampled_at,
        sample.cpu_ticks == at_most(
            sum(sample.per_worker@.map_values(|task: TaskCpuSample| task.cpu_ticks as nat)),
            u64::MAX as nat,
        ),
        exists|k: int|
            0 <= k < sample.per_worker@.len() && (#[trigger] sample.per_worker@[k]).tid == stat.pid
                && sample.per_worker@[k].name@ == stat.comm@ && sample.per_worker@[k].cpu_ticks
                == at_most((stat.utime + stat.stime) as nat, u64::MAX as nat),
{
    let models = task_models(sample.per_worker@);
    samples_count_all_ticks(models);
    let ticks = |task: TaskModel| task.cpu_ticks as nat;
    let own = |task: TaskCpuSample| task.cpu_ticks as nat;
    assert(models.map_values(ticks) =~= sample.per_worker@.map_values(own));
    lemma_selected_are_listed(readings@, filter, i);
    let k = choose|k: int|
        0 <= k < models.len() && #[trigger] models[k] == selected(readings@[i], filter)->0;
    assert(models[k] == sample.per_worker@[k]@);
}

proof fn lemma_selected_are_listed(readings: Seq<TaskReading>, filter: ThreadNameFilter, i: int)
    requires
        0 <= i < readings.len(),
        selected(readings[i], filter) is Some,
    ensures
        exists|k: int|
            0 <= k < all_selected(readings, filter).len() && #[trigger] all_selected(
                readings,
                filter,
            )[k] == selected(readings[i], filter)->0,
    decreases readings.len(),
{
    let all = all_selected(readings, filter);
    if i < readings.len() - 1 {
        let rest = readings.drop_last();
        lemma_selected_are_listed(rest, filter, i);
        let shorter = all_selected(rest, filter);
        let k = choose|k: int|
            0 <= k < shorter.len() && #[trigger] shorter[k] == selected(rest[i], filter)->0;
        assert(all[k] == shorter[k]);
    } else {
        assert(all[all.len() - 1] == selected(readings[i], filter)->0);
    }
}

} // verus!

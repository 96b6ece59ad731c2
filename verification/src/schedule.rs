//! The harvest as a state machine: which target starts next, how many
//! attempts are in flight, and what follows each attempt. The caller runs the
//! requests and the waits; every decision is taken here.

use crate::assemble::{find_entry, first_entry};
use crate::fetch::Cause;
use crate::ident::{format_number, identifier};
use crate::record::{Acs, AcsView, SCPInfo};
use vstd::prelude::*;

verus! {

/// The pause after a page that gave a record, in milliseconds.
pub const THROTTLE_MILLIS: u64 = 1000;

/// Two to the power `n`.
pub open spec fn two_to(n: nat) -> nat
    decreases n,
{
    if n == 0 {
        1
    } else {
        2 * two_to((n - 1) as nat)
    }
}

/// The seconds to wait before retry number `retry`: two to that power, and
/// the largest 64-bit number where the power exceeds it.
pub open spec fn backoff(retry: nat) -> nat {
    if two_to(retry) <= u64::MAX {
        two_to(retry)
    } else {
        u64::MAX as nat
    }
}

/// The seconds to wait before retry number `retry`.
pub fn backoff_secs(retry: u16) -> (secs: u64)
    ensures
        secs == backoff(retry as nat),
{
    let mut secs: u64 = 1;
    let mut k: u16 = 0;
    while k < retry
        invariant
            k <= retry,
            secs == backoff(k as nat),
        decreases retry - k,
    {
        if secs > u64::MAX / 2 {
            secs = u64::MAX;
        } else {
            secs = secs * 2;
        }
        k += 1;
    }
    secs
}

/// What one attempt at a target came to.
#[derive(Clone, Debug, PartialEq, Eq)]
pub enum Attempt {
    /// The page gave this record.
    Record(Acs),
    /// The page is missing, or nothing could be read from it.
    Nothing,
    /// The request failed and may be tried again.
    Failed,
}

/// What an `Attempt` holds.
pub enum AttemptView {
    Record(AcsView),
    Nothing,
    Failed,
}

impl View for Attempt {
    type V = AttemptView;

    open spec fn view(&self) -> AttemptView {
        match self {
            Attempt::Record(a) => AttemptView::Record(a@),
            Attempt::Nothing => AttemptView::Nothing,
            Attempt::Failed => AttemptView::Failed,
        }
    }
}

/// What to do with a target after an attempt.
#[derive(Clone, Debug, PartialEq, Eq)]
pub enum Step {
    /// Keep the record, and pause for `THROTTLE_MILLIS`.
    Keep(Acs),
    /// Give the target up.
    Drop,
    /// Wait for so many seconds, then try again.
    Retry { wait_secs: u64 },
}

/// What a `Step` holds.
pub enum StepView {
    Keep(AcsView),
    Drop,
    Retry { wait_secs: u64 },
}

impl View for Step {
    type V = StepView;

    open spec fn view(&self) -> StepView {
        match self {
            Step::Keep(a) => StepView::Keep(a@),
            Step::Drop => StepView::Drop,
            Step::Retry { wait_secs } => StepView::Retry { wait_secs: *wait_secs },
        }
    }
}

/// The attempt that the result of reading a page stands for.
pub open spec fn attempt_for(result: Result<Option<AcsView>, crate::fetch::CauseView>) -> AttemptView {
    match result {
        Ok(Some(a)) => AttemptView::Record(a),
        Ok(None) => AttemptView::Nothing,
        Err(_) => AttemptView::Failed,
    }
}

/// The attempt that the result of reading a page stands for.
pub fn attempt_of(result: Result<Option<Acs>, Cause>) -> (a: Attempt)
    ensures
        a@ == attempt_for(crate::fetch::fetched_view(result)),
{
    match result {
        Ok(Some(a)) => Attempt::Record(a),
        Ok(None) => Attempt::Nothing,
        Err(_) => Attempt::Failed,
    }
}

/// What follows an attempt at a target that has been retried `retries` times,
/// under the retry ceiling `ceiling`: a record is kept; a page without one is
/// dropped at once; a failure is retried while retries are left, after a wait
/// that doubles each time, and dropped when none is left.
pub open spec fn step_for(retries: nat, ceiling: nat, outcome: AttemptView) -> StepView {
    match outcome {
        AttemptView::Record(a) => StepView::Keep(a),
        AttemptView::Nothing => StepView::Drop,
        AttemptView::Failed => if retries < ceiling {
            StepView::Retry { wait_secs: backoff(retries + 1) as u64 }
        } else {
            StepView::Drop
        },
    }
}

/// Decides what follows an attempt at a target that has been retried
/// `retries` times.
pub fn after_attempt(retries: u16, ceiling: u16, outcome: Attempt) -> (s: Step)
    ensures
        s@ == step_for(retries as nat, ceiling as nat, outcome@),
{
    match outcome {
        Attempt::Record(a) => Step::Keep(a),
        Attempt::Nothing => Step::Drop,
        Attempt::Failed => if retries < ceiling {
            Step::Retry { wait_secs: backoff_secs(retries + 1) }
        } else {
            Step::Drop
        },
    }
}

/// The number of attempts made at a target all of whose attempts fail, from
/// the attempt on that follows `retries` retries.
pub open spec fn failing_attempts(retries: nat, ceiling: nat) -> nat
    decreases ceiling - retries,
{
    if step_for(retries, ceiling, AttemptView::Failed) is Retry {
        1 + failing_attempts(retries + 1, ceiling)
    } else {
        1
    }
}

/// A target that fails every time is attempted once and retried `ceiling`
/// times, `ceiling + 1` attempts in all, and then dropped.
pub proof fn lemma_always_failing(ceiling: nat)
    ensures
        failing_attempts(0, ceiling) == ceiling + 1,
        forall|k: nat| k < ceiling ==> #[trigger] step_for(k, ceiling, AttemptView::Failed) is Retry,
        step_for(ceiling, ceiling, AttemptView::Failed) is Drop,
{
    lemma_failing_from(0, ceiling);
}

proof fn lemma_failing_from(retries: nat, ceiling: nat)
    requires
        retries <= ceiling,
    ensures
        failing_attempts(retries, ceiling) == ceiling - retries + 1,
    decreases ceiling - retries,
{
    if retries < ceiling {
        lemma_failing_from(retries + 1, ceiling);
    }
}

/// Where a target stands.
#[derive(Clone, Copy, Debug, PartialEq, Eq, Structural)]
pub enum Slot {
    /// Not started yet.
    Pending,
    /// In flight, after so many retries.
    Running(u16),
    /// Kept or dropped.
    Finished,
}

/// The number of targets in flight.
pub open spec fn running(slots: Seq<Slot>) -> nat
    decreases slots.len(),
{
    if slots.len() == 0 {
        0
    } else {
        running(slots.drop_last()) + if slots.last() is Running {
            1nat
        } else {
            0nat
        }
    }
}

/// Changing one slot changes the number of targets in flight by what the
/// slot itself contributes.
pub proof fn lemma_running_update(s: Seq<Slot>, i: int, x: Slot)
    requires
        0 <= i < s.len(),
    ensures
        running(s.update(i, x)) + (if s[i] is Running {
            1nat
        } else {
            0nat
        }) == running(s) + (if x is Running {
            1nat
        } else {
            0nat
        }),
    decreases s.len(),
{
    if i == s.len() - 1 {
        assert(s.update(i, x).drop_last() == s.drop_last());
    } else {
        lemma_running_update(s.drop_last(), i, x);
        assert(s.update(i, x).drop_last() == s.drop_last().update(i, x));
    }
}

/// What the caller is to do next.
#[derive(Clone, Copy, Debug, PartialEq, Eq, Structural)]
pub enum Action {
    /// Start the first attempt at the target with this index.
    Start(usize),
    /// Start nothing; wait for an attempt in flight to end.
    Wait,
    /// Nothing is in flight and nothing can start.
    Finished,
}

/// What became of a target after an attempt.
#[derive(Clone, Copy, Debug, PartialEq, Eq, Structural)]
pub enum Verdict {
    /// Its record was kept; pause for `THROTTLE_MILLIS` before the slot is
    /// used again.
    Kept,
    /// It was given up.
    Dropped,
    /// It stays in flight: wait for so many seconds, then try again.
    Retry { wait_secs: u64 },
}

/// The state of a harvest over a list of targets, known here by their indices.
pub struct Harvest {
    limit: usize,
    ceiling: u16,
    slots: Vec<Slot>,
    next: usize,
    in_flight: usize,
    records: Vec<Acs>,
}

/// What a harvest holds.
pub struct HarvestView {
    /// The limit on the number of targets in flight.
    pub limit: nat,
    /// The ceiling on the number of retries of one target.
    pub ceiling: nat,
    /// Where each target stands.
    pub slots: Seq<Slot>,
    /// The index of the next target to start.
    pub next: nat,
    /// The records kept so far, in the order in which they came.
    pub records: Seq<AcsView>,
}

impl HarvestView {
    /// Whether a further target can start now.
    pub open spec fn can_start(self) -> bool {
        self.next < self.slots.len() && running(self.slots) < self.limit
    }

    /// The targets before `next` have been started and no other; the number
    /// in flight is within the limit; no target has been retried beyond the
    /// ceiling.
    pub open spec fn consistent(self) -> bool {
        &&& self.next <= self.slots.len()
        &&& running(self.slots) <= self.limit
        &&& forall|i: int|
            0 <= i < self.slots.len() ==> ((#[trigger] self.slots[i]) is Pending <==> i
                >= self.next)
        &&& forall|i: int|
            0 <= i < self.slots.len() ==> ((#[trigger] self.slots[i]) matches Slot::Running(r)
                ==> r <= self.ceiling)
    }
}

/// The views of a list of records.
pub open spec fn records_view(records: Seq<Acs>) -> Seq<AcsView> {
    Seq::new(records.len(), |i: int| records[i]@)
}

impl View for Harvest {
    type V = HarvestView;

    closed spec fn view(&self) -> HarvestView {
        HarvestView {
            limit: self.limit as nat,
            ceiling: self.ceiling as nat,
            slots: self.slots@,
            next: self.next as nat,
            records: records_view(self.records@),
        }
    }
}

impl Harvest {
    /// The state is consistent, and the count of targets in flight is right.
    pub closed spec fn wf(&self) -> bool {
        self@.consistent() && self.in_flight == running(self.slots@)
    }

    /// A harvest of `total` targets, none of them started.
    pub fn new(total: usize, limit: usize, ceiling: u16) -> (h: Harvest)
        ensures
            h.wf(),
            h@ == (HarvestView {
                limit: limit as nat,
                ceiling: ceiling as nat,
                slots: Seq::new(total as nat, |i: int| Slot::Pending),
                next: 0,
                records: Seq::empty(),
            }),
            running(h@.slots) == 0,
    {
        let mut slots: Vec<Slot> = Vec::new();
        let mut i: usize = 0;
        while i < total
            invariant
                i <= total,
                slots@ == Seq::new(i as nat, |k: int| Slot::Pending),
                running(slots@) == 0,
            decreases total - i,
        {
            let ghost before = slots@;
            slots.push(Slot::Pending);
            assert(slots@.drop_last() == before);
            assert(slots@ == Seq::new((i + 1) as nat, |k: int| Slot::Pending));
            i += 1;
        }
        let h = Harvest { limit, ceiling, slots, next: 0, in_flight: 0, records: Vec::new() };
        assert(h@.records =~= Seq::empty());
        h
    }

    /// Says what to do next. A target starts whenever one is left and the
    /// number in flight is under the limit.
    pub fn next_action(&mut self) -> (a: Action)
        requires
            old(self).wf(),
        ensures
            final(self).wf(),
            running(final(self)@.slots) <= final(self)@.limit,
            match a {
                Action::Start(i) => {
                    &&& old(self)@.can_start()
                    &&& i == old(self)@.next
                    &&& final(self)@ == (HarvestView {
                        next: old(self)@.next + 1,
                        slots: old(self)@.slots.update(i as int, Slot::Running(0)),
                        ..old(self)@
                    })
                    &&& running(final(self)@.slots) == running(old(self)@.slots) + 1
                },
                Action::Wait => {
                    &&& !old(self)@.can_start()
                    &&& running(old(self)@.slots) > 0
                    &&& final(self)@ == old(self)@
                },
                Action::Finished => {
                    &&& !old(self)@.can_start()
                    &&& running(old(self)@.slots) == 0
                    &&& final(self)@ == old(self)@
                },
            },
    {
        if self.next < self.slots.len() && self.in_flight < self.limit {
            let i = self.next;
            proof {
                lemma_running_update(self.slots@, i as int, Slot::Running(0));
            }
            self.slots.set(i, Slot::Running(0));
            self.next = i + 1;
            self.in_flight = self.in_flight + 1;
            Action::Start(i)
        } else if self.in_flight > 0 {
            Action::Wait
        } else {
            Action::Finished
        }
    }

    /// Records what an attempt at the running target `target` came to, and
    /// says what became of the target.
    pub fn finish_attempt(&mut self, target: usize, outcome: Attempt) -> (v: Verdict)
        requires
            old(self).wf(),
            target < old(self)@.slots.len(),
            old(self)@.slots[target as int] is Running,
        ensures
            final(self).wf(),
            running(final(self)@.slots) <= final(self)@.limit,
            match step_for(
                old(self)@.slots[target as int]->Running_0 as nat,
                old(self)@.ceiling,
                outcome@,
            ) {
                StepView::Keep(a) => {
                    &&& v == Verdict::Kept
                    &&& final(self)@ == (HarvestView {
                        slots: old(self)@.slots.update(target as int, Slot::Finished),
                        records: old(self)@.records.push(a),
                        ..old(self)@
                    })
                    &&& running(final(self)@.slots) == running(old(self)@.slots) - 1
                },
                StepView::Drop => {
                    &&& v == Verdict::Dropped
                    &&& final(self)@ == (HarvestView {
                        slots: old(self)@.slots.update(target as int, Slot::Finished),
                        ..old(self)@
                    })
                    &&& running(final(self)@.slots) == running(old(self)@.slots) - 1
                },
                StepView::Retry { wait_secs } => {
                    &&& v == Verdict::Retry { wait_secs }
                    &&& final(self)@ == (HarvestView {
                        slots: old(self)@.slots.update(
                            target as int,
                            Slot::Running((old(self)@.slots[target as int]->Running_0 + 1) as u16),
                        ),
                        ..old(self)@
                    })
                    &&& running(final(self)@.slots) == running(old(self)@.slots)
                },
            },
    {
        let retries = match self.slots[target] {
            Slot::Running(r) => r,
            _ => 0,
        };
        let ghost before = records_view(self.records@);
        let step = after_attempt(retries, self.ceiling, outcome);
        match step {
            Step::Keep(a) => {
                proof {
                    lemma_running_update(self.slots@, target as int, Slot::Finished);
                }
                self.slots.set(target, Slot::Finished);
                self.in_flight = self.in_flight - 1;
                self.records.push(a);
                assert(records_view(self.records@) =~= before.push(a@));
                Verdict::Kept
            },
            Step::Drop => {
                proof {
                    lemma_running_update(self.slots@, target as int, Slot::Finished);
                }
                self.slots.set(target, Slot::Finished);
                self.in_flight = self.in_flight - 1;
                Verdict::Dropped
            },
            Step::Retry { wait_secs } => {
                proof {
                    lemma_running_update(
                        self.slots@,
                        target as int,
                        Slot::Running((retries + 1) as u16),
                    );
                }
                self.slots.set(target, Slot::Running(retries + 1));
                Verdict::Retry { wait_secs }
            },
        }
    }

    /// The number of targets.
    pub fn total(&self) -> (n: usize)
        ensures
            n == self@.slots.len(),
    {
        self.slots.len()
    }

    /// The limit on the number of targets in flight.
    pub fn limit(&self) -> (n: usize)
        ensures
            n == self@.limit,
    {
        self.limit
    }

    /// The number of targets started so far.
    pub fn started(&self) -> (n: usize)
        ensures
            n == self@.next,
    {
        self.next
    }

    /// The number of targets in flight.
    pub fn in_flight(&self) -> (n: usize)
        requires
            self.wf(),
        ensures
            n == running(self@.slots),
            n <= self@.limit,
    {
        self.in_flight
    }

    /// Where the target `target` stands; `None` where there is no such
    /// target.
    pub fn slot(&self, target: usize) -> (s: Option<Slot>)
        ensures
            s == if target < self@.slots.len() {
                Some(self@.slots[target as int])
            } else {
                None
            },
    {
        if target < self.slots.len() {
            Some(self.slots[target])
        } else {
            None
        }
    }

    /// Whether the target `target` is in flight.
    pub fn is_running(&self, target: usize) -> (r: bool)
        ensures
            r == (target < self@.slots.len() && self@.slots[target as int] is Running),
    {
        target < self.slots.len() && match self.slots[target] {
            Slot::Running(_) => true,
            _ => false,
        }
    }

    /// The number of records kept so far.
    pub fn kept(&self) -> (n: usize)
        ensures
            n == self@.records.len(),
    {
        self.records.len()
    }

    /// The records kept, in the order in which they came.
    pub fn into_records(self) -> (r: Vec<Acs>)
        ensures
            records_view(r@) == self@.records,
    {
        self.records
    }
}

/// In every consistent state of a harvest the number of targets in flight is
/// within the limit.
pub proof fn lemma_within_limit(h: Harvest)
    requires
        h.wf(),
    ensures
        running(h@.slots) <= h@.limit,
        h@.consistent(),
{
}

/// The attempt that the result of reading the page of a discovered entry
/// stands for.
pub open spec fn attempt_for_entry(
    result: Result<AcsView, crate::fetch::HarvestErrorView>,
) -> AttemptView {
    match result {
        Ok(a) => AttemptView::Record(a),
        Err(crate::fetch::HarvestErrorView::NoData) => AttemptView::Nothing,
        Err(crate::fetch::HarvestErrorView::Fetch(_)) => AttemptView::Failed,
    }
}

/// The attempt that the result of reading the page of a discovered entry
/// stands for.
pub fn attempt_of_entry(result: Result<Acs, crate::fetch::HarvestError>) -> (a: Attempt)
    ensures
        a@ == attempt_for_entry(crate::fetch::entry_view(result)),
{
    match result {
        Ok(a) => Attempt::Record(a),
        Err(crate::fetch::HarvestError::NoData) => Attempt::Nothing,
        Err(crate::fetch::HarvestError::Fetch(_)) => Attempt::Failed,
    }
}

/// One page to read: its identifier and its address.
#[derive(Clone, Debug, PartialEq, Eq)]
pub struct Target {
    pub actual_number: String,
    pub url: String,
}

/// The targets of a harvest over the numbers `start` to `end`: for each
/// number whose identifier the catalogue lists, in rising order, the
/// identifier and the address that the catalogue gives it.
pub open spec fn targets_of(catalog: Seq<SCPInfo>, start: int, end: int) -> Seq<
    (Seq<char>, Seq<char>),
>
    decreases end - start + 1,
{
    if end < start || end < 0 {
        Seq::empty()
    } else {
        let rest = targets_of(catalog, start, end - 1);
        match first_entry(catalog, identifier(end as nat)) {
            Some(e) => rest.push((identifier(end as nat), e.url@)),
            None => rest,
        }
    }
}

/// The identifiers and addresses of a list of targets.
pub open spec fn targets_view(t: Seq<Target>) -> Seq<(Seq<char>, Seq<char>)> {
    Seq::new(t.len(), |i: int| (t[i].actual_number@, t[i].url@))
}

/// The targets of a harvest over the numbers `start` to `end`.
pub fn targets_in_range(catalog: &[SCPInfo], start: u16, end: u16) -> (t: Vec<Target>)
    ensures
        targets_view(t@) == targets_of(catalog@, start as int, end as int),
{
    let mut t: Vec<Target> = Vec::new();
    if end < start {
        assert(targets_view(t@) =~= Seq::empty());
        return t;
    }
    let mut n: u32 = start as u32;
    assert(targets_view(t@) =~= targets_of(catalog@, start as int, start as int - 1));
    while n <= end as u32
        invariant
            start <= n <= end + 1,
            targets_view(t@) == targets_of(catalog@, start as int, n as int - 1),
        decreases end + 1 - n,
    {
        let ghost before = t@;
        let number = format_number(n as u16);
        match find_entry(catalog, number.as_str()) {
            Some(e) => {
                t.push(Target { actual_number: number, url: e.url.clone() });
                assert(targets_view(t@) =~= targets_view(before).push(
                    (identifier(n as nat), e.url@),
                ));
            },
            None => {},
        }
        n += 1;
    }
    t
}

} // verus!

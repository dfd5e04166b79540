//! The decisions of a batch download: which target to start next, when to
//! wait for a transfer in flight, and how outcomes are collected. The caller
//! performs the transfers and reports each one back.
use vstd::prelude::*;

verus! {

/// The number of transfers that may be in flight at once, unless chosen otherwise.
pub const CONCURRENCY: usize = 8;

/// Where a target stands in a batch.
#[derive(Clone, Copy, PartialEq, Eq, Structural, Debug)]
pub enum Phase {
    Waiting,
    Active,
    Saved,
    Failed,
}

/// Why a transfer did not end in a saved file.
#[derive(Debug)]
pub enum FailReason {
    /// The target's URL does not parse.
    InvalidUrl,
    /// The connection failed, or the response status was no success.
    Transport { status: Option<u16>, message: String },
    /// Reading the body or writing the file failed.
    Io { message: String },
    /// The unit of work running the transfer did not run to completion.
    Join { message: String },
}

/// What became of one target.
#[derive(Debug)]
pub enum DownloadOutcome {
    Saved { path: String },
    Failed { identifier: String, reason: FailReason },
}

/// What the caller is to do next.
#[derive(Clone, Copy, PartialEq, Eq, Structural, Debug)]
pub enum Step {
    /// Start the transfer of the target at `index`.
    Start { index: usize },
    /// Wait until a transfer in flight ends, and report it.
    Wait,
    /// Every target has an outcome.
    Finished,
}

/// The paths saved, in the order their transfers ended, and the identifiers
/// of the targets that failed.
#[derive(Debug)]
pub struct BatchResult {
    pub saved: Vec<String>,
    pub failed: Vec<String>,
}

/// How many entries of `s` equal `p`.
pub open spec fn count_of(s: Seq<Phase>, p: Phase) -> nat
    decreases s.len(),
{
    if s.len() == 0 {
        0
    } else {
        count_of(s.drop_last(), p) + if s.last() == p {
            1nat
        } else {
            0nat
        }
    }
}

/// Replacing one entry changes each count by the entries that left and came.
pub proof fn lemma_count_update(s: Seq<Phase>, i: int, q: Phase, p: Phase)
    requires
        0 <= i < s.len(),
    ensures
        count_of(s.update(i, q), p) + (if s[i] == p {
            1nat
        } else {
            0nat
        }) == count_of(s, p) + (if q == p {
            1nat
        } else {
            0nat
        }),
    decreases s.len(),
{
    if i == s.len() - 1 {
        assert(s.update(i, q).drop_last() =~= s.drop_last());
    } else {
        lemma_count_update(s.drop_last(), i, q, p);
        assert(s.update(i, q).drop_last() =~= s.drop_last().update(i, q));
    }
}

/// A sequence that holds no `p` counts none.
pub proof fn lemma_count_zero(s: Seq<Phase>, p: Phase)
    requires
        count_of(s, p) == 0,
    ensures
        forall|i: int| 0 <= i < s.len() ==> s[i] != p,
    decreases s.len(),
{
    if s.len() > 0 {
        lemma_count_zero(s.drop_last(), p);
        assert forall|i: int| 0 <= i < s.len() implies s[i] != p by {
            if i < s.len() - 1 {
                assert(s[i] == s.drop_last()[i]);
            }
        }
    }
}

/// A sequence of `Waiting` counts no other phase.
pub proof fn lemma_count_waiting(s: Seq<Phase>, p: Phase)
    requires
        p != Phase::Waiting,
        forall|i: int| 0 <= i < s.len() ==> s[i] == Phase::Waiting,
    ensures
        count_of(s, p) == 0,
    decreases s.len(),
{
    if s.len() > 0 {
        lemma_count_waiting(s.drop_last(), p);
    }
}

/// The state of a batch, as values.
pub struct BatchState {
    /// The most transfers in flight at once.
    pub limit: nat,
    /// The targets' identifiers, in submission order.
    pub ids: Seq<Seq<char>>,
    /// Where each target stands.
    pub phases: Seq<Phase>,
    /// The targets before this one have been started.
    pub next: nat,
    /// The transfers in flight.
    pub in_flight: nat,
    pub saved: Seq<Seq<char>>,
    pub failed: Seq<Seq<char>>,
}

impl BatchState {
    pub open spec fn wf(self) -> bool {
        &&& self.limit > 0
        &&& self.phases.len() == self.ids.len()
        &&& self.next <= self.ids.len()
        &&& forall|i: int| 0 <= i < self.next ==> self.phases[i] != Phase::Waiting
        &&& forall|i: int| self.next <= i < self.phases.len() ==> self.phases[i] == Phase::Waiting
        &&& self.in_flight == count_of(self.phases, Phase::Active)
        &&& self.saved.len() == count_of(self.phases, Phase::Saved)
        &&& self.failed.len() == count_of(self.phases, Phase::Failed)
        &&& self.saved.len() + self.failed.len() + self.in_flight == self.next
        &&& self.in_flight <= self.limit
    }

    /// Every target has been started and no transfer is in flight.
    pub open spec fn is_finished(self) -> bool {
        self.in_flight == 0 && self.next == self.ids.len()
    }

    /// The slots of the admission gate that are free.
    pub open spec fn free_slots(self) -> int {
        self.limit - self.in_flight
    }
}

/// Admission and bookkeeping for a batch of downloads.
pub struct Coordinator {
    limit: usize,
    ids: Vec<String>,
    phases: Vec<Phase>,
    next: usize,
    in_flight: usize,
    saved: Vec<String>,
    failed: Vec<String>,
}

pub open spec fn views(v: Seq<String>) -> Seq<Seq<char>> {
    v.map_values(|s: String| s@)
}

impl View for Coordinator {
    type V = BatchState;

    closed spec fn view(&self) -> BatchState {
        BatchState {
            limit: self.limit as nat,
            ids: views(self.ids@),
            phases: self.phases@,
            next: self.next as nat,
            in_flight: self.in_flight as nat,
            saved: views(self.saved@),
            failed: views(self.failed@),
        }
    }
}

impl Coordinator {
    /// A batch of the targets named by `ids`, with at most `limit` transfers in flight.
    pub fn new(ids: Vec<String>, limit: usize) -> (r: Coordinator)
        requires
            limit > 0,
        ensures
            r@.wf(),
            r@.limit == limit,
            r@.ids == views(ids@),
            r@.phases == Seq::new(ids@.len(), |i: int| Phase::Waiting),
            r@.next == 0,
            r@.in_flight == 0,
            r@.saved.len() == 0,
            r@.failed.len() == 0,
    {
        let n = ids.len();
        let mut phases: Vec<Phase> = Vec::new();
        let mut i: usize = 0;
        while i < n
            invariant
                i <= n,
                phases@ == Seq::new(i as nat, |k: int| Phase::Waiting),
            decreases n - i,
        {
            phases.push(Phase::Waiting);
            i = i + 1;
            assert(phases@ =~= Seq::new(i as nat, |k: int| Phase::Waiting));
        }
        proof {
            lemma_count_waiting(phases@, Phase::Active);
            lemma_count_waiting(phases@, Phase::Saved);
            lemma_count_waiting(phases@, Phase::Failed);
        }
        let r = Coordinator {
            limit,
            ids,
            phases,
            next: 0,
            in_flight: 0,
            saved: Vec::new(),
            failed: Vec::new(),
        };
        assert(r@.saved =~= Seq::<Seq<char>>::empty());
        assert(r@.failed =~= Seq::<Seq<char>>::empty());
        r
    }

    /// A batch of the targets named by `ids`, with the default limit of transfers in flight.
    pub fn with_default_limit(ids: Vec<String>) -> (r: Coordinator)
        ensures
            r@.wf(),
            r@.limit == CONCURRENCY,
            r@.ids == views(ids@),
            r@.next == 0,
            r@.in_flight == 0,
            r@.saved.len() == 0,
            r@.failed.len() == 0,
    {
        Coordinator::new(ids, CONCURRENCY)
    }

    /// The number of targets in the batch.
    pub fn len(&self) -> (r: usize)
        ensures
            r == self@.ids.len(),
    {
        self.ids.len()
    }

    /// The identifier of the target at `index`.
    pub fn identifier(&self, index: usize) -> (r: &String)
        requires
            index < self@.ids.len(),
        ensures
            r@ == self@.ids[index as int],
    {
        &self.ids[index]
    }

    /// The number of transfers in flight.
    pub fn in_flight(&self) -> (r: usize)
        ensures
            r == self@.in_flight,
    {
        self.in_flight
    }

    /// The slots of the admission gate that are free.
    pub fn free_slots(&self) -> (r: usize)
        requires
            self@.wf(),
        ensures
            r == self@.free_slots(),
    {
        self.limit - self.in_flight
    }

    /// Whether every target has an outcome and no transfer is in flight.
    pub fn is_finished(&self) -> (r: bool)
        ensures
            r == self@.is_finished(),
    {
        self.in_flight == 0 && self.next == self.ids.len()
    }

    /// Decides what to do next: start the next target while a slot is free,
    /// else wait for a transfer in flight, else report that the batch is done.
    /// A target that is started takes a slot.
    pub fn next_step(&mut self) -> (r: Step)
        requires
            old(self)@.wf(),
        ensures
            final(self)@.wf(),
            final(self)@.limit == old(self)@.limit,
            final(self)@.ids == old(self)@.ids,
            final(self)@.saved == old(self)@.saved,
            final(self)@.failed == old(self)@.failed,
            old(self)@.in_flight < old(self)@.limit && old(self)@.next < old(self)@.ids.len() ==> {
                &&& r == Step::Start { index: old(self)@.next as usize }
                &&& final(self)@.phases == old(self)@.phases.update(
                    old(self)@.next as int,
                    Phase::Active,
                )
                &&& final(self)@.next == old(self)@.next + 1
                &&& final(self)@.in_flight == old(self)@.in_flight + 1
            },
            !(old(self)@.in_flight < old(self)@.limit && old(self)@.next < old(self)@.ids.len())
                ==> {
                &&& final(self)@ == old(self)@
                &&& r == (if old(self)@.in_flight > 0 {
                    Step::Wait
                } else {
                    Step::Finished
                })
            },
            r == Step::Finished <==> old(self)@.is_finished(),
    {
        if self.in_flight < self.limit && self.next < self.ids.len() {
            let index = self.next;
            proof {
                lemma_count_update(self.phases@, index as int, Phase::Active, Phase::Active);
                lemma_count_update(self.phases@, index as int, Phase::Active, Phase::Saved);
                lemma_count_update(self.phases@, index as int, Phase::Active, Phase::Failed);
            }
            self.phases.set(index, Phase::Active);
            self.next = index + 1;
            self.in_flight = self.in_flight + 1;
            Step::Start { index }
        } else if self.in_flight > 0 {
            Step::Wait
        } else {
            Step::Finished
        }
    }

    /// Records how the transfer of the target at `index` ended: `Ok` with the
    /// path of the saved file, or `Err` with the reason it failed. Its slot is
    /// freed, and the outcome is returned.
    pub fn finish(&mut self, index: usize, result: Result<String, FailReason>) -> (r:
        DownloadOutcome)
        requires
            old(self)@.wf(),
            index < old(self)@.ids.len(),
            old(self)@.phases[index as int] == Phase::Active,
        ensures
            final(self)@.wf(),
            final(self)@.limit == old(self)@.limit,
            final(self)@.ids == old(self)@.ids,
            final(self)@.next == old(self)@.next,
            final(self)@.in_flight == old(self)@.in_flight - 1,
            match result {
                Ok(path) => {
                    &&& final(self)@.phases == old(self)@.phases.update(index as int, Phase::Saved)
                    &&& final(self)@.saved == old(self)@.saved.push(path@)
                    &&& final(self)@.failed == old(self)@.failed
                    &&& r matches DownloadOutcome::Saved { path: p } && p@ == path@
                },
                Err(reason) => {
                    &&& final(self)@.phases == old(self)@.phases.update(index as int, Phase::Failed)
                    &&& final(self)@.saved == old(self)@.saved
                    &&& final(self)@.failed == old(self)@.failed.push(old(self)@.ids[index as int])
                    &&& r matches DownloadOutcome::Failed { identifier: id, reason: e }
                        && id@ == old(self)@.ids[index as int] && e == reason
                },
            },
    {
        let ghost before = self.phases@;
        proof {
            lemma_count_update(before, index as int, Phase::Saved, Phase::Active);
            lemma_count_update(before, index as int, Phase::Saved, Phase::Saved);
            lemma_count_update(before, index as int, Phase::Saved, Phase::Failed);
            lemma_count_update(before, index as int, Phase::Failed, Phase::Active);
            lemma_count_update(before, index as int, Phase::Failed, Phase::Saved);
            lemma_count_update(before, index as int, Phase::Failed, Phase::Failed);
        }
        self.in_flight = self.in_flight - 1;
        match result {
            Ok(path) => {
                self.phases.set(index, Phase::Saved);
                let p = path.clone();
                self.saved.push(path);
                assert(views(self.saved@) =~= views(old(self).saved@).push(p@));
                DownloadOutcome::Saved { path: p }
            },
            Err(reason) => {
                self.phases.set(index, Phase::Failed);
                let id = self.ids[index].clone();
                self.failed.push(id.clone());
                assert(views(self.failed@) =~= views(old(self).failed@).push(id@));
                DownloadOutcome::Failed { identifier: id, reason }
            },
        }
    }

    /// The paths saved and the identifiers that failed.
    pub fn into_result(self) -> (r: BatchResult)
        ensures
            views(r.saved@) == self@.saved,
            views(r.failed@) == self@.failed,
    {
        BatchResult { saved: self.saved, failed: self.failed }
    }
}

/// No reachable state of a batch has more transfers in flight than its limit.
pub proof fn lemma_in_flight_bounded(s: BatchState)
    requires
        s.wf(),
    ensures
        s.in_flight <= s.limit,
{
}

/// When a batch is finished, every target has exactly one outcome, saved or
/// failed, and the saved paths and failed identifiers together number the targets.
pub proof fn lemma_batch_complete(s: BatchState)
    requires
        s.wf(),
        s.is_finished(),
    ensures
        s.saved.len() + s.failed.len() == s.ids.len(),
        forall|i: int|
            0 <= i < s.ids.len() ==> s.phases[i] == Phase::Saved || s.phases[i] == Phase::Failed,
{
    lemma_count_zero(s.phases, Phase::Active);
}

/// When a batch is finished, every slot of its admission gate is free.
pub proof fn lemma_gate_released(s: BatchState)
    requires
        s.wf(),
        s.is_finished(),
    ensures
        s.free_slots() == s.limit,
{
}

} // verus!

//! The deadline-suspension primitive: a unit of work that becomes complete
//! once the clock reaches a stored instant.
//!
//! Instants are ticks of a monotonic clock (`u64`, counted from an origin the
//! host picks). A notifier is named by a `u64` token; two resumptions that
//! supply the same token supply the same notifier.
use vstd::prelude::*;

verus! {

/// What a resumption asks the host to do.
#[derive(Clone, Copy, Debug, PartialEq, Eq, Structural)]
pub enum Progress {
    /// Report completion; nothing else happens.
    Ready,
    /// Store the supplied notifier and start the one timer thread of this
    /// instance; report "not ready".
    Arm,
    /// Replace the stored notifier with the supplied one; report "not ready".
    Refresh,
    /// Report "not ready"; the stored notifier already is the supplied one.
    Wait,
}

/// Abstract state of a [`Delay`].
pub struct DelayModel {
    /// The target instant.
    pub when: u64,
    /// The notifier slot: `None` until the timer is armed.
    pub notifier: Option<u64>,
    /// Whether completion has been reported.
    pub complete: bool,
}

impl DelayModel {
    /// Not armed and not complete.
    pub open spec fn is_unarmed(self) -> bool {
        !self.complete && self.notifier is None
    }

    /// The timer is armed and the deadline has not yet been observed.
    pub open spec fn is_armed(self) -> bool {
        !self.complete && self.notifier is Some
    }
}

/// A fresh instance with target `when`.
pub open spec fn fresh(when: u64) -> DelayModel {
    DelayModel { when, notifier: None, complete: false }
}

/// One resumption at clock reading `now`, supplying notifier `n`: the next
/// state and what the host must do.
pub open spec fn step(m: DelayModel, now: u64, n: u64) -> (DelayModel, Progress) {
    if m.complete {
        (m, Progress::Ready)
    } else if now >= m.when {
        (DelayModel { complete: true, ..m }, Progress::Ready)
    } else {
        match m.notifier {
            None => (DelayModel { notifier: Some(n), ..m }, Progress::Arm),
            Some(k) => if k == n {
                (m, Progress::Wait)
            } else {
                (DelayModel { notifier: Some(n), ..m }, Progress::Refresh)
            },
        }
    }
}

/// Resumes `m` once for each `(now, notifier)` pair of `polls`, in order:
/// the final state and the action of each resumption.
pub open spec fn run_polls(m: DelayModel, polls: Seq<(u64, u64)>) -> (DelayModel, Seq<Progress>)
    decreases polls.len(),
{
    if polls.len() == 0 {
        (m, Seq::empty())
    } else {
        let (m1, p) = step(m, polls[0].0, polls[0].1);
        let (m2, rest) = run_polls(m1, polls.drop_first());
        (m2, seq![p] + rest)
    }
}

/// How many of `actions` start a timer thread.
pub open spec fn arm_count(actions: Seq<Progress>) -> nat
    decreases actions.len(),
{
    if actions.len() == 0 {
        0
    } else {
        (if actions[0] == Progress::Arm { 1nat } else { 0nat }) + arm_count(actions.drop_first())
    }
}

/// A deadline already reached at the first resumption is reported complete
/// by that resumption, which starts no timer thread.
pub proof fn lemma_past_deadline_completes_at_once(when: u64, now: u64, n: u64)
    requires
        now >= when,
    ensures
        step(fresh(when), now, n).1 == Progress::Ready,
        step(fresh(when), now, n).0 == (DelayModel { when, notifier: None, complete: true }),
{
}

/// Completion is reported exactly when it was reported before or the clock
/// has reached the target.
pub proof fn lemma_ready_iff_deadline(m: DelayModel, now: u64, n: u64)
    ensures
        (step(m, now, n).1 == Progress::Ready) <==> (m.complete || now >= m.when),
        step(m, now, n).0.complete <==> (m.complete || now >= m.when),
{
}

/// While pending, a resumption leaves the slot holding the notifier it
/// supplied, and only a resumption of an unarmed instance starts a timer.
pub proof fn lemma_latest_notifier_kept(m: DelayModel, now: u64, n: u64)
    requires
        !m.complete,
        now < m.when,
    ensures
        step(m, now, n).0.notifier == Some(n),
        !step(m, now, n).0.complete,
        (step(m, now, n).1 == Progress::Arm) <==> m.notifier is None,
{
}

/// Once complete, every later resumption reports completion and changes
/// nothing.
pub proof fn lemma_complete_is_final(m: DelayModel, polls: Seq<(u64, u64)>)
    requires
        m.complete,
    ensures
        run_polls(m, polls).0 == m,
        run_polls(m, polls).1.len() == polls.len(),
        forall|i: int| 0 <= i < polls.len() ==> run_polls(m, polls).1[i] == Progress::Ready,
        arm_count(run_polls(m, polls).1) == 0,
    decreases polls.len(),
{
    if polls.len() > 0 {
        lemma_complete_is_final(m, polls.drop_first());
        let rest = run_polls(m, polls.drop_first()).1;
        assert forall|i: int| 0 <= i < polls.len() implies run_polls(m, polls).1[i]
            == Progress::Ready by {
            if i > 0 {
                assert((seq![Progress::Ready] + rest)[i] == rest[i - 1]);
            }
        }
        assert((seq![Progress::Ready] + rest).drop_first() =~= rest);
    }
}

/// An armed or complete instance never starts another timer thread.
pub proof fn lemma_no_second_timer(m: DelayModel, polls: Seq<(u64, u64)>)
    requires
        m.complete || m.notifier is Some,
    ensures
        arm_count(run_polls(m, polls).1) == 0,
        run_polls(m, polls).0.complete || run_polls(m, polls).0.notifier is Some,
    decreases polls.len(),
{
    if polls.len() > 0 {
        let m1 = step(m, polls[0].0, polls[0].1).0;
        lemma_no_second_timer(m1, polls.drop_first());
        let rest = run_polls(m1, polls.drop_first()).1;
        assert((seq![step(m, polls[0].0, polls[0].1).1] + rest).drop_first() =~= rest);
    }
}

/// Over the whole life of an instance, one timer thread is started when the
/// first resumption comes before the target, and none otherwise, however
/// many resumptions follow.
pub proof fn lemma_one_timer_per_instance(when: u64, polls: Seq<(u64, u64)>)
    ensures
        arm_count(run_polls(fresh(when), polls).1) == if polls.len() > 0 && polls[0].0 < when {
            1nat
        } else {
            0nat
        },
{
    if polls.len() > 0 {
        let (m1, p) = step(fresh(when), polls[0].0, polls[0].1);
        lemma_no_second_timer(m1, polls.drop_first());
        let rest = run_polls(m1, polls.drop_first()).1;
        assert((seq![p] + rest).drop_first() =~= rest);
    }
}

/// A fresh instance becomes complete only through a resumption at or after
/// its target.
pub proof fn lemma_complete_only_after_deadline(when: u64, polls: Seq<(u64, u64)>)
    ensures
        run_polls(fresh(when), polls).0.complete ==> exists|i: int|
            0 <= i < polls.len() && #[trigger] polls[i].0 >= when,
{
    lemma_completion_witness(fresh(when), polls);
}

proof fn lemma_completion_witness(m: DelayModel, polls: Seq<(u64, u64)>)
    requires
        !m.complete,
    ensures
        run_polls(m, polls).0.complete ==> exists|i: int|
            0 <= i < polls.len() && #[trigger] polls[i].0 >= m.when,
    decreases polls.len(),
{
    if polls.len() > 0 {
        let m1 = step(m, polls[0].0, polls[0].1).0;
        if !m1.complete {
            lemma_completion_witness(m1, polls.drop_first());
            if run_polls(m, polls).0.complete {
                let i = choose|i: int|
                    0 <= i < polls.drop_first().len() && #[trigger] polls.drop_first()[i].0
                        >= m1.when;
                assert(polls[i + 1].0 >= m.when);
            }
        } else {
            assert(polls[0].0 >= m.when);
        }
    }
}

/// The deadline-suspension primitive ("delay until a deadline").
pub struct Delay {
    when: u64,
    notifier: Option<u64>,
    complete: bool,
}

impl View for Delay {
    type V = DelayModel;

    closed spec fn view(&self) -> DelayModel {
        DelayModel { when: self.when, notifier: self.notifier, complete: self.complete }
    }
}

impl Delay {
    /// A delay that completes once the clock reaches `when`.
    pub fn new(when: u64) -> (r: Delay)
        ensures
            r@ == fresh(when),
    {
        Delay { when, notifier: None, complete: false }
    }

    /// The target instant.
    pub fn when(&self) -> (r: u64)
        ensures
            r == self@.when,
    {
        self.when
    }

    /// Whether completion has been reported.
    pub fn is_complete(&self) -> (r: bool)
        ensures
            r == self@.complete,
    {
        self.complete
    }

    /// The notifier that the timer thread invokes when it fires: the one
    /// most recently stored, read at fire time.
    pub fn notifier(&self) -> (r: Option<u64>)
        ensures
            r == self@.notifier,
    {
        self.notifier
    }

    /// How long the timer thread sleeps when started at `now`: the time left
    /// until the target, or zero once it has passed.
    pub fn remaining(&self, now: u64) -> (r: u64)
        ensures
            r == if now < self@.when { (self@.when - now) as u64 } else { 0 },
    {
        if now < self.when {
            self.when - now
        } else {
            0
        }
    }

    /// One resumption at clock reading `now`, supplying notifier `notifier`.
    /// Completion is reported exactly when it was reported before or `now`
    /// has reached the target; otherwise the first pending resumption arms
    /// the timer and later ones keep the slot holding the latest notifier.
    pub fn poll(&mut self, now: u64, notifier: u64) -> (r: Progress)
        ensures
            (final(self)@, r) == step(old(self)@, now, notifier),
    {
        if self.complete {
            return Progress::Ready;
        }
        if now >= self.when {
            self.complete = true;
            return Progress::Ready;
        }
        match self.notifier {
            None => {
                self.notifier = Some(notifier);
                Progress::Arm
            },
            Some(k) => {
                if k == notifier {
                    Progress::Wait
                } else {
                    self.notifier = Some(notifier);
                    Progress::Refresh
                }
            },
        }
    }
}

} // verus!

//! Decisions of the monitoring loop. The loop itself (sampling the server,
//! publishing, sleeping) is run by the caller, which asks `next_action` what
//! to do and reports back what happened.
use vstd::prelude::*;
use crate::presence::{format_presence, presence_text, status_of, PresenceUpdate, SampleOutcome, StatusTag, Target};

verus! {

/// Where the loop stands within a tick.
#[derive(Clone, Copy, Debug, PartialEq, Eq, Structural)]
pub enum Phase {
    /// The server is to be sampled next.
    Sampling,
    /// The update was published; the interval is to be waited out.
    Waiting,
    /// The loop was asked to stop.
    Stopped,
}

/// What the caller is to do next.
#[derive(Clone, Copy, Debug, PartialEq, Eq, Structural)]
pub enum Action {
    /// Sample the server and report the outcome with `on_sampled`.
    Sample,
    /// Sleep this many seconds, then call `on_wait_elapsed`.
    Wait(u64),
    /// Leave the loop.
    Stop,
}

/// The action for a phase.
pub open spec fn action_of(phase: Phase, interval_secs: u64) -> Action {
    match phase {
        Phase::Sampling => Action::Sample,
        Phase::Waiting => Action::Wait(interval_secs),
        Phase::Stopped => Action::Stop,
    }
}

/// The phase once a sample has been handled while sampling: the update is
/// published and the interval is to be waited out.
pub open spec fn phase_after_sample(phase: Phase) -> Phase {
    if phase == Phase::Sampling {
        Phase::Waiting
    } else {
        phase
    }
}

/// The phase once the interval has been waited out while waiting: sample
/// again.
pub open spec fn phase_after_wait(phase: Phase) -> Phase {
    if phase == Phase::Waiting {
        Phase::Sampling
    } else {
        phase
    }
}

/// A published update as a status and text.
pub open spec fn update_view(u: PresenceUpdate) -> (StatusTag, Seq<char>) {
    (u.status, u.text@)
}

/// The update published for an outcome.
pub open spec fn published_for(address: Seq<char>, o: SampleOutcome) -> (StatusTag, Seq<char>) {
    (status_of(o), presence_text(address, o))
}

/// Drives the loop over one outcome per tick, starting in `phase`: where the
/// action is to sample, the tick publishes the update of its outcome; where
/// the action that follows is to wait the interval, the tick waits and the
/// next one begins. Any other action ends the run. Gives the final phase and
/// the updates published, in order.
pub open spec fn run_ticks(
    phase: Phase,
    interval_secs: u64,
    address: Seq<char>,
    outcomes: Seq<SampleOutcome>,
) -> (Phase, Seq<(StatusTag, Seq<char>)>)
    decreases outcomes.len(),
{
    if outcomes.len() == 0 || action_of(phase, interval_secs) != Action::Sample {
        (phase, Seq::empty())
    } else {
        let published = seq![published_for(address, outcomes[0])];
        let sampled = phase_after_sample(phase);
        if action_of(sampled, interval_secs) != Action::Wait(interval_secs) {
            (sampled, published)
        } else {
            let rest = run_ticks(phase_after_wait(sampled), interval_secs, address, outcomes.drop_first());
            (rest.0, published + rest.1)
        }
    }
}

/// State of the monitoring loop: the immutable target and interval, and
/// the phase of the current tick.
pub struct Monitor {
    target: Target,
    interval_secs: u64,
    phase: Phase,
}

impl Monitor {
    pub closed spec fn target_spec(&self) -> Target {
        self.target
    }

    pub closed spec fn interval_spec(&self) -> u64 {
        self.interval_secs
    }

    pub closed spec fn phase_spec(&self) -> Phase {
        self.phase
    }

    /// The interval is positive.
    pub closed spec fn wf(&self) -> bool {
        self.interval_secs > 0
    }

    /// A loop that samples first, with no initial delay.
    pub fn new(target: Target, interval_secs: u64) -> (r: Monitor)
        requires
            interval_secs > 0,
        ensures
            r.wf(),
            r.target_spec() == target,
            r.interval_spec() == interval_secs,
            r.phase_spec() == Phase::Sampling,
    {
        Monitor { target, interval_secs, phase: Phase::Sampling }
    }

    pub fn target(&self) -> (r: &Target)
        ensures
            *r == self.target_spec(),
    {
        &self.target
    }

    pub fn interval_secs(&self) -> (r: u64)
        ensures
            r == self.interval_spec(),
    {
        self.interval_secs
    }

    pub fn phase(&self) -> (r: Phase)
        ensures
            r == self.phase_spec(),
    {
        self.phase
    }

    /// What the caller is to do next.
    pub fn next_action(&self) -> (r: Action)
        ensures
            r == action_of(self.phase_spec(), self.interval_spec()),
    {
        match self.phase {
            Phase::Sampling => Action::Sample,
            Phase::Waiting => Action::Wait(self.interval_secs),
            Phase::Stopped => Action::Stop,
        }
    }

    /// Takes the outcome of a sample and gives the update to publish; the
    /// loop then waits. A failure is absorbed into an `Unavailable` update.
    pub fn on_sampled(&mut self, outcome: &SampleOutcome) -> (r: PresenceUpdate)
        requires
            old(self).wf(),
            old(self).phase_spec() == Phase::Sampling,
        ensures
            final(self).wf(),
            final(self).target_spec() == old(self).target_spec(),
            final(self).interval_spec() == old(self).interval_spec(),
            final(self).phase_spec() == phase_after_sample(old(self).phase_spec()),
            update_view(r) == published_for(old(self).target_spec().address_spec(), *outcome),
    {
        let r = format_presence(self.target.display_address(), outcome);
        self.phase = Phase::Waiting;
        r
    }

    /// The interval has been waited out: the next tick samples again.
    pub fn on_wait_elapsed(&mut self)
        requires
            old(self).phase_spec() == Phase::Waiting,
        ensures
            final(self).target_spec() == old(self).target_spec(),
            final(self).interval_spec() == old(self).interval_spec(),
            final(self).phase_spec() == phase_after_wait(old(self).phase_spec()),
            old(self).wf() ==> final(self).wf(),
    {
        self.phase = Phase::Sampling;
    }

    /// Asks the loop to stop: from now on the action is `Stop`.
    pub fn stop(&mut self)
        ensures
            final(self).target_spec() == old(self).target_spec(),
            final(self).interval_spec() == old(self).interval_spec(),
            final(self).phase_spec() == Phase::Stopped,
            old(self).wf() ==> final(self).wf(),
    {
        self.phase = Phase::Stopped;
    }
}

/// Loop liveness: over any sequence of outcomes, failures included, a
/// running loop publishes exactly one update per tick, in order, with the
/// status and text of that tick's outcome, and is still running afterwards.
pub proof fn lemma_loop_publishes_every_tick(
    interval_secs: u64,
    address: Seq<char>,
    outcomes: Seq<SampleOutcome>,
)
    requires
        interval_secs > 0,
    ensures
        run_ticks(Phase::Sampling, interval_secs, address, outcomes).0 == Phase::Sampling,
        run_ticks(Phase::Sampling, interval_secs, address, outcomes).1 == outcomes.map_values(
            |o: SampleOutcome| published_for(address, o),
        ),
    decreases outcomes.len(),
{
    let pubs = outcomes.map_values(|o: SampleOutcome| published_for(address, o));
    if outcomes.len() > 0 {
        let rest = outcomes.drop_first();
        lemma_loop_publishes_every_tick(interval_secs, address, rest);
        assert(pubs =~= seq![published_for(address, outcomes[0])] + rest.map_values(
            |o: SampleOutcome| published_for(address, o),
        ));
    } else {
        assert(pubs =~= Seq::empty());
    }
}

} // verus!

//! The decisions of the probe engine: how many requests may be outstanding at
//! once, when to start the next one, and how redirects are handled.
use vstd::prelude::*;

verus! {

/// The most redirects that a request follows where following is asked for.
pub const MAX_REDIRECTS: usize = 3;

/// How a request treats a redirect.
#[derive(PartialEq, Eq, Structural)]
pub enum RedirectPolicy {
    Never,
    Limited(usize),
}

/// The redirect policy of a run: up to three hops where asked, else none.
pub fn redirect_policy(follow_redirect: bool) -> (r: RedirectPolicy)
    ensures
        follow_redirect ==> r == RedirectPolicy::Limited(MAX_REDIRECTS),
        !follow_redirect ==> r == RedirectPolicy::Never,
{
    if follow_redirect {
        RedirectPolicy::Limited(MAX_REDIRECTS)
    } else {
        RedirectPolicy::Never
    }
}

/// What the engine does next.
#[derive(PartialEq, Eq, Structural)]
pub enum Step {
    /// Start a request for the next URL, if one is left.
    StartRequest,
    /// Wait for one outstanding request to end, whichever ends first.
    AwaitCompletion,
    /// Nothing is outstanding and no URL is left.
    Finish,
}

/// The requests that are outstanding, bounded by the worker limit.
pub struct AdmissionWindow {
    limit: usize,
    in_flight: usize,
}

impl AdmissionWindow {
    /// The worker limit is positive and no more requests are outstanding.
    pub closed spec fn wf(&self) -> bool {
        0 < self.limit && self.in_flight <= self.limit
    }

    pub closed spec fn limit_spec(&self) -> nat {
        self.limit as nat
    }

    pub closed spec fn outstanding(&self) -> nat {
        self.in_flight as nat
    }

    /// A window with nothing outstanding.
    pub fn new(limit: usize) -> (r: Self)
        requires
            limit > 0,
        ensures
            r.wf(),
            r.limit_spec() == limit,
            r.outstanding() == 0,
    {
        AdmissionWindow { limit, in_flight: 0 }
    }

    pub fn limit(&self) -> (r: usize)
        ensures
            r as nat == self.limit_spec(),
    {
        self.limit
    }

    pub fn in_flight(&self) -> (r: usize)
        ensures
            r as nat == self.outstanding(),
    {
        self.in_flight
    }

    /// Whether one more request may start.
    pub fn has_room(&self) -> (r: bool)
        ensures
            r == (self.outstanding() < self.limit_spec()),
    {
        self.in_flight < self.limit
    }

    /// What to do next, given whether URLs may be left: start another request
    /// while there is room and input, else wait while any is outstanding, else
    /// finish.
    pub fn next_step(&self, input_left: bool) -> (r: Step)
        ensures
            r == Step::StartRequest <==> (input_left && self.outstanding() < self.limit_spec()),
            r == Step::AwaitCompletion <==> (!(input_left && self.outstanding() < self.limit_spec())
                && self.outstanding() > 0),
            r == Step::Finish <==> (!(input_left && self.outstanding() < self.limit_spec())
                && self.outstanding() == 0),
    {
        if input_left && self.in_flight < self.limit {
            Step::StartRequest
        } else if self.in_flight > 0 {
            Step::AwaitCompletion
        } else {
            Step::Finish
        }
    }

    /// Counts one more outstanding request where there is room for it, and
    /// says whether there was.
    pub fn start_request(&mut self) -> (r: bool)
        requires
            old(self).wf(),
        ensures
            final(self).wf(),
            final(self).limit_spec() == old(self).limit_spec(),
            r == (old(self).outstanding() < old(self).limit_spec()),
            r ==> final(self).outstanding() == old(self).outstanding() + 1,
            !r ==> final(self).outstanding() == old(self).outstanding(),
            final(self).outstanding() == after_events(old(self).limit_spec(), old(self).outstanding(), seq![WindowEvent::Start]),
    {
        proof {
            let ev = seq![WindowEvent::Start];
            assert(ev.drop_last() =~= Seq::<WindowEvent>::empty());
            assert(after_events(self.limit as nat, self.in_flight as nat, ev.drop_last()) == self.in_flight as nat);
        }
        if self.in_flight < self.limit {
            self.in_flight = self.in_flight + 1;
            true
        } else {
            false
        }
    }

    /// Counts one outstanding request as ended.
    pub fn complete(&mut self)
        requires
            old(self).wf(),
        ensures
            final(self).wf(),
            final(self).limit_spec() == old(self).limit_spec(),
            old(self).outstanding() > 0 ==> final(self).outstanding() == old(self).outstanding() - 1,
            old(self).outstanding() == 0 ==> final(self).outstanding() == 0,
            final(self).outstanding() == after_events(old(self).limit_spec(), old(self).outstanding(), seq![WindowEvent::End]),
    {
        proof {
            let ev = seq![WindowEvent::End];
            assert(ev.drop_last() =~= Seq::<WindowEvent>::empty());
            assert(after_events(self.limit as nat, self.in_flight as nat, ev.drop_last()) == self.in_flight as nat);
        }
        if self.in_flight > 0 {
            self.in_flight = self.in_flight - 1;
        }
    }
}

/// One event of a run: a request starts, or one ends.
pub enum WindowEvent {
    Start,
    End,
}

/// The number of outstanding requests after a sequence of events, each
/// applied as `start_request` or `complete` applies it.
pub open spec fn after_events(limit: nat, in_flight: nat, events: Seq<WindowEvent>) -> nat
    decreases events.len(),
{
    if events.len() == 0 {
        in_flight
    } else {
        let before = after_events(limit, in_flight, events.drop_last());
        match events.last() {
            WindowEvent::Start => if before < limit { before + 1 } else { before },
            WindowEvent::End => if before > 0 { (before - 1) as nat } else { 0 },
        }
    }
}

/// Whatever the order of starts and ends, the number of outstanding requests
/// never exceeds the worker limit, from any start within it.
pub proof fn law_outstanding_bounded(limit: nat, start: nat, events: Seq<WindowEvent>)
    requires
        start <= limit,
    ensures
        after_events(limit, start, events) <= limit,
    decreases events.len(),
{
    if events.len() > 0 {
        law_outstanding_bounded(limit, start, events.drop_last());
    }
}

} // verus!

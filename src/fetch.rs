//! The download coordinator: one state per report source, moved forward by
//! the requests of the user and by what each source's fetch unit delivers.
//! Running the units and polling their channels is left to the caller, who
//! hands the coordinator each outcome as an event.

use vstd::prelude::*;
use crate::report::{Report, WeatherReport};

verus! {

/// A remote report, known before anything is fetched.
#[derive(Clone, Debug)]
pub struct ReportSource {
    pub id: usize,
    pub display_name: String,
    pub locator: String,
}

#[derive(Clone, Debug)]
pub enum FetchError {
    /// The network or the server failed.
    Transport(String),
    /// The bytes could not be turned into text.
    Decode(String),
    /// The report parser rejected the text.
    Parse(String),
    /// The fetch unit ended without delivering anything.
    Internal,
}

/// What a fetch unit delivers.
#[derive(Debug)]
#[allow(inconsistent_fields)]
pub enum FetchOutcome {
    Fetched { original: String, report: WeatherReport },
    Failed { original: Option<String>, error: FetchError },
}

/// What a non-blocking look at a fetch unit's channel finds.
#[derive(Debug)]
pub enum PollEvent {
    /// Nothing yet.
    Pending,
    Ready(FetchOutcome),
    /// The unit is gone and nothing was sent.
    Disconnected,
}

/// The state of one source. `H` is the handle of its running fetch unit.
#[derive(Debug)]
#[allow(inconsistent_fields)]
pub enum FetchState<H> {
    Idle,
    InFlight(H),
    Succeeded { original: String, report: WeatherReport },
    Failed { original: Option<String>, error: FetchError },
}

impl<H> FetchState<H> {
    /// Idle, in flight, or done: states only move up this scale but when
    /// reset.
    pub open spec fn rank(self) -> int {
        match self {
            FetchState::Idle => 0,
            FetchState::InFlight(_) => 1,
            _ => 2,
        }
    }
}

/// The state a source reaches when `e` is seen on its channel.
pub open spec fn after_poll<H>(s: FetchState<H>, e: PollEvent) -> FetchState<H> {
    match s {
        FetchState::InFlight(_) => match e {
            PollEvent::Pending => s,
            PollEvent::Ready(FetchOutcome::Fetched { original, report }) => FetchState::Succeeded {
                original,
                report,
            },
            PollEvent::Ready(FetchOutcome::Failed { original, error }) => FetchState::Failed {
                original,
                error,
            },
            PollEvent::Disconnected => FetchState::Failed {
                original: None,
                error: FetchError::Internal,
            },
        },
        _ => s,
    }
}

/// What a channel delivers never moves a source back: an in-flight source
/// stays in flight or finishes, and every other state is kept as it is.
pub proof fn lemma_poll_moves_forward<H>(s: FetchState<H>, e: PollEvent)
    ensures
        after_poll(s, e).rank() >= s.rank(),
        s.rank() != 1 ==> after_poll(s, e) == s,
        s.rank() == 1 && !(e is Pending) ==> after_poll(s, e).rank() == 2,
{
}

/// What a fetch unit delivers once the parser has seen the text: the text
/// is kept whether or not it parsed.
pub fn parsed_outcome(text: String, parsed: Result<WeatherReport, String>) -> (r: FetchOutcome)
    ensures
        parsed matches Ok(report) ==> r == (FetchOutcome::Fetched { original: text, report }),
        parsed matches Err(msg) ==> r == (FetchOutcome::Failed {
            original: Some(text),
            error: FetchError::Parse(msg),
        }),
{
    match parsed {
        Ok(report) => FetchOutcome::Fetched { original: text, report },
        Err(msg) => FetchOutcome::Failed { original: Some(text), error: FetchError::Parse(msg) },
    }
}

/// The reports of the sources that succeeded, in the order of the sources.
pub open spec fn succeeded_reports<H>(s: Seq<FetchState<H>>) -> Seq<Report>
    decreases s.len(),
{
    if s.len() == 0 {
        seq![]
    } else {
        let rest = succeeded_reports(s.subrange(1, s.len() as int));
        match s[0] {
            FetchState::Succeeded { original, report } => seq![
                Report { original: Some(original), report },
            ] + rest,
            _ => rest,
        }
    }
}

/// The sources of a catalog and the fetch state of each.
pub struct FetchCoordinator<H> {
    sources: Vec<ReportSource>,
    states: Vec<FetchState<H>>,
}

impl<H> FetchCoordinator<H> {
    pub open spec fn wf(self) -> bool {
        self.sources_view().len() == self.states_view().len()
    }

    pub closed spec fn sources_view(self) -> Seq<ReportSource> {
        self.sources@
    }

    pub closed spec fn states_view(self) -> Seq<FetchState<H>> {
        self.states@
    }

    /// Every source idle.
    pub fn new(sources: Vec<ReportSource>) -> (r: Self)
        ensures
            r.wf(),
            r.sources_view() == sources@,
            r.states_view().len() == sources@.len(),
            forall|i: int| 0 <= i < sources@.len() ==> #[trigger] r.states_view()[i] is Idle,
    {
        let mut states: Vec<FetchState<H>> = Vec::new();
        let mut i: usize = 0;
        while i < sources.len()
            invariant
                i <= sources@.len(),
                states@.len() == i,
                forall|j: int| 0 <= j < i ==> #[trigger] states@[j] is Idle,
            decreases sources@.len() - i,
        {
            states.push(FetchState::Idle);
            i = i + 1;
        }
        FetchCoordinator { sources, states }
    }

    pub fn len(&self) -> (r: usize)
        requires
            self.wf(),
        ensures
            r == self.sources_view().len(),
            r == self.states_view().len(),
    {
        self.sources.len()
    }

    pub fn source(&self, i: usize) -> (r: &ReportSource)
        requires
            i < self.sources_view().len(),
        ensures
            *r == self.sources_view()[i as int],
    {
        &self.sources[i]
    }

    pub fn state(&self, i: usize) -> (r: &FetchState<H>)
        requires
            i < self.states_view().len(),
        ensures
            *r == self.states_view()[i as int],
    {
        &self.states[i]
    }

    /// Whether source `i` waits for a fetch unit: it does while idle.
    pub fn wants_fetch(&self, i: usize) -> (r: bool)
        requires
            i < self.states_view().len(),
        ensures
            r == self.states_view()[i as int] is Idle,
    {
        match &self.states[i] {
            FetchState::Idle => true,
            _ => false,
        }
    }

    /// Source `i` was selected and a fetch unit with handle `handle` was
    /// started for it. An idle source goes in flight and keeps the handle;
    /// any other source is left as it is and the handle is dropped.
    pub fn start(&mut self, i: usize, handle: H) -> (r: bool)
        requires
            old(self).wf(),
            i < old(self).states_view().len(),
        ensures
            final(self).wf(),
            final(self).sources_view() == old(self).sources_view(),
            r == old(self).states_view()[i as int] is Idle,
            r ==> final(self).states_view() == old(self).states_view().update(
                i as int,
                FetchState::InFlight(handle),
            ),
            !r ==> final(self).states_view() == old(self).states_view(),
    {
        match &self.states[i] {
            FetchState::Idle => {},
            _ => return false,
        }
        let _ = self.states.remove(i);
        self.states.insert(i, FetchState::InFlight(handle));
        assert(self.states@ =~= old(self).states@.update(i as int, FetchState::InFlight(handle)));
        true
    }

    /// Hands source `i` what a non-blocking look at its channel found. An
    /// in-flight source succeeds or fails with the outcome, fails with an
    /// internal error when its unit vanished, and stays in flight while
    /// nothing is ready. For any other source the event is discarded.
    pub fn poll(&mut self, i: usize, event: PollEvent)
        requires
            old(self).wf(),
            i < old(self).states_view().len(),
        ensures
            final(self).wf(),
            final(self).sources_view() == old(self).sources_view(),
            final(self).states_view() == old(self).states_view().update(
                i as int,
                after_poll(old(self).states_view()[i as int], event),
            ),
    {
        let in_flight = match &self.states[i] {
            FetchState::InFlight(_) => true,
            _ => false,
        };
        let pending = match &event {
            PollEvent::Pending => true,
            _ => false,
        };
        if !in_flight || pending {
            assert(self.states@ =~= old(self).states@.update(
                i as int,
                after_poll(old(self).states@[i as int], event),
            ));
            return ;
        }
        let next = match event {
            PollEvent::Ready(FetchOutcome::Fetched { original, report }) => FetchState::Succeeded {
                original,
                report,
            },
            PollEvent::Ready(FetchOutcome::Failed { original, error }) => FetchState::Failed {
                original,
                error,
            },
            _ => FetchState::Failed { original: None, error: FetchError::Internal },
        };
        let _ = self.states.remove(i);
        self.states.insert(i, next);
        assert(self.states@ =~= old(self).states@.update(
            i as int,
            after_poll(old(self).states@[i as int], event),
        ));
    }

    /// Lets a finished source be fetched again: a source that succeeded or
    /// failed becomes idle. An idle or in-flight source is left as it is.
    pub fn reset(&mut self, i: usize) -> (r: bool)
        requires
            old(self).wf(),
            i < old(self).states_view().len(),
        ensures
            final(self).wf(),
            final(self).sources_view() == old(self).sources_view(),
            r == (old(self).states_view()[i as int].rank() == 2),
            r ==> final(self).states_view() == old(self).states_view().update(
                i as int,
                FetchState::Idle,
            ),
            !r ==> final(self).states_view() == old(self).states_view(),
    {
        match &self.states[i] {
            FetchState::Succeeded { .. } => {},
            FetchState::Failed { .. } => {},
            _ => return false,
        }
        let _ = self.states.remove(i);
        self.states.insert(i, FetchState::Idle);
        assert(self.states@ =~= old(self).states_view().update(i as int, FetchState::Idle));
        true
    }

    /// The reports of the sources that succeeded, each with its text, in
    /// the order of the sources.
    pub fn into_reports(self) -> (r: Vec<Report>)
        ensures
            r@ == succeeded_reports(self.states_view()),
    {
        let ghost all = self.states@;
        let mut states = self.states;
        let mut out: Vec<Report> = Vec::new();
        let ghost mut k: int = 0;
        while states.len() > 0
            invariant
                0 <= k <= all.len(),
                states@ == all.subrange(k, all.len() as int),
                out@ + succeeded_reports(states@) == succeeded_reports(all),
            decreases states@.len(),
        {
            let ghost before = states@;
            let state = states.remove(0);
            assert(states@ =~= before.subrange(1, before.len() as int));
            match state {
                FetchState::Succeeded { original, report } => {
                    let ghost o = out@;
                    out.push(Report { original: Some(original), report });
                    assert(out@ =~= o + seq![Report { original: Some(original), report }]);
                    assert(out@ + succeeded_reports(states@) =~= o + succeeded_reports(before));
                },
                _ => {},
            }
            proof {
                k = k + 1;
            }
        }
        assert(succeeded_reports(states@) =~= seq![]);
        assert(out@ =~= out@ + succeeded_reports(states@));
        out
    }
}

} // verus!

//! How the download of one tile proceeds.
//!
//! A download is a small state machine. The caller performs what the
//! machine asks for (look for the file, render the address, send the
//! request, store the body, wait) and reports what came of it; the machine
//! decides what is next. It ends as saved, skipped or failed.
//!
//! An attempt begins with the rendering of the address. A failure of any
//! kind ends the attempt; while retries are left the machine waits and
//! begins another one, otherwise the download has failed. An answer of "too
//! many requests" is no failure: the machine waits as long as the server
//! asks and sends the same request again, within the same attempt.

use vstd::prelude::*;
use crate::decimal::{parse_decimal, parse_unsigned};

verus! {

/// Seconds to wait before another attempt, and after a "too many requests"
/// answer that does not say how long to wait.
pub const BACKOFF_DELAY: u64 = 10;

/// The status code of a "too many requests" answer.
pub const TOO_MANY_REQUESTS: u16 = 429;

/// How a download ended.
#[derive(Clone, Copy, Debug, PartialEq, Eq, Structural)]
pub enum Outcome {
    /// The tile was fetched and written to its file.
    Saved,
    /// The file was there already and nothing was requested.
    Skipped,
    /// Every attempt failed.
    Failed,
}

/// What of the configuration a download depends on.
#[derive(Clone, Copy, Debug, PartialEq, Eq, Structural)]
pub struct Policy {
    /// How many more attempts may follow the first one.
    pub retries: u8,
    /// Whether a tile is fetched even though its file exists.
    pub fetch_existing: bool,
}

/// Where a download stands.
#[derive(Clone, Copy, Debug, PartialEq, Eq, Structural)]
pub enum Phase {
    /// Whether the file exists is being looked up.
    Checking,
    /// The address is being rendered.
    Rendering,
    /// The request is out.
    Requesting,
    /// The body of a successful answer is being written to the file.
    Storing,
    /// The server asked for a pause of `seconds`.
    RateLimited { seconds: u64 },
    /// An attempt failed and another one follows after a pause.
    Backoff,
    /// The download is over.
    Finished { outcome: Outcome },
}

/// What the caller is to do next.
#[derive(Clone, Copy, Debug, PartialEq, Eq, Structural)]
pub enum Action {
    /// Look whether the tile's file exists; report `Event::Existence`.
    CheckExisting,
    /// Render the tile's address; report `Event::Rendered` or
    /// `Event::RenderFailed`.
    Render,
    /// Send a GET request to the address rendered last; report
    /// `Event::Response` or `Event::TransportFailed`.
    Request,
    /// Write the body of the answer to the tile's file; report
    /// `Event::Stored` or `Event::StoreFailed`.
    Store,
    /// Wait for `seconds`; report `Event::Elapsed`.
    Wait { seconds: u64 },
    /// Nothing: the download is over.
    Stop { outcome: Outcome },
}

/// What came of an action.
#[derive(Clone, Copy, Debug, PartialEq, Eq)]
pub enum Event {
    /// Whether the tile's file exists.
    Existence { exists: bool },
    /// The address was rendered.
    Rendered,
    /// The address could not be rendered.
    RenderFailed,
    /// The server answered with `status`; `retry_after` is the number of
    /// seconds in its `Retry-After` header, if it sent one that reads as a
    /// number.
    Response { status: u16, retry_after: Option<u64> },
    /// No answer arrived.
    TransportFailed,
    /// The body was written to the file.
    Stored,
    /// The body could not be read to its end, or not be written.
    StoreFailed,
    /// The wait is over.
    Elapsed,
}

/// The state of one tile's download as contracts see it.
pub struct State {
    /// What the download goes by.
    pub policy: Policy,
    /// Where the download stands.
    pub phase: Phase,
    /// How many attempts have begun.
    pub attempts: nat,
}

/// Whether `status` reports success.
pub open spec fn is_success(status: u16) -> bool {
    200 <= status < 300
}

/// Whether `event` is an answer that reports success.
pub open spec fn is_success_response(event: Event) -> bool {
    event matches Event::Response { status, .. } && is_success(status)
}

/// How long to wait after a "too many requests" answer: as long as the
/// server asks, or the usual delay where it does not say.
pub open spec fn pause_for(retry_after: Option<u64>) -> u64 {
    match retry_after {
        Some(seconds) => seconds,
        None => BACKOFF_DELAY,
    }
}

impl State {
    /// The state that every download starts in: the file is looked for
    /// first, unless existing files are to be fetched again, in which case
    /// the first attempt begins at once.
    pub open spec fn initial(policy: Policy) -> State {
        if policy.fetch_existing {
            State { policy, phase: Phase::Rendering, attempts: 1 }
        } else {
            State { policy, phase: Phase::Checking, attempts: 0 }
        }
    }

    /// The same download in another phase.
    pub open spec fn at(self, phase: Phase) -> State {
        State { phase, ..self }
    }

    /// The state after the current attempt has failed: a pause and then
    /// another attempt while fewer than `retries + 1` have begun, the end
    /// otherwise.
    pub open spec fn after_failure(self) -> State {
        if self.attempts <= self.policy.retries {
            self.at(Phase::Backoff)
        } else {
            self.at(Phase::Finished { outcome: Outcome::Failed })
        }
    }

    /// The state that follows when `event` is reported, or `None` where
    /// `event` is no report on what the state asked for.
    pub open spec fn next(self, event: Event) -> Option<State> {
        match (self.phase, event) {
            (Phase::Checking, Event::Existence { exists }) => Some(
                if exists {
                    self.at(Phase::Finished { outcome: Outcome::Skipped })
                } else {
                    State { attempts: self.attempts + 1, ..self.at(Phase::Rendering) }
                },
            ),
            (Phase::Rendering, Event::Rendered) => Some(self.at(Phase::Requesting)),
            (Phase::Rendering, Event::RenderFailed) => Some(self.after_failure()),
            (Phase::Requesting, Event::Response { status, retry_after }) => Some(
                if status == TOO_MANY_REQUESTS {
                    self.at(Phase::RateLimited { seconds: pause_for(retry_after) })
                } else if is_success(status) {
                    self.at(Phase::Storing)
                } else {
                    self.after_failure()
                },
            ),
            (Phase::Requesting, Event::TransportFailed) => Some(self.after_failure()),
            (Phase::Storing, Event::Stored) => Some(
                self.at(Phase::Finished { outcome: Outcome::Saved }),
            ),
            (Phase::Storing, Event::StoreFailed) => Some(self.after_failure()),
            (Phase::RateLimited { .. }, Event::Elapsed) => Some(self.at(Phase::Requesting)),
            (Phase::Backoff, Event::Elapsed) => Some(
                State { attempts: self.attempts + 1, ..self.at(Phase::Rendering) },
            ),
            _ => None,
        }
    }

    /// An upper bound on the number of reports, pauses asked for by the
    /// server apart, that the download can still take: five for every
    /// attempt that has not begun, and up to five for where it stands.
    pub open spec fn steps_left(self) -> nat {
        let here: nat = match self.phase {
            Phase::Checking => 5,
            Phase::Rendering => 4,
            Phase::Requesting | Phase::RateLimited { .. } => 3,
            Phase::Storing => 2,
            Phase::Backoff => 1,
            Phase::Finished { .. } => 0,
        };
        (5 * (self.policy.retries + 1 - self.attempts) + here) as nat
    }

    /// What the state asks the caller to do.
    pub open spec fn pending(self) -> Action {
        match self.phase {
            Phase::Checking => Action::CheckExisting,
            Phase::Rendering => Action::Render,
            Phase::Requesting => Action::Request,
            Phase::Storing => Action::Store,
            Phase::RateLimited { seconds } => Action::Wait { seconds },
            Phase::Backoff => Action::Wait { seconds: BACKOFF_DELAY },
            Phase::Finished { outcome } => Action::Stop { outcome },
        }
    }

    /// Whether the state can come up in a download: the number of attempts
    /// fits where the download stands.
    pub open spec fn wf(self) -> bool {
        match self.phase {
            Phase::Checking => self.attempts == 0 && !self.policy.fetch_existing,
            Phase::Rendering | Phase::Requesting | Phase::Storing | Phase::RateLimited { .. } => 1
                <= self.attempts <= self.policy.retries + 1,
            Phase::Backoff => 1 <= self.attempts <= self.policy.retries,
            Phase::Finished { outcome: Outcome::Saved } => 1 <= self.attempts
                <= self.policy.retries + 1,
            Phase::Finished { outcome: Outcome::Skipped } => self.attempts == 0
                && !self.policy.fetch_existing,
            Phase::Finished { outcome: Outcome::Failed } => self.attempts == self.policy.retries
                + 1,
        }
    }

    /// The state after the events of `events` have been reported in turn,
    /// those that are no report on what was asked for being passed over.
    pub open spec fn run(self, events: Seq<Event>) -> State
        decreases events.len(),
    {
        if events.len() == 0 {
            self
        } else {
            let before = self.run(events.drop_last());
            match before.next(events.last()) {
                Some(after) => after,
                None => before,
            }
        }
    }

    /// How often the caller is asked to render the address, and so how many
    /// attempts begin, while the events of `events` are reported in turn.
    pub open spec fn renders(self, events: Seq<Event>) -> nat
        decreases events.len(),
    {
        if events.len() == 0 {
            if self.phase is Rendering {
                1
            } else {
                0
            }
        } else {
            let before = self.run(events.drop_last());
            let earlier = self.renders(events.drop_last());
            match before.next(events.last()) {
                Some(after) => if after.phase is Rendering {
                    earlier + 1
                } else {
                    earlier
                },
                None => earlier,
            }
        }
    }

    /// Whether the caller is asked to store a body at some point while the
    /// events of `events` are reported in turn.
    pub open spec fn stores(self, events: Seq<Event>) -> bool {
        exists|k: int| 0 <= k <= events.len() && (#[trigger] self.run(events.take(k))).phase is Storing
    }
}

/// Whether `event` is a report on what `action` asks for.
pub open spec fn answers(event: Event, action: Action) -> bool {
    match action {
        Action::CheckExisting => event is Existence,
        Action::Render => event is Rendered || event is RenderFailed,
        Action::Request => event is Response || event is TransportFailed,
        Action::Store => event is Stored || event is StoreFailed,
        Action::Wait { .. } => event is Elapsed,
        Action::Stop { .. } => false,
    }
}

/// Whether reporting `event` in `state` begins or ends a pause that the
/// server asked for.
pub open spec fn is_rate_limit_step(state: State, event: Event) -> bool {
    match (state.phase, event) {
        (Phase::RateLimited { .. }, _) => true,
        (Phase::Requesting, Event::Response { status, .. }) => status == TOO_MANY_REQUESTS,
        _ => false,
    }
}

/// A report is taken exactly where it answers what the state asks for. A
/// download that is over takes none.
pub proof fn lemma_report_taken(state: State, event: Event)
    ensures
        state.next(event) is Some <==> answers(event, state.pending()),
{
}

/// Apart from the pauses that a server asks for, which go on as long as it
/// keeps asking, every report brings a download closer to its end: the
/// number `steps_left` goes down. A download under a policy of `retries`
/// retries is therefore over after at most `5 * (retries + 2)` reports that
/// are no such pause.
pub proof fn lemma_steps_left(state: State, event: Event)
    requires
        state.wf(),
        state.next(event) is Some,
        !is_rate_limit_step(state, event),
    ensures
        state.next(event)->Some_0.steps_left() < state.steps_left(),
        state.steps_left() <= 5 * (state.policy.retries + 2),
{
}

/// A step leads from a state that can come up to one that can, under the
/// same policy.
pub proof fn lemma_next_wf(state: State, event: Event)
    requires
        state.wf(),
    ensures
        state.next(event) matches Some(after) ==> after.wf() && after.policy == state.policy,
{
}

/// Whatever is reported, a download stays in states that can come up, and
/// its count of attempts is the number of times that an attempt began.
pub proof fn lemma_run_wf(policy: Policy, events: Seq<Event>)
    ensures
        State::initial(policy).run(events).wf(),
        State::initial(policy).run(events).policy == policy,
        State::initial(policy).run(events).attempts == State::initial(policy).renders(events),
    decreases events.len(),
{
    if events.len() > 0 {
        lemma_run_wf(policy, events.drop_last());
        lemma_next_wf(State::initial(policy).run(events.drop_last()), events.last());
    }
}

/// Retries: whatever is reported, a download that has ended as failed has
/// begun exactly `retries + 1` attempts, one that is under way or has ended
/// as saved at most that many, and one that was skipped none.
pub proof fn lemma_attempts(policy: Policy, events: Seq<Event>)
    ensures
        ({
            let end = State::initial(policy).run(events);
            let begun = State::initial(policy).renders(events);
            &&& begun <= policy.retries + 1
            &&& end.phase == (Phase::Finished { outcome: Outcome::Failed }) ==> begun
                == policy.retries + 1
            &&& end.phase == (Phase::Finished { outcome: Outcome::Skipped }) ==> begun == 0
        }),
{
    lemma_run_wf(policy, events);
}

/// A failure while retries are left leads to a pause of the usual length
/// and then to another attempt; a failure of the last attempt ends the
/// download as failed.
pub proof fn lemma_failure(state: State)
    requires
        state.wf(),
        state.phase is Rendering || state.phase is Requesting || state.phase is Storing,
    ensures
        state.attempts <= state.policy.retries ==> {
            &&& state.after_failure().pending() == (Action::Wait { seconds: BACKOFF_DELAY })
            &&& state.after_failure().next(Event::Elapsed) == Some(
                State { attempts: state.attempts + 1, ..state.at(Phase::Rendering) },
            )
        },
        state.attempts == state.policy.retries + 1 ==> state.after_failure().pending() == (
        Action::Stop { outcome: Outcome::Failed }),
{
}

/// Nothing is written without a successful answer: where none of the
/// reported events is an answer with a success status, the caller is never
/// asked to store a body, and the download does not end as saved.
pub proof fn lemma_no_store_without_success(policy: Policy, events: Seq<Event>)
    requires
        forall|i: int| 0 <= i < events.len() ==> !is_success_response(#[trigger] events[i]),
    ensures
        !State::initial(policy).stores(events),
        State::initial(policy).run(events).phase != (Phase::Finished { outcome: Outcome::Saved }),
    decreases events.len(),
{
    let start = State::initial(policy);
    if events.len() > 0 {
        let front = events.drop_last();
        lemma_no_store_without_success(policy, front);
        assert forall|k: int| 0 <= k <= events.len() implies !((#[trigger] start.run(
            events.take(k),
        )).phase is Storing) by {
            if k < events.len() {
                assert(events.take(k) =~= front.take(k));
            } else {
                assert(events.take(k) =~= events);
                assert(front.take(front.len() as int) =~= front);
            }
        }
    } else {
        assert forall|k: int| 0 <= k <= events.len() implies !((#[trigger] start.run(
            events.take(k),
        )).phase is Storing) by {
            assert(events.take(k) =~= events);
        }
    }
}

/// Skipping: where existing files are not fetched again, a download first
/// asks whether the file exists, and the answer that it does ends the
/// download as skipped at once, with no attempt begun.
pub proof fn lemma_skip_existing(policy: Policy)
    requires
        !policy.fetch_existing,
    ensures
        State::initial(policy).pending() == Action::CheckExisting,
        State::initial(policy).next(Event::Existence { exists: true }) == Some(
            State { policy, phase: Phase::Finished { outcome: Outcome::Skipped }, attempts: 0 },
        ),
        State::initial(policy).renders(seq![Event::Existence { exists: true }]) == 0,
{
    let events = seq![Event::Existence { exists: true }];
    assert(events.drop_last() =~= Seq::<Event>::empty());
    assert(events.last() == (Event::Existence { exists: true }));
    assert(State::initial(policy).run(events.drop_last()) == State::initial(policy));
    assert(State::initial(policy).renders(events.drop_last()) == 0);
}

/// The count of attempts never goes down in the course of a download.
proof fn lemma_attempts_grow(policy: Policy, events: Seq<Event>, k: int)
    requires
        0 <= k <= events.len(),
    ensures
        State::initial(policy).run(events.take(k)).attempts <= State::initial(policy).run(
            events,
        ).attempts,
    decreases events.len() - k,
{
    if k == events.len() {
        assert(events.take(k) =~= events);
    } else {
        lemma_attempts_grow(policy, events, k + 1);
        assert(events.take(k + 1).drop_last() =~= events.take(k));
    }
}

/// Skipping leaves the network alone: a download that has ended as skipped
/// has at no point asked for anything but a look at the file.
pub proof fn lemma_skipped_without_request(policy: Policy, events: Seq<Event>)
    requires
        State::initial(policy).run(events).phase == (Phase::Finished { outcome: Outcome::Skipped }),
    ensures
        forall|k: int|
            0 <= k <= events.len() ==> {
                let then = #[trigger] State::initial(policy).run(events.take(k));
                then.pending() == Action::CheckExisting || then.pending() == (Action::Stop {
                    outcome: Outcome::Skipped,
                })
            },
{
    lemma_run_wf(policy, events);
    assert forall|k: int| 0 <= k <= events.len() implies {
        let then = #[trigger] State::initial(policy).run(events.take(k));
        then.pending() == Action::CheckExisting || then.pending() == (Action::Stop {
            outcome: Outcome::Skipped,
        })
    } by {
        lemma_attempts_grow(policy, events, k);
        lemma_run_wf(policy, events.take(k));
    }
}

/// Rate limits: a "too many requests" answer makes the download wait as
/// long as the server asks, or the usual delay where it does not say, and
/// then leads back to the very state in which the request went out. No
/// attempt is used up.
pub proof fn lemma_rate_limit(state: State, retry_after: Option<u64>)
    requires
        state.phase is Requesting,
    ensures
        ({
            let limited = state.next(
                Event::Response { status: TOO_MANY_REQUESTS, retry_after },
            );
            &&& limited is Some
            &&& limited->Some_0.attempts == state.attempts
            &&& limited->Some_0.pending() == (Action::Wait { seconds: pause_for(retry_after) })
            &&& limited->Some_0.next(Event::Elapsed) == Some(state)
        }),
        retry_after matches Some(seconds) ==> pause_for(retry_after) == seconds,
        retry_after is None ==> pause_for(retry_after) == BACKOFF_DELAY,
{
}

/// The state of one tile's download.
#[derive(Clone, Copy, Debug, PartialEq, Eq)]
pub struct Download {
    policy: Policy,
    phase: Phase,
    attempts: u16,
}

impl View for Download {
    type V = State;

    closed spec fn view(&self) -> State {
        State { policy: self.policy, phase: self.phase, attempts: self.attempts as nat }
    }
}

impl Download {
    #[verifier::type_invariant]
    spec fn inv(&self) -> bool {
        self@.wf()
    }

    /// The state that a download under `policy` starts in.
    pub fn start(policy: Policy) -> (download: Download)
        ensures
            download@ == State::initial(policy),
            download@.wf(),
    {
        if policy.fetch_existing {
            Download { policy, phase: Phase::Rendering, attempts: 1 }
        } else {
            Download { policy, phase: Phase::Checking, attempts: 0 }
        }
    }

    /// The same download in another phase.
    fn at(&self, phase: Phase) -> (download: Download)
        requires
            self@.at(phase).wf(),
        ensures
            download@ == self@.at(phase),
    {
        Download { policy: self.policy, phase, attempts: self.attempts }
    }

    /// The same download with another attempt begun.
    fn begin_attempt(&self) -> (download: Download)
        requires
            self.attempts <= self.policy.retries,
        ensures
            download@ == (State { attempts: self@.attempts + 1, ..self@.at(Phase::Rendering) }),
    {
        Download { policy: self.policy, phase: Phase::Rendering, attempts: self.attempts + 1 }
    }

    /// The state after the current attempt has failed.
    fn fail(&self) -> (download: Download)
        requires
            1 <= self.attempts <= self.policy.retries + 1,
        ensures
            download@ == self@.after_failure(),
    {
        if self.attempts <= self.policy.retries as u16 {
            self.at(Phase::Backoff)
        } else {
            self.at(Phase::Finished { outcome: Outcome::Failed })
        }
    }

    /// Takes the report `event` and gives the state that follows, or `None`
    /// where `event` is no report on what the state asked for.
    pub fn step(&self, event: Event) -> (following: Option<Download>)
        ensures
            self@.wf(),
            match following {
                Some(download) => self@.next(event) == Some(download@) && download@.wf(),
                None => self@.next(event) is None,
            },
    {
        proof {
            use_type_invariant(self);
        }
        match (self.phase, event) {
            (Phase::Checking, Event::Existence { exists }) => {
                if exists {
                    Some(self.at(Phase::Finished { outcome: Outcome::Skipped }))
                } else {
                    Some(self.begin_attempt())
                }
            },
            (Phase::Rendering, Event::Rendered) => Some(self.at(Phase::Requesting)),
            (Phase::Rendering, Event::RenderFailed) => Some(self.fail()),
            (Phase::Requesting, Event::Response { status, retry_after }) => {
                if status == TOO_MANY_REQUESTS {
                    let seconds = match retry_after {
                        Some(seconds) => seconds,
                        None => BACKOFF_DELAY,
                    };
                    Some(self.at(Phase::RateLimited { seconds }))
                } else if 200 <= status && status < 300 {
                    Some(self.at(Phase::Storing))
                } else {
                    Some(self.fail())
                }
            },
            (Phase::Requesting, Event::TransportFailed) => Some(self.fail()),
            (Phase::Storing, Event::Stored) => Some(
                self.at(Phase::Finished { outcome: Outcome::Saved }),
            ),
            (Phase::Storing, Event::StoreFailed) => Some(self.fail()),
            (Phase::RateLimited { .. }, Event::Elapsed) => Some(self.at(Phase::Requesting)),
            (Phase::Backoff, Event::Elapsed) => Some(self.begin_attempt()),
            _ => None,
        }
    }

    /// What the caller is to do next.
    pub fn action(&self) -> (action: Action)
        ensures
            action == self@.pending(),
    {
        match self.phase {
            Phase::Checking => Action::CheckExisting,
            Phase::Rendering => Action::Render,
            Phase::Requesting => Action::Request,
            Phase::Storing => Action::Store,
            Phase::RateLimited { seconds } => Action::Wait { seconds },
            Phase::Backoff => Action::Wait { seconds: BACKOFF_DELAY },
            Phase::Finished { outcome } => Action::Stop { outcome },
        }
    }

    /// Where the download stands.
    pub fn phase(&self) -> (phase: Phase)
        ensures
            phase == self@.phase,
    {
        self.phase
    }

    /// How many attempts have begun.
    pub fn attempts(&self) -> (attempts: u16)
        ensures
            attempts == self@.attempts,
    {
        self.attempts
    }

    /// How the download ended, or `None` while it is under way.
    pub fn outcome(&self) -> (outcome: Option<Outcome>)
        ensures
            outcome == match self@.phase {
                Phase::Finished { outcome } => Some(outcome),
                _ => None,
            },
    {
        match self.phase {
            Phase::Finished { outcome } => Some(outcome),
            _ => None,
        }
    }
}

/// The seconds that a `Retry-After` header asks for: its value read as a
/// whole number, or `None` where there is no header or its value does not
/// read as one.
pub open spec fn retry_after_of(header: Option<&str>) -> Option<u64> {
    match header {
        Some(value) => match parse_unsigned(value@, u64::MAX as nat) {
            Some(seconds) => Some(seconds as u64),
            None => None,
        },
        None => None,
    }
}

/// The seconds that a `Retry-After` header of the value `value` asks for.
pub fn parse_retry_after(value: &str) -> (seconds: Option<u64>)
    ensures
        seconds == retry_after_of(Some(value)),
{
    parse_decimal(value, u64::MAX)
}

impl Event {
    /// The report on an answer with the status code `status` and, where it
    /// has a `Retry-After` header, the value `retry_after` of that header.
    pub fn answer(status: u16, retry_after: Option<&str>) -> (event: Event)
        ensures
            event == (Event::Response { status, retry_after: retry_after_of(retry_after) }),
    {
        let retry_after = match retry_after {
            Some(value) => parse_retry_after(value),
            None => None,
        };
        Event::Response { status, retry_after }
    }
}

} // verus!

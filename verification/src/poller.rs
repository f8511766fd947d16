//! Polling the transport state of a renderer until it answers.

use crate::action::{
    request_to, ActionCause, ActionCauseView, ActionError, ActionErrorView, ActionName,
    ActionRequest, ActionRequestView,
};
use crate::media::PAYLOAD_PLAY;
use crate::render::{Render, RenderView};
use crate::response::{value_of, ActionResponse, Entry};
use crate::text::same_text;
use vstd::prelude::*;
use vstd::string::*;

verus! {

/// The name under which a renderer answers its transport state.
pub const TRANSPORT_STATE_KEY: &'static str = "CurrentTransportState";

/// The transport state of a renderer that has stopped.
pub const STATE_STOPPED: &'static str = "STOPPED";

/// The transport state of a renderer that holds no media.
pub const STATE_NO_MEDIA: &'static str = "NO_MEDIA_PRESENT";

/// Whether a transport state means that nothing is playing.
pub open spec fn is_terminal_state(state: Seq<char>) -> bool {
    state == STATE_STOPPED@ || state == STATE_NO_MEDIA@
}

/// Whether the answer to a transport query means that the renderer has
/// stopped: an empty answer does, and so does one whose transport state is
/// `STOPPED` or `NO_MEDIA_PRESENT`. Any other answer does not, one without
/// a transport state included.
pub open spec fn stopped_verdict(response: Seq<Entry>) -> bool {
    response.len() == 0 || match value_of(response, TRANSPORT_STATE_KEY@) {
        Some(state) => is_terminal_state(state),
        None => false,
    }
}

/// An answer means "stopped" exactly when it is empty or tells the transport
/// state `STOPPED` or `NO_MEDIA_PRESENT`. An answer that tells something
/// but not the transport state never does.
pub proof fn lemma_stopped_verdict(response: Seq<Entry>)
    ensures
        stopped_verdict(response) <==> response.len() == 0 || value_of(
            response,
            TRANSPORT_STATE_KEY@,
        ) == Some(STATE_STOPPED@) || value_of(response, TRANSPORT_STATE_KEY@) == Some(
            STATE_NO_MEDIA@,
        ),
        response.len() > 0 && value_of(response, TRANSPORT_STATE_KEY@) is None
            ==> !stopped_verdict(response),
{
}

/// How long to keep asking a renderer that does not answer.
#[derive(Clone, Copy, Debug, PartialEq, Eq, Structural)]
pub struct PollPolicy {
    /// How many failed queries are followed by another one.
    pub max_retries: u32,
    /// How long to wait before asking again, in milliseconds.
    pub delay_millis: u64,
}

/// How far one poll has come.
#[derive(Clone, Copy, Debug, PartialEq, Eq, Structural)]
pub enum PollState {
    /// Nothing was asked yet.
    Idle,
    /// A query is under way, after so many failed ones.
    Querying { failed: u32 },
    /// The renderer answered: the poll gave its verdict.
    Decided(bool),
    /// The renderer did not answer within the bound: the poll gave up.
    TimedOut,
}

/// A poll that gave up: how many queries it made and how the last failed.
#[derive(Debug, PartialEq, Eq)]
pub struct PollTimeout {
    pub attempts: u64,
    pub last: ActionError,
}

/// The mathematical value of a [`PollTimeout`].
pub struct PollTimeoutView {
    pub attempts: u64,
    pub last: ActionErrorView,
}

impl View for PollTimeout {
    type V = PollTimeoutView;

    open spec fn view(&self) -> PollTimeoutView {
        PollTimeoutView { attempts: self.attempts, last: self.last@ }
    }
}

/// What happened since the last command of a poll.
#[derive(Debug, PartialEq, Eq)]
pub enum PollEvent {
    /// The caller asks for the poll to begin.
    Begin,
    /// The query under way was answered.
    Answered(ActionResponse),
    /// The query under way failed.
    Failed(ActionCause),
}

/// The mathematical value of a [`PollEvent`].
pub enum PollEventView {
    Begin,
    Answered(Seq<Entry>),
    Failed(ActionCauseView),
}

impl View for PollEvent {
    type V = PollEventView;

    open spec fn view(&self) -> PollEventView {
        match self {
            PollEvent::Begin => PollEventView::Begin,
            PollEvent::Answered(response) => PollEventView::Answered(response@),
            PollEvent::Failed(cause) => PollEventView::Failed(cause@),
        }
    }
}

/// What the caller of a poll has to do next.
#[derive(Debug, PartialEq, Eq)]
pub enum PollCommand {
    /// Wait for so long, make this query and report how it ended.
    Query { request: ActionRequest, delay_millis: u64 },
    /// The renderer answered: this is whether it has stopped.
    Report(bool),
    /// The renderer did not answer within the bound.
    GiveUp(PollTimeout),
    /// The event does not belong to the state: nothing to do.
    Ignore,
}

/// The mathematical value of a [`PollCommand`].
pub enum PollCommandView {
    Query { request: ActionRequestView, delay_millis: u64 },
    Report(bool),
    GiveUp(PollTimeoutView),
    Ignore,
}

impl View for PollCommand {
    type V = PollCommandView;

    open spec fn view(&self) -> PollCommandView {
        match self {
            PollCommand::Query { request, delay_millis } => PollCommandView::Query {
                request: request@,
                delay_millis: *delay_millis,
            },
            PollCommand::Report(stopped) => PollCommandView::Report(*stopped),
            PollCommand::GiveUp(timeout) => PollCommandView::GiveUp(timeout@),
            PollCommand::Ignore => PollCommandView::Ignore,
        }
    }
}

/// The query for the transport state of the renderer `r`.
pub open spec fn transport_query(r: RenderView) -> ActionRequestView {
    request_to(r, ActionName::GetTransportInfo, PAYLOAD_PLAY@)
}

/// One move of a poll of `r` under `policy`: the state that follows `state`
/// on `event`, and what the caller has to do.
pub open spec fn poll_model(
    r: RenderView,
    policy: PollPolicy,
    state: PollState,
    event: PollEventView,
) -> (PollState, PollCommandView) {
    match (state, event) {
        (PollState::Idle, PollEventView::Begin) => (
            PollState::Querying { failed: 0 },
            PollCommandView::Query { request: transport_query(r), delay_millis: 0 },
        ),
        (PollState::Querying { failed }, PollEventView::Answered(response)) => (
            PollState::Decided(stopped_verdict(response)),
            PollCommandView::Report(stopped_verdict(response)),
        ),
        (PollState::Querying { failed }, PollEventView::Failed(cause)) => if failed
            < policy.max_retries {
            (
                PollState::Querying { failed: (failed + 1) as u32 },
                PollCommandView::Query {
                    request: transport_query(r),
                    delay_millis: policy.delay_millis,
                },
            )
        } else {
            (
                PollState::TimedOut,
                PollCommandView::GiveUp(
                    PollTimeoutView {
                        attempts: (failed + 1) as u64,
                        last: ActionErrorView { action: ActionName::GetTransportInfo, cause },
                    },
                ),
            )
        },
        _ => (state, PollCommandView::Ignore),
    }
}

/// The state of a poll of `r` under `policy` after the first `n` of
/// `events`.
pub open spec fn poll_state_after(
    r: RenderView,
    policy: PollPolicy,
    events: Seq<PollEventView>,
    n: nat,
) -> PollState
    decreases n,
{
    if n == 0 || n > events.len() {
        PollState::Idle
    } else {
        poll_model(r, policy, poll_state_after(r, policy, events, (n - 1) as nat), events[n - 1]).0
    }
}

impl Render {
    /// Whether `response`, the answer of this renderer to a transport
    /// query, means that it has stopped. An empty answer does: a renderer
    /// that tells nothing is taken to be idle.
    pub fn is_stopped(&self, response: &ActionResponse) -> (stopped: bool)
        ensures
            stopped == stopped_verdict(response@),
    {
        if response.is_empty() {
            return true;
        }
        match response.get(TRANSPORT_STATE_KEY) {
            Some(state) => same_text(state.as_str(), STATE_STOPPED) || same_text(
                state.as_str(),
                STATE_NO_MEDIA,
            ),
            None => false,
        }
    }

    /// Makes one move of a poll of this renderer: from `state` and what
    /// happened since the last command to the next state and the next
    /// command.
    ///
    /// A poll begins in [`PollState::Idle`] with [`PollEvent::Begin`]. A
    /// failed query is never reported: it is followed by another query after
    /// the policy's delay, until the policy's retries are used up and the
    /// poll gives up. The first answer ends the poll with its verdict.
    pub fn poll(&self, policy: &PollPolicy, state: PollState, event: PollEvent) -> (next: (
        PollState,
        PollCommand,
    ))
        ensures
            (next.0, next.1@) == poll_model(self@, *policy, state, event@),
    {
        match state {
            PollState::Idle => match event {
                PollEvent::Begin => {
                    let request = ActionRequest::to(
                        self,
                        ActionName::GetTransportInfo,
                        String::from_str(PAYLOAD_PLAY),
                    );
                    (PollState::Querying { failed: 0 }, PollCommand::Query { request, delay_millis: 0 })
                },
                _ => (state, PollCommand::Ignore),
            },
            PollState::Querying { failed } => match event {
                PollEvent::Answered(response) => {
                    let stopped = self.is_stopped(&response);
                    (PollState::Decided(stopped), PollCommand::Report(stopped))
                },
                PollEvent::Failed(cause) => {
                    if failed < policy.max_retries {
                        let request = ActionRequest::to(
                            self,
                            ActionName::GetTransportInfo,
                            String::from_str(PAYLOAD_PLAY),
                        );
                        (
                            PollState::Querying { failed: failed + 1 },
                            PollCommand::Query { request, delay_millis: policy.delay_millis },
                        )
                    } else {
                        let attempts: u64 = failed as u64 + 1;
                        let last = ActionError { action: ActionName::GetTransportInfo, cause };
                        (PollState::TimedOut, PollCommand::GiveUp(PollTimeout { attempts, last }))
                    }
                },
                PollEvent::Begin => (state, PollCommand::Ignore),
            },
            _ => (state, PollCommand::Ignore),
        }
    }
}

/// A poll reports only what a renderer answered, and gives up only on a
/// failed query that used up the retries: no failed query is reported
/// before that.
pub proof fn lemma_poll_hides_failures(
    r: RenderView,
    policy: PollPolicy,
    state: PollState,
    event: PollEventView,
)
    ensures
        poll_model(r, policy, state, event).1 matches PollCommandView::Report(stopped) ==> {
            &&& state is Querying
            &&& event matches PollEventView::Answered(response)
            &&& stopped == stopped_verdict(response)
        },
        poll_model(r, policy, state, event).1 matches PollCommandView::GiveUp(timeout) ==> {
            &&& state matches PollState::Querying { failed }
            &&& event is Failed
            &&& failed >= policy.max_retries
            &&& timeout.attempts == failed + 1
        },
        state is Querying && event is Failed && state->failed < policy.max_retries ==> poll_model(
            r,
            policy,
            state,
            event,
        ).1 == (PollCommandView::Query {
            request: transport_query(r),
            delay_millis: policy.delay_millis,
        }),
{
}

/// A poll of a renderer that never answers is bounded: after `k` failed
/// queries it is still asking where `k` is within the policy's retries,
/// and has given up where it is not.
pub proof fn lemma_poll_bounded(
    r: RenderView,
    policy: PollPolicy,
    events: Seq<PollEventView>,
    k: nat,
)
    requires
        k < events.len(),
        k <= policy.max_retries + 1,
        events[0] == PollEventView::Begin,
        forall|i: int| 1 <= i <= k ==> (#[trigger] events[i]) is Failed,
    ensures
        poll_state_after(r, policy, events, k + 1) == if k <= policy.max_retries {
            PollState::Querying { failed: k as u32 }
        } else {
            PollState::TimedOut
        },
    decreases k,
{
    if k == 0 {
        reveal_with_fuel(poll_state_after, 2);
    } else {
        lemma_poll_bounded(r, policy, events, (k - 1) as nat);
        assert(events[k as int] is Failed);
    }
}

/// Once a poll has decided or given up, it stays as it is whatever comes.
pub proof fn lemma_poll_stops(r: RenderView, policy: PollPolicy, state: PollState, event: PollEventView)
    ensures
        state is Decided || state is TimedOut ==> poll_model(r, policy, state, event) == (
            state,
            PollCommandView::Ignore,
        ),
{
}

} // verus!

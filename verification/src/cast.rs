//! Casting: the ordered sequence that hands a media resource to a renderer
//! and starts playback.

use crate::action::{
    request_to, ActionCause, ActionCauseView, ActionError, ActionErrorView, ActionName,
    ActionRequest, ActionRequestView,
};
use crate::media::{set_uri_text, MediaDescriptor, MediaView, PAYLOAD_PLAY};
use crate::render::{Render, RenderView};
use vstd::prelude::*;
use vstd::string::*;

verus! {

/// The step of a cast at which an action failed.
#[derive(Clone, Copy, Debug, PartialEq, Eq, Structural)]
pub enum CastStep {
    /// Handing the media address to the renderer.
    SetAVTransportURISource,
    /// Starting playback.
    PlaySource,
}

/// How far one cast attempt has come.
#[derive(Clone, Copy, Debug, PartialEq, Eq, Structural)]
pub enum CastState {
    /// Nothing was done yet.
    Idle,
    /// The arguments are built and `SetAVTransportURI` is under way.
    MetadataBuilt,
    /// The renderer has the address and `Play` is under way.
    URISet,
    /// The renderer was told to play: the attempt succeeded.
    Playing,
    /// An action failed at the given step: the attempt is over.
    Error(CastStep),
}

/// A failed cast: the step that failed and the failed action call.
#[derive(Debug, PartialEq, Eq)]
pub struct CastError {
    pub step: CastStep,
    pub source: ActionError,
}

/// The mathematical value of a [`CastError`].
pub struct CastErrorView {
    pub step: CastStep,
    pub source: ActionErrorView,
}

impl View for CastError {
    type V = CastErrorView;

    open spec fn view(&self) -> CastErrorView {
        CastErrorView { step: self.step, source: self.source@ }
    }
}

/// What happened since the last command of a cast.
#[derive(Debug, PartialEq, Eq)]
pub enum CastEvent {
    /// The caller asks for the cast to begin.
    Begin,
    /// The action under way succeeded.
    Done,
    /// The action under way failed.
    Failed(ActionCause),
}

/// The mathematical value of a [`CastEvent`].
pub enum CastEventView {
    Begin,
    Done,
    Failed(ActionCauseView),
}

impl View for CastEvent {
    type V = CastEventView;

    open spec fn view(&self) -> CastEventView {
        match self {
            CastEvent::Begin => CastEventView::Begin,
            CastEvent::Done => CastEventView::Done,
            CastEvent::Failed(cause) => CastEventView::Failed(cause@),
        }
    }
}

/// What the caller of a cast has to do next.
#[derive(Debug, PartialEq, Eq)]
pub enum CastCommand {
    /// Make this action call and report how it ended.
    Invoke(ActionRequest),
    /// The cast succeeded: the renderer is playing.
    Finish,
    /// The cast failed.
    Abort(CastError),
    /// The event does not belong to the state: nothing to do.
    Ignore,
}

/// The mathematical value of a [`CastCommand`].
pub enum CastCommandView {
    Invoke(ActionRequestView),
    Finish,
    Abort(CastErrorView),
    Ignore,
}

impl View for CastCommand {
    type V = CastCommandView;

    open spec fn view(&self) -> CastCommandView {
        match self {
            CastCommand::Invoke(request) => CastCommandView::Invoke(request@),
            CastCommand::Finish => CastCommandView::Finish,
            CastCommand::Abort(error) => CastCommandView::Abort(error@),
            CastCommand::Ignore => CastCommandView::Ignore,
        }
    }
}

/// The call that hands the address of `m` and its escaped item description
/// to the renderer `r`.
pub open spec fn set_uri_request(r: RenderView, m: MediaView) -> ActionRequestView {
    request_to(r, ActionName::SetAVTransportURI, set_uri_text(m))
}

/// The call that starts playback on the renderer `r` at normal speed.
pub open spec fn play_request(r: RenderView) -> ActionRequestView {
    request_to(r, ActionName::Play, PAYLOAD_PLAY@)
}

/// The failure of `action` for `cause`, tagged with `step`.
pub open spec fn cast_failure(step: CastStep, action: ActionName, cause: ActionCauseView)
    -> CastErrorView {
    CastErrorView { step, source: ActionErrorView { action, cause } }
}

/// One move of a cast of `m` on `r`: the state that follows `state` on
/// `event`, and what the caller has to do.
pub open spec fn cast_model(r: RenderView, m: MediaView, state: CastState, event: CastEventView)
    -> (CastState, CastCommandView) {
    match (state, event) {
        (CastState::Idle, CastEventView::Begin) => (
            CastState::MetadataBuilt,
            CastCommandView::Invoke(set_uri_request(r, m)),
        ),
        (CastState::MetadataBuilt, CastEventView::Done) => (
            CastState::URISet,
            CastCommandView::Invoke(play_request(r)),
        ),
        (CastState::MetadataBuilt, CastEventView::Failed(cause)) => (
            CastState::Error(CastStep::SetAVTransportURISource),
            CastCommandView::Abort(
                cast_failure(
                    CastStep::SetAVTransportURISource,
                    ActionName::SetAVTransportURI,
                    cause,
                ),
            ),
        ),
        (CastState::URISet, CastEventView::Done) => (CastState::Playing, CastCommandView::Finish),
        (CastState::URISet, CastEventView::Failed(cause)) => (
            CastState::Error(CastStep::PlaySource),
            CastCommandView::Abort(cast_failure(CastStep::PlaySource, ActionName::Play, cause)),
        ),
        _ => (state, CastCommandView::Ignore),
    }
}

/// The state of a cast of `m` on `r` after the first `n` of `events`.
pub open spec fn cast_state_after(
    r: RenderView,
    m: MediaView,
    events: Seq<CastEventView>,
    n: nat,
) -> CastState
    decreases n,
{
    if n == 0 || n > events.len() {
        CastState::Idle
    } else {
        cast_model(r, m, cast_state_after(r, m, events, (n - 1) as nat), events[n - 1]).0
    }
}

/// The commands that a cast of `m` on `r` gives on the first `n` of
/// `events`, one for each event.
pub open spec fn cast_commands(
    r: RenderView,
    m: MediaView,
    events: Seq<CastEventView>,
    n: nat,
) -> Seq<CastCommandView>
    decreases n,
{
    if n == 0 || n > events.len() {
        Seq::empty()
    } else {
        cast_commands(r, m, events, (n - 1) as nat).push(
            cast_model(r, m, cast_state_after(r, m, events, (n - 1) as nat), events[n - 1]).1,
        )
    }
}

impl CastStep {
    /// The tag by which a failure at this step is known.
    pub fn tag(&self) -> (tag: &'static str)
        ensures
            tag@ == match *self {
                CastStep::SetAVTransportURISource => "SetAVTransportURISource"@,
                CastStep::PlaySource => "PlaySource"@,
            },
    {
        match self {
            CastStep::SetAVTransportURISource => "SetAVTransportURISource",
            CastStep::PlaySource => "PlaySource",
        }
    }
}

impl CastState {
    /// Whether the attempt is over, one way or the other.
    pub fn is_terminal(&self) -> (over: bool)
        ensures
            over == (*self is Playing || *self is Error),
    {
        match self {
            CastState::Playing => true,
            CastState::Error(_) => true,
            _ => false,
        }
    }
}

impl Render {
    /// Makes one move of a cast of `media` on this renderer: from `state`
    /// and what happened since the last command to the next state and the
    /// next command. The renderer itself is only read.
    ///
    /// A cast begins in [`CastState::Idle`] with [`CastEvent::Begin`].
    /// `SetAVTransportURI` is asked for first; `Play` is asked for only once
    /// that call has succeeded; a failed call ends the cast with an error
    /// tagged by its step, and nothing is asked for after it.
    pub fn play(&self, media: &MediaDescriptor, state: CastState, event: CastEvent) -> (next: (
        CastState,
        CastCommand,
    ))
        ensures
            (next.0, next.1@) == cast_model(self@, media@, state, event@),
    {
        match state {
            CastState::Idle => match event {
                CastEvent::Begin => {
                    let request = ActionRequest::to(
                        self,
                        ActionName::SetAVTransportURI,
                        media.set_uri_payload(),
                    );
                    (CastState::MetadataBuilt, CastCommand::Invoke(request))
                },
                _ => (state, CastCommand::Ignore),
            },
            CastState::MetadataBuilt => match event {
                CastEvent::Done => {
                    let request = ActionRequest::to(
                        self,
                        ActionName::Play,
                        String::from_str(PAYLOAD_PLAY),
                    );
                    (CastState::URISet, CastCommand::Invoke(request))
                },
                CastEvent::Failed(cause) => {
                    let step = CastStep::SetAVTransportURISource;
                    let source = ActionError { action: ActionName::SetAVTransportURI, cause };
                    (CastState::Error(step), CastCommand::Abort(CastError { step, source }))
                },
                CastEvent::Begin => (state, CastCommand::Ignore),
            },
            CastState::URISet => match event {
                CastEvent::Done => (CastState::Playing, CastCommand::Finish),
                CastEvent::Failed(cause) => {
                    let step = CastStep::PlaySource;
                    let source = ActionError { action: ActionName::Play, cause };
                    (CastState::Error(step), CastCommand::Abort(CastError { step, source }))
                },
                CastEvent::Begin => (state, CastCommand::Ignore),
            },
            _ => (state, CastCommand::Ignore),
        }
    }
}

/// `Play` is asked for only when `SetAVTransportURI` has just succeeded, and
/// `SetAVTransportURI` only at the very beginning.
pub proof fn lemma_cast_order(r: RenderView, m: MediaView, state: CastState, event: CastEventView)
    ensures
        cast_model(r, m, state, event).1 matches CastCommandView::Invoke(request) ==> {
            &&& request.action == ActionName::Play ==> state == CastState::MetadataBuilt && event
                == CastEventView::Done
            &&& request.action == ActionName::SetAVTransportURI ==> state == CastState::Idle
                && event == CastEventView::Begin
            &&& request.action != ActionName::GetTransportInfo
            &&& request.base_url == r.device.url
            &&& request.service == r.service
        },
{
}

/// A failed action ends the cast: the error names the step, and from then
/// on, as after a success, no event brings another command.
pub proof fn lemma_cast_stops(r: RenderView, m: MediaView, state: CastState, event: CastEventView)
    ensures
        state is Playing || state is Error ==> cast_model(r, m, state, event) == (
            state,
            CastCommandView::Ignore,
        ),
        cast_model(r, m, state, event).1 matches CastCommandView::Abort(error) ==> {
            &&& event matches CastEventView::Failed(cause)
            &&& error.source.cause == cause
            &&& cast_model(r, m, state, event).0 == CastState::Error(error.step)
            &&& state == CastState::MetadataBuilt ==> error.step
                == CastStep::SetAVTransportURISource && error.source.action
                == ActionName::SetAVTransportURI
            &&& state == CastState::URISet ==> error.step == CastStep::PlaySource
                && error.source.action == ActionName::Play
            &&& state == CastState::MetadataBuilt || state == CastState::URISet
        },
{
}

/// Once a cast is over, it stays as it is whatever comes.
pub proof fn lemma_cast_stays_over(
    r: RenderView,
    m: MediaView,
    events: Seq<CastEventView>,
    n: nat,
    later: nat,
)
    requires
        n <= later <= events.len(),
        cast_state_after(r, m, events, n) is Playing || cast_state_after(r, m, events, n) is Error,
    ensures
        cast_state_after(r, m, events, later) == cast_state_after(r, m, events, n),
        forall|i: int| n <= i < later ==> cast_commands(r, m, events, later)[i] == CastCommandView::Ignore,
        cast_commands(r, m, events, later).len() == later,
    decreases later,
{
    lemma_cast_commands_len(r, m, events, later);
    if n < later {
        lemma_cast_stays_over(r, m, events, n, (later - 1) as nat);
        lemma_cast_commands_prefix(r, m, events, (later - 1) as nat, later);
    }
}

/// A cast gives one command for each event.
pub proof fn lemma_cast_commands_len(r: RenderView, m: MediaView, events: Seq<CastEventView>, n: nat)
    requires
        n <= events.len(),
    ensures
        cast_commands(r, m, events, n).len() == n,
    decreases n,
{
    if n > 0 {
        lemma_cast_commands_len(r, m, events, (n - 1) as nat);
    }
}

/// Later events do not change the commands given before them.
pub proof fn lemma_cast_commands_prefix(
    r: RenderView,
    m: MediaView,
    events: Seq<CastEventView>,
    n: nat,
    later: nat,
)
    requires
        n <= later <= events.len(),
    ensures
        forall|i: int| 0 <= i < n ==> cast_commands(r, m, events, later)[i] == cast_commands(r, m, events, n)[i],
    decreases later,
{
    lemma_cast_commands_len(r, m, events, n);
    if n < later {
        lemma_cast_commands_prefix(r, m, events, n, (later - 1) as nat);
        lemma_cast_commands_len(r, m, events, (later - 1) as nat);
    }
}

/// A cast whose two calls succeed asks for `SetAVTransportURI` with the
/// media address and the escaped item description, then for `Play`, and
/// ends playing. This depends on the renderer and the media alone, not on
/// any cast made before: casting the same media again on the same renderer
/// gives the same two calls again.
pub proof fn lemma_cast_repeats(r: RenderView, m: MediaView)
    ensures
        ({
            let events = seq![CastEventView::Begin, CastEventView::Done, CastEventView::Done];
            &&& cast_state_after(r, m, events, 3) == CastState::Playing
            &&& cast_commands(r, m, events, 3) == seq![
                CastCommandView::Invoke(set_uri_request(r, m)),
                CastCommandView::Invoke(play_request(r)),
                CastCommandView::Finish,
            ]
            &&& cast_commands(r, m, events, 3) + cast_commands(r, m, events, 3) == seq![
                CastCommandView::Invoke(set_uri_request(r, m)),
                CastCommandView::Invoke(play_request(r)),
                CastCommandView::Finish,
                CastCommandView::Invoke(set_uri_request(r, m)),
                CastCommandView::Invoke(play_request(r)),
                CastCommandView::Finish,
            ]
        }),
{
    let events = seq![CastEventView::Begin, CastEventView::Done, CastEventView::Done];
    reveal_with_fuel(cast_state_after, 4);
    reveal_with_fuel(cast_commands, 4);
    let once = cast_commands(r, m, events, 3);
    assert(once =~= seq![
        CastCommandView::Invoke(set_uri_request(r, m)),
        CastCommandView::Invoke(play_request(r)),
        CastCommandView::Finish,
    ]);
    assert(once + once =~= seq![
        CastCommandView::Invoke(set_uri_request(r, m)),
        CastCommandView::Invoke(play_request(r)),
        CastCommandView::Finish,
        CastCommandView::Invoke(set_uri_request(r, m)),
        CastCommandView::Invoke(play_request(r)),
        CastCommandView::Finish,
    ]);
}

/// Where `SetAVTransportURI` fails, the cast ends with an error tagged
/// `SetAVTransportURISource`, and `Play` is never asked for, whatever
/// events follow.
pub proof fn lemma_cast_no_play_after_failed_uri(
    r: RenderView,
    m: MediaView,
    events: Seq<CastEventView>,
    n: nat,
)
    requires
        2 <= n <= events.len(),
        events[0] == CastEventView::Begin,
        events[1] is Failed,
    ensures
        cast_state_after(r, m, events, n) == CastState::Error(CastStep::SetAVTransportURISource),
        forall|i: int|
            0 <= i < n ==> cast_commands(r, m, events, n)[i] != CastCommandView::Invoke(
                play_request(r),
            ),
{
    reveal_with_fuel(cast_state_after, 3);
    reveal_with_fuel(cast_commands, 3);
    assert(cast_state_after(r, m, events, 2) == CastState::Error(
        CastStep::SetAVTransportURISource,
    ));
    lemma_cast_stays_over(r, m, events, 2, n);
    lemma_cast_commands_prefix(r, m, events, 2, n);
    lemma_cast_commands_len(r, m, events, n);
    assert(cast_commands(r, m, events, 2)[0] == CastCommandView::Invoke(set_uri_request(r, m)));
    assert(cast_commands(r, m, events, 2)[1] is Abort);
}

} // verus!

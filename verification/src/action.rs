//! The remote actions that the library asks for, and how they fail.

use crate::device::{Service, ServiceView};
use crate::render::{Render, RenderView};
use vstd::prelude::*;

verus! {

/// The actions of the playback-control service that the library uses.
#[derive(Clone, Copy, Debug, PartialEq, Eq, Structural)]
pub enum ActionName {
    GetTransportInfo,
    SetAVTransportURI,
    Play,
}

/// The name of an action as it goes over the wire.
pub open spec fn action_text(action: ActionName) -> Seq<char> {
    match action {
        ActionName::GetTransportInfo => "GetTransportInfo"@,
        ActionName::SetAVTransportURI => "SetAVTransportURI"@,
        ActionName::Play => "Play"@,
    }
}

impl ActionName {
    /// The name as it goes over the wire.
    pub fn as_str(&self) -> (name: &'static str)
        ensures
            name@ == action_text(*self),
    {
        match self {
            ActionName::GetTransportInfo => "GetTransportInfo",
            ActionName::SetAVTransportURI => "SetAVTransportURI",
            ActionName::Play => "Play",
        }
    }
}

/// Why an action call failed.
#[derive(Debug, PartialEq, Eq)]
pub enum ActionCause {
    /// The request could not be sent or the reply could not be received.
    Network,
    /// The device replied with a status other than success.
    Status(u16),
    /// The device reported a fault of its own.
    Fault { code: u16, description: String },
    /// The reply could not be understood.
    Malformed,
}

/// The mathematical value of an [`ActionCause`].
pub enum ActionCauseView {
    Network,
    Status(u16),
    Fault { code: u16, description: Seq<char> },
    Malformed,
}

impl View for ActionCause {
    type V = ActionCauseView;

    open spec fn view(&self) -> ActionCauseView {
        match self {
            ActionCause::Network => ActionCauseView::Network,
            ActionCause::Status(status) => ActionCauseView::Status(*status),
            ActionCause::Fault { code, description } => ActionCauseView::Fault {
                code: *code,
                description: description@,
            },
            ActionCause::Malformed => ActionCauseView::Malformed,
        }
    }
}

impl Clone for ActionCause {
    fn clone(&self) -> (out: Self)
        ensures
            out == *self,
    {
        match self {
            ActionCause::Network => ActionCause::Network,
            ActionCause::Status(status) => ActionCause::Status(*status),
            ActionCause::Fault { code, description } => ActionCause::Fault {
                code: *code,
                description: description.clone(),
            },
            ActionCause::Malformed => ActionCause::Malformed,
        }
    }
}

/// A failed action call: which action, and why.
#[derive(Debug, PartialEq, Eq)]
pub struct ActionError {
    pub action: ActionName,
    pub cause: ActionCause,
}

/// The mathematical value of an [`ActionError`].
pub struct ActionErrorView {
    pub action: ActionName,
    pub cause: ActionCauseView,
}

impl View for ActionError {
    type V = ActionErrorView;

    open spec fn view(&self) -> ActionErrorView {
        ActionErrorView { action: self.action, cause: self.cause@ }
    }
}

impl Clone for ActionError {
    fn clone(&self) -> (out: Self)
        ensures
            out == *self,
    {
        ActionError { action: self.action, cause: self.cause.clone() }
    }
}

/// One action call to make: the action, its arguments, and where it goes.
/// The address is always the one of the renderer that the call is for.
#[derive(Debug, PartialEq, Eq)]
pub struct ActionRequest {
    pub action: ActionName,
    pub payload: String,
    pub base_url: String,
    pub service: Service,
}

/// The mathematical value of an [`ActionRequest`].
pub struct ActionRequestView {
    pub action: ActionName,
    pub payload: Seq<char>,
    pub base_url: Seq<char>,
    pub service: ServiceView,
}

impl View for ActionRequest {
    type V = ActionRequestView;

    open spec fn view(&self) -> ActionRequestView {
        ActionRequestView {
            action: self.action,
            payload: self.payload@,
            base_url: self.base_url@,
            service: self.service@,
        }
    }
}

impl Clone for ActionRequest {
    fn clone(&self) -> (out: Self)
        ensures
            out == *self,
    {
        ActionRequest {
            action: self.action,
            payload: self.payload.clone(),
            base_url: self.base_url.clone(),
            service: self.service.clone(),
        }
    }
}

/// The call of `action` with `payload` on the renderer `r`.
pub open spec fn request_to(r: RenderView, action: ActionName, payload: Seq<char>)
    -> ActionRequestView {
    ActionRequestView { action, payload, base_url: r.device.url, service: r.service }
}

impl ActionRequest {
    /// The call of `action` with `payload` on `render`: it goes to the
    /// address of the renderer's device and to its control service.
    pub fn to(render: &Render, action: ActionName, payload: String) -> (out: ActionRequest)
        ensures
            out@ == request_to(render@, action, payload@),
    {
        ActionRequest {
            action,
            payload,
            base_url: render.device().url.clone(),
            service: render.service().clone(),
        }
    }
}

} // verus!

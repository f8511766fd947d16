//! Discovery and control of network media renderers.
//!
//! The library holds the rules of three operations on renderers, that is on
//! devices with the AVTransport service: finding them among the answers to
//! a search, casting a media resource to one, and asking one whether it has
//! stopped. It performs no input or output itself. Each operation is a
//! function from what has happened so far to what is to be done next; the
//! caller sends the requests and reports how they ended.

pub mod action;
pub mod cast;
pub mod device;
pub mod discovery;
pub mod media;
pub mod poller;
pub mod render;
pub mod response;
pub mod text;
pub mod urn;

pub use action::{ActionCause, ActionError, ActionName, ActionRequest};
pub use cast::{CastCommand, CastError, CastEvent, CastState, CastStep};
pub use device::{Device, Service};
pub use discovery::{Candidate, Discovery, DiscoveryQuery, DiscoveryTransportError, Verdict};
pub use media::MediaDescriptor;
pub use poller::{PollCommand, PollEvent, PollPolicy, PollState, PollTimeout};
pub use render::Render;
pub use response::ActionResponse;
pub use urn::{Urn, UrnKind};

//! Renderers: devices paired with their playback-control service.

use crate::device::{locate, Device, DeviceView, Service, ServiceView};
use crate::text::{contains_run, lemma_run_between};
use crate::urn::{av_transport, urn_text, Urn};
use vstd::prelude::*;
use vstd::string::*;

verus! {

/// A device together with the service that controls playback on it.
///
/// A value exists only for a device that has that service, never changes,
/// and carries no state of any cast made through it.
#[derive(Debug, PartialEq, Eq)]
pub struct Render {
    device: Device,
    service: Service,
}

/// The mathematical value of a [`Render`].
pub struct RenderView {
    pub device: DeviceView,
    pub service: ServiceView,
}

impl View for Render {
    type V = RenderView;

    closed spec fn view(&self) -> RenderView {
        RenderView { device: self.device@, service: self.service@ }
    }
}

/// The short presentation line: `[<device type>] <name> @ <address>`.
pub open spec fn display_text(r: RenderView) -> Seq<char> {
    "["@ + urn_text(r.device.device_type) + "] "@ + r.device.friendly_name + " @ "@ + r.device.url
}

/// The full presentation line:
/// `[<device type>][<service type>] <name> @ <address>`.
pub open spec fn full_text(r: RenderView) -> Seq<char> {
    "["@ + urn_text(r.device.device_type) + "]["@ + urn_text(r.service.service_type) + "] "@
        + r.device.friendly_name + " @ "@ + r.device.url
}

impl Clone for Render {
    fn clone(&self) -> (out: Self)
        ensures
            out@ == self@,
    {
        proof {
            use_type_invariant(self);
        }
        Render { device: self.device.clone(), service: self.service.clone() }
    }
}

impl Render {
    #[verifier::type_invariant]
    spec fn holds_control_service(&self) -> bool {
        locate(self.device@, av_transport()) == Some(self.service@)
    }

    /// Pairs `device` with its playback-control service, the first one that
    /// a search of the device yields. A device without one gives no renderer.
    pub fn from_device(device: Device) -> (made: Option<Render>)
        ensures
            made is Some <==> locate(device@, av_transport()) is Some,
            made matches Some(r) ==> r@.device == device@ && Some(r@.service) == locate(
                device@,
                av_transport(),
            ),
    {
        let target = Urn::av_transport();
        let service = match device.find_service(&target) {
            Some(found) => found.clone(),
            None => {
                return None;
            },
        };
        Some(Render { device, service })
    }

    /// The device. It always has the playback-control service.
    pub fn device(&self) -> (d: &Device)
        ensures
            d@ == self@.device,
            locate(d@, av_transport()) == Some(self@.service),
    {
        proof {
            use_type_invariant(self);
        }
        &self.device
    }

    /// The playback-control service: the one that a search of the device
    /// yields.
    pub fn service(&self) -> (s: &Service)
        ensures
            s@ == self@.service,
            locate(self@.device, av_transport()) == Some(s@),
    {
        proof {
            use_type_invariant(self);
        }
        &self.service
    }

    /// The short presentation line.
    pub fn display_name(&self) -> (line: String)
        ensures
            line@ == display_text(self@),
    {
        let mut line = String::from_str("[");
        line.append(self.device.device_type.to_text().as_str());
        line.append("] ");
        line.append(self.device.friendly_name.as_str());
        line.append(" @ ");
        line.append(self.device.url.as_str());
        line
    }

    /// The full presentation line.
    pub fn full_name(&self) -> (line: String)
        ensures
            line@ == full_text(self@),
    {
        let mut line = String::from_str("[");
        line.append(self.device.device_type.to_text().as_str());
        line.append("][");
        line.append(self.service.service_type.to_text().as_str());
        line.append("] ");
        line.append(self.device.friendly_name.as_str());
        line.append(" @ ");
        line.append(self.device.url.as_str());
        line
    }
}

/// The full presentation line shows the device's name and the type of the
/// control service.
pub proof fn lemma_full_name_shows(r: RenderView)
    ensures
        contains_run(full_text(r), r.device.friendly_name),
        contains_run(full_text(r), urn_text(r.service.service_type)),
{
    lemma_run_between(
        "["@ + urn_text(r.device.device_type) + "]["@ + urn_text(r.service.service_type) + "] "@,
        r.device.friendly_name,
        " @ "@ + r.device.url,
    );
    assert(full_text(r) =~= ("["@ + urn_text(r.device.device_type) + "]["@ + urn_text(
        r.service.service_type,
    ) + "] "@) + r.device.friendly_name + (" @ "@ + r.device.url));
    lemma_run_between(
        "["@ + urn_text(r.device.device_type) + "]["@,
        urn_text(r.service.service_type),
        "] "@ + r.device.friendly_name + " @ "@ + r.device.url,
    );
    assert(full_text(r) =~= ("["@ + urn_text(r.device.device_type) + "]["@) + urn_text(
        r.service.service_type,
    ) + ("] "@ + r.device.friendly_name + " @ "@ + r.device.url));
}

} // verus!

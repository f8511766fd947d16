//! Uniform resource names of UPnP device and service types.

use vstd::prelude::*;

verus! {

/// Whether a name designates a device type or a service type.
#[derive(Clone, Copy, Debug, PartialEq, Eq, Structural)]
pub enum UrnKind {
    Device,
    Service,
}

/// A type identifier such as `urn:schemas-upnp-org:service:AVTransport:1`.
#[derive(Debug, PartialEq, Eq)]
pub struct Urn {
    pub kind: UrnKind,
    pub domain: String,
    pub name: String,
    pub version: u32,
}

/// The mathematical value of a [`Urn`].
pub struct UrnView {
    pub kind: UrnKind,
    pub domain: Seq<char>,
    pub name: Seq<char>,
    pub version: u32,
}

impl View for Urn {
    type V = UrnView;

    open spec fn view(&self) -> UrnView {
        UrnView { kind: self.kind, domain: self.domain@, name: self.name@, version: self.version }
    }
}

impl Clone for Urn {
    fn clone(&self) -> (out: Self)
        ensures
            out == *self,
    {
        Urn {
            kind: self.kind,
            domain: self.domain.clone(),
            name: self.name.clone(),
            version: self.version,
        }
    }
}

/// The decimal digit for `d`, meant for `d < 10`.
pub open spec fn digit_char(d: nat) -> char {
    ((48 + d) as u8) as char
}

/// The decimal numeral of `n`, without sign or leading zeros.
pub open spec fn decimal_text(n: nat) -> Seq<char>
    decreases n,
{
    if n < 10 {
        seq![digit_char(n)]
    } else {
        decimal_text(n / 10).push(digit_char(n % 10))
    }
}

/// The separator that tells the two kinds apart in the text form.
pub open spec fn kind_text(kind: UrnKind) -> Seq<char> {
    match kind {
        UrnKind::Device => ":device:"@,
        UrnKind::Service => ":service:"@,
    }
}

/// The text form of a name: `urn:<domain>:<kind>:<name>:<version>`.
pub open spec fn urn_text(u: UrnView) -> Seq<char> {
    "urn:"@ + u.domain + kind_text(u.kind) + u.name + ":"@ + decimal_text(u.version as nat)
}

/// Renders a name through `ssdp_client::URN`'s `Display`, which writes
/// `urn:{domain}:device:{typ}:{version}` or `urn:{domain}:service:{typ}:{version}`,
/// the version as a plain decimal numeral.
#[verifier::external_body]
fn render_urn(kind: UrnKind, domain: &str, name: &str, version: u32) -> (text: String)
    ensures
        text@ == urn_text(UrnView { kind, domain: domain@, name: name@, version }),
{
    let urn = match kind {
        UrnKind::Device => ssdp_client::URN::Device(domain.to_string().into(), name.to_string().into(), version),
        UrnKind::Service => ssdp_client::URN::Service(domain.to_string().into(), name.to_string().into(), version),
    };
    urn.to_string()
}

/// The type of the service that controls playback: AVTransport, version 1.
pub open spec fn av_transport() -> UrnView {
    UrnView {
        kind: UrnKind::Service,
        domain: "schemas-upnp-org"@,
        name: "AVTransport"@,
        version: 1,
    }
}

impl Urn {
    /// The type of the service that controls playback.
    pub fn av_transport() -> (out: Urn)
        ensures
            out@ == av_transport(),
    {
        Urn::service("schemas-upnp-org", "AVTransport", 1)
    }

    /// A device type name.
    pub fn device(domain: &str, name: &str, version: u32) -> (out: Urn)
        ensures
            out@ == (UrnView { kind: UrnKind::Device, domain: domain@, name: name@, version }),
    {
        Urn { kind: UrnKind::Device, domain: domain.to_owned(), name: name.to_owned(), version }
    }

    /// A service type name.
    pub fn service(domain: &str, name: &str, version: u32) -> (out: Urn)
        ensures
            out@ == (UrnView { kind: UrnKind::Service, domain: domain@, name: name@, version }),
    {
        Urn { kind: UrnKind::Service, domain: domain.to_owned(), name: name.to_owned(), version }
    }

    /// Whether two names designate the same type.
    pub fn same_as(&self, other: &Urn) -> (same: bool)
        ensures
            same == (self@ == other@),
    {
        self.kind == other.kind && self.domain == other.domain && self.name == other.name
            && self.version == other.version
    }

    /// The text form of this name.
    pub fn to_text(&self) -> (text: String)
        ensures
            text@ == urn_text(self@),
    {
        render_urn(self.kind, self.domain.as_str(), self.name.as_str(), self.version)
    }
}

} // verus!

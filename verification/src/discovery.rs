//! Discovery: from the candidates that answer a search to the renderers
//! among them.

use crate::device::{locate, Device, DeviceView};
use crate::render::{Render, RenderView};
use crate::text::same_text;
use crate::urn::{av_transport, Urn, UrnView};
use vstd::prelude::*;

verus! {

/// The longest wait that a search asks of the devices, in seconds.
pub const MAX_WAIT_HINT: u64 = 10;

/// The multicast time-to-live of a search for renderers.
pub const RENDERER_TTL: u32 = 20;

/// What a search is made with.
#[derive(Debug, PartialEq, Eq)]
pub struct DiscoveryQuery {
    /// The service type searched for.
    pub target: Urn,
    /// How long answers are collected, in seconds.
    pub timeout_secs: u64,
    /// How many candidates are looked at, at most; `None` for no bound.
    pub cap: Option<usize>,
    /// The multicast time-to-live; `None` for the transport's own.
    pub ttl: Option<u32>,
}

/// The wait hint of a search that collects answers for `timeout_secs`
/// seconds: the window itself, but at least one second and at most
/// [`MAX_WAIT_HINT`].
pub open spec fn wait_hint_of(timeout_secs: u64) -> u64 {
    if timeout_secs < 1 {
        1
    } else if timeout_secs > MAX_WAIT_HINT {
        MAX_WAIT_HINT
    } else {
        timeout_secs
    }
}

/// The number of candidates that a cap lets through.
pub open spec fn limit_of(cap: Option<usize>) -> usize {
    match cap {
        Some(limit) => limit,
        None => usize::MAX,
    }
}

impl DiscoveryQuery {
    /// The search for renderers during `timeout_secs` seconds, without a
    /// cap on the candidates.
    pub fn renderers(timeout_secs: u64) -> (out: DiscoveryQuery)
        ensures
            out.target@ == av_transport(),
            out.timeout_secs == timeout_secs,
            out.cap is None,
            out.ttl == Some(RENDERER_TTL),
    {
        DiscoveryQuery {
            target: Urn::av_transport(),
            timeout_secs,
            cap: None,
            ttl: Some(RENDERER_TTL),
        }
    }

    /// The wait hint that goes out with the search, in seconds.
    pub fn wait_hint(&self) -> (hint: u64)
        ensures
            hint == wait_hint_of(self.timeout_secs),
            1 <= hint <= MAX_WAIT_HINT,
    {
        if self.timeout_secs < 1 {
            1
        } else if self.timeout_secs > MAX_WAIT_HINT {
            MAX_WAIT_HINT
        } else {
            self.timeout_secs
        }
    }
}

/// One answer to a search, as far as it could be followed up.
#[derive(Debug, PartialEq, Eq)]
pub enum Candidate {
    /// The answer led to a device description.
    Resolved(Device),
    /// The description of the device could not be fetched or understood.
    Undescribed,
    /// The answer itself could not be understood.
    Malformed,
}

/// The mathematical value of a [`Candidate`].
pub enum CandidateView {
    Resolved(DeviceView),
    Undescribed,
    Malformed,
}

impl View for Candidate {
    type V = CandidateView;

    open spec fn view(&self) -> CandidateView {
        match self {
            Candidate::Resolved(device) => CandidateView::Resolved(device@),
            Candidate::Undescribed => CandidateView::Undescribed,
            Candidate::Malformed => CandidateView::Malformed,
        }
    }
}

/// What became of a candidate.
#[derive(Clone, Copy, Debug, PartialEq, Eq, Structural)]
pub enum Verdict {
    /// It is a renderer and was added to the result.
    Accepted,
    /// It is a renderer whose device is in the result already.
    Duplicate,
    /// Its device has no playback-control service.
    NoControlService,
    /// Its device description could not be had.
    DeviceDescriptionError,
    /// The answer could not be understood.
    MalformedResponse,
    /// The cap was reached before it: it was not looked at.
    CapReached,
}

/// Whether a renderer of the device called `id` is among `renders`.
pub open spec fn knows(renders: Seq<RenderView>, id: Seq<char>) -> bool {
    exists|i: int| 0 <= i < renders.len() && (#[trigger] renders[i]).device.id == id
}

/// What becomes of the candidate `c` when `renders` were found before it.
pub open spec fn judged(renders: Seq<RenderView>, c: CandidateView) -> Verdict {
    match c {
        CandidateView::Malformed => Verdict::MalformedResponse,
        CandidateView::Undescribed => Verdict::DeviceDescriptionError,
        CandidateView::Resolved(device) => match locate(device, av_transport()) {
            None => Verdict::NoControlService,
            Some(_) => if knows(renders, device.id) {
                Verdict::Duplicate
            } else {
                Verdict::Accepted
            },
        },
    }
}

/// The renderers found once `c` was looked at after `renders`: an accepted
/// candidate goes to the end, any other changes nothing.
pub open spec fn admitted(renders: Seq<RenderView>, c: CandidateView) -> Seq<RenderView> {
    if judged(renders, c) is Accepted {
        renders.push(
            RenderView { device: c->Resolved_0, service: locate(c->Resolved_0, av_transport())->0 },
        )
    } else {
        renders
    }
}

/// The renderers found among the first `n` of `candidates`.
pub open spec fn gathered(candidates: Seq<CandidateView>, n: nat) -> Seq<RenderView>
    decreases n,
{
    if n == 0 || n > candidates.len() {
        Seq::empty()
    } else {
        admitted(gathered(candidates, (n - 1) as nat), candidates[n - 1])
    }
}

/// How many of `total` candidates a search limited to `limit` looks at.
pub open spec fn looked_at(total: nat, limit: nat) -> nat {
    if limit < total {
        limit
    } else {
        total
    }
}

/// The result of a discovery over `candidates`, given in order of arrival,
/// of which at most `limit` are looked at: the renderers among them, in
/// order of arrival, one for each device identifier.
pub open spec fn discovered(candidates: Seq<CandidateView>, limit: nat) -> Seq<RenderView> {
    gathered(candidates, looked_at(candidates.len(), limit))
}

/// The values of some renderers.
pub open spec fn render_views(renders: Seq<Render>) -> Seq<RenderView> {
    renders.map_values(|r: Render| r@)
}

/// The values of some candidates.
pub open spec fn candidate_views(candidates: Seq<Candidate>) -> Seq<CandidateView> {
    candidates.map_values(|c: Candidate| c@)
}

/// A discovery under way: the renderers found so far.
#[derive(Debug)]
pub struct Discovery {
    limit: usize,
    seen: usize,
    renders: Vec<Render>,
}

/// The mathematical value of a [`Discovery`].
pub struct DiscoveryView {
    /// How many candidates are looked at, at most.
    pub limit: usize,
    /// How many candidates were looked at.
    pub seen: usize,
    /// The renderers found among them.
    pub renders: Seq<RenderView>,
}

impl View for Discovery {
    type V = DiscoveryView;

    closed spec fn view(&self) -> DiscoveryView {
        DiscoveryView { limit: self.limit, seen: self.seen, renders: render_views(self.renders@) }
    }
}

/// No two of `renders` have one device identifier.
pub open spec fn one_per_device(renders: Seq<RenderView>) -> bool {
    forall|i: int, j: int|
        0 <= i < j < renders.len() ==> (#[trigger] renders[i]).device.id != (
        #[trigger] renders[j]).device.id
}

/// What holds of every discovery: it has looked at no more candidates than
/// its limit, has found no more renderers than it has looked at
/// candidates, and has found none twice.
pub open spec fn consistent(d: DiscoveryView) -> bool {
    &&& d.seen <= d.limit
    &&& d.renders.len() <= d.seen
    &&& one_per_device(d.renders)
}

/// One move of a discovery: the state after the candidate `c` was offered,
/// and what became of it.
pub open spec fn offer_model(d: DiscoveryView, c: CandidateView) -> (DiscoveryView, Verdict) {
    if d.seen >= d.limit {
        (d, Verdict::CapReached)
    } else {
        (
            DiscoveryView {
                limit: d.limit,
                seen: (d.seen + 1) as usize,
                renders: admitted(d.renders, c),
            },
            judged(d.renders, c),
        )
    }
}

/// The state of a discovery limited to `limit` after the first `n` of
/// `candidates` were offered to it one by one.
pub open spec fn discovery_after(limit: usize, candidates: Seq<CandidateView>, n: nat)
    -> DiscoveryView
    decreases n,
{
    if n == 0 || n > candidates.len() {
        DiscoveryView { limit, seen: 0, renders: Seq::empty() }
    } else {
        offer_model(discovery_after(limit, candidates, (n - 1) as nat), candidates[n - 1]).0
    }
}

/// Offering a candidate keeps a discovery consistent.
pub proof fn lemma_offer_keeps_consistent(d: DiscoveryView, c: CandidateView)
    requires
        consistent(d),
    ensures
        consistent(offer_model(d, c).0),
{
    let after = offer_model(d, c).0;
    if d.seen < d.limit && judged(d.renders, c) is Accepted {
        assert forall|i: int, j: int| 0 <= i < j < after.renders.len() implies (
        #[trigger] after.renders[i]).device.id != (#[trigger] after.renders[j]).device.id by {
            if j == d.renders.len() {
                assert(after.renders[i] == d.renders[i]);
            } else {
                assert(after.renders[i] == d.renders[i]);
                assert(after.renders[j] == d.renders[j]);
            }
        }
    }
}

impl Discovery {
    #[verifier::type_invariant]
    spec fn well_formed(&self) -> bool {
        consistent(self@)
    }

    /// A discovery that has seen nothing yet and looks at no more than
    /// `cap` candidates.
    pub fn new(cap: Option<usize>) -> (out: Discovery)
        ensures
            out@ == (DiscoveryView { limit: limit_of(cap), seen: 0, renders: Seq::empty() }),
    {
        let limit = match cap {
            Some(limit) => limit,
            None => usize::MAX,
        };
        let renders: Vec<Render> = Vec::new();
        assert(render_views(renders@) =~= Seq::<RenderView>::empty());
        Discovery { limit, seen: 0, renders }
    }

    /// Whether another candidate would be looked at.
    pub fn wants_more(&self) -> (more: bool)
        ensures
            more == (self@.seen < self@.limit),
    {
        self.seen < self.limit
    }

    /// Whether a renderer of the device called `id` was found already.
    pub fn knows(&self, id: &str) -> (known: bool)
        ensures
            known == knows(self@.renders, id@),
    {
        let mut i: usize = 0;
        while i < self.renders.len()
            invariant
                0 <= i <= self.renders.len(),
                forall|j: int| 0 <= j < i ==> (#[trigger] self@.renders[j]).device.id != id@,
            decreases self.renders.len() - i,
        {
            if same_text(self.renders[i].device().id.as_str(), id) {
                assert(self@.renders[i as int].device.id == id@);
                return true;
            }
            i += 1;
        }
        false
    }

    /// Looks at one candidate, unless the cap is reached, and says what
    /// became of it. A renderer is added to the result if its device has
    /// the playback-control service and no renderer of a device with the
    /// same identifier was found before; nothing else changes the result.
    pub fn offer(&mut self, candidate: Candidate) -> (verdict: Verdict)
        ensures
            (final(self)@, verdict) == offer_model(old(self)@, candidate@),
            consistent(final(self)@),
    {
        proof {
            use_type_invariant(&*self);
            lemma_offer_keeps_consistent(self@, candidate@);
        }
        if self.seen >= self.limit {
            return Verdict::CapReached;
        }
        let known = match &candidate {
            Candidate::Resolved(device) => self.knows(device.id.as_str()),
            _ => false,
        };
        let mut taken = Discovery::new(None);
        std::mem::swap(self, &mut taken);
        let limit = taken.limit;
        let seen = taken.seen + 1;
        let mut renders = taken.renders;
        let verdict = match candidate {
            Candidate::Malformed => Verdict::MalformedResponse,
            Candidate::Undescribed => Verdict::DeviceDescriptionError,
            Candidate::Resolved(device) => match Render::from_device(device) {
                None => Verdict::NoControlService,
                Some(render) => {
                    if known {
                        Verdict::Duplicate
                    } else {
                        renders.push(render);
                        Verdict::Accepted
                    }
                },
            },
        };
        assert(render_views(renders@) =~= admitted(old(self)@.renders, candidate@));
        *self = Discovery { limit, seen, renders };
        verdict
    }

    /// How many renderers were found so far: no more than candidates were
    /// looked at, and so no more than the cap.
    pub fn len(&self) -> (n: usize)
        ensures
            n == self@.renders.len(),
            n <= self@.seen <= self@.limit,
    {
        proof {
            use_type_invariant(self);
        }
        self.renders.len()
    }

    /// The renderers found, in order of arrival: no more than the cap, and
    /// one for each device identifier.
    pub fn finish(self) -> (renders: Vec<Render>)
        ensures
            render_views(renders@) == self@.renders,
            renders@.len() == self@.renders.len(),
            renders@.len() <= self@.limit,
            one_per_device(self@.renders),
    {
        proof {
            use_type_invariant(&self);
        }
        self.renders
    }
}

/// The search itself could not be made: nothing was sent or nothing could
/// be received. A single answer that cannot be used is no such failure.
#[derive(Debug, PartialEq, Eq)]
pub struct DiscoveryTransportError {
    pub reason: String,
}

impl Render {
    /// The renderers among the answers to the search `query`. `scan` is
    /// what the search brought: the candidates in order of arrival, or the
    /// failure of the search itself, which is handed on as it is and is the
    /// only way for a discovery to fail.
    ///
    /// No more candidates than the query's cap are looked at. A candidate
    /// that could not be resolved, or whose device has no playback-control
    /// service, is left out, and so is a second answer of a device already
    /// found. Where no candidate is a renderer, the result is empty.
    pub fn discover(
        query: &DiscoveryQuery,
        scan: Result<Vec<Candidate>, DiscoveryTransportError>,
    ) -> (out: Result<Vec<Render>, DiscoveryTransportError>)
        ensures
            match scan {
                Ok(candidates) => {
                    &&& out matches Ok(renders)
                    &&& render_views(renders@) == discovered(
                        candidate_views(candidates@),
                        limit_of(query.cap) as nat,
                    )
                    &&& renders@.len() == discovered(
                        candidate_views(candidates@),
                        limit_of(query.cap) as nat,
                    ).len()
                    &&& renders@.len() <= limit_of(query.cap)
                    &&& renders@.len() <= candidates@.len()
                    &&& one_per_device(render_views(renders@))
                    &&& forall|i: int|
                        0 <= i < renders@.len() ==> locate(
                            (#[trigger] renders@[i])@.device,
                            av_transport(),
                        ) == Some(renders@[i]@.service)
                },
                Err(failure) => out == Err::<Vec<Render>, DiscoveryTransportError>(failure),
            },
    {
        let candidates = match scan {
            Ok(candidates) => candidates,
            Err(failure) => {
                return Err(failure);
            },
        };
        let ghost all = candidate_views(candidates@);
        let ghost limit = limit_of(query.cap) as nat;
        let mut discovery = Discovery::new(query.cap);
        for candidate in it: candidates.into_iter()
            invariant
                it.seq() == candidates@,
                all == candidate_views(candidates@),
                limit == limit_of(query.cap),
                discovery@.limit == limit,
                discovery@.seen == looked_at(it.index() as nat, limit),
                discovery@.renders == gathered(all, looked_at(it.index() as nat, limit)),
        {
            proof {
                assert(all[it.index()] == candidate@);
            }
            let _ = discovery.offer(candidate);
        }
        let renders = discovery.finish();
        proof {
            lemma_discovered_have_control_service(all, limit);
            lemma_discovered_within_cap(all, limit);
            lemma_discovered_one_per_device(all, limit);
            assert forall|i: int| 0 <= i < renders@.len() implies locate(
                (#[trigger] renders@[i])@.device,
                av_transport(),
            ) == Some(renders@[i]@.service) by {
                assert(render_views(renders@)[i] == renders@[i]@);
            }
        }
        Ok(renders)
    }
}

/// What holds of the renderers found among the first `n` candidates: they
/// are no more than `n`; each holds the playback-control service that a
/// search of its device yields; no two have one device identifier; and
/// the device of each is that of one of those candidates.
pub proof fn lemma_gathered_sound(candidates: Seq<CandidateView>, n: nat)
    requires
        n <= candidates.len(),
    ensures
        gathered(candidates, n).len() <= n,
        forall|i: int|
            0 <= i < gathered(candidates, n).len() ==> locate(
                (#[trigger] gathered(candidates, n)[i]).device,
                av_transport(),
            ) == Some(gathered(candidates, n)[i].service),
        forall|i: int, j: int|
            0 <= i < j < gathered(candidates, n).len() ==> (#[trigger] gathered(
                candidates,
                n,
            )[i]).device.id != (#[trigger] gathered(candidates, n)[j]).device.id,
        forall|i: int|
            0 <= i < gathered(candidates, n).len() ==> exists|j: int|
                0 <= j < n && #[trigger] candidates[j] == CandidateView::Resolved(
                    (#[trigger] gathered(candidates, n)[i]).device,
                ),
    decreases n,
{
    if n > 0 {
        let before = gathered(candidates, (n - 1) as nat);
        let after = gathered(candidates, n);
        lemma_gathered_sound(candidates, (n - 1) as nat);
        if judged(before, candidates[n - 1]) is Accepted {
            assert forall|i: int, j: int| 0 <= i < j < after.len() implies (#[trigger] after[i]).device.id
                != (#[trigger] after[j]).device.id by {
                if j == before.len() {
                    assert(before[i].device.id == after[i].device.id);
                } else {
                    assert(after[i] == before[i]);
                    assert(after[j] == before[j]);
                }
            }
            assert forall|i: int| 0 <= i < after.len() implies exists|j: int|
                0 <= j < n && #[trigger] candidates[j] == CandidateView::Resolved(
                    (#[trigger] after[i]).device,
                ) by {
                if i == before.len() {
                    assert(candidates[n - 1] == CandidateView::Resolved(after[i].device));
                } else {
                    assert(after[i] == before[i]);
                    let j = choose|j: int|
                        0 <= j < n - 1 && #[trigger] candidates[j] == CandidateView::Resolved(
                            before[i].device,
                        );
                    assert(candidates[j] == CandidateView::Resolved(after[i].device));
                }
            }
        } else {
            assert forall|i: int| 0 <= i < after.len() implies exists|j: int|
                0 <= j < n && #[trigger] candidates[j] == CandidateView::Resolved(
                    (#[trigger] after[i]).device,
                ) by {
                let j = choose|j: int|
                    0 <= j < n - 1 && #[trigger] candidates[j] == CandidateView::Resolved(
                        before[i].device,
                    );
                assert(candidates[j] == CandidateView::Resolved(after[i].device));
            }
        }
    }
}

/// What was found stays found, in its place: the renderers among the first
/// `n` candidates open the list of those among the first `m`, for `n <= m`.
pub proof fn lemma_gathered_grows(candidates: Seq<CandidateView>, n: nat, m: nat)
    requires
        n <= m <= candidates.len(),
    ensures
        gathered(candidates, n).len() <= gathered(candidates, m).len(),
        forall|i: int|
            0 <= i < gathered(candidates, n).len() ==> gathered(candidates, m)[i] == gathered(
                candidates,
                n,
            )[i],
    decreases m,
{
    if n < m {
        lemma_gathered_grows(candidates, n, (m - 1) as nat);
    }
}

/// Every candidate looked at whose device has the playback-control service
/// is represented: a renderer with its device identifier is in the result.
pub proof fn lemma_gathered_complete(candidates: Seq<CandidateView>, n: nat, j: int)
    requires
        0 <= j < n <= candidates.len(),
        candidates[j] is Resolved,
        locate(candidates[j]->Resolved_0, av_transport()) is Some,
    ensures
        knows(gathered(candidates, n), candidates[j]->Resolved_0.id),
    decreases n,
{
    let id = candidates[j]->Resolved_0.id;
    let before = gathered(candidates, (n - 1) as nat);
    let after = gathered(candidates, n);
    if j == n - 1 {
        if judged(before, candidates[j]) is Accepted {
            assert(after[before.len() as int].device.id == id);
        }
    } else {
        lemma_gathered_complete(candidates, (n - 1) as nat, j);
        let i = choose|i: int| 0 <= i < before.len() && (#[trigger] before[i]).device.id == id;
        lemma_gathered_grows(candidates, (n - 1) as nat, n);
        assert(after[i].device.id == id);
    }
}

/// Every renderer in the result of a discovery holds the playback-control
/// service that a search of its device yields.
pub proof fn lemma_discovered_have_control_service(candidates: Seq<CandidateView>, limit: nat)
    ensures
        forall|i: int|
            0 <= i < discovered(candidates, limit).len() ==> locate(
                (#[trigger] discovered(candidates, limit)[i]).device,
                av_transport(),
            ) == Some(discovered(candidates, limit)[i].service),
{
    lemma_gathered_sound(candidates, looked_at(candidates.len(), limit));
}

/// A device without the playback-control service never appears in the
/// result of a discovery, whatever the candidates and the cap.
pub proof fn lemma_discovered_excludes(
    candidates: Seq<CandidateView>,
    limit: nat,
    device: DeviceView,
)
    requires
        locate(device, av_transport()) is None,
    ensures
        forall|i: int|
            0 <= i < discovered(candidates, limit).len() ==> (#[trigger] discovered(
                candidates,
                limit,
            )[i]).device != device,
{
    lemma_discovered_have_control_service(candidates, limit);
}

/// The result of a discovery is never longer than the cap, nor than the
/// list of candidates.
pub proof fn lemma_discovered_within_cap(candidates: Seq<CandidateView>, limit: nat)
    ensures
        discovered(candidates, limit).len() <= limit,
        discovered(candidates, limit).len() <= candidates.len(),
{
    lemma_gathered_sound(candidates, looked_at(candidates.len(), limit));
}

/// The result of a discovery holds each device identifier once, and every
/// device in it was described by one of the candidates looked at.
pub proof fn lemma_discovered_one_per_device(candidates: Seq<CandidateView>, limit: nat)
    ensures
        forall|i: int, j: int|
            0 <= i < j < discovered(candidates, limit).len() ==> (#[trigger] discovered(
                candidates,
                limit,
            )[i]).device.id != (#[trigger] discovered(candidates, limit)[j]).device.id,
        forall|i: int|
            0 <= i < discovered(candidates, limit).len() ==> exists|j: int|
                0 <= j < candidates.len() && j < limit && #[trigger] candidates[j]
                    == CandidateView::Resolved((#[trigger] discovered(candidates, limit)[i]).device),
{
    let n = looked_at(candidates.len(), limit);
    lemma_gathered_sound(candidates, n);
    assert forall|i: int| 0 <= i < discovered(candidates, limit).len() implies exists|j: int|
        0 <= j < candidates.len() && j < limit && #[trigger] candidates[j]
            == CandidateView::Resolved((#[trigger] discovered(candidates, limit)[i]).device) by {
        let j = choose|j: int|
            0 <= j < n && #[trigger] candidates[j] == CandidateView::Resolved(
                gathered(candidates, n)[i].device,
            );
        assert(candidates[j] == CandidateView::Resolved(discovered(candidates, limit)[i].device));
    }
}

/// Offering candidates one by one finds what a discovery over the list of
/// them finds: after `n` offers, as many candidates were looked at as the
/// limit lets through, and the renderers found are those among them.
pub proof fn lemma_offers_gather(limit: usize, candidates: Seq<CandidateView>, n: nat)
    requires
        n <= candidates.len(),
    ensures
        discovery_after(limit, candidates, n) == (DiscoveryView {
            limit,
            seen: looked_at(n, limit as nat) as usize,
            renders: gathered(candidates, looked_at(n, limit as nat)),
        }),
    decreases n,
{
    if n > 0 {
        lemma_offers_gather(limit, candidates, (n - 1) as nat);
    }
}

/// Offering every candidate of a list finds the result of a discovery over
/// the list.
pub proof fn lemma_offers_gather_all(limit: usize, candidates: Seq<CandidateView>)
    ensures
        discovery_after(limit, candidates, candidates.len()).renders == discovered(
            candidates,
            limit as nat,
        ),
{
    lemma_offers_gather(limit, candidates, candidates.len());
}

} // verus!

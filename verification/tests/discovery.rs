use dlna_cast::{
    Candidate, Device, Discovery, DiscoveryQuery, DiscoveryTransportError, Render, Service, Urn,
    Verdict,
};

fn service(name: &str) -> Service {
    Service {
        service_type: Urn::service("schemas-upnp-org", name, 1),
        service_id: format!("urn:upnp-org:serviceId:{}", name),
    }
}

fn device(id: &str, name: &str, services: Vec<Service>) -> Device {
    Device {
        id: id.to_string(),
        friendly_name: name.to_string(),
        device_type: Urn::device("schemas-upnp-org", "MediaRenderer", 1),
        url: format!("http://10.0.0.2/{}.xml", id),
        services,
        devices: vec![],
    }
}

fn renderer(id: &str, name: &str) -> Device {
    device(id, name, vec![service("RenderingControl"), service("AVTransport")])
}

fn query(cap: Option<usize>) -> DiscoveryQuery {
    DiscoveryQuery { cap, ..DiscoveryQuery::renderers(5) }
}

fn ids(renders: &[Render]) -> Vec<String> {
    renders.iter().map(|r| r.device().id.clone()).collect()
}

#[test]
fn query_for_renderers() {
    let q = DiscoveryQuery::renderers(30);
    assert_eq!(q.target, Urn::av_transport());
    assert_eq!(q.timeout_secs, 30);
    assert_eq!(q.cap, None);
    assert_eq!(q.ttl, Some(20));
}

#[test]
fn wait_hint_follows_the_window_within_bounds() {
    assert_eq!(DiscoveryQuery::renderers(0).wait_hint(), 1);
    assert_eq!(DiscoveryQuery::renderers(1).wait_hint(), 1);
    assert_eq!(DiscoveryQuery::renderers(5).wait_hint(), 5);
    assert_eq!(DiscoveryQuery::renderers(10).wait_hint(), 10);
    assert_eq!(DiscoveryQuery::renderers(30).wait_hint(), 10);
    assert_eq!(DiscoveryQuery::renderers(u64::MAX).wait_hint(), 10);
}

#[test]
fn one_renderer_on_the_network() {
    let found = Render::discover(
        &DiscoveryQuery::renderers(5),
        Ok(vec![Candidate::Resolved(renderer("uuid:tv", "Living Room TV"))]),
    )
    .unwrap();
    assert_eq!(found.len(), 1);
    let name = found[0].full_name();
    assert!(name.contains("Living Room TV"));
    assert!(name.contains("urn:schemas-upnp-org:service:AVTransport:1"));
}

#[test]
fn no_candidate_gives_an_empty_result() {
    assert_eq!(Render::discover(&query(None), Ok(vec![])), Ok(vec![]));
    assert_eq!(Render::discover(&query(Some(0)), Ok(vec![])), Ok(vec![]));
}

#[test]
fn failed_search_is_handed_on() {
    let failure = DiscoveryTransportError { reason: "no socket".to_string() };
    assert_eq!(
        Render::discover(&query(None), Err(DiscoveryTransportError { reason: "no socket".to_string() })),
        Err(failure)
    );
}

#[test]
fn devices_without_control_service_are_left_out() {
    let found = Render::discover(
        &query(None),
        Ok(vec![
            Candidate::Resolved(device("uuid:router", "Router", vec![service("WANIPConnection")])),
            Candidate::Resolved(renderer("uuid:tv", "TV")),
            Candidate::Resolved(device("uuid:nas", "NAS", vec![])),
        ]),
    )
    .unwrap();
    assert_eq!(ids(&found), vec!["uuid:tv"]);
}

#[test]
fn unusable_candidates_do_not_end_the_discovery() {
    let found = Render::discover(
        &query(None),
        Ok(vec![
            Candidate::Malformed,
            Candidate::Resolved(renderer("uuid:a", "A")),
            Candidate::Undescribed,
            Candidate::Resolved(renderer("uuid:b", "B")),
        ]),
    )
    .unwrap();
    assert_eq!(ids(&found), vec!["uuid:a", "uuid:b"]);
}

#[test]
fn second_answer_of_a_device_is_left_out() {
    let found = Render::discover(
        &query(None),
        Ok(vec![
            Candidate::Resolved(renderer("uuid:a", "first answer")),
            Candidate::Resolved(renderer("uuid:b", "B")),
            Candidate::Resolved(renderer("uuid:a", "second answer")),
        ]),
    )
    .unwrap();
    assert_eq!(ids(&found), vec!["uuid:a", "uuid:b"]);
    assert_eq!(found[0].device().friendly_name, "first answer");
}

#[test]
fn result_is_not_longer_than_the_cap() {
    let candidates = || {
        Ok(vec![
            Candidate::Resolved(renderer("uuid:a", "A")),
            Candidate::Resolved(renderer("uuid:b", "B")),
            Candidate::Resolved(renderer("uuid:c", "C")),
        ])
    };
    assert_eq!(ids(&Render::discover(&query(Some(0)), candidates()).unwrap()), Vec::<String>::new());
    assert_eq!(ids(&Render::discover(&query(Some(2)), candidates()).unwrap()), vec!["uuid:a", "uuid:b"]);
    assert_eq!(
        ids(&Render::discover(&query(Some(3)), candidates()).unwrap()),
        vec!["uuid:a", "uuid:b", "uuid:c"]
    );
    assert_eq!(
        ids(&Render::discover(&query(Some(usize::MAX)), candidates()).unwrap()),
        vec!["uuid:a", "uuid:b", "uuid:c"]
    );
}

#[test]
fn cap_counts_every_candidate_looked_at() {
    let found = Render::discover(
        &query(Some(2)),
        Ok(vec![
            Candidate::Malformed,
            Candidate::Resolved(renderer("uuid:a", "A")),
            Candidate::Resolved(renderer("uuid:b", "B")),
        ]),
    )
    .unwrap();
    assert_eq!(ids(&found), vec!["uuid:a"]);
}

#[test]
fn offers_one_by_one() {
    let mut discovery = Discovery::new(Some(5));
    assert!(discovery.wants_more());
    assert_eq!(discovery.offer(Candidate::Malformed), Verdict::MalformedResponse);
    assert_eq!(discovery.offer(Candidate::Undescribed), Verdict::DeviceDescriptionError);
    assert_eq!(
        discovery.offer(Candidate::Resolved(device("uuid:nas", "NAS", vec![]))),
        Verdict::NoControlService
    );
    assert_eq!(discovery.offer(Candidate::Resolved(renderer("uuid:a", "A"))), Verdict::Accepted);
    assert!(discovery.knows("uuid:a"));
    assert!(!discovery.knows("uuid:b"));
    assert!(discovery.wants_more());
    assert_eq!(discovery.offer(Candidate::Resolved(renderer("uuid:a", "A"))), Verdict::Duplicate);
    assert!(!discovery.wants_more());
    assert_eq!(discovery.offer(Candidate::Resolved(renderer("uuid:b", "B"))), Verdict::CapReached);
    assert_eq!(discovery.len(), 1);
    assert_eq!(ids(&discovery.finish()), vec!["uuid:a"]);
}

#[test]
fn a_known_device_without_control_service_is_no_duplicate() {
    let mut discovery = Discovery::new(None);
    assert_eq!(discovery.offer(Candidate::Resolved(renderer("uuid:a", "A"))), Verdict::Accepted);
    assert_eq!(
        discovery.offer(Candidate::Resolved(device("uuid:a", "A", vec![]))),
        Verdict::NoControlService
    );
    assert_eq!(discovery.len(), 1);
}

use dlna_cast::media::PAYLOAD_PLAY;
use dlna_cast::{
    ActionCause, ActionError, ActionName, ActionRequest, CastCommand, CastError, CastEvent,
    CastState, CastStep, Device, MediaDescriptor, Render, Service, Urn,
};

fn control_service() -> Service {
    Service {
        service_type: Urn::av_transport(),
        service_id: "urn:upnp-org:serviceId:AVTransport".to_string(),
    }
}

fn renderer() -> Render {
    Render::from_device(Device {
        id: "uuid:tv".to_string(),
        friendly_name: "TV".to_string(),
        device_type: Urn::device("schemas-upnp-org", "MediaRenderer", 1),
        url: "http://192.168.1.100:49152/description.xml".to_string(),
        services: vec![control_service()],
        devices: vec![],
    })
    .unwrap()
}

fn request(action: ActionName, payload: String) -> ActionRequest {
    ActionRequest {
        action,
        payload,
        base_url: "http://192.168.1.100:49152/description.xml".to_string(),
        service: control_service(),
    }
}

/// Runs a cast over the outcomes of its calls, first outcome first, and
/// returns the calls it asked for and how it ended.
fn run(render: &Render, media: &MediaDescriptor, outcomes: Vec<CastEvent>) -> (Vec<ActionRequest>, CastState, CastCommand) {
    let mut asked = Vec::new();
    let mut outcomes = outcomes.into_iter();
    let (mut state, mut command) = render.play(media, CastState::Idle, CastEvent::Begin);
    while let CastCommand::Invoke(call) = command {
        asked.push(call);
        let (next, then) = render.play(media, state, outcomes.next().unwrap());
        state = next;
        command = then;
    }
    (asked, state, command)
}

#[test]
fn cast_asks_for_set_uri_then_play() {
    let render = renderer();
    let media = MediaDescriptor::from_url("http://h/movie.mkv");
    let (asked, state, command) = run(&render, &media, vec![CastEvent::Done, CastEvent::Done]);
    assert_eq!(
        asked,
        vec![
            request(ActionName::SetAVTransportURI, media.set_uri_payload()),
            request(ActionName::Play, PAYLOAD_PLAY.to_string()),
        ]
    );
    assert_eq!(state, CastState::Playing);
    assert_eq!(command, CastCommand::Finish);
}

#[test]
fn cast_goes_through_the_states_in_order() {
    let render = renderer();
    let media = MediaDescriptor::from_url("http://h/movie.mkv");
    let (state, command) = render.play(&media, CastState::Idle, CastEvent::Begin);
    assert_eq!(state, CastState::MetadataBuilt);
    assert!(matches!(command, CastCommand::Invoke(ActionRequest { action: ActionName::SetAVTransportURI, .. })));
    let (state, command) = render.play(&media, state, CastEvent::Done);
    assert_eq!(state, CastState::URISet);
    assert!(matches!(command, CastCommand::Invoke(ActionRequest { action: ActionName::Play, .. })));
    let (state, command) = render.play(&media, state, CastEvent::Done);
    assert_eq!(state, CastState::Playing);
    assert_eq!(command, CastCommand::Finish);
    assert!(state.is_terminal());
}

#[test]
fn casting_twice_asks_for_the_two_calls_twice() {
    let render = renderer();
    let before = render.clone();
    let media = MediaDescriptor::from_url("http://h/movie.mkv");
    let first = run(&render, &media, vec![CastEvent::Done, CastEvent::Done]);
    let second = run(&render, &media, vec![CastEvent::Done, CastEvent::Done]);
    assert_eq!(first.0.len(), 2);
    assert_eq!(first, second);
    assert_eq!(render, before);
}

#[test]
fn failed_set_uri_is_tagged_and_play_is_never_asked_for() {
    let render = renderer();
    let media = MediaDescriptor::from_url("http://h/movie.mkv");
    let (asked, state, command) = run(&render, &media, vec![CastEvent::Failed(ActionCause::Network)]);
    assert_eq!(asked.len(), 1);
    assert_eq!(asked[0].action, ActionName::SetAVTransportURI);
    assert_eq!(state, CastState::Error(CastStep::SetAVTransportURISource));
    assert_eq!(
        command,
        CastCommand::Abort(CastError {
            step: CastStep::SetAVTransportURISource,
            source: ActionError {
                action: ActionName::SetAVTransportURI,
                cause: ActionCause::Network,
            },
        })
    );
    assert_eq!(CastStep::SetAVTransportURISource.tag(), "SetAVTransportURISource");
    for event in [CastEvent::Begin, CastEvent::Done, CastEvent::Failed(ActionCause::Network)] {
        assert_eq!(render.play(&media, state, event), (state, CastCommand::Ignore));
    }
}

#[test]
fn failed_play_is_tagged() {
    let render = renderer();
    let media = MediaDescriptor::from_url("http://h/movie.mkv");
    let fault = ActionCause::Fault { code: 701, description: "Transition not available".to_string() };
    let (asked, state, command) = run(&render, &media, vec![CastEvent::Done, CastEvent::Failed(fault.clone())]);
    assert_eq!(asked.len(), 2);
    assert_eq!(state, CastState::Error(CastStep::PlaySource));
    assert_eq!(
        command,
        CastCommand::Abort(CastError {
            step: CastStep::PlaySource,
            source: ActionError { action: ActionName::Play, cause: fault },
        })
    );
    assert_eq!(CastStep::PlaySource.tag(), "PlaySource");
    assert!(state.is_terminal());
}

#[test]
fn each_cause_is_handed_on() {
    let render = renderer();
    let media = MediaDescriptor::from_url("http://h/movie.mkv");
    for cause in [ActionCause::Network, ActionCause::Status(404), ActionCause::Malformed] {
        let (_, command) = render.play(&media, CastState::MetadataBuilt, CastEvent::Failed(cause.clone()));
        assert_eq!(
            command,
            CastCommand::Abort(CastError {
                step: CastStep::SetAVTransportURISource,
                source: ActionError { action: ActionName::SetAVTransportURI, cause },
            })
        );
    }
}

#[test]
fn calls_go_to_the_address_of_the_renderer() {
    let render = renderer();
    let media = MediaDescriptor::from_url("http://h/movie.mkv");
    let (asked, _, _) = run(&render, &media, vec![CastEvent::Done, CastEvent::Done]);
    for call in asked {
        assert_eq!(call.base_url, render.device().url);
        assert_eq!(&call.service, render.service());
    }
}

#[test]
fn cast_events_out_of_place_are_ignored() {
    let render = renderer();
    let media = MediaDescriptor::from_url("http://h/movie.mkv");
    assert_eq!(render.play(&media, CastState::Idle, CastEvent::Done), (CastState::Idle, CastCommand::Ignore));
    assert_eq!(
        render.play(&media, CastState::Idle, CastEvent::Failed(ActionCause::Network)),
        (CastState::Idle, CastCommand::Ignore)
    );
    assert_eq!(
        render.play(&media, CastState::MetadataBuilt, CastEvent::Begin),
        (CastState::MetadataBuilt, CastCommand::Ignore)
    );
    assert_eq!(
        render.play(&media, CastState::URISet, CastEvent::Begin),
        (CastState::URISet, CastCommand::Ignore)
    );
    assert_eq!(
        render.play(&media, CastState::Playing, CastEvent::Done),
        (CastState::Playing, CastCommand::Ignore)
    );
    assert!(!CastState::Idle.is_terminal());
    assert!(!CastState::MetadataBuilt.is_terminal());
    assert!(!CastState::URISet.is_terminal());
}

#[test]
fn action_names_on_the_wire() {
    assert_eq!(ActionName::SetAVTransportURI.as_str(), "SetAVTransportURI");
    assert_eq!(ActionName::Play.as_str(), "Play");
}

use dlna_cast::{Device, Render, Service, Urn};

fn service(name: &str, id: &str) -> Service {
    Service { service_type: Urn::service("schemas-upnp-org", name, 1), service_id: id.to_string() }
}

fn device(id: &str, services: Vec<Service>, devices: Vec<Device>) -> Device {
    Device {
        id: id.to_string(),
        friendly_name: format!("device {}", id),
        device_type: Urn::device("schemas-upnp-org", "MediaRenderer", 1),
        url: format!("http://10.0.0.1/{}.xml", id),
        services,
        devices,
    }
}

#[test]
fn finds_own_service() {
    let d = device(
        "a",
        vec![service("RenderingControl", "rc"), service("AVTransport", "avt")],
        vec![],
    );
    let found = d.find_service(&Urn::av_transport());
    assert_eq!(found, Some(&service("AVTransport", "avt")));
}

#[test]
fn finds_nothing_in_a_device_without_services() {
    let d = device("a", vec![], vec![]);
    assert_eq!(d.find_service(&Urn::av_transport()), None);
}

#[test]
fn finds_nothing_where_only_the_version_differs() {
    let other = Service {
        service_type: Urn::service("schemas-upnp-org", "AVTransport", 2),
        service_id: "avt2".to_string(),
    };
    let d = device("a", vec![other], vec![]);
    assert_eq!(d.find_service(&Urn::av_transport()), None);
}

#[test]
fn finds_service_of_nested_device() {
    let inner = device("inner", vec![service("AVTransport", "deep")], vec![]);
    let middle = device("middle", vec![service("ConnectionManager", "cm")], vec![inner]);
    let root = device("root", vec![service("RenderingControl", "rc")], vec![middle]);
    let found = root.find_service(&Urn::av_transport());
    assert_eq!(found.map(|s| s.service_id.as_str()), Some("deep"));
}

#[test]
fn own_service_comes_before_nested_ones() {
    let inner = device("inner", vec![service("AVTransport", "nested")], vec![]);
    let root = device(
        "root",
        vec![service("RenderingControl", "rc"), service("AVTransport", "own")],
        vec![inner],
    );
    let found = root.find_service(&Urn::av_transport());
    assert_eq!(found.map(|s| s.service_id.as_str()), Some("own"));
}

#[test]
fn first_nested_device_comes_first() {
    let first = device(
        "first",
        vec![],
        vec![device("first-child", vec![service("AVTransport", "one")], vec![])],
    );
    let second = device("second", vec![service("AVTransport", "two")], vec![]);
    let root = device("root", vec![], vec![first, second]);
    let found = root.find_service(&Urn::av_transport());
    assert_eq!(found.map(|s| s.service_id.as_str()), Some("one"));
}

#[test]
fn first_of_two_own_services_of_one_type() {
    let root = device(
        "root",
        vec![service("AVTransport", "one"), service("AVTransport", "two")],
        vec![],
    );
    let found = root.find_service(&Urn::av_transport());
    assert_eq!(found.map(|s| s.service_id.as_str()), Some("one"));
}

#[test]
fn copy_of_a_device_is_equal_to_it() {
    let inner = device("inner", vec![service("AVTransport", "deep")], vec![]);
    let root = device("root", vec![service("RenderingControl", "rc")], vec![inner]);
    assert_eq!(root.clone(), root);
    assert_eq!(root.duplicate(), root);
}

#[test]
fn renderer_holds_the_located_service() {
    let inner = device("inner", vec![service("AVTransport", "deep")], vec![]);
    let root = device("root", vec![service("RenderingControl", "rc")], vec![inner]);
    let render = Render::from_device(root.clone()).unwrap();
    assert_eq!(render.device(), &root);
    assert_eq!(render.service(), &service("AVTransport", "deep"));
    assert_eq!(render.clone(), render);
}

#[test]
fn no_renderer_without_control_service() {
    let root = device("root", vec![service("RenderingControl", "rc")], vec![]);
    assert_eq!(Render::from_device(root), None);
}

#[test]
fn presentation_lines() {
    let mut root = device("root", vec![service("AVTransport", "avt")], vec![]);
    root.friendly_name = "Living Room TV".to_string();
    root.url = "http://192.168.1.20:49152/description.xml".to_string();
    let render = Render::from_device(root).unwrap();
    assert_eq!(
        render.display_name(),
        "[urn:schemas-upnp-org:device:MediaRenderer:1] Living Room TV @ http://192.168.1.20:49152/description.xml"
    );
    assert_eq!(
        render.full_name(),
        "[urn:schemas-upnp-org:device:MediaRenderer:1][urn:schemas-upnp-org:service:AVTransport:1] Living Room TV @ http://192.168.1.20:49152/description.xml"
    );
}

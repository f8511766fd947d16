use dlna_cast::ActionResponse;

fn pair(name: &str, value: &str) -> (String, String) {
    (name.to_string(), value.to_string())
}

#[test]
fn new_response_is_empty() {
    let response = ActionResponse::new();
    assert!(response.is_empty());
    assert_eq!(response.len(), 0);
    assert_eq!(response.get("CurrentTransportState"), None);
    assert!(!response.contains_key("CurrentTransportState"));
}

#[test]
fn inserted_value_is_found() {
    let mut response = ActionResponse::new();
    response.insert("CurrentSpeed".to_string(), "1".to_string());
    assert!(!response.is_empty());
    assert_eq!(response.len(), 1);
    assert_eq!(response.get("CurrentSpeed"), Some(&"1".to_string()));
    assert!(response.contains_key("CurrentSpeed"));
    assert_eq!(response.get("currentspeed"), None);
}

#[test]
fn second_insert_of_a_name_replaces_the_value() {
    let mut response = ActionResponse::new();
    response.insert("a".to_string(), "1".to_string());
    response.insert("b".to_string(), "2".to_string());
    response.insert("a".to_string(), "3".to_string());
    assert_eq!(response.len(), 2);
    assert_eq!(response.get("a"), Some(&"3".to_string()));
    assert_eq!(response.get("b"), Some(&"2".to_string()));
    assert_eq!(response, ActionResponse::from_pairs(vec![pair("a", "3"), pair("b", "2")]));
}

#[test]
fn from_pairs_keeps_the_later_value_and_the_first_place() {
    let response = ActionResponse::from_pairs(vec![
        pair("CurrentTransportState", "PLAYING"),
        pair("CurrentTransportStatus", "OK"),
        pair("CurrentTransportState", "STOPPED"),
        pair("CurrentSpeed", "1"),
    ]);
    assert_eq!(response.len(), 3);
    assert_eq!(response.get("CurrentTransportState"), Some(&"STOPPED".to_string()));
    assert_eq!(response.get("CurrentTransportStatus"), Some(&"OK".to_string()));
    assert_eq!(response.get("CurrentSpeed"), Some(&"1".to_string()));
    let mut step_by_step = ActionResponse::new();
    step_by_step.insert("CurrentTransportState".to_string(), "STOPPED".to_string());
    step_by_step.insert("CurrentTransportStatus".to_string(), "OK".to_string());
    step_by_step.insert("CurrentSpeed".to_string(), "1".to_string());
    assert_eq!(response, step_by_step);
}

#[test]
fn from_no_pairs_is_empty() {
    assert_eq!(ActionResponse::from_pairs(vec![]), ActionResponse::new());
}

#[test]
fn copy_of_a_response_is_equal_to_it() {
    let response = ActionResponse::from_pairs(vec![pair("a", "1"), pair("b", "2")]);
    assert_eq!(response.clone(), response);
}

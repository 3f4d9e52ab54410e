use member_auth::carrier::SessionCarrier;

#[test]
fn new_carrier_has_no_slot_filled() {
    let carrier = SessionCarrier::new();
    assert_eq!(carrier.get("token"), None);
    assert_eq!(carrier.get(""), None);
}

#[test]
fn set_then_get_gives_the_value() {
    let mut carrier = SessionCarrier::new();
    carrier.set("token", "abc".to_string());
    assert_eq!(carrier.get("token"), Some("abc".to_string()));
    assert_eq!(carrier.get("Token"), None);
    assert_eq!(carrier.get("toke"), None);
}

#[test]
fn set_replaces_what_the_slot_held() {
    let mut carrier = SessionCarrier::new();
    carrier.set("token", "first".to_string());
    carrier.set("token", "second".to_string());
    assert_eq!(carrier.get("token"), Some("second".to_string()));
}

#[test]
fn set_leaves_other_slots_alone() {
    let mut carrier = SessionCarrier::new();
    carrier.set("a", "1".to_string());
    carrier.set("b", "2".to_string());
    carrier.set("", "3".to_string());
    carrier.set("a", "4".to_string());
    assert_eq!(carrier.get("a"), Some("4".to_string()));
    assert_eq!(carrier.get("b"), Some("2".to_string()));
    assert_eq!(carrier.get(""), Some("3".to_string()));
    assert_eq!(carrier.get("c"), None);
}

#[test]
fn get_does_not_change_the_carrier() {
    let mut carrier = SessionCarrier::new();
    carrier.set("token", "abc".to_string());
    for _ in 0..3 {
        assert_eq!(carrier.get("token"), Some("abc".to_string()));
        assert_eq!(carrier.get("other"), None);
    }
}

use domo::topic::{device_prefix, owns_routing_key, to_routing_key};

#[test]
fn prefixes_are_built_from_tenant_and_account() {
    assert_eq!(device_prefix("lakeside", "u-1"), "domo/lakeside/u-1");
}

#[test]
fn mqtt_separators_translate_to_routing_separators() {
    assert_eq!(
        to_routing_key("domo/lakeside/u-1/reported").as_deref(),
        Some("domo.lakeside.u-1.reported")
    );
    assert_eq!(
        to_routing_key("domo/lakeside/u-1/#").as_deref(),
        Some("domo.lakeside.u-1.#")
    );
    assert_eq!(
        to_routing_key("domo/+/u-1/state").as_deref(),
        Some("domo.*.u-1.state")
    );
}

#[test]
fn ownership_requires_the_full_segment() {
    assert!(owns_routing_key("lakeside", "u-1", "domo.lakeside.u-1.reported"));
    assert!(!owns_routing_key("lakeside", "u-1", "domo.lakeside.u-12.reported"));
    assert!(!owns_routing_key("lakeside", "u-1", "domo.harbour.u-1.reported"));
    // The prefix alone, with nothing beneath it, is not a publishable key.
    assert!(!owns_routing_key("lakeside", "u-1", "domo.lakeside.u-1"));
}

#[test]
fn a_plus_inside_a_segment_is_kept_literally() {
    assert_eq!(
        to_routing_key("domo/a+b/u-1/state").as_deref(),
        Some("domo.a+b.u-1.state")
    );
    assert_eq!(to_routing_key("+").as_deref(), Some("*"));
    assert_eq!(to_routing_key("").as_deref(), Some(""));
}

#[test]
fn a_topic_the_translation_cannot_carry_is_refused() {
    assert_eq!(to_routing_key("domo/lakeside.park/u-1/state"), None);
    assert_eq!(to_routing_key("domo/*/u-1/state"), None);
    assert_eq!(
        to_routing_key("domo/a*b/u-1").as_deref(),
        Some("domo.a*b.u-1")
    );
}

#[test]
fn an_own_topic_routes_to_an_owned_key() {
    let topic = format!("{}/reported", device_prefix("lakeside", "u-1"));
    let key = to_routing_key(&topic).unwrap();
    assert!(owns_routing_key("lakeside", "u-1", &key));
    assert!(!owns_routing_key("lakeside", "u-12", &key));
    assert!(!owns_routing_key("lakeside", "u", &key));
}

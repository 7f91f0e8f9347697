use domo::bootstrap::naming::{Kind, NamingError, apartment_slug, group_name, resource_name, resource_type,
    structural_groups_for, validate_slug};

#[test]
fn resource_names_carry_their_type_prefix() {
    assert_eq!(resource_name(Kind::Portfolio, "anything").unwrap(), "portfolio");
    assert_eq!(resource_name(Kind::Site, "lakeside-park").unwrap(), "site:lakeside-park");
    assert_eq!(resource_name(Kind::SiteCommon, "lakeside").unwrap(), "common:site:lakeside");
    assert_eq!(resource_name(Kind::Building, "tower-a").unwrap(), "building:tower-a");
    assert_eq!(
        resource_name(Kind::BuildingCommon, "tower-a").unwrap(),
        "common:building:tower-a"
    );
    assert_eq!(resource_name(Kind::Apartment, "tower-a-12").unwrap(), "apartment:tower-a-12");
    assert_eq!(resource_name(Kind::Device, "d-1").unwrap(), "device:d-1");
}

#[test]
fn both_common_areas_share_one_discriminator() {
    assert_eq!(resource_type(Kind::SiteCommon), "common");
    assert_eq!(resource_type(Kind::BuildingCommon), "common");
    assert_eq!(resource_type(Kind::Portfolio), "portfolio");
    assert_eq!(resource_type(Kind::Device), "device");
}

#[test]
fn group_names_contain_the_resource_name_verbatim() {
    assert_eq!(
        group_name("installer", Kind::Site, "lakeside").unwrap(),
        "installer@site:lakeside"
    );
    assert_eq!(
        group_name("property-manager", Kind::Portfolio, "").unwrap(),
        "property-manager@portfolio"
    );
    assert!(matches!(group_name("  ", Kind::Site, "lakeside"), Err(NamingError::NoRole)));
    assert!(matches!(group_name("Installer", Kind::Site, "lakeside"), Err(NamingError::Forbidden(_, 'I'))));
}

#[test]
fn apartment_slugs_are_composed_from_building_and_unit() {
    assert_eq!(apartment_slug("tower-a", "12").unwrap(), "tower-a-12");
    assert!(matches!(apartment_slug("tower.a", "12"), Err(NamingError::Dot(_))));
    assert!(matches!(apartment_slug("tower-a", ""), Err(NamingError::EmptySlug)));
}

#[test]
fn slugs_are_lowercase_letters_digits_and_hyphens() {
    assert!(validate_slug("lakeside-2").is_ok());
    assert!(matches!(validate_slug(""), Err(NamingError::EmptySlug)));
    assert!(matches!(validate_slug("lakeside.park"), Err(NamingError::Dot(ref s)) if s == "lakeside.park"));
    assert!(matches!(validate_slug("a:b"), Err(NamingError::Colon(ref s)) if s == "a:b"));
    assert!(matches!(validate_slug("a_b"), Err(NamingError::Forbidden(ref s, '_')) if s == "a_b"));
    // The dot is named before the colon, wherever each stands.
    assert!(matches!(validate_slug("a:b.c"), Err(NamingError::Dot(_))));
    assert!(matches!(validate_slug("A:b"), Err(NamingError::Colon(_))));
}

#[test]
fn each_refusal_explains_itself() {
    assert_eq!(
        validate_slug("a.b").unwrap_err().message(),
        "slug 'a.b' contains '.': the MQTT topic scheme maps path separators onto dots, so a dot here would split a topic segment"
    );
    assert_eq!(
        validate_slug("é").unwrap_err().message(),
        "slug 'é' contains 'é': only lowercase letters, digits and hyphens are accepted"
    );
    assert_eq!(validate_slug("").unwrap_err().message(), "a slug must not be empty");
}

#[test]
fn structural_groups_are_eager_only_where_the_tree_needs_them() {
    assert_eq!(structural_groups_for(Kind::Portfolio), vec!["property-manager"]);
    assert_eq!(structural_groups_for(Kind::Site), vec!["installer", "concierge"]);
    assert_eq!(
        structural_groups_for(Kind::SiteCommon),
        vec!["common-operator", "common-device-manager"]
    );
    assert_eq!(
        structural_groups_for(Kind::BuildingCommon),
        vec!["common-operator", "common-device-manager"]
    );
    assert_eq!(structural_groups_for(Kind::Apartment), vec!["resident"]);
    assert!(structural_groups_for(Kind::Building).is_empty());
    assert!(structural_groups_for(Kind::Device).is_empty());
}

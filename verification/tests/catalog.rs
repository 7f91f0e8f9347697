use domo::bootstrap::catalog::{Catalog, CatalogError, GroupTemplate, PermissionEntry, RoleEntry};

fn permission(action: &str, description: &str) -> PermissionEntry {
    PermissionEntry {
        action: action.to_owned(),
        description: description.to_owned(),
    }
}

fn role(name: &str, description: &str, permissions: &[&str]) -> RoleEntry {
    RoleEntry {
        name: name.to_owned(),
        description: description.to_owned(),
        permissions: permissions.iter().map(|p| (*p).to_owned()).collect(),
    }
}

fn template(resource_type: &str, roles: &[&str]) -> GroupTemplate {
    GroupTemplate {
        resource_type: resource_type.to_owned(),
        roles: roles.iter().map(|r| (*r).to_owned()).collect(),
    }
}

/// A minimal well-formed catalog with one role granting four actions.
fn installer() -> Catalog {
    Catalog {
        version: 1,
        group_pattern: "{role}@{type}:{slug}".to_owned(),
        permissions: vec![
            permission("device:create", "Add a device to the registry"),
            permission("device:update", "Edit a device"),
            permission("device:delete", "Remove a device"),
            permission("device:configure", "Change a device's configuration"),
        ],
        roles: vec![role(
            "installer",
            "Installs and configures devices",
            &["device:create", "device:update", "device:delete", "device:configure"],
        )],
        group_templates: Vec::new(),
    }
}

fn refusal(c: &Catalog) -> String {
    match c.validate() {
        Ok(()) => panic!("the catalog should have been refused"),
        Err(e) => e.message(),
    }
}

#[test]
fn a_wildcard_permission_is_refused_and_the_error_names_it() {
    let mut c = installer();
    c.permissions[0].action = "structure:*".to_owned();
    c.roles[0].permissions[0] = "structure:*".to_owned();
    let msg = refusal(&c);
    assert!(msg.contains("structure:*"), "error names the entry: {msg}");
}

#[test]
fn a_wildcard_inside_a_role_grant_is_refused_naming_the_role() {
    let mut c = installer();
    c.roles[0].permissions = vec!["device:*".to_owned()];
    let msg = refusal(&c);
    assert!(msg.contains("installer"), "error names the role: {msg}");
    assert!(msg.contains("device:*"), "error names the entry: {msg}");
}

#[test]
fn a_dangling_permission_key_is_refused_naming_the_key() {
    let mut c = installer();
    c.roles[0].permissions[3] = "device:teleport".to_owned();
    let msg = refusal(&c);
    assert!(msg.contains("device:teleport"), "error names the key: {msg}");
    assert!(msg.contains("installer"), "error names the role: {msg}");
}

#[test]
fn a_duplicate_role_is_refused_naming_the_duplicate() {
    let mut c = installer();
    c.roles.push(role("installer", "Again", &[]));
    let msg = refusal(&c);
    assert!(msg.contains("installer"), "error names the duplicate: {msg}");
}

#[test]
fn a_duplicate_permission_is_refused_naming_the_duplicate() {
    let mut c = installer();
    c.permissions.push(permission("device:create", "Again"));
    let msg = refusal(&c);
    assert!(msg.contains("device:create"), "error names the duplicate: {msg}");
}

#[test]
fn an_empty_role_name_is_refused() {
    let mut c = installer();
    c.roles[0].name = String::new();
    let msg = refusal(&c);
    assert!(
        msg.to_lowercase().contains("empty"),
        "error says the name is empty: {msg}"
    );
}

#[test]
fn group_templates_name_the_eager_roles_per_resource_type() {
    let mut c = installer();
    c.group_templates.push(template("site", &["installer"]));
    assert!(c.validate().is_ok());
    assert_eq!(c.roles_for("site"), vec!["installer".to_owned()]);
    assert!(
        c.roles_for("device").is_empty(),
        "device grant groups are lazy"
    );
}

#[test]
fn a_group_template_naming_an_undefined_role_is_refused() {
    let mut c = installer();
    c.group_templates.push(template("site", &["plumber"]));
    let msg = refusal(&c);
    assert!(msg.contains("plumber"), "error names the role: {msg}");
}

#[test]
fn the_installer_catalog_is_accepted_and_a_role_granting_nothing_too() {
    let mut c = installer();
    assert!(c.validate().is_ok());
    c.roles.push(role("bystander", "Confers nothing yet", &[]));
    assert!(c.validate().is_ok());
}

#[test]
fn each_refusal_names_its_entry() {
    let mut c = installer();
    c.version = 2;
    assert!(matches!(c.validate(), Err(CatalogError::UnsupportedVersion(2))));
    assert_eq!(
        refusal(&c),
        "catalog version 2 is not supported by this build (expected 1)"
    );

    let mut c = installer();
    c.group_pattern = String::new();
    assert!(matches!(c.validate(), Err(CatalogError::EmptyGroupPattern)));

    let mut c = installer();
    c.permissions[1].action = String::new();
    assert!(matches!(c.validate(), Err(CatalogError::EmptyAction)));

    let mut c = installer();
    c.permissions[1].description = "  ".to_owned();
    assert!(matches!(c.validate(), Err(CatalogError::EmptyPermissionDescription(ref a)) if a == "device:update"));

    let mut c = installer();
    c.roles[0].name = "inst?ller".to_owned();
    assert!(matches!(c.validate(), Err(CatalogError::WildcardRoleName(ref n, '?')) if n == "inst?ller"));

    let mut c = installer();
    c.roles[0].description = String::new();
    assert!(matches!(c.validate(), Err(CatalogError::EmptyRoleDescription(ref n)) if n == "installer"));

    let mut c = installer();
    c.roles[0].permissions.push("device:create".to_owned());
    assert!(matches!(c.validate(), Err(CatalogError::DuplicateGrant(ref n, ref a))
        if n == "installer" && a == "device:create"));

    let mut c = installer();
    c.group_templates.push(template("", &[]));
    assert!(matches!(c.validate(), Err(CatalogError::EmptyResourceType)));

    let mut c = installer();
    c.group_templates.push(template("site", &["installer"]));
    c.group_templates.push(template("site", &[]));
    assert!(matches!(c.validate(), Err(CatalogError::DuplicateTemplate(ref t)) if t == "site"));
}

#[test]
fn the_first_fault_in_declaration_order_is_reported() {
    let mut c = installer();
    c.permissions[2].action = "device:%".to_owned();
    c.roles[0].name = String::new();
    assert!(matches!(c.validate(), Err(CatalogError::WildcardAction(ref a, '%')) if a == "device:%"));
}

fn grants_of(manifest: &axiam_sdk::management::manifest::ManagementManifest, role: &str) -> Vec<String> {
    manifest
        .roles
        .iter()
        .find(|r| r.name == role)
        .map(|r| r.grants.iter().map(|g| g.permission.clone()).collect())
        .unwrap_or_default()
}

#[test]
fn a_role_yields_exactly_the_grants_it_declares() {
    let catalog = installer();
    assert!(catalog.validate().is_ok(), "the fixture is well-formed");
    let manifest = catalog.to_manifest();

    assert_eq!(manifest.permissions.len(), 4, "four permissions declared");
    let mut grants = grants_of(&manifest, "installer");
    grants.sort();
    assert_eq!(
        grants,
        vec![
            "device:configure".to_owned(),
            "device:create".to_owned(),
            "device:delete".to_owned(),
            "device:update".to_owned(),
        ],
        "the role grants those four actions and no others"
    );
}

#[test]
fn a_role_granting_nothing_is_still_created() {
    let mut catalog = installer();
    catalog.roles.push(role("bystander", "Confers nothing yet", &[]));
    assert!(catalog.validate().is_ok(), "an empty grant list is valid");
    let manifest = catalog.to_manifest();

    assert!(
        manifest.roles.iter().any(|r| r.name == "bystander"),
        "the role is present in the manifest"
    );
    assert!(grants_of(&manifest, "bystander").is_empty(), "and it grants nothing");
}

#[test]
fn the_manifest_keys_each_entry_by_its_own_name_and_holds_nothing_else() {
    let manifest = installer().to_manifest();
    assert!(manifest.permissions.iter().all(|p| p.key == p.action));
    assert_eq!(manifest.roles.len(), 1);
    assert_eq!(manifest.roles[0].key, "installer");
    assert!(!manifest.roles[0].is_global);
    assert!(manifest.groups.is_empty());
    assert!(manifest.resources.is_empty());
}

#[test]
fn wildcard_refusals_say_that_each_pair_is_written_out() {
    let mut c = installer();
    c.permissions[0].action = "structure:*".to_owned();
    assert_eq!(
        refusal(&c),
        "permission 'structure:*' contains the wildcard character '*'; \
         D-16 requires every resource:verb pair to be written out"
    );
    let mut c = installer();
    c.roles[0].permissions = vec!["device:*".to_owned()];
    assert_eq!(
        refusal(&c),
        "role 'installer' grants 'device:*', which contains the wildcard character '*'; \
         D-16 requires it to be expanded"
    );
}

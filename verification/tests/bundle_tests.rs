use holochain_runtime::bundle::{AppBundle, AppRoleDnaManifest, AppRoleManifest, DnaLocation};
use holochain_runtime::error::{Error, MigrateAppError};
use holochain_runtime::hash::DnaHash;
use holochain_runtime::migrate::{
    bundled_dna, dna_hash_for_app_bundle, dna_hash_for_app_bundle_role,
};
use holochain_runtime::settings::{DnaModifiersOpt, RoleSettings, RoleSettingsMap};
use holochain_types::prelude::{
    CoordinatorManifest, DnaBundle, DnaManifest, DnaManifestCurrent, IntegrityManifest,
    ValidatedDnaManifest, ZomeManifest,
};

fn packed_dna(seed: &str, wasm: Vec<u8>) -> Vec<u8> {
    let manifest = DnaManifestCurrent {
        name: "dna".to_string(),
        integrity: IntegrityManifest {
            network_seed: Some(seed.to_string()),
            properties: None,
            zomes: vec![ZomeManifest {
                name: "integrity".into(),
                hash: None,
                path: "integrity.wasm".to_string(),
                dependencies: None,
            }],
        },
        coordinator: CoordinatorManifest { zomes: vec![] },
    };
    let validated: ValidatedDnaManifest = DnaManifest::from(manifest).try_into().unwrap();
    let bundle =
        DnaBundle::new(validated, vec![("integrity.wasm".to_string(), wasm.into())]).unwrap();
    bundle.pack().unwrap().to_vec()
}

fn role(name: &str, location: Option<DnaLocation>) -> AppRoleManifest {
    AppRoleManifest { name: name.to_string(), dna: AppRoleDnaManifest { location } }
}

fn bundled(name: &str) -> AppRoleManifest {
    role(name, Some(DnaLocation::Bundled(format!("{name}.dna"))))
}

fn two_role_bundle() -> AppBundle {
    AppBundle::new(
        vec![bundled("forum"), bundled("chat")],
        vec![
            ("forum.dna".to_string(), packed_dna("s", vec![1])),
            ("chat.dna".to_string(), packed_dna("s", vec![2])),
        ],
    )
    .unwrap()
}

#[test]
fn bundle_refuses_two_roles_of_one_name() {
    assert!(AppBundle::new(vec![bundled("forum"), bundled("forum")], Vec::new()).is_none());
    assert!(AppBundle::new(
        vec![bundled("forum"), bundled("chat"), bundled("forum")],
        Vec::new()
    )
    .is_none());
    assert!(AppBundle::new(vec![bundled("forum"), bundled("chat")], Vec::new()).is_some());
    assert!(AppBundle::new(Vec::new(), Vec::new()).is_some());
}

#[test]
fn bundle_keeps_roles_and_resources() {
    let bundle = two_role_bundle();
    assert_eq!(bundle.app_roles().len(), 2);
    assert_eq!(bundle.app_roles()[0].name, "forum");
    assert_eq!(bundle.app_roles()[1].name, "chat");
    assert_eq!(bundle.bundled_resources().len(), 2);
    assert_eq!(bundle.bundled_resources()[1].0, "chat.dna");
}

#[test]
fn bundled_dna_is_found_by_role_and_path() {
    let bundle = two_role_bundle();
    assert_eq!(bundled_dna(&bundle, &"forum".to_string()), Some(&packed_dna("s", vec![1])));
    assert_eq!(bundled_dna(&bundle, &"chat".to_string()), Some(&packed_dna("s", vec![2])));
    assert_eq!(bundled_dna(&bundle, &"files".to_string()), None);
}

#[test]
fn role_hash_is_the_hash_of_the_bundled_dna() {
    let bundle = two_role_bundle();
    let hash = dna_hash_for_app_bundle_role(&bundle, &"forum".to_string(), None)
        .unwrap()
        .unwrap();
    let direct = DnaHash::of_dna_bundle(&packed_dna("s", vec![1]), &None, &None).unwrap();
    assert!(hash.equals(&direct));
    let chat = dna_hash_for_app_bundle_role(&bundle, &"chat".to_string(), None)
        .unwrap()
        .unwrap();
    assert!(!chat.equals(&hash));
}

#[test]
fn role_hash_follows_the_modifiers() {
    let bundle = two_role_bundle();
    let plain = dna_hash_for_app_bundle_role(&bundle, &"forum".to_string(), None)
        .unwrap()
        .unwrap();
    let none_set = dna_hash_for_app_bundle_role(
        &bundle,
        &"forum".to_string(),
        Some(DnaModifiersOpt { network_seed: None, properties: None }),
    )
    .unwrap()
    .unwrap();
    assert!(plain.equals(&none_set));
    let seeded = dna_hash_for_app_bundle_role(
        &bundle,
        &"forum".to_string(),
        Some(DnaModifiersOpt { network_seed: Some("other".to_string()), properties: None }),
    )
    .unwrap()
    .unwrap();
    assert!(!plain.equals(&seeded));
    let with_properties = dna_hash_for_app_bundle_role(
        &bundle,
        &"forum".to_string(),
        Some(DnaModifiersOpt { network_seed: None, properties: Some(vec![0xc0]) }),
    )
    .unwrap()
    .unwrap();
    let with_other_properties = dna_hash_for_app_bundle_role(
        &bundle,
        &"forum".to_string(),
        Some(DnaModifiersOpt { network_seed: None, properties: Some(vec![0xc3]) }),
    )
    .unwrap()
    .unwrap();
    assert!(!with_properties.equals(&with_other_properties));
}

#[test]
fn role_hash_is_not_found_for_an_unknown_role() {
    let bundle = two_role_bundle();
    assert!(matches!(dna_hash_for_app_bundle_role(&bundle, &"files".to_string(), None), Ok(None)));
}

#[test]
fn role_hash_is_not_found_where_the_dna_is_not_bundled() {
    let bundle = AppBundle::new(
        vec![
            role("absent", None),
            role("path", Some(DnaLocation::Path("/tmp/forum.dna".to_string()))),
            role("url", Some(DnaLocation::Url("https://example.org/forum.dna".to_string()))),
            bundled("missing"),
        ],
        vec![("/tmp/forum.dna".to_string(), packed_dna("s", vec![1]))],
    )
    .unwrap();
    for name in ["absent", "path", "url", "missing"] {
        assert!(matches!(dna_hash_for_app_bundle_role(&bundle, &name.to_string(), None), Ok(None)));
    }
}

#[test]
fn role_hash_fails_where_the_dna_cannot_be_read() {
    let bundle =
        AppBundle::new(vec![bundled("forum")], vec![("forum.dna".to_string(), vec![1, 2, 3])])
            .unwrap();
    assert!(matches!(
        dna_hash_for_app_bundle_role(&bundle, &"forum".to_string(), None),
        Err(Error::DnaError(_))
    ));
}

#[test]
fn all_hashes_come_in_manifest_order() {
    let bundle = two_role_bundle();
    let hashes = dna_hash_for_app_bundle(&bundle, &None).unwrap();
    assert_eq!(hashes.len(), 2);
    let forum = DnaHash::of_dna_bundle(&packed_dna("s", vec![1]), &None, &None).unwrap();
    let chat = DnaHash::of_dna_bundle(&packed_dna("s", vec![2]), &None, &None).unwrap();
    assert!(hashes[0].equals(&forum));
    assert!(hashes[1].equals(&chat));
}

#[test]
fn all_hashes_are_the_same_each_time() {
    let bundle = two_role_bundle();
    let first = dna_hash_for_app_bundle(&bundle, &None).unwrap();
    let second = dna_hash_for_app_bundle(&bundle, &None).unwrap();
    assert_eq!(first, second);
}

#[test]
fn all_hashes_follow_the_settings_of_each_role() {
    let bundle = two_role_bundle();
    let mut settings = RoleSettingsMap::new();
    settings.insert(
        "chat".to_string(),
        RoleSettings::Provisioned {
            membrane_proof: None,
            modifiers: Some(DnaModifiersOpt {
                network_seed: Some("other".to_string()),
                properties: None,
            }),
        },
    );
    let plain = dna_hash_for_app_bundle(&bundle, &None).unwrap();
    let with = dna_hash_for_app_bundle(&bundle, &Some(settings)).unwrap();
    assert!(plain[0].equals(&with[0]));
    assert!(!plain[1].equals(&with[1]));
    let expected =
        DnaHash::of_dna_bundle(&packed_dna("s", vec![2]), &Some("other".to_string()), &None)
            .unwrap();
    assert!(with[1].equals(&expected));
}

#[test]
fn all_hashes_of_a_bundle_without_roles_are_none() {
    let bundle = AppBundle::new(Vec::new(), Vec::new()).unwrap();
    assert!(dna_hash_for_app_bundle(&bundle, &None).unwrap().is_empty());
}

#[test]
fn all_hashes_fail_with_the_name_of_the_first_role_without_hash() {
    let bundle = AppBundle::new(
        vec![bundled("forum"), role("chat", None), role("files", None)],
        vec![("forum.dna".to_string(), packed_dna("s", vec![1]))],
    )
    .unwrap();
    match dna_hash_for_app_bundle(&bundle, &None) {
        Err(Error::MigrateAppError(e)) => {
            assert_eq!(e, MigrateAppError::InvalidDnaHashError("chat".to_string()));
            assert_eq!(e.message(), "Invalid DNA hash for role: chat");
        }
        other => panic!("unexpected: {other:?}"),
    }
}

#[test]
fn all_hashes_fail_where_a_dna_cannot_be_read() {
    let bundle = AppBundle::new(
        vec![bundled("forum"), role("chat", None)],
        vec![("forum.dna".to_string(), vec![0])],
    )
    .unwrap();
    assert!(matches!(dna_hash_for_app_bundle(&bundle, &None), Err(Error::DnaError(_))));
}

#[test]
fn error_messages_name_what_failed() {
    assert_eq!(
        MigrateAppError::AppNotFoundError("app-1".to_string()).message(),
        "The given app was not found: app-1"
    );
    assert_eq!(
        MigrateAppError::GetZomeTraitsError("forum".to_string(), "timeout".to_string()).message(),
        "Failed to find zome traits for role forum: timeout"
    );
    assert_eq!(MigrateAppError::ConductorApiError("refused".to_string()).message(), "refused");
}

use holochain_runtime::bundle::{AppBundle, AppRoleDnaManifest, AppRoleManifest, DnaLocation};
use holochain_runtime::cell::{AppInfo, CellId, CellInfo};
use holochain_runtime::control::{Request, Response};
use holochain_runtime::error::{Error, MigrateAppError};
use holochain_runtime::hash::{AgentPubKey, DnaHash};
use holochain_runtime::invoker::{RoleMigration, ZomeMigration};
use holochain_runtime::migrate::{
    app_index, dna_hash_for_app_bundle_role, migrate_app, MigrationStep,
};
use holochain_runtime::settings::{modifiers_of, RoleSettings, RoleSettingsMap};
use holochain_runtime::versioned_happ::{
    app_id_of, latest_version, InstallOutcome, InstallStep, VersionedApp,
};
use holochain_types::prelude::{
    CoordinatorManifest, DnaBundle, DnaManifest, DnaManifestCurrent, IntegrityManifest,
    ValidatedDnaManifest, ZomeManifest,
};

fn packed_dna(wasm: u8) -> Vec<u8> {
    let manifest = DnaManifestCurrent {
        name: "dna".to_string(),
        integrity: IntegrityManifest {
            network_seed: Some("s".to_string()),
            properties: None,
            zomes: vec![ZomeManifest {
                name: "integrity".into(),
                hash: None,
                path: "integrity.wasm".to_string(),
                dependencies: None,
            }],
        },
        coordinator: CoordinatorManifest { zomes: vec![] },
    };
    let validated: ValidatedDnaManifest = DnaManifest::from(manifest).try_into().unwrap();
    let bundle =
        DnaBundle::new(validated, vec![("integrity.wasm".to_string(), vec![wasm].into())])
            .unwrap();
    bundle.pack().unwrap().to_vec()
}

fn hash_of(wasm: u8) -> DnaHash {
    DnaHash::of_dna_bundle(&packed_dna(wasm), &None, &None).unwrap()
}

/// The id as made by hand: prefix, hyphen, the texts of the hashes in
/// ascending order of their bytes.
fn id_of(prefix: &str, hashes: &[DnaHash]) -> String {
    let mut raw: Vec<Vec<u8>> = hashes.iter().map(|h| h.get_raw_39().clone()).collect();
    raw.sort();
    let texts: Vec<String> =
        raw.into_iter().map(|r| DnaHash::try_from_raw_39(r).unwrap().to_text()).collect();
    format!("{prefix}-{}", texts.join("-"))
}

/// Three DNAs `(h1, h2, h3)` whose hashes stand as `h1 < h2` and `h3 < h2`.
fn three_dnas() -> (u8, u8, u8) {
    let mut wasms: Vec<u8> = (1..=9).collect();
    wasms.sort_by_key(|w| hash_of(*w).get_raw_39().clone());
    (wasms[0], wasms[8], wasms[1])
}

fn agent(fill: u8) -> AgentPubKey {
    let mut bytes = vec![0x84, 0x20, 0x24];
    bytes.extend(std::iter::repeat(fill).take(36));
    AgentPubKey::try_from_raw_39(bytes).unwrap()
}

fn bundle(roles: &[(&str, u8)]) -> AppBundle {
    AppBundle::new(
        roles
            .iter()
            .map(|(name, _)| AppRoleManifest {
                name: name.to_string(),
                dna: AppRoleDnaManifest {
                    location: Some(DnaLocation::Bundled(format!("{name}.dna"))),
                },
            })
            .collect(),
        roles.iter().map(|(name, wasm)| (format!("{name}.dna"), packed_dna(*wasm))).collect(),
    )
    .unwrap()
}

fn app(id: &str, installed_at: i64) -> AppInfo {
    AppInfo {
        installed_app_id: id.to_string(),
        agent_pub_key: agent(1),
        cell_info: Vec::new(),
        installed_at,
    }
}

/// A conductor that keeps its apps in memory.
struct Conductor {
    apps: Vec<AppInfo>,
    zomes: Vec<String>,
    failing_zome: Option<String>,
    clock: i64,
    agents: u8,
    asked: Vec<Request>,
}

impl Conductor {
    fn new() -> Conductor {
        Conductor {
            apps: Vec::new(),
            zomes: Vec::new(),
            failing_zome: None,
            clock: 0,
            agents: 0,
            asked: Vec::new(),
        }
    }

    fn install(
        &mut self,
        bundle: &AppBundle,
        app_id: &String,
        roles_settings: &Option<RoleSettingsMap>,
        agent_key: &Option<AgentPubKey>,
    ) -> AppInfo {
        let agent_pub_key = match agent_key {
            Some(key) => key.clone(),
            None => {
                self.agents += 1;
                agent(self.agents)
            }
        };
        let mut cell_info = Vec::new();
        for role in bundle.app_roles() {
            let given = roles_settings.as_ref().and_then(|map| map.get(&role.name));
            let cell = match given {
                Some(RoleSettings::UseExisting { cell_id }) => cell_id.clone(),
                _ => CellId::new(
                    dna_hash_for_app_bundle_role(bundle, &role.name, modifiers_of(given))
                        .unwrap()
                        .unwrap(),
                    agent_pub_key.clone(),
                ),
            };
            cell_info.push((role.name.clone(), vec![CellInfo::Provisioned(cell)]));
        }
        self.clock += 1;
        let info = AppInfo {
            installed_app_id: app_id.clone(),
            agent_pub_key,
            cell_info,
            installed_at: self.clock,
        };
        self.apps.push(info.clone());
        info
    }

    fn answer(&mut self, request: Request, bundle: &AppBundle) -> Response {
        let response = match &request {
            Request::ListApps { .. } => Response::Apps(self.apps.clone()),
            Request::UpdateAppIfNecessary { .. } => Response::AppUpdated,
            Request::InstallApp { app_id, roles_settings, agent } => {
                Response::AppInstalled(self.install(bundle, app_id, roles_settings, agent))
            }
            Request::FindMigratingZomes { .. } => Response::MigratingZomes(self.zomes.clone()),
            Request::CallMigrate { zome, .. } => {
                if self.failing_zome.as_ref() == Some(zome) {
                    Response::Failed(format!("{zome} failed"))
                } else {
                    Response::Migrated
                }
            }
        };
        self.asked.push(request);
        response
    }

    fn run(
        &mut self,
        versioned: &VersionedApp,
        roles: &[(&str, u8)],
        settings: Option<RoleSettingsMap>,
    ) -> Result<InstallOutcome, Error> {
        let at_hand = bundle(roles);
        let mut step = versioned.install_or_update(bundle(roles), settings);
        loop {
            match step {
                InstallStep::Next(state, request) => {
                    let response = self.answer(request, &at_hand);
                    step = state.step(response);
                }
                InstallStep::Done(outcome) => return Ok(outcome),
                InstallStep::Failed(e) => return Err(e),
            }
        }
    }

    fn installs(&self) -> usize {
        self.asked.iter().filter(|r| matches!(r, Request::InstallApp { .. })).count()
    }
}

fn versioned() -> VersionedApp {
    VersionedApp { app_id_prefix: "app".to_string() }
}

fn cell_of(info: &AppInfo, role: &str) -> CellId {
    let cells = &info.cell_info.iter().find(|(name, _)| name == role).unwrap().1;
    match &cells[0] {
        CellInfo::Provisioned(cell) => cell.clone(),
        other => panic!("unexpected: {other:?}"),
    }
}

#[test]
fn app_id_is_the_prefix_and_the_hash_texts_with_hyphens() {
    let (w1, w2, _) = three_dnas();
    let h1 = hash_of(w1);
    let h2 = hash_of(w2);
    let prefix = "app".to_string();
    assert_eq!(app_id_of(&prefix, &vec![h1.clone()]), format!("app-{}", h1.to_text()));
    assert_eq!(
        app_id_of(&prefix, &vec![h1.clone(), h2.clone()]),
        format!("app-{}-{}", h1.to_text(), h2.to_text())
    );
    assert_eq!(app_id_of(&prefix, &Vec::new()), "app-");
    assert_eq!(app_id_of(&String::new(), &vec![h1.clone()]), format!("-{}", h1.to_text()));
}

#[test]
fn app_id_does_not_depend_on_the_order_of_the_hashes() {
    let (w1, w2, w3) = three_dnas();
    let (h1, h2, h3) = (hash_of(w1), hash_of(w2), hash_of(w3));
    let prefix = "app".to_string();
    let expected = format!("app-{}-{}-{}", h1.to_text(), h3.to_text(), h2.to_text());
    for hashes in [
        vec![h1.clone(), h2.clone(), h3.clone()],
        vec![h3.clone(), h2.clone(), h1.clone()],
        vec![h2.clone(), h1.clone(), h3.clone()],
        vec![h1.clone(), h3.clone(), h2.clone()],
    ] {
        assert_eq!(app_id_of(&prefix, &hashes), expected);
        assert_eq!(app_id_of(&prefix, &hashes), id_of("app", &hashes));
    }
    let twice = vec![h2.clone(), h1.clone(), h2.clone()];
    assert_eq!(
        app_id_of(&prefix, &twice),
        format!("app-{}-{}-{}", h1.to_text(), h2.to_text(), h2.to_text())
    );
}

#[test]
fn app_id_for_a_bundle_does_not_depend_on_the_order_of_its_roles() {
    let v = versioned();
    let id = v.app_id_for(&bundle(&[("forum", 3), ("chat", 2)]), &None).unwrap();
    assert_eq!(id, id_of("app", &[hash_of(3), hash_of(2)]));
    let swapped = v.app_id_for(&bundle(&[("chat", 2), ("forum", 3)]), &None).unwrap();
    assert_eq!(id, swapped);
    let renamed = v.app_id_for(&bundle(&[("a", 2), ("b", 3)]), &None).unwrap();
    assert_eq!(id, renamed);
    let other = v.app_id_for(&bundle(&[("forum", 3), ("chat", 4)]), &None).unwrap();
    assert_ne!(id, other);
}

#[test]
fn app_id_fails_for_a_role_without_hash() {
    let roles = vec![AppRoleManifest {
        name: "forum".to_string(),
        dna: AppRoleDnaManifest { location: None },
    }];
    let no_dna = AppBundle::new(roles, Vec::new()).unwrap();
    match versioned().app_id_for(&no_dna, &None) {
        Err(Error::MigrateAppError(e)) => {
            assert_eq!(e, MigrateAppError::InvalidDnaHashError("forum".to_string()))
        }
        other => panic!("unexpected: {other:?}"),
    }
}

#[test]
fn install_fails_before_anything_is_asked_where_a_hash_cannot_be_had() {
    let roles = vec![AppRoleManifest {
        name: "forum".to_string(),
        dna: AppRoleDnaManifest { location: None },
    }];
    let no_dna = AppBundle::new(roles, Vec::new()).unwrap();
    match versioned().install_or_update(no_dna, None) {
        InstallStep::Failed(Error::MigrateAppError(e)) => {
            assert_eq!(e, MigrateAppError::InvalidDnaHashError("forum".to_string()))
        }
        other => panic!("unexpected: {other:?}"),
    }
}

#[test]
fn latest_version_is_the_last_installed_with_the_prefix() {
    let prefix = "app".to_string();
    assert_eq!(latest_version(&Vec::new(), &prefix), None);
    assert_eq!(latest_version(&vec![app("other-1", 9)], &prefix), None);
    let apps = vec![app("app-1", 5), app("other-1", 9), app("app-2", 7), app("app-3", 6)];
    assert_eq!(latest_version(&apps, &prefix), Some(2));
    let ties = vec![app("app-1", 5), app("app-2", 5), app("zap", 5), app("app-3", 4)];
    assert_eq!(latest_version(&ties, &prefix), Some(1));
    let negative = vec![app("app-1", -5), app("app-2", i64::MIN)];
    assert_eq!(latest_version(&negative, &prefix), Some(0));
    assert_eq!(latest_version(&vec![app("app", 1), app("ap", 2)], &prefix), Some(0));
}

#[test]
fn current_app_is_the_latest_version_with_prefix_and_hyphen() {
    let v = versioned();
    assert_eq!(v.current_app(&Vec::new()), None);
    let apps = vec![app("app-1", 5), app("apple", 9), app("app-2", 7), app("app", 8)];
    assert_eq!(v.current_app(&apps), Some(app("app-2", 7)));
    assert_eq!(v.current_app(&vec![app("apple", 9)]), None);
    let ties = vec![app("app-1", 5), app("app-2", 5)];
    assert_eq!(v.current_app(&ties), Some(app("app-2", 5)));
}

#[test]
fn all_versions_are_the_apps_with_prefix_and_hyphen_in_order() {
    let v = versioned();
    let apps = vec![app("app-1", 5), app("apple", 9), app("app-2", 7), app("app", 8)];
    assert_eq!(v.get_all_app_versions(&apps), vec![app("app-1", 5), app("app-2", 7)]);
    assert_eq!(v.get_all_app_versions(&Vec::new()), Vec::new());
    assert_eq!(v.versions_prefix(), "app-");
}

#[test]
fn app_index_finds_the_first_app_with_the_id() {
    let apps = vec![app("app-1", 5), app("app-2", 7), app("app-1", 9)];
    assert_eq!(app_index(&apps, &"app-1".to_string()), 0);
    assert_eq!(app_index(&apps, &"app-2".to_string()), 1);
    assert_eq!(app_index(&apps, &"app-3".to_string()), 3);
}

#[test]
fn first_version_is_installed_afresh() {
    let mut conductor = Conductor::new();
    let outcome = conductor.run(&versioned(), &[("forum", 1)], None).unwrap();
    let info = match outcome {
        InstallOutcome::Installed(info) => info,
        other => panic!("unexpected: {other:?}"),
    };
    assert_eq!(info.installed_app_id, format!("app-{}", hash_of(1).to_text()));
    assert!(cell_of(&info, "forum").dna_hash().equals(&hash_of(1)));
    assert_eq!(
        conductor.asked,
        vec![
            Request::ListApps { running_only: true },
            Request::InstallApp {
                app_id: format!("app-{}", hash_of(1).to_text()),
                roles_settings: None,
                agent: None,
            },
        ]
    );
}

#[test]
fn second_version_reuses_the_unchanged_role_and_provisions_the_new_one() {
    let (w1, w2, _) = three_dnas();
    let mut conductor = Conductor::new();
    let v = versioned();
    conductor.run(&v, &[("forum", w1)], None).unwrap();
    let v1 = conductor.apps[0].clone();
    let forum = cell_of(&v1, "forum");

    let outcome = conductor.run(&v, &[("forum", w1), ("chat", w2)], None).unwrap();
    let (info, outcomes) = match outcome {
        InstallOutcome::Migrated(info, outcomes) => (info, outcomes),
        other => panic!("unexpected: {other:?}"),
    };
    let v2_id = format!("app-{}-{}", hash_of(w1).to_text(), hash_of(w2).to_text());
    assert_eq!(info.installed_app_id, v2_id);
    assert_eq!(info.agent_pub_key, v1.agent_pub_key);
    assert_eq!(cell_of(&info, "forum"), forum);
    assert!(cell_of(&info, "chat").dna_hash().equals(&hash_of(w2)));
    assert!(outcomes.is_empty());

    let mut expected_settings = RoleSettingsMap::new();
    expected_settings
        .insert("forum".to_string(), RoleSettings::UseExisting { cell_id: forum });
    assert_eq!(
        conductor.asked[2..],
        vec![
            Request::ListApps { running_only: true },
            Request::ListApps { running_only: false },
            Request::InstallApp {
                app_id: v2_id,
                roles_settings: Some(expected_settings),
                agent: Some(v1.agent_pub_key),
            },
        ]
    );
}

#[test]
fn third_version_migrates_the_changed_role() {
    let (w1, w2, w3) = three_dnas();
    let mut conductor = Conductor::new();
    conductor.zomes = vec!["posts".to_string(), "profiles".to_string()];
    let v = versioned();
    conductor.run(&v, &[("forum", w1)], None).unwrap();
    conductor.run(&v, &[("forum", w1), ("chat", w2)], None).unwrap();
    let v2 = conductor.apps[1].clone();
    let old_forum = cell_of(&v2, "forum");
    let chat = cell_of(&v2, "chat");
    let asked_before = conductor.asked.len();

    let outcome = conductor.run(&v, &[("forum", w3), ("chat", w2)], None).unwrap();
    let (info, outcomes) = match outcome {
        InstallOutcome::Migrated(info, outcomes) => (info, outcomes),
        other => panic!("unexpected: {other:?}"),
    };
    let v3_id = format!("app-{}-{}", hash_of(w3).to_text(), hash_of(w2).to_text());
    assert_eq!(info.installed_app_id, v3_id);
    assert_eq!(info.agent_pub_key, v2.agent_pub_key);
    let new_forum = cell_of(&info, "forum");
    assert!(new_forum.dna_hash().equals(&hash_of(w3)));
    assert_eq!(new_forum.agent_pubkey(), old_forum.agent_pubkey());
    assert_eq!(cell_of(&info, "chat"), chat);
    assert_eq!(
        outcomes,
        vec![RoleMigration::Migrated {
            role: "forum".to_string(),
            cell_id: new_forum.clone(),
            zomes: vec![
                ZomeMigration { zome: "posts".to_string(), error: None },
                ZomeMigration { zome: "profiles".to_string(), error: None },
            ],
        }]
    );

    let mut expected_settings = RoleSettingsMap::new();
    expected_settings.insert("chat".to_string(), RoleSettings::UseExisting { cell_id: chat });
    let payload = old_forum.encode().unwrap();
    assert_eq!(
        conductor.asked[asked_before..],
        vec![
            Request::ListApps { running_only: true },
            Request::ListApps { running_only: false },
            Request::InstallApp {
                app_id: v3_id,
                roles_settings: Some(expected_settings),
                agent: Some(v2.agent_pub_key),
            },
            Request::FindMigratingZomes { cell_id: new_forum.clone() },
            Request::CallMigrate {
                cell_id: new_forum.clone(),
                zome: "posts".to_string(), fn_name: "migrate".to_string(),
                payload: payload.clone(),
            },
            Request::CallMigrate {
                cell_id: new_forum,
                zome: "profiles".to_string(),
                fn_name: "migrate".to_string(),
                payload,
            },
        ]
    );
}

#[test]
fn failed_migration_call_is_reported_and_the_app_stays_installed() {
    let mut conductor = Conductor::new();
    conductor.zomes = vec!["posts".to_string(), "profiles".to_string()];
    conductor.failing_zome = Some("posts".to_string());
    let v = versioned();
    conductor.run(&v, &[("forum", 1)], None).unwrap();
    let outcome = conductor.run(&v, &[("forum", 3)], None).unwrap();
    let (info, outcomes) = match outcome {
        InstallOutcome::Migrated(info, outcomes) => (info, outcomes),
        other => panic!("unexpected: {other:?}"),
    };
    assert_eq!(conductor.apps.len(), 2);
    assert_eq!(
        outcomes,
        vec![RoleMigration::Migrated {
            role: "forum".to_string(),
            cell_id: cell_of(&info, "forum"),
            zomes: vec![
                ZomeMigration {
                    zome: "posts".to_string(),
                    error: Some("posts failed".to_string()),
                },
                ZomeMigration { zome: "profiles".to_string(), error: None },
            ],
        }]
    );
}

#[test]
fn installing_the_same_version_twice_installs_once() {
    let mut conductor = Conductor::new();
    let v = versioned();
    conductor.run(&v, &[("forum", 1), ("chat", 2)], None).unwrap();
    let id = conductor.apps[0].installed_app_id.clone();
    let outcome = conductor.run(&v, &[("forum", 1), ("chat", 2)], None).unwrap();
    match outcome {
        InstallOutcome::AlreadyInstalled { app_id } => assert_eq!(app_id, id),
        other => panic!("unexpected: {other:?}"),
    }
    assert_eq!(conductor.apps.len(), 1);
    assert_eq!(conductor.installs(), 1);
    assert_eq!(
        conductor.asked[2..],
        vec![
            Request::ListApps { running_only: true },
            Request::UpdateAppIfNecessary { app_id: id },
        ]
    );
}

#[test]
fn migration_is_made_from_the_latest_version() {
    let mut conductor = Conductor::new();
    let v = versioned();
    conductor.run(&v, &[("forum", 1)], None).unwrap();
    conductor.run(&v, &[("forum", 2)], None).unwrap();
    let v2_forum = cell_of(&conductor.apps[1], "forum");
    let asked_before = conductor.asked.len();
    conductor.run(&v, &[("forum", 3)], None).unwrap();
    assert!(conductor.asked[asked_before..]
        .iter()
        .any(|r| matches!(r, Request::FindMigratingZomes { .. })));
    let back = conductor.run(&v, &[("forum", 2)], None).unwrap();
    assert!(matches!(back, InstallOutcome::AlreadyInstalled { .. }));
    assert_eq!(conductor.apps.len(), 3);
    assert!(v2_forum.dna_hash().equals(&hash_of(2)));
}

#[test]
fn failed_listing_gives_the_installation_up() {
    let step = versioned().install_or_update(bundle(&[("forum", 1)]), None);
    let InstallStep::Next(state, _) = step else { panic!("unexpected") };
    match state.step(Response::Failed("connection refused".to_string())) {
        InstallStep::Failed(Error::MigrateAppError(e)) => {
            assert_eq!(e, MigrateAppError::ConductorApiError("connection refused".to_string()))
        }
        other => panic!("unexpected: {other:?}"),
    }
}

#[test]
fn failed_installation_gives_the_installation_up() {
    let step = versioned().install_or_update(bundle(&[("forum", 1)]), None);
    let InstallStep::Next(state, _) = step else { panic!("unexpected") };
    let InstallStep::Next(state, request) = state.step(Response::Apps(Vec::new())) else {
        panic!("unexpected")
    };
    assert!(matches!(request, Request::InstallApp { agent: None, .. }));
    match state.step(Response::Failed("disk full".to_string())) {
        InstallStep::Failed(Error::MigrateAppError(e)) => {
            assert_eq!(e, MigrateAppError::ConductorApiError("disk full".to_string()))
        }
        other => panic!("unexpected: {other:?}"),
    }
}

#[test]
fn answer_out_of_turn_gives_the_installation_up() {
    let step = versioned().install_or_update(bundle(&[("forum", 1)]), None);
    let InstallStep::Next(state, _) = step else { panic!("unexpected") };
    match state.step(Response::Migrated) {
        InstallStep::Failed(Error::MigrateAppError(e)) => {
            assert_eq!(e, MigrateAppError::ConductorApiError("unexpected response".to_string()))
        }
        other => panic!("unexpected: {other:?}"),
    }
}

#[test]
fn migration_from_an_app_that_is_not_installed_fails() {
    let (state, request) = migrate_app(
        "app-old".to_string(),
        "app-new".to_string(),
        bundle(&[("forum", 1)]),
        None,
    );
    assert_eq!(request, Request::ListApps { running_only: false });
    match state.step(Response::Apps(vec![app("app-other", 1)])) {
        MigrationStep::Failed(Error::MigrateAppError(e)) => {
            assert_eq!(e, MigrateAppError::AppNotFoundError("app-old".to_string()));
            assert_eq!(e.message(), "The given app was not found: app-old");
        }
        other => panic!("unexpected: {other:?}"),
    }
}

#[test]
fn migration_installs_for_the_agent_of_the_existing_app() {
    let mut old = app("app-old", 1);
    old.agent_pub_key = agent(7);
    let (state, _) = migrate_app(
        "app-old".to_string(),
        "app-new".to_string(),
        bundle(&[("forum", 1)]),
        None,
    );
    match state.step(Response::Apps(vec![app("app-other", 2), old])) {
        MigrationStep::Next(_, request) => assert_eq!(
            request,
            Request::InstallApp {
                app_id: "app-new".to_string(),
                roles_settings: None,
                agent: Some(agent(7)),
            }
        ),
        other => panic!("unexpected: {other:?}"),
    }
}

use holochain_runtime::cell::CellId;
use holochain_runtime::hash::{AgentPubKey, DnaHash};
use holochain_runtime::settings::{modifiers_of, DnaModifiersOpt, RoleSettings, RoleSettingsMap};

fn dna(fill: u8) -> DnaHash {
    let mut bytes = vec![0x84, 0x2d, 0x24];
    bytes.extend(std::iter::repeat(fill).take(36));
    DnaHash::try_from_raw_39(bytes).unwrap()
}

fn agent(fill: u8) -> AgentPubKey {
    let mut bytes = vec![0x84, 0x20, 0x24];
    bytes.extend(std::iter::repeat(fill).take(36));
    AgentPubKey::try_from_raw_39(bytes).unwrap()
}

fn provisioned(seed: Option<&str>) -> RoleSettings {
    RoleSettings::Provisioned {
        membrane_proof: None,
        modifiers: seed.map(|s| DnaModifiersOpt {
            network_seed: Some(s.to_string()),
            properties: None,
        }),
    }
}

#[test]
fn new_settings_map_is_empty() {
    let map = RoleSettingsMap::new();
    assert!(map.is_empty());
    assert_eq!(map.len(), 0);
    assert!(map.get(&"forum".to_string()).is_none());
}

#[test]
fn settings_map_holds_what_was_inserted() {
    let mut map = RoleSettingsMap::new();
    map.insert("forum".to_string(), provisioned(Some("a")));
    map.insert("chat".to_string(), provisioned(None));
    assert!(!map.is_empty());
    assert_eq!(map.len(), 2);
    assert_eq!(map.get(&"forum".to_string()), Some(&provisioned(Some("a"))));
    assert_eq!(map.get(&"chat".to_string()), Some(&provisioned(None)));
    assert!(map.get(&"files".to_string()).is_none());
}

#[test]
fn settings_map_replaces_the_entry_of_a_name() {
    let mut map = RoleSettingsMap::new();
    map.insert("forum".to_string(), provisioned(Some("a")));
    map.insert("chat".to_string(), provisioned(None));
    map.insert("forum".to_string(), provisioned(Some("b")));
    assert_eq!(map.len(), 2);
    assert_eq!(map.get(&"forum".to_string()), Some(&provisioned(Some("b"))));
    assert_eq!(map.get(&"chat".to_string()), Some(&provisioned(None)));
    let entries = map.into_entries();
    assert_eq!(entries.len(), 2);
    assert_eq!(entries[0].0, "forum");
    assert_eq!(entries[1].0, "chat");
}

#[test]
fn settings_map_clone_says_the_same() {
    let mut map = RoleSettingsMap::new();
    map.insert("forum".to_string(), provisioned(Some("a")));
    let copy = map.clone();
    assert_eq!(copy, map);
}

#[test]
fn modifiers_come_from_provisioned_settings_only() {
    let with = provisioned(Some("a"));
    let without = provisioned(None);
    let pinned = RoleSettings::UseExisting { cell_id: CellId::new(dna(1), agent(2)) };
    assert_eq!(
        modifiers_of(Some(&with)),
        Some(DnaModifiersOpt { network_seed: Some("a".to_string()), properties: None })
    );
    assert_eq!(modifiers_of(Some(&without)), None);
    assert_eq!(modifiers_of(Some(&pinned)), None);
    assert_eq!(modifiers_of(None), None);
}

#[test]
fn cell_id_keeps_its_parts() {
    let cell = CellId::new(dna(1), agent(2));
    assert!(cell.dna_hash().equals(&dna(1)));
    assert!(cell.agent_pubkey().equals(&agent(2)));
    assert!(cell.equals(&CellId::new(dna(1), agent(2))));
    assert!(!cell.equals(&CellId::new(dna(3), agent(2))));
    assert!(!cell.equals(&CellId::new(dna(1), agent(3))));
    assert_eq!(cell.clone(), cell);
}

#[test]
fn cell_id_is_encoded_as_holochain_encodes_it() {
    let cell = CellId::new(dna(1), agent(2));
    let encoded = cell.encode().unwrap();
    let theirs = holochain_zome_types::prelude::CellId::new(
        holo_hash::DnaHash::from_raw_39(dna(1).get_raw_39().clone()),
        holo_hash::AgentPubKey::from_raw_39(agent(2).get_raw_39().clone()),
    );
    let expected = holochain_zome_types::prelude::ExternIO::encode(theirs.clone()).unwrap();
    assert_eq!(encoded, expected.clone().into_vec());
    let decoded: holochain_zome_types::prelude::CellId = expected.decode().unwrap();
    assert_eq!(decoded, theirs);
    assert_ne!(encoded, dna(1).get_raw_39().clone());
    let other = CellId::new(dna(3), agent(2)).encode().unwrap();
    assert_ne!(encoded, other);
}

#[test]
fn cell_id_is_encoded_as_an_array_of_two_byte_strings() {
    let encoded = CellId::new(dna(1), agent(2)).encode().unwrap();
    let mut expected = vec![0x92, 0xc4, 39];
    expected.extend(dna(1).get_raw_39().iter());
    expected.extend([0xc4, 39]);
    expected.extend(agent(2).get_raw_39().iter());
    assert_eq!(encoded, expected);
    assert_eq!(encoded.len(), 83);
}

#[test]
fn runtime_config_starts_without_port_and_discovery() {
    let dir = std::path::PathBuf::from("/tmp/holochain");
    let config = holochain_runtime::config::HolochainRuntimeConfig::new(dir.clone(), "network");
    assert_eq!(config.holochain_dir, dir);
    assert_eq!(config.network_config, "network");
    assert_eq!(config.admin_port, None);
    assert!(!config.mdns_discovery);
}

#[test]
fn runtime_config_setters_change_one_setting() {
    let dir = std::path::PathBuf::from("/tmp/holochain");
    let config = holochain_runtime::config::HolochainRuntimeConfig::new(dir.clone(), 7u8)
        .admin_port(4444);
    assert_eq!(config.admin_port, Some(4444));
    assert!(!config.mdns_discovery);
    let config = config.enable_mdns_discovery();
    assert!(config.mdns_discovery);
    assert_eq!(config.admin_port, Some(4444));
    assert_eq!(config.holochain_dir, dir);
    assert_eq!(config.network_config, 7u8);
    let config = config.admin_port(5555);
    assert_eq!(config.admin_port, Some(5555));
}

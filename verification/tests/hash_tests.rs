use holochain_runtime::hash::{ActionHash, AgentPubKey, DnaHash};
use holochain_types::prelude::{
    CoordinatorManifest, DnaBundle, DnaManifest, DnaManifestCurrent, DnaModifiersOpt,
    IntegrityManifest, ValidatedDnaManifest, ZomeManifest,
};

fn raw(prefix: [u8; 3], fill: u8) -> Vec<u8> {
    let mut bytes = prefix.to_vec();
    bytes.extend(std::iter::repeat(fill).take(36));
    bytes
}

fn packed_dna(seed: &str, wasm: Vec<u8>) -> Vec<u8> {
    let manifest = DnaManifestCurrent {
        name: "dna".to_string(),
        integrity: IntegrityManifest {
            network_seed: Some(seed.to_string()),
            properties: None,
            zomes: vec![ZomeManifest {
                name: "integrity".into(),
                hash: None,
                path: "integrity.wasm".to_string(),
                dependencies: None,
            }],
        },
        coordinator: CoordinatorManifest { zomes: vec![] },
    };
    let validated: ValidatedDnaManifest = DnaManifest::from(manifest).try_into().unwrap();
    let bundle =
        DnaBundle::new(validated, vec![("integrity.wasm".to_string(), wasm.into())]).unwrap();
    bundle.pack().unwrap().to_vec()
}

fn hash_by_holochain(packed: &[u8], modifiers: DnaModifiersOpt) -> Vec<u8> {
    let bundle = DnaBundle::unpack(packed).unwrap();
    let (file, _) = futures::executor::block_on(bundle.into_dna_file(modifiers)).unwrap();
    file.dna_hash().get_raw_39().to_vec()
}

#[test]
fn dna_hash_takes_39_bytes_with_the_dna_prefix() {
    let hash = DnaHash::try_from_raw_39(raw([0x84, 0x2d, 0x24], 7)).unwrap();
    assert_eq!(hash.get_raw_39(), &raw([0x84, 0x2d, 0x24], 7));
}

#[test]
fn dna_hash_refuses_other_prefixes_and_lengths() {
    assert!(DnaHash::try_from_raw_39(raw([0x84, 0x20, 0x24], 7)).is_none());
    assert!(DnaHash::try_from_raw_39(vec![0x84, 0x2d, 0x24]).is_none());
    assert!(DnaHash::try_from_raw_39(Vec::new()).is_none());
    let mut long = raw([0x84, 0x2d, 0x24], 7);
    long.push(0);
    assert!(DnaHash::try_from_raw_39(long).is_none());
}

#[test]
fn agent_key_and_action_hash_have_their_own_prefixes() {
    assert!(AgentPubKey::try_from_raw_39(raw([0x84, 0x20, 0x24], 1)).is_some());
    assert!(AgentPubKey::try_from_raw_39(raw([0x84, 0x2d, 0x24], 1)).is_none());
    assert!(ActionHash::try_from_raw_39(raw([0x84, 0x29, 0x24], 1)).is_some());
    assert!(ActionHash::try_from_raw_39(raw([0x84, 0x20, 0x24], 1)).is_none());
}

#[test]
fn hashes_compare_by_their_bytes() {
    let a = DnaHash::try_from_raw_39(raw([0x84, 0x2d, 0x24], 1)).unwrap();
    let b = DnaHash::try_from_raw_39(raw([0x84, 0x2d, 0x24], 1)).unwrap();
    let c = DnaHash::try_from_raw_39(raw([0x84, 0x2d, 0x24], 2)).unwrap();
    assert!(a.equals(&b));
    assert!(!a.equals(&c));
    assert!(a.clone().equals(&a));
}

#[test]
fn hash_text_is_the_text_that_holo_hash_prints() {
    let bytes = raw([0x84, 0x2d, 0x24], 0xdb);
    let hash = DnaHash::try_from_raw_39(bytes.clone()).unwrap();
    let text = hash.to_text();
    assert_eq!(text, holo_hash::DnaHash::from_raw_39(bytes.clone()).to_string());
    assert_eq!(text.len(), 53);
    assert!(text.starts_with("uhC0k"));
    assert_ne!(text.as_bytes(), bytes.as_slice());
}

#[test]
fn hash_of_a_packed_dna_is_the_hash_that_holochain_computes() {
    let packed = packed_dna("seed", vec![1, 2, 3]);
    let hash = DnaHash::of_dna_bundle(&packed, &None, &None).unwrap();
    assert_eq!(hash.get_raw_39(), &hash_by_holochain(&packed, DnaModifiersOpt::none()));
    assert_eq!(hash.get_raw_39().len(), 39);
    assert_ne!(hash.get_raw_39(), &packed);
}

#[test]
fn hash_of_a_packed_dna_follows_the_overrides() {
    let packed = packed_dna("seed", vec![1, 2, 3]);
    let plain = DnaHash::of_dna_bundle(&packed, &None, &None).unwrap();
    let seeded = DnaHash::of_dna_bundle(&packed, &Some("other".to_string()), &None).unwrap();
    assert!(!plain.equals(&seeded));
    let expected = hash_by_holochain(
        &packed,
        DnaModifiersOpt::none().with_network_seed("other".to_string()),
    );
    assert_eq!(seeded.get_raw_39(), &expected);
    let same_seed = DnaHash::of_dna_bundle(&packed, &Some("seed".to_string()), &None).unwrap();
    assert!(plain.equals(&same_seed));
}

#[test]
fn hash_of_a_packed_dna_is_the_same_each_time() {
    let packed = packed_dna("seed", vec![9, 9]);
    let first = DnaHash::of_dna_bundle(&packed, &None, &None).unwrap();
    let second = DnaHash::of_dna_bundle(&packed, &None, &None).unwrap();
    assert!(first.equals(&second));
}

#[test]
fn bytes_that_are_no_dna_bundle_have_no_hash() {
    assert!(DnaHash::of_dna_bundle(&vec![1, 2, 3], &None, &None).is_err());
    assert!(DnaHash::of_dna_bundle(&Vec::new(), &None, &None).is_err());
}

#[test]
fn hash_of_a_packed_dna_is_computed_inside_an_executor_too() {
    let packed = packed_dna("seed", vec![1, 2, 3]);
    let outside = DnaHash::of_dna_bundle(&packed, &None, &None).unwrap();
    let inside = futures::executor::block_on(async {
        DnaHash::of_dna_bundle(&packed, &None, &None).unwrap()
    });
    assert!(inside.equals(&outside));
}

#[test]
fn hash_of_a_dna_with_many_zomes_is_the_hash_that_holochain_computes() {
    let zomes: Vec<ZomeManifest> = (0..40)
        .map(|i| ZomeManifest {
            name: format!("zome{i}").into(),
            hash: None,
            path: format!("zome{i}.wasm"),
            dependencies: None,
        })
        .collect();
    let manifest = DnaManifestCurrent {
        name: "dna".to_string(),
        integrity: IntegrityManifest { network_seed: None, properties: None, zomes },
        coordinator: CoordinatorManifest { zomes: vec![] },
    };
    let validated: ValidatedDnaManifest = DnaManifest::from(manifest).try_into().unwrap();
    let wasms = (0..40u8).map(|i| (format!("zome{i}.wasm"), vec![i].into())).collect::<Vec<_>>();
    let packed = DnaBundle::new(validated, wasms).unwrap().pack().unwrap().to_vec();
    let hash = DnaHash::of_dna_bundle(&packed, &None, &None).unwrap();
    assert_eq!(hash.get_raw_39(), &hash_by_holochain(&packed, DnaModifiersOpt::none()));
}

//! The 39-byte hashes by which the conductor names DNAs, agents and actions.
//!
//! A hash is three bytes that tell its kind, a 32-byte core and four bytes of
//! location. The types of this module hold the full 39 bytes and admit no
//! value of another length or with the prefix of another kind.

use crate::bytes::{bytes_clone, bytes_equal};
use vstd::prelude::*;

verus! {

/// Length of a full hash.
pub const HOLO_HASH_FULL_LEN: usize = 39;

/// `bytes` is a full hash whose prefix is `p0 p1 p2`.
pub open spec fn spec_is_hash(bytes: Seq<u8>, p0: u8, p1: u8, p2: u8) -> bool {
    bytes.len() == 39 && bytes[0] == p0 && bytes[1] == p1 && bytes[2] == p2
}

/// `bytes` is the full hash of a DNA.
pub open spec fn spec_is_dna_hash(bytes: Seq<u8>) -> bool {
    spec_is_hash(bytes, 0x84, 0x2d, 0x24)
}

/// `bytes` is the full hash of an agent key.
pub open spec fn spec_is_agent_key(bytes: Seq<u8>) -> bool {
    spec_is_hash(bytes, 0x84, 0x20, 0x24)
}

/// `bytes` is the full hash of an action.
pub open spec fn spec_is_action_hash(bytes: Seq<u8>) -> bool {
    spec_is_hash(bytes, 0x84, 0x29, 0x24)
}

/// Tests length and prefix of a would-be hash.
pub fn is_hash(bytes: &Vec<u8>, p0: u8, p1: u8, p2: u8) -> (ok: bool)
    ensures
        ok == spec_is_hash(bytes@, p0, p1, p2),
{
    bytes.len() == HOLO_HASH_FULL_LEN && bytes[0] == p0 && bytes[1] == p1 && bytes[2] == p2
}

/// Hash of a DNA definition, modifiers applied.
#[derive(Debug, PartialEq, Eq)]
pub struct DnaHash {
    bytes: Vec<u8>,
}

impl View for DnaHash {
    type V = Seq<u8>;

    closed spec fn view(&self) -> Seq<u8> {
        self.bytes@
    }
}

impl DeepView for DnaHash {
    type V = Seq<u8>;

    open spec fn deep_view(&self) -> Seq<u8> {
        self@
    }
}

impl DnaHash {
    #[verifier::type_invariant]
    spec fn well_formed(self) -> bool {
        spec_is_dna_hash(self.bytes@)
    }

    /// Takes 39 bytes as a DNA hash, if they have the length and prefix of one.
    pub fn try_from_raw_39(bytes: Vec<u8>) -> (hash: Option<DnaHash>)
        ensures
            hash is Some <==> spec_is_dna_hash(bytes@),
            hash matches Some(h) ==> h@ == bytes@,
    {
        if is_hash(&bytes, 0x84, 0x2d, 0x24) {
            Some(DnaHash { bytes })
        } else {
            None
        }
    }

    /// The 39 bytes.
    pub fn get_raw_39(&self) -> (bytes: &Vec<u8>)
        ensures
            bytes@ == self@,
            spec_is_dna_hash(self@),
    {
        proof {
            use_type_invariant(self);
        }
        &self.bytes
    }

    /// Whether two hashes are the same.
    pub fn equals(&self, other: &DnaHash) -> (same: bool)
        ensures
            same == (self@ == other@),
    {
        bytes_equal(&self.bytes, &other.bytes)
    }
}

impl Clone for DnaHash {
    fn clone(&self) -> (copy: Self)
        ensures
            copy@ == self@,
    {
        proof {
            use_type_invariant(self);
        }
        DnaHash { bytes: bytes_clone(&self.bytes) }
    }
}

/// Public key of an agent, in the form of a hash.
#[derive(Debug, PartialEq, Eq)]
pub struct AgentPubKey {
    bytes: Vec<u8>,
}

impl View for AgentPubKey {
    type V = Seq<u8>;

    closed spec fn view(&self) -> Seq<u8> {
        self.bytes@
    }
}

impl DeepView for AgentPubKey {
    type V = Seq<u8>;

    open spec fn deep_view(&self) -> Seq<u8> {
        self@
    }
}

impl AgentPubKey {
    #[verifier::type_invariant]
    spec fn well_formed(self) -> bool {
        spec_is_agent_key(self.bytes@)
    }

    /// Takes 39 bytes as an agent key, if they have the length and prefix of one.
    pub fn try_from_raw_39(bytes: Vec<u8>) -> (hash: Option<AgentPubKey>)
        ensures
            hash is Some <==> spec_is_agent_key(bytes@),
            hash matches Some(h) ==> h@ == bytes@,
    {
        if is_hash(&bytes, 0x84, 0x20, 0x24) {
            Some(AgentPubKey { bytes })
        } else {
            None
        }
    }

    /// The 39 bytes.
    pub fn get_raw_39(&self) -> (bytes: &Vec<u8>)
        ensures
            bytes@ == self@,
            spec_is_agent_key(self@),
    {
        proof {
            use_type_invariant(self);
        }
        &self.bytes
    }

    /// Whether two hashes are the same.
    pub fn equals(&self, other: &AgentPubKey) -> (same: bool)
        ensures
            same == (self@ == other@),
    {
        bytes_equal(&self.bytes, &other.bytes)
    }
}

impl Clone for AgentPubKey {
    fn clone(&self) -> (copy: Self)
        ensures
            copy@ == self@,
    {
        proof {
            use_type_invariant(self);
        }
        AgentPubKey { bytes: bytes_clone(&self.bytes) }
    }
}

/// Hash of an action of a source chain.
#[derive(Debug, PartialEq, Eq)]
pub struct ActionHash {
    bytes: Vec<u8>,
}

impl View for ActionHash {
    type V = Seq<u8>;

    closed spec fn view(&self) -> Seq<u8> {
        self.bytes@
    }
}

impl DeepView for ActionHash {
    type V = Seq<u8>;

    open spec fn deep_view(&self) -> Seq<u8> {
        self@
    }
}

impl ActionHash {
    #[verifier::type_invariant]
    spec fn well_formed(self) -> bool {
        spec_is_action_hash(self.bytes@)
    }

    /// Takes 39 bytes as an action hash, if they have the length and prefix of one.
    pub fn try_from_raw_39(bytes: Vec<u8>) -> (hash: Option<ActionHash>)
        ensures
            hash is Some <==> spec_is_action_hash(bytes@),
            hash matches Some(h) ==> h@ == bytes@,
    {
        if is_hash(&bytes, 0x84, 0x29, 0x24) {
            Some(ActionHash { bytes })
        } else {
            None
        }
    }

    /// The 39 bytes.
    pub fn get_raw_39(&self) -> (bytes: &Vec<u8>)
        ensures
            bytes@ == self@,
            spec_is_action_hash(self@),
    {
        proof {
            use_type_invariant(self);
        }
        &self.bytes
    }

    /// Whether two hashes are the same.
    pub fn equals(&self, other: &ActionHash) -> (same: bool)
        ensures
            same == (self@ == other@),
    {
        bytes_equal(&self.bytes, &other.bytes)
    }
}

impl Clone for ActionHash {
    fn clone(&self) -> (copy: Self)
        ensures
            copy@ == self@,
    {
        proof {
            use_type_invariant(self);
        }
        ActionHash { bytes: bytes_clone(&self.bytes) }
    }
}

/// The text of a hash: the letter `u` and the bytes in base 64, URL-safe and
/// unpadded, as `holo_hash::encode::holo_hash_encode` writes it.
pub uninterp spec fn spec_hash_text(bytes: Seq<u8>) -> Seq<char>;

/// Calls `holo_hash::encode::holo_hash_encode`, which a hash's `Display` prints.
/// The text is a function of the bytes alone; nothing else is claimed of it.
#[verifier::external_body]
fn holo_hash_encode(bytes: &Vec<u8>) -> (text: String)
    ensures
        text@ == spec_hash_text(bytes@),
{
    holo_hash::encode::holo_hash_encode(bytes.as_slice())
}

impl DnaHash {
    /// The hash as text, as it stands in application ids.
    pub fn to_text(&self) -> (text: String)
        ensures
            text@ == spec_hash_text(self@),
    {
        holo_hash_encode(&self.bytes)
    }
}

/// The hash that `holochain_types` computes for a packed DNA bundle once the
/// given overrides have replaced the bundle's own modifiers; `None` where it
/// computes none, as it does for bytes that do not unpack to a sound DNA
/// bundle.
pub uninterp spec fn spec_dna_hash(
    dna_bundle: Seq<u8>,
    network_seed: Option<Seq<char>>,
    properties: Option<Seq<u8>>,
) -> Option<Seq<u8>>;

/// Unpacks the bytes with `DnaBundle::unpack` and calls
/// `DnaBundle::into_dna_file` with the overrides; the result is the hash of the
/// DNA file that comes back. Hash or failure depend on the arguments alone, and
/// a hash has the length and prefix of a DNA hash. The future that
/// `into_dna_file` returns is polled once, by `FutureExt::now_or_never`, and
/// no executor is entered: nothing in that future waits, so the one poll
/// completes it. Were it not complete, the call would count as failed.
#[verifier::external_body]
fn hash_dna_bundle(
    dna_bundle: &Vec<u8>,
    network_seed: &Option<String>,
    properties: &Option<Vec<u8>>,
) -> (hash: Result<Vec<u8>, holochain_types::dna::DnaError>)
    ensures
        match hash {
            Ok(h) => spec_dna_hash(dna_bundle@, network_seed.deep_view(), properties.deep_view())
                == Some(h@) && spec_is_dna_hash(h@),
            Err(_) => spec_dna_hash(
                dna_bundle@,
                network_seed.deep_view(),
                properties.deep_view(),
            ) is None,
        },
{
    let bundle = holochain_types::dna::DnaBundle::unpack(dna_bundle.as_slice())?;
    let modifiers = holochain_zome_types::prelude::DnaModifiersOpt {
        network_seed: network_seed.clone(),
        properties: match properties {
            Some(p) => Some(holochain_serialized_bytes::UnsafeBytes::from(p.clone()).into()),
            None => None,
        },
    };
    match futures::FutureExt::now_or_never(bundle.into_dna_file(modifiers)) {
        Some(file) => Ok(file?.0.dna_hash().get_raw_39().to_vec()),
        None => Err(holochain_types::dna::DnaError::Invalid(String::new())),
    }
}

impl DnaHash {
    /// The hash of the DNA that a packed DNA bundle holds, with the given
    /// overrides of its modifiers applied.
    pub fn of_dna_bundle(
        dna_bundle: &Vec<u8>,
        network_seed: &Option<String>,
        properties: &Option<Vec<u8>>,
    ) -> (hash: Result<DnaHash, holochain_types::dna::DnaError>)
        ensures
            match hash {
                Ok(h) => spec_dna_hash(
                    dna_bundle@,
                    network_seed.deep_view(),
                    properties.deep_view(),
                ) == Some(h@),
                Err(_) => spec_dna_hash(
                    dna_bundle@,
                    network_seed.deep_view(),
                    properties.deep_view(),
                ) is None,
            },
    {
        match hash_dna_bundle(dna_bundle, network_seed, properties) {
            Ok(bytes) => Ok(DnaHash { bytes }),
            Err(e) => Err(e),
        }
    }
}

} // verus!

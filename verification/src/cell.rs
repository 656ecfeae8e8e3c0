//! Cells, and what the conductor reports of an installed app.

use crate::hash::{spec_is_agent_key, spec_is_dna_hash, AgentPubKey, DnaHash};
use vstd::prelude::*;

verus! {

/// What a `CellId` stands for: the hash of a DNA and the key of an agent.
pub struct CellIdView {
    pub dna_hash: Seq<u8>,
    pub agent_pub_key: Seq<u8>,
}

/// The address of a cell: one DNA, run by one agent.
#[derive(Debug, PartialEq, Eq)]
pub struct CellId {
    dna_hash: DnaHash,
    agent_pub_key: AgentPubKey,
}

impl View for CellId {
    type V = CellIdView;

    closed spec fn view(&self) -> CellIdView {
        CellIdView { dna_hash: self.dna_hash@, agent_pub_key: self.agent_pub_key@ }
    }
}

impl DeepView for CellId {
    type V = CellIdView;

    open spec fn deep_view(&self) -> CellIdView {
        self@
    }
}

impl CellId {
    /// The cell of `agent_pub_key` on `dna_hash`.
    pub fn new(dna_hash: DnaHash, agent_pub_key: AgentPubKey) -> (cell: CellId)
        ensures
            cell@.dna_hash == dna_hash@,
            cell@.agent_pub_key == agent_pub_key@,
    {
        CellId { dna_hash, agent_pub_key }
    }

    /// The DNA of the cell.
    pub fn dna_hash(&self) -> (hash: &DnaHash)
        ensures
            hash@ == self@.dna_hash,
    {
        &self.dna_hash
    }

    /// The agent of the cell.
    pub fn agent_pubkey(&self) -> (key: &AgentPubKey)
        ensures
            key@ == self@.agent_pub_key,
    {
        &self.agent_pub_key
    }

    /// Whether two cell ids name the same cell.
    pub fn equals(&self, other: &CellId) -> (same: bool)
        ensures
            same == (self@ == other@),
    {
        self.dna_hash.equals(&other.dna_hash) && self.agent_pub_key.equals(&other.agent_pub_key)
    }
}

impl Clone for CellId {
    fn clone(&self) -> (copy: Self)
        ensures
            copy@ == self@,
    {
        CellId { dna_hash: self.dna_hash.clone(), agent_pub_key: self.agent_pub_key.clone() }
    }
}

/// The bytes that a cell id is encoded to as the payload of a zome call: in
/// MessagePack, an array of two byte strings of 39 bytes, the DNA hash and
/// the agent key.
pub open spec fn spec_encoded_cell_id(dna_hash: Seq<u8>, agent_pub_key: Seq<u8>) -> Seq<u8> {
    seq![0x92u8, 0xc4u8, 39u8] + dna_hash + seq![0xc4u8, 39u8] + agent_pub_key
}

/// Calls `ExternIO::encode` on the cell id of `holochain_zome_types` that is
/// made of the given DNA hash and agent key. The hashes are built with
/// `from_raw_39`, which takes 39 bytes with the prefix of its kind and panics
/// on anything else. A cell id is written as a tuple of two hashes and a hash
/// as its 39 bytes; the encoder writes into a vector, where no write fails.
#[verifier::external_body]
fn encode_cell_id(dna_hash: &Vec<u8>, agent_pub_key: &Vec<u8>) -> (encoded: Result<
    Vec<u8>,
    holochain_serialized_bytes::SerializedBytesError,
>)
    requires
        spec_is_dna_hash(dna_hash@),
        spec_is_agent_key(agent_pub_key@),
    ensures
        encoded is Ok,
        encoded->Ok_0@ == spec_encoded_cell_id(dna_hash@, agent_pub_key@),
{
    let id = holochain_zome_types::cell::CellId::new(
        holo_hash::DnaHash::from_raw_39(dna_hash.clone()),
        holo_hash::AgentPubKey::from_raw_39(agent_pub_key.clone()),
    );
    Ok(holochain_zome_types::prelude::ExternIO::encode(id)?.into_vec())
}

impl CellId {
    /// The cell id as the payload of a zome call.
    pub fn encode(&self) -> (encoded: Result<
        Vec<u8>,
        holochain_serialized_bytes::SerializedBytesError,
    >)
        ensures
            encoded is Ok,
            encoded->Ok_0@ == spec_encoded_cell_id(self@.dna_hash, self@.agent_pub_key),
    {
        encode_cell_id(self.dna_hash.get_raw_39(), self.agent_pub_key.get_raw_39())
    }
}

/// What a `CellInfo` stands for.
pub enum CellInfoView {
    Provisioned(CellIdView),
    Cloned(CellIdView),
    Stem,
}

/// One cell that fills a role of an installed app, with its kind.
#[derive(Debug, PartialEq, Eq)]
pub enum CellInfo {
    /// The cell that was provisioned for the role when the app was installed.
    Provisioned(CellId),
    /// A clone of the role's cell, made while the app ran.
    Cloned(CellId),
    /// A DNA held ready for clones, without a cell of its own.
    Stem,
}

impl View for CellInfo {
    type V = CellInfoView;

    open spec fn view(&self) -> CellInfoView {
        match self {
            CellInfo::Provisioned(id) => CellInfoView::Provisioned(id@),
            CellInfo::Cloned(id) => CellInfoView::Cloned(id@),
            CellInfo::Stem => CellInfoView::Stem,
        }
    }
}

impl DeepView for CellInfo {
    type V = CellInfoView;

    open spec fn deep_view(&self) -> CellInfoView {
        self@
    }
}

impl Clone for CellInfo {
    fn clone(&self) -> (copy: Self)
        ensures
            copy@ == self@,
    {
        match self {
            CellInfo::Provisioned(id) => CellInfo::Provisioned(id.clone()),
            CellInfo::Cloned(id) => CellInfo::Cloned(id.clone()),
            CellInfo::Stem => CellInfo::Stem,
        }
    }
}

/// What an `AppInfo` stands for.
pub struct AppInfoView {
    pub installed_app_id: Seq<char>,
    pub agent_pub_key: Seq<u8>,
    pub cell_info: Seq<(Seq<char>, Seq<CellInfoView>)>,
    pub installed_at: int,
}

/// The conductor's record of one installed app.
#[derive(Debug, PartialEq, Eq)]
pub struct AppInfo {
    /// The id under which the app was installed.
    pub installed_app_id: String,
    /// The agent that runs every provisioned cell of the app.
    pub agent_pub_key: AgentPubKey,
    /// For each role, by name, the cells that fill it.
    pub cell_info: Vec<(String, Vec<CellInfo>)>,
    /// When the app was installed, in microseconds since the epoch.
    pub installed_at: i64,
}

impl View for AppInfo {
    type V = AppInfoView;

    open spec fn view(&self) -> AppInfoView {
        AppInfoView {
            installed_app_id: self.installed_app_id@,
            agent_pub_key: self.agent_pub_key@,
            cell_info: self.cell_info.deep_view(),
            installed_at: self.installed_at as int,
        }
    }
}

impl DeepView for AppInfo {
    type V = AppInfoView;

    open spec fn deep_view(&self) -> AppInfoView {
        self@
    }
}

/// Copies the cells of one role.
pub fn cells_clone(cells: &Vec<CellInfo>) -> (copy: Vec<CellInfo>)
    ensures
        copy.deep_view() == cells.deep_view(),
{
    let mut copy: Vec<CellInfo> = Vec::with_capacity(cells.len());
    let mut i: usize = 0;
    while i < cells.len()
        invariant
            i <= cells.len(),
            copy.len() == i,
            forall|j: int| 0 <= j < i ==> copy@[j]@ == cells@[j]@,
        decreases cells.len() - i,
    {
        copy.push(cells[i].clone());
        i = i + 1;
    }
    assert(copy.deep_view() =~= cells.deep_view());
    copy
}

impl Clone for AppInfo {
    fn clone(&self) -> (copy: Self)
        ensures
            copy@ == self@,
    {
        let mut cell_info: Vec<(String, Vec<CellInfo>)> = Vec::with_capacity(self.cell_info.len());
        let mut i: usize = 0;
        while i < self.cell_info.len()
            invariant
                i <= self.cell_info.len(),
                cell_info.len() == i,
                forall|j: int|
                    0 <= j < i ==> cell_info@[j].deep_view() == self.cell_info@[j].deep_view(),
            decreases self.cell_info.len() - i,
        {
            let entry = &self.cell_info[i];
            cell_info.push((entry.0.clone(), cells_clone(&entry.1)));
            i = i + 1;
        }
        assert(cell_info.deep_view() =~= self.cell_info.deep_view());
        AppInfo {
            installed_app_id: self.installed_app_id.clone(),
            agent_pub_key: self.agent_pub_key.clone(),
            cell_info,
            installed_at: self.installed_at,
        }
    }
}

} // verus!

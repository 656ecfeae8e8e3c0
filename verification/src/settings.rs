//! What the caller may settle for a role before an app is installed.

use crate::bytes::opt_bytes_clone;
use crate::cell::{CellId, CellIdView};
use crate::named::{
    index_of, lemma_entries_map, lemma_entries_map_distinct, lemma_index_of, spec_entries_map,
    spec_index_of, spec_names_distinct,
};
use crate::text::opt_string_clone;
use vstd::prelude::*;

verus! {

/// What a `DnaModifiersOpt` stands for.
pub struct ModifiersView {
    pub network_seed: Option<Seq<char>>,
    pub properties: Option<Seq<u8>>,
}

/// Overrides for the modifiers of a DNA. A field that is `None` leaves the
/// DNA's own value in place.
#[derive(Debug, PartialEq, Eq)]
pub struct DnaModifiersOpt {
    /// Replaces the network seed.
    pub network_seed: Option<String>,
    /// Replaces the properties; the bytes are the serialized properties.
    pub properties: Option<Vec<u8>>,
}

impl View for DnaModifiersOpt {
    type V = ModifiersView;

    open spec fn view(&self) -> ModifiersView {
        ModifiersView {
            network_seed: self.network_seed.deep_view(),
            properties: self.properties.deep_view(),
        }
    }
}

impl DeepView for DnaModifiersOpt {
    type V = ModifiersView;

    open spec fn deep_view(&self) -> ModifiersView {
        self@
    }
}

impl Clone for DnaModifiersOpt {
    fn clone(&self) -> (copy: Self)
        ensures
            copy@ == self@,
    {
        DnaModifiersOpt {
            network_seed: opt_string_clone(&self.network_seed),
            properties: opt_bytes_clone(&self.properties),
        }
    }
}

/// What a `RoleSettings` stands for.
pub enum RoleSettingsView {
    UseExisting { cell_id: CellIdView },
    Provisioned { membrane_proof: Option<Seq<u8>>, modifiers: Option<ModifiersView> },
}

/// Settings for one role, given when an app is installed.
#[derive(Debug, PartialEq, Eq)]
pub enum RoleSettings {
    /// The role is filled by a cell that exists already.
    UseExisting { cell_id: CellId },
    /// The role gets a cell of its own.
    Provisioned {
        /// The proof that admits the agent to the network, if one is needed.
        membrane_proof: Option<Vec<u8>>,
        /// Overrides for the modifiers that the bundle gives the role's DNA.
        modifiers: Option<DnaModifiersOpt>,
    },
}

impl View for RoleSettings {
    type V = RoleSettingsView;

    open spec fn view(&self) -> RoleSettingsView {
        match self {
            RoleSettings::UseExisting { cell_id } => RoleSettingsView::UseExisting {
                cell_id: cell_id@,
            },
            RoleSettings::Provisioned { membrane_proof, modifiers } => {
                RoleSettingsView::Provisioned {
                    membrane_proof: membrane_proof.deep_view(),
                    modifiers: modifiers.deep_view(),
                }
            },
        }
    }
}

impl DeepView for RoleSettings {
    type V = RoleSettingsView;

    open spec fn deep_view(&self) -> RoleSettingsView {
        self@
    }
}

impl Clone for RoleSettings {
    fn clone(&self) -> (copy: Self)
        ensures
            copy@ == self@,
    {
        match self {
            RoleSettings::UseExisting { cell_id } => RoleSettings::UseExisting {
                cell_id: cell_id.clone(),
            },
            RoleSettings::Provisioned { membrane_proof, modifiers } => {
                let modifiers_copy = match modifiers {
                    Some(m) => Some(m.clone()),
                    None => None,
                };
                RoleSettings::Provisioned {
                    membrane_proof: opt_bytes_clone(membrane_proof),
                    modifiers: modifiers_copy,
                }
            },
        }
    }
}

/// The modifiers that settings give a role's DNA: those of `Provisioned`
/// settings that carry some, and none otherwise.
pub open spec fn spec_modifiers_of(settings: Option<RoleSettingsView>) -> Option<ModifiersView> {
    match settings {
        Some(RoleSettingsView::Provisioned { modifiers, .. }) => modifiers,
        _ => None,
    }
}

/// The modifiers that settings give a role's DNA.
pub fn modifiers_of(settings: Option<&RoleSettings>) -> (modifiers: Option<DnaModifiersOpt>)
    ensures
        modifiers.deep_view() == spec_modifiers_of(settings.deep_view()),
{
    match settings {
        Some(RoleSettings::Provisioned { modifiers: Some(m), .. }) => Some(m.clone()),
        _ => None,
    }
}

/// Copies optional settings.
pub fn opt_settings_clone(settings: &Option<RoleSettings>) -> (copy: Option<RoleSettings>)
    ensures
        copy.deep_view() == settings.deep_view(),
{
    match settings {
        Some(s) => Some(s.clone()),
        None => None,
    }
}

/// Settings for the roles of an app, by role name.
#[derive(Debug, PartialEq, Eq)]
pub struct RoleSettingsMap {
    entries: Vec<(String, RoleSettings)>,
}

impl View for RoleSettingsMap {
    type V = Map<Seq<char>, RoleSettingsView>;

    closed spec fn view(&self) -> Map<Seq<char>, RoleSettingsView> {
        spec_entries_map(self.entries.deep_view())
    }
}

impl DeepView for RoleSettingsMap {
    type V = Map<Seq<char>, RoleSettingsView>;

    open spec fn deep_view(&self) -> Map<Seq<char>, RoleSettingsView> {
        self@
    }
}

impl RoleSettingsMap {
    #[verifier::type_invariant]
    spec fn well_formed(self) -> bool {
        spec_names_distinct(self.entries.deep_view())
    }

    /// The map without entries.
    pub fn new() -> (map: RoleSettingsMap)
        ensures
            map@ == Map::<Seq<char>, RoleSettingsView>::empty(),
    {
        let map = RoleSettingsMap { entries: Vec::new() };
        assert(map@ =~= Map::<Seq<char>, RoleSettingsView>::empty());
        map
    }

    /// The number of roles that have settings.
    pub fn len(&self) -> (n: usize)
        ensures
            n == self@.dom().len(),
            self@.dom().finite(),
    {
        proof {
            use_type_invariant(self);
            lemma_entries_dom_len(self.entries.deep_view());
        }
        self.entries.len()
    }

    /// Whether no role has settings.
    pub fn is_empty(&self) -> (empty: bool)
        ensures
            empty == (self@ == Map::<Seq<char>, RoleSettingsView>::empty()),
    {
        proof {
            let entries = self.entries.deep_view();
            if entries.len() > 0 {
                lemma_index_of(entries, entries[0].0);
                assert(self@.contains_key(entries[0].0));
            } else {
                assert(self@ =~= Map::<Seq<char>, RoleSettingsView>::empty());
            }
        }
        self.entries.len() == 0
    }

    /// The settings of the role `name`, if it has some.
    pub fn get(&self, name: &String) -> (settings: Option<&RoleSettings>)
        ensures
            settings is Some <==> self@.contains_key(name@),
            settings matches Some(s) ==> s@ == self@[name@],
    {
        let i = index_of(&self.entries, name);
        proof {
            lemma_entries_map(self.entries.deep_view(), name@);
        }
        if i < self.entries.len() {
            Some(&self.entries[i].1)
        } else {
            None
        }
    }

    /// Gives the role `name` the settings `settings`, in place of any it had.
    pub fn insert(&mut self, name: String, settings: RoleSettings)
        ensures
            final(self)@ == old(self)@.insert(name@, settings@),
    {
        proof {
            use_type_invariant(&*self);
        }
        let ghost before = self.entries.deep_view();
        let ghost key = name@;
        let ghost value = settings@;
        let i = index_of(&self.entries, &name);
        proof {
            lemma_index_of(before, key);
        }
        let mut taken = RoleSettingsMap { entries: Vec::new() };
        core::mem::swap(self, &mut taken);
        let mut entries = taken.entries;
        if i < entries.len() {
            entries.set(i, (name, settings));
        } else {
            entries.push((name, settings));
        }
        proof {
            let after = entries.deep_view();
            if i < before.len() {
                assert(after =~= before.update(i as int, (key, value)));
            } else {
                assert(after =~= before.push((key, value)));
            }
            assert(after[i as int] == (key, value));
            assert forall|j: int| 0 <= j < after.len() && j != i implies after[j] == before[j] by {}
            assert(spec_names_distinct(after));
            assert forall|k: Seq<char>|
                spec_entries_map(after).contains_key(k) == spec_entries_map(before).insert(
                    key,
                    value,
                ).contains_key(k) && (spec_entries_map(after).contains_key(k)
                    ==> spec_entries_map(after)[k] == spec_entries_map(before).insert(
                    key,
                    value,
                )[k]) by {
                lemma_entries_map(after, k);
                lemma_entries_map(before, k);
                lemma_index_of(after, k);
                lemma_index_of(before, k);
                let ia = spec_index_of(after, k);
                let ib = spec_index_of(before, k);
                if k == key {
                    lemma_entries_map_distinct(after, i as int);
                } else {
                    if ib < before.len() {
                        assert(before[ib].0 == k);
                        assert(after[ib] == before[ib]);
                        lemma_entries_map_distinct(after, ib);
                    }
                    if ia < after.len() {
                        assert(after[ia].0 == k);
                        assert(before[ia] == after[ia]);
                        assert(ib <= ia);
                    }
                }
            }
            assert(spec_entries_map(after) =~= spec_entries_map(before).insert(key, value));
        }
        *self = RoleSettingsMap { entries };
    }

    /// The entries, in the order in which their names were first given.
    pub fn into_entries(self) -> (entries: Vec<(String, RoleSettings)>)
        ensures
            spec_names_distinct(entries.deep_view()),
            spec_entries_map(entries.deep_view()) == self@,
    {
        proof {
            use_type_invariant(&self);
        }
        self.entries
    }
}

impl Clone for RoleSettingsMap {
    fn clone(&self) -> (copy: Self)
        ensures
            copy@ == self@,
    {
        proof {
            use_type_invariant(self);
        }
        let mut entries: Vec<(String, RoleSettings)> = Vec::with_capacity(self.entries.len());
        let mut i: usize = 0;
        while i < self.entries.len()
            invariant
                i <= self.entries.len(),
                entries.len() == i,
                forall|j: int|
                    0 <= j < i ==> entries@[j].deep_view() == self.entries@[j].deep_view(),
            decreases self.entries.len() - i,
        {
            let entry = &self.entries[i];
            entries.push((entry.0.clone(), entry.1.clone()));
            i = i + 1;
        }
        assert(entries.deep_view() =~= self.entries.deep_view());
        RoleSettingsMap { entries }
    }
}

/// A list of distinct names has as many names as entries.
pub proof fn lemma_entries_dom_len<T>(entries: Seq<(Seq<char>, T)>)
    requires
        spec_names_distinct(entries),
    ensures
        spec_entries_map(entries).dom().finite(),
        spec_entries_map(entries).dom().len() == entries.len(),
    decreases entries.len(),
{
    if entries.len() == 0 {
        assert(spec_entries_map(entries).dom() =~= Set::<Seq<char>>::empty());
    } else {
        let rest = entries.drop_last();
        let last = entries.last();
        assert forall|i: int, j: int|
            0 <= i < rest.len() && 0 <= j < rest.len() && i != j implies rest[i].0
            != rest[j].0 by {
            assert(rest[i] == entries[i]);
            assert(rest[j] == entries[j]);
        }
        lemma_entries_dom_len(rest);
        assert forall|k: Seq<char>|
            spec_entries_map(entries).dom().contains(k) == spec_entries_map(
                rest,
            ).dom().insert(last.0).contains(k) by {
            lemma_index_of(entries, k);
            lemma_index_of(rest, k);
            let ie = spec_index_of(entries, k);
            let ir = spec_index_of(rest, k);
            if ir < rest.len() {
                assert(rest[ir] == entries[ir]);
            }
            if ie < entries.len() - 1 {
                assert(rest[ie] == entries[ie]);
            }
        }
        assert(spec_entries_map(entries).dom() =~= spec_entries_map(rest).dom().insert(last.0));
        lemma_index_of(rest, last.0);
        let ir = spec_index_of(rest, last.0);
        if ir < rest.len() {
            assert(rest[ir] == entries[ir]);
            assert(false);
        }
        assert(!spec_entries_map(rest).dom().contains(last.0));
    }
}

} // verus!

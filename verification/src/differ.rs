//! The deployment differ: which roles of a new version keep their cell, which
//! get a fresh one, and which of the fresh ones supersede a cell whose data
//! is to be migrated.

use crate::bundle::{spec_roles_distinct, AppBundle, AppBundleView};
use crate::cell::{AppInfo, AppInfoView, CellId, CellIdView, CellInfo, CellInfoView};
use crate::error::{Error, ErrorView};
use crate::hash::DnaHash;
use crate::migrate::{
    dna_hash_for_app_bundle_role, settings_for, spec_role_hash, spec_settings_for,
    spec_unresolved_error, RoleHash,
};
use crate::named::{index_of, spec_index_of};
use crate::settings::{
    modifiers_of, opt_settings_clone, spec_modifiers_of, RoleSettings, RoleSettingsMap,
    RoleSettingsView,
};
use vstd::prelude::*;

verus! {

/// What a `RoleDecision` stands for.
pub enum RoleDecisionView {
    Reuse { cell_id: CellIdView },
    Migrate { settings: Option<RoleSettingsView>, superseded: CellIdView },
    Fresh { settings: Option<RoleSettingsView> },
}

/// What the differ concluded for one role of the new version.
#[derive(Debug, PartialEq, Eq)]
pub enum RoleDecision {
    /// The role is filled by an existing cell, which is carried over untouched:
    /// the one that the caller pinned, or the previous version's cell where
    /// the DNA did not change.
    Reuse { cell_id: CellId },
    /// The DNA changed: the role gets a fresh cell under the caller's
    /// settings, and the previous version's cell is superseded.
    Migrate { settings: Option<RoleSettings>, superseded: CellId },
    /// The role has no predecessor: it gets a fresh cell under the caller's
    /// settings.
    Fresh { settings: Option<RoleSettings> },
}

impl View for RoleDecision {
    type V = RoleDecisionView;

    open spec fn view(&self) -> RoleDecisionView {
        match self {
            RoleDecision::Reuse { cell_id } => RoleDecisionView::Reuse { cell_id: cell_id@ },
            RoleDecision::Migrate { settings, superseded } => RoleDecisionView::Migrate {
                settings: settings.deep_view(),
                superseded: superseded@,
            },
            RoleDecision::Fresh { settings } => RoleDecisionView::Fresh {
                settings: settings.deep_view(),
            },
        }
    }
}

impl DeepView for RoleDecision {
    type V = RoleDecisionView;

    open spec fn deep_view(&self) -> RoleDecisionView {
        self@
    }
}

/// The settings with which a decided role is installed, if any.
pub open spec fn spec_decision_settings(decision: RoleDecisionView) -> Option<RoleSettingsView> {
    match decision {
        RoleDecisionView::Reuse { cell_id } => Some(RoleSettingsView::UseExisting { cell_id }),
        RoleDecisionView::Migrate { settings, .. } => settings,
        RoleDecisionView::Fresh { settings } => settings,
    }
}

/// The cell that a decided role supersedes, if any.
pub open spec fn spec_decision_superseded(decision: RoleDecisionView) -> Option<CellIdView> {
    match decision {
        RoleDecisionView::Migrate { superseded, .. } => Some(superseded),
        _ => None,
    }
}

impl RoleDecision {
    /// The settings with which the role is installed, if any.
    pub fn settings(&self) -> (settings: Option<RoleSettings>)
        ensures
            settings.deep_view() == spec_decision_settings(self@),
    {
        match self {
            RoleDecision::Reuse { cell_id } => Some(
                RoleSettings::UseExisting { cell_id: cell_id.clone() },
            ),
            RoleDecision::Migrate { settings, .. } => opt_settings_clone(settings),
            RoleDecision::Fresh { settings } => opt_settings_clone(settings),
        }
    }

    /// The cell that the role's fresh cell supersedes, if any.
    pub fn superseded(&self) -> (cell: Option<CellId>)
        ensures
            cell.deep_view() == spec_decision_superseded(self@),
    {
        match self {
            RoleDecision::Migrate { superseded, .. } => Some(superseded.clone()),
            _ => None,
        }
    }
}

/// The first provisioned cell among the cells of a role.
pub open spec fn spec_provisioned_cell(cells: Seq<CellInfoView>) -> Option<CellIdView>
    decreases cells.len(),
{
    if cells.len() == 0 {
        None
    } else {
        match cells[0] {
            CellInfoView::Provisioned(id) => Some(id),
            _ => spec_provisioned_cell(cells.drop_first()),
        }
    }
}

/// The cell that an installed app, if one is given, provisioned for a role.
/// Clones and stem cells do not count.
pub open spec fn spec_existing_cell(existing: Option<AppInfoView>, role_name: Seq<char>) -> Option<
    CellIdView,
> {
    match existing {
        Some(app) => {
            let k = spec_index_of(app.cell_info, role_name);
            if k < app.cell_info.len() {
                spec_provisioned_cell(app.cell_info[k].1)
            } else {
                None
            }
        },
        None => None,
    }
}

/// What is decided of a role without a look at its DNA; `None` where the DNA
/// decides.
pub open spec fn spec_decide_without_hash(
    explicit: Option<RoleSettingsView>,
    existing_cell: Option<CellIdView>,
) -> Option<RoleDecisionView> {
    match explicit {
        Some(RoleSettingsView::UseExisting { cell_id }) => Some(
            RoleDecisionView::Reuse { cell_id },
        ),
        _ => match existing_cell {
            None => Some(RoleDecisionView::Fresh { settings: explicit }),
            Some(_) => None,
        },
    }
}

/// What is decided of a role whose previous cell is `existing_cell`, once the
/// hash of its new DNA is known.
pub open spec fn spec_decide_with_hash(
    explicit: Option<RoleSettingsView>,
    existing_cell: CellIdView,
    new_hash: Seq<u8>,
) -> RoleDecisionView {
    if new_hash == existing_cell.dna_hash {
        RoleDecisionView::Reuse { cell_id: existing_cell }
    } else {
        RoleDecisionView::Migrate { settings: explicit, superseded: existing_cell }
    }
}

/// The first provisioned cell among the cells of a role.
pub fn provisioned_cell(cells: &Vec<CellInfo>) -> (cell: Option<CellId>)
    ensures
        cell.deep_view() == spec_provisioned_cell(cells.deep_view()),
{
    let ghost view = cells.deep_view();
    let mut i: usize = 0;
    proof {
        assert(view.subrange(0, view.len() as int) =~= view);
    }
    while i < cells.len()
        invariant
            i <= cells.len(),
            view == cells.deep_view(),
            spec_provisioned_cell(view) == spec_provisioned_cell(
                view.subrange(i as int, view.len() as int),
            ),
        decreases cells.len() - i,
    {
        let ghost rest = view.subrange(i as int, view.len() as int);
        assert(rest[0] == cells@[i as int]@);
        assert(rest.drop_first() =~= view.subrange(i + 1, view.len() as int));
        if let CellInfo::Provisioned(id) = &cells[i] {
            return Some(id.clone());
        }
        i = i + 1;
    }
    None
}

/// The cell that an installed app, if one is given, provisioned for a role.
pub fn existing_cell(existing: Option<&AppInfo>, role_name: &String) -> (cell: Option<CellId>)
    ensures
        cell.deep_view() == spec_existing_cell(existing.deep_view(), role_name@),
{
    match existing {
        Some(app) => {
            let k = index_of(&app.cell_info, role_name);
            if k < app.cell_info.len() {
                assert(app@.cell_info[k as int].1 == app.cell_info@[k as int].1.deep_view());
                provisioned_cell(&app.cell_info[k].1)
            } else {
                None
            }
        },
        None => None,
    }
}

/// Decides a role without a look at its DNA, where that can be done: a role
/// that the caller pinned to a cell keeps that cell, and a role without a
/// provisioned predecessor gets a fresh cell. `None` says that the DNA decides.
pub fn decide_without_hash(explicit: &Option<RoleSettings>, existing_cell: &Option<CellId>) -> (
    decision: Option<RoleDecision>)
    ensures
        decision.deep_view() == spec_decide_without_hash(
            explicit.deep_view(),
            existing_cell.deep_view(),
        ),
{
    if let Some(RoleSettings::UseExisting { cell_id }) = explicit {
        return Some(RoleDecision::Reuse { cell_id: cell_id.clone() });
    }
    match existing_cell {
        None => Some(RoleDecision::Fresh { settings: opt_settings_clone(explicit) }),
        Some(_) => None,
    }
}

/// Decides a role by the hash of its new DNA: the previous cell is kept where
/// the hash is that of its DNA, and superseded where it is not. Settings that
/// the caller gave for a role whose DNA changed are kept and do not take the
/// role off the list of superseded cells.
pub fn decide_with_hash(
    explicit: Option<RoleSettings>,
    existing_cell: CellId,
    new_hash: &DnaHash,
) -> (decision: RoleDecision)
    ensures
        decision@ == spec_decide_with_hash(explicit.deep_view(), existing_cell@, new_hash@),
{
    if new_hash.equals(existing_cell.dna_hash()) {
        RoleDecision::Reuse { cell_id: existing_cell }
    } else {
        RoleDecision::Migrate { settings: explicit, superseded: existing_cell }
    }
}

/// What the differ concludes for the `i`-th role of the bundle, or the error
/// that it stops with at that role.
pub open spec fn spec_role_decision(
    bundle: AppBundleView,
    existing: Option<AppInfoView>,
    explicit: Option<Map<Seq<char>, RoleSettingsView>>,
    i: int,
) -> Result<RoleDecisionView, ErrorView> {
    let name = bundle.roles[i].name;
    let settings = spec_settings_for(explicit, name);
    let cell = spec_existing_cell(existing, name);
    match spec_decide_without_hash(settings, cell) {
        Some(decision) => Ok(decision),
        None => match spec_role_hash(bundle, name, spec_modifiers_of(settings)) {
            RoleHash::Hash(h) => Ok(spec_decide_with_hash(settings, cell->0, h)),
            other => Err(spec_unresolved_error(name, other)),
        },
    }
}

/// Decides one role of the new version: by the caller's settings and the
/// previous version's cells where they settle it, else by the hash of the
/// role's new DNA.
fn decide_role(
    app_bundle: &AppBundle,
    existing: Option<&AppInfo>,
    explicit: &Option<RoleSettingsMap>,
    i: usize,
) -> (decision: Result<RoleDecision, Error>)
    requires
        i < app_bundle@.roles.len(),
    ensures
        match decision {
            Ok(d) => spec_role_decision(
                app_bundle@,
                existing.deep_view(),
                explicit.deep_view(),
                i as int,
            ) == Ok::<RoleDecisionView, ErrorView>(d@),
            Err(e) => spec_role_decision(
                app_bundle@,
                existing.deep_view(),
                explicit.deep_view(),
                i as int,
            ) == Err::<RoleDecisionView, ErrorView>(e@),
        },
{
    let roles = app_bundle.app_roles();
    let role_name = &roles[i].name;
    assert(app_bundle@.roles[i as int].name == role_name@) by {
        assert(roles.deep_view()[i as int] == roles@[i as int]@);
    }
    let found = settings_for(explicit, role_name);
    let settings = match found {
        Some(s) => Some(s.clone()),
        None => None,
    };
    let cell = existing_cell(existing, role_name);
    if let Some(decision) = decide_without_hash(&settings, &cell) {
        return Ok(decision);
    }
    let Some(cell) = cell else {
        return Ok(RoleDecision::Fresh { settings });
    };
    let modifiers = modifiers_of(found);
    match dna_hash_for_app_bundle_role(app_bundle, role_name, modifiers) {
        Ok(Some(new_hash)) => Ok(decide_with_hash(settings, cell, &new_hash)),
        Ok(None) => Err(
            Error::MigrateAppError(
                crate::error::MigrateAppError::InvalidDnaHashError(role_name.clone()),
            ),
        ),
        Err(e) => Err(e),
    }
}

/// The entry that the differ makes in the settings map for the `i`-th role,
/// if it makes one.
pub open spec fn spec_role_entry(
    bundle: AppBundleView,
    existing: Option<AppInfoView>,
    explicit: Option<Map<Seq<char>, RoleSettingsView>>,
    i: int,
) -> Option<RoleSettingsView> {
    match spec_role_decision(bundle, existing, explicit, i) {
        Ok(decision) => spec_decision_settings(decision),
        Err(_) => None,
    }
}

/// The migration pair that the differ lists for the `i`-th role, if it lists
/// one: the role's name and the cell that is superseded.
pub open spec fn spec_role_pair(
    bundle: AppBundleView,
    existing: Option<AppInfoView>,
    explicit: Option<Map<Seq<char>, RoleSettingsView>>,
    i: int,
) -> Option<(Seq<char>, CellIdView)> {
    match spec_role_decision(bundle, existing, explicit, i) {
        Ok(RoleDecisionView::Migrate { superseded, .. }) => Some(
            (bundle.roles[i].name, superseded),
        ),
        _ => None,
    }
}

/// The settings map that the differ has filled after the first `n` roles.
pub open spec fn spec_diff_settings(
    bundle: AppBundleView,
    existing: Option<AppInfoView>,
    explicit: Option<Map<Seq<char>, RoleSettingsView>>,
    n: int,
) -> Map<Seq<char>, RoleSettingsView>
    decreases n,
{
    if n <= 0 {
        Map::empty()
    } else {
        let before = spec_diff_settings(bundle, existing, explicit, n - 1);
        match spec_role_entry(bundle, existing, explicit, n - 1) {
            Some(settings) => before.insert(bundle.roles[n - 1].name, settings),
            None => before,
        }
    }
}

/// The migration pairs that the differ has listed after the first `n` roles,
/// in manifest order.
pub open spec fn spec_diff_pairs(
    bundle: AppBundleView,
    existing: Option<AppInfoView>,
    explicit: Option<Map<Seq<char>, RoleSettingsView>>,
    n: int,
) -> Seq<(Seq<char>, CellIdView)>
    decreases n,
{
    if n <= 0 {
        Seq::empty()
    } else {
        let before = spec_diff_pairs(bundle, existing, explicit, n - 1);
        match spec_role_pair(bundle, existing, explicit, n - 1) {
            Some(pair) => before.push(pair),
            None => before,
        }
    }
}

/// The first role from `from` on at which the differ stops with an error; the
/// number of roles when there is none.
pub open spec fn spec_first_undecided(
    bundle: AppBundleView,
    existing: Option<AppInfoView>,
    explicit: Option<Map<Seq<char>, RoleSettingsView>>,
    from: int,
) -> int
    decreases bundle.roles.len() - from,
{
    if from >= bundle.roles.len() {
        bundle.roles.len() as int
    } else if spec_role_decision(bundle, existing, explicit, from) is Err {
        from
    } else {
        spec_first_undecided(bundle, existing, explicit, from + 1)
    }
}

/// What the differ returns: the settings with which the new version is to be
/// installed and the migration pairs, or the error of the first role at which
/// it stops.
pub open spec fn spec_diff(
    bundle: AppBundleView,
    existing: Option<AppInfoView>,
    explicit: Option<Map<Seq<char>, RoleSettingsView>>,
) -> Result<(Map<Seq<char>, RoleSettingsView>, Seq<(Seq<char>, CellIdView)>), ErrorView> {
    let k = spec_first_undecided(bundle, existing, explicit, 0);
    let n = bundle.roles.len() as int;
    if k >= n {
        Ok((spec_diff_settings(bundle, existing, explicit, n), spec_diff_pairs(bundle, existing, explicit, n)))
    } else {
        Err(spec_role_decision(bundle, existing, explicit, k)->Err_0)
    }
}

/// Compares a new version of an app with an installed one, role by role in
/// manifest order.
///
/// Returns the settings with which the new version is to be installed, and the
/// roles whose cell is superseded, each with the superseded cell. A role that
/// is decided without settings gets no entry in the map: the bundle's own
/// defaults hold for it.
pub fn diff(
    app_bundle: &AppBundle,
    existing: Option<&AppInfo>,
    explicit: &Option<RoleSettingsMap>,
) -> (result: Result<(RoleSettingsMap, Vec<(String, CellId)>), Error>)
    ensures
        match result {
            Ok((settings, pairs)) => spec_diff(
                app_bundle@,
                existing.deep_view(),
                explicit.deep_view(),
            ) == Ok::<
                (Map<Seq<char>, RoleSettingsView>, Seq<(Seq<char>, CellIdView)>),
                ErrorView,
            >((settings@, pairs.deep_view())),
            Err(e) => spec_diff(app_bundle@, existing.deep_view(), explicit.deep_view()) == Err::<
                (Map<Seq<char>, RoleSettingsView>, Seq<(Seq<char>, CellIdView)>),
                ErrorView,
            >(e@),
        },
{
    let roles = app_bundle.app_roles();
    let ghost bundle = app_bundle@;
    let ghost old_app = existing.deep_view();
    let ghost given = explicit.deep_view();
    let mut roles_settings = RoleSettingsMap::new();
    let mut migrated: Vec<(String, CellId)> = Vec::new();
    let mut i: usize = 0;
    while i < roles.len()
        invariant
            i <= roles.len(),
            bundle == app_bundle@,
            old_app == existing.deep_view(),
            given == explicit.deep_view(),
            roles.deep_view() == bundle.roles,
            spec_first_undecided(bundle, old_app, given, 0) == spec_first_undecided(
                bundle,
                old_app,
                given,
                i as int,
            ),
            roles_settings@ == spec_diff_settings(bundle, old_app, given, i as int),
            migrated.deep_view() == spec_diff_pairs(bundle, old_app, given, i as int),
        decreases roles.len() - i,
    {
        let role_name = &roles[i].name;
        assert(bundle.roles[i as int].name == role_name@) by {
            assert(roles.deep_view()[i as int] == roles@[i as int]@);
        }
        let decision = match decide_role(app_bundle, existing, explicit, i) {
            Ok(d) => d,
            Err(e) => {
                return Err(e);
            },
        };
        if let Some(settings) = decision.settings() {
            roles_settings.insert(role_name.clone(), settings);
        }
        if let Some(superseded) = decision.superseded() {
            let ghost before = migrated.deep_view();
            migrated.push((role_name.clone(), superseded));
            assert(migrated.deep_view() =~= before.push((role_name@, superseded@)));
        }
        i = i + 1;
    }
    Ok((roles_settings, migrated))
}

/// Where the differ stops at no role from `from` on, it decides each of them.
pub proof fn lemma_all_decided(
    bundle: AppBundleView,
    existing: Option<AppInfoView>,
    explicit: Option<Map<Seq<char>, RoleSettingsView>>,
    from: int,
)
    requires
        0 <= from,
        spec_first_undecided(bundle, existing, explicit, from) >= bundle.roles.len(),
    ensures
        forall|j: int|
            from <= j < bundle.roles.len() ==> spec_role_decision(bundle, existing, explicit, j)
                is Ok,
    decreases bundle.roles.len() - from,
{
    if from < bundle.roles.len() {
        lemma_all_decided(bundle, existing, explicit, from + 1);
    }
}

/// The settings map holds, for each role, the entry that the differ makes for
/// it, and holds entries for roles only.
pub proof fn lemma_diff_settings_entry(
    bundle: AppBundleView,
    existing: Option<AppInfoView>,
    explicit: Option<Map<Seq<char>, RoleSettingsView>>,
    n: int,
)
    requires
        spec_roles_distinct(bundle.roles),
        0 <= n <= bundle.roles.len(),
    ensures
        forall|name: Seq<char>| #[trigger]
            spec_diff_settings(bundle, existing, explicit, n).contains_key(name) ==> exists|j: int|
                0 <= j < n && bundle.roles[j].name == name,
        forall|i: int|
            0 <= i < n ==> (match #[trigger] spec_role_entry(bundle, existing, explicit, i) {
                Some(s) => spec_diff_settings(bundle, existing, explicit, n).contains_key(
                    bundle.roles[i].name,
                ) && spec_diff_settings(bundle, existing, explicit, n)[bundle.roles[i].name] == s,
                None => !spec_diff_settings(bundle, existing, explicit, n).contains_key(
                    bundle.roles[i].name,
                ),
            }),
    decreases n,
{
    if n > 0 {
        lemma_diff_settings_entry(bundle, existing, explicit, n - 1);
        let before = spec_diff_settings(bundle, existing, explicit, n - 1);
        let after = spec_diff_settings(bundle, existing, explicit, n);
        let last = bundle.roles[n - 1].name;
        assert forall|name: Seq<char>| #[trigger] after.contains_key(name) implies exists|j: int|
            0 <= j < n && bundle.roles[j].name == name by {
            if before.contains_key(name) {
                let j = choose|j: int| 0 <= j < n - 1 && bundle.roles[j].name == name;
                assert(0 <= j < n && bundle.roles[j].name == name);
            } else {
                assert(name == last);
                assert(0 <= n - 1 < n && bundle.roles[n - 1].name == name);
            }
        }
        assert(!before.contains_key(last)) by {
            if before.contains_key(last) {
                let j = choose|j: int| 0 <= j < n - 1 && bundle.roles[j].name == last;
                assert(bundle.roles[j].name == bundle.roles[n - 1].name);
            }
        }
        assert forall|i: int| 0 <= i < n - 1 implies bundle.roles[i].name != last by {}
    }
}

/// The migration pairs are the pairs that the differ lists for the roles.
pub proof fn lemma_diff_pairs_entry(
    bundle: AppBundleView,
    existing: Option<AppInfoView>,
    explicit: Option<Map<Seq<char>, RoleSettingsView>>,
    n: int,
)
    requires
        0 <= n <= bundle.roles.len(),
    ensures
        forall|k: int|
            0 <= k < spec_diff_pairs(bundle, existing, explicit, n).len() ==> exists|j: int|
                0 <= j < n && spec_role_pair(bundle, existing, explicit, j) == Some(
                    #[trigger] spec_diff_pairs(bundle, existing, explicit, n)[k],
                ),
        forall|i: int|
            0 <= i < n && (#[trigger] spec_role_pair(bundle, existing, explicit, i)) is Some
                ==> exists|k: int|
                0 <= k < spec_diff_pairs(bundle, existing, explicit, n).len() && Some(
                    #[trigger] spec_diff_pairs(bundle, existing, explicit, n)[k],
                ) == spec_role_pair(bundle, existing, explicit, i),
    decreases n,
{
    if n > 0 {
        lemma_diff_pairs_entry(bundle, existing, explicit, n - 1);
        let before = spec_diff_pairs(bundle, existing, explicit, n - 1);
        let after = spec_diff_pairs(bundle, existing, explicit, n);
        assert forall|k: int| 0 <= k < after.len() implies exists|j: int|
            0 <= j < n && spec_role_pair(bundle, existing, explicit, j) == Some(
                #[trigger] after[k],
            ) by {
            if k < before.len() {
                assert(after[k] == before[k]);
                let j = choose|j: int|
                    0 <= j < n - 1 && spec_role_pair(bundle, existing, explicit, j) == Some(
                        before[k],
                    );
                assert(0 <= j < n);
            } else {
                assert(spec_role_pair(bundle, existing, explicit, n - 1) == Some(after[k]));
            }
        }
        assert forall|i: int|
            0 <= i < n && (#[trigger] spec_role_pair(bundle, existing, explicit, i))
                is Some implies exists|k: int|
            0 <= k < after.len() && Some(#[trigger] after[k]) == spec_role_pair(
                bundle,
                existing,
                explicit,
                i,
            ) by {
            if i < n - 1 {
                let k = choose|k: int|
                    0 <= k < before.len() && Some(#[trigger] before[k]) == spec_role_pair(
                        bundle,
                        existing,
                        explicit,
                        i,
                    );
                assert(after[k] == before[k]);
            } else {
                assert(Some(after[after.len() - 1]) == spec_role_pair(
                    bundle,
                    existing,
                    explicit,
                    i,
                ));
            }
        }
    }
}

/// Reuse of unchanged roles. Take a role that the caller did not pin to a
/// cell and for which the previous version provisioned a cell. If the role's
/// DNA in the new bundle, under the caller's modifiers, has the hash of that
/// cell's DNA, then the differ installs the role on that very cell and does
/// not list the role for migration.
pub proof fn law_unchanged_role_is_reused(
    bundle: AppBundleView,
    existing: Option<AppInfoView>,
    explicit: Option<Map<Seq<char>, RoleSettingsView>>,
    i: int,
    cell: CellIdView,
)
    requires
        spec_roles_distinct(bundle.roles),
        0 <= i < bundle.roles.len(),
        !(spec_settings_for(explicit, bundle.roles[i].name) matches Some(
            RoleSettingsView::UseExisting { .. },
        )),
        spec_existing_cell(existing, bundle.roles[i].name) == Some(cell),
        spec_role_hash(
            bundle,
            bundle.roles[i].name,
            spec_modifiers_of(spec_settings_for(explicit, bundle.roles[i].name)),
        ) == RoleHash::Hash(cell.dna_hash),
        spec_diff(bundle, existing, explicit) is Ok,
    ensures
        spec_diff(bundle, existing, explicit)->Ok_0.0.contains_key(bundle.roles[i].name),
        spec_diff(bundle, existing, explicit)->Ok_0.0[bundle.roles[i].name]
            == (RoleSettingsView::UseExisting { cell_id: cell }),
        forall|k: int|
            0 <= k < spec_diff(bundle, existing, explicit)->Ok_0.1.len() ==> (#[trigger] spec_diff(
                bundle,
                existing,
                explicit,
            )->Ok_0.1[k]).0 != bundle.roles[i].name,
{
    let n = bundle.roles.len() as int;
    let pairs = spec_diff_pairs(bundle, existing, explicit, n);
    lemma_diff_settings_entry(bundle, existing, explicit, n);
    lemma_diff_pairs_entry(bundle, existing, explicit, n);
    assert(spec_role_entry(bundle, existing, explicit, i) == Some(
        RoleSettingsView::UseExisting { cell_id: cell },
    ));
    assert forall|k: int| 0 <= k < pairs.len() implies (#[trigger] pairs[k]).0
        != bundle.roles[i].name by {
        let j = choose|j: int|
            0 <= j < n && spec_role_pair(bundle, existing, explicit, j) == Some(pairs[k]);
        if pairs[k].0 == bundle.roles[i].name {
            assert(bundle.roles[j].name == bundle.roles[i].name);
            assert(j == i);
        }
    }
}

/// Pairing of changed roles. Take a role that the caller did not pin to a cell
/// and for which the previous version provisioned a cell. If the role's DNA in
/// the new bundle, under the caller's modifiers, has another hash than that
/// cell's DNA, then the differ lists the role with that cell as a migration
/// pair, and installs the role with the caller's settings for it, or with none
/// where the caller gave none.
pub proof fn law_changed_role_is_paired(
    bundle: AppBundleView,
    existing: Option<AppInfoView>,
    explicit: Option<Map<Seq<char>, RoleSettingsView>>,
    i: int,
    cell: CellIdView,
    new_hash: Seq<u8>,
)
    requires
        spec_roles_distinct(bundle.roles),
        0 <= i < bundle.roles.len(),
        !(spec_settings_for(explicit, bundle.roles[i].name) matches Some(
            RoleSettingsView::UseExisting { .. },
        )),
        spec_existing_cell(existing, bundle.roles[i].name) == Some(cell),
        spec_role_hash(
            bundle,
            bundle.roles[i].name,
            spec_modifiers_of(spec_settings_for(explicit, bundle.roles[i].name)),
        ) == RoleHash::Hash(new_hash),
        new_hash != cell.dna_hash,
        spec_diff(bundle, existing, explicit) is Ok,
    ensures
        exists|k: int|
            0 <= k < spec_diff(bundle, existing, explicit)->Ok_0.1.len() && #[trigger] spec_diff(
                bundle,
                existing,
                explicit,
            )->Ok_0.1[k] == (bundle.roles[i].name, cell),
        match spec_settings_for(explicit, bundle.roles[i].name) {
            Some(s) => spec_diff(bundle, existing, explicit)->Ok_0.0.contains_key(
                bundle.roles[i].name,
            ) && spec_diff(bundle, existing, explicit)->Ok_0.0[bundle.roles[i].name] == s,
            None => !spec_diff(bundle, existing, explicit)->Ok_0.0.contains_key(
                bundle.roles[i].name,
            ),
        },
{
    let n = bundle.roles.len() as int;
    let pairs = spec_diff_pairs(bundle, existing, explicit, n);
    lemma_diff_settings_entry(bundle, existing, explicit, n);
    lemma_diff_pairs_entry(bundle, existing, explicit, n);
    assert(spec_role_pair(bundle, existing, explicit, i) == Some((bundle.roles[i].name, cell)));
    assert(spec_role_entry(bundle, existing, explicit, i) == spec_settings_for(
        explicit,
        bundle.roles[i].name,
    ));
    let k = choose|k: int|
        0 <= k < pairs.len() && Some(#[trigger] pairs[k]) == spec_role_pair(
            bundle,
            existing,
            explicit,
            i,
        );
    assert(spec_diff(bundle, existing, explicit)->Ok_0.1[k] == (bundle.roles[i].name, cell));
}

/// Every role of the new version gets exactly one decision: where the differ
/// succeeds, it decided each role; the role's entry in the settings map is the
/// one of that decision, and the role stands among the migration pairs, with
/// the cell it supersedes, exactly where the decision was to migrate.
pub proof fn law_every_role_is_decided(
    bundle: AppBundleView,
    existing: Option<AppInfoView>,
    explicit: Option<Map<Seq<char>, RoleSettingsView>>,
    i: int,
)
    requires
        spec_roles_distinct(bundle.roles),
        0 <= i < bundle.roles.len(),
        spec_diff(bundle, existing, explicit) is Ok,
    ensures
        spec_role_decision(bundle, existing, explicit, i) is Ok,
        match spec_decision_settings(spec_role_decision(bundle, existing, explicit, i)->Ok_0) {
            Some(s) => spec_diff(bundle, existing, explicit)->Ok_0.0.contains_key(
                bundle.roles[i].name,
            ) && spec_diff(bundle, existing, explicit)->Ok_0.0[bundle.roles[i].name] == s,
            None => !spec_diff(bundle, existing, explicit)->Ok_0.0.contains_key(
                bundle.roles[i].name,
            ),
        },
        match spec_decision_superseded(spec_role_decision(bundle, existing, explicit, i)->Ok_0) {
            Some(cell) => exists|k: int|
                0 <= k < spec_diff(bundle, existing, explicit)->Ok_0.1.len() && #[trigger] spec_diff(
                    bundle,
                    existing,
                    explicit,
                )->Ok_0.1[k] == (bundle.roles[i].name, cell),
            None => forall|k: int|
                0 <= k < spec_diff(bundle, existing, explicit)->Ok_0.1.len() ==> (#[trigger] spec_diff(
                    bundle,
                    existing,
                    explicit,
                )->Ok_0.1[k]).0 != bundle.roles[i].name,
        },
{
    let n = bundle.roles.len() as int;
    let pairs = spec_diff_pairs(bundle, existing, explicit, n);
    lemma_all_decided(bundle, existing, explicit, 0);
    lemma_diff_settings_entry(bundle, existing, explicit, n);
    lemma_diff_pairs_entry(bundle, existing, explicit, n);
    let decision = spec_role_decision(bundle, existing, explicit, i)->Ok_0;
    assert(spec_role_entry(bundle, existing, explicit, i) == spec_decision_settings(decision));
    match spec_decision_superseded(decision) {
        Some(cell) => {
            assert(spec_role_pair(bundle, existing, explicit, i) == Some(
                (bundle.roles[i].name, cell),
            ));
            let k = choose|k: int|
                0 <= k < pairs.len() && Some(#[trigger] pairs[k]) == spec_role_pair(
                    bundle,
                    existing,
                    explicit,
                    i,
                );
            assert(spec_diff(bundle, existing, explicit)->Ok_0.1[k] == (
                bundle.roles[i].name,
                cell,
            ));
        },
        None => {
            assert(spec_role_pair(bundle, existing, explicit, i) is None);
            assert forall|k: int| 0 <= k < pairs.len() implies (#[trigger] pairs[k]).0
                != bundle.roles[i].name by {
                let j = choose|j: int|
                    0 <= j < n && spec_role_pair(bundle, existing, explicit, j) == Some(
                        pairs[k],
                    );
                if pairs[k].0 == bundle.roles[i].name {
                    assert(bundle.roles[j].name == bundle.roles[i].name);
                    assert(j == i);
                }
            }
        },
    }
}

} // verus!

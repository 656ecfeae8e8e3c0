//! Migration of an installed app to a new version of its bundle.

use crate::bytes::lemma_bytes_deep_view;
use crate::bundle::{
    lemma_role_index, spec_role_index, AppBundle, AppBundleView, AppRoleManifest, DnaLocation,
    DnaLocationView,
};
use crate::cell::{AppInfo, AppInfoView, CellId, CellIdView};
use crate::control::{spec_unexpected_response, Request, RequestView, Response, ResponseView};
use crate::differ::{diff, spec_diff};
use crate::error::{Error, ErrorView, MigrateAppError, MigrateAppErrorView};
use crate::invoker::{
    law_each_pair_once_each_zome_once, run_migrations, spec_advance, spec_all_requests,
    spec_all_responses, spec_answered, spec_invoker_run, spec_invoker_step, spec_plan,
    spec_script_fits, unexpected_response, Invoker, InvokerStep, InvokerStepView, InvokerView,
    RoleMigration, RoleMigrationView, RoleScript,
};
use crate::hash::{spec_dna_hash, DnaHash};
use crate::named::{index_of, spec_index_of};
use crate::settings::{
    modifiers_of, spec_modifiers_of, DnaModifiersOpt, ModifiersView, RoleSettingsMap,
    RoleSettingsView,
};
use crate::text::strings_equal;
use vstd::prelude::*;

verus! {

/// The packed DNA bundle that an app bundle carries for a role: that of the
/// role of this name, if there is one, whose DNA is bundled under a path at
/// which the bundle holds a resource.
pub open spec fn spec_bundled_dna(bundle: AppBundleView, role_name: Seq<char>) -> Option<Seq<u8>> {
    let i = spec_role_index(bundle.roles, role_name);
    if i < bundle.roles.len() {
        match bundle.roles[i].location {
            Some(DnaLocationView::Bundled(path)) => {
                let k = spec_index_of(bundle.resources, path);
                if k < bundle.resources.len() {
                    Some(bundle.resources[k].1)
                } else {
                    None
                }
            },
            _ => None,
        }
    } else {
        None
    }
}

/// What the bundle says of the DNA hash of a role.
pub enum RoleHash {
    /// No such role, or its DNA is not in the bundle.
    NotFound,
    /// The DNA is in the bundle, but cannot be unpacked or is not sound.
    Unreadable,
    /// The hash of the role's DNA, modifiers applied.
    Hash(Seq<u8>),
}

/// The DNA hash of a role of a bundle under the given overrides.
pub open spec fn spec_role_hash(
    bundle: AppBundleView,
    role_name: Seq<char>,
    modifiers: Option<ModifiersView>,
) -> RoleHash {
    match spec_bundled_dna(bundle, role_name) {
        None => RoleHash::NotFound,
        Some(dna) => {
            let hash = match modifiers {
                Some(m) => spec_dna_hash(dna, m.network_seed, m.properties),
                None => spec_dna_hash(dna, None, None),
            };
            match hash {
                Some(h) => RoleHash::Hash(h),
                None => RoleHash::Unreadable,
            }
        },
    }
}

/// Finds the first role that bears `name`.
fn role_index(roles: &Vec<AppRoleManifest>, name: &String) -> (index: usize)
    ensures
        index == spec_role_index(roles.deep_view(), name@),
        index <= roles.len(),
{
    let ghost view = roles.deep_view();
    proof {
        lemma_role_index(view, name@);
    }
    let mut i: usize = 0;
    while i < roles.len()
        invariant
            i <= roles.len(),
            view == roles.deep_view(),
            forall|j: int| 0 <= j < i ==> view[j].name != name@,
            0 <= spec_role_index(view, name@) <= view.len(),
            spec_role_index(view, name@) < view.len() ==> view[spec_role_index(view, name@)].name
                == name@,
            forall|j: int| 0 <= j < spec_role_index(view, name@) ==> view[j].name != name@,
        decreases roles.len() - i,
    {
        assert(view[i as int].name == roles@[i as int].name@);
        if strings_equal(&roles[i].name, name) {
            return i;
        }
        i = i + 1;
    }
    i
}

/// The packed DNA bundle that the app bundle carries for a role.
pub fn bundled_dna<'a>(bundle: &'a AppBundle, role_name: &String) -> (dna: Option<&'a Vec<u8>>)
    ensures
        match dna {
            Some(d) => spec_bundled_dna(bundle@, role_name@) == Some(d@),
            None => spec_bundled_dna(bundle@, role_name@) is None,
        },
{
    let roles = bundle.app_roles();
    let resources = bundle.bundled_resources();
    let i = role_index(roles, role_name);
    if i >= roles.len() {
        return None;
    }
    assert(roles.deep_view()[i as int] == roles@[i as int]@);
    match &roles[i].dna.location {
        Some(DnaLocation::Bundled(path)) => {
            let k = index_of(resources, path);
            if k < resources.len() {
                proof {
                    lemma_bytes_deep_view(&resources@[k as int].1);
                }
                Some(&resources[k].1)
            } else {
                None
            }
        },
        _ => None,
    }
}

/// Computes the DNA hash that a role of the bundle gets under the given
/// overrides of its modifiers.
///
/// `Ok(None)` says that the bundle does not settle the hash: it has no role of
/// this name, or the role's DNA is not among its resources. An error says that
/// the DNA is there and cannot be read.
pub fn dna_hash_for_app_bundle_role(
    app_bundle: &AppBundle,
    role_name: &String,
    dna_modifiers: Option<DnaModifiersOpt>,
) -> (hash: Result<Option<DnaHash>, Error>)
    ensures
        match spec_role_hash(app_bundle@, role_name@, dna_modifiers.deep_view()) {
            RoleHash::NotFound => hash matches Ok(None),
            RoleHash::Unreadable => hash matches Err(e) && e@ == ErrorView::DnaError,
            RoleHash::Hash(h) => hash matches Ok(Some(x)) && x@ == h,
        },
{
    let Some(dna) = bundled_dna(app_bundle, role_name) else {
        return Ok(None);
    };
    let computed = match &dna_modifiers {
        Some(m) => {
            proof {
                if let Some(p) = &m.properties {
                    lemma_bytes_deep_view(p);
                }
            }
            DnaHash::of_dna_bundle(dna, &m.network_seed, &m.properties)
        },
        None => DnaHash::of_dna_bundle(dna, &None, &None),
    };
    match computed {
        Ok(h) => Ok(Some(h)),
        Err(e) => Err(Error::DnaError(e)),
    }
}

/// The settings that a settings map, if one is given, holds for a role.
pub open spec fn spec_settings_for(
    settings: Option<Map<Seq<char>, RoleSettingsView>>,
    role_name: Seq<char>,
) -> Option<RoleSettingsView> {
    match settings {
        Some(map) => if map.contains_key(role_name) {
            Some(map[role_name])
        } else {
            None
        },
        None => None,
    }
}

/// The DNA hash of the `i`-th role of the bundle, under the modifiers that the
/// settings give that role.
pub open spec fn spec_resolved(
    bundle: AppBundleView,
    settings: Option<Map<Seq<char>, RoleSettingsView>>,
    i: int,
) -> RoleHash {
    let name = bundle.roles[i].name;
    spec_role_hash(bundle, name, spec_modifiers_of(spec_settings_for(settings, name)))
}

/// The first role from `from` on whose hash the bundle does not yield; the
/// number of roles when there is none.
pub open spec fn spec_first_unresolved(
    bundle: AppBundleView,
    settings: Option<Map<Seq<char>, RoleSettingsView>>,
    from: int,
) -> int
    decreases bundle.roles.len() - from,
{
    if from >= bundle.roles.len() {
        bundle.roles.len() as int
    } else if !(spec_resolved(bundle, settings, from) is Hash) {
        from
    } else {
        spec_first_unresolved(bundle, settings, from + 1)
    }
}

/// The error that stands for a role whose hash the bundle does not yield.
pub open spec fn spec_unresolved_error(role_name: Seq<char>, found: RoleHash) -> ErrorView {
    match found {
        RoleHash::Unreadable => ErrorView::DnaError,
        _ => ErrorView::MigrateAppError(MigrateAppErrorView::InvalidDnaHashError(role_name)),
    }
}

/// The DNA hashes of all roles of a bundle, in manifest order, or the error
/// of the first role that has none.
pub open spec fn spec_resolve_all(
    bundle: AppBundleView,
    settings: Option<Map<Seq<char>, RoleSettingsView>>,
) -> Result<Seq<Seq<u8>>, ErrorView> {
    let k = spec_first_unresolved(bundle, settings, 0);
    if k >= bundle.roles.len() {
        Ok(Seq::new(bundle.roles.len(), |i: int| spec_resolved(bundle, settings, i)->Hash_0))
    } else {
        Err(spec_unresolved_error(bundle.roles[k].name, spec_resolved(bundle, settings, k)))
    }
}

/// The settings that an optional settings map holds for a role.
pub fn settings_for<'a>(settings: &'a Option<RoleSettingsMap>, role_name: &String) -> (found:
    Option<&'a crate::settings::RoleSettings>)
    ensures
        found.deep_view() == spec_settings_for(settings.deep_view(), role_name@),
{
    match settings {
        Some(map) => map.get(role_name),
        None => None,
    }
}

/// Computes the DNA hashes of all roles of the bundle, in the order of its
/// manifest, each under the modifiers that `roles_settings` gives the role.
///
/// Fails at the first role without a hash: with `InvalidDnaHashError` and the
/// role's name where the bundle does not settle the hash, with `DnaError`
/// where the role's DNA cannot be read.
pub fn dna_hash_for_app_bundle(
    app_bundle: &AppBundle,
    roles_settings: &Option<RoleSettingsMap>,
) -> (hashes: Result<Vec<DnaHash>, Error>)
    ensures
        match hashes {
            Ok(v) => spec_resolve_all(app_bundle@, roles_settings.deep_view()) == Ok::<
                Seq<Seq<u8>>,
                ErrorView,
            >(v.deep_view()),
            Err(e) => spec_resolve_all(app_bundle@, roles_settings.deep_view()) == Err::<
                Seq<Seq<u8>>,
                ErrorView,
            >(e@),
        },
{
    let roles = app_bundle.app_roles();
    let ghost bundle = app_bundle@;
    let ghost settings = roles_settings.deep_view();
    let mut dna_hashes: Vec<DnaHash> = Vec::new();
    let mut i: usize = 0;
    while i < roles.len()
        invariant
            i <= roles.len(),
            bundle == app_bundle@,
            settings == roles_settings.deep_view(),
            roles.deep_view() == bundle.roles,
            dna_hashes.len() == i,
            spec_first_unresolved(bundle, settings, 0) == spec_first_unresolved(
                bundle,
                settings,
                i as int,
            ),
            forall|j: int|
                0 <= j < i ==> spec_resolved(bundle, settings, j) == RoleHash::Hash(
                    dna_hashes@[j]@,
                ),
        decreases roles.len() - i,
    {
        let role_name = &roles[i].name;
        assert(bundle.roles[i as int].name == role_name@) by {
            assert(roles.deep_view()[i as int] == roles@[i as int]@);
        }
        let modifiers = modifiers_of(settings_for(roles_settings, role_name));
        match dna_hash_for_app_bundle_role(app_bundle, role_name, modifiers) {
            Ok(Some(dna_hash)) => {
                dna_hashes.push(dna_hash);
            },
            Ok(None) => {
                return Err(
                    Error::MigrateAppError(MigrateAppError::InvalidDnaHashError(role_name.clone())),
                );
            },
            Err(e) => {
                return Err(e);
            },
        }
        i = i + 1;
    }
    proof {
        let expected = Seq::new(
            bundle.roles.len(),
            |i: int| spec_resolved(bundle, settings, i)->Hash_0,
        );
        assert(dna_hashes.deep_view() =~= expected);
    }
    Ok(dna_hashes)
}

/// The index of the first app with the given id; the number of apps when
/// there is none.
pub open spec fn spec_app_index(apps: Seq<AppInfoView>, app_id: Seq<char>) -> int
    decreases apps.len(),
{
    if apps.len() == 0 {
        0
    } else if apps[0].installed_app_id == app_id {
        0
    } else {
        1 + spec_app_index(apps.drop_first(), app_id)
    }
}

/// `spec_app_index` gives the first app that bears the id, or the length.
pub proof fn lemma_app_index(apps: Seq<AppInfoView>, app_id: Seq<char>)
    ensures
        0 <= spec_app_index(apps, app_id) <= apps.len(),
        spec_app_index(apps, app_id) < apps.len() ==> apps[spec_app_index(
            apps,
            app_id,
        )].installed_app_id == app_id,
        forall|j: int| 0 <= j < spec_app_index(apps, app_id) ==> apps[j].installed_app_id != app_id,
    decreases apps.len(),
{
    if apps.len() == 0 {
    } else if apps[0].installed_app_id == app_id {
    } else {
        let rest = apps.drop_first();
        lemma_app_index(rest, app_id);
        let k = spec_app_index(rest, app_id);
        assert forall|j: int| 0 <= j < 1 + k implies apps[j].installed_app_id != app_id by {
            if j > 0 {
                assert(rest[j - 1] == apps[j]);
            }
        }
        if k < rest.len() {
            assert(rest[k] == apps[k + 1]);
        }
    }
}

/// Finds the first app with the given id.
pub fn app_index(apps: &Vec<AppInfo>, app_id: &String) -> (index: usize)
    ensures
        index == spec_app_index(apps.deep_view(), app_id@),
        index <= apps.len(),
{
    let ghost view = apps.deep_view();
    proof {
        lemma_app_index(view, app_id@);
    }
    let mut i: usize = 0;
    while i < apps.len()
        invariant
            i <= apps.len(),
            view == apps.deep_view(),
            forall|j: int| 0 <= j < i ==> view[j].installed_app_id != app_id@,
            0 <= spec_app_index(view, app_id@) <= view.len(),
            spec_app_index(view, app_id@) < view.len() ==> view[spec_app_index(
                view,
                app_id@,
            )].installed_app_id == app_id@,
            forall|j: int|
                0 <= j < spec_app_index(view, app_id@) ==> view[j].installed_app_id != app_id@,
        decreases apps.len() - i,
    {
        assert(view[i as int].installed_app_id == apps@[i as int].installed_app_id@);
        if strings_equal(&apps[i].installed_app_id, app_id) {
            return i;
        }
        i = i + 1;
    }
    i
}

/// What a `MigrationState` stands for.
pub enum MigrationStateView {
    ListingApps {
        existing_app_id: Seq<char>,
        new_app_id: Seq<char>,
        bundle: AppBundleView,
        roles_settings: Option<Map<Seq<char>, RoleSettingsView>>,
    },
    Installing { pairs: Seq<(Seq<char>, CellIdView)> },
    Migrating { app_info: AppInfoView, invoker: InvokerView },
}

/// The state of a migration that awaits an answer of the conductor.
#[derive(Debug)]
pub enum MigrationState {
    /// Awaits the list of all installed apps.
    ListingApps {
        existing_app_id: String,
        new_app_id: String,
        bundle: AppBundle,
        roles_settings: Option<RoleSettingsMap>,
    },
    /// Awaits the installation of the new app.
    Installing { pairs: Vec<(String, CellId)> },
    /// The new app is installed; the zomes of the superseding cells are at
    /// work.
    Migrating { app_info: AppInfo, invoker: Invoker },
}

impl View for MigrationState {
    type V = MigrationStateView;

    open spec fn view(&self) -> MigrationStateView {
        match self {
            MigrationState::ListingApps {
                existing_app_id,
                new_app_id,
                bundle,
                roles_settings,
            } => MigrationStateView::ListingApps {
                existing_app_id: existing_app_id@,
                new_app_id: new_app_id@,
                bundle: bundle@,
                roles_settings: roles_settings.deep_view(),
            },
            MigrationState::Installing { pairs } => MigrationStateView::Installing {
                pairs: pairs.deep_view(),
            },
            MigrationState::Migrating { app_info, invoker } => MigrationStateView::Migrating {
                app_info: app_info@,
                invoker: invoker@,
            },
        }
    }
}

/// What a `MigrationStep` stands for.
pub enum MigrationStepView {
    Next(MigrationStateView, RequestView),
    Done(AppInfoView, Seq<RoleMigrationView>),
    Failed(ErrorView),
}

/// Where a migration stands after an answer.
#[derive(Debug)]
pub enum MigrationStep {
    /// The migration goes on with this request.
    Next(MigrationState, Request),
    /// The new app is installed and every superseding cell has been dealt
    /// with; with the conductor's record of the new app and the outcome for
    /// each migration pair.
    Done(AppInfo, Vec<RoleMigration>),
    /// The migration was given up.
    Failed(Error),
}

impl View for MigrationStep {
    type V = MigrationStepView;

    open spec fn view(&self) -> MigrationStepView {
        match self {
            MigrationStep::Next(state, request) => MigrationStepView::Next(state@, request@),
            MigrationStep::Done(app_info, outcomes) => MigrationStepView::Done(
                app_info@,
                outcomes.deep_view(),
            ),
            MigrationStep::Failed(e) => MigrationStepView::Failed(e@),
        }
    }
}

/// The error for a request that the conductor failed.
pub open spec fn spec_conductor_error(cause: Seq<char>) -> ErrorView {
    ErrorView::MigrateAppError(MigrateAppErrorView::ConductorApiError(cause))
}

/// The error for an answer that does not answer: the cause where the request
/// failed, and a fixed text for any other answer.
pub open spec fn spec_refusal(response: ResponseView) -> ErrorView {
    match response {
        ResponseView::Failed(cause) => spec_conductor_error(cause),
        _ => spec_conductor_error(spec_unexpected_response()),
    }
}

/// A migration as it stands with the step that the invoker made.
pub open spec fn spec_with_invoker(app_info: AppInfoView, step: InvokerStepView) -> MigrationStepView {
    match step {
        InvokerStepView::Next(invoker, request) => MigrationStepView::Next(
            MigrationStateView::Migrating { app_info, invoker },
            request,
        ),
        InvokerStepView::Done(outcomes) => MigrationStepView::Done(app_info, outcomes),
        InvokerStepView::Failed(e) => MigrationStepView::Failed(e),
    }
}

/// What follows once the installed apps are listed: the installation of the
/// new version, under the settings that the differ found against the app to
/// migrate from and for the agent of that app.
pub open spec fn spec_plan_install(
    existing_app_id: Seq<char>,
    new_app_id: Seq<char>,
    bundle: AppBundleView,
    roles_settings: Option<Map<Seq<char>, RoleSettingsView>>,
    apps: Seq<AppInfoView>,
) -> MigrationStepView {
    let k = spec_app_index(apps, existing_app_id);
    if k >= apps.len() {
        MigrationStepView::Failed(
            ErrorView::MigrateAppError(MigrateAppErrorView::AppNotFoundError(existing_app_id)),
        )
    } else {
        match spec_diff(bundle, Some(apps[k]), roles_settings) {
            Err(e) => MigrationStepView::Failed(e),
            Ok((settings, pairs)) => MigrationStepView::Next(
                MigrationStateView::Installing { pairs },
                RequestView::InstallApp {
                    app_id: new_app_id,
                    roles_settings: if settings == Map::<Seq<char>, RoleSettingsView>::empty() {
                        None
                    } else {
                        Some(settings)
                    },
                    agent: Some(apps[k].agent_pub_key),
                },
            ),
        }
    }
}

/// Where a migration stands after an answer of the conductor.
pub open spec fn spec_migration_step(
    state: MigrationStateView,
    response: ResponseView,
) -> MigrationStepView {
    match state {
        MigrationStateView::ListingApps {
            existing_app_id,
            new_app_id,
            bundle,
            roles_settings,
        } => match response {
            ResponseView::Apps(apps) => spec_plan_install(
                existing_app_id,
                new_app_id,
                bundle,
                roles_settings,
                apps,
            ),
            _ => MigrationStepView::Failed(spec_refusal(response)),
        },
        MigrationStateView::Installing { pairs } => match response {
            ResponseView::AppInstalled(app_info) => spec_with_invoker(
                app_info,
                spec_advance(spec_plan(app_info, pairs), Seq::empty()),
            ),
            _ => MigrationStepView::Failed(spec_refusal(response)),
        },
        MigrationStateView::Migrating { app_info, invoker } => spec_with_invoker(
            app_info,
            spec_invoker_step(invoker, response),
        ),
    }
}

/// The error for an answer that does not answer.
pub fn refusal(response: Response) -> (e: Error)
    ensures
        e@ == spec_refusal(response@),
{
    match response {
        Response::Failed(cause) => Error::MigrateAppError(
            MigrateAppError::ConductorApiError(cause),
        ),
        _ => unexpected_response(),
    }
}

fn with_invoker(app_info: AppInfo, step: InvokerStep) -> (next: MigrationStep)
    ensures
        next@ == spec_with_invoker(app_info@, step@),
{
    match step {
        InvokerStep::Next(invoker, request) => MigrationStep::Next(
            MigrationState::Migrating { app_info, invoker },
            request,
        ),
        InvokerStep::Done(outcomes) => MigrationStep::Done(app_info, outcomes),
        InvokerStep::Failed(e) => MigrationStep::Failed(e),
    }
}

/// Begins the migration from the installed app `existing_app_id` to a new
/// version, which is to be installed as `new_app_id`: the state, and the
/// request for the list of all installed apps.
///
/// The new app is installed for the agent of the existing one. A role whose
/// DNA did not change keeps its cell; for a role whose DNA changed, `migrate`
/// is called in the zomes of the new cell that implement the migration trait.
pub fn migrate_app(
    existing_app_id: String,
    new_app_id: String,
    new_app_bundle: AppBundle,
    new_roles_settings: Option<RoleSettingsMap>,
) -> (begun: (MigrationState, Request))
    ensures
        begun.0@ == (MigrationStateView::ListingApps {
            existing_app_id: existing_app_id@,
            new_app_id: new_app_id@,
            bundle: new_app_bundle@,
            roles_settings: new_roles_settings.deep_view(),
        }),
        begun.1@ == (RequestView::ListApps { running_only: false }),
{
    (
        MigrationState::ListingApps {
            existing_app_id,
            new_app_id,
            bundle: new_app_bundle,
            roles_settings: new_roles_settings,
        },
        Request::ListApps { running_only: false },
    )
}

impl MigrationState {
    /// Takes the conductor's answer to the pending request.
    ///
    /// The migration is given up with `AppNotFoundError` where the app to
    /// migrate from is not among the installed apps, with the differ's error
    /// where a DNA hash cannot be had, with `ConductorApiError` where the
    /// listing or the installation failed, and as the invoker gives up.
    pub fn step(self, response: Response) -> (step: MigrationStep)
        ensures
            step@ == spec_migration_step(self@, response@),
    {
        match self {
            MigrationState::ListingApps {
                existing_app_id,
                new_app_id,
                bundle,
                roles_settings,
            } => match response {
                Response::Apps(apps) => {
                    let k = app_index(&apps, &existing_app_id);
                    if k >= apps.len() {
                        return MigrationStep::Failed(
                            Error::MigrateAppError(
                                MigrateAppError::AppNotFoundError(existing_app_id),
                            ),
                        );
                    }
                    let existing = &apps[k];
                    assert(apps.deep_view()[k as int] == existing@);
                    match diff(&bundle, Some(existing), &roles_settings) {
                        Err(e) => MigrationStep::Failed(e),
                        Ok((settings, pairs)) => {
                            let agent = existing.agent_pub_key.clone();
                            let roles_settings = if settings.is_empty() {
                                None
                            } else {
                                Some(settings)
                            };
                            MigrationStep::Next(
                                MigrationState::Installing { pairs },
                                Request::InstallApp {
                                    app_id: new_app_id,
                                    roles_settings,
                                    agent: Some(agent),
                                },
                            )
                        },
                    }
                },
                other => MigrationStep::Failed(refusal(other)),
            },
            MigrationState::Installing { pairs } => match response {
                Response::AppInstalled(app_info) => {
                    let step = run_migrations(&app_info, pairs);
                    with_invoker(app_info, step)
                },
                other => MigrationStep::Failed(refusal(other)),
            },
            MigrationState::Migrating { app_info, invoker } => {
                let step = invoker.step(response);
                with_invoker(app_info, step)
            },
        }
    }
}

/// The agent is kept. Where a migration goes on from the list of installed
/// apps, it goes on with the installation of the new version under the new id
/// and for the agent of the app that is migrated from: never for a new agent.
pub proof fn law_migration_keeps_agent(
    existing_app_id: Seq<char>,
    new_app_id: Seq<char>,
    bundle: AppBundleView,
    roles_settings: Option<Map<Seq<char>, RoleSettingsView>>,
    apps: Seq<AppInfoView>,
)
    requires
        spec_plan_install(existing_app_id, new_app_id, bundle, roles_settings, apps) is Next,
    ensures
        spec_app_index(apps, existing_app_id) < apps.len(),
        apps[spec_app_index(apps, existing_app_id)].installed_app_id == existing_app_id,
        spec_plan_install(
            existing_app_id,
            new_app_id,
            bundle,
            roles_settings,
            apps,
        ) matches MigrationStepView::Next(_, RequestView::InstallApp { app_id, agent, .. })
            && app_id == new_app_id && agent == Some(
            apps[spec_app_index(apps, existing_app_id)].agent_pub_key,
        ),
{
    lemma_app_index(apps, existing_app_id);
}

/// Where a migration stands after a sequence of answers; answers that come
/// after its end are not looked at.
pub open spec fn spec_migration_run(
    step: MigrationStepView,
    responses: Seq<ResponseView>,
) -> MigrationStepView
    decreases responses.len(),
{
    if responses.len() == 0 {
        step
    } else {
        match step {
            MigrationStepView::Next(state, _) => spec_migration_run(
                spec_migration_step(state, responses[0]),
                responses.drop_first(),
            ),
            _ => step,
        }
    }
}

/// The requests of a migration that were answered, in the order in which
/// they were handed out.
pub open spec fn spec_migration_answered(
    step: MigrationStepView,
    responses: Seq<ResponseView>,
) -> Seq<RequestView>
    decreases responses.len(),
{
    match step {
        MigrationStepView::Next(state, request) => if responses.len() == 0 {
            Seq::empty()
        } else {
            seq![request] + spec_migration_answered(
                spec_migration_step(state, responses[0]),
                responses.drop_first(),
            )
        },
        _ => Seq::empty(),
    }
}

/// Once the new app is installed, the migration asks what the invoker asks,
/// and ends as the invoker ends.
pub proof fn lemma_migration_follows_invoker(
    app_info: AppInfoView,
    step: InvokerStepView,
    responses: Seq<ResponseView>,
)
    ensures
        spec_migration_answered(spec_with_invoker(app_info, step), responses) == spec_answered(
            step,
            responses,
        ),
        spec_migration_run(spec_with_invoker(app_info, step), responses) == spec_with_invoker(
            app_info,
            spec_invoker_run(step, responses),
        ),
    decreases responses.len(),
{
    if responses.len() > 0 {
        if let InvokerStepView::Next(invoker, _) = step {
            lemma_migration_follows_invoker(
                app_info,
                spec_invoker_step(invoker, responses[0]),
                responses.drop_first(),
            );
        }
    }
}

/// Each superseded cell is migrated from once, after the installation. Take a
/// migration that awaits the installation of the new app, and let the
/// conductor install it, find some zomes for each migration pair whose role
/// has a cell in the new app, and answer each call of `migrate` by its return
/// or its failure. Then, after the request to install, the migration asks,
/// pair by pair in their order, once for the zomes of the role's cell in the
/// new app and then once for each zome that was found, in the order in which
/// they were found, on that cell and with the id of the superseded cell as
/// payload. It asks nothing else, and ends with the record of the new app.
pub proof fn law_migration_asks_each_pair_once(
    install: RequestView,
    pairs: Seq<(Seq<char>, CellIdView)>,
    app_info: AppInfoView,
    scripts: Seq<RoleScript>,
)
    requires
        scripts.len() == pairs.len(),
        forall|i: int| 0 <= i < scripts.len() ==> spec_script_fits(#[trigger] scripts[i]),
    ensures
        spec_migration_answered(
            MigrationStepView::Next(MigrationStateView::Installing { pairs }, install),
            seq![ResponseView::AppInstalled(app_info)] + spec_all_responses(
                spec_plan(app_info, pairs),
                scripts,
                0,
            ),
        ) == seq![install] + spec_all_requests(spec_plan(app_info, pairs), scripts, 0),
        spec_migration_run(
            MigrationStepView::Next(MigrationStateView::Installing { pairs }, install),
            seq![ResponseView::AppInstalled(app_info)] + spec_all_responses(
                spec_plan(app_info, pairs),
                scripts,
                0,
            ),
        ) matches MigrationStepView::Done(installed, _) && installed == app_info,
{
    let plan = spec_plan(app_info, pairs);
    let answers = spec_all_responses(plan, scripts, 0);
    let responses = seq![ResponseView::AppInstalled(app_info)] + answers;
    let begun = spec_advance(plan, Seq::empty());
    assert(responses[0] == ResponseView::AppInstalled(app_info));
    assert(responses.drop_first() =~= answers);
    law_each_pair_once_each_zome_once(app_info, pairs, scripts);
    lemma_migration_follows_invoker(app_info, begun, answers);
}

} // verus!

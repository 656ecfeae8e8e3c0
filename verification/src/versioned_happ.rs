//! An app that is installed version by version, each version under an id made
//! of the app's prefix and the hashes of its DNAs.

use crate::bundle::{AppBundle, AppBundleView};
use crate::cell::{AppInfo, AppInfoView};
use crate::control::{Request, RequestView, Response, ResponseView};
use crate::error::{Error, ErrorView};
use crate::hash::{spec_hash_text, DnaHash};
use crate::invoker::{
    lemma_advance_in_line, lemma_step_in_line, spec_invoker_at_work, spec_outcomes_match,
    spec_plan, RoleMigration, RoleMigrationView,
};
use crate::migrate::{
    app_index, dna_hash_for_app_bundle, lemma_app_index, migrate_app, refusal, spec_app_index,
    spec_migration_step, spec_refusal, spec_resolve_all, MigrationState, MigrationStateView,
    MigrationStep, MigrationStepView,
};
use crate::order::{lemma_leq_total_ordering, lemma_sorted_is, sorted_hashes, spec_leq, spec_sorted};
use crate::settings::{RoleSettingsMap, RoleSettingsView};
use crate::text::{join, spec_join, str_starts_with};
use vstd::prelude::*;
use vstd::string::StringExecFns;

verus! {

/// The texts of hashes, in order.
pub open spec fn spec_hash_texts(hashes: Seq<Seq<u8>>) -> Seq<Seq<char>> {
    Seq::new(hashes.len(), |i: int| spec_hash_text(hashes[i]))
}

/// The id of the version of an app whose roles have the given DNA hashes:
/// the prefix, a hyphen, and the texts of the hashes in ascending order of
/// the hashes, with hyphens between them. The order in which the roles stand
/// in the manifest does not enter.
pub open spec fn spec_app_id(prefix: Seq<char>, hashes: Seq<Seq<u8>>) -> Seq<char> {
    prefix + seq!['-'] + spec_join(spec_hash_texts(spec_sorted(hashes)), seq!['-'])
}

/// The id under which a bundle is installed with given settings, or the error
/// for the first role whose DNA hash cannot be had.
pub open spec fn spec_app_id_for(
    prefix: Seq<char>,
    bundle: AppBundleView,
    settings: Option<Map<Seq<char>, RoleSettingsView>>,
) -> Result<Seq<char>, ErrorView> {
    match spec_resolve_all(bundle, settings) {
        Ok(hashes) => Ok(spec_app_id(prefix, hashes)),
        Err(e) => Err(e),
    }
}

/// Builds the id of a version from the prefix and the DNA hashes of its
/// roles, in whatever order they are given.
pub fn app_id_of(prefix: &String, hashes: &Vec<DnaHash>) -> (app_id: String)
    ensures
        app_id@ == spec_app_id(prefix@, hashes.deep_view()),
{
    let sorted = sorted_hashes(hashes);
    let ghost texts_view = spec_hash_texts(sorted.deep_view());
    let mut texts: Vec<String> = Vec::with_capacity(sorted.len());
    let mut i: usize = 0;
    while i < sorted.len()
        invariant
            i <= sorted.len(),
            texts.len() == i,
            texts_view == spec_hash_texts(sorted.deep_view()),
            forall|j: int| 0 <= j < i ==> texts@[j]@ == texts_view[j],
        decreases sorted.len() - i,
    {
        assert(sorted.deep_view()[i as int] == sorted@[i as int]@);
        texts.push(sorted[i].to_text());
        i = i + 1;
    }
    assert(texts.deep_view() =~= texts_view);
    proof {
        reveal_strlit("-");
        assert("-"@ =~= seq!['-']);
    }
    let joined = join(&texts, "-");
    let mut app_id = prefix.clone();
    app_id.append("-");
    app_id.append(joined.as_str());
    app_id
}

/// Whether `k` is the version to migrate from: among the apps whose id begins
/// with `prefix`, the one that was installed last, and of several that were
/// installed at the same time the one that is listed last.
pub open spec fn spec_is_latest(apps: Seq<AppInfoView>, prefix: Seq<char>, k: int) -> bool {
    &&& 0 <= k < apps.len()
    &&& prefix.is_prefix_of(apps[k].installed_app_id)
    &&& forall|j: int|
        0 <= j < apps.len() && prefix.is_prefix_of(#[trigger] apps[j].installed_app_id) ==> {
            &&& apps[j].installed_at <= apps[k].installed_at
            &&& (j > k ==> apps[j].installed_at < apps[k].installed_at)
        }
}

/// No app has an id that begins with `prefix`.
pub open spec fn spec_no_version(apps: Seq<AppInfoView>, prefix: Seq<char>) -> bool {
    forall|j: int| 0 <= j < apps.len() ==> !prefix.is_prefix_of(#[trigger] apps[j].installed_app_id)
}

/// The index of the latest version among the apps, if there is a version.
pub open spec fn spec_latest(apps: Seq<AppInfoView>, prefix: Seq<char>) -> Option<int> {
    if exists|k: int| spec_is_latest(apps, prefix, k) {
        Some(choose|k: int| spec_is_latest(apps, prefix, k))
    } else {
        None
    }
}

/// There is at most one latest version.
pub proof fn lemma_latest_unique(apps: Seq<AppInfoView>, prefix: Seq<char>, a: int, b: int)
    requires
        spec_is_latest(apps, prefix, a),
        spec_is_latest(apps, prefix, b),
    ensures
        a == b,
{
    if a < b {
        assert(apps[b].installed_at < apps[a].installed_at);
        assert(apps[a].installed_at <= apps[b].installed_at);
    } else if b < a {
        assert(apps[a].installed_at < apps[b].installed_at);
        assert(apps[b].installed_at <= apps[a].installed_at);
    }
}

/// Finds the latest among the apps whose id begins with `prefix`.
pub fn latest_version(apps: &Vec<AppInfo>, prefix: &String) -> (latest: Option<usize>)
    ensures
        match latest {
            Some(k) => spec_is_latest(apps.deep_view(), prefix@, k as int),
            None => spec_no_version(apps.deep_view(), prefix@),
        },
        match latest {
            Some(k) => spec_latest(apps.deep_view(), prefix@) == Some(k as int),
            None => spec_latest(apps.deep_view(), prefix@) is None,
        },
{
    let ghost view = apps.deep_view();
    let mut latest: Option<usize> = None;
    let mut i: usize = 0;
    while i < apps.len()
        invariant
            i <= apps.len(),
            view == apps.deep_view(),
            match latest {
                Some(k) => k < i && prefix@.is_prefix_of(view[k as int].installed_app_id)
                    && forall|j: int|
                    0 <= j < i && prefix@.is_prefix_of(#[trigger] view[j].installed_app_id) ==> {
                        &&& view[j].installed_at <= view[k as int].installed_at
                        &&& (j > k ==> view[j].installed_at < view[k as int].installed_at)
                    },
                None => forall|j: int|
                    0 <= j < i ==> !prefix@.is_prefix_of(#[trigger] view[j].installed_app_id),
            },
        decreases apps.len() - i,
    {
        let app = &apps[i];
        assert(view[i as int] == app@);
        if str_starts_with(app.installed_app_id.as_str(), prefix.as_str()) {
            let later = match latest {
                Some(k) => {
                    assert(view[k as int] == apps@[k as int]@);
                    app.installed_at >= apps[k].installed_at
                },
                None => true,
            };
            if later {
                latest = Some(i);
            }
        }
        i = i + 1;
    }
    proof {
        match latest {
            Some(k) => {
                assert(spec_is_latest(view, prefix@, k as int));
                let chosen = choose|c: int| spec_is_latest(view, prefix@, c);
                lemma_latest_unique(view, prefix@, chosen, k as int);
            },
            None => {
                assert forall|c: int| !spec_is_latest(view, prefix@, c) by {
                    if spec_is_latest(view, prefix@, c) {
                        assert(!prefix@.is_prefix_of(view[c].installed_app_id));
                    }
                }
            },
        }
    }
    latest
}

/// The prefix that the ids of an app's versions share: the app's prefix and a
/// hyphen.
pub open spec fn spec_versions_prefix(prefix: Seq<char>) -> Seq<char> {
    prefix + seq!['-']
}

/// What an `InstallOutcome` stands for.
pub enum InstallOutcomeView {
    AlreadyInstalled { app_id: Seq<char> },
    Installed(AppInfoView),
    Migrated(AppInfoView, Seq<RoleMigrationView>),
}

/// How `install_or_update` ended.
#[derive(Debug)]
pub enum InstallOutcome {
    /// This version was installed before. Nothing was installed; its
    /// coordinator zomes were brought up to date where needed.
    AlreadyInstalled { app_id: String },
    /// No version of the app was installed before: this one was installed
    /// with the settings as given, for a new agent.
    Installed(AppInfo),
    /// This version was installed for the agent of the latest version before
    /// it; with the outcome for each role whose cell was superseded.
    Migrated(AppInfo, Vec<RoleMigration>),
}

impl View for InstallOutcome {
    type V = InstallOutcomeView;

    open spec fn view(&self) -> InstallOutcomeView {
        match self {
            InstallOutcome::AlreadyInstalled { app_id } => InstallOutcomeView::AlreadyInstalled {
                app_id: app_id@,
            },
            InstallOutcome::Installed(app_info) => InstallOutcomeView::Installed(app_info@),
            InstallOutcome::Migrated(app_info, outcomes) => InstallOutcomeView::Migrated(
                app_info@,
                outcomes.deep_view(),
            ),
        }
    }
}

/// What an `InstallState` stands for.
pub enum InstallStateView {
    ListingRunning {
        prefix: Seq<char>,
        app_id: Seq<char>,
        bundle: AppBundleView,
        roles_settings: Option<Map<Seq<char>, RoleSettingsView>>,
    },
    Updating { app_id: Seq<char> },
    Installing,
    Migrating(MigrationStateView),
}

/// The state of an installation that awaits an answer of the conductor.
#[derive(Debug)]
pub enum InstallState {
    /// Awaits the list of the running apps.
    ListingRunning {
        prefix: String,
        app_id: String,
        bundle: AppBundle,
        roles_settings: Option<RoleSettingsMap>,
    },
    /// This version is installed already; awaits the update of its
    /// coordinator zomes.
    Updating { app_id: String },
    /// Awaits the installation of the first version.
    Installing,
    /// A migration from the version before is under way.
    Migrating(MigrationState),
}

impl View for InstallState {
    type V = InstallStateView;

    open spec fn view(&self) -> InstallStateView {
        match self {
            InstallState::ListingRunning {
                prefix,
                app_id,
                bundle,
                roles_settings,
            } => InstallStateView::ListingRunning {
                prefix: prefix@,
                app_id: app_id@,
                bundle: bundle@,
                roles_settings: roles_settings.deep_view(),
            },
            InstallState::Updating { app_id } => InstallStateView::Updating { app_id: app_id@ },
            InstallState::Installing => InstallStateView::Installing,
            InstallState::Migrating(m) => InstallStateView::Migrating(m@),
        }
    }
}

/// What an `InstallStep` stands for.
pub enum InstallStepView {
    Next(InstallStateView, RequestView),
    Done(InstallOutcomeView),
    Failed(ErrorView),
}

/// Where an installation stands after an answer.
#[derive(Debug)]
pub enum InstallStep {
    /// The installation goes on with this request.
    Next(InstallState, Request),
    /// The installation is over.
    Done(InstallOutcome),
    /// The installation was given up.
    Failed(Error),
}

impl View for InstallStep {
    type V = InstallStepView;

    open spec fn view(&self) -> InstallStepView {
        match self {
            InstallStep::Next(state, request) => InstallStepView::Next(state@, request@),
            InstallStep::Done(outcome) => InstallStepView::Done(outcome@),
            InstallStep::Failed(e) => InstallStepView::Failed(e@),
        }
    }
}

/// An installation as it stands with the step that its migration made.
pub open spec fn spec_with_migration(step: MigrationStepView) -> InstallStepView {
    match step {
        MigrationStepView::Next(state, request) => InstallStepView::Next(
            InstallStateView::Migrating(state),
            request,
        ),
        MigrationStepView::Done(app_info, outcomes) => InstallStepView::Done(
            InstallOutcomeView::Migrated(app_info, outcomes),
        ),
        MigrationStepView::Failed(e) => InstallStepView::Failed(e),
    }
}

/// What follows once the running apps are listed. Where this version is among
/// them, nothing is installed. Where other versions are, the new one is
/// migrated to from the latest. Where none is, it is installed afresh.
pub open spec fn spec_choose_install(
    prefix: Seq<char>,
    app_id: Seq<char>,
    bundle: AppBundleView,
    roles_settings: Option<Map<Seq<char>, RoleSettingsView>>,
    apps: Seq<AppInfoView>,
) -> InstallStepView {
    if spec_app_index(apps, app_id) < apps.len() {
        InstallStepView::Next(
            InstallStateView::Updating { app_id },
            RequestView::UpdateAppIfNecessary { app_id },
        )
    } else {
        match spec_latest(apps, prefix) {
            Some(k) => InstallStepView::Next(
                InstallStateView::Migrating(
                    MigrationStateView::ListingApps {
                        existing_app_id: apps[k].installed_app_id,
                        new_app_id: app_id,
                        bundle,
                        roles_settings,
                    },
                ),
                RequestView::ListApps { running_only: false },
            ),
            None => InstallStepView::Next(
                InstallStateView::Installing,
                RequestView::InstallApp { app_id, roles_settings, agent: None },
            ),
        }
    }
}

/// Where an installation stands after an answer of the conductor.
pub open spec fn spec_install_step(state: InstallStateView, response: ResponseView) -> InstallStepView {
    match state {
        InstallStateView::ListingRunning {
            prefix,
            app_id,
            bundle,
            roles_settings,
        } => match response {
            ResponseView::Apps(apps) => spec_choose_install(
                prefix,
                app_id,
                bundle,
                roles_settings,
                apps,
            ),
            _ => InstallStepView::Failed(spec_refusal(response)),
        },
        InstallStateView::Updating { app_id } => match response {
            ResponseView::AppUpdated => InstallStepView::Done(
                InstallOutcomeView::AlreadyInstalled { app_id },
            ),
            _ => InstallStepView::Failed(spec_refusal(response)),
        },
        InstallStateView::Installing => match response {
            ResponseView::AppInstalled(app_info) => InstallStepView::Done(
                InstallOutcomeView::Installed(app_info),
            ),
            _ => InstallStepView::Failed(spec_refusal(response)),
        },
        InstallStateView::Migrating(m) => spec_with_migration(spec_migration_step(m, response)),
    }
}

/// How `install_or_update` begins: with the list of the running apps, or
/// with the error for a DNA hash that cannot be had.
pub open spec fn spec_install_or_update(
    prefix: Seq<char>,
    bundle: AppBundleView,
    roles_settings: Option<Map<Seq<char>, RoleSettingsView>>,
) -> InstallStepView {
    match spec_app_id_for(prefix, bundle, roles_settings) {
        Ok(app_id) => InstallStepView::Next(
            InstallStateView::ListingRunning { prefix, app_id, bundle, roles_settings },
            RequestView::ListApps { running_only: true },
        ),
        Err(e) => InstallStepView::Failed(e),
    }
}

fn with_migration(step: MigrationStep) -> (next: InstallStep)
    ensures
        next@ == spec_with_migration(step@),
{
    match step {
        MigrationStep::Next(state, request) => InstallStep::Next(
            InstallState::Migrating(state),
            request,
        ),
        MigrationStep::Done(app_info, outcomes) => InstallStep::Done(
            InstallOutcome::Migrated(app_info, outcomes),
        ),
        MigrationStep::Failed(e) => InstallStep::Failed(e),
    }
}

impl InstallState {
    /// Takes the conductor's answer to the pending request.
    pub fn step(self, response: Response) -> (step: InstallStep)
        ensures
            step@ == spec_install_step(self@, response@),
    {
        match self {
            InstallState::ListingRunning {
                prefix,
                app_id,
                bundle,
                roles_settings,
            } => match response {
                Response::Apps(apps) => {
                    if app_index(&apps, &app_id) < apps.len() {
                        let request = Request::UpdateAppIfNecessary { app_id: app_id.clone() };
                        return InstallStep::Next(InstallState::Updating { app_id }, request);
                    }
                    match latest_version(&apps, &prefix) {
                        Some(k) => {
                            assert(apps.deep_view()[k as int] == apps@[k as int]@);
                            let previous = apps[k].installed_app_id.clone();
                            let (state, request) = migrate_app(
                                previous,
                                app_id,
                                bundle,
                                roles_settings,
                            );
                            InstallStep::Next(InstallState::Migrating(state), request)
                        },
                        None => InstallStep::Next(
                            InstallState::Installing,
                            Request::InstallApp { app_id, roles_settings, agent: None },
                        ),
                    }
                },
                other => InstallStep::Failed(refusal(other)),
            },
            InstallState::Updating { app_id } => match response {
                Response::AppUpdated => InstallStep::Done(
                    InstallOutcome::AlreadyInstalled { app_id },
                ),
                other => InstallStep::Failed(refusal(other)),
            },
            InstallState::Installing => match response {
                Response::AppInstalled(app_info) => InstallStep::Done(
                    InstallOutcome::Installed(app_info),
                ),
                other => InstallStep::Failed(refusal(other)),
            },
            InstallState::Migrating(m) => {
                let step = m.step(response);
                with_migration(step)
            },
        }
    }
}

/// An app that is installed version by version under ids with one prefix.
#[derive(Debug, PartialEq, Eq)]
pub struct VersionedApp {
    /// The prefix of the ids of the app's versions.
    pub app_id_prefix: String,
}

impl VersionedApp {
    /// The id under which the bundle is installed with the given settings.
    pub fn app_id_for(&self, app_bundle: &AppBundle, roles_settings: &Option<RoleSettingsMap>) -> (
        app_id: Result<String, Error>)
        ensures
            match app_id {
                Ok(id) => spec_app_id_for(
                    self.app_id_prefix@,
                    app_bundle@,
                    roles_settings.deep_view(),
                ) == Ok::<Seq<char>, ErrorView>(id@),
                Err(e) => spec_app_id_for(
                    self.app_id_prefix@,
                    app_bundle@,
                    roles_settings.deep_view(),
                ) == Err::<Seq<char>, ErrorView>(e@),
            },
    {
        match dna_hash_for_app_bundle(app_bundle, roles_settings) {
            Ok(hashes) => Ok(app_id_of(&self.app_id_prefix, &hashes)),
            Err(e) => Err(e),
        }
    }

    /// Begins the installation of a version of the app: the request for the
    /// list of the running apps, or, before anything is asked of the
    /// conductor, the error for a DNA hash that cannot be had.
    ///
    /// A version that is installed already is not installed again. Where
    /// another version is installed, the new one is installed for the same
    /// agent and the data of changed roles is migrated. Otherwise the version
    /// is installed afresh.
    pub fn install_or_update(
        &self,
        app_bundle: AppBundle,
        roles_settings: Option<RoleSettingsMap>,
    ) -> (step: InstallStep)
        ensures
            step@ == spec_install_or_update(
                self.app_id_prefix@,
                app_bundle@,
                roles_settings.deep_view(),
            ),
    {
        match self.app_id_for(&app_bundle, &roles_settings) {
            Ok(app_id) => InstallStep::Next(
                InstallState::ListingRunning {
                    prefix: self.app_id_prefix.clone(),
                    app_id,
                    bundle: app_bundle,
                    roles_settings,
                },
                Request::ListApps { running_only: true },
            ),
            Err(e) => InstallStep::Failed(e),
        }
    }

    /// The prefix that the ids of the app's versions share.
    pub fn versions_prefix(&self) -> (dashed: String)
        ensures
            dashed@ == spec_versions_prefix(self.app_id_prefix@),
    {
        proof {
            reveal_strlit("-");
            assert("-"@ =~= seq!['-']);
        }
        let mut dashed = self.app_id_prefix.clone();
        dashed.append("-");
        dashed
    }

    /// Picks the versions of the app from a list of installed apps, in the
    /// order of the list.
    pub fn get_all_app_versions(&self, apps: &Vec<AppInfo>) -> (versions: Vec<AppInfo>)
        ensures
            versions.deep_view() == apps.deep_view().filter(
                |app: AppInfoView|
                    spec_versions_prefix(self.app_id_prefix@).is_prefix_of(app.installed_app_id),
            ),
    {
        let dashed = self.versions_prefix();
        let ghost view = apps.deep_view();
        let ghost pred = |app: AppInfoView|
            spec_versions_prefix(self.app_id_prefix@).is_prefix_of(app.installed_app_id);
        let mut versions: Vec<AppInfo> = Vec::new();
        let mut i: usize = 0;
        proof {
            reveal(Seq::filter);
            assert(view.subrange(0, 0).filter(pred) =~= Seq::<AppInfoView>::empty());
            assert(versions.deep_view() =~= Seq::<AppInfoView>::empty());
        }
        while i < apps.len()
            invariant
                i <= apps.len(),
                view == apps.deep_view(),
                dashed@ == spec_versions_prefix(self.app_id_prefix@),
                pred == |app: AppInfoView|
                    spec_versions_prefix(self.app_id_prefix@).is_prefix_of(app.installed_app_id),
                versions.deep_view() == view.subrange(0, i as int).filter(pred),
            decreases apps.len() - i,
        {
            let app = &apps[i];
            let ghost before = versions.deep_view();
            proof {
                assert(view[i as int] == app@);
                assert(view.subrange(0, i + 1) =~= view.subrange(0, i as int).push(app@));
                view.subrange(0, i as int).lemma_filter_push(app@, pred);
            }
            if str_starts_with(app.installed_app_id.as_str(), dashed.as_str()) {
                versions.push(app.clone());
                assert(versions.deep_view() =~= before.push(app@));
            }
            i = i + 1;
        }
        assert(view.subrange(0, view.len() as int) =~= view);
        versions
    }

    /// The version of the app that was installed last, among the listed apps.
    pub fn current_app(&self, apps: &Vec<AppInfo>) -> (current: Option<AppInfo>)
        ensures
            match current {
                Some(app) => spec_latest(
                    apps.deep_view(),
                    spec_versions_prefix(self.app_id_prefix@),
                ) matches Some(k) && app@ == apps.deep_view()[k],
                None => spec_no_version(
                    apps.deep_view(),
                    spec_versions_prefix(self.app_id_prefix@),
                ),
            },
    {
        let dashed = self.versions_prefix();
        match latest_version(apps, &dashed) {
            Some(k) => {
                assert(apps.deep_view()[k as int] == apps@[k as int]@);
                Some(apps[k].clone())
            },
            None => None,
        }
    }
}

/// Determinism of the id. Two bundles with the same roles and resources,
/// under settings that say the same, resolve to the same hashes or fail at the
/// same role with the same kind of error, and so get the same id: nothing but
/// the content of bundle and settings enters.
pub proof fn law_app_id_is_determined(
    prefix: String,
    bundle: AppBundle,
    settings: Option<RoleSettingsMap>,
    same_bundle: AppBundle,
    same_settings: Option<RoleSettingsMap>,
)
    requires
        bundle@ == same_bundle@,
        settings.deep_view() == same_settings.deep_view(),
    ensures
        spec_resolve_all(bundle@, settings.deep_view()) == spec_resolve_all(
            same_bundle@,
            same_settings.deep_view(),
        ),
        spec_app_id_for(prefix@, bundle@, settings.deep_view()) == spec_app_id_for(
            prefix@,
            same_bundle@,
            same_settings.deep_view(),
        ),
        spec_install_or_update(prefix@, bundle@, settings.deep_view()) == spec_install_or_update(
            prefix@,
            same_bundle@,
            same_settings.deep_view(),
        ),
{
}

/// Idempotence of installation. Take a bundle and settings that resolve to an
/// id, and a list of running apps in which an app with that id stands, as it
/// does once the bundle has been installed with these settings. Then
/// `install_or_update` asks for the running apps, answers their list with the
/// request to bring that app up to date, and asks nothing more: no answer to
/// that request leads to a further request, so nothing is installed.
pub proof fn law_install_is_idempotent(
    prefix: Seq<char>,
    bundle: AppBundleView,
    settings: Option<Map<Seq<char>, RoleSettingsView>>,
    apps: Seq<AppInfoView>,
    k: int,
    response: ResponseView,
)
    requires
        spec_app_id_for(prefix, bundle, settings) is Ok,
        0 <= k < apps.len(),
        apps[k].installed_app_id == spec_app_id_for(prefix, bundle, settings)->Ok_0,
    ensures
        ({
            let app_id = spec_app_id_for(prefix, bundle, settings)->Ok_0;
            let listing = InstallStateView::ListingRunning {
                prefix,
                app_id,
                bundle,
                roles_settings: settings,
            };
            let updating = InstallStateView::Updating { app_id };
            &&& spec_install_or_update(prefix, bundle, settings) == InstallStepView::Next(
                listing,
                RequestView::ListApps { running_only: true },
            )
            &&& spec_install_step(listing, ResponseView::Apps(apps)) == InstallStepView::Next(
                updating,
                RequestView::UpdateAppIfNecessary { app_id },
            )
            &&& !(spec_install_step(updating, response) is Next)
            &&& spec_install_step(updating, ResponseView::AppUpdated) == InstallStepView::Done(
                InstallOutcomeView::AlreadyInstalled { app_id },
            )
        }),
{
    lemma_app_index(apps, spec_app_id_for(prefix, bundle, settings)->Ok_0);
}

/// A state whose migration has reached the zomes is at work on a role that
/// has a cell, with the outcomes of the roles before it.
pub open spec fn spec_install_sound(state: InstallStateView) -> bool {
    state matches InstallStateView::Migrating(MigrationStateView::Migrating { invoker, .. })
        ==> spec_invoker_at_work(invoker) && spec_outcomes_match(invoker.plan, invoker.outcomes)
}

/// The number of installations that a state may still ask for.
pub open spec fn spec_installs_ahead(state: InstallStateView) -> nat {
    match state {
        InstallStateView::ListingRunning { .. } => 1,
        InstallStateView::Migrating(MigrationStateView::ListingApps { .. }) => 1,
        _ => 0,
    }
}

/// One for a request to install, nought for any other.
pub open spec fn spec_install_count(request: RequestView) -> nat {
    if request is InstallApp {
        1
    } else {
        0
    }
}

/// The number of installations that are asked for from a step on, while the
/// conductor gives the answers in turn.
pub open spec fn spec_installs_asked(step: InstallStepView, responses: Seq<ResponseView>) -> nat
    decreases responses.len(),
{
    match step {
        InstallStepView::Next(state, request) => spec_install_count(request) + (if responses.len()
            == 0 {
            0nat
        } else {
            spec_installs_asked(spec_install_step(state, responses[0]), responses.drop_first())
        }),
        _ => 0,
    }
}

/// The bound that a step stays under: the installation it asks for and those
/// that the state it leads to may still ask for.
pub open spec fn spec_installs_bound(step: InstallStepView) -> nat {
    match step {
        InstallStepView::Next(state, request) => spec_install_count(request) + spec_installs_ahead(
            state,
        ),
        _ => 0,
    }
}

/// A step uses up what it asks for.
pub proof fn lemma_install_step(state: InstallStateView, response: ResponseView)
    requires
        spec_install_sound(state),
    ensures
        spec_installs_bound(spec_install_step(state, response)) <= spec_installs_ahead(state),
        spec_install_step(state, response) matches InstallStepView::Next(next, _)
            ==> spec_install_sound(next),
{
    match state {
        InstallStateView::Migrating(MigrationStateView::Installing { pairs }) => {
            if let ResponseView::AppInstalled(app_info) = response {
                lemma_advance_in_line(spec_plan(app_info, pairs), Seq::empty());
            }
        },
        InstallStateView::Migrating(MigrationStateView::Migrating { invoker, .. }) => {
            lemma_step_in_line(invoker, response);
        },
        _ => {},
    }
}

/// A run stays under the bound of its first step.
pub proof fn lemma_installs_asked(step: InstallStepView, responses: Seq<ResponseView>)
    requires
        step matches InstallStepView::Next(state, _) ==> spec_install_sound(state),
    ensures
        spec_installs_asked(step, responses) <= spec_installs_bound(step),
    decreases responses.len(),
{
    if let InstallStepView::Next(state, _) = step {
        if responses.len() > 0 {
            lemma_install_step(state, responses[0]);
            lemma_installs_asked(spec_install_step(state, responses[0]), responses.drop_first());
        }
    }
}

/// Installation at most once. Whatever the conductor answers, and however
/// long the run: from `install_or_update` on, the conductor is asked to
/// install at most once.
pub proof fn law_at_most_one_installation(
    prefix: Seq<char>,
    bundle: AppBundleView,
    settings: Option<Map<Seq<char>, RoleSettingsView>>,
    responses: Seq<ResponseView>,
)
    ensures
        spec_installs_asked(spec_install_or_update(prefix, bundle, settings), responses) <= 1,
{
    lemma_installs_asked(spec_install_or_update(prefix, bundle, settings), responses);
}

/// The id does not depend on the order of the roles. Two versions whose roles
/// have the same DNA hashes, each as often in the one as in the other, get the
/// same id under the same prefix, in whatever order their manifests list the
/// roles.
pub proof fn law_app_id_ignores_role_order(
    prefix: Seq<char>,
    hashes: Seq<Seq<u8>>,
    same_hashes: Seq<Seq<u8>>,
)
    requires
        hashes.to_multiset() == same_hashes.to_multiset(),
    ensures
        spec_sorted(hashes) == spec_sorted(same_hashes),
        spec_app_id(prefix, hashes) == spec_app_id(prefix, same_hashes),
{
    lemma_leq_total_ordering();
    hashes.lemma_sort_by_ensures(spec_leq());
    lemma_sorted_is(same_hashes, spec_sorted(hashes));
}

/// The same of bundles: two bundles whose roles resolve, each under its
/// settings, to the same DNA hashes, each as often in the one as in the other,
/// are installed under the same id.
pub proof fn law_app_id_for_ignores_role_order(
    prefix: Seq<char>,
    bundle: AppBundleView,
    settings: Option<Map<Seq<char>, RoleSettingsView>>,
    other_bundle: AppBundleView,
    other_settings: Option<Map<Seq<char>, RoleSettingsView>>,
)
    requires
        spec_resolve_all(bundle, settings) is Ok,
        spec_resolve_all(other_bundle, other_settings) is Ok,
        spec_resolve_all(bundle, settings)->Ok_0.to_multiset() == spec_resolve_all(
            other_bundle,
            other_settings,
        )->Ok_0.to_multiset(),
    ensures
        spec_app_id_for(prefix, bundle, settings) == spec_app_id_for(
            prefix,
            other_bundle,
            other_settings,
        ),
{
    law_app_id_ignores_role_order(
        prefix,
        spec_resolve_all(bundle, settings)->Ok_0,
        spec_resolve_all(other_bundle, other_settings)->Ok_0,
    );
}

} // verus!

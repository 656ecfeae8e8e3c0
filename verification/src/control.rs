//! What the engine asks of the conductor, and what the conductor answers.
//!
//! The engine never talks to the conductor itself. Each of its state machines
//! hands out a `Request`; the caller performs it and hands back a `Response`.

use crate::cell::{AppInfo, AppInfoView, CellId, CellIdView};
use crate::hash::AgentPubKey;
use crate::settings::{RoleSettingsMap, RoleSettingsView};
use vstd::prelude::*;

verus! {

/// What a `Request` stands for.
pub enum RequestView {
    ListApps { running_only: bool },
    UpdateAppIfNecessary { app_id: Seq<char> },
    InstallApp {
        app_id: Seq<char>,
        roles_settings: Option<Map<Seq<char>, RoleSettingsView>>,
        agent: Option<Seq<u8>>,
    },
    FindMigratingZomes { cell_id: CellIdView },
    CallMigrate { cell_id: CellIdView, zome: Seq<char>, fn_name: Seq<char>, payload: Seq<u8> },
}

/// A request to the conductor.
#[derive(Debug, PartialEq, Eq)]
pub enum Request {
    /// List the installed apps: all of them, or the running ones only.
    ListApps { running_only: bool },
    /// Update the coordinator zomes of the installed app `app_id` from the
    /// bundle at hand, if the bundle differs from the one it was installed of.
    UpdateAppIfNecessary { app_id: String },
    /// Install the bundle at hand under `app_id`, with these settings and for
    /// this agent; for a new agent where none is named.
    InstallApp { app_id: String, roles_settings: Option<RoleSettingsMap>, agent: Option<AgentPubKey> },
    /// List the zomes of the cell that implement the migration trait.
    FindMigratingZomes { cell_id: CellId },
    /// Call the function `fn_name` in `zome` of the cell, with `payload`.
    CallMigrate { cell_id: CellId, zome: String, fn_name: String, payload: Vec<u8> },
}

impl View for Request {
    type V = RequestView;

    open spec fn view(&self) -> RequestView {
        match self {
            Request::ListApps { running_only } => RequestView::ListApps {
                running_only: *running_only,
            },
            Request::UpdateAppIfNecessary { app_id } => RequestView::UpdateAppIfNecessary {
                app_id: app_id@,
            },
            Request::InstallApp { app_id, roles_settings, agent } => RequestView::InstallApp {
                app_id: app_id@,
                roles_settings: roles_settings.deep_view(),
                agent: agent.deep_view(),
            },
            Request::FindMigratingZomes { cell_id } => RequestView::FindMigratingZomes {
                cell_id: cell_id@,
            },
            Request::CallMigrate { cell_id, zome, fn_name, payload } => RequestView::CallMigrate {
                cell_id: cell_id@,
                zome: zome@,
                fn_name: fn_name@,
                payload: payload@,
            },
        }
    }
}

/// What a `Response` stands for.
pub enum ResponseView {
    Apps(Seq<AppInfoView>),
    AppUpdated,
    AppInstalled(AppInfoView),
    MigratingZomes(Seq<Seq<char>>),
    Migrated,
    Failed(Seq<char>),
}

/// The conductor's answer to a request.
#[derive(Debug, PartialEq, Eq)]
pub enum Response {
    /// The apps that were asked for.
    Apps(Vec<AppInfo>),
    /// The app is up to date.
    AppUpdated,
    /// The app was installed; with the conductor's record of it.
    AppInstalled(AppInfo),
    /// The zomes that implement the migration trait, as they were found.
    MigratingZomes(Vec<String>),
    /// The call of `migrate` returned.
    Migrated,
    /// The request failed or the conductor could not be reached; with the
    /// cause.
    Failed(String),
}

impl View for Response {
    type V = ResponseView;

    open spec fn view(&self) -> ResponseView {
        match self {
            Response::Apps(apps) => ResponseView::Apps(apps.deep_view()),
            Response::AppUpdated => ResponseView::AppUpdated,
            Response::AppInstalled(app) => ResponseView::AppInstalled(app@),
            Response::MigratingZomes(zomes) => ResponseView::MigratingZomes(zomes.deep_view()),
            Response::Migrated => ResponseView::Migrated,
            Response::Failed(cause) => ResponseView::Failed(cause@),
        }
    }
}

/// The name of the function by which a zome takes over the data of a
/// superseded cell.
pub open spec fn spec_migrate_fn_name() -> Seq<char> {
    "migrate"@
}

/// The cause that is reported where an answer is none to the pending request.
pub open spec fn spec_unexpected_response() -> Seq<char> {
    "unexpected response"@
}

} // verus!

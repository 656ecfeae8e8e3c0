//! The migration invoker: for each role whose cell was superseded, finds the
//! zomes of the new cell that can migrate and calls `migrate` in each, with
//! the id of the superseded cell.
//!
//! Roles are worked on in the order of the pairs, zomes in the order in which
//! they were found, one call at a time. A call that fails is recorded and the
//! next one is made; a role for which the installation created no cell is
//! recorded and passed over.

use crate::bytes::bytes_clone;
use crate::cell::{spec_encoded_cell_id, AppInfo, AppInfoView, CellId, CellIdView, CellInfo, CellInfoView};
use crate::control::{
    spec_migrate_fn_name, spec_unexpected_response, Request, RequestView, Response, ResponseView,
};
use crate::error::{Error, ErrorView, MigrateAppError, MigrateAppErrorView};
use crate::named::{index_of, spec_index_of};
use vstd::prelude::*;
use vstd::string::StringExecFns;

verus! {

/// What a `ZomeMigration` stands for.
pub struct ZomeMigrationView {
    pub zome: Seq<char>,
    pub error: Option<Seq<char>>,
}

/// How the call of `migrate` in one zome ended.
#[derive(Debug, PartialEq, Eq)]
pub struct ZomeMigration {
    /// The zome that was called.
    pub zome: String,
    /// The cause, where the call failed.
    pub error: Option<String>,
}

impl View for ZomeMigration {
    type V = ZomeMigrationView;

    open spec fn view(&self) -> ZomeMigrationView {
        ZomeMigrationView { zome: self.zome@, error: self.error.deep_view() }
    }
}

impl DeepView for ZomeMigration {
    type V = ZomeMigrationView;

    open spec fn deep_view(&self) -> ZomeMigrationView {
        self@
    }
}

/// What a `RoleMigration` stands for.
pub enum RoleMigrationView {
    NotCreated { role: Seq<char> },
    Migrated { role: Seq<char>, cell_id: CellIdView, zomes: Seq<ZomeMigrationView> },
}

/// How the migration of one role ended.
#[derive(Debug, PartialEq, Eq)]
pub enum RoleMigration {
    /// The role was marked for migration, but the installation created no
    /// cell for it: nothing was called.
    NotCreated { role: String },
    /// The zomes of the role's new cell that can migrate were called, in the
    /// order in which they were found.
    Migrated { role: String, cell_id: CellId, zomes: Vec<ZomeMigration> },
}

impl View for RoleMigration {
    type V = RoleMigrationView;

    open spec fn view(&self) -> RoleMigrationView {
        match self {
            RoleMigration::NotCreated { role } => RoleMigrationView::NotCreated { role: role@ },
            RoleMigration::Migrated { role, cell_id, zomes } => RoleMigrationView::Migrated {
                role: role@,
                cell_id: cell_id@,
                zomes: zomes.deep_view(),
            },
        }
    }
}

impl DeepView for RoleMigration {
    type V = RoleMigrationView;

    open spec fn deep_view(&self) -> RoleMigrationView {
        self@
    }
}

/// The role that an outcome speaks of.
pub open spec fn spec_outcome_role(outcome: RoleMigrationView) -> Seq<char> {
    match outcome {
        RoleMigrationView::NotCreated { role } => role,
        RoleMigrationView::Migrated { role, .. } => role,
    }
}

/// What a `PlannedMigration` stands for.
pub struct PlannedMigrationView {
    pub role: Seq<char>,
    pub superseded: CellIdView,
    pub target: Option<CellIdView>,
}

/// One migration pair together with the cell that is to migrate.
#[derive(Debug, PartialEq, Eq)]
pub struct PlannedMigration {
    /// The role.
    pub role: String,
    /// The cell of the previous version, whose data is to be taken over.
    pub superseded: CellId,
    /// The cell that the installation created for the role, if it created one.
    pub target: Option<CellId>,
}

impl View for PlannedMigration {
    type V = PlannedMigrationView;

    open spec fn view(&self) -> PlannedMigrationView {
        PlannedMigrationView {
            role: self.role@,
            superseded: self.superseded@,
            target: self.target.deep_view(),
        }
    }
}

impl DeepView for PlannedMigration {
    type V = PlannedMigrationView;

    open spec fn deep_view(&self) -> PlannedMigrationView {
        self@
    }
}

/// The cell of a newly installed app that is to migrate for a role: the first
/// cell listed for the role, if that is a provisioned one.
pub open spec fn spec_migration_target(new_app: AppInfoView, role: Seq<char>) -> Option<
    CellIdView,
> {
    let k = spec_index_of(new_app.cell_info, role);
    if k < new_app.cell_info.len() && new_app.cell_info[k].1.len() > 0 {
        match new_app.cell_info[k].1[0] {
            CellInfoView::Provisioned(id) => Some(id),
            _ => None,
        }
    } else {
        None
    }
}

/// The migration pairs, each with its target in the newly installed app.
pub open spec fn spec_plan(new_app: AppInfoView, pairs: Seq<(Seq<char>, CellIdView)>) -> Seq<
    PlannedMigrationView,
> {
    Seq::new(
        pairs.len(),
        |i: int|
            PlannedMigrationView {
                role: pairs[i].0,
                superseded: pairs[i].1,
                target: spec_migration_target(new_app, pairs[i].0),
            },
    )
}

/// The cell of a newly installed app that is to migrate for a role.
pub fn migration_target(new_app: &AppInfo, role: &String) -> (target: Option<CellId>)
    ensures
        target.deep_view() == spec_migration_target(new_app@, role@),
{
    let k = index_of(&new_app.cell_info, role);
    if k < new_app.cell_info.len() && new_app.cell_info[k].1.len() > 0 {
        assert(new_app@.cell_info[k as int].1 == new_app.cell_info@[k as int].1.deep_view());
        match &new_app.cell_info[k].1[0] {
            CellInfo::Provisioned(id) => Some(id.clone()),
            _ => None,
        }
    } else {
        None
    }
}

/// Looks up, for each migration pair, the cell that is to migrate.
pub fn plan_migrations(new_app: &AppInfo, pairs: Vec<(String, CellId)>) -> (plan: Vec<
    PlannedMigration,
>)
    ensures
        plan.deep_view() == spec_plan(new_app@, pairs.deep_view()),
{
    let ghost expected = spec_plan(new_app@, pairs.deep_view());
    let mut plan: Vec<PlannedMigration> = Vec::with_capacity(pairs.len());
    let mut i: usize = 0;
    while i < pairs.len()
        invariant
            i <= pairs.len(),
            plan.len() == i,
            expected == spec_plan(new_app@, pairs.deep_view()),
            forall|j: int| 0 <= j < i ==> plan@[j]@ == expected[j],
        decreases pairs.len() - i,
    {
        let pair = &pairs[i];
        assert(pairs.deep_view()[i as int] == (pair.0@, pair.1@));
        let target = migration_target(new_app, &pair.0);
        plan.push(PlannedMigration { role: pair.0.clone(), superseded: pair.1.clone(), target });
        i = i + 1;
    }
    assert(plan.deep_view() =~= expected);
    plan
}

/// What an `InvokerStage` stands for.
pub enum InvokerStageView {
    Discovering,
    Calling { payload: Seq<u8>, zomes: Seq<Seq<char>>, results: Seq<ZomeMigrationView> },
}

/// What the invoker is waiting for.
#[derive(Debug, PartialEq, Eq)]
enum InvokerStage {
    /// The zomes of the current role's cell that can migrate.
    Discovering,
    /// The return of the call in the zome that follows those with results.
    Calling { payload: Vec<u8>, zomes: Vec<String>, results: Vec<ZomeMigration> },
}

impl View for InvokerStage {
    type V = InvokerStageView;

    closed spec fn view(&self) -> InvokerStageView {
        match self {
            InvokerStage::Discovering => InvokerStageView::Discovering,
            InvokerStage::Calling { payload, zomes, results } => InvokerStageView::Calling {
                payload: payload@,
                zomes: zomes.deep_view(),
                results: results.deep_view(),
            },
        }
    }
}

/// What an `Invoker` stands for: the planned migrations, the outcomes of
/// those that are over, and what is awaited for the one that follows them.
pub struct InvokerView {
    pub plan: Seq<PlannedMigrationView>,
    pub outcomes: Seq<RoleMigrationView>,
    pub stage: InvokerStageView,
}

/// The state of a run of migrations that awaits an answer of the conductor.
#[derive(Debug, PartialEq, Eq)]
pub struct Invoker {
    plan: Vec<PlannedMigration>,
    outcomes: Vec<RoleMigration>,
    cell: CellId,
    stage: InvokerStage,
}

/// A state that awaits an answer is at work on a role that has a cell, and,
/// where it awaits the return of a call, has a zome left to which the call
/// went.
pub open spec fn spec_invoker_at_work(state: InvokerView) -> bool {
    &&& state.outcomes.len() < state.plan.len()
    &&& state.plan[state.outcomes.len() as int].target is Some
    &&& (state.stage matches InvokerStageView::Calling { zomes, results, .. } ==> results.len()
        < zomes.len())
}

impl View for Invoker {
    type V = InvokerView;

    closed spec fn view(&self) -> InvokerView {
        InvokerView {
            plan: self.plan.deep_view(),
            outcomes: self.outcomes.deep_view(),
            stage: self.stage@,
        }
    }
}

/// What an `InvokerStep` stands for.
pub enum InvokerStepView {
    Next(InvokerView, RequestView),
    Done(Seq<RoleMigrationView>),
    Failed(ErrorView),
}

/// Where a run of migrations stands after an answer.
#[derive(Debug)]
pub enum InvokerStep {
    /// The run goes on with this request.
    Next(Invoker, Request),
    /// The run is over; with the outcome of each pair, in the order of the
    /// pairs.
    Done(Vec<RoleMigration>),
    /// The run was given up.
    Failed(Error),
}

impl View for InvokerStep {
    type V = InvokerStepView;

    open spec fn view(&self) -> InvokerStepView {
        match self {
            InvokerStep::Next(state, request) => InvokerStepView::Next(state@, request@),
            InvokerStep::Done(outcomes) => InvokerStepView::Done(outcomes.deep_view()),
            InvokerStep::Failed(e) => InvokerStepView::Failed(e@),
        }
    }
}

/// Passes over the planned migrations without a cell, from the one that
/// follows the outcomes: the run is over where none with a cell is left, and
/// asks for the zomes of that cell otherwise.
pub open spec fn spec_advance(
    plan: Seq<PlannedMigrationView>,
    outcomes: Seq<RoleMigrationView>,
) -> InvokerStepView
    decreases plan.len() - outcomes.len(),
{
    let i = outcomes.len() as int;
    if i >= plan.len() {
        InvokerStepView::Done(outcomes)
    } else {
        match plan[i].target {
            None => spec_advance(
                plan,
                outcomes.push(RoleMigrationView::NotCreated { role: plan[i].role }),
            ),
            Some(cell_id) => InvokerStepView::Next(
                InvokerView { plan, outcomes, stage: InvokerStageView::Discovering },
                RequestView::FindMigratingZomes { cell_id },
            ),
        }
    }
}

/// Goes on with the current role once `results` are in: calls the zome that
/// follows them, or, where none is left, closes the role and advances.
pub open spec fn spec_after_call(
    plan: Seq<PlannedMigrationView>,
    outcomes: Seq<RoleMigrationView>,
    payload: Seq<u8>,
    zomes: Seq<Seq<char>>,
    results: Seq<ZomeMigrationView>,
) -> InvokerStepView {
    let item = plan[outcomes.len() as int];
    if results.len() < zomes.len() {
        InvokerStepView::Next(
            InvokerView {
                plan,
                outcomes,
                stage: InvokerStageView::Calling { payload, zomes, results },
            },
            RequestView::CallMigrate {
                cell_id: item.target->0,
                zome: zomes[results.len() as int],
                fn_name: spec_migrate_fn_name(),
                payload,
            },
        )
    } else {
        spec_advance(
            plan,
            outcomes.push(
                RoleMigrationView::Migrated {
                    role: item.role,
                    cell_id: item.target->0,
                    zomes: results,
                },
            ),
        )
    }
}

/// Where a run of migrations stands after an answer of the conductor.
pub open spec fn spec_invoker_step(state: InvokerView, response: ResponseView) -> InvokerStepView {
    let item = state.plan[state.outcomes.len() as int];
    match state.stage {
        InvokerStageView::Discovering => match response {
            ResponseView::MigratingZomes(zomes) => if zomes.len() == 0 {
                spec_after_call(state.plan, state.outcomes, Seq::empty(), zomes, Seq::empty())
            } else {
                spec_after_call(
                    state.plan,
                    state.outcomes,
                    spec_encoded_cell_id(item.superseded.dna_hash, item.superseded.agent_pub_key),
                    zomes,
                    Seq::empty(),
                )
            },
            ResponseView::Failed(cause) => InvokerStepView::Failed(
                ErrorView::MigrateAppError(
                    MigrateAppErrorView::GetZomeTraitsError(item.role, cause),
                ),
            ),
            _ => InvokerStepView::Failed(
                ErrorView::MigrateAppError(
                    MigrateAppErrorView::ConductorApiError(spec_unexpected_response()),
                ),
            ),
        },
        InvokerStageView::Calling { payload, zomes, results } => match response {
            ResponseView::Migrated => spec_after_call(
                state.plan,
                state.outcomes,
                payload,
                zomes,
                results.push(
                    ZomeMigrationView { zome: zomes[results.len() as int], error: None },
                ),
            ),
            ResponseView::Failed(cause) => spec_after_call(
                state.plan,
                state.outcomes,
                payload,
                zomes,
                results.push(
                    ZomeMigrationView { zome: zomes[results.len() as int], error: Some(cause) },
                ),
            ),
            _ => InvokerStepView::Failed(
                ErrorView::MigrateAppError(
                    MigrateAppErrorView::ConductorApiError(spec_unexpected_response()),
                ),
            ),
        },
    }
}

/// The error for an answer that is none to the pending request.
pub fn unexpected_response() -> (e: Error)
    ensures
        e@ == ErrorView::MigrateAppError(
            MigrateAppErrorView::ConductorApiError(spec_unexpected_response()),
        ),
{
    Error::MigrateAppError(
        MigrateAppError::ConductorApiError(String::from_str("unexpected response")),
    )
}

impl Invoker {
    #[verifier::type_invariant]
    spec fn well_formed(self) -> bool {
        &&& spec_invoker_at_work(self@)
        &&& spec_outcomes_match(self@.plan, self@.outcomes)
        &&& self@.plan[self@.outcomes.len() as int].target == Some(self.cell@)
    }

    fn advance(plan: Vec<PlannedMigration>, done: Vec<RoleMigration>) -> (step: InvokerStep)
        requires
            spec_outcomes_match(plan.deep_view(), done.deep_view()),
        ensures
            step@ == spec_advance(plan.deep_view(), done.deep_view()),
            spec_step_in_line(plan.deep_view(), step@),
    {
        let ghost goal = spec_advance(plan.deep_view(), done.deep_view());
        proof {
            lemma_advance_in_line(plan.deep_view(), done.deep_view());
        }
        let mut outcomes = done;
        while outcomes.len() < plan.len()
            invariant
                outcomes.len() <= plan.len(),
                spec_step_in_line(plan.deep_view(), goal),
                goal == spec_advance(plan.deep_view(), done.deep_view()),
                goal == spec_advance(plan.deep_view(), outcomes.deep_view()),
            decreases plan.len() - outcomes.len(),
        {
            let i = outcomes.len();
            assert(plan.deep_view()[i as int] == plan@[i as int]@);
            match &plan[i].target {
                Some(cell_id) => {
                    let request = Request::FindMigratingZomes { cell_id: cell_id.clone() };
                    let cell = cell_id.clone();
                    let state = Invoker { plan, outcomes, cell, stage: InvokerStage::Discovering };
                    return InvokerStep::Next(state, request);
                },
                None => {
                    let ghost before = outcomes.deep_view();
                    let role = plan[i].role.clone();
                    outcomes.push(RoleMigration::NotCreated { role });
                    assert(outcomes.deep_view() =~= before.push(
                        RoleMigrationView::NotCreated { role: plan@[i as int].role@ },
                    ));
                },
            }
        }
        InvokerStep::Done(outcomes)
    }

    fn after_call(
        plan: Vec<PlannedMigration>,
        outcomes: Vec<RoleMigration>,
        cell: CellId,
        payload: Vec<u8>,
        zomes: Vec<String>,
        results: Vec<ZomeMigration>,
    ) -> (step: InvokerStep)
        requires
            spec_outcomes_match(plan.deep_view(), outcomes.deep_view()),
            outcomes.len() < plan.len(),
            plan.deep_view()[outcomes.len() as int].target == Some(cell@),
            results.len() <= zomes.len(),
        ensures
            step@ == spec_after_call(
                plan.deep_view(),
                outcomes.deep_view(),
                payload@,
                zomes.deep_view(),
                results.deep_view(),
            ),
            spec_step_in_line(plan.deep_view(), step@),
    {
        proof {
            lemma_after_call_in_line(
                plan.deep_view(),
                outcomes.deep_view(),
                payload@,
                zomes.deep_view(),
                results.deep_view(),
            );
        }
        let i = outcomes.len();
        assert(plan.deep_view()[i as int] == plan@[i as int]@);
        let cell_id = cell.clone();
        if results.len() < zomes.len() {
            let zome = zomes[results.len()].clone();
            assert(zomes.deep_view()[results.len() as int] == zome@);
            let request = Request::CallMigrate {
                cell_id,
                zome,
                fn_name: String::from_str("migrate"),
                payload: bytes_clone(&payload),
            };
            let state = Invoker {
                plan,
                outcomes,
                cell,
                stage: InvokerStage::Calling { payload, zomes, results },
            };
            InvokerStep::Next(state, request)
        } else {
            let ghost before = outcomes.deep_view();
            let ghost closed = RoleMigrationView::Migrated {
                role: plan@[i as int].role@,
                cell_id: cell_id@,
                zomes: results.deep_view(),
            };
            let role = plan[i].role.clone();
            let mut outcomes = outcomes;
            outcomes.push(RoleMigration::Migrated { role, cell_id, zomes: results });
            assert(outcomes.deep_view() =~= before.push(closed));
            Invoker::advance(plan, outcomes)
        }
    }

    /// Goes on with the current role once its zomes are found and the id of
    /// the superseded cell is encoded: asks for the call in the first zome
    /// with `payload`, or, where there is no zome, closes the role and
    /// advances.
    pub fn call_zomes(self, zomes: Vec<String>, payload: Vec<u8>) -> (step: InvokerStep)
        ensures
            step@ == spec_after_call(
                self@.plan,
                self@.outcomes,
                payload@,
                zomes.deep_view(),
                Seq::empty(),
            ),
            spec_step_in_line(self@.plan, step@),
    {
        proof {
            use_type_invariant(&self);
        }
        let Invoker { plan, outcomes, cell, stage: _ } = self;
        let results: Vec<ZomeMigration> = Vec::new();
        assert(results.deep_view() =~= Seq::<ZomeMigrationView>::empty());
        Invoker::after_call(plan, outcomes, cell, payload, zomes, results)
    }

    /// Takes the conductor's answer to the pending request.
    ///
    /// The zomes that were found are called one after the other. A call that
    /// failed is recorded with its cause, and the run goes on. The run is
    /// given up where the zomes of a role could not be listed, with
    /// `GetZomeTraitsError`, and where the answer is none to the pending
    /// request.
    pub fn step(self, response: Response) -> (step: InvokerStep)
        ensures
            step@ == spec_invoker_step(self@, response@),
            spec_step_in_line(self@.plan, step@),
    {
        proof {
            use_type_invariant(&self);
        }
        let Invoker { plan, outcomes, cell, stage } = self;
        let i = outcomes.len();
        assert(plan.deep_view()[i as int] == plan@[i as int]@);
        match stage {
            InvokerStage::Discovering => match response {
                Response::MigratingZomes(zomes) => {
                    let encoded = if zomes.len() == 0 {
                        let none: Vec<u8> = Vec::new();
                        assert(none@ =~= Seq::<u8>::empty());
                        Ok(none)
                    } else {
                        plan[i].superseded.encode()
                    };
                    match encoded {
                        Ok(payload) => {
                            let state = Invoker {
                                plan,
                                outcomes,
                                cell,
                                stage: InvokerStage::Discovering,
                            };
                            state.call_zomes(zomes, payload)
                        },
                        Err(e) => InvokerStep::Failed(Error::SerializedBytesError(e)),
                    }
                },
                Response::Failed(cause) => InvokerStep::Failed(
                    Error::MigrateAppError(
                        MigrateAppError::GetZomeTraitsError(plan[i].role.clone(), cause),
                    ),
                ),
                _ => InvokerStep::Failed(unexpected_response()),
            },
            InvokerStage::Calling { payload, zomes, results } => {
                let error = match response {
                    Response::Migrated => None,
                    Response::Failed(cause) => Some(cause),
                    _ => {
                        return InvokerStep::Failed(unexpected_response());
                    },
                };
                let ghost before = results.deep_view();
                let zome = zomes[results.len()].clone();
                assert(zomes.deep_view()[results.len() as int] == zome@);
                let mut results = results;
                let ghost recorded = ZomeMigrationView { zome: zome@, error: error.deep_view() };
                results.push(ZomeMigration { zome, error });
                assert(results.deep_view() =~= before.push(recorded));
                Invoker::after_call(plan, outcomes, cell, payload, zomes, results)
            },
        }
    }
}

/// Begins the migrations for the pairs that the differ listed, against the
/// newly installed app: the first request, or the outcomes at once where no
/// pair has a cell to migrate.
pub fn run_migrations(new_app: &AppInfo, pairs: Vec<(String, CellId)>) -> (step: InvokerStep)
    ensures
        step@ == spec_advance(spec_plan(new_app@, pairs.deep_view()), Seq::empty()),
        spec_step_in_line(spec_plan(new_app@, pairs.deep_view()), step@),
{
    let plan = plan_migrations(new_app, pairs);
    let outcomes: Vec<RoleMigration> = Vec::new();
    assert(outcomes.deep_view() =~= Seq::<RoleMigrationView>::empty());
    Invoker::advance(plan, outcomes)
}

/// The outcomes are those of the first planned migrations, one for each in
/// order: a migration without a cell was passed over, and one with a cell was
/// made on that cell.
pub open spec fn spec_outcomes_match(
    plan: Seq<PlannedMigrationView>,
    outcomes: Seq<RoleMigrationView>,
) -> bool {
    &&& outcomes.len() <= plan.len()
    &&& forall|j: int|
        0 <= j < outcomes.len() ==> match #[trigger] outcomes[j] {
            RoleMigrationView::NotCreated { role } => role == plan[j].role && plan[j].target
                is None,
            RoleMigrationView::Migrated { role, cell_id, .. } => role == plan[j].role
                && plan[j].target == Some(cell_id),
        }
}

/// The request that a state awaits the answer to: for the zomes of the current
/// role's cell, or for the call in the zome that follows those with results.
pub open spec fn spec_pending_request(state: InvokerView) -> RequestView {
    let cell_id = state.plan[state.outcomes.len() as int].target->0;
    match state.stage {
        InvokerStageView::Discovering => RequestView::FindMigratingZomes { cell_id },
        InvokerStageView::Calling { payload, zomes, results } => RequestView::CallMigrate {
            cell_id,
            zome: zomes[results.len() as int],
            fn_name: spec_migrate_fn_name(),
            payload,
        },
    }
}

/// A step keeps the plan, keeps the outcomes in line with it, hands out the
/// request that the state it leads to awaits the answer to, and ends with one
/// outcome for each planned migration.
pub open spec fn spec_step_in_line(plan: Seq<PlannedMigrationView>, step: InvokerStepView) -> bool {
    match step {
        InvokerStepView::Next(state, request) => state.plan == plan && spec_invoker_at_work(state)
            && spec_outcomes_match(plan, state.outcomes) && request == spec_pending_request(
            state,
        ),
        InvokerStepView::Done(outcomes) => outcomes.len() == plan.len() && spec_outcomes_match(
            plan,
            outcomes,
        ),
        InvokerStepView::Failed(_) => true,
    }
}

/// To advance gives up nothing and keeps the outcomes in line with the plan.
pub proof fn lemma_advance_in_line(
    plan: Seq<PlannedMigrationView>,
    outcomes: Seq<RoleMigrationView>,
)
    requires
        spec_outcomes_match(plan, outcomes),
    ensures
        !(spec_advance(plan, outcomes) is Failed),
        spec_advance(plan, outcomes) matches InvokerStepView::Next(state, _) ==> state.stage
            is Discovering,
        spec_step_in_line(plan, spec_advance(plan, outcomes)),
    decreases plan.len() - outcomes.len(),
{
    let i = outcomes.len() as int;
    if i < plan.len() && plan[i].target is None {
        let more = outcomes.push(RoleMigrationView::NotCreated { role: plan[i].role });
        assert forall|j: int| 0 <= j < more.len() implies match #[trigger] more[j] {
            RoleMigrationView::NotCreated { role } => role == plan[j].role && plan[j].target
                is None,
            RoleMigrationView::Migrated { role, cell_id, .. } => role == plan[j].role
                && plan[j].target == Some(cell_id),
        } by {
            if j < i {
                assert(more[j] == outcomes[j]);
            }
        }
        lemma_advance_in_line(plan, more);
    }
}

/// Once results are in, the run goes on in line with the plan.
pub proof fn lemma_after_call_in_line(
    plan: Seq<PlannedMigrationView>,
    outcomes: Seq<RoleMigrationView>,
    payload: Seq<u8>,
    zomes: Seq<Seq<char>>,
    results: Seq<ZomeMigrationView>,
)
    requires
        spec_outcomes_match(plan, outcomes),
        outcomes.len() < plan.len(),
        plan[outcomes.len() as int].target is Some,
    ensures
        !(spec_after_call(plan, outcomes, payload, zomes, results) is Failed),
        spec_step_in_line(plan, spec_after_call(plan, outcomes, payload, zomes, results)),
{
    if results.len() >= zomes.len() {
        let i = outcomes.len() as int;
        let more = outcomes.push(
            RoleMigrationView::Migrated {
                role: plan[i].role,
                cell_id: plan[i].target->0,
                zomes: results,
            },
        );
        assert forall|j: int| 0 <= j < more.len() implies match #[trigger] more[j] {
            RoleMigrationView::NotCreated { role } => role == plan[j].role && plan[j].target
                is None,
            RoleMigrationView::Migrated { role, cell_id, .. } => role == plan[j].role
                && plan[j].target == Some(cell_id),
        } by {
            if j < i {
                assert(more[j] == outcomes[j]);
            }
        }
        lemma_advance_in_line(plan, more);
    }
}

/// Where a run of migrations stands after a sequence of answers; answers that
/// come after the run's end are not looked at.
pub open spec fn spec_invoker_run(
    step: InvokerStepView,
    responses: Seq<ResponseView>,
) -> InvokerStepView
    decreases responses.len(),
{
    if responses.len() == 0 {
        step
    } else {
        match step {
            InvokerStepView::Next(state, _) => spec_invoker_run(
                spec_invoker_step(state, responses[0]),
                responses.drop_first(),
            ),
            _ => step,
        }
    }
}

/// A call that fails does not end the run. From a state that awaits the
/// return of a call, the answer that the call failed is never a reason to
/// give up: the failure is recorded for the zome with its cause, and the run
/// goes on with the zome that was found next, on the same cell and with the
/// same payload, or, after the last zome, with the roles that are left.
pub proof fn law_failed_call_is_recorded(state: InvokerView, cause: Seq<char>)
    requires
        spec_invoker_at_work(state),
        spec_outcomes_match(state.plan, state.outcomes),
        state.stage is Calling,
    ensures
        !(spec_invoker_step(state, ResponseView::Failed(cause)) is Failed),
        state.stage matches InvokerStageView::Calling { payload, zomes, results } && ({
            let recorded = results.push(
                ZomeMigrationView { zome: zomes[results.len() as int], error: Some(cause) },
            );
            if results.len() + 1 < zomes.len() {
                spec_invoker_step(state, ResponseView::Failed(cause)) == InvokerStepView::Next(
                    InvokerView {
                        stage: InvokerStageView::Calling { payload, zomes, results: recorded },
                        ..state
                    },
                    RequestView::CallMigrate {
                        cell_id: state.plan[state.outcomes.len() as int].target->0,
                        zome: zomes[results.len() as int + 1],
                        fn_name: spec_migrate_fn_name(),
                        payload,
                    },
                )
            } else {
                spec_invoker_step(state, ResponseView::Failed(cause)) == spec_advance(
                    state.plan,
                    state.outcomes.push(
                        RoleMigrationView::Migrated {
                            role: state.plan[state.outcomes.len() as int].role,
                            cell_id: state.plan[state.outcomes.len() as int].target->0,
                            zomes: recorded,
                        },
                    ),
                )
            }
        }),
{
    match state.stage {
        InvokerStageView::Calling { payload, zomes, results } => {
            let recorded = results.push(
                ZomeMigrationView { zome: zomes[results.len() as int], error: Some(cause) },
            );
            lemma_after_call_in_line(state.plan, state.outcomes, payload, zomes, recorded);
        },
        _ => {},
    }
}

/// One outcome for each pair. Whatever the conductor answers: where a run of
/// migrations ends, it ends with one outcome for each migration pair, in the
/// order of the pairs; the outcome of a pair names the pair's role, passes
/// the pair over exactly where the new app has no cell to migrate for the
/// role, and otherwise was reached on that cell.
pub proof fn law_one_outcome_per_pair(
    new_app: AppInfoView,
    pairs: Seq<(Seq<char>, CellIdView)>,
    responses: Seq<ResponseView>,
)
    requires
        spec_invoker_run(spec_advance(spec_plan(new_app, pairs), Seq::empty()), responses) is Done,
    ensures
        spec_invoker_run(
            spec_advance(spec_plan(new_app, pairs), Seq::empty()),
            responses,
        ) matches InvokerStepView::Done(outcomes) && outcomes.len() == pairs.len() && forall|j: int|
            0 <= j < pairs.len() ==> match #[trigger] outcomes[j] {
                RoleMigrationView::NotCreated { role } => role == pairs[j].0
                    && spec_migration_target(new_app, pairs[j].0) is None,
                RoleMigrationView::Migrated { role, cell_id, .. } => role == pairs[j].0
                    && spec_migration_target(new_app, pairs[j].0) == Some(cell_id),
            },
{
    let plan = spec_plan(new_app, pairs);
    lemma_advance_in_line(plan, Seq::empty());
    lemma_run_in_line(plan, spec_advance(plan, Seq::empty()), responses);
}

/// A run that begins in line with the plan stays in line with it.
pub proof fn lemma_run_in_line(
    plan: Seq<PlannedMigrationView>,
    step: InvokerStepView,
    responses: Seq<ResponseView>,
)
    requires
        spec_step_in_line(plan, step),
    ensures
        spec_step_in_line(plan, spec_invoker_run(step, responses)),
    decreases responses.len(),
{
    if responses.len() > 0 {
        if let InvokerStepView::Next(state, _) = step {
            let next = spec_invoker_step(state, responses[0]);
            lemma_step_in_line(state, responses[0]);
            lemma_run_in_line(plan, next, responses.drop_first());
        }
    }
}

/// A step from a state in line with its plan leads to one in line with it.
pub proof fn lemma_step_in_line(state: InvokerView, response: ResponseView)
    requires
        spec_invoker_at_work(state),
        spec_outcomes_match(state.plan, state.outcomes),
    ensures
        spec_step_in_line(state.plan, spec_invoker_step(state, response)),
{
    match state.stage {
        InvokerStageView::Discovering => {
            if let ResponseView::MigratingZomes(zomes) = response {
                let item = state.plan[state.outcomes.len() as int];
                lemma_after_call_in_line(
                    state.plan,
                    state.outcomes,
                    Seq::empty(),
                    zomes,
                    Seq::empty(),
                );
                lemma_after_call_in_line(
                    state.plan,
                    state.outcomes,
                    spec_encoded_cell_id(item.superseded.dna_hash, item.superseded.agent_pub_key),
                    zomes,
                    Seq::empty(),
                );
            }
        },
        InvokerStageView::Calling { payload, zomes, results } => {
            lemma_after_call_in_line(
                state.plan,
                state.outcomes,
                payload,
                zomes,
                results.push(ZomeMigrationView { zome: zomes[results.len() as int], error: None }),
            );
            if let ResponseView::Failed(cause) = response {
                lemma_after_call_in_line(
                    state.plan,
                    state.outcomes,
                    payload,
                    zomes,
                    results.push(
                        ZomeMigrationView { zome: zomes[results.len() as int], error: Some(cause) },
                    ),
                );
            }
        },
    }
}

/// The requests of a run that were answered, in the order in which they were
/// handed out. Each request is handed out when the one before it has been
/// answered.
pub open spec fn spec_answered(step: InvokerStepView, responses: Seq<ResponseView>) -> Seq<
    RequestView,
>
    decreases responses.len(),
{
    match step {
        InvokerStepView::Next(state, request) => if responses.len() == 0 {
            Seq::empty()
        } else {
            seq![request] + spec_answered(
                spec_invoker_step(state, responses[0]),
                responses.drop_first(),
            )
        },
        _ => Seq::empty(),
    }
}

/// What the conductor answers for one role: the zomes that it finds, and its
/// answer to the call in each of them.
pub struct RoleScript {
    pub zomes: Seq<Seq<char>>,
    pub answers: Seq<ResponseView>,
}

/// The cause of a call that failed, and none for any other answer.
pub open spec fn spec_call_error(answer: ResponseView) -> Option<Seq<char>> {
    match answer {
        ResponseView::Failed(cause) => Some(cause),
        _ => None,
    }
}

/// Each zome has its answer, and each answer says that the call returned or
/// that it failed.
pub open spec fn spec_script_fits(script: RoleScript) -> bool {
    &&& script.answers.len() == script.zomes.len()
    &&& forall|j: int|
        0 <= j < script.answers.len() ==> (#[trigger] script.answers[j]) is Migrated
            || script.answers[j] is Failed
}

/// The calls of `migrate` in the zomes from `from` on, in the order of the
/// zomes, on one cell and with one payload.
pub open spec fn spec_calls(
    cell_id: CellIdView,
    payload: Seq<u8>,
    zomes: Seq<Seq<char>>,
    from: int,
) -> Seq<RequestView> {
    Seq::new(
        (zomes.len() - from) as nat,
        |j: int|
            RequestView::CallMigrate {
                cell_id,
                zome: zomes[from + j],
                fn_name: spec_migrate_fn_name(),
                payload,
            },
    )
}

/// What is recorded of the calls in the zomes from `from` on, given the
/// answers to them.
pub open spec fn spec_record(zomes: Seq<Seq<char>>, from: int, answers: Seq<ResponseView>) -> Seq<
    ZomeMigrationView,
> {
    Seq::new(
        answers.len(),
        |j: int| ZomeMigrationView { zome: zomes[from + j], error: spec_call_error(answers[j]) },
    )
}

/// The requests that are due for one planned migration with a cell: one for
/// the zomes of the new cell, then one call for each zome that was found, in
/// the order in which they were found, each with the id of the superseded
/// cell as its payload.
pub open spec fn spec_role_requests(item: PlannedMigrationView, script: RoleScript) -> Seq<
    RequestView,
> {
    seq![RequestView::FindMigratingZomes { cell_id: item.target->0 }] + spec_calls(
        item.target->0,
        spec_encoded_cell_id(item.superseded.dna_hash, item.superseded.agent_pub_key),
        script.zomes,
        0,
    )
}

/// The answers of the conductor for one planned migration with a cell.
pub open spec fn spec_role_responses(script: RoleScript) -> Seq<ResponseView> {
    seq![ResponseView::MigratingZomes(script.zomes)] + script.answers
}

/// The requests that are due for the planned migrations from `from` on.
pub open spec fn spec_all_requests(
    plan: Seq<PlannedMigrationView>,
    scripts: Seq<RoleScript>,
    from: int,
) -> Seq<RequestView>
    decreases plan.len() - from,
{
    if from < 0 || from >= plan.len() {
        Seq::empty()
    } else if plan[from].target is Some {
        spec_role_requests(plan[from], scripts[from]) + spec_all_requests(plan, scripts, from + 1)
    } else {
        spec_all_requests(plan, scripts, from + 1)
    }
}

/// The answers of the conductor for the planned migrations from `from` on.
pub open spec fn spec_all_responses(
    plan: Seq<PlannedMigrationView>,
    scripts: Seq<RoleScript>,
    from: int,
) -> Seq<ResponseView>
    decreases plan.len() - from,
{
    if from < 0 || from >= plan.len() {
        Seq::empty()
    } else if plan[from].target is Some {
        spec_role_responses(scripts[from]) + spec_all_responses(plan, scripts, from + 1)
    } else {
        spec_all_responses(plan, scripts, from + 1)
    }
}

/// The calls of one role: once the results of the first zomes are in and the
/// conductor answers each further call, the run asks for the calls in the
/// zomes that are left, one after the other, and then goes on with the roles
/// that follow.
pub proof fn lemma_calls_in_turn(
    plan: Seq<PlannedMigrationView>,
    outcomes: Seq<RoleMigrationView>,
    payload: Seq<u8>,
    zomes: Seq<Seq<char>>,
    results: Seq<ZomeMigrationView>,
    answers: Seq<ResponseView>,
    rest: Seq<ResponseView>,
)
    requires
        results.len() + answers.len() == zomes.len(),
        forall|j: int|
            0 <= j < answers.len() ==> (#[trigger] answers[j]) is Migrated || answers[j] is Failed,
    ensures
        spec_answered(spec_after_call(plan, outcomes, payload, zomes, results), answers + rest)
            == spec_calls(
            plan[outcomes.len() as int].target->0,
            payload,
            zomes,
            results.len() as int,
        ) + spec_answered(
            spec_advance(
                plan,
                outcomes.push(
                    RoleMigrationView::Migrated {
                        role: plan[outcomes.len() as int].role,
                        cell_id: plan[outcomes.len() as int].target->0,
                        zomes: results + spec_record(zomes, results.len() as int, answers),
                    },
                ),
            ),
            rest,
        ),
        spec_invoker_run(spec_after_call(plan, outcomes, payload, zomes, results), answers + rest)
            == spec_invoker_run(
            spec_advance(
                plan,
                outcomes.push(
                    RoleMigrationView::Migrated {
                        role: plan[outcomes.len() as int].role,
                        cell_id: plan[outcomes.len() as int].target->0,
                        zomes: results + spec_record(zomes, results.len() as int, answers),
                    },
                ),
            ),
            rest,
        ),
    decreases answers.len(),
{
    let cell_id = plan[outcomes.len() as int].target->0;
    let from = results.len() as int;
    if answers.len() == 0 {
        assert(answers + rest =~= rest);
        assert(spec_calls(cell_id, payload, zomes, from) =~= Seq::<RequestView>::empty());
        assert(results + spec_record(zomes, from, answers) =~= results);
        assert(Seq::<RequestView>::empty() + spec_answered(
            spec_advance(
                plan,
                outcomes.push(
                    RoleMigrationView::Migrated {
                        role: plan[outcomes.len() as int].role,
                        cell_id,
                        zomes: results,
                    },
                ),
            ),
            rest,
        ) =~= spec_answered(
            spec_advance(
                plan,
                outcomes.push(
                    RoleMigrationView::Migrated {
                        role: plan[outcomes.len() as int].role,
                        cell_id,
                        zomes: results,
                    },
                ),
            ),
            rest,
        ));
    } else {
        let all = answers + rest;
        let first = answers[0];
        let recorded = results.push(
            ZomeMigrationView { zome: zomes[from], error: spec_call_error(first) },
        );
        let later = answers.drop_first();
        assert(all[0] == first);
        assert(all.drop_first() =~= later + rest);
        assert(later.len() == answers.len() - 1);
        assert forall|j: int| 0 <= j < later.len() implies (#[trigger] later[j]) is Migrated
            || later[j] is Failed by {
            assert(later[j] == answers[j + 1]);
        }
        lemma_calls_in_turn(plan, outcomes, payload, zomes, recorded, later, rest);
        assert(recorded + spec_record(zomes, from + 1, later) =~= results + spec_record(
            zomes,
            from,
            answers,
        ));
        let call = RequestView::CallMigrate {
            cell_id,
            zome: zomes[from],
            fn_name: spec_migrate_fn_name(),
            payload,
        };
        assert(seq![call] + spec_calls(cell_id, payload, zomes, from + 1) =~= spec_calls(
            cell_id,
            payload,
            zomes,
            from,
        ));
        let state = InvokerView {
            plan,
            outcomes,
            stage: InvokerStageView::Calling { payload, zomes, results },
        };
        assert(spec_after_call(plan, outcomes, payload, zomes, results) == InvokerStepView::Next(
            state,
            call,
        ));
        assert(spec_invoker_step(state, first) == spec_after_call(
            plan,
            outcomes,
            payload,
            zomes,
            recorded,
        ));
        let tail = spec_answered(
            spec_advance(
                plan,
                outcomes.push(
                    RoleMigrationView::Migrated {
                        role: plan[outcomes.len() as int].role,
                        cell_id,
                        zomes: results + spec_record(zomes, from, answers),
                    },
                ),
            ),
            rest,
        );
        assert(seq![call] + (spec_calls(cell_id, payload, zomes, from + 1) + tail) =~= spec_calls(
            cell_id,
            payload,
            zomes,
            from,
        ) + tail);
    }
}

/// Each pair once, each zome once. Let the conductor find, for each planned
/// migration with a cell, some zomes, and answer each call of `migrate` by
/// its return or its failure. Then the run that begins after the outcomes of
/// the first `from` migrations asks, for each migration with a cell and in
/// the order of the plan, once for the zomes of the new cell and then once
/// for each zome that was found, in the order in which they were found, on
/// the new cell and with the id of the superseded cell as payload; it asks
/// nothing else, and these answers end it.
pub proof fn lemma_requests_in_turn(
    plan: Seq<PlannedMigrationView>,
    scripts: Seq<RoleScript>,
    outcomes: Seq<RoleMigrationView>,
)
    requires
        scripts.len() == plan.len(),
        outcomes.len() <= plan.len(),
        forall|i: int| 0 <= i < scripts.len() ==> spec_script_fits(#[trigger] scripts[i]),
    ensures
        spec_answered(
            spec_advance(plan, outcomes),
            spec_all_responses(plan, scripts, outcomes.len() as int),
        ) == spec_all_requests(plan, scripts, outcomes.len() as int),
        spec_invoker_run(
            spec_advance(plan, outcomes),
            spec_all_responses(plan, scripts, outcomes.len() as int),
        ) is Done,
    decreases plan.len() - outcomes.len(),
{
    let from = outcomes.len() as int;
    if from < plan.len() {
        let item = plan[from];
        match item.target {
            None => {
                lemma_requests_in_turn(
                    plan,
                    scripts,
                    outcomes.push(RoleMigrationView::NotCreated { role: item.role }),
                );
            },
            Some(cell_id) => {
                let script = scripts[from];
                assert(spec_script_fits(script));
                let rest = spec_all_responses(plan, scripts, from + 1);
                let responses = spec_all_responses(plan, scripts, from);
                let found = ResponseView::MigratingZomes(script.zomes);
                assert(responses =~= seq![found] + (script.answers + rest));
                assert(responses[0] == found);
                assert(responses.drop_first() =~= script.answers + rest);
                let payload = if script.zomes.len() == 0 {
                    Seq::<u8>::empty()
                } else {
                    spec_encoded_cell_id(item.superseded.dna_hash, item.superseded.agent_pub_key)
                };
                let state = InvokerView { plan, outcomes, stage: InvokerStageView::Discovering };
                assert(spec_invoker_step(state, found) == spec_after_call(
                    plan,
                    outcomes,
                    payload,
                    script.zomes,
                    Seq::empty(),
                ));
                lemma_calls_in_turn(
                    plan,
                    outcomes,
                    payload,
                    script.zomes,
                    Seq::empty(),
                    script.answers,
                    rest,
                );
                let closed = outcomes.push(
                    RoleMigrationView::Migrated {
                        role: item.role,
                        cell_id,
                        zomes: Seq::<ZomeMigrationView>::empty() + spec_record(
                            script.zomes,
                            0,
                            script.answers,
                        ),
                    },
                );
                lemma_requests_in_turn(plan, scripts, closed);
                let encoded = spec_encoded_cell_id(
                    item.superseded.dna_hash,
                    item.superseded.agent_pub_key,
                );
                assert(spec_calls(cell_id, payload, script.zomes, 0) =~= spec_calls(
                    cell_id,
                    encoded,
                    script.zomes,
                    0,
                ));
                let find = RequestView::FindMigratingZomes { cell_id };
                let calls = spec_calls(cell_id, encoded, script.zomes, 0);
                let later = spec_all_requests(plan, scripts, from + 1);
                assert(seq![find] + (calls + later) =~= (seq![find] + calls) + later);
            },
        }
    }
}

/// Each pair once, each zome once, from the newly installed app on. Let the
/// conductor find, for each migration pair whose role has a cell in the new
/// app, some zomes, and answer each call of `migrate` by its return or its
/// failure. Then the run of migrations asks, pair by pair in their order,
/// once for the zomes of the role's new cell and then once for each zome that
/// was found, in the order in which they were found, on the new cell and with
/// the id of the pair's superseded cell as payload. It asks nothing else, each
/// request after the answer to the one before, and these answers end it.
pub proof fn law_each_pair_once_each_zome_once(
    new_app: AppInfoView,
    pairs: Seq<(Seq<char>, CellIdView)>,
    scripts: Seq<RoleScript>,
)
    requires
        scripts.len() == pairs.len(),
        forall|i: int| 0 <= i < scripts.len() ==> spec_script_fits(#[trigger] scripts[i]),
    ensures
        spec_answered(
            spec_advance(spec_plan(new_app, pairs), Seq::empty()),
            spec_all_responses(spec_plan(new_app, pairs), scripts, 0),
        ) == spec_all_requests(spec_plan(new_app, pairs), scripts, 0),
        spec_invoker_run(
            spec_advance(spec_plan(new_app, pairs), Seq::empty()),
            spec_all_responses(spec_plan(new_app, pairs), scripts, 0),
        ) is Done,
{
    lemma_requests_in_turn(spec_plan(new_app, pairs), scripts, Seq::empty());
}

} // verus!

//! The chain linker: closes the source chain of a superseded cell and opens
//! that of the cell that takes its place, each record pointing at the other.
//!
//! The linker writes nothing itself. It is a state machine: it names the next
//! request to the conductor, takes the answer, and moves on. The open record
//! is requested only once the close record has been written and the old
//! chain has been flushed.

use crate::cell::{CellId, CellIdView};
use crate::error::{Error, ErrorView};
use crate::hash::{ActionHash, AgentPubKey, DnaHash};
use vstd::prelude::*;
use vstd::string::StringExecFns;

verus! {

/// What a `MigrationTarget` stands for.
pub enum MigrationTargetView {
    Dna(Seq<u8>),
    Agent(Seq<u8>),
}

/// The end of a migration that a close or open record points at: the other
/// DNA where the DNA changed, the other agent where the agent changed.
#[derive(Debug, PartialEq, Eq)]
pub enum MigrationTarget {
    Dna(DnaHash),
    Agent(AgentPubKey),
}

impl View for MigrationTarget {
    type V = MigrationTargetView;

    open spec fn view(&self) -> MigrationTargetView {
        match self {
            MigrationTarget::Dna(h) => MigrationTargetView::Dna(h@),
            MigrationTarget::Agent(k) => MigrationTargetView::Agent(k@),
        }
    }
}

impl DeepView for MigrationTarget {
    type V = MigrationTargetView;

    open spec fn deep_view(&self) -> MigrationTargetView {
        self@
    }
}

impl Clone for MigrationTarget {
    fn clone(&self) -> (copy: Self)
        ensures
            copy@ == self@,
    {
        match self {
            MigrationTarget::Dna(h) => MigrationTarget::Dna(h.clone()),
            MigrationTarget::Agent(k) => MigrationTarget::Agent(k.clone()),
        }
    }
}

/// The direction of a migration between two cells, as the pair of what the
/// open record points back at and what the close record points forward at.
/// The cells must differ in exactly one of DNA and agent; there is no
/// direction otherwise.
pub open spec fn spec_direction(old_cell: CellIdView, new_cell: CellIdView) -> Option<
    (MigrationTargetView, MigrationTargetView),
> {
    if old_cell.dna_hash == new_cell.dna_hash && old_cell.agent_pub_key != new_cell.agent_pub_key {
        Some(
            (
                MigrationTargetView::Agent(old_cell.agent_pub_key),
                MigrationTargetView::Agent(new_cell.agent_pub_key),
            ),
        )
    } else if old_cell.dna_hash != new_cell.dna_hash && old_cell.agent_pub_key
        == new_cell.agent_pub_key {
        Some(
            (MigrationTargetView::Dna(old_cell.dna_hash), MigrationTargetView::Dna(new_cell.dna_hash)),
        )
    } else {
        None
    }
}

/// Finds the direction of a migration between two cells: backward target
/// first, forward target second.
pub fn migration_direction(old_cell: &CellId, new_cell: &CellId) -> (direction: Option<
    (MigrationTarget, MigrationTarget),
>)
    ensures
        direction.deep_view() == spec_direction(old_cell@, new_cell@),
{
    let same_dna = old_cell.dna_hash().equals(new_cell.dna_hash());
    let same_agent = old_cell.agent_pubkey().equals(new_cell.agent_pubkey());
    if same_dna && !same_agent {
        Some(
            (
                MigrationTarget::Agent(old_cell.agent_pubkey().clone()),
                MigrationTarget::Agent(new_cell.agent_pubkey().clone()),
            ),
        )
    } else if !same_dna && same_agent {
        Some(
            (
                MigrationTarget::Dna(old_cell.dna_hash().clone()),
                MigrationTarget::Dna(new_cell.dna_hash().clone()),
            ),
        )
    } else {
        None
    }
}

/// What a `LinkRequest` stands for.
pub enum LinkRequestView {
    AppendClose { cell_id: CellIdView, forward: MigrationTargetView },
    FlushChain { cell_id: CellIdView },
    AppendOpen { cell_id: CellIdView, backward: MigrationTargetView, close_hash: Seq<u8> },
}

/// What the linker asks of the conductor.
#[derive(Debug, PartialEq, Eq)]
pub enum LinkRequest {
    /// Append a close record that points forward, with strict ordering, to the
    /// chain of `cell_id`.
    AppendClose { cell_id: CellId, forward: MigrationTarget },
    /// Flush the chain of `cell_id` to its network.
    FlushChain { cell_id: CellId },
    /// Append an open record that points backward and names the close record,
    /// with strict ordering, to the chain of `cell_id`.
    AppendOpen { cell_id: CellId, backward: MigrationTarget, close_hash: ActionHash },
}

impl View for LinkRequest {
    type V = LinkRequestView;

    open spec fn view(&self) -> LinkRequestView {
        match self {
            LinkRequest::AppendClose { cell_id, forward } => LinkRequestView::AppendClose {
                cell_id: cell_id@,
                forward: forward@,
            },
            LinkRequest::FlushChain { cell_id } => LinkRequestView::FlushChain { cell_id: cell_id@ },
            LinkRequest::AppendOpen { cell_id, backward, close_hash } => {
                LinkRequestView::AppendOpen {
                    cell_id: cell_id@,
                    backward: backward@,
                    close_hash: close_hash@,
                }
            },
        }
    }
}

/// What a `LinkResponse` stands for.
pub enum LinkResponseView {
    Appended(Seq<u8>),
    Flushed,
    Failed(Seq<char>),
}

/// What the conductor answered to a request of the linker.
#[derive(Debug, PartialEq, Eq)]
pub enum LinkResponse {
    /// The record was appended; with its hash.
    Appended(ActionHash),
    /// The chain was flushed.
    Flushed,
    /// The request failed; with the cause.
    Failed(String),
}

impl View for LinkResponse {
    type V = LinkResponseView;

    open spec fn view(&self) -> LinkResponseView {
        match self {
            LinkResponse::Appended(h) => LinkResponseView::Appended(h@),
            LinkResponse::Flushed => LinkResponseView::Flushed,
            LinkResponse::Failed(cause) => LinkResponseView::Failed(cause@),
        }
    }
}

/// How far a link has come.
pub enum LinkStageView {
    Idle,
    ClosureWritten { close_hash: Seq<u8> },
    ClosureFlushed { close_hash: Seq<u8> },
    OpenWritten { close_hash: Seq<u8>, open_hash: Seq<u8> },
    OpenFlushed { close_hash: Seq<u8>, open_hash: Seq<u8> },
}

/// How far a link has come. Each stage names what has been achieved; the
/// request that leads to the next stage is pending.
#[derive(Debug, PartialEq, Eq)]
pub enum LinkStage {
    /// Nothing is written.
    Idle,
    /// The close record stands in the old chain.
    ClosureWritten { close_hash: ActionHash },
    /// The old chain, with the close record, is flushed.
    ClosureFlushed { close_hash: ActionHash },
    /// The open record stands in the new chain.
    OpenWritten { close_hash: ActionHash, open_hash: ActionHash },
    /// The new chain, with the open record, is flushed: the link is complete.
    OpenFlushed { close_hash: ActionHash, open_hash: ActionHash },
}

impl View for LinkStage {
    type V = LinkStageView;

    open spec fn view(&self) -> LinkStageView {
        match self {
            LinkStage::Idle => LinkStageView::Idle,
            LinkStage::ClosureWritten { close_hash } => LinkStageView::ClosureWritten {
                close_hash: close_hash@,
            },
            LinkStage::ClosureFlushed { close_hash } => LinkStageView::ClosureFlushed {
                close_hash: close_hash@,
            },
            LinkStage::OpenWritten { close_hash, open_hash } => LinkStageView::OpenWritten {
                close_hash: close_hash@,
                open_hash: open_hash@,
            },
            LinkStage::OpenFlushed { close_hash, open_hash } => LinkStageView::OpenFlushed {
                close_hash: close_hash@,
                open_hash: open_hash@,
            },
        }
    }
}

/// What a `LinkState` stands for.
pub struct LinkStateView {
    pub old_cell: CellIdView,
    pub new_cell: CellIdView,
    pub backward: MigrationTargetView,
    pub forward: MigrationTargetView,
    pub stage: LinkStageView,
}

/// The state of one link between a superseded cell and its successor.
#[derive(Debug, PartialEq, Eq)]
pub struct LinkState {
    /// The cell whose chain is closed.
    pub old_cell: CellId,
    /// The cell whose chain is opened.
    pub new_cell: CellId,
    /// What the open record points back at.
    pub backward: MigrationTarget,
    /// What the close record points forward at.
    pub forward: MigrationTarget,
    /// How far the link has come.
    pub stage: LinkStage,
}

impl View for LinkState {
    type V = LinkStateView;

    open spec fn view(&self) -> LinkStateView {
        LinkStateView {
            old_cell: self.old_cell@,
            new_cell: self.new_cell@,
            backward: self.backward@,
            forward: self.forward@,
            stage: self.stage@,
        }
    }
}

/// What a `LinkOutcome` stands for.
pub enum LinkOutcomeView {
    Next(LinkRequestView),
    Linked { close_hash: Seq<u8>, open_hash: Seq<u8> },
    Stopped { cause: Seq<char> },
}

/// What follows from an answer of the conductor.
#[derive(Debug, PartialEq, Eq)]
pub enum LinkOutcome {
    /// The link moved on: this is the next request.
    Next(LinkRequest),
    /// The link is complete; with the hashes of the close and the open record.
    Linked { close_hash: ActionHash, open_hash: ActionHash },
    /// The link does not move on: the pending request failed, or the answer
    /// was none to it. The state is the one that had been reached.
    Stopped { cause: String },
}

impl View for LinkOutcome {
    type V = LinkOutcomeView;

    open spec fn view(&self) -> LinkOutcomeView {
        match self {
            LinkOutcome::Next(r) => LinkOutcomeView::Next(r@),
            LinkOutcome::Linked { close_hash, open_hash } => LinkOutcomeView::Linked {
                close_hash: close_hash@,
                open_hash: open_hash@,
            },
            LinkOutcome::Stopped { cause } => LinkOutcomeView::Stopped { cause: cause@ },
        }
    }
}

/// The cause that is reported where an answer is none to the pending request.
pub open spec fn spec_unexpected() -> Seq<char> {
    "unexpected answer"@
}

/// The request that is pending in a state; none once the link is complete.
pub open spec fn spec_pending(state: LinkStateView) -> Option<LinkRequestView> {
    match state.stage {
        LinkStageView::Idle => Some(
            LinkRequestView::AppendClose { cell_id: state.old_cell, forward: state.forward },
        ),
        LinkStageView::ClosureWritten { .. } => Some(
            LinkRequestView::FlushChain { cell_id: state.old_cell },
        ),
        LinkStageView::ClosureFlushed { close_hash } => Some(
            LinkRequestView::AppendOpen {
                cell_id: state.new_cell,
                backward: state.backward,
                close_hash,
            },
        ),
        LinkStageView::OpenWritten { .. } => Some(
            LinkRequestView::FlushChain { cell_id: state.new_cell },
        ),
        LinkStageView::OpenFlushed { .. } => None,
    }
}

/// The stage that an answer leads to from a stage; `None` where the answer
/// does not move the link on.
pub open spec fn spec_next_stage(stage: LinkStageView, response: LinkResponseView) -> Option<
    LinkStageView,
> {
    match (stage, response) {
        (LinkStageView::Idle, LinkResponseView::Appended(h)) => Some(
            LinkStageView::ClosureWritten { close_hash: h },
        ),
        (LinkStageView::ClosureWritten { close_hash }, LinkResponseView::Flushed) => Some(
            LinkStageView::ClosureFlushed { close_hash },
        ),
        (LinkStageView::ClosureFlushed { close_hash }, LinkResponseView::Appended(h)) => Some(
            LinkStageView::OpenWritten { close_hash, open_hash: h },
        ),
        (LinkStageView::OpenWritten { close_hash, open_hash }, LinkResponseView::Flushed) => Some(
            LinkStageView::OpenFlushed { close_hash, open_hash },
        ),
        _ => None,
    }
}

/// The state after an answer.
pub open spec fn spec_link_state(state: LinkStateView, response: LinkResponseView) -> LinkStateView {
    match spec_next_stage(state.stage, response) {
        Some(stage) => LinkStateView { stage, ..state },
        None => state,
    }
}

/// What follows from an answer.
pub open spec fn spec_link_outcome(
    state: LinkStateView,
    response: LinkResponseView,
) -> LinkOutcomeView {
    match spec_next_stage(state.stage, response) {
        Some(LinkStageView::OpenFlushed { close_hash, open_hash }) => LinkOutcomeView::Linked {
            close_hash,
            open_hash,
        },
        Some(stage) => LinkOutcomeView::Next(
            spec_pending(LinkStateView { stage, ..state })->0,
        ),
        None => match response {
            LinkResponseView::Failed(cause) => LinkOutcomeView::Stopped { cause },
            _ => LinkOutcomeView::Stopped { cause: spec_unexpected() },
        },
    }
}

/// Begins the link from `old_cell` to `new_cell`: the state in which nothing
/// is written, and the request for the close record.
///
/// The cells must differ in exactly one of DNA and agent. Any other pair is
/// refused with `UnsupportedMigration`.
pub fn migrate_cell(old_cell: &CellId, new_cell: &CellId) -> (begun: Result<
    (LinkState, LinkRequest),
    Error,
>)
    ensures
        match begun {
            Ok((state, request)) => spec_direction(old_cell@, new_cell@) == Some(
                (state@.backward, state@.forward),
            ) && state@.old_cell == old_cell@ && state@.new_cell == new_cell@ && state@.stage
                == LinkStageView::Idle && Some(request@) == spec_pending(state@),
            Err(e) => spec_direction(old_cell@, new_cell@) is None && e@
                == ErrorView::UnsupportedMigration,
        },
{
    match migration_direction(old_cell, new_cell) {
        Some((backward, forward)) => {
            let request = LinkRequest::AppendClose {
                cell_id: old_cell.clone(),
                forward: forward.clone(),
            };
            let state = LinkState {
                old_cell: old_cell.clone(),
                new_cell: new_cell.clone(),
                backward,
                forward,
                stage: LinkStage::Idle,
            };
            Ok((state, request))
        },
        None => Err(Error::UnsupportedMigration),
    }
}

impl LinkState {
    /// Takes the conductor's answer to the pending request: the state that is
    /// reached, and what follows.
    pub fn step(self, response: LinkResponse) -> (next: (LinkState, LinkOutcome))
        ensures
            next.0@ == spec_link_state(self@, response@),
            next.1@ == spec_link_outcome(self@, response@),
    {
        let LinkState { old_cell, new_cell, backward, forward, stage } = self;
        match (stage, response) {
            (LinkStage::Idle, LinkResponse::Appended(close_hash)) => {
                let request = LinkRequest::FlushChain { cell_id: old_cell.clone() };
                let stage = LinkStage::ClosureWritten { close_hash };
                (LinkState { old_cell, new_cell, backward, forward, stage }, LinkOutcome::Next(request))
            },
            (LinkStage::ClosureWritten { close_hash }, LinkResponse::Flushed) => {
                let request = LinkRequest::AppendOpen {
                    cell_id: new_cell.clone(),
                    backward: backward.clone(),
                    close_hash: close_hash.clone(),
                };
                let stage = LinkStage::ClosureFlushed { close_hash };
                (LinkState { old_cell, new_cell, backward, forward, stage }, LinkOutcome::Next(request))
            },
            (LinkStage::ClosureFlushed { close_hash }, LinkResponse::Appended(open_hash)) => {
                let request = LinkRequest::FlushChain { cell_id: new_cell.clone() };
                let stage = LinkStage::OpenWritten { close_hash, open_hash };
                (LinkState { old_cell, new_cell, backward, forward, stage }, LinkOutcome::Next(request))
            },
            (LinkStage::OpenWritten { close_hash, open_hash }, LinkResponse::Flushed) => {
                let outcome = LinkOutcome::Linked {
                    close_hash: close_hash.clone(),
                    open_hash: open_hash.clone(),
                };
                let stage = LinkStage::OpenFlushed { close_hash, open_hash };
                (LinkState { old_cell, new_cell, backward, forward, stage }, outcome)
            },
            (stage, LinkResponse::Failed(cause)) => {
                (
                    LinkState { old_cell, new_cell, backward, forward, stage },
                    LinkOutcome::Stopped { cause },
                )
            },
            (stage, _) => {
                let cause = String::from_str("unexpected answer");
                (
                    LinkState { old_cell, new_cell, backward, forward, stage },
                    LinkOutcome::Stopped { cause },
                )
            },
        }
    }
}

/// The state that a link is in after a sequence of answers.
pub open spec fn spec_link_run(
    state: LinkStateView,
    responses: Seq<LinkResponseView>,
) -> LinkStateView
    decreases responses.len(),
{
    if responses.len() == 0 {
        state
    } else {
        spec_link_state(spec_link_run(state, responses.drop_last()), responses.last())
    }
}

/// The close record that a stage knows of, if it knows of one.
pub open spec fn spec_close_hash(stage: LinkStageView) -> Option<Seq<u8>> {
    match stage {
        LinkStageView::Idle => None,
        LinkStageView::ClosureWritten { close_hash } => Some(close_hash),
        LinkStageView::ClosureFlushed { close_hash } => Some(close_hash),
        LinkStageView::OpenWritten { close_hash, .. } => Some(close_hash),
        LinkStageView::OpenFlushed { close_hash, .. } => Some(close_hash),
    }
}

/// A run keeps cells and direction, and the close record that it knows of is
/// one that the conductor reported as appended while nothing was written.
pub proof fn lemma_link_run(begin: LinkStateView, responses: Seq<LinkResponseView>)
    requires
        begin.stage == LinkStageView::Idle,
    ensures
        spec_link_run(begin, responses).old_cell == begin.old_cell,
        spec_link_run(begin, responses).new_cell == begin.new_cell,
        spec_link_run(begin, responses).backward == begin.backward,
        spec_link_run(begin, responses).forward == begin.forward,
        spec_close_hash(spec_link_run(begin, responses).stage) matches Some(h) ==> exists|i: int|
            0 <= i < responses.len() && #[trigger] responses[i] == LinkResponseView::Appended(h)
                && spec_link_run(begin, responses.subrange(0, i)).stage == LinkStageView::Idle,
    decreases responses.len(),
{
    if responses.len() > 0 {
        let before = responses.drop_last();
        let n = before.len() as int;
        lemma_link_run(begin, before);
        let reached = spec_link_run(begin, before);
        let after = spec_link_run(begin, responses);
        if let Some(h) = spec_close_hash(after.stage) {
            if reached.stage == LinkStageView::Idle {
                assert(responses[n] == LinkResponseView::Appended(h));
                assert(responses.subrange(0, n) =~= before);
            } else {
                assert(spec_close_hash(reached.stage) == Some(h));
                let i = choose|i: int|
                    0 <= i < before.len() && #[trigger] before[i] == LinkResponseView::Appended(h)
                        && spec_link_run(begin, before.subrange(0, i)).stage
                        == LinkStageView::Idle;
                assert(responses[i] == before[i]);
                assert(responses.subrange(0, i) =~= before.subrange(0, i));
            }
        }
    }
}

/// Linker ordering. Whatever the conductor answers, and in whatever order:
/// where the link that began with nothing written asks, after `k` answers,
/// for an open record, the answer before that request reported the flush of
/// the old chain, the close record stood in the old chain at that time, and
/// the hash that the open record is to name is the hash that the conductor
/// reported for that close record.
pub proof fn law_open_follows_flushed_close(
    begin: LinkStateView,
    responses: Seq<LinkResponseView>,
    k: int,
)
    requires
        begin.stage == LinkStageView::Idle,
        0 <= k < responses.len(),
        spec_link_outcome(spec_link_run(begin, responses.subrange(0, k)), responses[k]) matches LinkOutcomeView::Next(
            LinkRequestView::AppendOpen { .. },
        ),
    ensures
        responses[k] == LinkResponseView::Flushed,
        spec_link_outcome(spec_link_run(begin, responses.subrange(0, k)), responses[k]) matches LinkOutcomeView::Next(
            LinkRequestView::AppendOpen { cell_id, backward, close_hash },
        ) && cell_id == begin.new_cell && backward == begin.backward && spec_link_run(
            begin,
            responses.subrange(0, k),
        ).stage == (LinkStageView::ClosureWritten { close_hash }) && exists|i: int|
            0 <= i < k && #[trigger] responses[i] == LinkResponseView::Appended(close_hash)
                && spec_link_run(begin, responses.subrange(0, i)).stage == LinkStageView::Idle,
{
    let before = responses.subrange(0, k);
    lemma_link_run(begin, before);
    let reached = spec_link_run(begin, before);
    let h = spec_close_hash(reached.stage)->0;
    let i = choose|i: int|
        0 <= i < before.len() && #[trigger] before[i] == LinkResponseView::Appended(h)
            && spec_link_run(begin, before.subrange(0, i)).stage == LinkStageView::Idle;
    assert(responses[i] == before[i]);
    assert(responses.subrange(0, i) =~= before.subrange(0, i));
}

/// A flush of the old chain that fails leads to no open record: the link
/// stops with the cause, and stays where the close record is written and not
/// flushed.
pub proof fn law_failed_flush_stops(state: LinkStateView, cause: Seq<char>)
    requires
        state.stage is ClosureWritten,
    ensures
        spec_link_outcome(state, LinkResponseView::Failed(cause)) == (LinkOutcomeView::Stopped {
            cause,
        }),
        spec_link_state(state, LinkResponseView::Failed(cause)) == state,
{
}

} // verus!

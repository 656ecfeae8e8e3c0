use holochain_runtime::cell::CellId;
use holochain_runtime::chain::{
    migrate_cell, migration_direction, LinkOutcome, LinkRequest, LinkResponse, LinkStage,
    MigrationTarget,
};
use holochain_runtime::error::Error;
use holochain_runtime::hash::{ActionHash, AgentPubKey, DnaHash};

fn dna(fill: u8) -> DnaHash {
    let mut bytes = vec![0x84, 0x2d, 0x24];
    bytes.extend(std::iter::repeat(fill).take(36));
    DnaHash::try_from_raw_39(bytes).unwrap()
}

fn agent(fill: u8) -> AgentPubKey {
    let mut bytes = vec![0x84, 0x20, 0x24];
    bytes.extend(std::iter::repeat(fill).take(36));
    AgentPubKey::try_from_raw_39(bytes).unwrap()
}

fn action(fill: u8) -> ActionHash {
    let mut bytes = vec![0x84, 0x29, 0x24];
    bytes.extend(std::iter::repeat(fill).take(36));
    ActionHash::try_from_raw_39(bytes).unwrap()
}

#[test]
fn direction_is_the_dna_where_the_dna_changed() {
    let old = CellId::new(dna(1), agent(1));
    let new = CellId::new(dna(2), agent(1));
    assert_eq!(
        migration_direction(&old, &new),
        Some((MigrationTarget::Dna(dna(1)), MigrationTarget::Dna(dna(2))))
    );
}

#[test]
fn direction_is_the_agent_where_the_agent_changed() {
    let old = CellId::new(dna(1), agent(1));
    let new = CellId::new(dna(1), agent(2));
    assert_eq!(
        migration_direction(&old, &new),
        Some((MigrationTarget::Agent(agent(1)), MigrationTarget::Agent(agent(2))))
    );
}

#[test]
fn there_is_no_direction_where_both_or_neither_changed() {
    let old = CellId::new(dna(1), agent(1));
    assert_eq!(migration_direction(&old, &CellId::new(dna(2), agent(2))), None);
    assert_eq!(migration_direction(&old, &CellId::new(dna(1), agent(1))), None);
    assert!(matches!(
        migrate_cell(&old, &CellId::new(dna(2), agent(2))),
        Err(Error::UnsupportedMigration)
    ));
    assert!(matches!(migrate_cell(&old, &old.clone()), Err(Error::UnsupportedMigration)));
}

#[test]
fn link_goes_through_all_stages() {
    let old = CellId::new(dna(1), agent(1));
    let new = CellId::new(dna(2), agent(1));
    let (state, request) = migrate_cell(&old, &new).unwrap();
    assert_eq!(state.stage, LinkStage::Idle);
    assert_eq!(
        request,
        LinkRequest::AppendClose { cell_id: old.clone(), forward: MigrationTarget::Dna(dna(2)) }
    );

    let (state, outcome) = state.step(LinkResponse::Appended(action(1)));
    assert_eq!(state.stage, LinkStage::ClosureWritten { close_hash: action(1) });
    assert_eq!(outcome, LinkOutcome::Next(LinkRequest::FlushChain { cell_id: old.clone() }));

    let (state, outcome) = state.step(LinkResponse::Flushed);
    assert_eq!(state.stage, LinkStage::ClosureFlushed { close_hash: action(1) });
    assert_eq!(
        outcome,
        LinkOutcome::Next(LinkRequest::AppendOpen {
            cell_id: new.clone(),
            backward: MigrationTarget::Dna(dna(1)),
            close_hash: action(1),
        })
    );

    let (state, outcome) = state.step(LinkResponse::Appended(action(2)));
    assert_eq!(
        state.stage,
        LinkStage::OpenWritten { close_hash: action(1), open_hash: action(2) }
    );
    assert_eq!(outcome, LinkOutcome::Next(LinkRequest::FlushChain { cell_id: new.clone() }));

    let (state, outcome) = state.step(LinkResponse::Flushed);
    assert_eq!(
        state.stage,
        LinkStage::OpenFlushed { close_hash: action(1), open_hash: action(2) }
    );
    assert_eq!(outcome, LinkOutcome::Linked { close_hash: action(1), open_hash: action(2) });
    assert_eq!(state.old_cell, old);
    assert_eq!(state.new_cell, new);
}

#[test]
fn failed_flush_of_the_old_chain_asks_for_no_open_record() {
    let old = CellId::new(dna(1), agent(1));
    let new = CellId::new(dna(1), agent(2));
    let (state, _) = migrate_cell(&old, &new).unwrap();
    let (state, _) = state.step(LinkResponse::Appended(action(1)));
    let (state, outcome) = state.step(LinkResponse::Failed("network down".to_string()));
    assert_eq!(outcome, LinkOutcome::Stopped { cause: "network down".to_string() });
    assert_eq!(state.stage, LinkStage::ClosureWritten { close_hash: action(1) });
}

#[test]
fn failed_append_leaves_the_link_idle() {
    let old = CellId::new(dna(1), agent(1));
    let new = CellId::new(dna(1), agent(2));
    let (state, _) = migrate_cell(&old, &new).unwrap();
    let (state, outcome) = state.step(LinkResponse::Failed("chain locked".to_string()));
    assert_eq!(outcome, LinkOutcome::Stopped { cause: "chain locked".to_string() });
    assert_eq!(state.stage, LinkStage::Idle);
}

#[test]
fn answers_out_of_turn_stop_the_link_where_it_is() {
    let old = CellId::new(dna(1), agent(1));
    let new = CellId::new(dna(1), agent(2));
    let (state, _) = migrate_cell(&old, &new).unwrap();
    let (state, outcome) = state.step(LinkResponse::Flushed);
    assert_eq!(outcome, LinkOutcome::Stopped { cause: "unexpected answer".to_string() });
    assert_eq!(state.stage, LinkStage::Idle);
    let (state, _) = state.step(LinkResponse::Appended(action(1)));
    let (state, outcome) = state.step(LinkResponse::Appended(action(2)));
    assert_eq!(outcome, LinkOutcome::Stopped { cause: "unexpected answer".to_string() });
    assert_eq!(state.stage, LinkStage::ClosureWritten { close_hash: action(1) });
}

#[test]
fn stopped_link_goes_on_when_the_request_succeeds_later() {
    let old = CellId::new(dna(1), agent(1));
    let new = CellId::new(dna(1), agent(2));
    let (state, _) = migrate_cell(&old, &new).unwrap();
    let (state, _) = state.step(LinkResponse::Appended(action(1)));
    let (state, _) = state.step(LinkResponse::Failed("network down".to_string()));
    let (state, outcome) = state.step(LinkResponse::Flushed);
    assert_eq!(state.stage, LinkStage::ClosureFlushed { close_hash: action(1) });
    assert_eq!(
        outcome,
        LinkOutcome::Next(LinkRequest::AppendOpen {
            cell_id: new,
            backward: MigrationTarget::Agent(agent(1)),
            close_hash: action(1),
        })
    );
}

#[test]
fn complete_link_takes_no_further_answer() {
    let old = CellId::new(dna(1), agent(1));
    let new = CellId::new(dna(1), agent(2));
    let (state, _) = migrate_cell(&old, &new).unwrap();
    let (state, _) = state.step(LinkResponse::Appended(action(1)));
    let (state, _) = state.step(LinkResponse::Flushed);
    let (state, _) = state.step(LinkResponse::Appended(action(2)));
    let (state, _) = state.step(LinkResponse::Flushed);
    let (state, outcome) = state.step(LinkResponse::Flushed);
    assert_eq!(outcome, LinkOutcome::Stopped { cause: "unexpected answer".to_string() });
    assert_eq!(
        state.stage,
        LinkStage::OpenFlushed { close_hash: action(1), open_hash: action(2) }
    );
}

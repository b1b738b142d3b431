use idevice::backup::paths::{BackupPath, JournalPath, OpId, TxId};
use idevice::backup::transaction::{
    BackupRecord, BackupTransactionError, OperationPhase, OperationState, PreparedOperation,
    SequencedRecord, TransactionState, TransactionStatus,
};
fn rec(seq: u64, record: BackupRecord) -> SequencedRecord<BackupRecord> {
    SequencedRecord { seq, record }
}

fn tx_id() -> TxId {
    TxId("tx-1".into())
}

fn backup_path(path: &str) -> BackupPath {
    BackupPath::parse_item(path).unwrap()
}

fn tmp(op: u64) -> JournalPath {
    JournalPath::tmp(OpId(op))
}

fn old_of(op: u64) -> JournalPath {
    JournalPath::old_path(OpId(op))
}

#[test]
fn replay_derives_committed_replace_state() {
    let records = vec![
        rec(1, BackupRecord::Begin { tx_id: tx_id() }),
        rec(
            2,
            BackupRecord::ReplacePrepared {
                op: OpId(1),
                path: backup_path("aa/bb"),
                old: Some(old_of(1)),
                tmp: tmp(1),
                old_existed: true,
            },
        ),
        rec(
            3,
            BackupRecord::TempWritten {
                op: OpId(1),
                size: 12,
            },
        ),
        rec(4, BackupRecord::OldSaved { op: OpId(1) }),
        rec(5, BackupRecord::Installed { op: OpId(1) }),
        rec(6, BackupRecord::CommitReady),
        rec(7, BackupRecord::Committed),
    ];

    let state = TransactionState::from_records(records).unwrap();

    assert_eq!(state.tx_id, Some(tx_id()));
    assert_eq!(state.status, TransactionStatus::Committed);
    assert!(state.installed_operations().is_empty());
}

#[test]
fn installed_operations_are_returned_in_reverse_install_order_for_rollback() {
    let records = vec![
        rec(1, BackupRecord::Begin { tx_id: tx_id() }),
        rec(
            2,
            BackupRecord::MkdirPrepared {
                op: OpId(1),
                path: backup_path("aa"),
                existed: false,
            },
        ),
        rec(3, BackupRecord::MkdirDone { op: OpId(1) }),
        rec(
            4,
            BackupRecord::RemovePrepared {
                op: OpId(2),
                path: backup_path("aa/file"),
                old: Some(old_of(2)),
                old_existed: true,
            },
        ),
        rec(5, BackupRecord::OldSaved { op: OpId(2) }),
        rec(6, BackupRecord::Removed { op: OpId(2) }),
    ];

    let state = TransactionState::from_records(records).unwrap();

    let ops: Vec<OpId> = state
        .installed_operations()
        .into_iter()
        .map(|op| op.op)
        .collect();
    assert_eq!(ops, vec![OpId(2), OpId(1)]);
}

#[test]
fn installed_operations_follow_reverse_replay_order_not_operation_id_order() {
    let records = vec![
        rec(1, BackupRecord::Begin { tx_id: tx_id() }),
        rec(
            2,
            BackupRecord::MkdirPrepared {
                op: OpId(2),
                path: backup_path("later-id"),
                existed: false,
            },
        ),
        rec(
            3,
            BackupRecord::MkdirPrepared {
                op: OpId(1),
                path: backup_path("earlier-id"),
                existed: false,
            },
        ),
        rec(4, BackupRecord::MkdirDone { op: OpId(2) }),
        rec(5, BackupRecord::MkdirDone { op: OpId(1) }),
    ];

    let state = TransactionState::from_records(records).unwrap();
    let ops: Vec<OpId> = state
        .installed_operations()
        .into_iter()
        .map(|op| op.op)
        .collect();

    assert_eq!(ops, vec![OpId(1), OpId(2)]);
}

#[test]
fn replay_rejects_installed_before_required_replace_phases() {
    let records = vec![
        rec(1, BackupRecord::Begin { tx_id: tx_id() }),
        rec(
            2,
            BackupRecord::ReplacePrepared {
                op: OpId(1),
                path: backup_path("aa/bb"),
                old: Some(old_of(1)),
                tmp: tmp(1),
                old_existed: true,
            },
        ),
        rec(3, BackupRecord::Installed { op: OpId(1) }),
    ];

    assert!(matches!(
        TransactionState::from_records(records),
        Err(BackupTransactionError::CorruptJournal(_))
    ));
}

#[test]
fn replay_rejects_new_replace_install_before_temp_written() {
    let records = vec![
        rec(1, BackupRecord::Begin { tx_id: tx_id() }),
        rec(
            2,
            BackupRecord::ReplacePrepared {
                op: OpId(1),
                path: backup_path("aa/new"),
                old: None,
                tmp: tmp(1),
                old_existed: false,
            },
        ),
        rec(3, BackupRecord::Installed { op: OpId(1) }),
    ];

    assert!(matches!(
        TransactionState::from_records(records),
        Err(BackupTransactionError::CorruptJournal(_))
    ));
}

#[test]
fn replay_rejects_replace_old_saved_before_temp_written() {
    let records = vec![
        rec(1, BackupRecord::Begin { tx_id: tx_id() }),
        rec(
            2,
            BackupRecord::ReplacePrepared {
                op: OpId(1),
                path: backup_path("aa/bb"),
                old: Some(old_of(1)),
                tmp: tmp(1),
                old_existed: true,
            },
        ),
        rec(3, BackupRecord::OldSaved { op: OpId(1) }),
    ];

    assert!(matches!(
        TransactionState::from_records(records),
        Err(BackupTransactionError::CorruptJournal(_))
    ));
}

#[test]
fn replay_rejects_remove_install_when_existing_old_state_was_not_saved() {
    let records = vec![
        rec(1, BackupRecord::Begin { tx_id: tx_id() }),
        rec(
            2,
            BackupRecord::RemovePrepared {
                op: OpId(1),
                path: backup_path("aa/file"),
                old: Some(old_of(1)),
                old_existed: true,
            },
        ),
        rec(3, BackupRecord::Removed { op: OpId(1) }),
    ];

    assert!(matches!(
        TransactionState::from_records(records),
        Err(BackupTransactionError::CorruptJournal(_))
    ));
}

#[test]
fn replay_allows_remove_install_without_old_state_when_path_did_not_exist() {
    let records = vec![
        rec(1, BackupRecord::Begin { tx_id: tx_id() }),
        rec(
            2,
            BackupRecord::RemovePrepared {
                op: OpId(1),
                path: backup_path("aa/file"),
                old: None,
                old_existed: false,
            },
        ),
        rec(3, BackupRecord::Removed { op: OpId(1) }),
    ];

    let state = TransactionState::from_records(records).unwrap();

    assert_eq!(
        state.installed_operations(),
        vec![OperationState {
            op: OpId(1),
            operation: PreparedOperation::Remove {
                path: backup_path("aa/file"),
                old: None,
                old_existed: false,
            },
            phase: OperationPhase::Installed,
        }]
    );
}

#[test]
fn replay_rejects_old_state_flag_path_mismatch() {
    let records = vec![
        rec(1, BackupRecord::Begin { tx_id: tx_id() }),
        rec(
            2,
            BackupRecord::RemovePrepared {
                op: OpId(1),
                path: backup_path("aa/file"),
                old: None,
                old_existed: true,
            },
        ),
    ];

    assert!(matches!(
        TransactionState::from_records(records),
        Err(BackupTransactionError::CorruptJournal(_))
    ));
}

#[test]
fn replay_rejects_old_saved_when_old_state_was_not_needed() {
    let records = vec![
        rec(1, BackupRecord::Begin { tx_id: tx_id() }),
        rec(
            2,
            BackupRecord::RemovePrepared {
                op: OpId(1),
                path: backup_path("aa/file"),
                old: None,
                old_existed: false,
            },
        ),
        rec(3, BackupRecord::OldSaved { op: OpId(1) }),
    ];

    assert!(matches!(
        TransactionState::from_records(records),
        Err(BackupTransactionError::CorruptJournal(_))
    ));
}

#[test]
fn replay_rejects_duplicate_begin() {
    let records = vec![
        rec(1, BackupRecord::Begin { tx_id: tx_id() }),
        rec(
            2,
            BackupRecord::Begin {
                tx_id: TxId("tx-2".into()),
            },
        ),
    ];

    assert!(matches!(
        TransactionState::from_records(records),
        Err(BackupTransactionError::CorruptJournal(_))
    ));
}

#[test]
fn replay_rejects_transaction_record_before_begin() {
    let records = vec![rec(1, BackupRecord::CommitReady)];

    assert!(matches!(
        TransactionState::from_records(records),
        Err(BackupTransactionError::CorruptJournal(_))
    ));
}

#[test]
fn replay_rejects_committed_without_commit_ready() {
    let records = vec![
        rec(1, BackupRecord::Begin { tx_id: tx_id() }),
        rec(2, BackupRecord::Committed),
    ];

    assert!(matches!(
        TransactionState::from_records(records),
        Err(BackupTransactionError::CorruptJournal(_))
    ));
}

#[test]
fn replay_rejects_transition_for_unknown_operation() {
    let records = vec![
        rec(1, BackupRecord::Begin { tx_id: tx_id() }),
        rec(2, BackupRecord::Installed { op: OpId(99) }),
    ];

    assert!(matches!(
        TransactionState::from_records(records),
        Err(BackupTransactionError::CorruptJournal(_))
    ));
}

#[test]
fn replay_rejects_operation_progress_after_commit_ready() {
    let records = vec![
        rec(1, BackupRecord::Begin { tx_id: tx_id() }),
        rec(
            2,
            BackupRecord::MkdirPrepared {
                op: OpId(1),
                path: backup_path("aa"),
                existed: false,
            },
        ),
        rec(3, BackupRecord::CommitReady),
        rec(4, BackupRecord::MkdirDone { op: OpId(1) }),
    ];

    assert!(matches!(
        TransactionState::from_records(records),
        Err(BackupTransactionError::CorruptJournal(_))
    ));
}

#[test]
fn replay_rejects_operation_before_begin() {
    let records = vec![rec(
        1,
        BackupRecord::MkdirPrepared {
            op: OpId(1),
            path: backup_path("aa"),
            existed: false,
        },
    )];

    assert!(matches!(
        TransactionState::from_records(records),
        Err(BackupTransactionError::CorruptJournal(_))
    ));
}

#[test]
fn replay_rejects_undone_before_rollback_started() {
    let records = vec![
        rec(1, BackupRecord::Begin { tx_id: tx_id() }),
        rec(
            2,
            BackupRecord::MkdirPrepared {
                op: OpId(1),
                path: backup_path("aa"),
                existed: false,
            },
        ),
        rec(3, BackupRecord::MkdirDone { op: OpId(1) }),
        rec(4, BackupRecord::Undone { op: OpId(1) }),
    ];

    assert!(matches!(
        TransactionState::from_records(records),
        Err(BackupTransactionError::CorruptJournal(_))
    ));
}

#[test]
fn replay_rejects_undone_outside_reverse_install_order() {
    let records = vec![
        rec(1, BackupRecord::Begin { tx_id: tx_id() }),
        rec(
            2,
            BackupRecord::MkdirPrepared {
                op: OpId(1),
                path: backup_path("aa"),
                existed: false,
            },
        ),
        rec(3, BackupRecord::MkdirDone { op: OpId(1) }),
        rec(
            4,
            BackupRecord::MkdirPrepared {
                op: OpId(2),
                path: backup_path("aa/bb"),
                existed: false,
            },
        ),
        rec(5, BackupRecord::MkdirDone { op: OpId(2) }),
        rec(6, BackupRecord::RollbackStarted),
        rec(7, BackupRecord::Undone { op: OpId(1) }),
    ];

    assert!(matches!(
        TransactionState::from_records(records),
        Err(BackupTransactionError::CorruptJournal(_))
    ));
}

#[test]
fn replay_rejects_rolled_back_with_installed_operations_remaining() {
    let records = vec![
        rec(1, BackupRecord::Begin { tx_id: tx_id() }),
        rec(
            2,
            BackupRecord::MkdirPrepared {
                op: OpId(1),
                path: backup_path("aa"),
                existed: false,
            },
        ),
        rec(3, BackupRecord::MkdirDone { op: OpId(1) }),
        rec(4, BackupRecord::RollbackStarted),
        rec(5, BackupRecord::RolledBack),
    ];

    assert!(matches!(
        TransactionState::from_records(records),
        Err(BackupTransactionError::CorruptJournal(_))
    ));
}

#[test]
fn installed_operations_excludes_undone_operations() {
    let records = vec![
        rec(1, BackupRecord::Begin { tx_id: tx_id() }),
        rec(
            2,
            BackupRecord::MkdirPrepared {
                op: OpId(1),
                path: backup_path("aa"),
                existed: false,
            },
        ),
        rec(3, BackupRecord::MkdirDone { op: OpId(1) }),
        rec(4, BackupRecord::RollbackStarted),
        rec(5, BackupRecord::Undone { op: OpId(1) }),
    ];

    let state = TransactionState::from_records(records).unwrap();

    assert_eq!(state.status, TransactionStatus::RollbackStarted);
    assert!(state.installed_operations().is_empty());
}

#[test]
fn rollback_plan_undoes_latest_install_first_and_rolls_back() {
    let records = vec![
        rec(1, BackupRecord::Begin { tx_id: tx_id() }),
        rec(2, BackupRecord::MkdirPrepared { op: OpId(2), path: backup_path("later-id"), existed: false }),
        rec(3, BackupRecord::MkdirPrepared { op: OpId(1), path: backup_path("earlier-id"), existed: false }),
        rec(4, BackupRecord::MkdirDone { op: OpId(2) }),
        rec(5, BackupRecord::MkdirDone { op: OpId(1) }),
    ];
    let state = TransactionState::from_records(records).unwrap();
    let plan = state.rollback_plan();
    assert_eq!(
        plan,
        vec![
            BackupRecord::RollbackStarted,
            BackupRecord::Undone { op: OpId(1) },
            BackupRecord::Undone { op: OpId(2) },
            BackupRecord::RolledBack,
        ]
    );
    let mut s = state.clone();
    for r in &plan {
        s.apply_record(r).unwrap();
    }
    assert_eq!(s.status, TransactionStatus::RolledBack);
    assert!(s.installed_operations().is_empty());
}

#[test]
fn refused_record_leaves_the_state_unchanged() {
    let records = vec![rec(1, BackupRecord::Begin { tx_id: tx_id() })];
    let mut state = TransactionState::from_records(records).unwrap();
    let before = state.clone();
    assert!(matches!(
        state.apply_record(&BackupRecord::Committed),
        Err(BackupTransactionError::CorruptJournal(_))
    ));
    assert_eq!(state, before);
    assert!(matches!(
        state.apply_record(&BackupRecord::Undone { op: OpId(9) }),
        Err(BackupTransactionError::CorruptJournal(_))
    ));
    assert_eq!(state, before);
}

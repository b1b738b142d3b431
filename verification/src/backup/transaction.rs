//! Replay of the append-only rollback journal for backup mutations.
//!
//! Each visible backup mutation is preceded by a journal record describing
//! how to undo it, and followed by a record saying it happened. Recovery
//! replays the complete records in order to decide what must be rolled back.
//! This module holds that replay: a state machine from records to a
//! transaction state, which refuses any history that a correct writer could
//! not have produced.

use std::collections::BTreeMap;
use vstd::prelude::*;

use crate::backup::paths::{BackupPath, JournalPath, OpId, TxId};

verus! {

broadcast use {vstd::laws_cmp::group_laws_cmp, vstd::std_specs::btree::group_btree_axioms};

/// Error type for transaction and recovery code.
///
/// Path validation failures and corrupt journals stay distinguishable so that
/// recovery can report which input it refused.
#[derive(Debug)]
pub enum BackupTransactionError {
    /// A backup-relative path was refused; holds the refused input.
    InvalidBackupPath(String),
    /// A journal-relative path was refused; holds the refused input.
    InvalidJournalPath(String),
    /// The journal records do not describe a valid transaction history.
    CorruptJournal(String),
    /// An atomic filesystem primitive is not available.
    UnsupportedAtomicOperation,
}

/// One durable fact in the transaction journal, generic over how the
/// transaction id and paths are held (concrete values, or their views).
#[derive(Debug, PartialEq, Eq)]
pub enum Record<T, P, J> {
    Begin { tx_id: T },
    ReplacePrepared { op: OpId, path: P, old: Option<J>, tmp: J, old_existed: bool },
    OldSaved { op: OpId },
    TempWritten { op: OpId, size: u64 },
    Installed { op: OpId },
    RemovePrepared { op: OpId, path: P, old: Option<J>, old_existed: bool },
    Removed { op: OpId },
    MovePrepared { op: OpId, from: P, to: P, replaced: Option<J>, replaced_existed: bool },
    Moved { op: OpId },
    CopyPrepared { op: OpId, from: P, to: P, replaced: Option<J>, replaced_existed: bool },
    Copied { op: OpId },
    MkdirPrepared { op: OpId, path: P, existed: bool },
    MkdirDone { op: OpId },
    CommitReady,
    Committed,
    RollbackStarted,
    Undone { op: OpId },
    RolledBack,
}

/// A journal record as written by the transaction code.
pub type BackupRecord = Record<TxId, BackupPath, JournalPath>;

/// The mathematical content of a journal record.
pub type RecordView = Record<Seq<char>, Seq<u8>, Seq<u8>>;

/// A journal entry: a sequence number and its record.
#[derive(Debug, PartialEq, Eq)]
pub struct SequencedRecord<T> {
    pub seq: u64,
    pub record: T,
}

/// Transaction-level status derived from replaying records.
#[derive(Debug, Clone, Copy, PartialEq, Eq, Structural)]
pub enum TransactionStatus {
    Active,
    CommitReady,
    Committed,
    RollbackStarted,
    RolledBack,
}

/// Operation-level phase derived from replaying records.
#[derive(Debug, Clone, Copy, PartialEq, Eq, Structural)]
pub enum OperationPhase {
    Prepared,
    OldSaved,
    TempWritten,
    Installed,
    Undone,
}

/// A prepared filesystem mutation with every path rollback needs.
#[derive(Debug, PartialEq, Eq)]
pub enum PreparedOp<P, J> {
    Replace { path: P, old: Option<J>, tmp: J, old_existed: bool },
    Remove { path: P, old: Option<J>, old_existed: bool },
    Move { from: P, to: P, replaced: Option<J>, replaced_existed: bool },
    Copy { from: P, to: P, replaced: Option<J>, replaced_existed: bool },
    Mkdir { path: P, existed: bool },
}

pub type PreparedOperation = PreparedOp<BackupPath, JournalPath>;

pub type PreparedOperationView = PreparedOp<Seq<u8>, Seq<u8>>;

/// The current state of one prepared operation.
#[derive(Debug, PartialEq, Eq)]
pub struct OperationStateOf<O> {
    pub op: OpId,
    pub operation: O,
    pub phase: OperationPhase,
}

pub type OperationState = OperationStateOf<PreparedOperation>;

pub type OperationView = OperationStateOf<PreparedOperationView>;

pub open spec fn jview(j: Option<JournalPath>) -> Option<Seq<u8>> {
    match j {
        Some(p) => Some(p@),
        None => None,
    }
}

impl View for PreparedOp<BackupPath, JournalPath> {
    type V = PreparedOperationView;

    open spec fn view(&self) -> PreparedOperationView {
        match self {
            PreparedOp::Replace { path, old, tmp, old_existed } => PreparedOp::Replace {
                path: path@,
                old: jview(*old),
                tmp: tmp@,
                old_existed: *old_existed,
            },
            PreparedOp::Remove { path, old, old_existed } => PreparedOp::Remove {
                path: path@,
                old: jview(*old),
                old_existed: *old_existed,
            },
            PreparedOp::Move { from, to, replaced, replaced_existed } => PreparedOp::Move {
                from: from@,
                to: to@,
                replaced: jview(*replaced),
                replaced_existed: *replaced_existed,
            },
            PreparedOp::Copy { from, to, replaced, replaced_existed } => PreparedOp::Copy {
                from: from@,
                to: to@,
                replaced: jview(*replaced),
                replaced_existed: *replaced_existed,
            },
            PreparedOp::Mkdir { path, existed } => PreparedOp::Mkdir {
                path: path@,
                existed: *existed,
            },
        }
    }
}

fn clone_journal_path(j: &Option<JournalPath>) -> (r: Option<JournalPath>)
    ensures
        jview(r) == jview(*j),
{
    match j {
        Some(p) => Some(p.clone()),
        None => None,
    }
}

impl Clone for PreparedOp<BackupPath, JournalPath> {
    fn clone(&self) -> (r: Self)
        ensures
            r@ == self@,
    {
        match self {
            PreparedOp::Replace { path, old, tmp, old_existed } => PreparedOp::Replace {
                path: path.clone(),
                old: clone_journal_path(old),
                tmp: tmp.clone(),
                old_existed: *old_existed,
            },
            PreparedOp::Remove { path, old, old_existed } => PreparedOp::Remove {
                path: path.clone(),
                old: clone_journal_path(old),
                old_existed: *old_existed,
            },
            PreparedOp::Move { from, to, replaced, replaced_existed } => PreparedOp::Move {
                from: from.clone(),
                to: to.clone(),
                replaced: clone_journal_path(replaced),
                replaced_existed: *replaced_existed,
            },
            PreparedOp::Copy { from, to, replaced, replaced_existed } => PreparedOp::Copy {
                from: from.clone(),
                to: to.clone(),
                replaced: clone_journal_path(replaced),
                replaced_existed: *replaced_existed,
            },
            PreparedOp::Mkdir { path, existed } => PreparedOp::Mkdir {
                path: path.clone(),
                existed: *existed,
            },
        }
    }
}

impl View for OperationStateOf<PreparedOperation> {
    type V = OperationView;

    open spec fn view(&self) -> OperationView {
        OperationStateOf { op: self.op, operation: self.operation@, phase: self.phase }
    }
}

impl Clone for OperationStateOf<PreparedOperation> {
    fn clone(&self) -> (r: Self)
        ensures
            r@ == self@,
    {
        OperationStateOf { op: self.op, operation: self.operation.clone(), phase: self.phase }
    }
}

impl View for Record<TxId, BackupPath, JournalPath> {
    type V = RecordView;

    open spec fn view(&self) -> RecordView {
        match self {
            Record::Begin { tx_id } => Record::Begin { tx_id: tx_id@ },
            Record::ReplacePrepared { op, path, old, tmp, old_existed } => Record::ReplacePrepared {
                op: *op,
                path: path@,
                old: jview(*old),
                tmp: tmp@,
                old_existed: *old_existed,
            },
            Record::OldSaved { op } => Record::OldSaved { op: *op },
            Record::TempWritten { op, size } => Record::TempWritten { op: *op, size: *size },
            Record::Installed { op } => Record::Installed { op: *op },
            Record::RemovePrepared { op, path, old, old_existed } => Record::RemovePrepared {
                op: *op,
                path: path@,
                old: jview(*old),
                old_existed: *old_existed,
            },
            Record::Removed { op } => Record::Removed { op: *op },
            Record::MovePrepared { op, from, to, replaced, replaced_existed } => Record::MovePrepared {
                op: *op,
                from: from@,
                to: to@,
                replaced: jview(*replaced),
                replaced_existed: *replaced_existed,
            },
            Record::Moved { op } => Record::Moved { op: *op },
            Record::CopyPrepared { op, from, to, replaced, replaced_existed } => Record::CopyPrepared {
                op: *op,
                from: from@,
                to: to@,
                replaced: jview(*replaced),
                replaced_existed: *replaced_existed,
            },
            Record::Copied { op } => Record::Copied { op: *op },
            Record::MkdirPrepared { op, path, existed } => Record::MkdirPrepared {
                op: *op,
                path: path@,
                existed: *existed,
            },
            Record::MkdirDone { op } => Record::MkdirDone { op: *op },
            Record::CommitReady => Record::CommitReady,
            Record::Committed => Record::Committed,
            Record::RollbackStarted => Record::RollbackStarted,
            Record::Undone { op } => Record::Undone { op: *op },
            Record::RolledBack => Record::RolledBack,
        }
    }
}

// ---------------------------------------------------------------------------
// The replay model
// ---------------------------------------------------------------------------

/// The abstract state of a transaction: its id once begun, its status, the
/// prepared operations by id, and the ids in the order they were installed.
pub struct TxModel {
    pub tx_id: Option<Seq<char>>,
    pub status: TransactionStatus,
    pub ops: Map<u64, OperationView>,
    pub order: Seq<u64>,
}

/// Whether an operation must save the previous state of its target.
pub open spec fn old_state_needed(o: PreparedOperationView) -> bool {
    match o {
        PreparedOp::Replace { old_existed, .. } => old_existed,
        PreparedOp::Remove { old_existed, .. } => old_existed,
        PreparedOp::Move { replaced_existed, .. } => replaced_existed,
        PreparedOp::Copy { replaced_existed, .. } => replaced_existed,
        PreparedOp::Mkdir { .. } => false,
    }
}

/// Whether an operation may mutate its target: the old state was saved if
/// there was one, and nothing else happened otherwise.
pub open spec fn old_state_ready(o: PreparedOperationView, phase: OperationPhase) -> bool {
    match o {
        PreparedOp::Mkdir { .. } => phase == OperationPhase::Prepared,
        _ => (old_state_needed(o) && phase == OperationPhase::OldSaved) || (!old_state_needed(o)
            && phase == OperationPhase::Prepared),
    }
}

/// Whether a replacement may be installed: its temp file was written and,
/// when the target existed, the old state was saved afterwards.
pub open spec fn replace_ready(o: PreparedOperationView, phase: OperationPhase) -> bool {
    match o {
        PreparedOp::Replace { old_existed, .. } => (old_existed && phase == OperationPhase::OldSaved)
            || (!old_existed && phase == OperationPhase::TempWritten),
        _ => false,
    }
}

/// The old-state flag agrees with the presence of an old-state path.
pub open spec fn prepared_valid(o: PreparedOperationView) -> bool {
    match o {
        PreparedOp::Replace { old, old_existed, .. } => old.is_some() == old_existed,
        PreparedOp::Remove { old, old_existed, .. } => old.is_some() == old_existed,
        PreparedOp::Move { replaced, replaced_existed, .. } => replaced.is_some() == replaced_existed,
        PreparedOp::Copy { replaced, replaced_existed, .. } => replaced.is_some() == replaced_existed,
        PreparedOp::Mkdir { .. } => true,
    }
}

/// Which phase transition a record asks for, if it advances an operation.
pub open spec fn transition_allowed(r: RecordView, o: PreparedOperationView, phase: OperationPhase) -> bool {
    match r {
        Record::OldSaved { .. } => old_state_needed(o) && (match o {
            PreparedOp::Replace { .. } => phase == OperationPhase::TempWritten,
            PreparedOp::Mkdir { .. } => false,
            _ => phase == OperationPhase::Prepared,
        }),
        Record::TempWritten { .. } => o is Replace && phase == OperationPhase::Prepared,
        Record::Installed { .. } => o is Replace && replace_ready(o, phase),
        Record::Removed { .. } => o is Remove && old_state_ready(o, phase),
        Record::Moved { .. } => o is Move && old_state_ready(o, phase),
        Record::Copied { .. } => o is Copy && old_state_ready(o, phase),
        Record::MkdirDone { .. } => o is Mkdir && phase == OperationPhase::Prepared,
        Record::Undone { .. } => phase == OperationPhase::Installed,
        _ => false,
    }
}

/// The phase an advancing record moves its operation to.
pub open spec fn target_phase(r: RecordView) -> OperationPhase {
    match r {
        Record::OldSaved { .. } => OperationPhase::OldSaved,
        Record::TempWritten { .. } => OperationPhase::TempWritten,
        Record::Undone { .. } => OperationPhase::Undone,
        _ => OperationPhase::Installed,
    }
}

/// The state before any record.
pub open spec fn initial_model() -> TxModel {
    TxModel {
        tx_id: None,
        status: TransactionStatus::Active,
        ops: Map::empty(),
        order: Seq::empty(),
    }
}

/// Preparing a new operation: only inside an active, begun transaction, with
/// a fresh id and consistent old-state fields.
pub open spec fn model_prepare(m: TxModel, op: OpId, o: PreparedOperationView) -> Option<TxModel> {
    if m.tx_id is None || m.ops.contains_key(op.0) || m.status != TransactionStatus::Active
        || !prepared_valid(o) {
        None
    } else {
        Some(
            TxModel {
                tx_id: m.tx_id,
                status: m.status,
                ops: m.ops.insert(op.0, OperationStateOf { op, operation: o, phase: OperationPhase::Prepared }),
                order: m.order,
            },
        )
    }
}

/// Advancing a known operation to the record's target phase, if allowed;
/// reaching `Installed` appends the operation to the install order.
pub open spec fn model_advance(m: TxModel, op: OpId, r: RecordView) -> Option<TxModel> {
    if !m.ops.contains_key(op.0) {
        None
    } else {
        let s = m.ops[op.0];
        if !transition_allowed(r, s.operation, s.phase) {
            None
        } else {
            let next = target_phase(r);
            Some(
                TxModel {
                    tx_id: m.tx_id,
                    status: m.status,
                    ops: m.ops.insert(op.0, OperationStateOf { op: s.op, operation: s.operation, phase: next }),
                    order: if next == OperationPhase::Installed {
                        m.order.push(op.0)
                    } else {
                        m.order
                    },
                },
            )
        }
    }
}

/// The installed operations, latest install first: the order in which
/// rollback must undo them.
pub open spec fn installed_projection(ops: Map<u64, OperationView>, order: Seq<u64>) -> Seq<OperationView>
    decreases order.len(),
{
    if order.len() == 0 {
        Seq::empty()
    } else {
        let k = order.last();
        let rest = installed_projection(ops, order.drop_last());
        if ops.contains_key(k) && ops[k].phase == OperationPhase::Installed {
            seq![ops[k]] + rest
        } else {
            rest
        }
    }
}

pub open spec fn model_with_status(m: TxModel, status: TransactionStatus) -> TxModel {
    TxModel { tx_id: m.tx_id, status, ops: m.ops, order: m.order }
}

/// The effect of one record on the transaction state; `None` when the record
/// cannot follow the history so far.
pub open spec fn model_apply(m: TxModel, r: RecordView) -> Option<TxModel> {
    match r {
        Record::Begin { tx_id } => if m.tx_id is Some || m.status != TransactionStatus::Active {
            None
        } else {
            Some(TxModel { tx_id: Some(tx_id), status: m.status, ops: m.ops, order: m.order })
        },
        Record::ReplacePrepared { op, path, old, tmp, old_existed } => model_prepare(
            m,
            op,
            PreparedOp::Replace { path, old, tmp, old_existed },
        ),
        Record::RemovePrepared { op, path, old, old_existed } => model_prepare(
            m,
            op,
            PreparedOp::Remove { path, old, old_existed },
        ),
        Record::MovePrepared { op, from, to, replaced, replaced_existed } => model_prepare(
            m,
            op,
            PreparedOp::Move { from, to, replaced, replaced_existed },
        ),
        Record::CopyPrepared { op, from, to, replaced, replaced_existed } => model_prepare(
            m,
            op,
            PreparedOp::Copy { from, to, replaced, replaced_existed },
        ),
        Record::MkdirPrepared { op, path, existed } => model_prepare(
            m,
            op,
            PreparedOp::Mkdir { path, existed },
        ),
        Record::OldSaved { op } | Record::TempWritten { op, .. } | Record::Installed { op }
        | Record::Removed { op } | Record::Moved { op } | Record::Copied { op } | Record::MkdirDone {
            op,
        } => if m.status != TransactionStatus::Active {
            None
        } else {
            model_advance(m, op, r)
        },
        Record::CommitReady => if m.status != TransactionStatus::Active {
            None
        } else {
            Some(model_with_status(m, TransactionStatus::CommitReady))
        },
        Record::Committed => if m.status != TransactionStatus::CommitReady {
            None
        } else {
            Some(model_with_status(m, TransactionStatus::Committed))
        },
        Record::RollbackStarted => if m.status == TransactionStatus::Committed || m.status
            == TransactionStatus::RolledBack {
            None
        } else {
            Some(model_with_status(m, TransactionStatus::RollbackStarted))
        },
        Record::Undone { op } => {
            let proj = installed_projection(m.ops, m.order);
            if m.status != TransactionStatus::RollbackStarted {
                None
            } else if proj.len() == 0 || proj[0].op != op {
                None
            } else {
                model_advance(m, op, r)
            }
        },
        Record::RolledBack => if m.status != TransactionStatus::RollbackStarted {
            None
        } else if installed_projection(m.ops, m.order).len() != 0 {
            None
        } else {
            Some(model_with_status(m, TransactionStatus::RolledBack))
        },
    }
}

/// One replay step: nothing but `begin` may come before the transaction has
/// begun.
pub open spec fn model_step(m: TxModel, r: RecordView) -> Option<TxModel> {
    if m.tx_id is None && !(r is Begin) {
        None
    } else {
        model_apply(m, r)
    }
}

/// Replaying a sequence of records in journal order.
pub open spec fn model_replay(rs: Seq<RecordView>) -> Option<TxModel>
    decreases rs.len(),
{
    if rs.len() == 0 {
        Some(initial_model())
    } else {
        match model_replay(rs.drop_last()) {
            Some(m) => model_step(m, rs.last()),
            None => None,
        }
    }
}

/// The records of a journal, in order.
pub open spec fn record_views(entries: Seq<SequencedRecord<BackupRecord>>) -> Seq<RecordView> {
    entries.map_values(|e: SequencedRecord<BackupRecord>| e.record@)
}

/// The installed operations a model still holds for rollback.
pub open spec fn model_installed_operations(m: TxModel) -> Seq<OperationView> {
    if m.status == TransactionStatus::Committed || m.status == TransactionStatus::RolledBack {
        Seq::empty()
    } else {
        installed_projection(m.ops, m.order)
    }
}

// ---------------------------------------------------------------------------
// The executable state
// ---------------------------------------------------------------------------

/// In-memory projection of the transaction journal.
#[derive(Debug, Clone, PartialEq, Eq)]
pub struct TransactionState {
    pub tx_id: Option<TxId>,
    pub status: TransactionStatus,
    operations: BTreeMap<u64, OperationState>,
    install_order: Vec<OpId>,
}

pub open spec fn tx_view(t: Option<TxId>) -> Option<Seq<char>> {
    match t {
        Some(t) => Some(t@),
        None => None,
    }
}

impl View for TransactionState {
    type V = TxModel;

    closed spec fn view(&self) -> TxModel {
        TxModel {
            tx_id: tx_view(self.tx_id),
            status: self.status,
            ops: self.operations@.map_values(|s: OperationState| s@),
            order: self.install_order@.map_values(|o: OpId| o.0),
        }
    }
}

fn corrupt(message: &str) -> (e: BackupTransactionError)
    ensures
        e is CorruptJournal,
{
    BackupTransactionError::CorruptJournal(message.to_owned())
}

fn validate_prepared_operation(operation: &PreparedOperation) -> (res: Result<(), BackupTransactionError>)
    ensures
        match res {
            Ok(_) => prepared_valid(operation@),
            Err(e) => !prepared_valid(operation@) && e is CorruptJournal,
        },
{
    let valid = match operation {
        PreparedOp::Replace { old, old_existed, .. } => old.is_some() == *old_existed,
        PreparedOp::Remove { old, old_existed, .. } => old.is_some() == *old_existed,
        PreparedOp::Move { replaced, replaced_existed, .. } => replaced.is_some() == *replaced_existed,
        PreparedOp::Copy { replaced, replaced_existed, .. } => replaced.is_some() == *replaced_existed,
        PreparedOp::Mkdir { .. } => true,
    };
    if valid {
        Ok(())
    } else {
        Err(corrupt("prepared operation old-state flag/path mismatch"))
    }
}

fn old_state_needed_exec(operation: &PreparedOperation) -> (r: bool)
    ensures
        r == old_state_needed(operation@),
{
    match operation {
        PreparedOp::Replace { old_existed, .. } => *old_existed,
        PreparedOp::Remove { old_existed, .. } => *old_existed,
        PreparedOp::Move { replaced_existed, .. } => *replaced_existed,
        PreparedOp::Copy { replaced_existed, .. } => *replaced_existed,
        PreparedOp::Mkdir { .. } => false,
    }
}

fn old_state_ready_exec(operation: &PreparedOperation, phase: OperationPhase) -> (r: bool)
    ensures
        r == old_state_ready(operation@, phase),
{
    match operation {
        PreparedOp::Mkdir { .. } => phase == OperationPhase::Prepared,
        _ => {
            let needed = old_state_needed_exec(operation);
            (needed && phase == OperationPhase::OldSaved) || (!needed && phase
                == OperationPhase::Prepared)
        },
    }
}

fn replace_ready_exec(operation: &PreparedOperation, phase: OperationPhase) -> (r: bool)
    ensures
        r == replace_ready(operation@, phase),
{
    match operation {
        PreparedOp::Replace { old_existed, .. } => (*old_existed && phase == OperationPhase::OldSaved)
            || (!*old_existed && phase == OperationPhase::TempWritten),
        _ => false,
    }
}

fn transition_allowed_exec(record: &BackupRecord, operation: &PreparedOperation, phase: OperationPhase) -> (r: bool)
    ensures
        r == transition_allowed(record@, operation@, phase),
{
    match record {
        Record::OldSaved { .. } => old_state_needed_exec(operation) && match operation {
            PreparedOp::Replace { .. } => phase == OperationPhase::TempWritten,
            PreparedOp::Mkdir { .. } => false,
            _ => phase == OperationPhase::Prepared,
        },
        Record::TempWritten { .. } => matches!(operation, PreparedOp::Replace { .. }) && phase
            == OperationPhase::Prepared,
        Record::Installed { .. } => matches!(operation, PreparedOp::Replace { .. })
            && replace_ready_exec(operation, phase),
        Record::Removed { .. } => matches!(operation, PreparedOp::Remove { .. })
            && old_state_ready_exec(operation, phase),
        Record::Moved { .. } => matches!(operation, PreparedOp::Move { .. }) && old_state_ready_exec(
            operation,
            phase,
        ),
        Record::Copied { .. } => matches!(operation, PreparedOp::Copy { .. }) && old_state_ready_exec(
            operation,
            phase,
        ),
        Record::MkdirDone { .. } => matches!(operation, PreparedOp::Mkdir { .. }) && phase
            == OperationPhase::Prepared,
        Record::Undone { .. } => phase == OperationPhase::Installed,
        _ => false,
    }
}

fn target_phase_exec(record: &BackupRecord) -> (r: OperationPhase)
    ensures
        r == target_phase(record@),
{
    match record {
        Record::OldSaved { .. } => OperationPhase::OldSaved,
        Record::TempWritten { .. } => OperationPhase::TempWritten,
        Record::Undone { .. } => OperationPhase::Undone,
        _ => OperationPhase::Installed,
    }
}


proof fn lemma_projection_take(ops: Map<u64, OperationView>, order: Seq<u64>, j: int)
    requires
        0 < j <= order.len(),
    ensures
        installed_projection(ops, order.take(j)) == (if ops.contains_key(order[j - 1])
            && ops[order[j - 1]].phase == OperationPhase::Installed {
            seq![ops[order[j - 1]]] + installed_projection(ops, order.take(j - 1))
        } else {
            installed_projection(ops, order.take(j - 1))
        }),
{
    assert(order.take(j).drop_last() =~= order.take(j - 1));
}

impl TransactionState {
    /// An empty state: not begun, active, with no operations.
    fn empty() -> (r: Self)
        ensures
            r@ == initial_model(),
    {
        let r = TransactionState {
            tx_id: None,
            status: TransactionStatus::Active,
            operations: BTreeMap::new(),
            install_order: Vec::new(),
        };
        assert(r@.ops =~= Map::<u64, OperationView>::empty());
        assert(r@.order =~= Seq::<u64>::empty());
        r
    }

    /// Reconstructs the transaction state from complete journal records,
    /// processing them in journal order. Refuses the journal when any record
    /// cannot follow the records before it.
    pub fn from_records(records: Vec<SequencedRecord<BackupRecord>>) -> (res: Result<
        Self,
        BackupTransactionError,
    >)
        ensures
            match model_replay(record_views(records@)) {
                Some(m) => res matches Ok(s) && s@ == m,
                None => res matches Err(e) && e is CorruptJournal,
            },
    {
        let ghost all = record_views(records@);
        let n = records.len();
        let mut state = Self::empty();
        let mut i: usize = 0;
        assert(all.take(0) =~= Seq::<RecordView>::empty());
        while i < n
            invariant
                n == records@.len(),
                all == record_views(records@),
                0 <= i <= n,
                model_replay(all.take(i as int)) == Some(state@),
            decreases n - i,
        {
            let record = &records[i].record;
            proof {
                assert(record@ == all[i as int]);
                lemma_replay_step(all, i as int);
            }
            let is_begin = matches!(record, Record::Begin { .. });
            if state.tx_id.is_none() && !is_begin {
                proof {
                    lemma_replay_none_extends(all, i as int + 1);
                }
                return Err(corrupt("journal record before begin"));
            }
            match state.apply_record(record) {
                Ok(()) => {},
                Err(e) => {
                    proof {
                        lemma_replay_none_extends(all, i as int + 1);
                    }
                    return Err(e);
                },
            }
            i = i + 1;
        }
        assert(all.take(n as int) =~= all);
        Ok(state)
    }

    /// The installed operations that still need rollback, latest install
    /// first; none once the transaction is committed or rolled back.
    /// Callers undo them in the returned order.
    pub fn installed_operations(&self) -> (r: Vec<OperationState>)
        ensures
            r@.map_values(|s: OperationState| s@) == model_installed_operations(self@),
    {
        if self.status == TransactionStatus::Committed || self.status
            == TransactionStatus::RolledBack {
            let r: Vec<OperationState> = Vec::new();
            assert(r@.map_values(|s: OperationState| s@) =~= Seq::<OperationView>::empty());
            return r;
        }
        self.installed_operation_projection()
    }

    /// The records that roll the transaction back, in the order they are
    /// appended: `rollback_started`, then `undone` for each installed
    /// operation in rollback order (latest install first), then
    /// `rolled_back`.
    pub fn rollback_plan(&self) -> (r: Vec<BackupRecord>)
        ensures
            r@.map_values(|x: BackupRecord| x@) == rollback_records(self@),
    {
        let ops = self.installed_operations();
        let ghost proj = model_installed_operations(self@);
        let mut out: Vec<BackupRecord> = Vec::new();
        out.push(Record::RollbackStarted);
        let mut i: usize = 0;
        while i < ops.len()
            invariant
                i <= ops@.len(),
                ops@.map_values(|s: OperationState| s@) == proj,
                out@.map_values(|x: BackupRecord| x@) == seq![Record::RollbackStarted] + undo_records(
                    proj.take(i as int),
                ),
            decreases ops@.len() - i,
        {
            let op = ops[i].op;
            assert(proj[i as int] == ops@[i as int]@);
            assert(proj[i as int].op == op);
            let ghost before = out@.map_values(|x: BackupRecord| x@);
            out.push(Record::Undone { op });
            assert(out@.map_values(|x: BackupRecord| x@) =~= before.push(Record::Undone { op }));
            assert(proj.take(i + 1) =~= proj.take(i as int).push(proj[i as int]));
            assert(undo_records(proj.take(i + 1)) =~= undo_records(proj.take(i as int)).push(
                Record::Undone { op },
            ));
            assert(out@.map_values(|x: BackupRecord| x@) =~= seq![Record::RollbackStarted]
                + undo_records(proj.take(i + 1)));
            i = i + 1;
        }
        assert(proj.take(ops@.len() as int) =~= proj);
        out.push(Record::RolledBack);
        assert(out@.map_values(|x: BackupRecord| x@) =~= rollback_records(self@));
        out
    }

    fn installed_operation_projection(&self) -> (r: Vec<OperationState>)
        ensures
            r@.map_values(|s: OperationState| s@) == installed_projection(self@.ops, self@.order),
    {
        let mut out: Vec<OperationState> = Vec::new();
        let mut j: usize = self.install_order.len();
        let ghost ops = self@.ops;
        let ghost order = self@.order;
        assert(order.take(j as int) =~= order);
        assert(out@.map_values(|s: OperationState| s@) =~= Seq::<OperationView>::empty());
        while j > 0
            invariant
                j <= self.install_order@.len(),
                ops == self@.ops,
                order == self@.order,
                order.len() == self.install_order@.len(),
                installed_projection(ops, order) == out@.map_values(|s: OperationState| s@)
                    + installed_projection(ops, order.take(j as int)),
            decreases j,
        {
            let id = self.install_order[j - 1];
            proof {
                lemma_projection_take(ops, order, j as int);
                assert(order[j - 1] == id.0);
            }
            let ghost before = out@.map_values(|s: OperationState| s@);
            match self.operations.get(&id.0) {
                Some(s) => {
                    if s.phase == OperationPhase::Installed {
                        let c = s.clone();
                        out.push(c);
                        assert(out@.map_values(|s: OperationState| s@) =~= before + seq![ops[id.0]]);
                    }
                },
                None => {},
            }
            j = j - 1;
        }
        assert(order.take(0) =~= Seq::<u64>::empty());
        out
    }

    fn require_active(&self) -> (res: Result<(), BackupTransactionError>)
        ensures
            match res {
                Ok(_) => self.status == TransactionStatus::Active,
                Err(e) => self.status != TransactionStatus::Active && e is CorruptJournal,
            },
    {
        if self.status == TransactionStatus::Active {
            Ok(())
        } else {
            Err(corrupt("operation phase outside active transaction"))
        }
    }

    fn prepare(&mut self, op: OpId, operation: PreparedOperation) -> (res: Result<(), BackupTransactionError>)
        ensures
            match model_prepare(old(self)@, op, operation@) {
                Some(m) => res is Ok && final(self)@ == m,
                None => res matches Err(e) && e is CorruptJournal && *final(self) == *old(self),
            },
    {
        if self.tx_id.is_none() {
            return Err(corrupt("operation prepared before begin"));
        }
        if self.operations.contains_key(&op.0) {
            return Err(corrupt("duplicate operation id"));
        }
        if self.status != TransactionStatus::Active {
            return Err(corrupt("operation prepared outside active transaction"));
        }
        match validate_prepared_operation(&operation) {
            Ok(()) => {},
            Err(e) => return Err(e),
        }
        let ghost before = self.operations@;
        let st = OperationStateOf { op, operation, phase: OperationPhase::Prepared };
        let ghost sv = st@;
        self.operations.insert(op.0, st);
        proof {
            assert(self.operations@.map_values(|s: OperationState| s@) =~= before.map_values(
                |s: OperationState| s@,
            ).insert(op.0, sv));
        }
        Ok(())
    }

    fn advance(&mut self, op: OpId, record: &BackupRecord) -> (res: Result<(), BackupTransactionError>)
        ensures
            match model_advance(old(self)@, op, record@) {
                Some(m) => res is Ok && final(self)@ == m,
                None => res matches Err(e) && e is CorruptJournal && *final(self) == *old(self),
            },
    {
        let allowed = match self.operations.get(&op.0) {
            None => {
                return Err(corrupt("operation phase references unknown operation"));
            },
            Some(s) => transition_allowed_exec(record, &s.operation, s.phase),
        };
        if !allowed {
            return Err(corrupt("invalid operation phase transition"));
        }
        let next = target_phase_exec(record);
        let ghost before = self.operations@;
        let ghost before_order = self.install_order@;
        let removed = self.operations.remove(&op.0);
        let mut st = match removed {
            Some(s) => s,
            None => {
                return Err(corrupt("operation phase references unknown operation"));
            },
        };
        st.phase = next;
        let ghost sv = st@;
        self.operations.insert(op.0, st);
        proof {
            assert(self.operations@ =~= before.insert(op.0, self.operations@[op.0]));
            assert(self.operations@.map_values(|s: OperationState| s@) =~= before.map_values(
                |s: OperationState| s@,
            ).insert(op.0, sv));
        }
        if next == OperationPhase::Installed {
            self.install_order.push(op);
            assert(self.install_order@.map_values(|o: OpId| o.0) =~= before_order.map_values(
                |o: OpId| o.0,
            ).push(op.0));
        }
        Ok(())
    }

    /// Applies one record, or refuses it when it cannot follow the history
    /// so far.
    pub fn apply_record(&mut self, record: &BackupRecord) -> (res: Result<(), BackupTransactionError>)
        ensures
            match model_apply(old(self)@, record@) {
                Some(m) => res is Ok && final(self)@ == m,
                None => res matches Err(e) && e is CorruptJournal && *final(self) == *old(self),
            },
    {
        match record {
            Record::Begin { tx_id } => {
                if self.tx_id.is_some() || self.status != TransactionStatus::Active {
                    return Err(corrupt("duplicate or late begin record"));
                }
                self.tx_id = Some(tx_id.clone());
                Ok(())
            },
            Record::ReplacePrepared { op, path, old, tmp, old_existed } => self.prepare(
                *op,
                PreparedOp::Replace {
                    path: path.clone(),
                    old: clone_journal_path(old),
                    tmp: tmp.clone(),
                    old_existed: *old_existed,
                },
            ),
            Record::RemovePrepared { op, path, old, old_existed } => self.prepare(
                *op,
                PreparedOp::Remove {
                    path: path.clone(),
                    old: clone_journal_path(old),
                    old_existed: *old_existed,
                },
            ),
            Record::MovePrepared { op, from, to, replaced, replaced_existed } => self.prepare(
                *op,
                PreparedOp::Move {
                    from: from.clone(),
                    to: to.clone(),
                    replaced: clone_journal_path(replaced),
                    replaced_existed: *replaced_existed,
                },
            ),
            Record::CopyPrepared { op, from, to, replaced, replaced_existed } => self.prepare(
                *op,
                PreparedOp::Copy {
                    from: from.clone(),
                    to: to.clone(),
                    replaced: clone_journal_path(replaced),
                    replaced_existed: *replaced_existed,
                },
            ),
            Record::MkdirPrepared { op, path, existed } => self.prepare(
                *op,
                PreparedOp::Mkdir { path: path.clone(), existed: *existed },
            ),
            Record::CommitReady => {
                if self.status != TransactionStatus::Active {
                    return Err(corrupt("commit_ready outside active transaction"));
                }
                self.status = TransactionStatus::CommitReady;
                Ok(())
            },
            Record::Committed => {
                if self.status != TransactionStatus::CommitReady {
                    return Err(corrupt("committed without commit_ready"));
                }
                self.status = TransactionStatus::Committed;
                Ok(())
            },
            Record::RollbackStarted => {
                if self.status == TransactionStatus::Committed || self.status
                    == TransactionStatus::RolledBack {
                    return Err(corrupt("rollback_started after terminal transaction state"));
                }
                self.status = TransactionStatus::RollbackStarted;
                Ok(())
            },
            Record::RolledBack => {
                if self.status != TransactionStatus::RollbackStarted {
                    return Err(corrupt("rolled_back without rollback_started"));
                }
                let proj = self.installed_operation_projection();
                if proj.len() != 0 {
                    return Err(corrupt("rolled_back with installed operations remaining"));
                }
                self.status = TransactionStatus::RolledBack;
                Ok(())
            },
            Record::Undone { op } => {
                if self.status != TransactionStatus::RollbackStarted {
                    return Err(corrupt("undone outside rollback"));
                }
                let proj = self.installed_operation_projection();
                if proj.len() == 0 || proj[0].op.0 != op.0 {
                    return Err(corrupt("undone operation is not next in rollback order"));
                }
                self.advance(*op, record)
            },
            Record::OldSaved { op } => {
                match self.require_active() {
                    Ok(()) => {},
                    Err(e) => return Err(e),
                }
                self.advance(*op, record)
            },
            Record::TempWritten { op, size } => {
                match self.require_active() {
                    Ok(()) => {},
                    Err(e) => return Err(e),
                }
                self.advance(*op, record)
            },
            Record::Installed { op } => {
                match self.require_active() {
                    Ok(()) => {},
                    Err(e) => return Err(e),
                }
                self.advance(*op, record)
            },
            Record::Removed { op } => {
                match self.require_active() {
                    Ok(()) => {},
                    Err(e) => return Err(e),
                }
                self.advance(*op, record)
            },
            Record::Moved { op } => {
                match self.require_active() {
                    Ok(()) => {},
                    Err(e) => return Err(e),
                }
                self.advance(*op, record)
            },
            Record::Copied { op } => {
                match self.require_active() {
                    Ok(()) => {},
                    Err(e) => return Err(e),
                }
                self.advance(*op, record)
            },
            Record::MkdirDone { op } => {
                match self.require_active() {
                    Ok(()) => {},
                    Err(e) => return Err(e),
                }
                self.advance(*op, record)
            },
        }
    }
}

proof fn lemma_replay_step(rs: Seq<RecordView>, k: int)
    requires
        0 <= k < rs.len(),
    ensures
        model_replay(rs.take(k + 1)) == (match model_replay(rs.take(k)) {
            Some(m) => model_step(m, rs[k]),
            None => None,
        }),
{
    let t = rs.take(k + 1);
    assert(t.drop_last() =~= rs.take(k));
    assert(t.last() == rs[k]);
    assert(t.len() > 0);
}

/// Once a prefix of the journal is refused, so is every longer prefix.
proof fn lemma_replay_none_extends(rs: Seq<RecordView>, k: int)
    requires
        0 <= k <= rs.len(),
        model_replay(rs.take(k)) is None,
    ensures
        model_replay(rs) is None,
    decreases rs.len() - k,
{
    if k < rs.len() {
        assert(rs.take(k + 1).drop_last() =~= rs.take(k));
        lemma_replay_none_extends(rs, k + 1);
    } else {
        assert(rs.take(k) =~= rs);
    }
}


// ---------------------------------------------------------------------------
// Laws of the replay
// ---------------------------------------------------------------------------

/// A phase that means the operation's visible mutation happened.
pub open spec fn was_installed(p: OperationPhase) -> bool {
    p == OperationPhase::Installed || p == OperationPhase::Undone
}

/// The invariant every replayed state satisfies.
pub open spec fn model_wf(m: TxModel) -> bool {
    &&& forall|k: u64| #[trigger] m.ops.contains_key(k) ==> m.ops[k].op.0 == k
    &&& forall|i: int, j: int| 0 <= i < j < m.order.len() ==> m.order[i] != m.order[j]
    &&& forall|i: int|
        0 <= i < m.order.len() ==> m.ops.contains_key(#[trigger] m.order[i]) && was_installed(
            m.ops[m.order[i]].phase,
        )
    &&& forall|k: u64|
        #[trigger] m.ops.contains_key(k) && was_installed(m.ops[k].phase) ==> m.order.contains(k)
    &&& m.status == TransactionStatus::RolledBack ==> installed_projection(m.ops, m.order).len()
        == 0
    &&& m.tx_id is None ==> (m.status == TransactionStatus::Active && m.ops.dom() == Set::<
        u64,
    >::empty() && m.order.len() == 0)
}

proof fn lemma_prepare_wf(m: TxModel, op: OpId, o: PreparedOperationView)
    requires
        model_wf(m),
        model_prepare(m, op, o) is Some,
    ensures
        model_wf(model_prepare(m, op, o).unwrap()),
{
    let m2 = model_prepare(m, op, o).unwrap();
    assert forall|i: int| 0 <= i < m2.order.len() implies m2.ops.contains_key(
        #[trigger] m2.order[i],
    ) && was_installed(m2.ops[m2.order[i]].phase) by {
        assert(m.ops.contains_key(m.order[i]));
        assert(m.order[i] != op.0);
    }
}

proof fn lemma_advance_wf(m: TxModel, op: OpId, r: RecordView)
    requires
        model_wf(m),
        model_advance(m, op, r) is Some,
        m.status == TransactionStatus::Active || m.status == TransactionStatus::RollbackStarted,
    ensures
        model_wf(model_advance(m, op, r).unwrap()),
{
    let m2 = model_advance(m, op, r).unwrap();
    let s = m.ops[op.0];
    let next = target_phase(r);
    assert(m.tx_id is Some) by {
        if m.tx_id is None {
            assert(!m.ops.dom().contains(op.0));
        }
    }
    assert(forall|k: u64| #[trigger] m2.ops.contains_key(k) ==> m2.ops[k].op.0 == k);
    if next == OperationPhase::Installed {
        assert(!was_installed(s.phase));
        assert(!m.order.contains(op.0)) by {
            if m.order.contains(op.0) {
                let i = choose|i: int| 0 <= i < m.order.len() && m.order[i] == op.0;
                assert(m.ops.contains_key(m.order[i]));
            }
        }
        assert(m2.order == m.order.push(op.0));
        assert forall|i: int, j: int| 0 <= i < j < m2.order.len() implies m2.order[i]
            != m2.order[j] by {
            if j == m.order.len() {
                assert(m.order[i] == m2.order[i]);
                assert(m.order.contains(m.order[i]));
            } else {
                assert(m.order[i] == m2.order[i] && m.order[j] == m2.order[j]);
            }
        }
        assert forall|i: int| 0 <= i < m2.order.len() implies m2.ops.contains_key(
            #[trigger] m2.order[i],
        ) && was_installed(m2.ops[m2.order[i]].phase) by {
            if i < m.order.len() {
                assert(m2.order[i] == m.order[i]);
                assert(m.ops.contains_key(m.order[i]));
                assert(m.order.contains(m.order[i]));
            }
        }
        assert forall|k: u64|
            #[trigger] m2.ops.contains_key(k) && was_installed(m2.ops[k].phase) implies m2.order.contains(
            k,
        ) by {
            if k == op.0 {
                assert(m2.order[m2.order.len() - 1] == k);
            } else {
                assert(m.order.contains(k));
                let i = choose|i: int| 0 <= i < m.order.len() && m.order[i] == k;
                assert(m2.order[i] == k);
            }
        }
    } else if next == OperationPhase::Undone {
        assert(s.phase == OperationPhase::Installed);
        assert(m.order.contains(op.0));
        assert(m2.order == m.order);
        assert forall|i: int| 0 <= i < m2.order.len() implies m2.ops.contains_key(
            #[trigger] m2.order[i],
        ) && was_installed(m2.ops[m2.order[i]].phase) by {
            assert(m.ops.contains_key(m.order[i]));
        }
        assert forall|k: u64|
            #[trigger] m2.ops.contains_key(k) && was_installed(m2.ops[k].phase) implies m2.order.contains(
            k,
        ) by {
            if k != op.0 {
                assert(m.ops.contains_key(k));
            }
        }
    } else {
        assert(!was_installed(s.phase));
        assert(m2.order == m.order);
        assert forall|i: int| 0 <= i < m2.order.len() implies m2.ops.contains_key(
            #[trigger] m2.order[i],
        ) && was_installed(m2.ops[m2.order[i]].phase) by {
            assert(m.ops.contains_key(m.order[i]));
            if m.order[i] == op.0 {
                assert(was_installed(m.ops[op.0].phase));
            }
        }
        assert forall|k: u64|
            #[trigger] m2.ops.contains_key(k) && was_installed(m2.ops[k].phase) implies m2.order.contains(
            k,
        ) by {
            if k != op.0 {
                assert(m.ops.contains_key(k));
            }
        }
    }
}

/// Undoing an operation that is not in the order leaves the projection alone.
proof fn lemma_projection_other_key(ops: Map<u64, OperationView>, order: Seq<u64>, k: u64, v: OperationView)
    requires
        !order.contains(k),
    ensures
        installed_projection(ops.insert(k, v), order) == installed_projection(ops, order),
    decreases order.len(),
{
    if order.len() > 0 {
        assert(!order.drop_last().contains(k)) by {
            if order.drop_last().contains(k) {
                let i = choose|i: int| 0 <= i < order.drop_last().len() && order.drop_last()[i] == k;
                assert(order[i] == k);
            }
        }
        assert(order.last() != k) by {
            assert(order[order.len() - 1] == order.last());
        }
        lemma_projection_other_key(ops, order.drop_last(), k, v);
    }
}

proof fn lemma_projection_elems(ops: Map<u64, OperationView>, order: Seq<u64>)
    requires
        forall|x: u64| #[trigger] ops.contains_key(x) ==> ops[x].op.0 == x,
    ensures
        forall|i: int|
            0 <= i < installed_projection(ops, order).len() ==> {
                let e = #[trigger] installed_projection(ops, order)[i];
                &&& ops.contains_key(e.op.0)
                &&& ops[e.op.0] == e
                &&& e.phase == OperationPhase::Installed
            },
    decreases order.len(),
{
    if order.len() > 0 {
        lemma_projection_elems(ops, order.drop_last());
        let last = order.last();
        let rest = installed_projection(ops, order.drop_last());
        if ops.contains_key(last) && ops[last].phase == OperationPhase::Installed {
            assert forall|i: int| 0 <= i < installed_projection(ops, order).len() implies {
                let e = #[trigger] installed_projection(ops, order)[i];
                &&& ops.contains_key(e.op.0)
                &&& ops[e.op.0] == e
                &&& e.phase == OperationPhase::Installed
            } by {
                if i > 0 {
                    assert(installed_projection(ops, order)[i] == rest[i - 1]);
                }
            }
        }
    }
}

/// Marking the head of the rollback list as undone removes exactly that head.
proof fn lemma_projection_undo_head(ops: Map<u64, OperationView>, order: Seq<u64>, k: u64, v: OperationView)
    requires
        forall|x: u64| #[trigger] ops.contains_key(x) ==> ops[x].op.0 == x,
        forall|i: int, j: int| 0 <= i < j < order.len() ==> order[i] != order[j],
        installed_projection(ops, order).len() > 0,
        installed_projection(ops, order)[0].op.0 == k,
        v.phase == OperationPhase::Undone,
    ensures
        installed_projection(ops.insert(k, v), order) == installed_projection(ops, order).drop_first(),
    decreases order.len(),
{
    let last = order.last();
    let rest = order.drop_last();
    let proj = installed_projection(ops, order);
    let ops2 = ops.insert(k, v);
    if ops.contains_key(last) && ops[last].phase == OperationPhase::Installed {
        assert(k == last);
        assert(!rest.contains(k)) by {
            if rest.contains(k) {
                let i = choose|i: int| 0 <= i < rest.len() && rest[i] == k;
                assert(order[i] == order[order.len() - 1]);
            }
        }
        lemma_projection_other_key(ops, rest, k, v);
        assert(proj.drop_first() =~= installed_projection(ops, rest));
    } else {
        lemma_projection_elems(ops, order);
        assert(k != last);
        assert forall|i: int, j: int| 0 <= i < j < rest.len() implies rest[i] != rest[j] by {
            assert(order[i] == rest[i] && order[j] == rest[j]);
        }
        lemma_projection_undo_head(ops, rest, k, v);
    }
}

/// The steps of the replay keep the invariant.
pub proof fn law_step_keeps_invariant(m: TxModel, r: RecordView)
    requires
        model_wf(m),
        model_step(m, r) is Some,
    ensures
        model_wf(model_step(m, r).unwrap()),
{
    let m2 = model_step(m, r).unwrap();
    match r {
        Record::Begin { .. } => {},
        Record::ReplacePrepared { op, path, old, tmp, old_existed } => {
            lemma_prepare_wf(m, op, PreparedOp::Replace { path, old, tmp, old_existed });
        },
        Record::RemovePrepared { op, path, old, old_existed } => {
            lemma_prepare_wf(m, op, PreparedOp::Remove { path, old, old_existed });
        },
        Record::MovePrepared { op, from, to, replaced, replaced_existed } => {
            lemma_prepare_wf(m, op, PreparedOp::Move { from, to, replaced, replaced_existed });
        },
        Record::CopyPrepared { op, from, to, replaced, replaced_existed } => {
            lemma_prepare_wf(m, op, PreparedOp::Copy { from, to, replaced, replaced_existed });
        },
        Record::MkdirPrepared { op, path, existed } => {
            lemma_prepare_wf(m, op, PreparedOp::Mkdir { path, existed });
        },
        Record::OldSaved { op } | Record::TempWritten { op, .. } | Record::Installed { op }
        | Record::Removed { op } | Record::Moved { op } | Record::Copied { op } | Record::MkdirDone {
            op,
        } => {
            lemma_advance_wf(m, op, r);
        },
        Record::Undone { op } => {
            lemma_advance_wf(m, op, r);
        },
        _ => {},
    }
}

/// Every state that a journal replays to satisfies the invariant: keys match
/// the stored ids, each operation is installed at most once, the install
/// order holds exactly the installed or undone operations, a rolled-back
/// transaction has nothing left to undo, and nothing exists before `begin`.
pub proof fn law_replay_keeps_invariant(rs: Seq<RecordView>)
    requires
        model_replay(rs) is Some,
    ensures
        model_wf(model_replay(rs).unwrap()),
    decreases rs.len(),
{
    if rs.len() == 0 {
        let m = initial_model();
        assert(m.ops.dom() =~= Set::<u64>::empty());
    } else {
        law_replay_keeps_invariant(rs.drop_last());
        law_step_keeps_invariant(model_replay(rs.drop_last()).unwrap(), rs.last());
    }
}

/// A committed or rolled-back transaction accepts no further record.
pub proof fn law_terminal_state_accepts_nothing(rs: Seq<RecordView>, r: RecordView)
    requires
        model_replay(rs) matches Some(m) && (m.status == TransactionStatus::Committed || m.status
            == TransactionStatus::RolledBack),
    ensures
        model_replay(rs.push(r)) is None,
{
    assert(rs.push(r).drop_last() =~= rs);
}

/// An `undone` record is accepted only for the next operation in rollback
/// order, and it removes exactly that operation from the rollback list.
pub proof fn law_undone_pops_rollback_head(rs: Seq<RecordView>, op: OpId)
    requires
        model_replay(rs) is Some,
        model_replay(rs.push(Record::Undone { op })) is Some,
    ensures
        ({
            let m = model_replay(rs).unwrap();
            let m2 = model_replay(rs.push(Record::Undone { op })).unwrap();
            &&& installed_projection(m.ops, m.order).len() > 0
            &&& installed_projection(m.ops, m.order)[0].op == op
            &&& installed_projection(m2.ops, m2.order) == installed_projection(m.ops, m.order).drop_first()
        }),
{
    assert(rs.push(Record::Undone { op }).drop_last() =~= rs);
    let m = model_replay(rs).unwrap();
    law_replay_keeps_invariant(rs);
    let r: RecordView = Record::Undone { op };
    let s = m.ops[op.0];
    lemma_projection_undo_head(
        m.ops,
        m.order,
        op.0,
        OperationStateOf { op: s.op, operation: s.operation, phase: OperationPhase::Undone },
    );
}

/// Replaying a journal processes its records in order: one more record is
/// one more step from the state replayed so far.
pub proof fn law_replay_is_stepwise(rs: Seq<RecordView>, r: RecordView)
    ensures
        model_replay(rs.push(r)) == (match model_replay(rs) {
            Some(m) => model_step(m, r),
            None => None,
        }),
{
    assert(rs.push(r).drop_last() =~= rs);
}


/// The `undone` records of operations, in order.
pub open spec fn undo_records(ops: Seq<OperationView>) -> Seq<RecordView> {
    ops.map_values(|o: OperationView| Record::Undone { op: o.op })
}

/// The records that roll a transaction back: `rollback_started`, an
/// `undone` for each installed operation in rollback order, `rolled_back`.
pub open spec fn rollback_records(m: TxModel) -> Seq<RecordView> {
    seq![Record::RollbackStarted] + undo_records(model_installed_operations(m)) + seq![Record::RolledBack]
}

/// The head of the rollback list is a stored, installed operation under
/// its own id.
proof fn lemma_projection_head(ops: Map<u64, OperationView>, order: Seq<u64>)
    requires
        forall|x: u64| #[trigger] ops.contains_key(x) ==> ops[x].op.0 == x,
        installed_projection(ops, order).len() > 0,
    ensures
        ops.contains_key(installed_projection(ops, order)[0].op.0),
        ops[installed_projection(ops, order)[0].op.0] == installed_projection(ops, order)[0],
        installed_projection(ops, order)[0].phase == OperationPhase::Installed,
    decreases order.len(),
{
    let k = order.last();
    if !(ops.contains_key(k) && ops[k].phase == OperationPhase::Installed) {
        lemma_projection_head(ops, order.drop_last());
    }
}

/// From a started rollback, undoing the rollback list in order is accepted
/// and empties it.
proof fn lemma_undo_all(rs: Seq<RecordView>, proj: Seq<OperationView>)
    requires
        model_replay(rs) matches Some(m) && m.status == TransactionStatus::RollbackStarted && m.tx_id is Some
            && installed_projection(m.ops, m.order) == proj,
    ensures
        model_replay(rs + undo_records(proj)) matches Some(m2) && m2.status
            == TransactionStatus::RollbackStarted && m2.tx_id is Some && installed_projection(m2.ops, m2.order).len()
            == 0,
    decreases proj.len(),
{
    let m = model_replay(rs).unwrap();
    if proj.len() == 0 {
        assert(rs + undo_records(proj) =~= rs);
    } else {
        law_replay_keeps_invariant(rs);
        lemma_projection_head(m.ops, m.order);
        let op = proj[0].op;
        let r: RecordView = Record::Undone { op };
        let rs1 = rs.push(r);
        law_replay_is_stepwise(rs, r);
        assert(model_replay(rs1) is Some);
        law_undone_pops_rollback_head(rs, op);
        let m1 = model_replay(rs1).unwrap();
        lemma_undo_all(rs1, proj.drop_first());
        assert(undo_records(proj) =~= seq![r] + undo_records(proj.drop_first()));
        assert(rs1 + undo_records(proj.drop_first()) =~= rs + undo_records(proj));
    }
}

/// Rolling back a begun transaction that is neither committed nor rolled
/// back: appending its rollback records (`rollback_started`, `undone` for
/// each installed operation latest first, `rolled_back`) is accepted and
/// leaves it rolled back with nothing installed.
pub proof fn law_rollback_plan_rolls_back(rs: Seq<RecordView>)
    requires
        model_replay(rs) matches Some(m) && m.tx_id is Some && m.status != TransactionStatus::Committed
            && m.status != TransactionStatus::RolledBack,
    ensures
        model_replay(rs + rollback_records(model_replay(rs).unwrap())) matches Some(m2) && m2.status
            == TransactionStatus::RolledBack && model_installed_operations(m2).len() == 0,
{
    let m = model_replay(rs).unwrap();
    let proj = installed_projection(m.ops, m.order);
    let r0: RecordView = Record::RollbackStarted;
    let rs0 = rs.push(r0);
    law_replay_is_stepwise(rs, r0);
    lemma_undo_all(rs0, proj);
    let rs1 = rs0 + undo_records(proj);
    let r2: RecordView = Record::RolledBack;
    law_replay_is_stepwise(rs1, r2);
    assert(rs1.push(r2) =~= rs + rollback_records(m));
}

/// How a record moves the transaction's status, for a state a journal
/// replays to: `commit_ready` needs an active transaction, `committed`
/// needs commit-ready, `rolled_back` needs a started rollback with nothing
/// installed left, `undone` needs a started rollback and keeps it; each of
/// these sets its status, and `rollback_started` starts the rollback.
/// `begin`, the prepare records and the phase records need an active
/// transaction and keep its status.
pub proof fn law_record_status_rules(rs: Seq<RecordView>, r: RecordView)
    requires
        model_replay(rs) is Some,
        model_replay(rs.push(r)) is Some,
    ensures
        ({
            let m = model_replay(rs).unwrap();
            let m2 = model_replay(rs.push(r)).unwrap();
            match r {
                Record::CommitReady => m.status == TransactionStatus::Active && m2.status
                    == TransactionStatus::CommitReady,
                Record::Committed => m.status == TransactionStatus::CommitReady && m2.status
                    == TransactionStatus::Committed,
                Record::RollbackStarted => m2.status == TransactionStatus::RollbackStarted,
                Record::RolledBack => m.status == TransactionStatus::RollbackStarted
                    && installed_projection(m.ops, m.order).len() == 0 && m2.status
                    == TransactionStatus::RolledBack,
                Record::Undone { .. } => m.status == TransactionStatus::RollbackStarted && m2.status
                    == m.status,
                _ => m.status == TransactionStatus::Active && m2.status == m.status,
            }
        }),
{
    assert(rs.push(r).drop_last() =~= rs);
}

} // verus!

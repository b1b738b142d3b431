//! MobileBackup2 message names and the records the backup flow reports.

use vstd::prelude::*;

use std::time::SystemTime;

verus! {

/// A point in time, as std's `SystemTime`; opaque here.
#[verifier::external_type_specification]
#[verifier::external_body]
pub struct ExSystemTime(SystemTime);

/// A directory entry as the backup delegate reports it.
#[derive(Debug, Clone)]
pub struct DirEntryInfo {
    /// Entry name.
    pub name: String,
    /// Whether the entry is a directory.
    pub is_dir: bool,
    /// Whether the entry is a regular file.
    pub is_file: bool,
    /// Size in bytes.
    pub size: u64,
    /// Modification time, when known.
    pub modified: Option<SystemTime>,
}

/// The delegate that keeps backup data on the local filesystem.
#[derive(Debug, Clone, Copy, Default)]
pub struct FsBackupDelegate;

/// MobileBackup2 message types.
#[derive(Debug, Clone, Copy, PartialEq, Eq, Structural)]
pub enum BackupMessageType {
    /// Request to start a backup operation.
    BackupMessageTypeBackup,
    /// Request to restore from a backup.
    BackupMessageTypeRestore,
    /// Information message.
    BackupMessageTypeInfo,
    /// List available backups.
    BackupMessageTypeList,
    /// Upload files to backup.
    BackupMessageTypeUploadFiles,
    /// Download files from backup.
    BackupMessageTypeDownloadFiles,
    /// Clear backup data.
    BackupMessageTypeClearBackupData,
    /// Move files in backup.
    BackupMessageTypeMoveFiles,
    /// Remove files from backup.
    BackupMessageTypeRemoveFiles,
    /// Create directory in backup.
    BackupMessageTypeCreateDirectory,
    /// Acquire lock for backup operation.
    BackupMessageTypeAcquireLock,
    /// Release lock after backup operation.
    BackupMessageTypeReleaseLock,
    /// Copy item in backup.
    BackupMessageTypeCopyItem,
    /// Disconnect from service.
    BackupMessageTypeDisconnect,
    /// Process message.
    BackupMessageTypeProcessMessage,
    /// Get free space information.
    BackupMessageTypeGetFreespace,
    /// Factory info.
    BackupMessageTypeFactoryInfo,
    /// Check if backup is encrypted.
    BackupMessageTypeCheckBackupEncryption,
}

/// The wire name of each message type: MobileBackup2 request names, and
/// DeviceLink control message names for the `DLMessage` ones.
pub open spec fn backup_message_name(t: BackupMessageType) -> Seq<char> {
    match t {
        BackupMessageType::BackupMessageTypeBackup => "Backup"@,
        BackupMessageType::BackupMessageTypeRestore => "Restore"@,
        BackupMessageType::BackupMessageTypeInfo => "Info"@,
        BackupMessageType::BackupMessageTypeList => "List"@,
        BackupMessageType::BackupMessageTypeUploadFiles => "DLMessageUploadFiles"@,
        BackupMessageType::BackupMessageTypeDownloadFiles => "DLMessageDownloadFiles"@,
        BackupMessageType::BackupMessageTypeClearBackupData => "DLMessageClearBackupData"@,
        BackupMessageType::BackupMessageTypeMoveFiles => "DLMessageMoveFiles"@,
        BackupMessageType::BackupMessageTypeRemoveFiles => "DLMessageRemoveFiles"@,
        BackupMessageType::BackupMessageTypeCreateDirectory => "DLMessageCreateDirectory"@,
        BackupMessageType::BackupMessageTypeAcquireLock => "DLMessageAcquireLock"@,
        BackupMessageType::BackupMessageTypeReleaseLock => "DLMessageReleaseLock"@,
        BackupMessageType::BackupMessageTypeCopyItem => "DLMessageCopyItem"@,
        BackupMessageType::BackupMessageTypeDisconnect => "DLMessageDisconnect"@,
        BackupMessageType::BackupMessageTypeProcessMessage => "DLMessageProcessMessage"@,
        BackupMessageType::BackupMessageTypeGetFreespace => "DLMessageGetFreeDiskSpace"@,
        BackupMessageType::BackupMessageTypeFactoryInfo => "FactoryInfo"@,
        BackupMessageType::BackupMessageTypeCheckBackupEncryption => "CheckBackupEncryption"@,
    }
}

impl BackupMessageType {
    /// The message type's wire name.
    pub fn as_str(&self) -> (r: &'static str)
        ensures
            r@ == backup_message_name(*self),
    {
        match self {
            BackupMessageType::BackupMessageTypeBackup => "Backup",
            BackupMessageType::BackupMessageTypeRestore => "Restore",
            BackupMessageType::BackupMessageTypeInfo => "Info",
            BackupMessageType::BackupMessageTypeList => "List",
            BackupMessageType::BackupMessageTypeUploadFiles => "DLMessageUploadFiles",
            BackupMessageType::BackupMessageTypeDownloadFiles => "DLMessageDownloadFiles",
            BackupMessageType::BackupMessageTypeClearBackupData => "DLMessageClearBackupData",
            BackupMessageType::BackupMessageTypeMoveFiles => "DLMessageMoveFiles",
            BackupMessageType::BackupMessageTypeRemoveFiles => "DLMessageRemoveFiles",
            BackupMessageType::BackupMessageTypeCreateDirectory => "DLMessageCreateDirectory",
            BackupMessageType::BackupMessageTypeAcquireLock => "DLMessageAcquireLock",
            BackupMessageType::BackupMessageTypeReleaseLock => "DLMessageReleaseLock",
            BackupMessageType::BackupMessageTypeCopyItem => "DLMessageCopyItem",
            BackupMessageType::BackupMessageTypeDisconnect => "DLMessageDisconnect",
            BackupMessageType::BackupMessageTypeProcessMessage => "DLMessageProcessMessage",
            BackupMessageType::BackupMessageTypeGetFreespace => "DLMessageGetFreeDiskSpace",
            BackupMessageType::BackupMessageTypeFactoryInfo => "FactoryInfo",
            BackupMessageType::BackupMessageTypeCheckBackupEncryption => "CheckBackupEncryption",
        }
    }
}

/// Backup information.
#[derive(Debug, Clone)]
pub struct BackupInfo {
    /// Backup UUID.
    pub uuid: String,
    /// Device name.
    pub device_name: String,
    /// Display name.
    pub display_name: String,
    /// Last backup date.
    pub last_backup_date: Option<String>,
    /// Backup version.
    pub version: String,
    /// Whether the backup is encrypted.
    pub is_encrypted: bool,
}

} // verus!

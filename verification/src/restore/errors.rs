use vstd::prelude::*;

verus! {

/// Failures that can occur while restoring an IPSW onto a device, grouped by
/// the stage that produced them.
#[derive(Debug)]
pub enum RestoreError {
    /// A component named by the build identity could not be found in it.
    ComponentNotFound(String),
    /// Reading or extracting from the IPSW archive failed.
    Ipsw(String),
    /// IMG4 personalization (IM4P/IM4M/IM4R stitching) failed.
    Img4(String),
    /// Assembling or stitching baseband firmware failed.
    Baseband(String),
    /// The device rejected the baseband update it was sent.
    BasebandRejected(String),
    /// The Apple Software Restore filesystem transfer failed.
    Asr(String),
    /// No filesystem image was supplied to a restore that needs one.
    NoFilesystemImage,
    /// Could not open a connection to a restore-mode data port.
    DataPortConnect(u16),
    /// A recovery- or DFU-mode USB operation failed.
    Recovery(String),
    /// A preboard stashbag operation failed.
    Stashbag(String),
    /// A TSS response was missing or had an unexpected shape.
    TssResponse(String),
    /// A message from the device was missing a field the handler required.
    MissingField(String),
    /// `restored` crashed partway through the restore.
    RestoredCrashed,
    /// The device reported a fatal, structured restore error.
    DeviceReported { amr_error: i64, detail: String },
    /// A restore feature or code path the device asked for is not implemented.
    Unsupported(String),
    /// The consumer requested cancellation.
    Cancelled,
    /// Any other restore failure.
    Other(String),
}

/// The sub-error code of each restore error, as exposed to FFI consumers.
pub open spec fn restore_sub_code(e: RestoreError) -> i32 {
    match e {
        RestoreError::ComponentNotFound(_) => 1,
        RestoreError::Ipsw(_) => 2,
        RestoreError::Img4(_) => 3,
        RestoreError::Baseband(_) => 4,
        RestoreError::BasebandRejected(_) => 5,
        RestoreError::Asr(_) => 6,
        RestoreError::NoFilesystemImage => 7,
        RestoreError::DataPortConnect(_) => 8,
        RestoreError::Recovery(_) => 9,
        RestoreError::Stashbag(_) => 10,
        RestoreError::TssResponse(_) => 11,
        RestoreError::MissingField(_) => 12,
        RestoreError::RestoredCrashed => 13,
        RestoreError::DeviceReported { .. } => 14,
        RestoreError::Unsupported(_) => 15,
        RestoreError::Cancelled => 17,
        RestoreError::Other(_) => 16,
    }
}

impl RestoreError {
    /// Returns the sub-error code within the restore category, for FFI
    /// consumers.
    pub fn sub_code(&self) -> (r: i32)
        ensures
            r == restore_sub_code(*self),
    {
        match self {
            RestoreError::ComponentNotFound(_) => 1,
            RestoreError::Ipsw(_) => 2,
            RestoreError::Img4(_) => 3,
            RestoreError::Baseband(_) => 4,
            RestoreError::BasebandRejected(_) => 5,
            RestoreError::Asr(_) => 6,
            RestoreError::NoFilesystemImage => 7,
            RestoreError::DataPortConnect(_) => 8,
            RestoreError::Recovery(_) => 9,
            RestoreError::Stashbag(_) => 10,
            RestoreError::TssResponse(_) => 11,
            RestoreError::MissingField(_) => 12,
            RestoreError::RestoredCrashed => 13,
            RestoreError::DeviceReported { .. } => 14,
            RestoreError::Unsupported(_) => 15,
            RestoreError::Cancelled => 17,
            RestoreError::Other(_) => 16,
        }
    }
}

/// Different kinds of restore error have different codes, and every code is
/// between 1 and 17.
pub proof fn law_restore_sub_codes_distinguish_kinds(a: RestoreError, b: RestoreError)
    ensures
        1 <= restore_sub_code(a) <= 17,
        restore_sub_code(a) == restore_sub_code(b) ==> (a is ComponentNotFound <==> b is ComponentNotFound)
            && (a is Ipsw <==> b is Ipsw) && (a is Img4 <==> b is Img4) && (a is Baseband
            <==> b is Baseband) && (a is BasebandRejected <==> b is BasebandRejected) && (a is Asr
            <==> b is Asr) && (a is NoFilesystemImage <==> b is NoFilesystemImage) && (a is DataPortConnect
            <==> b is DataPortConnect) && (a is Recovery <==> b is Recovery) && (a is Stashbag
            <==> b is Stashbag) && (a is TssResponse <==> b is TssResponse) && (a is MissingField
            <==> b is MissingField) && (a is RestoredCrashed <==> b is RestoredCrashed) && (a is DeviceReported
            <==> b is DeviceReported) && (a is Unsupported <==> b is Unsupported) && (a is Cancelled
            <==> b is Cancelled) && (a is Other <==> b is Other),
{
}

} // verus!

//! The failure taxonomy of a copy operation.

use vstd::prelude::*;

verus! {

/// Everything that can abort a copy.  `InvalidCombination` and
/// `MountBlocked` are detected before the pipeline starts; the others are
/// recorded by the stage that hit them, and the first one recorded is the
/// only one surfaced.
#[derive(Clone, Copy, Debug, PartialEq, Eq, Structural)]
pub enum CopyError {
    /// Both endpoints resolve to recognized special-device names.
    InvalidCombination,
    /// An endpoint could not be opened (missing file, permission denied).
    OpenFailure,
    /// The input endpoint failed while filling a buffer.
    ReadFailure,
    /// The output endpoint failed while draining a buffer; this includes
    /// the simulated storage-full condition.
    WriteFailure,
    /// The output path backs an active mount that could not be unmounted.
    MountBlocked,
}

impl CopyError {
    /// The human-readable description of the failure.
    pub open spec fn spec_message(self) -> Seq<char> {
        match self {
            CopyError::InvalidCombination => "cannot copy from a special device to a special device"@,
            CopyError::OpenFailure => "could not open the endpoint"@,
            CopyError::ReadFailure => "read error"@,
            CopyError::WriteFailure => "no space left on device"@,
            CopyError::MountBlocked => "device is mounted and could not be unmounted"@,
        }
    }

    /// The human-readable description of the failure.
    pub fn message(&self) -> (m: String)
        ensures
            m@ == self.spec_message(),
    {
        match self {
            CopyError::InvalidCombination => "cannot copy from a special device to a special device".to_owned(),
            CopyError::OpenFailure => "could not open the endpoint".to_owned(),
            CopyError::ReadFailure => "read error".to_owned(),
            CopyError::WriteFailure => "no space left on device".to_owned(),
            CopyError::MountBlocked => "device is mounted and could not be unmounted".to_owned(),
        }
    }
}

} // verus!

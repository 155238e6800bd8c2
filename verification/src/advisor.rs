//! The capacity and safety advisor: the target size a copy is expected
//! to reach, and the mount-safety gate that protects an actively mounted
//! device from a destructive write.
//!
//! The advisor's decisions are functions of the disks the system
//! reports, modelled as plain values; querying the system itself is a
//! single trusted call, and everything downstream of it is verified for
//! every possible answer.

use vstd::prelude::*;

use crate::endpoint::{InputSource, OutputSource};
use crate::errors::CopyError;
use crate::progress::ProgressType;
use crate::strutil::{base_name_bytes, base_names_match, bytes_of, seq_contains, str_contains,
    str_eq, string_eq_str};

verus! {

/// What the advisor reads of one disk the system reports: its device
/// name, its mount point, and its total space.
#[derive(Clone, Debug)]
pub struct DiskInfo {
    pub name: String,
    pub mount_point: String,
    pub total_space: u64,
}

/// Relies on `sysinfo::Disks::new_with_refreshed_list`: lists the disks
/// the system currently reports, each converted to plain values.  The
/// answer depends on the machine, so nothing is promised of it; every
/// decision taken on it is verified for any list.
#[verifier::external_body]
pub fn list_disks() -> Vec<DiskInfo> {
    sysinfo::Disks::new_with_refreshed_list()
        .iter()
        .map(
            |d| DiskInfo {
                name: d.name().to_string_lossy().into_owned(),
                mount_point: d.mount_point().to_string_lossy().into_owned(),
                total_space: d.total_space(),
            },
        )
        .collect()
}

/// Whether a path names this disk: exactly its device name, or the same
/// non-empty trailing path component.
pub open spec fn spec_disk_match(d: DiskInfo, path: Seq<char>) -> bool {
    ||| d.name@ == path
    ||| ({
        let bp = base_name_bytes(bytes_of(path));
        bp.len() > 0 && bp == base_name_bytes(bytes_of(d.name@))
    })
}

/// Whether a path names this disk.
pub fn disk_match(d: &DiskInfo, path: &String) -> (r: bool)
    ensures
        r == spec_disk_match(*d, path@),
{
    str_eq(d.name.as_str(), path.as_str()) || base_names_match(path.as_str(), d.name.as_str())
}

/// The total space of the first disk the path names, if any.
pub open spec fn spec_find_space(disks: Seq<DiskInfo>, path: Seq<char>) -> Option<u64>
    decreases disks.len(),
{
    if disks.len() == 0 {
        None
    } else if spec_disk_match(disks[0], path) {
        Some(disks[0].total_space)
    } else {
        spec_find_space(disks.drop_first(), path)
    }
}

/// The space behind a path: the total space of the first disk the path
/// names, else whatever raw block-device size the caller could query.
pub open spec fn spec_available_space(
    disks: Seq<DiskInfo>,
    path: Seq<char>,
    block_device_size: Option<u64>,
) -> Option<u64> {
    match spec_find_space(disks, path) {
        Some(s) => Some(s),
        None => block_device_size,
    }
}

/// Get the space available behind a path, scanning the reported disks in
/// order and falling back to the raw block-device size the caller
/// queried, if any.
pub fn get_available_space(
    path: &String,
    disks: &Vec<DiskInfo>,
    block_device_size: Option<u64>,
) -> (r: Option<u64>)
    ensures
        r == spec_available_space(disks@, path@, block_device_size),
{
    proof {
        assert(disks@.skip(0) =~= disks@);
    }
    let mut i: usize = 0;
    while i < disks.len()
        invariant
            0 <= i <= disks@.len(),
            spec_find_space(disks@, path@) == spec_find_space(disks@.skip(i as int), path@),
        decreases disks@.len() - i,
    {
        let ghost pre = disks@.skip(i as int);
        proof {
            assert(pre[0] == disks@[i as int]);
            assert(pre.drop_first() =~= disks@.skip(i as int + 1));
        }
        if disk_match(&disks[i], path) {
            return Some(disks[i].total_space);
        }
        i += 1;
    }
    proof {
        assert(disks@.skip(disks@.len() as int) =~= Seq::<DiskInfo>::empty());
    }
    block_device_size
}

/// Query the machine for the space available behind a path: the
/// decision over whatever disks the system reports is
/// `get_available_space`'s, so only the caller-supplied fallback can be
/// promised here.
pub fn probe_available_space(path: &String, block_device_size: Option<u64>) -> (r: Option<u64>)
    ensures
        block_device_size is Some ==> r is Some,
{
    let disks = list_disks();
    get_available_space(path, &disks, block_device_size)
}

/// How a path can be opened as a raw device on systems that name
/// physical drives `\\.\...`: usable as it stands, a bare physical-drive
/// name that needs the prefix, a single drive letter with its colon, or
/// not a device name at all.
#[derive(Clone, Copy, Debug, PartialEq, Eq, Structural)]
pub enum DevicePathKind {
    AlreadyDevice,
    PhysicalDrive,
    DriveLetter,
    NotADevice,
}

/// The classification of a path as a raw device name, decided on UTF-8
/// bytes.
pub open spec fn spec_device_path_kind(s: Seq<char>) -> DevicePathKind {
    if bytes_of("\\\\.\\"@).is_prefix_of(bytes_of(s)) {
        DevicePathKind::AlreadyDevice
    } else if bytes_of("PhysicalDrive"@).is_prefix_of(bytes_of(s)) {
        DevicePathKind::PhysicalDrive
    } else if bytes_of(s).len() == 2 && bytes_of(s).last() == 58u8 {
        DevicePathKind::DriveLetter
    } else {
        DevicePathKind::NotADevice
    }
}

/// Classify a path as a raw device name, so that the platform code that
/// queries a drive's geometry knows what to open.
pub fn classify_device_path(path: &String) -> (r: DevicePathKind)
    ensures
        r == spec_device_path_kind(path@),
{
    if crate::strutil::str_starts_with(path.as_str(), "\\\\.\\") {
        DevicePathKind::AlreadyDevice
    } else if crate::strutil::str_starts_with(path.as_str(), "PhysicalDrive") {
        DevicePathKind::PhysicalDrive
    } else {
        let b = path.as_str().as_bytes();
        if b.len() == 2 && *vstd::slice::slice_index_get(b, 1) == 58u8 {
            DevicePathKind::DriveLetter
        } else {
            DevicePathKind::NotADevice
        }
    }
}

/// The mount points that mark a protected system drive.
pub open spec fn is_system_mount(m: Seq<char>) -> bool {
    m == "/"@ || m == "/boot"@ || m == "/usr"@
}

/// Whether the path names a device that backs a protected system mount:
/// some reported disk is mounted at a system root and its device name
/// occurs in the path.
pub open spec fn spec_is_system_drive(disks: Seq<DiskInfo>, path: Seq<char>) -> bool {
    exists|k: int|
        0 <= k < disks.len() && is_system_mount(#[trigger] disks[k].mount_point@) && seq_contains(
            bytes_of(path),
            bytes_of(disks[k].name@),
        )
}

/// Whether the path names a device that backs a protected system mount.
pub fn is_system_drive(path: &String, disks: &Vec<DiskInfo>) -> (r: bool)
    ensures
        r == spec_is_system_drive(disks@, path@),
{
    let mut i: usize = 0;
    while i < disks.len()
        invariant
            0 <= i <= disks@.len(),
            forall|k: int|
                0 <= k < i ==> !(is_system_mount(#[trigger] disks@[k].mount_point@)
                    && seq_contains(bytes_of(path@), bytes_of(disks@[k].name@))),
        decreases disks@.len() - i,
    {
        let d = &disks[i];
        let sys = string_eq_str(&d.mount_point, "/") || string_eq_str(&d.mount_point, "/boot")
            || string_eq_str(&d.mount_point, "/usr");
        if sys && str_contains(path.as_str(), d.name.as_str()) {
            return true;
        }
        i += 1;
    }
    false
}

/// What the mount-safety gate decides before a destructive write.
#[derive(Clone, Debug)]
pub enum MountDecision {
    /// The path backs no active mount, or no gating was asked for: the
    /// copy may proceed.
    Proceed,
    /// The path backs a protected system mount: the check passes without
    /// any action.
    ProtectedSystem,
    /// The path backs this active mount, which must be unmounted before
    /// any byte is written; if that cannot be done, the whole operation
    /// must stop.
    UnmountFirst { mount_point: String },
}

/// Decide what the mount-safety gate requires before writing to `path`.
/// Only an output path is gated.  A protected system mount passes; any
/// other disk the path names must be unmounted first, and the first such
/// disk in the reported order is named.
pub fn plan_mount_check(path: &String, is_output: bool, disks: &Vec<DiskInfo>) -> (r:
    MountDecision)
    ensures
        r is Proceed <==> !is_output || (!spec_is_system_drive(disks@, path@) && forall|k: int|
            0 <= k < disks@.len() ==> !spec_disk_match(#[trigger] disks@[k], path@)),
        r is ProtectedSystem <==> is_output && spec_is_system_drive(disks@, path@),
        r matches MountDecision::UnmountFirst { mount_point } ==> is_output
            && !spec_is_system_drive(
            disks@,
            path@,
        ) && exists|k: int|
            0 <= k < disks@.len() && spec_disk_match(#[trigger] disks@[k], path@) && mount_point@
                == disks@[k].mount_point@ && (forall|j: int|
                0 <= j < k ==> !spec_disk_match(#[trigger] disks@[j], path@)),
{
    if !is_output {
        return MountDecision::Proceed;
    }
    if is_system_drive(path, disks) {
        return MountDecision::ProtectedSystem;
    }
    let mut i: usize = 0;
    while i < disks.len()
        invariant
            0 <= i <= disks@.len(),
            is_output,
            !spec_is_system_drive(disks@, path@),
            forall|k: int| 0 <= k < i ==> !spec_disk_match(#[trigger] disks@[k], path@),
        decreases disks@.len() - i,
    {
        if disk_match(&disks[i], path) {
            return MountDecision::UnmountFirst { mount_point: disks[i].mount_point.clone() };
        }
        i += 1;
    }
    MountDecision::Proceed
}

/// Turn the outcome of an unmount attempt into the copy's fate: a
/// device whose filesystem is still mounted must not receive a single
/// byte, so an unmount that did not happen stops everything.
pub fn resolve_unmount_outcome(unmounted: bool) -> (r: Result<(), CopyError>)
    ensures
        r is Ok <==> unmounted,
        !unmounted ==> r == Err::<(), CopyError>(CopyError::MountBlocked),
{
    if unmounted {
        Ok(())
    } else {
        Err(CopyError::MountBlocked)
    }
}

/// Get the progress target size and kind for an input/output
/// combination: a real file's length for a file transfer, unknown for a
/// stream, zero for the null source, and for the infinite generators the
/// room left behind the output — a real file's backing space, unbounded
/// for the discard sinks and standard output, zero for the full
/// simulator.
///
/// The caller supplies the reported disks and any raw block-device size
/// it could query for the output path; the mount-safety gate is a
/// separate, prior step (`plan_mount_check`).
pub fn get_progress_target(
    input: &InputSource,
    output: &OutputSource,
    output_path: Option<&String>,
    disks: &Vec<DiskInfo>,
    block_device_size: Option<u64>,
) -> (r: (Option<u64>, ProgressType))
    requires
        input.wf(),
    ensures
        *input is File ==> r.0 == Some(input.remaining().len() as u64) && r.1
            == ProgressType::FileTransfer,
        *input is Stdin ==> r == (None::<u64>, ProgressType::StreamTransfer),
        *input is DevNull ==> r == (Some(0u64), ProgressType::FileTransfer),
        (*input is DevZero || *input is DevUrandom) ==> {
            &&& r.1 == (if *input is DevZero {
                ProgressType::FillWithZeros
            } else {
                ProgressType::FillWithRandom
            })
            &&& r.0 == (match *output {
                OutputSource::File { .. } => (match output_path {
                    Some(p) => spec_available_space(disks@, p@, block_device_size),
                    None => None,
                }),
                OutputSource::Stdout { .. } => None::<u64>,
                OutputSource::DevNull => None::<u64>,
                OutputSource::DevFull => Some(0u64),
            })
        },
{
    match input {
        InputSource::File { .. } => {
            let len = input.remaining_len();
            (Some(len as u64), ProgressType::FileTransfer)
        },
        InputSource::Stdin { .. } => (None, ProgressType::StreamTransfer),
        InputSource::DevNull => (Some(0), ProgressType::FileTransfer),
        InputSource::DevZero => (
            generator_target(output, output_path, disks, block_device_size),
            ProgressType::FillWithZeros,
        ),
        InputSource::DevUrandom => (
            generator_target(output, output_path, disks, block_device_size),
            ProgressType::FillWithRandom,
        ),
    }
}

/// The target an infinite generator can hope to fill: the output's
/// remaining capacity, as far as it can be known.
fn generator_target(
    output: &OutputSource,
    output_path: Option<&String>,
    disks: &Vec<DiskInfo>,
    block_device_size: Option<u64>,
) -> (r: Option<u64>)
    ensures
        r == (match *output {
            OutputSource::File { .. } => (match output_path {
                Some(p) => spec_available_space(disks@, p@, block_device_size),
                None => None,
            }),
            OutputSource::Stdout { .. } => None::<u64>,
            OutputSource::DevNull => None::<u64>,
            OutputSource::DevFull => Some(0u64),
        }),
{
    match output {
        OutputSource::File { .. } => match output_path {
            Some(p) => get_available_space(p, disks, block_device_size),
            None => None,
        },
        OutputSource::Stdout { .. } => None,
        OutputSource::DevNull => None,
        OutputSource::DevFull => Some(0),
    }
}

} // verus!

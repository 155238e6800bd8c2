//! Recognition of the special device names and the rules that gate
//! copies between them.
//!
//! The recognized names are matched exactly and case-sensitively; any
//! other path denotes a regular file.

use vstd::prelude::*;

use crate::errors::CopyError;
use crate::strutil::string_eq_str;

verus! {

/// Whether a path is one of the recognized special device names.
pub open spec fn is_special_name(s: Seq<char>) -> bool {
    ||| s == "/dev/null"@
    ||| s == "/dev/zero"@
    ||| s == "/dev/urandom"@
    ||| s == "/dev/random"@
    ||| s == "/dev/full"@
}

/// Detects if a path refers to a special device.
pub fn is_special_dev(path: &String) -> (r: bool)
    ensures
        r == is_special_name(path@),
{
    string_eq_str(path, "/dev/null") || string_eq_str(path, "/dev/zero") || string_eq_str(
        path,
        "/dev/urandom",
    ) || string_eq_str(path, "/dev/random") || string_eq_str(path, "/dev/full")
}

/// Whether a pair of optional paths names two special devices at once.
pub open spec fn is_special_combo(input_path: Option<Seq<char>>, output_path: Option<Seq<char>>) -> bool {
    &&& input_path matches Some(i) && is_special_name(i)
    &&& output_path matches Some(o) && is_special_name(o)
}

/// Validates that a special device isn't being "copied" to a special
/// device.  The combination is rejected exactly when both paths are given
/// and both resolve to recognized special device names.
pub fn validate_special_device_combo(
    input_path: Option<&String>,
    output_path: Option<&String>,
) -> (r: Result<(), CopyError>)
    ensures
        r is Ok <==> !is_special_combo(
            match input_path {
                Some(i) => Some(i@),
                None => None,
            },
            match output_path {
                Some(o) => Some(o@),
                None => None,
            },
        ),
        r is Err ==> r == Err::<(), CopyError>(CopyError::InvalidCombination),
{
    match (input_path, output_path) {
        (Some(input), Some(output)) => {
            if is_special_dev(input) && is_special_dev(output) {
                Err(CopyError::InvalidCombination)
            } else {
                Ok(())
            }
        },
        _ => Ok(()),
    }
}

/// What an input path stands for once resolved against the recognized
/// special device names.
#[derive(Clone, Copy, Debug, PartialEq, Eq, Structural)]
pub enum InputSelection {
    Stdin,
    DevNull,
    DevZero,
    DevUrandom,
    RegularFile,
}

/// What an output path stands for once resolved against the recognized
/// special device names.
#[derive(Clone, Copy, Debug, PartialEq, Eq, Structural)]
pub enum OutputSelection {
    Stdout,
    DevNull,
    DevFull,
    RegularFile,
}

/// The input variant a path selects: no path selects standard input, the
/// null, zero and urandom names (with `/dev/random` as an alias) select
/// their synthetic devices, and anything else is a regular file.
pub open spec fn spec_resolve_input(path: Option<Seq<char>>) -> InputSelection {
    match path {
        None => InputSelection::Stdin,
        Some(p) => if p == "/dev/null"@ {
            InputSelection::DevNull
        } else if p == "/dev/zero"@ {
            InputSelection::DevZero
        } else if p == "/dev/urandom"@ || p == "/dev/random"@ {
            InputSelection::DevUrandom
        } else {
            InputSelection::RegularFile
        },
    }
}

/// The output variant a path selects: no path selects standard output,
/// the null and full names select their synthetic devices, and anything
/// else is a regular file.
pub open spec fn spec_resolve_output(path: Option<Seq<char>>) -> OutputSelection {
    match path {
        None => OutputSelection::Stdout,
        Some(p) => if p == "/dev/null"@ {
            OutputSelection::DevNull
        } else if p == "/dev/full"@ {
            OutputSelection::DevFull
        } else {
            OutputSelection::RegularFile
        },
    }
}

/// Resolves an input path to the endpoint variant it selects.
pub fn resolve_input(path: Option<&String>) -> (r: InputSelection)
    ensures
        r == spec_resolve_input(
            match path {
                Some(p) => Some(p@),
                None => None,
            },
        ),
{
    match path {
        None => InputSelection::Stdin,
        Some(p) => {
            if string_eq_str(p, "/dev/null") {
                InputSelection::DevNull
            } else if string_eq_str(p, "/dev/zero") {
                InputSelection::DevZero
            } else if string_eq_str(p, "/dev/urandom") || string_eq_str(p, "/dev/random") {
                InputSelection::DevUrandom
            } else {
                InputSelection::RegularFile
            }
        },
    }
}

/// Resolves an output path to the endpoint variant it selects.
pub fn resolve_output(path: Option<&String>) -> (r: OutputSelection)
    ensures
        r == spec_resolve_output(
            match path {
                Some(p) => Some(p@),
                None => None,
            },
        ),
{
    match path {
        None => OutputSelection::Stdout,
        Some(p) => {
            if string_eq_str(p, "/dev/null") {
                OutputSelection::DevNull
            } else if string_eq_str(p, "/dev/full") {
                OutputSelection::DevFull
            } else {
                OutputSelection::RegularFile
            }
        },
    }
}

} // verus!

//! The guard of the output directory: whether a destination may be written
//! into, given what was observed of it.

use crate::error::{EmitError, EmitFailure};
use vstd::prelude::*;

verus! {

/// `std::io::Error` of the standard library, taken as it is: nothing is
/// known of what a value of it holds.
#[verifier::external_type_specification]
#[verifier::external_body]
pub struct ExIoError(std::io::Error);

/// What listing a directory showed.
#[derive(Clone, Debug, PartialEq, Eq)]
pub enum Listing {
    /// The directory holds no entry.
    Empty,
    /// The directory holds at least one entry.
    Occupied,
    /// The path could not be listed.
    Unreadable { cause: String },
}

/// What was observed of the destination before anything was written.
///
/// The three observations are made independently of each other, and are
/// passed on as they came: `listing` is what an attempt to list the path
/// gave, whether the path exists or not.
#[derive(Clone, Debug, PartialEq, Eq)]
pub struct Destination {
    /// The path exists and is a regular file.
    pub is_file: bool,
    /// The path exists.
    pub exists: bool,
    /// What listing the path as a directory showed.
    pub listing: Listing,
}

/// Why a destination that exists may not be filled without leave to
/// overwrite: it holds entries, or it could not be listed.  A destination
/// that does not exist, or that is empty, gives no reason.
pub open spec fn occupancy_failure(dir: Seq<char>, destination: Destination) -> Option<
    EmitFailure,
> {
    if !destination.exists {
        None
    } else {
        match destination.listing {
            Listing::Empty => None,
            Listing::Occupied => Some(EmitFailure::DestinationNotEmpty { path: dir }),
            Listing::Unreadable { cause } => Some(EmitFailure::IoFailure { path: dir, cause: cause@ }),
        }
    }
}

/// Why a destination may not be written into.  A regular file is refused
/// whether overwriting is allowed or not.  Otherwise leave to overwrite
/// admits whatever is there, and without it [`occupancy_failure`] decides.
pub open spec fn destination_failure(
    dir: Seq<char>,
    destination: Destination,
    overwrite: bool,
) -> Option<EmitFailure> {
    if destination.is_file {
        Some(EmitFailure::DestinationIsFile { path: dir })
    } else if overwrite {
        None
    } else {
        occupancy_failure(dir, destination)
    }
}

/// `result` reports `failure`: it is `Ok` where there is none, and the error
/// that holds it otherwise.
pub open spec fn reports(result: Result<(), EmitError>, failure: Option<EmitFailure>) -> bool {
    match result {
        Ok(()) => failure is None,
        Err(error) => failure == Some(error@),
    }
}

/// The text by which `std::io::Error` describes itself, as its `Display`
/// prints it.  Nothing is claimed of the text: its wording is that of the
/// operating system or of whoever made the error.
#[verifier::external_body]
fn describe(error: &std::io::Error) -> String {
    format!("{}", error)
}

/// The text of an I/O error, as it is reported in [`Listing::Unreadable`]
/// and in [`EmitError::IoFailure`].
pub fn ioerr_to_string(error: std::io::Error) -> String {
    describe(&error)
}

/// Accepts a destination that does not exist or is an empty directory.
///
/// `dir` is the destination's path, which the error names.  One that holds
/// entries is refused with [`EmitError::DestinationNotEmpty`], and one that
/// exists and could not be listed with [`EmitError::IoFailure`], which holds
/// the cause as it was observed.
pub fn verify_nonexistent_or_empty(dir: &str, destination: &Destination) -> (result: Result<
    (),
    EmitError,
>)
    ensures
        reports(result, occupancy_failure(dir@, *destination)),
{
    if !destination.exists {
        return Ok(());
    }
    match &destination.listing {
        Listing::Empty => Ok(()),
        Listing::Occupied => Err(EmitError::DestinationNotEmpty { path: dir.to_owned() }),
        Listing::Unreadable { cause } => Err(
            EmitError::IoFailure { path: dir.to_owned(), cause: cause.clone() },
        ),
    }
}

/// Decides whether the destination `dir` may be written into.
///
/// A regular file is always refused, with [`EmitError::DestinationIsFile`].
/// With leave to overwrite everything else is accepted, and what is there
/// stays there.  Without it the destination must pass
/// [`verify_nonexistent_or_empty`].
pub fn check_destination(dir: &str, destination: &Destination, overwrite: bool) -> (result: Result<
    (),
    EmitError,
>)
    ensures
        reports(result, destination_failure(dir@, *destination, overwrite)),
{
    if destination.is_file {
        return Err(EmitError::DestinationIsFile { path: dir.to_owned() });
    }
    if !overwrite {
        return verify_nonexistent_or_empty(dir, destination);
    }
    Ok(())
}

/// A destination that is a regular file is refused, with leave to overwrite
/// as without it.
pub proof fn lemma_file_is_always_refused(dir: Seq<char>, destination: Destination, overwrite: bool)
    requires
        destination.is_file,
    ensures
        destination_failure(dir, destination, overwrite) == Some(
            EmitFailure::DestinationIsFile { path: dir },
        ),
{
}

/// Without leave to overwrite, a directory that holds entries is refused.
pub proof fn lemma_entries_are_not_overwritten(dir: Seq<char>, destination: Destination)
    requires
        !destination.is_file,
        destination.exists,
        destination.listing is Occupied,
    ensures
        destination_failure(dir, destination, false) == Some(
            EmitFailure::DestinationNotEmpty { path: dir },
        ),
{
}

/// With leave to overwrite, whatever is not a regular file is accepted,
/// entries or none, listed or not.
pub proof fn lemma_overwrite_admits_what_is_there(dir: Seq<char>, destination: Destination)
    requires
        !destination.is_file,
    ensures
        destination_failure(dir, destination, true) is None,
{
}

/// A destination that does not exist, or that is an empty directory, is
/// accepted with leave to overwrite as without it.
pub proof fn lemma_fresh_destination_is_accepted(
    dir: Seq<char>,
    destination: Destination,
    overwrite: bool,
)
    requires
        !destination.is_file,
        !destination.exists || destination.listing is Empty,
    ensures
        destination_failure(dir, destination, overwrite) is None,
{
}

} // verus!

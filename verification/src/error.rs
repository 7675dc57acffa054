//! The ways in which an emission can fail.

use vstd::prelude::*;

verus! {

/// Why an emission was refused or broken off.  Every failure ends the whole
/// run; nothing is retried and nothing that was already written is undone.
#[derive(Clone, Debug, PartialEq, Eq)]
pub enum EmitError {
    /// A requested name stands for no output kind.
    UnknownTarget { token: String },
    /// The destination exists and is a regular file.
    DestinationIsFile { path: String },
    /// The destination holds entries and overwriting was not allowed.
    DestinationNotEmpty { path: String },
    /// The file system refused an operation on `path`.
    IoFailure { path: String, cause: String },
    /// The compiler rejected the source; its message is passed on as it came.
    CompilationFailed { message: String },
}

/// What an [`EmitError`] holds, as plain text.
pub enum EmitFailure {
    UnknownTarget { token: Seq<char> },
    DestinationIsFile { path: Seq<char> },
    DestinationNotEmpty { path: Seq<char> },
    IoFailure { path: Seq<char>, cause: Seq<char> },
    CompilationFailed { message: Seq<char> },
}

impl View for EmitError {
    type V = EmitFailure;

    open spec fn view(&self) -> EmitFailure {
        match self {
            EmitError::UnknownTarget { token } => EmitFailure::UnknownTarget { token: token@ },
            EmitError::DestinationIsFile { path } => EmitFailure::DestinationIsFile { path: path@ },
            EmitError::DestinationNotEmpty { path } => EmitFailure::DestinationNotEmpty {
                path: path@,
            },
            EmitError::IoFailure { path, cause } => EmitFailure::IoFailure {
                path: path@,
                cause: cause@,
            },
            EmitError::CompilationFailed { message } => EmitFailure::CompilationFailed {
                message: message@,
            },
        }
    }
}

/// The text that is shown to the user for a failure.
pub open spec fn failure_message(failure: EmitFailure) -> Seq<char> {
    match failure {
        EmitFailure::UnknownTarget { token } => "Unknown target `"@ + token
            + "`. Valid values: abi, ast, bytecode, tokens, yul."@,
        EmitFailure::DestinationIsFile { path } => "A file exists at path `"@ + path
            + "`, the location of the output directory. Refusing to overwrite."@,
        EmitFailure::DestinationNotEmpty { path } => "Directory '"@ + path
            + "' is not empty. Use --overwrite to overwrite."@,
        EmitFailure::IoFailure { path, cause } => cause,
        EmitFailure::CompilationFailed { message } => message,
    }
}

/// `head`, then `middle`, then `tail`.
fn enclose(head: &str, middle: &str, tail: &str) -> (text: String)
    ensures
        text@ == head@ + middle@ + tail@,
{
    let mut text = head.to_owned();
    text.append(middle);
    text.append(tail);
    text
}

impl EmitError {
    /// The text that is shown to the user for this failure.
    pub fn message(&self) -> (text: String)
        ensures
            text@ == failure_message(self@),
    {
        match self {
            EmitError::UnknownTarget { token } => enclose(
                "Unknown target `",
                token.as_str(),
                "`. Valid values: abi, ast, bytecode, tokens, yul.",
            ),
            EmitError::DestinationIsFile { path } => enclose(
                "A file exists at path `",
                path.as_str(),
                "`, the location of the output directory. Refusing to overwrite.",
            ),
            EmitError::DestinationNotEmpty { path } => enclose(
                "Directory '",
                path.as_str(),
                "' is not empty. Use --overwrite to overwrite.",
            ),
            EmitError::IoFailure { path: _, cause } => cause.clone(),
            EmitError::CompilationFailed { message } => message.clone(),
        }
    }
}

/// What the user is told at the end, and the exit code of the process.
#[derive(Clone, Debug, PartialEq, Eq)]
pub struct Report {
    pub message: String,
    pub exit_code: i32,
}

/// What the user is told at the end: where the outputs of `input` are, or
/// why there are none.
pub open spec fn report_message(
    input: Seq<char>,
    output_dir: Seq<char>,
    failure: Option<EmitFailure>,
) -> Seq<char> {
    match failure {
        None => "Compiled "@ + input + ". Outputs in `"@ + output_dir + "`"@,
        Some(failure) => "Unable to compile "@ + input + ". \nError: "@ + failure_message(failure),
    }
}

/// The failure of a result, if it is one.
pub open spec fn failure_of(outcome: Result<(), EmitError>) -> Option<EmitFailure> {
    match outcome {
        Ok(()) => None,
        Err(error) => Some(error@),
    }
}

/// Sums a run up for the user.  The exit code is 0 where the run succeeded
/// and 1 where it failed, whatever the failure.
pub fn report(input_file: &str, output_dir: &str, outcome: &Result<(), EmitError>) -> (report:
    Report)
    ensures
        report.message@ == report_message(input_file@, output_dir@, failure_of(*outcome)),
        report.exit_code == if outcome is Ok {
            0i32
        } else {
            1i32
        },
{
    match outcome {
        Ok(()) => {
            let mut message = enclose("Compiled ", input_file, ". Outputs in `");
            message.append(output_dir);
            message.append("`");
            Report { message, exit_code: 0 }
        },
        Err(error) => {
            let mut message = enclose("Unable to compile ", input_file, ". \nError: ");
            message.append(error.message().as_str());
            Report { message, exit_code: 1 }
        },
    }
}

} // verus!

use vstd::prelude::*;

verus! {

/// Why an input or output operation failed.
#[derive(PartialEq, Eq, Debug, Clone, Copy)]
pub enum IOErr {
    /// Unable to write data.
    Write,
    /// Unable to read data.
    Read,
    /// Unable to execute the file.
    Exec,
    /// Unable to open the file.
    Open,
}

/// An error raised by one stage of a pipeline.
#[derive(PartialEq, Eq, Debug, Clone, Copy)]
pub enum ShellError {
    /// Input/Output error.
    IOError(IOErr),
    /// Any other error, with the sentence shown to the user.
    Error(&'static str),
}

/// The sentence that tells the user of `err`.
pub open spec fn describe_spec(err: ShellError) -> Seq<char> {
    match err {
        ShellError::IOError(IOErr::Write) => "Unable to write to the given source."@,
        ShellError::IOError(IOErr::Read) => "Unable to read the given source."@,
        ShellError::IOError(IOErr::Exec) => "Unable to execute the given source."@,
        ShellError::IOError(IOErr::Open) => "Unable to open the given source."@,
        ShellError::Error(s) => s@,
    }
}

/// The sentence that tells the user of `err`.
pub fn describe(err: ShellError) -> (r: &'static str)
    ensures
        r@ == describe_spec(err),
{
    match err {
        ShellError::IOError(io) => describe_io(io),
        ShellError::Error(s) => s,
    }
}

fn describe_io(err: IOErr) -> (r: &'static str)
    ensures
        r@ == describe_spec(ShellError::IOError(err)),
{
    match err {
        IOErr::Write => "Unable to write to the given source.",
        IOErr::Read => "Unable to read the given source.",
        IOErr::Exec => "Unable to execute the given source.",
        IOErr::Open => "Unable to open the given source.",
    }
}

} // verus!

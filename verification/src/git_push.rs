//! Turning a finished process's exit status into a result.

use crate::text::push_signed_decimal;
use crate::text::signed_decimal;
use vstd::prelude::*;

verus! {

/// A process that did not exit successfully, with its exit code if it had one.
#[derive(Debug)]
pub struct ExitStatusError(Option<i32>);

/// `Option<i32>` as `{:?}` writes it.
pub open spec fn debug_option_i32(code: Option<i32>) -> Seq<char> {
    match code {
        Some(c) => "Some("@ + signed_decimal(c as int) + ")"@,
        None => "None"@,
    }
}

impl ExitStatusError {
    pub closed spec fn spec_code(&self) -> Option<i32> {
        self.0
    }

    /// The error of a process that exited with `code` (`None`: killed by a signal).
    pub fn new(code: Option<i32>) -> (r: Self)
        ensures
            r.spec_code() == code,
    {
        ExitStatusError(code)
    }

    /// The exit code, if the process had one.
    pub fn code(&self) -> (r: Option<i32>)
        ensures
            r == self.spec_code(),
    {
        self.0
    }

    /// The text of the error: `ExitStatusError: ` and the code as `{:?}` writes it.
    pub fn message(&self) -> (r: String)
        ensures
            r@ == "ExitStatusError: "@ + debug_option_i32(self.spec_code()),
    {
        let mut s = "ExitStatusError: ".to_owned();
        proof {
            reveal_strlit("ExitStatusError: ");
            reveal_strlit("Some(");
            reveal_strlit(")");
            reveal_strlit("None");
        }
        match self.0 {
            Some(c) => {
                s.append("Some(");
                push_signed_decimal(&mut s, c as i64);
                s.append(")");
            },
            None => {
                s.append("None");
            },
        }
        s
    }
}

/// Whether a process exited successfully, as a result.
pub trait ExitStatusExt {
    fn exit_success(&self) -> Result<(), ExitStatusError>;
}

/// The result for a process that exited successfully or not, with its exit code.
pub fn exit_result(success: bool, code: Option<i32>) -> (r: Result<(), ExitStatusError>)
    ensures
        success ==> r is Ok,
        !success ==> (r matches Err(e) && e.spec_code() == code),
{
    if success {
        Ok(())
    } else {
        Err(ExitStatusError::new(code))
    }
}

} // verus!

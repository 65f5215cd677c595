//! `Bluejay::Result`: a value that is either a success or a failure, each
//! carrying a Ruby value.
use vstd::prelude::*;

use crate::ruby_value::RubyValue;

verus! {

/// A success (`Ok`) or a failure (`Err`), each with its Ruby value.
#[derive(Debug)]
pub struct RResult(pub Result<RubyValue, RubyValue>);

impl RResult {
    /// A success carrying `value`.
    pub fn ok(value: RubyValue) -> (r: RResult)
        ensures
            r.0 == Ok::<RubyValue, RubyValue>(value),
    {
        RResult(Ok(value))
    }

    /// A failure carrying `value`.
    pub fn err(value: RubyValue) -> (r: RResult)
        ensures
            r.0 == Err::<RubyValue, RubyValue>(value),
    {
        RResult(Err(value))
    }

    pub fn is_ok(&self) -> (r: bool)
        ensures
            r == (self.0 is Ok),
    {
        self.0.is_ok()
    }

    pub fn is_err(&self) -> (r: bool)
        ensures
            r == (self.0 is Err),
    {
        self.0.is_err()
    }

    /// The value of a success; a failure is refused with a message.
    pub fn unwrap(&self) -> (r: Result<RubyValue, String>)
        ensures
            match self.0 {
                Ok(v) => r is Ok && r->Ok_0@ == v@,
                Err(_) => r is Err && r->Err_0@ == "Error variant does not have an ok value"@,
            },
    {
        match &self.0 {
            Ok(v) => Ok(v.duplicate()),
            Err(_) => {
                proof {
                    reveal_strlit("Error variant does not have an ok value");
                }
                Err(String::from_str("Error variant does not have an ok value"))
            },
        }
    }

    /// The value of a failure; a success is refused with a message.
    pub fn unwrap_err(&self) -> (r: Result<RubyValue, String>)
        ensures
            match self.0 {
                Err(e) => r is Ok && r->Ok_0@ == e@,
                Ok(_) => r is Err && r->Err_0@ == "Ok variant does not have an error value"@,
            },
    {
        match &self.0 {
            Err(e) => Ok(e.duplicate()),
            Ok(_) => {
                proof {
                    reveal_strlit("Ok variant does not have an error value");
                }
                Err(String::from_str("Ok variant does not have an error value"))
            },
        }
    }
}

} // verus!

//! The errors that the core surfaces.

use vstd::prelude::*;
use vstd::string::*;

verus! {

/// An error of the core, with the text that explains it.
#[derive(Debug, Clone, PartialEq)]
pub enum CoreError {
    Io(String),
    Osc(String),
    Handshake(String),
    Spawn(String),
}

impl CoreError {
    pub open spec fn message(self) -> Seq<char> {
        match self {
            CoreError::Io(t) => "io error: "@ + t@,
            CoreError::Osc(t) => "osc error: "@ + t@,
            CoreError::Handshake(t) => "daemon handshake: "@ + t@,
            CoreError::Spawn(t) => "process spawn: "@ + t@,
        }
    }

    /// The error as it is shown.
    pub fn text(&self) -> (r: String)
        ensures
            r@ == self.message(),
    {
        match self {
            CoreError::Io(t) => String::from_str("io error: ").concat(t.as_str()),
            CoreError::Osc(t) => String::from_str("osc error: ").concat(t.as_str()),
            CoreError::Handshake(t) => String::from_str("daemon handshake: ").concat(t.as_str()),
            CoreError::Spawn(t) => String::from_str("process spawn: ").concat(t.as_str()),
        }
    }
}

/// Every error says what failed before it says why, and no two kinds read alike.
pub proof fn law_errors_name_what_failed(t: String, u: String)
    ensures
        CoreError::Io(t).message() == "io error: "@ + t@,
        CoreError::Osc(t).message() == "osc error: "@ + t@,
        CoreError::Handshake(t).message() == "daemon handshake: "@ + t@,
        CoreError::Spawn(t).message() == "process spawn: "@ + t@,
        CoreError::Io(t).message() != CoreError::Osc(u).message(),
        CoreError::Handshake(t).message() != CoreError::Spawn(u).message(),
{
    reveal_strlit("io error: ");
    reveal_strlit("osc error: ");
    reveal_strlit("daemon handshake: ");
    reveal_strlit("process spawn: ");
    assert(CoreError::Io(t).message()[0] == 'i');
    assert(CoreError::Osc(u).message()[0] == 'o');
    assert(CoreError::Handshake(t).message()[0] == 'd');
    assert(CoreError::Spawn(u).message()[0] == 'p');
}

} // verus!

//! The capability contract for starting with the login session.

use vstd::prelude::*;

verus! {

/// What a platform offers for starting the tray with the login session. A
/// failure is a text for a person to read.
///
/// Nothing is promised of what an implementation answers. Each method only
/// says that its answer is one the implementation gives to that call, by a
/// predicate that the implementation is free to define: the core uses the
/// predicates to state which call, with which arguments, an answer that it
/// acts on belongs to. An implementation that defines none of them admits
/// every answer.
pub trait StartupManager {
    open spec fn read_reply(&self, reply: Result<bool, String>) -> bool {
        true
    }

    open spec fn write_reply(&self, enabled: bool, reply: Result<(), String>) -> bool {
        true
    }

    /// Whether the tray starts with the login session now.
    fn is_enabled(&self) -> (reply: Result<bool, String>)
        ensures
            self.read_reply(reply),
    ;

    /// Makes the tray start with the login session, or stops it from
    /// doing so.
    fn set_enabled(&self, enabled: bool) -> (reply: Result<(), String>)
        ensures
            self.write_reply(enabled, reply),
    ;
}

} // verus!

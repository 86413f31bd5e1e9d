//! The duty to remove a session socket.

use vstd::prelude::*;

verus! {

/// Removes a bound session socket unless ownership has moved to the daemon.
#[derive(Debug, PartialEq, Eq)]
pub struct SocketCleanup {
    path: String,
    armed: bool,
}

/// The duty to remove a socket, as it is told.
#[verifier::ext_equal]
pub struct CleanupModel {
    /// The path of the socket.
    pub path: Seq<char>,
    /// The socket is to be removed.
    pub armed: bool,
}

impl View for SocketCleanup {
    type V = CleanupModel;

    closed spec fn view(&self) -> CleanupModel {
        CleanupModel { path: self.path@, armed: self.armed }
    }
}

impl SocketCleanup {
    /// Takes on the duty to remove the socket at `path`.
    pub fn new(path: String) -> (cleanup: Self)
        ensures
            cleanup@ == (CleanupModel { path: path@, armed: true }),
    {
        SocketCleanup { path, armed: true }
    }

    /// The path of the socket.
    pub fn path(&self) -> (path: &str)
        ensures
            path@ == self@.path,
    {
        self.path.as_str()
    }

    /// Gives up the duty to remove the socket.
    pub fn disarm(self) -> (cleanup: Self)
        ensures
            cleanup@ == (CleanupModel { path: self@.path, armed: false }),
    {
        SocketCleanup { path: self.path, armed: false }
    }

    /// The file to remove when the duty ends.
    pub fn removal(&self) -> (path: Option<&str>)
        ensures
            path is Some <==> self@.armed,
            path matches Some(path) ==> path@ == self@.path,
    {
        if self.armed {
            Some(self.path.as_str())
        } else {
            None
        }
    }
}

} // verus!

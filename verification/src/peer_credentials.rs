//! Who is at the other end of a session socket.

use vstd::prelude::*;

verus! {

/// What the system answers when it is asked for the peer of a socket.
#[derive(Clone, Copy, Debug, PartialEq, Eq, Structural)]
pub enum PeerReply {
    /// The call returned `rc` and left `uid` as the effective user of the peer.
    Credentials { rc: i32, uid: u32 },
    /// The platform has no such call.
    Unsupported,
}

/// Why the peer of a socket is not trusted.
#[derive(Clone, Copy, Debug, PartialEq, Eq, Structural)]
pub enum PeerError {
    /// The system could not tell who the peer is.
    LookupFailed,
    /// The platform has no way to tell who the peer is.
    Unsupported,
    /// The peer runs as another user.
    OtherUser,
}

/// The effective user of the peer, by the answer of the system.
pub open spec fn peer_uid(reply: PeerReply) -> Result<u32, PeerError> {
    match reply {
        PeerReply::Credentials { rc, uid } => if rc == -1 {
            Err(PeerError::LookupFailed)
        } else {
            Ok(uid)
        },
        PeerReply::Unsupported => Err(PeerError::Unsupported),
    }
}

/// The judgement on a peer, for a process with the effective user `own`.
pub open spec fn peer_verdict(reply: PeerReply, own: u32) -> Result<(), PeerError> {
    match peer_uid(reply) {
        Ok(uid) => if uid == own {
            Ok(())
        } else {
            Err(PeerError::OtherUser)
        },
        Err(error) => Err(error),
    }
}

/// Returns the effective UID associated with the connected Unix socket peer.
pub fn uid(reply: PeerReply) -> (uid: Result<u32, PeerError>)
    ensures
        uid == peer_uid(reply),
{
    match reply {
        PeerReply::Credentials { rc, uid } => if rc == -1 {
            Err(PeerError::LookupFailed)
        } else {
            Ok(uid)
        },
        PeerReply::Unsupported => Err(PeerError::Unsupported),
    }
}

/// Trusts the peer of a socket only where it runs as the user `own`.
pub fn verify_peer_uid(reply: PeerReply, own: u32) -> (verdict: Result<(), PeerError>)
    ensures
        verdict == peer_verdict(reply, own),
{
    match uid(reply) {
        Ok(uid) => if uid == own {
            Ok(())
        } else {
            Err(PeerError::OtherUser)
        },
        Err(error) => Err(error),
    }
}

impl PeerError {
    /// The words that tell a person what was wrong.
    pub open spec fn text(self) -> Seq<char> {
        match self {
            PeerError::LookupFailed => "failed to read Unix socket peer credentials"@,
            PeerError::Unsupported =>
                "Unix socket peer credential verification is unsupported on this platform"@,
            PeerError::OtherUser => "Unix socket peer runs as another user"@,
        }
    }

    /// The words that tell a person what was wrong.
    pub fn message(&self) -> (message: String)
        ensures
            message@ == self.text(),
    {
        match self {
            PeerError::LookupFailed => "failed to read Unix socket peer credentials".to_owned(),
            PeerError::Unsupported =>
                "Unix socket peer credential verification is unsupported on this platform".to_owned(),
            PeerError::OtherUser => "Unix socket peer runs as another user".to_owned(),
        }
    }
}

/// A peer is trusted only on proof: where the system names its user, and that
/// is the own one. A failed lookup and a platform without lookups prove nothing.
pub proof fn law_trust_needs_the_own_user(reply: PeerReply, own: u32)
    ensures
        peer_verdict(reply, own) is Ok <==> (reply matches PeerReply::Credentials { rc, uid } && rc
            != -1 && uid == own),
{
}

/// What is wrong with a peer that is not trusted: the lookup failed exactly where
/// the call returned -1, the platform has none exactly where it said so, and any
/// other peer that is refused runs as another user. Where the lookup works the
/// user is the one that it named.
pub proof fn law_each_refusal_has_its_cause(reply: PeerReply, own: u32, user: u32)
    ensures
        peer_uid(reply) == Ok::<u32, PeerError>(user) <==> (reply matches PeerReply::Credentials {
            rc,
            uid,
        } && rc != -1 && uid == user),
        peer_uid(reply) == Err::<u32, PeerError>(PeerError::LookupFailed) <==> (reply matches
            PeerReply::Credentials { rc, .. } && rc == -1),
        peer_uid(reply) == Err::<u32, PeerError>(PeerError::Unsupported) <==> reply
            == PeerReply::Unsupported,
        peer_verdict(reply, own) == Err::<(), PeerError>(PeerError::LookupFailed) <==> (reply
            matches PeerReply::Credentials { rc, .. } && rc == -1),
        peer_verdict(reply, own) == Err::<(), PeerError>(PeerError::Unsupported) <==> reply
            == PeerReply::Unsupported,
        peer_verdict(reply, own) == Err::<(), PeerError>(PeerError::OtherUser) <==> (reply matches
            PeerReply::Credentials { rc, uid } && rc != -1 && uid != own),
{
}

} // verus!

//! How the handling of a message ended, and what that means for the peer.

use vstd::prelude::*;

verus! {

/// The kinds of outcome. Codes from 100 are successes, from 400 faults of
/// the peer, from 500 faults on this side.
#[derive(Clone, Copy, Debug, PartialEq, Eq, Structural)]
pub enum StatusCode {
    /// The message was handled.
    OK,
    /// The message was dropped without fault.
    Ignored,
    /// The message cannot be decoded, or a field exceeds its limit.
    ProtocolMessageIsMalformed,
    /// No entry of a locator is on the main chain.
    GetHeadersMissCommonAncestors,
    /// Sending a message failed.
    Network,
}

impl StatusCode {
    /// The number of the code.
    pub open spec fn spec_number(&self) -> u16 {
        match self {
            StatusCode::OK => 100,
            StatusCode::Ignored => 101,
            StatusCode::ProtocolMessageIsMalformed => 400,
            StatusCode::GetHeadersMissCommonAncestors => 410,
            StatusCode::Network => 500,
        }
    }

    /// The code's number.
    #[verifier::when_used_as_spec(spec_number)]
    pub fn number(&self) -> (r: u16)
        ensures
            r == self.spec_number(),
    {
        match self {
            StatusCode::OK => 100,
            StatusCode::Ignored => 101,
            StatusCode::ProtocolMessageIsMalformed => 400,
            StatusCode::GetHeadersMissCommonAncestors => 410,
            StatusCode::Network => 500,
        }
    }
}

/// The outcome of handling a message.
#[derive(Clone, Copy, Debug, PartialEq, Eq, Structural)]
pub struct Status {
    pub code: StatusCode,
}

impl Status {
    /// A status with the given code.
    pub fn new(code: StatusCode) -> (r: Status)
        ensures
            r.code == code,
    {
        Status { code }
    }

    /// The status of a message that was handled.
    pub fn ok() -> (r: Status)
        ensures
            r.code == StatusCode::OK,
    {
        Status { code: StatusCode::OK }
    }

    /// The status of a message that was passed over.
    pub fn ignored() -> (r: Status)
        ensures
            r.code == StatusCode::Ignored,
    {
        Status { code: StatusCode::Ignored }
    }

    /// Whether the message was handled.
    pub open spec fn spec_is_ok(&self) -> bool {
        self.code == StatusCode::OK
    }

    /// Whether the message was handled.
    #[verifier::when_used_as_spec(spec_is_ok)]
    pub fn is_ok(&self) -> (r: bool)
        ensures
            r == self.spec_is_ok(),
    {
        match self.code {
            StatusCode::OK => true,
            _ => false,
        }
    }

    /// A fault of the peer bans it: for ten minutes where its chain shares
    /// no block with the local one, for five minutes otherwise.
    pub open spec fn spec_should_ban(&self) -> Option<u64> {
        if self.code == StatusCode::GetHeadersMissCommonAncestors {
            Some(crate::SYNC_USELESS_BAN_TIME)
        } else if 400 <= self.code.spec_number() < 500 {
            Some(crate::BAD_MESSAGE_BAN_TIME)
        } else {
            None
        }
    }

    /// For how many milliseconds the sender is to be banned, if at all.
    #[verifier::when_used_as_spec(spec_should_ban)]
    pub fn should_ban(&self) -> (r: Option<u64>)
        ensures
            r == self.spec_should_ban(),
    {
        let n = self.code.number();
        match self.code {
            StatusCode::GetHeadersMissCommonAncestors => Some(crate::SYNC_USELESS_BAN_TIME),
            _ => if 400 <= n && n < 500 {
                Some(crate::BAD_MESSAGE_BAN_TIME)
            } else {
                None
            },
        }
    }
}

} // verus!

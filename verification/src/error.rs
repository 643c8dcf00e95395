//! Rejection reasons for mediated requests, and the error notification
//! payload sent back to the requesting connection.

use vstd::prelude::*;
use vstd::string::*;

verus! {

/// Why a request was rejected.  Every rejection is resolved at detection
/// time and leaves the stores untouched.
#[derive(Debug, Clone, Copy, PartialEq, Eq, Structural)]
pub enum ChatError {
    /// The addressed room does not exist.
    RoomNotFound,
    /// The requesting connection is not a member of the addressed room.
    NotMember,
    /// The addressed message id is not in the room's log.
    MessageNotFound,
    /// Edit or delete was requested by a connection other than the author.
    NotOwner,
    /// Unstar was requested for a message the connection had not starred.
    NotStarred,
}

/// Human-readable error notification for the requesting connection.
#[derive(Debug, PartialEq)]
pub struct ErrorResponse {
    pub message: String,
}

pub open spec fn spec_error_message(e: ChatError) -> Seq<char> {
    match e {
        ChatError::RoomNotFound => "Room does not exist"@,
        ChatError::NotMember => "You are not a member of this room"@,
        ChatError::MessageNotFound => "Message does not exist"@,
        ChatError::NotOwner => "You do not own this message"@,
        ChatError::NotStarred => "Message was not starred"@,
    }
}

impl ChatError {
    /// The human-readable reason, as sent on the error channel.
    pub fn message(&self) -> (r: String)
        ensures
            r@ == spec_error_message(*self),
    {
        match self {
            ChatError::RoomNotFound => String::from_str("Room does not exist"),
            ChatError::NotMember => String::from_str("You are not a member of this room"),
            ChatError::MessageNotFound => String::from_str("Message does not exist"),
            ChatError::NotOwner => String::from_str("You do not own this message"),
            ChatError::NotStarred => String::from_str("Message was not starred"),
        }
    }

    /// The error notification built from this rejection.
    pub fn to_response(&self) -> (r: ErrorResponse)
        ensures
            r.message@ == spec_error_message(*self),
    {
        ErrorResponse { message: self.message() }
    }
}

} // verus!

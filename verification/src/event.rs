//! The event data model: the canonical record stored in a room's log, its
//! payload variants, and the denormalized reply preview built at send time.
//!
//! Ids are 128-bit values and connection ids 64-bit values; timestamps are
//! milliseconds.  The transport layer converts its own identifier types to
//! and from these plain values at the boundary.

use vstd::prelude::*;
use vstd::string::*;

verus! {

/// A reply preview is reproduced verbatim up to this many characters;
/// longer content is cut at this length and a visible marker appended.
pub const PREVIEW_LIMIT: usize = 100;

/// What kind of original a reply preview was built from.
#[derive(Debug, Clone, Copy, PartialEq, Eq, Structural)]
pub enum ReplyMessageType {
    Text,
    Image,
    Deleted,
}

/// Denormalized preview of a referenced message, resolved at send time.
#[derive(Debug, PartialEq)]
pub struct MessageReply {
    pub message_id: u128,
    pub user_id: u64,
    pub username: Option<String>,
    pub content_preview: String,
    pub message_type: ReplyMessageType,
}

/// A text message; edit rewrites it in place, delete tombstones it in place.
#[derive(Debug, PartialEq)]
pub struct TextMessageEvent {
    pub content: String,
    pub edited: bool,
    pub deleted: bool,
    pub reply_to: Option<MessageReply>,
}

/// An image message; the payload is carried as an encoded string.
#[derive(Debug, PartialEq)]
pub struct ImageMessageEvent {
    pub image_data: String,
    pub filename: String,
    pub mime_type: String,
    pub size: u32,
    pub width: Option<u32>,
    pub height: Option<u32>,
    pub reply_to: Option<MessageReply>,
}

/// Broadcast-only notification that a stored message was rewritten.
#[derive(Debug, PartialEq)]
pub struct MessageEditEvent {
    pub message_id: u128,
    pub new_content: String,
}

/// Broadcast-only notification that a stored message was tombstoned.
#[derive(Debug, PartialEq)]
pub struct MessageDeleteEvent {
    pub message_id: u128,
}

#[derive(Debug, PartialEq)]
pub struct ReactionEvent {
    pub message_id: u128,
    pub reaction: String,
}

#[derive(Debug, PartialEq)]
pub struct ReactionRemoveEvent {
    pub message_id: u128,
    pub reaction: String,
}

#[derive(Debug, PartialEq)]
pub struct UserJoinEvent {
    pub user_id: u64,
    pub username: Option<String>,
}

#[derive(Debug, PartialEq)]
pub struct UserLeaveEvent {
    pub user_id: u64,
    pub username: Option<String>,
}

#[derive(Debug, PartialEq)]
pub struct MessageStarEvent {
    pub message_id: u128,
}

#[derive(Debug, PartialEq)]
pub struct MessageUnstarEvent {
    pub message_id: u128,
}

/// The payload variants a room event can carry.
#[derive(Debug, PartialEq)]
pub enum RoomEventData {
    Message(TextMessageEvent),
    Image(ImageMessageEvent),
    MessageEdit(MessageEditEvent),
    MessageDelete(MessageDeleteEvent),
    Reaction(ReactionEvent),
    ReactionRemove(ReactionRemoveEvent),
    UserJoin(UserJoinEvent),
    UserLeave(UserLeaveEvent),
    MessageStar(MessageStarEvent),
    MessageUnstar(MessageUnstarEvent),
}

/// A record in a room's log: globally unique id, author connection,
/// timestamp in milliseconds, and the payload.
#[derive(Debug, PartialEq)]
pub struct RoomEvent {
    pub id: u128,
    pub from: u64,
    pub timestamp: i64,
    pub data: RoomEventData,
}

/// A member entry of a membership snapshot, with the lazily resolved name.
#[derive(Debug, PartialEq)]
pub struct RoomMember {
    pub user_id: u64,
    pub username: Option<String>,
}

/// Membership snapshot broadcast to a room after join and leave.
#[derive(Debug, PartialEq)]
pub struct RoomMembersResponse {
    pub members: Vec<RoomMember>,
}

pub open spec fn spec_deleted_placeholder() -> Seq<char> {
    "This message was deleted"@
}

pub open spec fn spec_truncation_marker() -> Seq<char> {
    "..."@
}

pub open spec fn spec_image_prefix() -> Seq<char> {
    "[image] "@
}

/// The preview of text content: verbatim when it fits, otherwise the first
/// `PREVIEW_LIMIT` characters with the truncation marker appended.
pub open spec fn spec_preview(content: Seq<char>) -> Seq<char> {
    if content.len() > PREVIEW_LIMIT {
        content.subrange(0, PREVIEW_LIMIT as int) + spec_truncation_marker()
    } else {
        content
    }
}

/// What a reply preview of an original event holds: the deletion placeholder
/// for tombstoned messages, the (possibly truncated) content for live text,
/// a filename-based placeholder for images, and nothing for any other
/// payload variant.
pub open spec fn spec_reply_body(data: RoomEventData) -> Option<(Seq<char>, ReplyMessageType)> {
    match data {
        RoomEventData::Message(m) => if m.deleted {
            Some((spec_deleted_placeholder(), ReplyMessageType::Deleted))
        } else {
            Some((spec_preview(m.content@), ReplyMessageType::Text))
        },
        RoomEventData::Image(img) => Some((spec_image_prefix() + img.filename@, ReplyMessageType::Image)),
        _ => None,
    }
}

/// Build the preview of text content.
pub fn make_preview(content: &str) -> (r: String)
    ensures
        r@ == spec_preview(content@),
{
    let n = content.unicode_len();
    if n > PREVIEW_LIMIT {
        let head = content.substring_char(0, PREVIEW_LIMIT);
        let r = String::from_str(head).concat("...");
        r
    } else {
        String::from_str(content)
    }
}

/// The fixed placeholder shown for replies to deleted messages.
pub fn deleted_placeholder() -> (r: String)
    ensures
        r@ == spec_deleted_placeholder(),
{
    String::from_str("This message was deleted")
}

/// The filename-based placeholder shown for replies to image messages.
pub fn image_placeholder(filename: &str) -> (r: String)
    ensures
        r@ == spec_image_prefix() + filename@,
{
    String::from_str("[image] ").concat(filename)
}

/// Copy an optional display name.
pub fn dup_opt_string(o: &Option<String>) -> (r: Option<String>)
    ensures
        r == *o,
{
    match o {
        Some(s) => Some(s.clone()),
        None => None,
    }
}

impl MessageReply {
    /// Copy this preview.
    pub fn duplicate(&self) -> (r: Self)
        ensures
            r == *self,
    {
        MessageReply {
            message_id: self.message_id,
            user_id: self.user_id,
            username: dup_opt_string(&self.username),
            content_preview: self.content_preview.clone(),
            message_type: self.message_type,
        }
    }
}

/// Copy an optional reply preview.
pub fn dup_opt_reply(o: &Option<MessageReply>) -> (r: Option<MessageReply>)
    ensures
        r == *o,
{
    match o {
        Some(rep) => Some(rep.duplicate()),
        None => None,
    }
}

impl TextMessageEvent {
    /// Copy this payload.
    pub fn duplicate(&self) -> (r: Self)
        ensures
            r == *self,
    {
        TextMessageEvent {
            content: self.content.clone(),
            edited: self.edited,
            deleted: self.deleted,
            reply_to: dup_opt_reply(&self.reply_to),
        }
    }
}

impl ImageMessageEvent {
    /// Copy this payload.
    pub fn duplicate(&self) -> (r: Self)
        ensures
            r == *self,
    {
        ImageMessageEvent {
            image_data: self.image_data.clone(),
            filename: self.filename.clone(),
            mime_type: self.mime_type.clone(),
            size: self.size,
            width: self.width,
            height: self.height,
            reply_to: dup_opt_reply(&self.reply_to),
        }
    }
}

impl RoomEventData {
    /// Copy this payload.
    pub fn duplicate(&self) -> (r: Self)
        ensures
            r == *self,
    {
        match self {
            RoomEventData::Message(m) => RoomEventData::Message(m.duplicate()),
            RoomEventData::Image(img) => RoomEventData::Image(img.duplicate()),
            RoomEventData::MessageEdit(e) => RoomEventData::MessageEdit(
                MessageEditEvent { message_id: e.message_id, new_content: e.new_content.clone() },
            ),
            RoomEventData::MessageDelete(e) => RoomEventData::MessageDelete(
                MessageDeleteEvent { message_id: e.message_id },
            ),
            RoomEventData::Reaction(e) => RoomEventData::Reaction(
                ReactionEvent { message_id: e.message_id, reaction: e.reaction.clone() },
            ),
            RoomEventData::ReactionRemove(e) => RoomEventData::ReactionRemove(
                ReactionRemoveEvent { message_id: e.message_id, reaction: e.reaction.clone() },
            ),
            RoomEventData::UserJoin(e) => RoomEventData::UserJoin(
                UserJoinEvent { user_id: e.user_id, username: dup_opt_string(&e.username) },
            ),
            RoomEventData::UserLeave(e) => RoomEventData::UserLeave(
                UserLeaveEvent { user_id: e.user_id, username: dup_opt_string(&e.username) },
            ),
            RoomEventData::MessageStar(e) => RoomEventData::MessageStar(
                MessageStarEvent { message_id: e.message_id },
            ),
            RoomEventData::MessageUnstar(e) => RoomEventData::MessageUnstar(
                MessageUnstarEvent { message_id: e.message_id },
            ),
        }
    }
}

impl RoomEvent {
    /// Copy this event, for replay and broadcast snapshots.
    pub fn duplicate(&self) -> (r: Self)
        ensures
            r == *self,
    {
        RoomEvent {
            id: self.id,
            from: self.from,
            timestamp: self.timestamp,
            data: self.data.duplicate(),
        }
    }
}

impl RoomMember {
    /// Copy this member entry.
    pub fn duplicate(&self) -> (r: Self)
        ensures
            r == *self,
    {
        RoomMember { user_id: self.user_id, username: dup_opt_string(&self.username) }
    }
}

} // verus!

//! Records exchanged with the legacy REST server. The requests themselves are
//! made by the application shell.
use vstd::prelude::*;
use crate::app::message::Message;
use crate::app::room::Room;
use crate::app::user::{User, UserStatus};
use crate::migration::legacy::{LegacyDataLoader, status_from_legacy};

verus! {

/// A user as the legacy server lists it.
#[derive(Debug)]
pub struct ApiUser {
    pub id: String,
    pub name: String,
    pub status: String,
    pub created_at: String,
}

/// A room as the legacy server lists it.
#[derive(Debug)]
pub struct ApiRoom {
    pub id: String,
    pub name: String,
    pub description: Option<String>,
    pub is_public: bool,
    pub created_at: String,
    pub member_count: Option<i32>,
}

/// A message as the legacy server lists it.
#[derive(Debug)]
pub struct ApiMessage {
    pub id: String,
    pub content: String,
    pub message_type: String,
    pub sender_id: String,
    pub sender_name: Option<String>,
    pub room_id: Option<String>,
    pub target_user_id: Option<String>,
    pub created_at: String,
}

/// The body of a user creation request.
#[derive(Debug)]
pub struct CreateUser {
    pub name: String,
}

/// The body of a message request.
#[derive(Debug)]
pub struct CreateMessage {
    pub content: String,
    pub message_type: String,
    pub room_id: Option<String>,
    pub target_user_id: Option<String>,
}

impl User {
    /// The client's view of a listed user: its id, name and status
    /// (`online`, `away`, `busy`, otherwise offline).
    pub fn from_api(api_user: ApiUser) -> (r: User)
        ensures
            r.id == Some(api_user.id),
            r.name@ == api_user.name@,
            r.status == status_from_legacy(Some(api_user.status@)),
            r.matrix_id is None,
            r.rooms@.len() == 0,
    {
        let status = LegacyDataLoader::legacy_status_to_matrix_presence(&Some(api_user.status));
        let mut user = User::new(api_user.name);
        user.id = Some(api_user.id);
        user.status = status;
        user
    }
}

impl Room {
    /// The client's view of a listed room: its id, name and description.
    pub fn from_api(api_room: ApiRoom) -> (r: Room)
        ensures
            r.id == Some(api_room.id),
            r.name@ == api_room.name@,
            r.description == api_room.description,
            r.matrix_id is None,
            r.users@.len() == 0,
            r.member_count == 0,
    {
        let mut room = Room::new(api_room.name);
        room.id = Some(api_room.id);
        room.description = api_room.description;
        room
    }
}

impl Message {
    /// The client's view of a listed message: `Unknown` stands for a missing
    /// sender name, `Direct Message` for a missing room.
    pub fn from_api(api_message: ApiMessage) -> (r: Message)
        ensures
            r.id == Some(api_message.id),
            r.content == api_message.content,
            r.message_type == api_message.message_type,
            r.sender@ == match api_message.sender_name {
                Some(n) => n@,
                None => "Unknown"@,
            },
            r.room@ == match api_message.room_id {
                Some(id) => id@,
                None => "Direct Message"@,
            },
    {
        let sender = match api_message.sender_name {
            Some(n) => n,
            None => String::from_str("Unknown"),
        };
        let room = match api_message.room_id {
            Some(id) => id,
            None => String::from_str("Direct Message"),
        };
        let mut message = Message::new(sender, api_message.content, room);
        message.id = Some(api_message.id);
        message.message_type = api_message.message_type;
        message
    }
}

} // verus!

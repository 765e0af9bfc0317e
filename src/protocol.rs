//! The payloads carried by packets between clients and the server.
//!
//! Every packet on the wire is one structured-text record per line, holding
//! a [`MessageType`] tag and one of the payloads below; the framing and the
//! text encoding live with the transport.
use vstd::prelude::*;

use crate::timestamp::Timestamp;

verus! {

/// What kind of packet is being sent.
#[derive(Debug, Clone, Copy, PartialEq, Eq, Structural)]
pub enum MessageType {
    // Client to server
    Register,
    Login,
    Chat,
    Search,
    History,
    Users,
    Quit,
    // Server to client
    Response,
    Broadcast,
    System,
}

#[derive(Debug, Clone)]
pub struct AuthPayload {
    pub username: String,
    pub password: String,
}

#[derive(Debug, Clone)]
pub struct ChatPayload {
    pub content: String,
}

/// Search criteria; an empty text or an absent bound matches everything.
#[derive(Debug, Clone)]
pub struct SearchPayload {
    pub query: String,
    pub username: String,
    pub from: Option<Timestamp>,
    pub to: Option<Timestamp>,
}

#[derive(Debug, Clone)]
pub struct HistoryPayload {
    pub limit: usize,
}

/// The result rows that a response may carry.
#[derive(Debug, Clone)]
pub enum ResponseData {
    Messages(Vec<StoredMessage>),
    Users(Vec<UserInfo>),
}

#[derive(Debug, Clone)]
pub struct ResponsePayload {
    pub success: bool,
    pub message: String,
    pub data: Option<ResponseData>,
}

#[derive(Debug, Clone)]
pub struct BroadcastPayload {
    pub user_id: String,
    pub username: String,
    pub content: String,
    pub timestamp: Timestamp,
}

#[derive(Debug, Clone)]
pub struct StoredMessage {
    pub id: String,
    pub user_id: String,
    pub username: String,
    pub content: String,
    pub timestamp: Timestamp,
}

#[derive(Debug, Clone)]
pub struct UserInfo {
    pub user_id: String,
    pub username: String,
}

impl StoredMessage {
    /// A field-by-field copy.
    pub fn duplicate(&self) -> (r: StoredMessage)
        ensures
            r == *self,
    {
        StoredMessage {
            id: self.id.clone(),
            user_id: self.user_id.clone(),
            username: self.username.clone(),
            content: self.content.clone(),
            timestamp: self.timestamp,
        }
    }
}

impl UserInfo {
    /// A field-by-field copy.
    pub fn duplicate(&self) -> (r: UserInfo)
        ensures
            r == *self,
    {
        UserInfo { user_id: self.user_id.clone(), username: self.username.clone() }
    }
}

} // verus!

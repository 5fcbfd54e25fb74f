//! The channels by which messages come and go.
pub mod email;
pub mod telegram;

use vstd::prelude::*;

use crate::agent::Attachment;
use crate::text::opt;
use crate::value::{Data, Json};

verus! {

/// A message that came in. The time is counted in seconds since 1970.
#[derive(Debug)]
pub struct InboundMessage {
    pub id: String,
    pub channel: String,
    pub account_id: Option<String>,
    pub peer_id: String,
    pub conversation_id: Option<String>,
    pub text: Option<String>,
    pub attachments: Vec<Attachment>,
    pub reply_to: Option<String>,
    pub timestamp: i64,
    pub metadata: Data,
}

/// What a message that came in says.
pub struct InboundView {
    pub id: Seq<char>,
    pub channel: Seq<char>,
    pub account_id: Option<Seq<char>>,
    pub peer_id: Seq<char>,
    pub conversation_id: Option<Seq<char>>,
    pub text: Option<Seq<char>>,
    pub attachments: Seq<Attachment>,
    pub reply_to: Option<Seq<char>>,
    pub timestamp: i64,
    pub metadata: Json,
}

impl View for InboundMessage {
    type V = InboundView;

    open spec fn view(&self) -> InboundView {
        InboundView {
            id: self.id@,
            channel: self.channel@,
            account_id: opt(self.account_id),
            peer_id: self.peer_id@,
            conversation_id: opt(self.conversation_id),
            text: opt(self.text),
            attachments: self.attachments@,
            reply_to: opt(self.reply_to),
            timestamp: self.timestamp,
            metadata: self.metadata@,
        }
    }
}

/// A message that is to be sent.
#[derive(Debug)]
pub struct OutboundMessage {
    pub channel: String,
    pub target: String,
    pub reply_to: Option<String>,
    pub text: String,
    pub attachments: Vec<Attachment>,
    pub metadata: Data,
}

/// What a message that is to be sent says.
pub struct OutboundView {
    pub channel: Seq<char>,
    pub target: Seq<char>,
    pub reply_to: Option<Seq<char>>,
    pub text: Seq<char>,
    pub attachments: Seq<Attachment>,
    pub metadata: Json,
}

impl View for OutboundMessage {
    type V = OutboundView;

    open spec fn view(&self) -> OutboundView {
        OutboundView {
            channel: self.channel@,
            target: self.target@,
            reply_to: opt(self.reply_to),
            text: self.text@,
            attachments: self.attachments@,
            metadata: self.metadata@,
        }
    }
}

} // verus!

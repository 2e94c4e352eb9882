//! What leaves the relay: the message for the pub/sub network's send
//! endpoint, and the invitation for the indexing webhook.

use vstd::prelude::*;
use vstd::utf8::encode_utf8;
use crate::event::Event;

verus! {

/// The standard base64 text of `input`: the alphabet of RFC 4648 with `+` and
/// `/`, padded with `=`.
pub uninterp spec fn base64_standard(input: Seq<u8>) -> Seq<char>;

/// Calls `base64::Engine::encode` on `base64::engine::general_purpose::STANDARD`.
/// The result is the standard padded base64 text of the bytes given, and
/// depends on nothing else. No slice is long enough to make the length of
/// that text overflow, which is the one case in which the call panics.
#[verifier::external_body]
fn base64_encode(input: &[u8]) -> (r: String)
    ensures
        r@ == base64_standard(input@),
{
    base64::Engine::encode(&base64::engine::general_purpose::STANDARD, input)
}

/// The standard base64 text of the UTF-8 bytes of `text`.
pub open spec fn base64_text(text: Seq<char>) -> Seq<char> {
    base64_standard(encode_utf8(text))
}

/// The body of a request to the pub/sub network's send endpoint.
#[derive(Debug)]
pub struct WakuMessage {
    /// The message, in base64.
    pub payload: String,
    /// The content topic under which the message is filed.
    pub content_topic: String,
}

/// What a [`WakuMessage`] is, as plain values.
pub ghost struct WakuMessageView {
    pub payload: Seq<char>,
    pub content_topic: Seq<char>,
}

impl View for WakuMessage {
    type V = WakuMessageView;

    open spec fn view(&self) -> WakuMessageView {
        WakuMessageView { payload: self.payload@, content_topic: self.content_topic@ }
    }
}

impl WakuMessage {
    /// The message that carries `text` under `content_topic`: the payload
    /// is the base64 text of the bytes of `text`.
    pub fn encode(text: &str, content_topic: &str) -> (r: WakuMessage)
        ensures
            r@ == (WakuMessageView {
                payload: base64_text(text@),
                content_topic: content_topic@,
            }),
    {
        WakuMessage {
            payload: base64_encode(text.as_bytes()),
            content_topic: content_topic.to_owned(),
        }
    }

    /// The message that carries the payload of `event` under `content_topic`.
    pub fn from_event(event: &Event, content_topic: &str) -> (r: WakuMessage)
        ensures
            r@ == (WakuMessageView {
                payload: base64_text(event.payload@),
                content_topic: content_topic@,
            }),
    {
        WakuMessage::encode(event.payload.as_str(), content_topic)
    }
}

/// What an invitation says about itself.
#[derive(Debug)]
pub struct NostrMetadata {
    pub message: String,
    pub timestamp: u64,
    pub platform: String,
    pub version: String,
    pub clock: u64,
}

/// The content of an event that invites an account to a project.
#[derive(Debug)]
pub struct NostrInviteEventContent {
    /// Who invites.
    pub inviter: String,
    /// Who is invited.
    pub invitee: String,
    /// The project that the invitation is for.
    pub project_id: String,
    /// What the invitation says about itself.
    pub metadata: NostrMetadata,
    /// The type of the event.
    pub event_type: String,
}

/// The two ends of an invitation.
#[derive(Debug)]
pub struct InviteMsgEvent {
    pub from: String,
    pub to: String,
}

/// The body of a request to the indexing webhook.
#[derive(Debug)]
pub struct InviteMsg {
    /// The project that the invitation is for.
    pub project: String,
    /// The identifier of the event that carried the invitation.
    pub id: String,
    /// The public key of the author of that event.
    pub account: String,
    /// The type of the event.
    pub event_type: String,
    /// The two ends of the invitation.
    pub event: InviteMsgEvent,
}

/// What an [`InviteMsg`] is, as plain values.
pub ghost struct InviteMsgView {
    pub project: Seq<char>,
    pub id: Seq<char>,
    pub account: Seq<char>,
    pub event_type: Seq<char>,
    pub from: Seq<char>,
    pub to: Seq<char>,
}

impl View for InviteMsg {
    type V = InviteMsgView;

    open spec fn view(&self) -> InviteMsgView {
        InviteMsgView {
            project: self.project@,
            id: self.id@,
            account: self.account@,
            event_type: self.event_type@,
            from: self.event.from@,
            to: self.event.to@,
        }
    }
}

impl InviteMsg {
    /// The invitation that `event` carried, whose content was read as
    /// `invite`, in the form that the indexing webhook takes.
    pub fn from_invite(invite: &NostrInviteEventContent, event: &Event) -> (r: InviteMsg)
        ensures
            r@ == (InviteMsgView {
                project: invite.project_id@,
                id: event.id@,
                account: event.source_pubkey@,
                event_type: invite.event_type@,
                from: invite.inviter@,
                to: invite.invitee@,
            }),
    {
        InviteMsg {
            project: invite.project_id.clone(),
            id: event.id.clone(),
            account: event.source_pubkey.clone(),
            event_type: invite.event_type.clone(),
            event: InviteMsgEvent { from: invite.inviter.clone(), to: invite.invitee.clone() },
        }
    }
}

} // verus!

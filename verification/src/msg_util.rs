//! The value types of the service interfaces: the operations of the
//! ledger-stream service, its replies, and the identity service's request
//! and reply shapes.

use vstd::prelude::*;
use vstd::string::StringExecFns;

verus! {

/// The operations of the ledger-stream interface, as numbered on the wire.
#[derive(PartialEq, Eq, Structural, Debug)]
pub enum MsgType {
    Error,
    CreateNewAuthor,
    CreateNewSubscriber,
    AddSubscriber,
    ReceiveKeyload,
    SendMessage,
    ReceiveMessages,
    Unknown,
}

pub open spec fn spec_msgtype_code(t: MsgType) -> u32 {
    match t {
        MsgType::Error => 0,
        MsgType::CreateNewAuthor => 1,
        MsgType::CreateNewSubscriber => 2,
        MsgType::AddSubscriber => 3,
        MsgType::ReceiveKeyload => 4,
        MsgType::SendMessage => 5,
        MsgType::ReceiveMessages => 6,
        MsgType::Unknown => 7,
    }
}

pub open spec fn spec_msgtype_of(num: u32) -> MsgType {
    if num == 0 {
        MsgType::Error
    } else if num == 1 {
        MsgType::CreateNewAuthor
    } else if num == 2 {
        MsgType::CreateNewSubscriber
    } else if num == 3 {
        MsgType::AddSubscriber
    } else if num == 4 {
        MsgType::ReceiveKeyload
    } else if num == 5 {
        MsgType::SendMessage
    } else if num == 6 {
        MsgType::ReceiveMessages
    } else {
        MsgType::Unknown
    }
}

/// The operation a wire number denotes; numbers past the known range denote
/// `Unknown`.
pub fn convert_to_msgtype(num: u32) -> (r: MsgType)
    ensures
        r == spec_msgtype_of(num),
{
    match num {
        0 => MsgType::Error,
        1 => MsgType::CreateNewAuthor,
        2 => MsgType::CreateNewSubscriber,
        3 => MsgType::AddSubscriber,
        4 => MsgType::ReceiveKeyload,
        5 => MsgType::SendMessage,
        6 => MsgType::ReceiveMessages,
        _ => MsgType::Unknown,
    }
}

/// The wire number of an operation.
pub fn convert_from_msgtype(msg_type: MsgType) -> (r: u32)
    ensures
        r == spec_msgtype_code(msg_type),
{
    match msg_type {
        MsgType::Error => 0,
        MsgType::CreateNewAuthor => 1,
        MsgType::CreateNewSubscriber => 2,
        MsgType::AddSubscriber => 3,
        MsgType::ReceiveKeyload => 4,
        MsgType::SendMessage => 5,
        MsgType::ReceiveMessages => 6,
        MsgType::Unknown => 7,
    }
}

/// Law: numbering an operation and reading the number back is the identity
/// on every operation.
pub proof fn lemma_msgtype_round_trip(t: MsgType)
    ensures
        spec_msgtype_of(spec_msgtype_code(t)) == t,
{
}

/// A reply of the ledger-stream service to one request.
pub struct ChannelReply {
    pub id: String,
    pub msg_type: MsgType,
    pub status: String,
    pub link: String,
    pub messages: Option<Vec<String>>,
    pub code: i32,
}

/// A reply carrying a link and a status, and no fetched messages.
pub fn make_channel_reply(id: &str, msg_type: MsgType, link: &str, status: &str, code: i32) -> (r:
    ChannelReply)
    ensures
        r.id@ == id@,
        r.msg_type == msg_type,
        r.link@ == link@,
        r.status@ == status@,
        r.code == code,
        r.messages is None,
{
    ChannelReply {
        id: String::from_str(id),
        msg_type,
        status: String::from_str(status),
        link: String::from_str(link),
        messages: None,
        code,
    }
}

/// What an identity-service call is asked with.
pub struct IdentityInformationRequest {
    pub did: String,
    pub challenge: String,
    pub verifiable_credential: String,
}

/// What an identity-service call hands back; `code` zero means success.
pub struct IdentityInformationReply {
    pub did: String,
    pub challenge: String,
    pub verifiable_credential: String,
    pub status: String,
    pub code: i32,
}

} // verus!

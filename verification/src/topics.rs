//! The broker topic space and the address strings built from it.
//!
//! Every channel owns six topics; a full broker address has the shape
//! `channels/{channel_key}/messages/{topic}`.

use vstd::prelude::*;
use vstd::string::StringExecFns;

verus! {

/// The six topics a channel carries on the pub/sub plane.
#[derive(Clone, Copy, PartialEq, Eq, Structural, Debug)]
pub enum Topic {
    Did,
    Identity,
    Stream,
    Sensors,
    Settings,
    Command,
}

/// The name of a topic as it appears on the wire.
pub open spec fn spec_topic_name(t: Topic) -> Seq<char> {
    match t {
        Topic::Did => "did"@,
        Topic::Identity => "identity"@,
        Topic::Stream => "stream"@,
        Topic::Sensors => "sensors"@,
        Topic::Settings => "settings"@,
        Topic::Command => "command"@,
    }
}

/// Which topic a received name denotes; an unknown name is a protocol
/// violation and denotes none.
pub open spec fn spec_parse_topic(s: Seq<char>) -> Option<Topic> {
    if s == spec_topic_name(Topic::Did) {
        Some(Topic::Did)
    } else if s == spec_topic_name(Topic::Identity) {
        Some(Topic::Identity)
    } else if s == spec_topic_name(Topic::Stream) {
        Some(Topic::Stream)
    } else if s == spec_topic_name(Topic::Sensors) {
        Some(Topic::Sensors)
    } else if s == spec_topic_name(Topic::Settings) {
        Some(Topic::Settings)
    } else if s == spec_topic_name(Topic::Command) {
        Some(Topic::Command)
    } else {
        None
    }
}

pub fn topic_name(t: Topic) -> (r: String)
    ensures
        r@ == spec_topic_name(t),
{
    match t {
        Topic::Did => String::from_str("did"),
        Topic::Identity => String::from_str("identity"),
        Topic::Stream => String::from_str("stream"),
        Topic::Sensors => String::from_str("sensors"),
        Topic::Settings => String::from_str("settings"),
        Topic::Command => String::from_str("command"),
    }
}

pub fn parse_topic(s: &String) -> (r: Option<Topic>)
    ensures
        r == spec_parse_topic(s@),
{
    if s.eq(&String::from_str("did")) {
        Some(Topic::Did)
    } else if s.eq(&String::from_str("identity")) {
        Some(Topic::Identity)
    } else if s.eq(&String::from_str("stream")) {
        Some(Topic::Stream)
    } else if s.eq(&String::from_str("sensors")) {
        Some(Topic::Sensors)
    } else if s.eq(&String::from_str("settings")) {
        Some(Topic::Settings)
    } else if s.eq(&String::from_str("command")) {
        Some(Topic::Command)
    } else {
        None
    }
}

/// The broker address of one topic of one channel.
pub fn make_topic_address(channel_id: &str, topic: &str) -> (r: String)
    ensures
        r@ == "channels/"@ + channel_id@ + "/messages/"@ + topic@,
{
    let mut s = String::from_str("channels/");
    s.append(channel_id);
    s.append("/messages/");
    s.append(topic);
    s
}

/// The URL under which the broker itself is reached.
pub fn create_broker_address(url: String, port: String, is_tls: bool) -> (r: String)
    ensures
        is_tls ==> r@ == "ssl://"@ + url@ + ":"@ + port@,
        !is_tls ==> r@ == "tcp://"@ + url@ + ":"@ + port@,
{
    let mut s = if is_tls {
        String::from_str("ssl://")
    } else {
        String::from_str("tcp://")
    };
    s.append(url.as_str());
    s.append(":");
    s.append(port.as_str());
    s
}

/// The file under which a ledger participant's exported state is kept.
pub fn get_state_path(filename: &str) -> (r: String)
    ensures
        r@ == "./storage/"@ + filename@,
{
    let mut s = String::from_str("./storage/");
    s.append(filename);
    s
}

} // verus!

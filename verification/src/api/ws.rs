//! What is pushed to a browser that listens for events.
use crate::text::{self, concat, decimal, push_str};
use vstd::prelude::*;

verus! {

/// What happened on a connection that listens for events.
#[derive(Debug)]
pub enum WsEvent {
    /// The bus has an event: its text, or none where it cannot be written down.
    Event(Option<String>),
    /// The listener fell behind and missed this many events.
    Lagged(u64),
    /// The bus is gone.
    BusClosed,
    /// A frame that closes the connection came, or the connection ended.
    Closed,
    /// Any other frame came.
    Frame,
    /// Reading failed.
    ReadFailed,
    /// The last text could not be sent.
    SendFailed,
}

/// What is done about it.
#[derive(Debug)]
pub enum WsAction {
    /// A text is sent.
    Send(String),
    /// Nothing is done.
    Wait,
    /// The connection is left.
    Stop,
}

/// The text that tells a listener how many events it missed.
pub open spec fn lagged_text(skipped: nat) -> Seq<char> {
    "{\"type\":\"ws.lagged\",\"data\":{\"skipped\":"@ + text::decimal_spec(skipped) + "}}"@
}

/// What is done about an event on a connection that listens for events.
pub fn forward_events(ev: WsEvent) -> (a: WsAction)
    ensures
        match ev {
            WsEvent::Event(Some(t)) => a == WsAction::Send(t),
            WsEvent::Event(None) => a == WsAction::Wait,
            WsEvent::Lagged(n) => a matches WsAction::Send(t) && t@ == lagged_text(n as nat),
            WsEvent::Frame => a == WsAction::Wait,
            WsEvent::BusClosed => a == WsAction::Stop,
            WsEvent::Closed => a == WsAction::Stop,
            WsEvent::ReadFailed => a == WsAction::Stop,
            WsEvent::SendFailed => a == WsAction::Stop,
        },
{
    match ev {
        WsEvent::Event(Some(t)) => WsAction::Send(t),
        WsEvent::Event(None) => WsAction::Wait,
        WsEvent::Lagged(n) => {
            let mut s = concat(
                "{\"type\":\"ws.lagged\",\"data\":{\"skipped\":",
                decimal(n).as_str(),
            );
            push_str(&mut s, "}}");
            WsAction::Send(s)
        },
        WsEvent::Frame => WsAction::Wait,
        _ => WsAction::Stop,
    }
}

/// A listener that fell behind is told, in an object of its own type, the number of events that it
/// missed.
pub proof fn listener_is_told_what_it_missed(skipped: nat) -> (digits: Seq<char>)
    ensures
        lagged_text(skipped) == "{\"type\":\"ws.lagged\",\"data\":{\"skipped\":"@ + digits + "}}"@,
        text::numeral_value(digits) == skipped,
        digits.len() > 0,
{
    text::numeral_reads_back(skipped);
    text::decimal_spec(skipped)
}

} // verus!

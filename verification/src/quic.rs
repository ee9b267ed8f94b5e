//! The control stream of an agent: the handshake that brings a node online, the heartbeat that
//! keeps it there, and the configuration that it is told.
use crate::config_sync::ConfigSync;
use crate::conn_registry::ConnRegistry;
use crate::event::{BusEvent, EventData, NODE_OFFLINE, NODE_ONLINE};
use crate::ids::{self, NodeId};
use vstd::prelude::*;

verus! {

/// How long a node may go without a ping, in seconds, before it counts as offline.
pub const DEFAULT_HEARTBEAT_TIMEOUT_SECS: u64 = 45;

// ---- the handshake ----

/// The credentials that an agent gives.
#[derive(Debug)]
pub struct AuthRequest {
    pub node_id: Option<String>,
    pub credential: Option<String>,
}

/// A message of an agent during the handshake.
#[derive(Debug)]
pub enum HandshakeMessage {
    Hello { major: u16, agent_version: String },
    Auth(AuthRequest),
    Other,
}

/// What came of reading a frame during the handshake.
#[derive(Debug)]
pub enum HandshakeEvent {
    /// The agent has closed the stream.
    Closed,
    /// The frame could not be read.
    ReadFailed,
    /// The frame holds no message.
    Undecodable,
    Message { request_id: u64, message: HandshakeMessage },
}

/// The answer to an agent that is not let in.
#[derive(Debug)]
pub struct AuthFail {
    pub request_id: u64,
    pub code: String,
    pub message: String,
}

/// How a handshake ends without a node coming online.
#[derive(Debug)]
pub enum HandshakeEnd {
    /// The agent has left; there is nobody to answer.
    Closed,
    /// The stream is broken.
    Broken,
    /// The agent is answered, and not let in.
    Refused(AuthFail),
}

impl HandshakeEnd {
    /// The agent is refused with this answer to its request.
    pub open spec fn refuses(self, request_id: u64, code: Seq<char>, message: Seq<char>) -> bool {
        self matches HandshakeEnd::Refused(f) && f.request_id == request_id && f.code@ == code
            && f.message@ == message
    }
}

fn refused(request_id: u64, code: &str, message: &str) -> (e: HandshakeEnd)
    ensures
        e.refuses(request_id, code@, message@),
{
    HandshakeEnd::Refused(
        AuthFail { request_id, code: code.to_owned(), message: message.to_owned() },
    )
}

/// A handshake whose first message was right. The second has to be read.
#[derive(Debug)]
pub struct AuthWait {
    agent_version: String,
}

/// A handshake with credentials. They have to be checked.
#[derive(Debug)]
pub struct Authenticating {
    agent_version: String,
    request_id: u64,
    auth: AuthRequest,
}

/// What came of the check of credentials.
#[derive(Debug)]
pub enum AuthDecision {
    Success { node_id: NodeId, config_version: u64 },
    Failure { code: String, message: String },
}

/// The answer to an agent that is let in.
#[derive(Debug)]
pub struct AuthOk {
    pub request_id: u64,
    pub node_id: NodeId,
    pub config_version: u64,
    pub server_version: String,
    pub server_time: String,
}

/// A node that comes online: the agent is answered, then sent the whole configuration of the
/// given version; then the node is put on record as online, and the event is published.
#[derive(Debug)]
pub struct Online {
    pub node_id: NodeId,
    pub auth_ok: AuthOk,
    pub snapshot_version: u64,
    pub remote: String,
    pub agent_version: String,
    pub event: BusEvent,
}

/// Takes the first message of an agent. It has to be a hello of the supported major version.
pub fn hello(ev: HandshakeEvent, supported_major: u16) -> (r: Result<AuthWait, HandshakeEnd>)
    ensures
        match ev {
            HandshakeEvent::Closed => r == Err::<AuthWait, HandshakeEnd>(HandshakeEnd::Closed),
            HandshakeEvent::ReadFailed => r == Err::<AuthWait, HandshakeEnd>(HandshakeEnd::Broken),
            HandshakeEvent::Undecodable => r == Err::<AuthWait, HandshakeEnd>(
                HandshakeEnd::Broken,
            ),
            HandshakeEvent::Message { request_id, message } => match message {
                HandshakeMessage::Hello { major, agent_version } => if major == supported_major {
                    r matches Ok(w) && w.version() == agent_version
                } else {
                    r matches Err(e) && e.refuses(
                        request_id,
                        "PROTOCOL_ERROR"@,
                        "unsupported protocol major version"@,
                    )
                },
                _ => r matches Err(e) && e.refuses(
                    request_id,
                    "PROTOCOL_ERROR"@,
                    "first frame must be HELLO"@,
                ),
            },
        },
{
    match ev {
        HandshakeEvent::Closed => Err(HandshakeEnd::Closed),
        HandshakeEvent::ReadFailed => Err(HandshakeEnd::Broken),
        HandshakeEvent::Undecodable => Err(HandshakeEnd::Broken),
        HandshakeEvent::Message { request_id, message } => match message {
            HandshakeMessage::Hello { major, agent_version } => {
                if major != supported_major {
                    return Err(
                        refused(
                            request_id,
                            "PROTOCOL_ERROR",
                            "unsupported protocol major version",
                        ),
                    );
                }
                Ok(AuthWait { agent_version })
            },
            _ => Err(refused(request_id, "PROTOCOL_ERROR", "first frame must be HELLO")),
        },
    }
}

impl AuthWait {
    /// The version that the agent has named.
    pub closed spec fn version(self) -> String {
        self.agent_version
    }

    /// Takes the second message of an agent. It has to hold credentials.
    pub fn auth(self, ev: HandshakeEvent) -> (r: Result<Authenticating, HandshakeEnd>)
        ensures
            match ev {
                HandshakeEvent::Closed => r == Err::<Authenticating, HandshakeEnd>(
                    HandshakeEnd::Closed,
                ),
                HandshakeEvent::ReadFailed => r == Err::<Authenticating, HandshakeEnd>(
                    HandshakeEnd::Broken,
                ),
                HandshakeEvent::Undecodable => r == Err::<Authenticating, HandshakeEnd>(
                    HandshakeEnd::Broken,
                ),
                HandshakeEvent::Message { request_id, message } => match message {
                    HandshakeMessage::Auth(auth) => r matches Ok(a) && a.request() == request_id
                        && a.credentials() == auth && a.version() == self.version(),
                    _ => r matches Err(e) && e.refuses(
                        request_id,
                        "PROTOCOL_ERROR"@,
                        "second frame must be AUTH"@,
                    ),
                },
            },
    {
        match ev {
            HandshakeEvent::Closed => Err(HandshakeEnd::Closed),
            HandshakeEvent::ReadFailed => Err(HandshakeEnd::Broken),
            HandshakeEvent::Undecodable => Err(HandshakeEnd::Broken),
            HandshakeEvent::Message { request_id, message } => match message {
                HandshakeMessage::Auth(auth) => Ok(
                    Authenticating { agent_version: self.agent_version, request_id, auth },
                ),
                _ => Err(refused(request_id, "PROTOCOL_ERROR", "second frame must be AUTH")),
            },
        }
    }
}

impl Authenticating {
    /// The version that the agent has named.
    pub closed spec fn version(self) -> String {
        self.agent_version
    }

    /// The request that is answered.
    pub closed spec fn request(self) -> u64 {
        self.request_id
    }

    /// The credentials.
    pub closed spec fn credentials(self) -> AuthRequest {
        self.auth
    }

    /// The credentials to be checked.
    pub fn to_check(&self) -> (a: &AuthRequest)
        ensures
            *a == self.credentials(),
    {
        &self.auth
    }

    /// Takes the outcome of the check, for an agent at `remote`, at the moment `server_time`, by a
    /// server of the given version.
    pub fn decided(
        self,
        decision: AuthDecision,
        remote: String,
        server_version: String,
        server_time: String,
    ) -> (r: Result<Online, HandshakeEnd>)
        ensures
            match decision {
                AuthDecision::Failure { code, message } => r matches Err(e) && e.refuses(
                    self.request(),
                    code@,
                    message@,
                ),
                AuthDecision::Success { node_id, config_version } => {
                    &&& r matches Ok(o)
                    &&& o.node_id == node_id
                    &&& o.auth_ok == (AuthOk {
                        request_id: self.request(),
                        node_id,
                        config_version,
                        server_version,
                        server_time,
                    })
                    &&& o.snapshot_version == config_version
                    &&& o.remote == remote
                    &&& o.agent_version == self.version()
                    &&& status_event(o.event, "node.online"@, node_id, "online"@)
                },
            },
    {
        match decision {
            AuthDecision::Failure { code, message } => Err(
                HandshakeEnd::Refused(AuthFail { request_id: self.request_id, code, message }),
            ),
            AuthDecision::Success { node_id, config_version } => Ok(
                Online {
                    node_id,
                    auth_ok: AuthOk {
                        request_id: self.request_id,
                        node_id,
                        config_version,
                        server_version,
                        server_time,
                    },
                    snapshot_version: config_version,
                    remote,
                    agent_version: self.agent_version,
                    event: BusEvent {
                        event_type: NODE_ONLINE,
                        data: EventData::NodeStatus { node_id: node_id.to_text(), status: "online" },
                    },
                },
            ),
        }
    }
}

/// The event tells the status of a node.
pub open spec fn status_event(
    e: BusEvent,
    event_type: Seq<char>,
    node_id: NodeId,
    status: Seq<char>,
) -> bool {
    &&& e.event_type@ == event_type
    &&& e.data matches EventData::NodeStatus { node_id: n, status: s } && n@ == ids::id_text(
        node_id.value as nat,
    ) && s@ == status
}

/// A node that has come online can be reached by the data plane over `conn`, and told of changes
/// over the channel `channel`.
pub fn came_online(
    conns: &mut ConnRegistry,
    sync: &mut ConfigSync,
    node_id: NodeId,
    conn: quinn::Connection,
    channel: u64,
)
    ensures
        final(conns)@ == old(conns)@.insert(node_id.value, conn),
        final(sync)@ == old(sync)@.insert(node_id.value, channel),
{
    conns.register(node_id, conn);
    sync.register(node_id, channel);
}

/// A node that has gone offline can be neither reached nor told, and the event is published.
pub fn went_offline(conns: &mut ConnRegistry, sync: &mut ConfigSync, node_id: NodeId) -> (e: BusEvent)
    ensures
        final(conns)@ == old(conns)@.remove(node_id.value),
        final(sync)@ == old(sync)@.remove(node_id.value),
        status_event(e, "node.offline"@, node_id, "offline"@),
{
    sync.unregister(node_id);
    conns.unregister(node_id);
    BusEvent {
        event_type: NODE_OFFLINE,
        data: EventData::NodeStatus { node_id: node_id.to_text(), status: "offline" },
    }
}

// ---- the control stream ----

/// A message of an agent that is online.
#[derive(Clone, Copy, PartialEq, Eq, Structural, Debug, Hash)]
pub enum ControlMessage {
    Ping { ts: u64 },
    ConfigAck { config_version: u64, applied: bool },
    ConfigResync,
    Other,
}

/// Something that happens while a node is online.
#[derive(Clone, Copy, PartialEq, Eq, Structural, Debug, Hash)]
pub enum ControlEvent {
    /// The agent has sent a message.
    Message { request_id: u64, message: ControlMessage },
    /// The agent has sent a frame that holds no message.
    Undecodable,
    /// The agent has closed the stream.
    StreamClosed,
    /// The stream is broken.
    StreamFailed,
    /// There is a message for the agent.
    Push,
    /// There will be no more messages for the agent.
    PushClosed,
    /// The deadline may have passed.
    Tick,
    /// The connection is closed.
    ConnectionClosed,
    /// What had to be sent was sent, or not.
    Sent { ok: bool },
    /// The version of the configuration was read, or not.
    Version { version: Option<i64> },
}

/// Why a node goes offline.
#[derive(Clone, Copy, PartialEq, Eq, Structural, Debug, Hash)]
pub enum StopReason {
    StreamClosed,
    StreamFailed,
    PushClosed,
    HeartbeatTimeout,
    ConnectionClosed,
    SendFailed,
    VersionUnknown,
}

/// What has to be done next for a node that is online.
#[derive(Clone, Copy, PartialEq, Eq, Structural, Debug, Hash)]
pub enum ControlAction {
    /// Wait for something to happen, until the deadline.
    Wait,
    /// Take note of the ping, and send a pong with its time stamp.
    SendPong { request_id: u64, ts: u64 },
    /// Take note of the pong.
    RecordPong,
    /// Take note that the agent has applied the version, or has failed to, and store it.
    StoreAck { config_version: u64, applied: bool },
    /// Read the current version of the configuration.
    ReadVersion,
    /// Send the whole configuration of this version.
    SendSnapshot { version: u64 },
    /// Send the message for the agent.
    SendPush,
    /// The node goes offline.
    Stop { reason: StopReason },
}

/// What is being waited for.
#[derive(Clone, Copy, PartialEq, Eq, Structural, Debug, Hash)]
pub enum Phase {
    /// Anything may happen.
    Serving,
    /// A pong is being sent.
    Ponging,
    /// The version of the configuration is being read.
    Reading,
    /// The whole configuration is being sent.
    Snapshotting,
    /// A message is being sent.
    Pushing,
    /// The node is going offline.
    Stopped,
}

/// A node that is online.
#[derive(Clone, Copy, PartialEq, Eq, Structural, Debug, Hash)]
pub struct Control {
    pub phase: Phase,
    /// When the node counts as offline, unless it sends a ping before.
    pub deadline: u64,
    pub heartbeat_timeout: u64,
}

/// The moment `timeout` after `now`, or the last that there is.
pub open spec fn deadline_after(now: u64, timeout: u64) -> u64 {
    if now + timeout > u64::MAX {
        u64::MAX
    } else {
        (now + timeout) as u64
    }
}

/// The node stops for a reason.
pub open spec fn stops(c: Control, reason: StopReason) -> (Control, ControlAction) {
    (Control { phase: Phase::Stopped, ..c }, ControlAction::Stop { reason })
}

/// What becomes of a node that is online when something happens at `now`. Only a ping that was
/// answered puts the deadline off.
pub open spec fn control_next(c: Control, ev: ControlEvent, now: u64) -> (Control, ControlAction) {
    match (c.phase, ev) {
        (Phase::Serving, ControlEvent::Message { request_id, message }) => match message {
            ControlMessage::Ping { ts } => (
                Control { phase: Phase::Ponging, ..c },
                ControlAction::SendPong { request_id, ts },
            ),
            ControlMessage::ConfigAck { config_version, applied } => (
                c,
                ControlAction::StoreAck { config_version, applied },
            ),
            ControlMessage::ConfigResync => (
                Control { phase: Phase::Reading, ..c },
                ControlAction::ReadVersion,
            ),
            ControlMessage::Other => (c, ControlAction::Wait),
        },
        (Phase::Serving, ControlEvent::Push) => (
            Control { phase: Phase::Pushing, ..c },
            ControlAction::SendPush,
        ),
        (Phase::Serving, ControlEvent::StreamClosed) => stops(c, StopReason::StreamClosed),
        (Phase::Serving, ControlEvent::StreamFailed) => stops(c, StopReason::StreamFailed),
        (Phase::Serving, ControlEvent::PushClosed) => stops(c, StopReason::PushClosed),
        (Phase::Serving, ControlEvent::ConnectionClosed) => stops(c, StopReason::ConnectionClosed),
        (Phase::Serving, ControlEvent::Tick) => if now >= c.deadline {
            stops(c, StopReason::HeartbeatTimeout)
        } else {
            (c, ControlAction::Wait)
        },
        (Phase::Ponging, ControlEvent::Sent { ok }) => if ok {
            (
                Control {
                    phase: Phase::Serving,
                    deadline: deadline_after(now, c.heartbeat_timeout),
                    ..c
                },
                ControlAction::RecordPong,
            )
        } else {
            stops(c, StopReason::SendFailed)
        },
        (Phase::Reading, ControlEvent::Version { version }) => match version {
            Some(v) => (
                Control { phase: Phase::Snapshotting, ..c },
                ControlAction::SendSnapshot {
                    version: if v < 0 {
                        0
                    } else {
                        v as u64
                    },
                },
            ),
            None => stops(c, StopReason::VersionUnknown),
        },
        (Phase::Snapshotting, ControlEvent::Sent { ok }) => if ok {
            (Control { phase: Phase::Serving, ..c }, ControlAction::Wait)
        } else {
            stops(c, StopReason::SendFailed)
        },
        (Phase::Pushing, ControlEvent::Sent { ok }) => if ok {
            (Control { phase: Phase::Serving, ..c }, ControlAction::Wait)
        } else {
            stops(c, StopReason::SendFailed)
        },
        _ => (c, ControlAction::Wait),
    }
}

impl Control {
    /// A node that has come online at `now`.
    pub fn new(now: u64, heartbeat_timeout: u64) -> (c: Control)
        ensures
            c == (Control {
                phase: Phase::Serving,
                deadline: deadline_after(now, heartbeat_timeout),
                heartbeat_timeout,
            }),
    {
        Control {
            phase: Phase::Serving,
            deadline: now.saturating_add(heartbeat_timeout),
            heartbeat_timeout,
        }
    }

    fn stop(&mut self, reason: StopReason) -> (a: ControlAction)
        ensures
            (*final(self), a) == stops(*old(self), reason),
    {
        self.phase = Phase::Stopped;
        ControlAction::Stop { reason }
    }

    /// Takes something that happens at `now`, and says what has to be done.
    pub fn step(&mut self, ev: ControlEvent, now: u64) -> (a: ControlAction)
        ensures
            (*final(self), a) == control_next(*old(self), ev, now),
    {
        match (self.phase, ev) {
            (Phase::Serving, ControlEvent::Message { request_id, message }) => match message {
                ControlMessage::Ping { ts } => {
                    self.phase = Phase::Ponging;
                    ControlAction::SendPong { request_id, ts }
                },
                ControlMessage::ConfigAck { config_version, applied } => {
                    ControlAction::StoreAck { config_version, applied }
                },
                ControlMessage::ConfigResync => {
                    self.phase = Phase::Reading;
                    ControlAction::ReadVersion
                },
                ControlMessage::Other => ControlAction::Wait,
            },
            (Phase::Serving, ControlEvent::Push) => {
                self.phase = Phase::Pushing;
                ControlAction::SendPush
            },
            (Phase::Serving, ControlEvent::StreamClosed) => self.stop(StopReason::StreamClosed),
            (Phase::Serving, ControlEvent::StreamFailed) => self.stop(StopReason::StreamFailed),
            (Phase::Serving, ControlEvent::PushClosed) => self.stop(StopReason::PushClosed),
            (Phase::Serving, ControlEvent::ConnectionClosed) => self.stop(
                StopReason::ConnectionClosed,
            ),
            (Phase::Serving, ControlEvent::Tick) => {
                if now >= self.deadline {
                    self.stop(StopReason::HeartbeatTimeout)
                } else {
                    ControlAction::Wait
                }
            },
            (Phase::Ponging, ControlEvent::Sent { ok }) => {
                if ok {
                    self.phase = Phase::Serving;
                    self.deadline = now.saturating_add(self.heartbeat_timeout);
                    ControlAction::RecordPong
                } else {
                    self.stop(StopReason::SendFailed)
                }
            },
            (Phase::Reading, ControlEvent::Version { version }) => match version {
                Some(v) => {
                    self.phase = Phase::Snapshotting;
                    ControlAction::SendSnapshot {
                        version: if v < 0 {
                            0
                        } else {
                            v as u64
                        },
                    }
                },
                None => self.stop(StopReason::VersionUnknown),
            },
            (Phase::Snapshotting, ControlEvent::Sent { ok }) => {
                if ok {
                    self.phase = Phase::Serving;
                    ControlAction::Wait
                } else {
                    self.stop(StopReason::SendFailed)
                }
            },
            (Phase::Pushing, ControlEvent::Sent { ok }) => {
                if ok {
                    self.phase = Phase::Serving;
                    ControlAction::Wait
                } else {
                    self.stop(StopReason::SendFailed)
                }
            },
            _ => ControlAction::Wait,
        }
    }
}

/// What becomes of a node after a sequence of events, each with its moment.
pub open spec fn control_run(c: Control, evs: Seq<(ControlEvent, u64)>) -> Control
    decreases evs.len(),
{
    if evs.len() == 0 {
        c
    } else {
        control_next(control_run(c, evs.drop_last()), evs.last().0, evs.last().1).0
    }
}

/// The event is a ping.
pub open spec fn is_ping(ev: ControlEvent) -> bool {
    ev matches ControlEvent::Message { message: ControlMessage::Ping { .. }, .. }
}

/// Whatever an agent does but sending a ping, its deadline stays.
pub proof fn only_pings_put_off_the_deadline(c: Control, evs: Seq<(ControlEvent, u64)>)
    requires
        c.phase != Phase::Ponging,
        forall|i: int| 0 <= i < evs.len() ==> !is_ping((#[trigger] evs[i]).0),
    ensures
        control_run(c, evs).deadline == c.deadline,
        control_run(c, evs).phase != Phase::Ponging,
    decreases evs.len(),
{
    if evs.len() > 0 {
        assert forall|i: int| 0 <= i < evs.len() - 1 implies !is_ping(
            (#[trigger] evs.drop_last()[i]).0,
        ) by {
            assert(evs.drop_last()[i] == evs[i]);
        }
        only_pings_put_off_the_deadline(c, evs.drop_last());
    }
}

/// A node that has come online at `start` and sends no ping is offline once the timeout has
/// passed, whatever else it sends: at the next look it stops, if it has not before and nothing is
/// being sent.
pub proof fn silent_node_goes_offline(
    start: u64,
    timeout: u64,
    evs: Seq<(ControlEvent, u64)>,
    now: u64,
)
    requires
        forall|i: int| 0 <= i < evs.len() ==> !is_ping((#[trigger] evs[i]).0),
        now >= deadline_after(start, timeout),
    ensures
        ({
            let c = control_run(
                Control {
                    phase: Phase::Serving,
                    deadline: deadline_after(start, timeout),
                    heartbeat_timeout: timeout,
                },
                evs,
            );
            c.phase == Phase::Serving ==> control_next(c, ControlEvent::Tick, now) == stops(
                c,
                StopReason::HeartbeatTimeout,
            )
        }),
{
    only_pings_put_off_the_deadline(
        Control {
            phase: Phase::Serving,
            deadline: deadline_after(start, timeout),
            heartbeat_timeout: timeout,
        },
        evs,
    );
}

/// Every ping of a node that is being served is answered with its own time stamp, under its own
/// request, before anything else; once that is sent, the node has the whole timeout again.
pub proof fn ping_is_answered(c: Control, request_id: u64, ts: u64, at: u64, sent_at: u64)
    requires
        c.phase == Phase::Serving,
    ensures
        ({
            let ping = ControlEvent::Message { request_id, message: ControlMessage::Ping { ts } };
            let (d, a) = control_next(c, ping, at);
            let (e, b) = control_next(d, ControlEvent::Sent { ok: true }, sent_at);
            &&& a == (ControlAction::SendPong { request_id, ts })
            &&& b == ControlAction::RecordPong
            &&& e == (Control {
                phase: Phase::Serving,
                deadline: deadline_after(sent_at, c.heartbeat_timeout),
                ..c
            })
        }),
{
}

/// A node that stops does nothing more.
pub proof fn stopping_is_final(c: Control, ev: ControlEvent, now: u64)
    requires
        c.phase == Phase::Stopped,
    ensures
        control_next(c, ev, now) == (c, ControlAction::Wait),
{
}

/// A deadline lies the whole timeout after the moment, unless the clock ends before: 45 seconds
/// where none other is set.
pub proof fn deadline_is_a_timeout_away(now: u64, timeout: u64)
    ensures
        now + timeout <= 0xffff_ffff_ffff_ffff ==> deadline_after(now, timeout) == now + timeout,
        now + timeout > 0xffff_ffff_ffff_ffff ==> deadline_after(now, timeout)
            == 0xffff_ffff_ffff_ffff,
        timeout == DEFAULT_HEARTBEAT_TIMEOUT_SECS && now < 0xffff_ffff ==> deadline_after(
            now,
            timeout,
        ) == now + 45,
{
}

/// A node that is being served goes offline exactly where its stream or its connection ends, where
/// there will be no more messages for it, or where its deadline has passed; each for that reason.
pub proof fn when_a_served_node_stops(c: Control, ev: ControlEvent, now: u64)
    requires
        c.phase == Phase::Serving,
    ensures
        ({
            let (d, a) = control_next(c, ev, now);
            &&& d.phase == Phase::Stopped <==> a is Stop
            &&& a is Stop <==> ev is StreamClosed || ev is StreamFailed || ev is PushClosed || ev
                is ConnectionClosed || (ev is Tick && now >= c.deadline)
            &&& ev is StreamClosed ==> a == (ControlAction::Stop {
                reason: StopReason::StreamClosed,
            })
            &&& ev is StreamFailed ==> a == (ControlAction::Stop {
                reason: StopReason::StreamFailed,
            })
            &&& ev is PushClosed ==> a == (ControlAction::Stop { reason: StopReason::PushClosed })
            &&& ev is ConnectionClosed ==> a == (ControlAction::Stop {
                reason: StopReason::ConnectionClosed,
            })
            &&& ev is Tick && now >= c.deadline ==> a == (ControlAction::Stop {
                reason: StopReason::HeartbeatTimeout,
            })
            &&& ev is Tick && now < c.deadline ==> a is Wait && d == c
        }),
{
}

/// An acknowledgement is stored with the version and the outcome that the agent names, and changes
/// nothing else. A frame that holds no message, or none that is known, changes nothing at all.
pub proof fn acknowledgements_are_stored_as_they_are(
    c: Control,
    request_id: u64,
    config_version: u64,
    applied: bool,
    now: u64,
)
    requires
        c.phase == Phase::Serving,
    ensures
        control_next(
            c,
            ControlEvent::Message {
                request_id,
                message: ControlMessage::ConfigAck { config_version, applied },
            },
            now,
        ) == (c, ControlAction::StoreAck { config_version, applied }),
        control_next(
            c,
            ControlEvent::Message { request_id, message: ControlMessage::Other },
            now,
        ) == (c, ControlAction::Wait),
        control_next(c, ControlEvent::Undecodable, now) == (c, ControlAction::Wait),
{
}

/// An agent that asks for its configuration is sent the whole of it, in the version that is stored
/// when it asks, and is served again once that is sent. Where the version cannot be read, or what
/// is sent is not, the node goes offline.
pub proof fn resync_sends_the_stored_version(
    c: Control,
    request_id: u64,
    version: i64,
    at: u64,
    read_at: u64,
    sent_at: u64,
)
    requires
        c.phase == Phase::Serving,
    ensures
        ({
            let ask = ControlEvent::Message { request_id, message: ControlMessage::ConfigResync };
            let (d, a) = control_next(c, ask, at);
            let (e, b) = control_next(d, ControlEvent::Version { version: Some(version) }, read_at);
            let (f, w) = control_next(e, ControlEvent::Sent { ok: true }, sent_at);
            &&& a is ReadVersion
            &&& b matches ControlAction::SendSnapshot { version: v } && (version >= 0 ==> v
                == version) && (version < 0 ==> v == 0)
            &&& w is Wait
            &&& f == c
            &&& control_next(d, ControlEvent::Version { version: None }, read_at).1 == (
            ControlAction::Stop { reason: StopReason::VersionUnknown })
            &&& control_next(e, ControlEvent::Sent { ok: false }, sent_at).1 == (
            ControlAction::Stop { reason: StopReason::SendFailed })
        }),
{
}

/// A message for an agent is sent, and the node is served as before once it is; where it cannot be
/// sent, the node goes offline. So it does where a pong cannot be sent.
pub proof fn messages_are_sent_or_the_node_stops(
    c: Control,
    request_id: u64,
    ts: u64,
    at: u64,
    sent_at: u64,
)
    requires
        c.phase == Phase::Serving,
    ensures
        ({
            let (d, a) = control_next(c, ControlEvent::Push, at);
            let (e, b) = control_next(d, ControlEvent::Sent { ok: true }, sent_at);
            let ping = ControlEvent::Message { request_id, message: ControlMessage::Ping { ts } };
            let p = control_next(c, ping, at).0;
            &&& a is SendPush
            &&& b is Wait
            &&& e == c
            &&& control_next(d, ControlEvent::Sent { ok: false }, sent_at).1 == (
            ControlAction::Stop { reason: StopReason::SendFailed })
            &&& control_next(p, ControlEvent::Sent { ok: false }, sent_at).1 == (
            ControlAction::Stop { reason: StopReason::SendFailed })
        }),
{
}

/// An agent that is not let in is answered under its own request, with the code and the message.
pub proof fn refusals_answer_the_request(
    e: HandshakeEnd,
    request_id: u64,
    code: Seq<char>,
    message: Seq<char>,
)
    requires
        e.refuses(request_id, code, message),
    ensures
        e matches HandshakeEnd::Refused(f) && f.request_id == request_id && f.code@ == code
            && f.message@ == message,
{
}

/// An event about a node names that node: its id can be read back from the event.
pub proof fn status_events_name_their_node(
    e: BusEvent,
    event_type: Seq<char>,
    node_id: NodeId,
    status: Seq<char>,
)
    requires
        status_event(e, event_type, node_id, status),
    ensures
        e.event_type@ == event_type,
        e.data matches EventData::NodeStatus { node_id: n, status: s } && ids::id_of(n@) == Some(
            node_id.value as nat,
        ) && s@ == status,
{
    ids::id_text_reads_back(node_id);
}

} // verus!

use vstd::prelude::*;
use crate::error::Error;
use crate::ids::{BranchId, TenantId};
use crate::messages::{ConnectAck, ErrorPayload, Message, MessagePayload};
use crate::registry::{ConnectionManager, ConnectionMetadata};

verus! {

/// Why the hub closes a session.
#[derive(Debug, Clone, Copy, PartialEq, Eq, Structural)]
pub enum CloseReason {
    /// The first frame was not `Connect`.
    InvalidHandshake,
    /// The branch's credentials were refused.
    AuthFailed,
    /// The registry was full.
    AdmissionRefused,
    /// No heartbeat within the timeout.
    Stale,
    /// The peer closed, or the transport failed.
    PeerClosed,
}

impl CloseReason {
    /// Close code sent on the wire.
    pub fn code(&self) -> (r: u16)
        ensures
            *self == CloseReason::Stale ==> r == 1001,
            *self == CloseReason::PeerClosed ==> r == 1000,
            *self == CloseReason::AdmissionRefused ==> r == 1013,
            *self == CloseReason::InvalidHandshake || *self == CloseReason::AuthFailed ==> r == 1008,
    {
        match self {
            CloseReason::InvalidHandshake => 1008,
            CloseReason::AuthFailed => 1008,
            CloseReason::AdmissionRefused => 1013,
            CloseReason::Stale => 1001,
            CloseReason::PeerClosed => 1000,
        }
    }

    /// Close reason text sent on the wire.
    pub fn reason(&self) -> (r: &'static str)
        ensures
            *self == CloseReason::InvalidHandshake ==> r@ == "invalid_handshake"@,
            *self == CloseReason::AuthFailed ==> r@ == "auth_failed"@,
            *self == CloseReason::AdmissionRefused ==> r@ == "max_connections"@,
            *self == CloseReason::Stale ==> r@ == "stale"@,
            *self == CloseReason::PeerClosed ==> r@ == "closed"@,
    {
        match self {
            CloseReason::InvalidHandshake => "invalid_handshake",
            CloseReason::AuthFailed => "auth_failed",
            CloseReason::AdmissionRefused => "max_connections",
            CloseReason::Stale => "stale",
            CloseReason::PeerClosed => "closed",
        }
    }
}

/// Where a session stands.
#[derive(Debug, Clone)]
pub enum SessionState {
    Handshaking,
    Authenticated(BranchId),
    Closing,
}

/// Credentials read from a `Connect` frame.
pub struct Credentials {
    pub tenant_id: TenantId,
    pub branch_id: BranchId,
    pub api_key: String,
}

/// What the hub does with a frame of an authenticated session.
#[derive(Debug, Clone)]
pub enum SessionAction {
    /// Refuse the frame and answer with this error.
    Reject(Error),
    /// Record the heartbeat and answer `HeartbeatAck`.
    Heartbeat,
    /// Hand the frame to the router for delivery to the sender's tenant.
    Route,
    /// Deliver the frame to the named branch, if it belongs to the sender's tenant.
    Forward(BranchId),
    /// Nothing to do.
    Ignore,
}

/// Admission control before authentication: a session may start only while the registry
/// is below its limit.
pub fn check_admission(registry: &ConnectionManager) -> (r: Result<(), Error>)
    requires
        registry.wf(),
    ensures
        r is Ok <==> registry.view().len() < registry.limit(),
        r matches Err(e) ==> (e matches Error::ConnectionError(m) && m@ == "Max connections reached"@),
{
    if registry.len() < registry.max_connections() {
        Ok(())
    } else {
        Err(Error::ConnectionError(String::from_str("Max connections reached")))
    }
}

/// Reply of the hub carrying an error payload whose code names the error kind.
pub fn error_reply(to: &BranchId, err: &Error) -> (r: Message)
    ensures
        r.from@ == "hub"@,
        r.to matches Some(t) && t@ == to@,
        r.payload matches MessagePayload::Error(p) && p.code@ == err.code_spec() && p.details is None,
{
    let code = err.code();
    let payload = MessagePayload::Error(
        ErrorPayload {
            code: code.to_owned(),
            message: String::from_str(code),
            details: None,
        },
    );
    Message::new(BranchId::new("hub"), Some(to.clone_id()), payload)
}

pub struct Session {
    pub state: SessionState,
}

impl Session {
    pub fn new() -> (r: Session)
        ensures
            r.state is Handshaking,
    {
        Session { state: SessionState::Handshaking }
    }

    /// The first frame must be `Connect`; it yields the credentials to check.
    pub fn on_first_frame(&mut self, msg: &Message) -> (r: Result<Credentials, CloseReason>)
        requires
            old(self).state is Handshaking,
        ensures
            r is Ok <==> msg.payload is Connect,
            r matches Ok(c) ==> (msg.payload matches MessagePayload::Connect(req) && c.tenant_id@
                == req.tenant_id@ && c.branch_id@ == req.branch_id@ && c.api_key@ == req.api_key@)
                && final(self).state is Handshaking,
            r matches Err(e) ==> e == CloseReason::InvalidHandshake && final(self).state is Closing,
    {
        match &msg.payload {
            MessagePayload::Connect(req) => Ok(
                Credentials {
                    tenant_id: req.tenant_id.clone_id(),
                    branch_id: req.branch_id.clone_id(),
                    api_key: req.api_key.clone(),
                },
            ),
            _ => {
                self.state = SessionState::Closing;
                Err(CloseReason::InvalidHandshake)
            },
        }
    }

    /// Ends the handshake once the credentials were checked: on success the branch enters
    /// the registry and the reply is `ConnectAck`.
    pub fn on_auth_result(
        &mut self,
        registry: &mut ConnectionManager,
        authenticated: bool,
        branch_id: &BranchId,
        now: i64,
        heartbeat_interval_secs: u64,
        session_id: String,
        server_version: String,
    ) -> (r: Result<Message, CloseReason>)
        requires
            old(self).state is Handshaking,
            old(registry).wf(),
        ensures
            final(registry).wf(),
            final(registry).limit() == old(registry).limit(),
            !authenticated ==> r == Err::<Message, CloseReason>(CloseReason::AuthFailed),
            authenticated && old(registry).view().len() >= old(registry).limit() ==> r == Err::<
                Message,
                CloseReason,
            >(CloseReason::AdmissionRefused),
            r is Err ==> final(registry).view() == old(registry).view() && final(self).state is Closing,
            r is Ok <==> authenticated && old(registry).view().len() < old(registry).limit(),
            r matches Ok(ack) ==> {
                &&& final(registry).view() == old(registry).view().insert(
                    branch_id@,
                    ConnectionMetadata { connected_at: now, last_heartbeat: now, message_count: 0 },
                )
                &&& final(self).state matches SessionState::Authenticated(b) && b@ == branch_id@
                &&& ack.to matches Some(t) && t@ == branch_id@
                &&& ack.payload matches MessagePayload::ConnectAck(a) && a.session_id@ == session_id@
                    && a.server_version@ == server_version@ && a.heartbeat_interval_secs
                    == heartbeat_interval_secs
            },
    {
        if !authenticated {
            self.state = SessionState::Closing;
            return Err(CloseReason::AuthFailed);
        }
        match registry.add_connection(branch_id, now) {
            Err(_) => {
                self.state = SessionState::Closing;
                Err(CloseReason::AdmissionRefused)
            },
            Ok(()) => {
                self.state = SessionState::Authenticated(branch_id.clone_id());
                let ack = ConnectAck {
                    session_id,
                    server_version,
                    heartbeat_interval_secs,
                    assigned_config: Vec::new(),
                };
                Ok(
                    Message::new(
                        BranchId::new("hub"),
                        Some(branch_id.clone_id()),
                        MessagePayload::ConnectAck(ack),
                    ),
                )
            },
        }
    }

    /// Decides what to do with a frame of an authenticated session. A frame whose `from`
    /// is not the session's branch is refused. A frame addressed to a branch, whatever its
    /// payload, goes to that branch through the tenant check; the other frames are handled
    /// by their payload.
    pub fn on_frame(&self, msg: &Message) -> (r: SessionAction)
        requires
            self.state is Authenticated,
        ensures
            (self.state matches SessionState::Authenticated(b) && msg.from@ != b@) ==> (r matches SessionAction::Reject(e) && e is AuthorizationFailed),
            (self.state matches SessionState::Authenticated(b) && msg.from@ == b@) ==> match msg.to {
                Some(t) => r matches SessionAction::Forward(f) && f@ == t@,
                None => match msg.payload {
                    MessagePayload::Heartbeat => r is Heartbeat,
                    MessagePayload::SyncRequest(_) => r is Route,
                    MessagePayload::SyncBatch(_) => r is Route,
                    _ => r is Ignore,
                },
            },
    {
        let b = match &self.state {
            SessionState::Authenticated(b) => b,
            _ => {
                return SessionAction::Ignore;
            },
        };
        if !msg.from.eq_id(b) {
            return SessionAction::Reject(
                Error::AuthorizationFailed(String::from_str("sender does not match session")),
            );
        }
        if let Some(t) = &msg.to {
            return SessionAction::Forward(t.clone_id());
        }
        match &msg.payload {
            MessagePayload::Heartbeat => SessionAction::Heartbeat,
            MessagePayload::SyncRequest(_) => SessionAction::Route,
            MessagePayload::SyncBatch(_) => SessionAction::Route,
            _ => SessionAction::Ignore,
        }
    }

    /// Records a heartbeat of the session's branch and builds the `HeartbeatAck`.
    pub fn on_heartbeat(&self, registry: &mut ConnectionManager, now: i64) -> (r: Option<Message>)
        requires
            old(registry).wf(),
        ensures
            final(registry).wf(),
            final(registry).limit() == old(registry).limit(),
            r is Some <==> self.state is Authenticated,
            match self.state {
                SessionState::Authenticated(b) => {
                    &&& old(registry).view().contains_key(b@) ==> final(registry).view() == old(
                        registry,
                    ).view().insert(
                        b@,
                        ConnectionMetadata { last_heartbeat: now, ..old(registry).view()[b@] },
                    )
                    &&& !old(registry).view().contains_key(b@) ==> final(registry).view() == old(
                        registry,
                    ).view()
                    &&& (r matches Some(m) && m.payload is HeartbeatAck && (m.to matches Some(t)
                        && t@ == b@))
                },
                _ => final(registry).view() == old(registry).view(),
            },
    {
        match &self.state {
            SessionState::Authenticated(b) => {
                registry.update_heartbeat(b, now);
                Some(Message::new(BranchId::new("hub"), Some(b.clone_id()), MessagePayload::HeartbeatAck))
            },
            _ => None,
        }
    }

    /// Enters `Closing`, dropping the registry entry of an authenticated session.
    pub fn close(&mut self, registry: &mut ConnectionManager)
        requires
            old(registry).wf(),
        ensures
            final(registry).wf(),
            final(registry).limit() == old(registry).limit(),
            final(self).state is Closing,
            match old(self).state {
                SessionState::Authenticated(b) => final(registry).view() == old(registry).view().remove(b@),
                _ => final(registry).view() == old(registry).view(),
            },
    {
        match &self.state {
            SessionState::Authenticated(b) => {
                registry.remove_connection(b);
            },
            _ => {},
        }
        self.state = SessionState::Closing;
    }
}

} // verus!

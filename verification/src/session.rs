//! The per-connection chat session state machine.
//!
//! One session binds one physical connection to at most one registry
//! claim and one bus subscription. The caller (the connection handler)
//! drives it with the events it observes — the connection upgrade, each
//! inbound text frame, and closure — and performs the returned strings'
//! publication or transmission; the decisions themselves live here.

use crate::registry::{after_claim, after_release, claim_succeeds, ParticipantRegistry};
use vstd::prelude::*;
use vstd::string::StringExecFns;

verus! {

/// Where a session stands in its life cycle.
pub enum SessionState {
    /// Physical connection accepted; no resources held.
    Connecting,
    /// Waiting for a text frame carrying a free display name; retried
    /// without limit while names are empty or taken.
    AwaitingName,
    /// A name is claimed; the relay and deliver duties run.
    Active { name: String },
    /// Terminal: the claim is released and both duties stop.
    Closed,
}

/// The outbound chat line for one inbound frame: `"{name}: {content}"`.
pub open spec fn chat_line(name: Seq<char>, content: Seq<char>) -> Seq<char> {
    name + ": "@ + content
}

/// The announcement published when `name` enters the channel.
pub open spec fn joined_line(name: Seq<char>) -> Seq<char> {
    name + " joined."@
}

/// The announcement published when `name` leaves the channel.
pub open spec fn left_line(name: Seq<char>) -> Seq<char> {
    name + " left."@
}

/// Format one participant's message for broadcast.
pub fn format_chat_line(name: &str, content: &str) -> (line: String)
    ensures
        line@ == chat_line(name@, content@),
{
    let mut line = name.to_owned();
    line.append(": ");
    line.append(content);
    line
}

/// Format the join announcement for `name`.
pub fn format_joined_line(name: &str) -> (line: String)
    ensures
        line@ == joined_line(name@),
{
    let mut line = name.to_owned();
    line.append(" joined.");
    line
}

/// Format the departure announcement for `name`.
pub fn format_left_line(name: &str) -> (line: String)
    ensures
        line@ == left_line(name@),
{
    let mut line = name.to_owned();
    line.append(" left.");
    line
}

/// One connection's session: the state machine of its life cycle.
pub struct ChatSession {
    state: SessionState,
}

impl ChatSession {
    /// The current state.
    pub closed spec fn state(&self) -> SessionState {
        self.state
    }

    /// The claimed name while the session is active.
    pub open spec fn active_name(&self) -> Seq<char>
        recommends
            self.state() matches SessionState::Active { .. },
    {
        match self.state() {
            SessionState::Active { name } => name@,
            _ => Seq::empty(),
        }
    }

    /// A session for a freshly accepted connection.
    pub fn new() -> (s: ChatSession)
        ensures
            s.state() is Connecting,
    {
        ChatSession { state: SessionState::Connecting }
    }

    /// The connection upgrade completed: start waiting for a name frame.
    pub fn on_connect(&mut self)
        requires
            old(self).state() is Connecting,
        ensures
            final(self).state() is AwaitingName,
    {
        self.state = SessionState::AwaitingName;
    }

    /// A text frame arrived while waiting for a name: treat it as the
    /// requested display name. An empty name, or one another session
    /// holds, leaves the session waiting (the peer may retry with a
    /// different name); a free name is claimed, the session becomes
    /// active, and the join announcement to publish is returned.
    pub fn on_name_frame(&mut self, frame: String, registry: &mut ParticipantRegistry) -> (announcement: Option<
        String,
    >)
        requires
            old(self).state() is AwaitingName,
            old(registry).wf(),
        ensures
            final(registry).wf(),
            announcement is Some <==> frame@.len() > 0 && claim_succeeds(old(registry)@, frame@),
            announcement matches Some(a) ==> {
                &&& final(self).state() == (SessionState::Active { name: frame })
                &&& final(registry)@ == after_claim(old(registry)@, frame@)
                &&& a@ == joined_line(frame@)
            },
            announcement is None ==> final(self).state() is AwaitingName && final(registry)@
                == old(registry)@,
    {
        if frame.as_str().is_empty() {
            return None;
        }
        let requested = frame.clone();
        if registry.try_claim(requested) {
            let announcement = format_joined_line(frame.as_str());
            self.state = SessionState::Active { name: frame };
            Some(announcement)
        } else {
            None
        }
    }

    /// An inbound text frame arrived while active: return the formatted
    /// line the relay duty publishes to the bus.
    pub fn on_chat_frame(&self, content: &str) -> (line: String)
        requires
            self.state() matches SessionState::Active { .. },
        ensures
            line@ == chat_line(self.active_name(), content@),
    {
        match &self.state {
            SessionState::Active { name } => format_chat_line(name.as_str(), content),
            _ => unreached(),
        }
    }

    /// The connection closed or a duty failed: release the claim — always,
    /// whichever duty saw the closure first — and stop. Idempotent; on
    /// leaving the active state the departure announcement to publish is
    /// returned.
    pub fn on_close(&mut self, registry: &mut ParticipantRegistry) -> (announcement: Option<
        String,
    >)
        requires
            old(registry).wf(),
        ensures
            final(registry).wf(),
            final(self).state() is Closed,
            old(self).state() matches SessionState::Active { name } ==> {
                &&& final(registry)@ == after_release(old(registry)@, name@)
                &&& announcement matches Some(a) && a@ == left_line(name@)
            },
            !(old(self).state() matches SessionState::Active { .. }) ==> announcement is None
                && final(registry)@ == old(registry)@,
    {
        let mut announcement: Option<String> = None;
        match &self.state {
            SessionState::Active { name } => {
                let held = name.clone();
                registry.release(&held);
                announcement = Some(format_left_line(held.as_str()));
            },
            _ => {},
        }
        self.state = SessionState::Closed;
        announcement
    }

    /// Whether the session still awaits a name.
    pub fn is_awaiting_name(&self) -> (r: bool)
        ensures
            r == (self.state() is AwaitingName),
    {
        match &self.state {
            SessionState::AwaitingName => true,
            _ => false,
        }
    }

    /// Whether the session is active.
    pub fn is_active(&self) -> (r: bool)
        ensures
            r == (self.state() matches SessionState::Active { .. }),
    {
        match &self.state {
            SessionState::Active { .. } => true,
            _ => false,
        }
    }

    /// Whether the session has closed.
    pub fn is_closed(&self) -> (r: bool)
        ensures
            r == (self.state() is Closed),
    {
        match &self.state {
            SessionState::Closed => true,
            _ => false,
        }
    }

    /// The claimed name, while active.
    pub fn current_name(&self) -> (r: Option<&String>)
        ensures
            match r {
                Some(n) => self.state() matches SessionState::Active { .. } && n@
                    == self.active_name(),
                None => !(self.state() matches SessionState::Active { .. }),
            },
    {
        match &self.state {
            SessionState::Active { name } => Some(name),
            _ => None,
        }
    }
}

} // verus!

//! The session state machine: connection and streaming state with guarded
//! transitions.
//!
//! The one invariant is that a session can only be streaming while it is
//! connected; the transition to disconnected forces streaming off in the same
//! step, so no observer ever sees a disconnected, streaming session.

use vstd::prelude::*;
use vstd::string::StringExecFns;

verus! {

/// Identity of the connected device: its advertised name and its platform
/// address string.
#[derive(Debug, Clone, PartialEq)]
pub struct DeviceInfo {
    pub name: String,
    pub uuid: String,
}

#[derive(Debug, Clone, PartialEq)]
pub enum ConnectionState {
    Disconnected,
    Connected(DeviceInfo),
}

#[derive(Debug, Clone, PartialEq, Eq, Structural)]
pub enum StreamingState {
    Stopped,
    Streaming,
}

/// The session state: connection crossed with streaming, mutated only
/// through the guarded transitions below.
pub struct DeviceStateManager {
    connection_state: ConnectionState,
    streaming_state: StreamingState,
}

impl DeviceStateManager {
    /// The connection half of the state.
    pub closed spec fn connection(self) -> ConnectionState {
        self.connection_state
    }

    /// The streaming half of the state.
    pub closed spec fn streaming(self) -> StreamingState {
        self.streaming_state
    }

    /// Streaming is only ever on while connected.
    pub open spec fn wf(self) -> bool {
        self.streaming() is Streaming ==> self.connection() is Connected
    }

    pub fn new() -> (r: Self)
        ensures
            r.connection() == ConnectionState::Disconnected,
            r.streaming() == StreamingState::Stopped,
            r.wf(),
    {
        Self {
            connection_state: ConnectionState::Disconnected,
            streaming_state: StreamingState::Stopped,
        }
    }

    /// Record a fresh connection. Streaming is left as it was; a fresh
    /// connect out of the disconnected state therefore starts stopped, since
    /// streaming is never on while disconnected.
    pub fn set_connected(&mut self, name: String, uuid: String)
        ensures
            final(self).connection() == ConnectionState::Connected(
                DeviceInfo { name: name, uuid: uuid },
            ),
            final(self).streaming() == old(self).streaming(),
            final(self).wf(),
    {
        self.connection_state = ConnectionState::Connected(DeviceInfo { name, uuid });
    }

    /// Drop the connection, forcing streaming off in the same transition:
    /// the state is never disconnected and streaming at once.
    pub fn set_disconnected(&mut self)
        ensures
            final(self).connection() == ConnectionState::Disconnected,
            final(self).streaming() == StreamingState::Stopped,
            final(self).wf(),
    {
        self.set_streaming_stopped();
        self.connection_state = ConnectionState::Disconnected;
    }

    pub fn is_connected(&self) -> (r: bool)
        ensures
            r == (self.connection() is Connected),
    {
        matches!(self.connection_state, ConnectionState::Connected(_))
    }

    pub fn get_device_info(&self) -> (r: Option<&DeviceInfo>)
        ensures
            r is Some <==> self.connection() is Connected,
            self.connection() matches ConnectionState::Connected(info) ==> r == Some(&info),
    {
        match &self.connection_state {
            ConnectionState::Connected(info) => Some(info),
            ConnectionState::Disconnected => None,
        }
    }

    pub fn get_device_name(&self) -> (r: Option<&str>)
        ensures
            r is Some <==> self.connection() is Connected,
            self.connection() matches ConnectionState::Connected(info) ==> r is Some
                && r.unwrap()@ == info.name@,
    {
        match &self.connection_state {
            ConnectionState::Connected(info) => Some(info.name.as_str()),
            ConnectionState::Disconnected => None,
        }
    }

    pub fn get_device_uuid(&self) -> (r: Option<&str>)
        ensures
            r is Some <==> self.connection() is Connected,
            self.connection() matches ConnectionState::Connected(info) ==> r is Some
                && r.unwrap()@ == info.uuid@,
    {
        match &self.connection_state {
            ConnectionState::Connected(info) => Some(info.uuid.as_str()),
            ConnectionState::Disconnected => None,
        }
    }

    /// Turn streaming on. Valid only while connected; on a disconnected
    /// session the call fails and leaves the state exactly as it was.
    pub fn set_streaming_started(&mut self) -> (r: Result<(), &'static str>)
        ensures
            old(self).connection() is Connected ==> r is Ok
                && final(self).connection() == old(self).connection()
                && final(self).streaming() == StreamingState::Streaming,
            !(old(self).connection() is Connected) ==> r is Err && *final(self) == *old(self),
            old(self).wf() ==> final(self).wf(),
    {
        if !self.is_connected() {
            return Err("Cannot start streaming when not connected");
        }

        self.streaming_state = StreamingState::Streaming;
        Ok(())
    }

    /// Turn streaming off. Valid from any state; already-stopped is a no-op.
    pub fn set_streaming_stopped(&mut self)
        ensures
            final(self).connection() == old(self).connection(),
            final(self).streaming() == StreamingState::Stopped,
            final(self).wf(),
    {
        self.streaming_state = StreamingState::Stopped;
    }

    pub fn is_streaming(&self) -> (r: bool)
        ensures
            r == (self.streaming() is Streaming),
    {
        matches!(self.streaming_state, StreamingState::Streaming)
    }

    pub fn can_start_streaming(&self) -> (r: bool)
        ensures
            r == (self.connection() is Connected && !(self.streaming() is Streaming)),
    {
        self.is_connected() && !self.is_streaming()
    }

    pub fn can_stop_streaming(&self) -> (r: bool)
        ensures
            r == (self.streaming() is Streaming),
    {
        self.is_streaming()
    }

    /// A one-line description of the state, for diagnostics.
    pub fn get_state_summary(&self) -> (r: String)
        ensures
            r@ == state_summary(*self),
    {
        let streaming_text: &str = if self.is_streaming() {
            "true"
        } else {
            "false"
        };
        match &self.connection_state {
            ConnectionState::Connected(info) => {
                let mut s = "Connected to ".to_owned();
                s.append(info.name.as_str());
                s.append(" (");
                s.append(info.uuid.as_str());
                s.append("), Streaming: ");
                s.append(streaming_text);
                proof {
                    assert(s@ =~= state_summary(*self));
                }
                s
            },
            ConnectionState::Disconnected => {
                let mut s = "Disconnected, Streaming: ".to_owned();
                s.append(streaming_text);
                proof {
                    assert(s@ =~= state_summary(*self));
                }
                s
            },
        }
    }
}

/// The text of `get_state_summary`.
pub open spec fn state_summary(m: DeviceStateManager) -> Seq<char> {
    let streaming_text: Seq<char> = if m.streaming() is Streaming {
        "true"@
    } else {
        "false"@
    };
    match m.connection() {
        ConnectionState::Connected(info) => "Connected to "@ + info.name@ + " ("@ + info.uuid@
            + "), Streaming: "@ + streaming_text,
        ConnectionState::Disconnected => "Disconnected, Streaming: "@ + streaming_text,
    }
}

impl Default for DeviceStateManager {
    fn default() -> (r: Self)
        ensures
            r.connection() == ConnectionState::Disconnected,
            r.streaming() == StreamingState::Stopped,
    {
        Self::new()
    }
}

} // verus!

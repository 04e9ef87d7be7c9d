use vstd::prelude::*;

use crate::error::{protocol_error, Result, TrojanError, TrojanErrorView};
use crate::protocol::address::{Address, AddressView};
use crate::protocol::command::Command;

verus! {

/// The stages a Vision connection goes through.
#[derive(Debug, Clone, Copy, PartialEq, Eq, Structural)]
pub enum ConnectionState {
    Handshake,
    Authenticating,
    Authenticated,
    Forwarding,
    Fallback,
    Closed,
}

/// Tracks one connection: its stream (absent while lent out), its stage, the
/// authenticated request and the optional fallback target.
pub struct ConnectionStateMachine<S> {
    stream: Option<S>,
    state: ConnectionState,
    auth_result: Option<(Command, Address)>,
    fallback_address: Option<Address>,
}

/// Mathematical view of a connection state machine.
pub struct MachineView<S> {
    pub stream: Option<S>,
    pub state: ConnectionState,
    pub auth_result: Option<(Command, AddressView)>,
    pub fallback: Option<AddressView>,
}

/// View of an optional authenticated request.
pub open spec fn auth_view(a: Option<(Command, Address)>) -> Option<(Command, AddressView)> {
    match a {
        Some((c, addr)) => Some((c, addr@)),
        None => None,
    }
}

/// View of an optional fallback address.
pub open spec fn fallback_view(a: Option<Address>) -> Option<AddressView> {
    match a {
        Some(addr) => Some(addr@),
        None => None,
    }
}

impl<S> View for ConnectionStateMachine<S> {
    type V = MachineView<S>;

    closed spec fn view(&self) -> MachineView<S> {
        MachineView {
            stream: self.stream,
            state: self.state,
            auth_result: auth_view(self.auth_result),
            fallback: fallback_view(self.fallback_address),
        }
    }
}

/// The machine after the outcome of authentication comes back with the
/// stream: authenticated with the request, or, on failure, in fallback when a
/// fallback target is set and closed otherwise.
pub open spec fn spec_after_authentication<S>(
    m: MachineView<S>,
    stream: S,
    outcome: Option<(Command, AddressView)>,
) -> MachineView<S> {
    match outcome {
        Some(req) => MachineView {
            stream: Some(stream),
            state: ConnectionState::Authenticated,
            auth_result: Some(req),
            ..m
        },
        None => MachineView {
            stream: Some(stream),
            state: if m.fallback is Some {
                ConnectionState::Fallback
            } else {
                ConnectionState::Closed
            },
            ..m
        },
    }
}

/// Authentication may start: the connection is in its handshake stage and
/// holds its stream.
pub open spec fn can_authenticate<S>(m: MachineView<S>) -> bool {
    m.state == ConnectionState::Handshake && m.stream is Some
}

/// Forwarding may start: the connection is authenticated and holds its stream.
pub open spec fn can_forward<S>(m: MachineView<S>) -> bool {
    m.state == ConnectionState::Authenticated && m.stream is Some
}

impl<S> ConnectionStateMachine<S> {
    /// A machine in the handshake stage holding `stream`.
    pub fn new(stream: S) -> (r: Self)
        ensures
            r@ == (MachineView {
                stream: Some(stream),
                state: ConnectionState::Handshake,
                auth_result: None,
                fallback: None,
            }),
    {
        ConnectionStateMachine {
            stream: Some(stream),
            state: ConnectionState::Handshake,
            auth_result: None,
            fallback_address: None,
        }
    }

    /// Sets where a connection that fails authentication should go.
    pub fn set_fallback(&mut self, address: Address)
        ensures
            final(self)@ == (MachineView { fallback: Some(address@), ..old(self)@ }),
    {
        self.fallback_address = Some(address);
    }

    /// The current stage.
    pub fn state(&self) -> (s: ConnectionState)
        ensures
            s == self@.state,
    {
        self.state
    }

    /// Gives up the machine and returns its stream, if it holds it.
    pub fn into_stream(self) -> (s: Option<S>)
        ensures
            s == self@.stream,
    {
        self.stream
    }

    /// The authenticated command and target, if authentication succeeded.
    pub fn get_auth_result(&self) -> (r: Option<(Command, Address)>)
        ensures
            auth_view(r) == self@.auth_result,
    {
        match &self.auth_result {
            Some((c, a)) => Some((*c, a.clone())),
            None => None,
        }
    }

    /// Lends the stream out for authentication; allowed only in the handshake
    /// stage.
    pub fn begin_authentication(&mut self) -> (r: Result<S>)
        ensures
            can_authenticate(old(self)@) ==> (r matches Ok(s) && Some(s) == old(self)@.stream
                && final(self)@ == (MachineView { stream: None, ..old(self)@ })),
            old(self)@.state != ConnectionState::Handshake ==> (r matches Err(e) && e@
                == TrojanErrorView::Protocol("Invalid state transition"@) && final(self)@ == old(
                self,
            )@),
            old(self)@.state == ConnectionState::Handshake && old(self)@.stream is None ==> (
            r matches Err(e) && e@ == TrojanErrorView::Protocol(
                "Missing stream in state machine"@,
            ) && final(self)@ == old(self)@),
    {
        if self.state != ConnectionState::Handshake {
            return Err(protocol_error("Invalid state transition"));
        }
        match self.stream.take() {
            Some(s) => Ok(s),
            None => Err(protocol_error("Missing stream in state machine")),
        }
    }

    /// Takes the stream back with the outcome of authentication.
    pub fn finish_authentication(&mut self, stream: S, outcome: Result<(Command, Address)>) -> (r:
        Result<()>)
        ensures
            outcome matches Ok((c, a)) ==> r is Ok && final(self)@ == spec_after_authentication(
                old(self)@,
                stream,
                Some((c, a@)),
            ),
            outcome matches Err(e) ==> (r matches Err(x) && x@ == e@) && final(self)@
                == spec_after_authentication(old(self)@, stream, None),
    {
        match outcome {
            Ok((command, address)) => {
                self.stream = Some(stream);
                self.state = ConnectionState::Authenticated;
                self.auth_result = Some((command, address));
                Ok(())
            },
            Err(e) => {
                if self.fallback_address.is_some() {
                    self.state = ConnectionState::Fallback;
                } else {
                    self.state = ConnectionState::Closed;
                }
                self.stream = Some(stream);
                Err(e)
            },
        }
    }

    /// Gives up the machine and returns its stream for forwarding; allowed only
    /// once authenticated.
    pub fn begin_forwarding(self) -> (r: Result<S>)
        ensures
            can_forward(self@) ==> (r matches Ok(s) && Some(s) == self@.stream),
            self@.state != ConnectionState::Authenticated ==> (r matches Err(e) && e@
                == TrojanErrorView::Protocol("Cannot forward without authentication"@)),
            self@.state == ConnectionState::Authenticated && self@.stream is None ==> (
            r matches Err(e) && e@ == TrojanErrorView::Protocol(
                "Missing stream in authenticated state"@,
            )),
    {
        if self.state != ConnectionState::Authenticated {
            return Err(protocol_error("Cannot forward without authentication"));
        }
        match self.stream {
            Some(s) => Ok(s),
            None => Err(protocol_error("Missing stream in authenticated state")),
        }
    }
}

/// Direct splicing relays TCP only: UDP associate requests are refused.
pub fn check_direct_command(command: Command) -> (r: Result<()>)
    ensures
        command == Command::Connect ==> r is Ok,
        command == Command::UdpAssociate ==> (r matches Err(e) && e@ == TrojanErrorView::Protocol(
            "UDP not supported in direct mode"@,
        )),
{
    match command {
        Command::Connect => Ok(()),
        Command::UdpAssociate => Err(protocol_error("UDP not supported in direct mode")),
    }
}

/// A connection whose authentication fails ends in fallback exactly when a
/// fallback target is set (closed otherwise), keeps its stream, and can never
/// start forwarding.
pub proof fn lemma_failed_authentication_never_forwards<S>(m: MachineView<S>, stream: S)
    ensures
        spec_after_authentication(m, stream, None).state == (if m.fallback is Some {
            ConnectionState::Fallback
        } else {
            ConnectionState::Closed
        }),
        spec_after_authentication(m, stream, None).stream == Some(stream),
        !can_forward(spec_after_authentication(m, stream, None)),
{
}

/// After successful authentication the connection may forward, and it reports
/// the request it authenticated.
pub proof fn lemma_successful_authentication_forwards<S>(
    m: MachineView<S>,
    stream: S,
    req: (Command, AddressView),
)
    ensures
        can_forward(spec_after_authentication(m, stream, Some(req))),
        spec_after_authentication(m, stream, Some(req)).auth_result == Some(req),
{
}

} // verus!

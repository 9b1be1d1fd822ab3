//! One client connection: its requests are dispatched to the server's
//! handlers, and its first message decides whether it is let in.
use crate::server::error::{ServerError, ServerErrorView};
use crate::server::operating_server::{
    call_accept_step, call_hangup_step, call_reject_step, call_request_step, login_step,
    logout_step, make_user_offline_step, signup_step, OperatingServer, ServerView,
};
use crate::server::protocol::{ClientMessage, ClientMessageView, ServerResponse, ServerResponseView};
use vstd::prelude::*;

verus! {

/// What a request does to the server and what it answers.
pub open spec fn dispatch_step(s: ServerView, m: ClientMessageView) -> (ServerResponseView, ServerView) {
    match m {
        ClientMessageView::LogIn { username, password } => login_step(s, username, password),
        ClientMessageView::SignUp { username, password } => signup_step(s, username, password),
        ClientMessageView::LogOut { token } => logout_step(s, token),
        ClientMessageView::CallRequest { token, offer_sdp, to } => call_request_step(
            s,
            token,
            to,
            offer_sdp,
        ),
        ClientMessageView::CallAccept { from_usr, to_usr, sdp_answer } => call_accept_step(
            s,
            from_usr,
            to_usr,
            sdp_answer,
        ),
        ClientMessageView::CallReject { from_usr, to_usr } => call_reject_step(s, from_usr, to_usr),
        ClientMessageView::CallHangup { token } => call_hangup_step(s, token),
        ClientMessageView::Hello => (ServerResponseView::BadMessage, s),
    }
}

/// Handles the requests of one client connection.
pub struct UserHandler {
    pub op_server: OperatingServer,
}

impl UserHandler {
    /// A handler that serves requests with `op_server`.
    pub fn new(op_server: OperatingServer) -> (r: Self)
        ensures
            r.op_server == op_server,
    {
        UserHandler { op_server }
    }

    /// Dispatches a request to the handler of its kind; a `Hello` in the
    /// middle of a session is a bad message.
    pub fn handle_client_message(&mut self, event: ClientMessage) -> (r: ServerResponse)
        requires
            old(self).op_server.wf(),
        ensures
            final(self).op_server.wf(),
            r@ == dispatch_step(old(self).op_server@, event@).0,
            final(self).op_server@ == dispatch_step(old(self).op_server@, event@).1,
    {
        match event {
            ClientMessage::LogIn { username, password } => self.op_server.login_user(
                username,
                password,
            ),
            ClientMessage::SignUp { username, password } => self.op_server.signup_user(
                username,
                password,
            ),
            ClientMessage::LogOut { token } => self.op_server.logout_user(token),
            ClientMessage::CallRequest { token, offer_sdp, to } => self.op_server.call_request(
                token,
                to,
                offer_sdp,
            ),
            ClientMessage::CallAccept { from_usr, to_usr, sdp_answer } =>
                self.op_server.call_accept(from_usr, to_usr, sdp_answer),
            ClientMessage::CallReject { from_usr, to_usr } => self.op_server.call_reject(
                from_usr,
                to_usr,
            ),
            ClientMessage::CallHangup { token } => self.op_server.call_hangup(token),
            ClientMessage::Hello => ServerResponse::BadMessage,
        }
    }

    /// The end of a connection: the client's user goes offline. A clean
    /// close ends the session with that result; a failed read ends it with
    /// `ConnectionError` once the user is offline.
    pub fn on_disconnect(&mut self, clean: bool) -> (r: Result<(), ServerError>)
        requires
            old(self).op_server.wf(),
        ensures
            final(self).op_server.wf(),
            final(self).op_server@ == make_user_offline_step(old(self).op_server@).1,
            match make_user_offline_step(old(self).op_server@).0 {
                Err(e) => r matches Err(e2) && e2@ == e,
                Ok(()) => if clean {
                    r is Ok
                } else {
                    r matches Err(e2) && e2@ == ServerErrorView::ConnectionError
                },
            },
    {
        match self.op_server.make_user_offline() {
            Err(e) => Err(e),
            Ok(()) => if clean {
                Ok(())
            } else {
                Err(ServerError::ConnectionError)
            },
        }
    }
}

/// Counts the clients that the server has let in, against a maximum.
pub struct ConnectionCounter {
    pub connected: usize,
    pub max: usize,
}

impl ConnectionCounter {
    /// A counter with no client yet.
    pub fn new(max: usize) -> (r: Self)
        ensures
            r.connected == 0,
            r.max == max,
    {
        ConnectionCounter { connected: 0, max }
    }

    /// A new connection is refused when exactly the maximum is connected,
    /// and counted otherwise (the count wraps around past the largest
    /// `usize`, as an atomic counter's addition does). Returns whether it is
    /// let in.
    pub fn accept_connection(&mut self) -> (admitted: bool)
        ensures
            admitted == (old(self).connected != old(self).max),
            final(self).connected == if !admitted {
                old(self).connected as int
            } else if old(self).connected == usize::MAX {
                0
            } else {
                old(self).connected + 1
            },
            final(self).max == old(self).max,
    {
        if self.connected == self.max {
            false
        } else {
            self.connected = self.connected.wrapping_add(1);
            true
        }
    }

    /// The first message of a session must be `Hello`; a full server then
    /// answers `ServerFull` and refuses the session, otherwise it answers
    /// `Welcome` and counts the client once more. Anything else refuses
    /// the session without an answer.
    pub fn client_server_handshake(&mut self, msg: &Option<ClientMessage>) -> (r: (
        Option<ServerResponse>,
        Result<(), ServerError>,
    ))
        ensures
            final(self).max == old(self).max,
            match msg {
                Some(ClientMessage::Hello) => if old(self).connected >= old(self).max {
                    &&& r.0 matches Some(ServerResponse::ServerFull)
                    &&& r.1 matches Err(e) && e@ == ServerErrorView::ServerFull
                    &&& final(self).connected == old(self).connected
                } else {
                    &&& r.0 matches Some(ServerResponse::Welcome)
                    &&& r.1 is Ok
                    &&& final(self).connected == old(self).connected + 1
                },
                _ => {
                    &&& r.0 is None
                    &&& r.1 matches Err(e) && e@ == ServerErrorView::ConnectionError
                    &&& final(self).connected == old(self).connected
                },
            },
    {
        match msg {
            Some(ClientMessage::Hello) => {
                if self.connected >= self.max {
                    (Some(ServerResponse::ServerFull), Err(ServerError::ServerFull))
                } else {
                    self.connected = self.connected + 1;
                    (Some(ServerResponse::Welcome), Ok(()))
                }
            },
            _ => (None, Err(ServerError::ConnectionError)),
        }
    }

    /// A session ended with `outcome`: a clean end or a connection error
    /// gives its place back (never below zero); other errors keep the count.
    pub fn release(&mut self, outcome: &Result<(), ServerError>)
        ensures
            final(self).max == old(self).max,
            final(self).connected == match outcome {
                Ok(()) | Err(ServerError::ConnectionError) => if old(self).connected == 0 {
                    0
                } else {
                    old(self).connected - 1
                },
                _ => old(self).connected as int,
            },
    {
        match outcome {
            Ok(()) | Err(ServerError::ConnectionError) => {
                if self.connected > 0 {
                    self.connected = self.connected - 1;
                }
            },
            _ => {},
        }
    }
}

} // verus!

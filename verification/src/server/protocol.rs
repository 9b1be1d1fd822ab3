//! Messages exchanged between clients and the signalling server.
use crate::sdp::session_description::{SessionDescriptionProtocol, SessionDescriptionView};
use crate::server::user::{UserStatus, UserStatusView};
use vstd::prelude::*;

verus! {

/// A request of a client.
pub enum ClientMessage {
    /// First message of a connection.
    Hello,
    LogIn { username: String, password: String },
    SignUp { username: String, password: String },
    LogOut { token: String },
    CallRequest { token: String, offer_sdp: SessionDescriptionProtocol, to: String },
    CallAccept { from_usr: String, to_usr: String, sdp_answer: SessionDescriptionProtocol },
    CallReject { from_usr: String, to_usr: String },
    CallHangup { token: String },
}

/// The abstract content of a [`ClientMessage`].
pub ghost enum ClientMessageView {
    Hello,
    LogIn { username: Seq<char>, password: Seq<char> },
    SignUp { username: Seq<char>, password: Seq<char> },
    LogOut { token: Seq<char> },
    CallRequest { token: Seq<char>, offer_sdp: SessionDescriptionView, to: Seq<char> },
    CallAccept { from_usr: Seq<char>, to_usr: Seq<char>, sdp_answer: SessionDescriptionView },
    CallReject { from_usr: Seq<char>, to_usr: Seq<char> },
    CallHangup { token: Seq<char> },
}

impl View for ClientMessage {
    type V = ClientMessageView;

    open spec fn view(&self) -> ClientMessageView {
        match self {
            ClientMessage::Hello => ClientMessageView::Hello,
            ClientMessage::LogIn { username, password } => ClientMessageView::LogIn {
                username: username@,
                password: password@,
            },
            ClientMessage::SignUp { username, password } => ClientMessageView::SignUp {
                username: username@,
                password: password@,
            },
            ClientMessage::LogOut { token } => ClientMessageView::LogOut { token: token@ },
            ClientMessage::CallRequest { token, offer_sdp, to } => ClientMessageView::CallRequest {
                token: token@,
                offer_sdp: offer_sdp@,
                to: to@,
            },
            ClientMessage::CallAccept { from_usr, to_usr, sdp_answer } =>
                ClientMessageView::CallAccept {
                from_usr: from_usr@,
                to_usr: to_usr@,
                sdp_answer: sdp_answer@,
            },
            ClientMessage::CallReject { from_usr, to_usr } => ClientMessageView::CallReject {
                from_usr: from_usr@,
                to_usr: to_usr@,
            },
            ClientMessage::CallHangup { token } => ClientMessageView::CallHangup { token: token@ },
        }
    }
}

/// The server's answer to a request.
#[derive(Debug, Clone)]
pub enum ServerResponse {
    Welcome,
    ServerFull,
    BadMessage,
    Error(String),
    /// The user's name, the address of the server-to-client channel and the
    /// other users with their status.
    LoginOk(String, String, Vec<(String, UserStatus)>),
    LoginError(String),
    SignupOk,
    SignupError(String),
    LogoutOk,
    LogoutError(String),
    CallRequestOk,
    CallRequestError(String),
    CallAcceptOk,
    CallAcceptError(String),
    CallRejectOk,
    CallRejectError(String),
    CallHangUpOk,
    CallHangUpError(String),
}

/// The abstract content of a [`ServerResponse`].
pub ghost enum ServerResponseView {
    Welcome,
    ServerFull,
    BadMessage,
    Error(Seq<char>),
    LoginOk(Seq<char>, Seq<char>, Seq<(Seq<char>, UserStatusView)>),
    LoginError(Seq<char>),
    SignupOk,
    SignupError(Seq<char>),
    LogoutOk,
    LogoutError(Seq<char>),
    CallRequestOk,
    CallRequestError(Seq<char>),
    CallAcceptOk,
    CallAcceptError(Seq<char>),
    CallRejectOk,
    CallRejectError(Seq<char>),
    CallHangUpOk,
    CallHangUpError(Seq<char>),
}

/// The names and statuses of a list of users.
pub open spec fn clients_view(v: Seq<(String, UserStatus)>) -> Seq<(Seq<char>, UserStatusView)> {
    v.map_values(|p: (String, UserStatus)| (p.0@, p.1@))
}

impl View for ServerResponse {
    type V = ServerResponseView;

    open spec fn view(&self) -> ServerResponseView {
        match self {
            ServerResponse::Welcome => ServerResponseView::Welcome,
            ServerResponse::ServerFull => ServerResponseView::ServerFull,
            ServerResponse::BadMessage => ServerResponseView::BadMessage,
            ServerResponse::Error(m) => ServerResponseView::Error(m@),
            ServerResponse::LoginOk(u, a, c) => ServerResponseView::LoginOk(
                u@,
                a@,
                clients_view(c@),
            ),
            ServerResponse::LoginError(m) => ServerResponseView::LoginError(m@),
            ServerResponse::SignupOk => ServerResponseView::SignupOk,
            ServerResponse::SignupError(m) => ServerResponseView::SignupError(m@),
            ServerResponse::LogoutOk => ServerResponseView::LogoutOk,
            ServerResponse::LogoutError(m) => ServerResponseView::LogoutError(m@),
            ServerResponse::CallRequestOk => ServerResponseView::CallRequestOk,
            ServerResponse::CallRequestError(m) => ServerResponseView::CallRequestError(m@),
            ServerResponse::CallAcceptOk => ServerResponseView::CallAcceptOk,
            ServerResponse::CallAcceptError(m) => ServerResponseView::CallAcceptError(m@),
            ServerResponse::CallRejectOk => ServerResponseView::CallRejectOk,
            ServerResponse::CallRejectError(m) => ServerResponseView::CallRejectError(m@),
            ServerResponse::CallHangUpOk => ServerResponseView::CallHangUpOk,
            ServerResponse::CallHangUpError(m) => ServerResponseView::CallHangUpError(m@),
        }
    }
}

/// A message that the server pushes to a client over its server-to-client
/// channel.
pub enum ServerMessage {
    CallIncoming { from_usr: String, offer_sdp: SessionDescriptionProtocol },
    CallAccepted { from_usr: String, sdp_answer: SessionDescriptionProtocol },
    CallRejected,
    UserStatusUpdate(String, UserStatus),
    UsernameRequest,
}

/// The abstract content of a [`ServerMessage`].
pub ghost enum ServerMessageView {
    CallIncoming { from_usr: Seq<char>, offer_sdp: SessionDescriptionView },
    CallAccepted { from_usr: Seq<char>, sdp_answer: SessionDescriptionView },
    CallRejected,
    UserStatusUpdate(Seq<char>, UserStatusView),
    UsernameRequest,
}

impl View for ServerMessage {
    type V = ServerMessageView;

    open spec fn view(&self) -> ServerMessageView {
        match self {
            ServerMessage::CallIncoming { from_usr, offer_sdp } => ServerMessageView::CallIncoming {
                from_usr: from_usr@,
                offer_sdp: offer_sdp@,
            },
            ServerMessage::CallAccepted { from_usr, sdp_answer } => ServerMessageView::CallAccepted {
                from_usr: from_usr@,
                sdp_answer: sdp_answer@,
            },
            ServerMessage::CallRejected => ServerMessageView::CallRejected,
            ServerMessage::UserStatusUpdate(u, s) => ServerMessageView::UserStatusUpdate(u@, s@),
            ServerMessage::UsernameRequest => ServerMessageView::UsernameRequest,
        }
    }
}

/// Work that a request leaves for the caller, which owns the connections
/// and the users file.
pub enum ServerAction {
    /// Push `message` to `to` over its server-to-client channel.
    Deliver { to: String, message: ServerMessage },
    /// Close the server-to-client channel of the user.
    CloseStream(String),
    /// Append the credentials of a new user to the users file.
    PersistUser { username: String, password: String },
}

/// The abstract content of a [`ServerAction`].
pub ghost enum ServerActionView {
    Deliver { to: Seq<char>, message: ServerMessageView },
    CloseStream(Seq<char>),
    PersistUser { username: Seq<char>, password: Seq<char> },
}

impl View for ServerAction {
    type V = ServerActionView;

    open spec fn view(&self) -> ServerActionView {
        match self {
            ServerAction::Deliver { to, message } => ServerActionView::Deliver {
                to: to@,
                message: message@,
            },
            ServerAction::CloseStream(u) => ServerActionView::CloseStream(u@),
            ServerAction::PersistUser { username, password } => ServerActionView::PersistUser {
                username: username@,
                password: password@,
            },
        }
    }
}

/// The views of a list of actions.
pub open spec fn actions_view(v: Seq<ServerAction>) -> Seq<ServerActionView> {
    v.map_values(|a: ServerAction| a@)
}

} // verus!

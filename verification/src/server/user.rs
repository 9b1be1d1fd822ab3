//! Users known to the signalling server and their presence.
use vstd::prelude::*;

verus! {

/// Presence of a user.
#[derive(Debug, Clone, PartialEq, Eq)]
pub enum UserStatus {
    /// Logged in and free to take a call.
    Available,
    /// In a call with the named user.
    Occupied(String),
    /// Not logged in.
    Offline,
}

/// The abstract content of a [`UserStatus`].
pub ghost enum UserStatusView {
    Available,
    Occupied(Seq<char>),
    Offline,
}

impl View for UserStatus {
    type V = UserStatusView;

    open spec fn view(&self) -> UserStatusView {
        match self {
            UserStatus::Available => UserStatusView::Available,
            UserStatus::Occupied(u) => UserStatusView::Occupied(u@),
            UserStatus::Offline => UserStatusView::Offline,
        }
    }
}

impl UserStatus {
    /// A copy of this status.
    pub fn duplicate(&self) -> (r: Self)
        ensures
            r@ == self@,
    {
        match self {
            UserStatus::Available => UserStatus::Available,
            UserStatus::Occupied(u) => UserStatus::Occupied(u.clone()),
            UserStatus::Offline => UserStatus::Offline,
        }
    }

    /// Whether the user is logged in and free.
    pub fn is_available(&self) -> (r: bool)
        ensures
            r == (self@ == UserStatusView::Available),
    {
        match self {
            UserStatus::Available => true,
            _ => false,
        }
    }

    /// Whether the user is in a call with `peer`.
    pub fn is_occupied_by(&self, peer: &String) -> (r: bool)
        ensures
            r == (self@ == UserStatusView::Occupied(peer@)),
    {
        match self {
            UserStatus::Occupied(u) => *u == *peer,
            _ => false,
        }
    }
}

/// What the server keeps of a user: credentials, presence and whether the
/// client has opened its server-to-client channel.
#[derive(Debug, Clone)]
pub struct UserData {
    pub username: String,
    pub password: String,
    pub status: UserStatus,
    pub has_server_client_stream: bool,
}

/// The abstract content of a [`UserData`].
pub ghost struct UserDataView {
    pub username: Seq<char>,
    pub password: Seq<char>,
    pub status: UserStatusView,
    pub has_server_client_stream: bool,
}

impl View for UserData {
    type V = UserDataView;

    open spec fn view(&self) -> UserDataView {
        UserDataView {
            username: self.username@,
            password: self.password@,
            status: self.status@,
            has_server_client_stream: self.has_server_client_stream,
        }
    }
}

impl UserData {
    /// A user with these credentials and status and no server-to-client
    /// channel yet.
    pub fn new(username: String, password: String, status: UserStatus) -> (r: Self)
        ensures
            r@ == (UserDataView {
                username: username@,
                password: password@,
                status: status@,
                has_server_client_stream: false,
            }),
    {
        UserData { username, password, status, has_server_client_stream: false }
    }

    /// Replaces the status of the user.
    pub fn update_status(&mut self, status: UserStatus)
        ensures
            final(self)@ == (UserDataView { status: status@, ..old(self)@ }),
    {
        self.status = status;
    }

    /// Records that the client opened its server-to-client channel.
    pub fn update_server_client_stream(&mut self)
        ensures
            final(self)@ == (UserDataView { has_server_client_stream: true, ..old(self)@ }),
    {
        self.has_server_client_stream = true;
    }

    /// A copy of this user.
    pub fn duplicate(&self) -> (r: Self)
        ensures
            r@ == self@,
    {
        UserData {
            username: self.username.clone(),
            password: self.password.clone(),
            status: self.status.duplicate(),
            has_server_client_stream: self.has_server_client_stream,
        }
    }
}

} // verus!

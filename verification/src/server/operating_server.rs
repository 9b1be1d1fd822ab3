//! User authentication and call signalling. Every request reads and updates
//! the table of users and answers with a [`ServerResponse`]; what it leaves
//! for the connections and the users file is queued as [`ServerAction`]s,
//! which the caller carries out.
use crate::sdp::session_description::SessionDescriptionProtocol;
use crate::server::error::{ServerError, ServerErrorView};
use crate::server::protocol::{
    actions_view, clients_view, ServerAction, ServerActionView, ServerMessage, ServerMessageView,
    ServerResponse, ServerResponseView,
};
use crate::server::user::{UserData, UserDataView, UserStatus, UserStatusView};
use crate::text::{chars_of, trim, trim_bounds};
use vstd::prelude::*;

verus! {

// ----- the table of users -----

/// No two users share a name.
pub open spec fn unique_names(users: Seq<UserDataView>) -> bool {
    forall|i: int, j: int|
        0 <= i < users.len() && 0 <= j < users.len() && i != j ==> (#[trigger] users[i]).username
            != (#[trigger] users[j]).username
}

/// Whether a user with this name exists.
pub open spec fn has_user(users: Seq<UserDataView>, name: Seq<char>) -> bool {
    exists|i: int| 0 <= i < users.len() && (#[trigger] users[i]).username == name
}

/// The user with this name, if there is one.
pub open spec fn find_user(users: Seq<UserDataView>, name: Seq<char>) -> Option<UserDataView> {
    if has_user(users, name) {
        Some(users[choose|i: int| 0 <= i < users.len() && (#[trigger] users[i]).username == name])
    } else {
        None
    }
}

/// The table after the user with this name takes status `st`.
pub open spec fn set_status(users: Seq<UserDataView>, name: Seq<char>, st: UserStatusView) -> Seq<
    UserDataView,
> {
    users.map_values(
        |u: UserDataView|
            if u.username == name {
                UserDataView { status: st, ..u }
            } else {
                u
            },
    )
}

/// The table after `u` is added, replacing a user of the same name.
pub open spec fn upsert(users: Seq<UserDataView>, u: UserDataView) -> Seq<UserDataView> {
    if has_user(users, u.username) {
        users.map_values(|x: UserDataView| if x.username == u.username { u } else { x })
    } else {
        users.push(u)
    }
}

/// The table after each user of `list` is added in turn.
pub open spec fn upsert_all(users: Seq<UserDataView>, list: Seq<UserDataView>) -> Seq<UserDataView>
    decreases list.len(),
{
    if list.len() == 0 {
        users
    } else {
        upsert(upsert_all(users, list.drop_last()), list.last())
    }
}

/// The status updates that tell every other user with a server-to-client
/// channel that `name` now has status `st`, in table order.
pub open spec fn notify_actions(users: Seq<UserDataView>, name: Seq<char>, st: UserStatusView) -> Seq<
    ServerActionView,
>
    decreases users.len(),
{
    if users.len() == 0 {
        Seq::empty()
    } else {
        let rest = notify_actions(users.drop_last(), name, st);
        let u = users.last();
        if u.username != name && u.has_server_client_stream {
            rest.push(
                ServerActionView::Deliver {
                    to: u.username,
                    message: ServerMessageView::UserStatusUpdate(name, st),
                },
            )
        } else {
            rest
        }
    }
}

/// The names and statuses of every user but `own`, in table order.
pub open spec fn clients_of(users: Seq<UserDataView>, own: Seq<char>) -> Seq<
    (Seq<char>, UserStatusView),
>
    decreases users.len(),
{
    if users.len() == 0 {
        Seq::empty()
    } else {
        let rest = clients_of(users.drop_last(), own);
        let u = users.last();
        if u.username != own {
            rest.push((u.username, u.status))
        } else {
            rest
        }
    }
}

/// Whether the table has a user with this name and it has a
/// server-to-client channel.
pub open spec fn has_stream(users: Seq<UserDataView>, name: Seq<char>) -> bool {
    match find_user(users, name) {
        Some(u) => u.has_server_client_stream,
        None => false,
    }
}

/// In a table without repeated names, the user found at index `i` is the
/// one that `find_user` gives.
pub proof fn lemma_find_user_at(users: Seq<UserDataView>, i: int)
    requires
        unique_names(users),
        0 <= i < users.len(),
    ensures
        find_user(users, users[i].username) == Some(users[i]),
{
    let name = users[i].username;
    assert(has_user(users, name));
    let j = choose|j: int| 0 <= j < users.len() && (#[trigger] users[j]).username == name;
    assert(users[j].username == name);
    if j != i {
        assert(users[i].username != users[j].username);
    }
}

/// Changing a status keeps the names, and so keeps them distinct.
pub proof fn lemma_set_status_names(users: Seq<UserDataView>, name: Seq<char>, st: UserStatusView)
    ensures
        set_status(users, name, st).len() == users.len(),
        forall|k: int|
            0 <= k < users.len() ==> (#[trigger] set_status(users, name, st)[k]).username
                == users[k].username,
        unique_names(users) ==> unique_names(set_status(users, name, st)),
        forall|n: Seq<char>| has_user(set_status(users, name, st), n) == has_user(users, n),
{
    let t = set_status(users, name, st);
    assert forall|n: Seq<char>| has_user(t, n) == has_user(users, n) by {
        if has_user(users, n) {
            let k = choose|k: int| 0 <= k < users.len() && (#[trigger] users[k]).username == n;
            assert(t[k].username == n);
        }
        if has_user(t, n) {
            let k = choose|k: int| 0 <= k < t.len() && (#[trigger] t[k]).username == n;
            assert(users[k].username == n);
        }
    }
}

/// Adding a user keeps the names distinct.
pub proof fn lemma_upsert_unique(users: Seq<UserDataView>, u: UserDataView)
    requires
        unique_names(users),
    ensures
        unique_names(upsert(users, u)),
        has_user(upsert(users, u), u.username),
        find_user(upsert(users, u), u.username) == Some(u),
{
    let t = upsert(users, u);
    if has_user(users, u.username) {
        let k = choose|k: int| 0 <= k < users.len() && (#[trigger] users[k]).username == u.username;
        assert forall|i: int, j: int|
            0 <= i < t.len() && 0 <= j < t.len() && i != j implies (#[trigger] t[i]).username
            != (#[trigger] t[j]).username by {
            assert(t[i].username == users[i].username);
            assert(t[j].username == users[j].username);
        }
        assert(t[k] == u);
        lemma_find_user_at(t, k);
    } else {
        assert forall|i: int, j: int|
            0 <= i < t.len() && 0 <= j < t.len() && i != j implies (#[trigger] t[i]).username
            != (#[trigger] t[j]).username by {
            if i < users.len() && j < users.len() {
                assert(t[i] == users[i]);
                assert(t[j] == users[j]);
            } else if i < users.len() {
                assert(t[i] == users[i]);
                assert(t[j] == u);
            } else {
                assert(t[i] == u);
                assert(t[j] == users[j]);
            }
        }
        assert(t[users.len() as int] == u);
        lemma_find_user_at(t, users.len() as int);
    }
}

/// Adding users one by one keeps the names distinct.
pub proof fn lemma_upsert_all_unique(users: Seq<UserDataView>, list: Seq<UserDataView>)
    requires
        unique_names(users),
    ensures
        unique_names(upsert_all(users, list)),
    decreases list.len(),
{
    if list.len() > 0 {
        lemma_upsert_all_unique(users, list.drop_last());
        lemma_upsert_unique(upsert_all(users, list.drop_last()), list.last());
    }
}

/// A credential is valid when its trimmed text is not empty and holds no
/// space, newline, `:` or `|`.
pub open spec fn valid_credential(s: Seq<char>) -> bool {
    let t = trim(s);
    &&& t.len() > 0
    &&& forall|i: int|
        0 <= i < t.len() ==> #[trigger] t[i] != ' ' && t[i] != '\n' && t[i] != ':' && t[i] != '|'
}

/// Checks that a user name or password can be stored in the users file:
/// its trimmed text must not be empty nor hold a space, a newline, `:` or
/// `|`.
pub fn validate_string(s: String) -> (r: Result<(), ServerError>)
    ensures
        r is Ok <==> valid_credential(s@),
        r matches Err(e) ==> e@ == ServerErrorView::InvalidFormat,
{
    let chars = chars_of(s.as_str());
    let (a, b) = trim_bounds(chars.as_slice(), 0, chars.len());
    assert(chars@.subrange(0, chars@.len() as int) =~= s@);
    let ghost t = chars@.subrange(a as int, b as int);
    assert(t == trim(s@));
    if a == b {
        return Err(ServerError::InvalidFormat);
    }
    let mut i = a;
    while i < b
        invariant
            a <= i <= b <= chars@.len(),
            t == chars@.subrange(a as int, b as int),
            t == trim(s@),
            forall|k: int|
                0 <= k < i - a ==> #[trigger] t[k] != ' ' && t[k] != '\n' && t[k] != ':' && t[k]
                    != '|',
        decreases b - i,
    {
        let c = chars[i];
        assert(t[i - a] == c);
        if c == ' ' || c == '\n' || c == ':' || c == '|' {
            return Err(ServerError::InvalidFormat);
        }
        i = i + 1;
    }
    Ok(())
}

/// The record of the user called `user_name`, or the message
/// `User <name> not found`.
pub fn get_user_data(user_name: &String, users: &Vec<UserData>) -> (r: Result<UserData, String>)
    requires
        unique_names(users@.map_values(|u: UserData| u@)),
    ensures
        match r {
            Ok(d) => find_user(users@.map_values(|u: UserData| u@), user_name@) == Some(d@),
            Err(m) => find_user(users@.map_values(|u: UserData| u@), user_name@) is None && m@
                == "User "@ + user_name@ + " not found"@,
        },
{
    let ghost v = users@.map_values(|u: UserData| u@);
    match find_index(users, user_name) {
        Some(i) => {
            proof {
                lemma_find_user_at(v, i as int);
            }
            Ok(users[i].duplicate())
        },
        None => Err(String::from_str("User ").concat(user_name.as_str()).concat(" not found")),
    }
}

/// The index of the user called `name`, if there is one.
pub fn find_index(users: &Vec<UserData>, name: &String) -> (r: Option<usize>)
    ensures
        match r {
            Some(i) => i < users@.len() && users@[i as int]@.username == name@,
            None => !has_user(users@.map_values(|u: UserData| u@), name@),
        },
{
    let ghost v = users@.map_values(|u: UserData| u@);
    let mut i: usize = 0;
    while i < users.len()
        invariant
            i <= users@.len(),
            v == users@.map_values(|u: UserData| u@),
            forall|k: int| 0 <= k < i ==> (#[trigger] v[k]).username != name@,
        decreases users@.len() - i,
    {
        if users[i].username == *name {
            return Some(i);
        }
        i = i + 1;
    }
    proof {
        if has_user(v, name@) {
            let k = choose|k: int| 0 <= k < v.len() && (#[trigger] v[k]).username == name@;
            assert(v[k].username == name@);
        }
    }
    None
}


/// Adds `data` to a table of users, replacing a user of the same name.
pub fn upsert_user(users: &mut Vec<UserData>, data: UserData)
    requires
        unique_names(users_view(old(users)@)),
    ensures
        unique_names(users_view(final(users)@)),
        users_view(final(users)@) == upsert(users_view(old(users)@), data@),
{
    let ghost v0 = users_view(users@);
    proof {
        lemma_upsert_unique(v0, data@);
    }
    match find_index(users, &data.username) {
        Some(i) => {
            users.set(i, data);
            proof {
                let t = upsert(v0, users@[i as int]@);
                assert forall|k: int| 0 <= k < v0.len() implies #[trigger] users_view(users@)[k]
                    == t[k] by {
                    if k != i {
                        assert(v0[k].username != v0[i as int].username);
                    }
                }
                assert(users_view(users@) =~= t);
            }
        },
        None => {
            users.push(data);
            proof {
                assert(users_view(users@) =~= v0.push(data@));
            }
        },
    }
}

// ----- the server -----

/// The abstract state of an [`OperatingServer`].
#[verifier::ext_equal]
pub ghost struct ServerView {
    pub users: Seq<UserDataView>,
    pub server_client_socket_address: Seq<char>,
    pub username: Option<Seq<char>>,
    pub actions: Seq<ServerActionView>,
}

/// The views of a list of users.
pub open spec fn users_view(users: Seq<UserData>) -> Seq<UserDataView> {
    users.map_values(|u: UserData| u@)
}

/// The message `User <name> not found`.
pub open spec fn not_found(name: Seq<char>) -> Seq<char> {
    "User "@ + name + " not found"@
}

/// Request handling of one client connection: the table of users, the
/// address of the server-to-client channel that a login reports, the user
/// logged in on this connection, and the actions queued for the caller.
pub struct OperatingServer {
    pub users: Vec<UserData>,
    pub server_client_socket_address: String,
    pub username: Option<String>,
    pub actions: Vec<ServerAction>,
}

impl View for OperatingServer {
    type V = ServerView;

    open spec fn view(&self) -> ServerView {
        ServerView {
            users: users_view(self.users@),
            server_client_socket_address: self.server_client_socket_address@,
            username: match self.username {
                Some(u) => Some(u@),
                None => None,
            },
            actions: actions_view(self.actions@),
        }
    }
}

/// Login: the user must exist, give its password and be offline; it then
/// becomes available, every other connected user is told, and the answer
/// lists the other users. The connection count is not part of this step:
/// it was taken when the connection was let in.
pub open spec fn login_step(s: ServerView, name: Seq<char>, pw: Seq<char>) -> (
    ServerResponseView,
    ServerView,
) {
    match find_user(s.users, name) {
        None => (ServerResponseView::LoginError(not_found(name)), s),
        Some(u) => if u.password != pw {
            (ServerResponseView::LoginError("Wrong password. Try again"@), s)
        } else if u.status != UserStatusView::Offline {
            (ServerResponseView::LoginError("User already logged in"@), s)
        } else {
            let users = set_status(s.users, name, UserStatusView::Available);
            (
                ServerResponseView::LoginOk(
                    name,
                    s.server_client_socket_address,
                    clients_of(users, name),
                ),
                ServerView {
                    users,
                    username: Some(name),
                    actions: s.actions + notify_actions(users, name, UserStatusView::Available),
                    ..s
                },
            )
        },
    }
}

/// Signup: both credentials must be valid and the name new; the user is
/// added offline, every other connected user is told, and its credentials
/// are to be stored.
pub open spec fn signup_step(s: ServerView, name: Seq<char>, pw: Seq<char>) -> (
    ServerResponseView,
    ServerView,
) {
    if !valid_credential(name) {
        (ServerResponseView::SignupError("Invalid username"@), s)
    } else if !valid_credential(pw) {
        (ServerResponseView::SignupError("Invalid password"@), s)
    } else if has_user(s.users, name) {
        (ServerResponseView::SignupError("User "@ + name + " already exists"@), s)
    } else {
        let users = s.users.push(
            UserDataView {
                username: name,
                password: pw,
                status: UserStatusView::Offline,
                has_server_client_stream: false,
            },
        );
        (
            ServerResponseView::SignupOk,
            ServerView {
                users,
                actions: s.actions + notify_actions(users, name, UserStatusView::Offline) + seq![
                    ServerActionView::PersistUser { username: name, password: pw },
                ],
                ..s
            },
        )
    }
}

/// Logout: an existing user goes offline; when it has a server-to-client
/// channel, the channel is closed, the connection forgets its user and
/// every other connected user is told.
pub open spec fn logout_step(s: ServerView, name: Seq<char>) -> (ServerResponseView, ServerView) {
    match find_user(s.users, name) {
        None => (ServerResponseView::LogoutError(not_found(name)), s),
        Some(u) => {
            let users = set_status(s.users, name, UserStatusView::Offline);
            if !u.has_server_client_stream {
                (ServerResponseView::Error("User not found"@), ServerView { users, ..s })
            } else {
                (
                    ServerResponseView::LogoutOk,
                    ServerView {
                        users,
                        username: None,
                        actions: s.actions.push(ServerActionView::CloseStream(name))
                            + notify_actions(users, name, UserStatusView::Offline),
                        ..s
                    },
                )
            }
        },
    }
}

/// Call request: the caller must exist (else `Error`), the callee must
/// exist and have a server-to-client channel (else `CallRequestError`),
/// and both must be available; each becomes occupied by the other, every
/// other connected user is told, and the callee receives the offer.
pub open spec fn call_request_step(
    s: ServerView,
    from: Seq<char>,
    to: Seq<char>,
    offer: crate::sdp::session_description::SessionDescriptionView,
) -> (ServerResponseView, ServerView) {
    match (find_user(s.users, from), find_user(s.users, to)) {
        (None, _) => (ServerResponseView::Error(not_found(from)), s),
        (_, None) => (
            ServerResponseView::CallRequestError(ServerErrorView::UserDoesNotExist(to).message()),
            s,
        ),
        (Some(f), Some(t)) => if !t.has_server_client_stream {
            (
                ServerResponseView::CallRequestError(
                    ServerErrorView::UserDoesNotExist(to).message(),
                ),
                s,
            )
        } else if f.status != UserStatusView::Available {
            (ServerResponseView::Error(ServerErrorView::UserNotAvailable(from).message()), s)
        } else if t.status != UserStatusView::Available {
            (ServerResponseView::Error(ServerErrorView::UserNotAvailable(to).message()), s)
        } else {
            let users = set_status(
                set_status(s.users, to, UserStatusView::Occupied(from)),
                from,
                UserStatusView::Occupied(to),
            );
            (
                ServerResponseView::CallRequestOk,
                ServerView {
                    users,
                    actions: s.actions + notify_actions(users, from, UserStatusView::Occupied(to))
                        + notify_actions(users, to, UserStatusView::Occupied(from)) + seq![
                        ServerActionView::Deliver {
                            to,
                            message: ServerMessageView::CallIncoming {
                                from_usr: from,
                                offer_sdp: offer,
                            },
                        },
                    ],
                    ..s
                },
            )
        },
    }
}

/// The first failure of the checks that an answer to a call goes through:
/// the callee needs a server-to-client channel, both users must exist and
/// both must be available.
pub open spec fn call_answer_error(s: ServerView, from: Seq<char>, to: Seq<char>) -> Option<
    Seq<char>,
> {
    if !has_stream(s.users, to) {
        Some(ServerErrorView::UserDoesNotExist(to).message())
    } else {
        match (find_user(s.users, from), find_user(s.users, to)) {
            (None, _) => Some(not_found(from)),
            (_, None) => Some(not_found(to)),
            (Some(f), Some(t)) => if f.status != UserStatusView::Available {
                Some(ServerErrorView::UserNotAvailable(from).message())
            } else if t.status != UserStatusView::Available {
                Some(ServerErrorView::UserNotAvailable(to).message())
            } else {
                None
            },
        }
    }
}

/// Call accept: when both users are available, each becomes occupied by
/// the other, every other connected user is told, and `to` receives the
/// answer; otherwise nothing changes.
pub open spec fn call_accept_step(
    s: ServerView,
    from: Seq<char>,
    to: Seq<char>,
    answer: crate::sdp::session_description::SessionDescriptionView,
) -> (ServerResponseView, ServerView) {
    match call_answer_error(s, from, to) {
        Some(m) => (ServerResponseView::CallAcceptError(m), s),
        None => {
            let users = set_status(
                set_status(s.users, to, UserStatusView::Occupied(from)),
                from,
                UserStatusView::Occupied(to),
            );
            (
                ServerResponseView::CallAcceptOk,
                ServerView {
                    users,
                    actions: s.actions + notify_actions(users, from, UserStatusView::Occupied(to))
                        + notify_actions(users, to, UserStatusView::Occupied(from)) + seq![
                        ServerActionView::Deliver {
                            to,
                            message: ServerMessageView::CallAccepted {
                                from_usr: from,
                                sdp_answer: answer,
                            },
                        },
                    ],
                    ..s
                },
            )
        },
    }
}

/// Call reject: when both users are available, no status changes, every
/// other connected user is told that both are available, and `to` learns
/// of the rejection; otherwise nothing changes.
pub open spec fn call_reject_step(s: ServerView, from: Seq<char>, to: Seq<char>) -> (
    ServerResponseView,
    ServerView,
) {
    match call_answer_error(s, from, to) {
        Some(m) => (ServerResponseView::CallRejectError(m), s),
        None => (
            ServerResponseView::CallRejectOk,
            ServerView {
                actions: s.actions + notify_actions(s.users, from, UserStatusView::Available)
                    + notify_actions(s.users, to, UserStatusView::Available) + seq![
                    ServerActionView::Deliver { to, message: ServerMessageView::CallRejected },
                ],
                ..s
            },
        ),
    }
}

/// Hang up: an occupied user becomes available and every other connected
/// user is told; the peer keeps its status.
pub open spec fn call_hangup_step(s: ServerView, name: Seq<char>) -> (ServerResponseView, ServerView) {
    match find_user(s.users, name) {
        None => (ServerResponseView::CallHangUpError("User does not exist"@), s),
        Some(u) => if !(u.status is Occupied) {
            (ServerResponseView::CallHangUpError("Unexpected user status"@), s)
        } else {
            let users = set_status(s.users, name, UserStatusView::Available);
            (
                ServerResponseView::CallHangUpOk,
                ServerView {
                    users,
                    actions: s.actions + notify_actions(users, name, UserStatusView::Available),
                    ..s
                },
            )
        },
    }
}

/// Disconnection: the user of the connection, if any, goes offline, every
/// other connected user is told, and the connection forgets it.
pub open spec fn make_user_offline_step(s: ServerView) -> (Result<(), ServerErrorView>, ServerView) {
    match s.username {
        None => (Ok(()), s),
        Some(n) => if !has_user(s.users, n) {
            (Err(ServerErrorView::UserNotAvailable(n)), s)
        } else {
            let users = set_status(s.users, n, UserStatusView::Offline);
            (
                Ok(()),
                ServerView {
                    users,
                    username: None,
                    actions: s.actions + notify_actions(users, n, UserStatusView::Offline),
                    ..s
                },
            )
        },
    }
}

impl OperatingServer {
    /// The table of users has no repeated name.
    pub open spec fn wf(&self) -> bool {
        unique_names(self@.users)
    }

    /// A server over `users`, where a later user replaces an earlier one
    /// of the same name; no user is logged in and no action is queued.
    pub fn new(users: Vec<UserData>, server_client_socket_address: String) -> (r: Self)
        ensures
            r.wf(),
            r@ == (ServerView {
                users: upsert_all(Seq::empty(), users_view(users@)),
                server_client_socket_address: server_client_socket_address@,
                username: None,
                actions: Seq::empty(),
            }),
    {
        let mut server = OperatingServer {
            users: Vec::new(),
            server_client_socket_address,
            username: None,
            actions: Vec::new(),
        };
        let ghost list = users_view(users@);
        let mut rest = users;
        let mut done: Vec<UserData> = Vec::new();
        proof {
            assert(server@.users =~= Seq::<UserDataView>::empty());
            assert(server@.actions =~= Seq::<ServerActionView>::empty());
        }
        while rest.len() > 0
            invariant
                server.wf(),
                list == users_view(done@) + users_view(rest@),
                server@ == (ServerView {
                    users: upsert_all(Seq::empty(), users_view(done@)),
                    server_client_socket_address: server_client_socket_address@,
                    username: None,
                    actions: Seq::empty(),
                }),
            decreases rest.len(),
        {
            let u = rest.remove(0);
            let ghost before = done@;
            let d = u.duplicate();
            done.push(d);
            proof {
                assert(users_view(done@).drop_last() =~= users_view(before));
                assert(users_view(done@).last() == u@);
                assert(list =~= users_view(done@) + users_view(rest@));
            }
            server.insert_user(u);
        }
        proof {
            assert(users_view(rest@) =~= Seq::<UserDataView>::empty());
            assert(list =~= users_view(done@));
        }
        server
    }

    /// Adds a user, replacing one of the same name.
    pub fn insert_user(&mut self, data: UserData)
        requires
            old(self).wf(),
        ensures
            final(self).wf(),
            final(self)@ == (ServerView { users: upsert(old(self)@.users, data@), ..old(self)@ }),
    {
        upsert_user(&mut self.users, data);
    }

    /// Sets the status of the user at index `i`.
    fn set_status_at(&mut self, i: usize, status: UserStatus)
        requires
            old(self).wf(),
            i < old(self).users@.len(),
        ensures
            final(self).wf(),
            final(self)@ == (ServerView {
                users: set_status(old(self)@.users, old(self)@.users[i as int].username, status@),
                ..old(self)@
            }),
    {
        let ghost v0 = self@.users;
        let ghost name = v0[i as int].username;
        let mut u = self.users[i].duplicate();
        u.update_status(status);
        self.users.set(i, u);
        proof {
            let t = set_status(v0, name, self.users@[i as int]@.status);
            assert forall|k: int| 0 <= k < v0.len() implies #[trigger] self@.users[k] == t[k] by {
                if k != i {
                    assert(v0[k].username != v0[i as int].username);
                }
            }
            assert(self@.users =~= t);
            lemma_set_status_names(v0, name, self.users@[i as int]@.status);
        }
    }

    /// Queues a status update of `name` for every other user with a
    /// server-to-client channel.
    fn push_notifications(&mut self, name: &String, status: &UserStatus)
        ensures
            final(self)@ == (ServerView {
                actions: old(self)@.actions + notify_actions(old(self)@.users, name@, status@),
                ..old(self)@
            }),
    {
        let ghost s0 = self@;
        let mut i: usize = 0;
        while i < self.users.len()
            invariant
                i <= self.users@.len(),
                self@.users == s0.users,
                self@.server_client_socket_address == s0.server_client_socket_address,
                self@.username == s0.username,
                self@.actions == s0.actions + notify_actions(
                    s0.users.subrange(0, i as int),
                    name@,
                    status@,
                ),
            decreases self.users@.len() - i,
        {
            proof {
                assert(s0.users.subrange(0, i + 1).drop_last() =~= s0.users.subrange(0, i as int));
                assert(s0.users.subrange(0, i + 1).last() == self.users@[i as int]@);
            }
            if !(self.users[i].username == *name) && self.users[i].has_server_client_stream {
                let to = self.users[i].username.clone();
                let a = ServerAction::Deliver {
                    to,
                    message: ServerMessage::UserStatusUpdate(name.clone(), status.duplicate()),
                };
                let ghost before = self.actions@;
                self.actions.push(a);
                proof {
                    assert(actions_view(self.actions@) =~= actions_view(before).push(a@));
                }
            }
            i = i + 1;
        }
        proof {
            assert(s0.users.subrange(0, i as int) =~= s0.users);
        }
    }

    /// The names and statuses of every user but `own_username`, in table
    /// order.
    pub fn get_clients_for_user(&self, own_username: String) -> (r: Vec<(String, UserStatus)>)
        ensures
            clients_view(r@) == clients_of(self@.users, own_username@),
    {
        let ghost v = self@.users;
        let mut out: Vec<(String, UserStatus)> = Vec::new();
        let mut i: usize = 0;
        while i < self.users.len()
            invariant
                i <= self.users@.len(),
                v == self@.users,
                clients_view(out@) == clients_of(v.subrange(0, i as int), own_username@),
            decreases self.users@.len() - i,
        {
            proof {
                assert(v.subrange(0, i + 1).drop_last() =~= v.subrange(0, i as int));
                assert(v.subrange(0, i + 1).last() == self.users@[i as int]@);
            }
            if !(self.users[i].username == own_username) {
                let ghost before = out@;
                out.push((self.users[i].username.clone(), self.users[i].status.duplicate()));
                proof {
                    assert(clients_view(out@) =~= clients_view(before).push(
                        (self.users@[i as int]@.username, self.users@[i as int]@.status),
                    ));
                }
            }
            i = i + 1;
        }
        proof {
            assert(v.subrange(0, i as int) =~= v);
        }
        out
    }

    /// Handles a login request (see [`login_step`]). Login changes no
    /// connection count: the server counts each connection once, when
    /// `ConnectionCounter::accept_connection` lets it in, and gives the place
    /// back when the session ends (`ConnectionCounter::release`).
    pub fn login_user(&mut self, username: String, password: String) -> (r: ServerResponse)
        requires
            old(self).wf(),
        ensures
            final(self).wf(),
            r@ == login_step(old(self)@, username@, password@).0,
            final(self)@ == login_step(old(self)@, username@, password@).1,
    {
        let ghost s0 = self@;
        let i = match find_index(&self.users, &username) {
            Some(i) => i,
            None => {
                return ServerResponse::LoginError(
                    String::from_str("User ").concat(username.as_str()).concat(" not found"),
                );
            },
        };
        proof {
            lemma_find_user_at(s0.users, i as int);
        }
        if !(self.users[i].password == password) {
            return ServerResponse::LoginError(String::from_str("Wrong password. Try again"));
        }
        match self.users[i].status {
            UserStatus::Offline => {},
            _ => {
                return ServerResponse::LoginError(String::from_str("User already logged in"));
            },
        }
        self.set_status_at(i, UserStatus::Available);
        self.username = Some(username.clone());
        self.push_notifications(&username, &UserStatus::Available);
        let clients = self.get_clients_for_user(username.clone());
        let r = ServerResponse::LoginOk(
            username,
            self.server_client_socket_address.clone(),
            clients,
        );
        proof {
            assert(self@ =~= login_step(s0, username@, password@).1);
        }
        r
    }

    /// Handles a signup request (see [`signup_step`]).
    pub fn signup_user(&mut self, username: String, password: String) -> (r: ServerResponse)
        requires
            old(self).wf(),
        ensures
            final(self).wf(),
            r@ == signup_step(old(self)@, username@, password@).0,
            final(self)@ == signup_step(old(self)@, username@, password@).1,
    {
        let ghost s0 = self@;
        if validate_string(username.clone()).is_err() {
            return ServerResponse::SignupError(String::from_str("Invalid username"));
        }
        if validate_string(password.clone()).is_err() {
            return ServerResponse::SignupError(String::from_str("Invalid password"));
        }
        if let Some(i) = find_index(&self.users, &username) {
            proof {
                assert(s0.users[i as int].username == username@);
            }
            return ServerResponse::SignupError(
                String::from_str("User ").concat(username.as_str()).concat(" already exists"),
            );
        }
        let data = UserData::new(username.clone(), password.clone(), UserStatus::Offline);
        self.users.push(data);
        proof {
            let t = s0.users.push(self.users@.last()@);
            assert(self@.users =~= t);
            assert forall|a: int, b: int|
                0 <= a < t.len() && 0 <= b < t.len() && a != b implies (#[trigger] t[a]).username
                != (#[trigger] t[b]).username by {
                if a < s0.users.len() && b < s0.users.len() {
                } else if a < s0.users.len() {
                    assert(t[a] == s0.users[a]);
                } else {
                    assert(t[b] == s0.users[b]);
                }
            }
        }
        self.push_notifications(&username, &UserStatus::Offline);
        let ghost before = self.actions@;
        let a = ServerAction::PersistUser { username, password };
        self.actions.push(a);
        proof {
            assert(actions_view(self.actions@) =~= actions_view(before).push(a@));
            assert(self@ =~= signup_step(s0, a@->username, a@->password).1);
        }
        ServerResponse::SignupOk
    }

    /// Handles a logout request (see [`logout_step`]).
    pub fn logout_user(&mut self, username: String) -> (r: ServerResponse)
        requires
            old(self).wf(),
        ensures
            final(self).wf(),
            r@ == logout_step(old(self)@, username@).0,
            final(self)@ == logout_step(old(self)@, username@).1,
    {
        let ghost s0 = self@;
        let i = match find_index(&self.users, &username) {
            Some(i) => i,
            None => {
                return ServerResponse::LogoutError(
                    String::from_str("User ").concat(username.as_str()).concat(" not found"),
                );
            },
        };
        proof {
            lemma_find_user_at(s0.users, i as int);
        }
        let has_stream = self.users[i].has_server_client_stream;
        self.set_status_at(i, UserStatus::Offline);
        if !has_stream {
            return ServerResponse::Error(String::from_str("User not found"));
        }
        let ghost before = self.actions@;
        let a = ServerAction::CloseStream(username.clone());
        self.actions.push(a);
        proof {
            assert(actions_view(self.actions@) =~= actions_view(before).push(a@));
        }
        self.username = None;
        self.push_notifications(&username, &UserStatus::Offline);
        proof {
            assert(self@ =~= logout_step(s0, username@).1);
        }
        ServerResponse::LogoutOk
    }

    /// Handles a call request from `from_usr` to `to_usr` (see
    /// [`call_request_step`]).
    pub fn call_request(
        &mut self,
        from_usr: String,
        to_usr: String,
        offer_sdp: SessionDescriptionProtocol,
    ) -> (r: ServerResponse)
        requires
            old(self).wf(),
        ensures
            final(self).wf(),
            r@ == call_request_step(old(self)@, from_usr@, to_usr@, offer_sdp@).0,
            final(self)@ == call_request_step(old(self)@, from_usr@, to_usr@, offer_sdp@).1,
    {
        let ghost s0 = self@;
        let fi = match find_index(&self.users, &from_usr) {
            Some(i) => i,
            None => {
                return ServerResponse::Error(
                    String::from_str("User ").concat(from_usr.as_str()).concat(" not found"),
                );
            },
        };
        let ti = match find_index(&self.users, &to_usr) {
            Some(i) => i,
            None => {
                return ServerResponse::CallRequestError(
                    ServerError::UserDoesNotExist(to_usr).to_string(),
                );
            },
        };
        proof {
            lemma_find_user_at(s0.users, fi as int);
            lemma_find_user_at(s0.users, ti as int);
        }
        if !self.users[ti].has_server_client_stream {
            return ServerResponse::CallRequestError(
                ServerError::UserDoesNotExist(to_usr).to_string(),
            );
        }
        if !self.users[fi].status.is_available() {
            return ServerResponse::Error(ServerError::UserNotAvailable(from_usr).to_string());
        }
        if !self.users[ti].status.is_available() {
            return ServerResponse::Error(ServerError::UserNotAvailable(to_usr).to_string());
        }
        self.set_status_at(ti, UserStatus::Occupied(from_usr.clone()));
        proof {
            lemma_set_status_names(s0.users, to_usr@, UserStatusView::Occupied(from_usr@));
        }
        self.set_status_at(fi, UserStatus::Occupied(to_usr.clone()));
        self.push_notifications(&from_usr, &UserStatus::Occupied(to_usr.clone()));
        self.push_notifications(&to_usr, &UserStatus::Occupied(from_usr.clone()));
        let ghost before = self.actions@;
        let a = ServerAction::Deliver {
            to: to_usr,
            message: ServerMessage::CallIncoming { from_usr, offer_sdp },
        };
        self.actions.push(a);
        proof {
            assert(actions_view(self.actions@) =~= actions_view(before).push(a@));
            assert(self@ =~= call_request_step(s0, from_usr@, to_usr@, offer_sdp@).1);
        }
        ServerResponse::CallRequestOk
    }

    /// The first failed check of an answer to a call, as a message (see
    /// [`call_answer_error`]), with the indices of both users when all pass.
    fn check_call_answer(&self, from_usr: &String, to_usr: &String) -> (r: Result<
        (usize, usize),
        String,
    >)
        requires
            self.wf(),
        ensures
            match r {
                Ok((fi, ti)) => call_answer_error(self@, from_usr@, to_usr@) is None && fi
                    < self.users@.len() && ti < self.users@.len() && self@.users[fi as int].username
                    == from_usr@ && self@.users[ti as int].username == to_usr@,
                Err(m) => call_answer_error(self@, from_usr@, to_usr@) == Some(m@),
            },
    {
        let ghost s0 = self@;
        let stream_i = find_index(&self.users, to_usr);
        match stream_i {
            Some(i) => {
                proof {
                    lemma_find_user_at(s0.users, i as int);
                }
                if !self.users[i].has_server_client_stream {
                    return Err(ServerError::UserDoesNotExist(to_usr.clone()).to_string());
                }
            },
            None => {
                return Err(ServerError::UserDoesNotExist(to_usr.clone()).to_string());
            },
        }
        let fi = match find_index(&self.users, from_usr) {
            Some(i) => i,
            None => {
                return Err(String::from_str("User ").concat(from_usr.as_str()).concat(" not found"));
            },
        };
        let ti = match find_index(&self.users, to_usr) {
            Some(i) => i,
            None => {
                return Err(String::from_str("User ").concat(to_usr.as_str()).concat(" not found"));
            },
        };
        proof {
            lemma_find_user_at(s0.users, fi as int);
            lemma_find_user_at(s0.users, ti as int);
        }
        if !self.users[fi].status.is_available() {
            return Err(ServerError::UserNotAvailable(from_usr.clone()).to_string());
        }
        if !self.users[ti].status.is_available() {
            return Err(ServerError::UserNotAvailable(to_usr.clone()).to_string());
        }
        Ok((fi, ti))
    }

    /// Handles the acceptance by `from_usr` of a call from `to_usr` (see
    /// [`call_accept_step`]).
    pub fn call_accept(
        &mut self,
        from_usr: String,
        to_usr: String,
        sdp_answer: SessionDescriptionProtocol,
    ) -> (r: ServerResponse)
        requires
            old(self).wf(),
        ensures
            final(self).wf(),
            r@ == call_accept_step(old(self)@, from_usr@, to_usr@, sdp_answer@).0,
            final(self)@ == call_accept_step(old(self)@, from_usr@, to_usr@, sdp_answer@).1,
    {
        let ghost s0 = self@;
        let (fi, ti) = match self.check_call_answer(&from_usr, &to_usr) {
            Err(m) => {
                return ServerResponse::CallAcceptError(m);
            },
            Ok(p) => p,
        };
        self.set_status_at(ti, UserStatus::Occupied(from_usr.clone()));
        proof {
            lemma_set_status_names(s0.users, to_usr@, UserStatusView::Occupied(from_usr@));
        }
        self.set_status_at(fi, UserStatus::Occupied(to_usr.clone()));
        self.push_notifications(&from_usr, &UserStatus::Occupied(to_usr.clone()));
        self.push_notifications(&to_usr, &UserStatus::Occupied(from_usr.clone()));
        let ghost before = self.actions@;
        let a = ServerAction::Deliver {
            to: to_usr,
            message: ServerMessage::CallAccepted { from_usr, sdp_answer },
        };
        self.actions.push(a);
        proof {
            assert(actions_view(self.actions@) =~= actions_view(before).push(a@));
            assert(self@ =~= call_accept_step(s0, from_usr@, a@->to, sdp_answer@).1);
        }
        ServerResponse::CallAcceptOk
    }

    /// Handles the rejection by `from_usr` of a call from `to_usr` (see
    /// [`call_reject_step`]).
    pub fn call_reject(&mut self, from_usr: String, to_usr: String) -> (r: ServerResponse)
        requires
            old(self).wf(),
        ensures
            final(self).wf(),
            r@ == call_reject_step(old(self)@, from_usr@, to_usr@).0,
            final(self)@ == call_reject_step(old(self)@, from_usr@, to_usr@).1,
    {
        let ghost s0 = self@;
        match self.check_call_answer(&from_usr, &to_usr) {
            Err(m) => {
                return ServerResponse::CallRejectError(m);
            },
            Ok(_) => {},
        }
        self.push_notifications(&from_usr, &UserStatus::Available);
        self.push_notifications(&to_usr, &UserStatus::Available);
        let ghost before = self.actions@;
        let a = ServerAction::Deliver { to: to_usr, message: ServerMessage::CallRejected };
        self.actions.push(a);
        proof {
            assert(actions_view(self.actions@) =~= actions_view(before).push(a@));
            assert(self@ =~= call_reject_step(s0, from_usr@, a@->to).1);
        }
        ServerResponse::CallRejectOk
    }

    /// Handles a hang up by `user` (see [`call_hangup_step`]).
    pub fn call_hangup(&mut self, user: String) -> (r: ServerResponse)
        requires
            old(self).wf(),
        ensures
            final(self).wf(),
            r@ == call_hangup_step(old(self)@, user@).0,
            final(self)@ == call_hangup_step(old(self)@, user@).1,
    {
        let ghost s0 = self@;
        let i = match find_index(&self.users, &user) {
            Some(i) => i,
            None => {
                return ServerResponse::CallHangUpError(String::from_str("User does not exist"));
            },
        };
        proof {
            lemma_find_user_at(s0.users, i as int);
        }
        match self.users[i].status {
            UserStatus::Occupied(_) => {},
            _ => {
                return ServerResponse::CallHangUpError(String::from_str("Unexpected user status"));
            },
        }
        self.set_status_at(i, UserStatus::Available);
        self.push_notifications(&user, &UserStatus::Available);
        proof {
            assert(self@ =~= call_hangup_step(s0, user@).1);
        }
        ServerResponse::CallHangUpOk
    }

    /// Handles the disconnection of this connection's client (see
    /// [`make_user_offline_step`]).
    pub fn make_user_offline(&mut self) -> (r: Result<(), ServerError>)
        requires
            old(self).wf(),
        ensures
            final(self).wf(),
            match r {
                Ok(()) => make_user_offline_step(old(self)@).0 == Ok::<(), ServerErrorView>(()),
                Err(e) => make_user_offline_step(old(self)@).0 == Err::<(), ServerErrorView>(e@),
            },
            final(self)@ == make_user_offline_step(old(self)@).1,
    {
        let ghost s0 = self@;
        let name = match &self.username {
            Some(n) => n.clone(),
            None => {
                return Ok(());
            },
        };
        let i = match find_index(&self.users, &name) {
            Some(i) => i,
            None => {
                return Err(ServerError::UserNotAvailable(name));
            },
        };
        self.set_status_at(i, UserStatus::Offline);
        self.push_notifications(&name, &UserStatus::Offline);
        self.username = None;
        proof {
            assert(self@ =~= make_user_offline_step(s0).1);
        }
        Ok(())
    }

    /// Records that the client of `username` opened its server-to-client
    /// channel; returns whether such a user exists.
    pub fn map_stream_to_user(&mut self, username: &String) -> (found: bool)
        requires
            old(self).wf(),
        ensures
            final(self).wf(),
            found == has_user(old(self)@.users, username@),
            found ==> final(self)@ == (ServerView {
                users: old(self)@.users.map_values(
                    |u: UserDataView|
                        if u.username == username@ {
                            UserDataView { has_server_client_stream: true, ..u }
                        } else {
                            u
                        },
                ),
                ..old(self)@
            }),
            !found ==> final(self)@ == old(self)@,
    {
        let ghost v0 = self@.users;
        match find_index(&self.users, username) {
            Some(i) => {
                let mut u = self.users[i].duplicate();
                u.update_server_client_stream();
                self.users.set(i, u);
                proof {
                    assert forall|k: int| 0 <= k < v0.len() implies #[trigger] self@.users[k]
                        == (if v0[k].username == username@ {
                        UserDataView { has_server_client_stream: true, ..v0[k] }
                    } else {
                        v0[k]
                    }) by {
                        if k != i {
                            assert(v0[k].username != v0[i as int].username);
                        }
                    }
                    assert(self@.users =~= v0.map_values(
                        |u: UserDataView|
                            if u.username == username@ {
                                UserDataView { has_server_client_stream: true, ..u }
                            } else {
                                u
                            },
                    ));
                    assert forall|a: int, b: int|
                        0 <= a < self@.users.len() && 0 <= b < self@.users.len() && a
                            != b implies (#[trigger] self@.users[a]).username != (
                    #[trigger] self@.users[b]).username by {
                        assert(self@.users[a].username == v0[a].username);
                        assert(self@.users[b].username == v0[b].username);
                    }
                }
                true
            },
            None => false,
        }
    }

    /// Hands the queued actions to the caller and clears the queue.
    pub fn take_actions(&mut self) -> (r: Vec<ServerAction>)
        ensures
            actions_view(r@) == old(self)@.actions,
            final(self)@ == (ServerView { actions: Seq::empty(), ..old(self)@ }),
    {
        let mut r: Vec<ServerAction> = Vec::new();
        std::mem::swap(&mut r, &mut self.actions);
        proof {
            assert(actions_view(self.actions@) =~= Seq::<ServerActionView>::empty());
        }
        r
    }
}

/// The answer to a signup whose credentials could not be stored:
/// `Error("Error loading user data: <error>")`.
pub fn persist_failed(e: &ServerError) -> (r: ServerResponse)
    ensures
        r@ == ServerResponseView::Error("Error loading user data: "@ + e@.message()),
{
    ServerResponse::Error(String::from_str("Error loading user data: ").concat(e.to_string().as_str()))
}

// ----- laws of the request handlers -----

/// After a status change, the changed user is found with its new status and
/// every other user is found as before.
pub proof fn lemma_find_after_set_status(
    users: Seq<UserDataView>,
    name: Seq<char>,
    st: UserStatusView,
    n: Seq<char>,
)
    requires
        unique_names(users),
    ensures
        find_user(set_status(users, name, st), n) == if n == name {
            match find_user(users, n) {
                Some(u) => Some(UserDataView { status: st, ..u }),
                None => None,
            }
        } else {
            find_user(users, n)
        },
{
    let t = set_status(users, name, st);
    lemma_set_status_names(users, name, st);
    if has_user(users, n) {
        let k = choose|k: int| 0 <= k < users.len() && (#[trigger] users[k]).username == n;
        lemma_find_user_at(users, k);
        lemma_find_user_at(t, k);
    }
}

/// A login succeeds exactly when the user exists, the password is its own
/// and it is offline; the user is then available and logged in on this
/// connection.
pub proof fn lemma_login_succeeds_when(s: ServerView, name: Seq<char>, pw: Seq<char>)
    requires
        unique_names(s.users),
    ensures
        login_step(s, name, pw).0 is LoginOk <==> (find_user(s.users, name) matches Some(u)
            && u.password == pw && u.status == UserStatusView::Offline),
        login_step(s, name, pw).0 is LoginOk ==> {
            &&& find_user(login_step(s, name, pw).1.users, name) matches Some(u)
            &&& u.status == UserStatusView::Available
            &&& u.password == pw
            &&& login_step(s, name, pw).1.username == Some(name)
        },
        !(login_step(s, name, pw).0 is LoginOk) ==> login_step(s, name, pw).1 == s,
{
    lemma_find_after_set_status(s.users, name, UserStatusView::Available, name);
}

/// A signed-up user exists offline with its password, cannot sign up a
/// second time, and can then log in with that password.
pub proof fn lemma_signup_then_login(s: ServerView, name: Seq<char>, pw: Seq<char>, pw2: Seq<char>)
    requires
        unique_names(s.users),
        signup_step(s, name, pw).0 is SignupOk,
    ensures
        find_user(signup_step(s, name, pw).1.users, name) == Some(
            UserDataView {
                username: name,
                password: pw,
                status: UserStatusView::Offline,
                has_server_client_stream: false,
            },
        ),
        unique_names(signup_step(s, name, pw).1.users),
        signup_step(signup_step(s, name, pw).1, name, pw2).0 == ServerResponseView::SignupError(
            "User "@ + name + " already exists"@,
        ) || !valid_credential(pw2),
        login_step(signup_step(s, name, pw).1, name, pw).0 is LoginOk,
{
    let t = signup_step(s, name, pw).1.users;
    let u = UserDataView {
        username: name,
        password: pw,
        status: UserStatusView::Offline,
        has_server_client_stream: false,
    };
    assert(!has_user(s.users, name));
    assert(t == s.users.push(u));
    assert forall|a: int, b: int|
        0 <= a < t.len() && 0 <= b < t.len() && a != b implies (#[trigger] t[a]).username != (
        #[trigger] t[b]).username by {
        if a < s.users.len() && b < s.users.len() {
        } else if a < s.users.len() {
            assert(t[a] == s.users[a]);
        } else {
            assert(t[b] == s.users[b]);
        }
    }
    assert(t[s.users.len() as int] == u);
    lemma_find_user_at(t, s.users.len() as int);
    assert(has_user(t, name));
}

/// A call request succeeds exactly when both users exist, the callee has a
/// server-to-client channel and both are available; each is then occupied
/// by the other, the actions already queued stay, and the last one queued
/// delivers to the callee the caller's name and the very offer it sent;
/// nothing changes otherwise.
pub proof fn lemma_call_request_pairs(
    s: ServerView,
    from: Seq<char>,
    to: Seq<char>,
    offer: crate::sdp::session_description::SessionDescriptionView,
)
    requires
        unique_names(s.users),
        from != to,
    ensures
        call_request_step(s, from, to, offer).0 is CallRequestOk <==> ((find_user(
            s.users,
            from,
        ) matches Some(f) && f.status == UserStatusView::Available) && (find_user(
            s.users,
            to,
        ) matches Some(t) && t.status == UserStatusView::Available && t.has_server_client_stream)),
        call_request_step(s, from, to, offer).0 is CallRequestOk ==> {
            let users = call_request_step(s, from, to, offer).1.users;
            &&& find_user(users, from) matches Some(f) && f.status == UserStatusView::Occupied(to)
            &&& find_user(users, to) matches Some(t) && t.status == UserStatusView::Occupied(from)
        },
        !(call_request_step(s, from, to, offer).0 is CallRequestOk) ==> call_request_step(
            s,
            from,
            to,
            offer,
        ).1 == s,
        call_request_step(s, from, to, offer).0 is CallRequestOk ==> {
            let actions = call_request_step(s, from, to, offer).1.actions;
            &&& actions.len() > s.actions.len()
            &&& actions.subrange(0, s.actions.len() as int) == s.actions
            &&& actions.last() == ServerActionView::Deliver {
                to,
                message: ServerMessageView::CallIncoming { from_usr: from, offer_sdp: offer },
            }
        },
{
    let u1 = set_status(s.users, to, UserStatusView::Occupied(from));
    lemma_set_status_names(s.users, to, UserStatusView::Occupied(from));
    lemma_find_after_set_status(s.users, to, UserStatusView::Occupied(from), to);
    lemma_find_after_set_status(s.users, to, UserStatusView::Occupied(from), from);
    lemma_find_after_set_status(u1, from, UserStatusView::Occupied(to), to);
    lemma_find_after_set_status(u1, from, UserStatusView::Occupied(to), from);
}

/// A call is rejected only between two available users, and they stay
/// available: a reject changes no status.
pub proof fn lemma_call_reject_frees_both(s: ServerView, from: Seq<char>, to: Seq<char>)
    requires
        unique_names(s.users),
        call_reject_step(s, from, to).0 is CallRejectOk,
    ensures
        find_user(call_reject_step(s, from, to).1.users, from) matches Some(f) && f.status
            == UserStatusView::Available,
        find_user(call_reject_step(s, from, to).1.users, to) matches Some(t) && t.status
            == UserStatusView::Available,
        call_reject_step(s, from, to).1.users == s.users,
{
}

/// A call is accepted exactly when the callee has a server-to-client
/// channel and both users exist and are available; each is then occupied
/// by the other, the actions already queued stay, and the last one queued
/// delivers to `to` the accepting user's name and the very answer it sent;
/// nothing changes otherwise.
pub proof fn lemma_call_accept_pairs(
    s: ServerView,
    from: Seq<char>,
    to: Seq<char>,
    answer: crate::sdp::session_description::SessionDescriptionView,
)
    requires
        unique_names(s.users),
        from != to,
    ensures
        call_accept_step(s, from, to, answer).0 is CallAcceptOk <==> ((find_user(
            s.users,
            from,
        ) matches Some(f) && f.status == UserStatusView::Available) && (find_user(
            s.users,
            to,
        ) matches Some(t) && t.status == UserStatusView::Available && t.has_server_client_stream)),
        call_accept_step(s, from, to, answer).0 is CallAcceptOk ==> {
            let users = call_accept_step(s, from, to, answer).1.users;
            &&& find_user(users, from) matches Some(f) && f.status == UserStatusView::Occupied(to)
            &&& find_user(users, to) matches Some(t) && t.status == UserStatusView::Occupied(from)
        },
        !(call_accept_step(s, from, to, answer).0 is CallAcceptOk) ==> call_accept_step(
            s,
            from,
            to,
            answer,
        ).1 == s,
        call_accept_step(s, from, to, answer).0 is CallAcceptOk ==> {
            let actions = call_accept_step(s, from, to, answer).1.actions;
            &&& actions.len() > s.actions.len()
            &&& actions.subrange(0, s.actions.len() as int) == s.actions
            &&& actions.last() == ServerActionView::Deliver {
                to,
                message: ServerMessageView::CallAccepted { from_usr: from, sdp_answer: answer },
            }
        },
{
    let u1 = set_status(s.users, to, UserStatusView::Occupied(from));
    lemma_set_status_names(s.users, to, UserStatusView::Occupied(from));
    lemma_find_after_set_status(s.users, to, UserStatusView::Occupied(from), to);
    lemma_find_after_set_status(s.users, to, UserStatusView::Occupied(from), from);
    lemma_find_after_set_status(u1, from, UserStatusView::Occupied(to), to);
    lemma_find_after_set_status(u1, from, UserStatusView::Occupied(to), from);
}

/// Hanging up makes the user available again and leaves every other user,
/// its peer included, as it was.
pub proof fn lemma_call_hangup_frees_only_caller(s: ServerView, name: Seq<char>, other: Seq<char>)
    requires
        unique_names(s.users),
        call_hangup_step(s, name).0 is CallHangUpOk,
        other != name,
    ensures
        find_user(call_hangup_step(s, name).1.users, name) matches Some(u) && u.status
            == UserStatusView::Available,
        find_user(call_hangup_step(s, name).1.users, other) == find_user(s.users, other),
{
    lemma_find_after_set_status(s.users, name, UserStatusView::Available, name);
    lemma_find_after_set_status(s.users, name, UserStatusView::Available, other);
}

/// Logging out takes an existing user offline and leaves every other user
/// as it was.
pub proof fn lemma_logout_leaves_others(s: ServerView, name: Seq<char>, other: Seq<char>)
    requires
        unique_names(s.users),
        has_user(s.users, name),
        other != name,
    ensures
        find_user(logout_step(s, name).1.users, name) matches Some(u) && u.status
            == UserStatusView::Offline,
        find_user(logout_step(s, name).1.users, other) == find_user(s.users, other),
{
    lemma_find_after_set_status(s.users, name, UserStatusView::Offline, name);
    lemma_find_after_set_status(s.users, name, UserStatusView::Offline, other);
}
} // verus!

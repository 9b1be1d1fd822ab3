//! What the central server decides on plain values: the users read from the
//! users file and the address it announces.
use crate::number::{dec, push_dec};
use crate::server::error::{ServerError, ServerErrorView};
use crate::server::operating_server::{unique_names, upsert, upsert_user, users_view};
use crate::server::user::{UserData, UserDataView, UserStatus, UserStatusView};
use crate::text::{chars_of, find_in, split_by, split_once, split_spans, spans_chars, string_of};
use if_addrs::IfAddr;
use vstd::prelude::*;

verus! {

/// The `k`-th line of a file cut at its newlines, as `BufRead::lines`
/// gives it: a line ended by a newline loses a `\r` before it.
pub open spec fn file_line(pieces: Seq<Seq<char>>, k: int) -> Seq<char> {
    let p = pieces[k];
    if k + 1 < pieces.len() && p.len() > 0 && p.last() == '\r' {
        p.drop_last()
    } else {
        p
    }
}

/// The user a line of the users file describes: the text before its first
/// `:` is the name and the rest the password; a line without `:` describes
/// none.
pub open spec fn line_user(line: Seq<char>) -> Option<UserDataView> {
    match split_once(line, ':') {
        Some((name, password)) => Some(
            UserDataView {
                username: name,
                password,
                status: UserStatusView::Offline,
                has_server_client_stream: false,
            },
        ),
        None => None,
    }
}

/// The users of the first `k` lines, a later line replacing an earlier
/// user of the same name.
pub open spec fn users_of_lines(pieces: Seq<Seq<char>>, k: nat) -> Seq<UserDataView>
    decreases k,
{
    if k == 0 {
        Seq::empty()
    } else {
        let prev = users_of_lines(pieces, (k - 1) as nat);
        match line_user(file_line(pieces, k - 1)) {
            Some(u) => upsert(prev, u),
            None => prev,
        }
    }
}

/// The users that the text of a users file describes, all offline.
pub open spec fn users_of_file(content: Seq<char>) -> Seq<UserDataView> {
    let pieces = split_by(content, '\n');
    users_of_lines(pieces, pieces.len())
}

/// The user that `chars[start..end]`, a line of the users file, describes.
fn user_of_line(chars: &[char], start: usize, end: usize) -> (r: Option<UserData>)
    requires
        start <= end <= chars@.len(),
    ensures
        match r {
            Some(d) => line_user(chars@.subrange(start as int, end as int)) == Some(d@),
            None => line_user(chars@.subrange(start as int, end as int)) is None,
        },
{
    match find_in(chars, start, end, ':') {
        Some(c) => {
            let name = string_of(chars, start, c);
            let password = string_of(chars, c + 1, end);
            proof {
                let line = chars@.subrange(start as int, end as int);
                assert(line.subrange(0, c - start) =~= chars@.subrange(start as int, c as int));
                assert(line.subrange(c - start + 1, line.len() as int) =~= chars@.subrange(
                    c + 1,
                    end as int,
                ));
            }
            Some(
                UserData {
                    username: name,
                    password,
                    status: UserStatus::Offline,
                    has_server_client_stream: false,
                },
            )
        },
        None => None,
    }
}

/// Reads the users of a users file: one `name:password` per line; lines
/// without `:` are skipped and a later line replaces an earlier user of the
/// same name. Every user starts offline.
pub fn load_users_from_text(content: &str) -> (r: Vec<UserData>)
    ensures
        unique_names(users_view(r@)),
        users_view(r@) == users_of_file(content@),
{
    let chars = chars_of(content);
    let spans = split_spans(chars.as_slice(), 0, chars.len(), '\n');
    let ghost pieces = split_by(content@, '\n');
    proof {
        assert(chars@.subrange(0, chars@.len() as int) =~= content@);
    }
    let mut users: Vec<UserData> = Vec::new();
    let mut k: usize = 0;
    proof {
        assert(users_view(users@) =~= Seq::<UserDataView>::empty());
    }
    while k < spans.len()
        invariant
            k <= spans@.len(),
            spans_chars(chars@, spans@) == pieces,
            forall|i: int|
                0 <= i < spans@.len() ==> (#[trigger] spans@[i]).start <= spans@[i].end
                    <= chars@.len(),
            unique_names(users_view(users@)),
            users_view(users@) == users_of_lines(pieces, k as nat),
        decreases spans@.len() - k,
    {
        let start = spans[k].start;
        let mut end = spans[k].end;
        assert(pieces[k as int] == chars@.subrange(start as int, end as int));
        if k + 1 < spans.len() && end > start && chars[end - 1] == '\r' {
            end = end - 1;
            assert(chars@.subrange(start as int, end as int) =~= pieces[k as int].drop_last());
        }
        assert(chars@.subrange(start as int, end as int) == file_line(pieces, k as int));
        match user_of_line(chars.as_slice(), start, end) {
            Some(data) => {
                upsert_user(&mut users, data);
            },
            None => {},
        }
        k = k + 1;
    }
    users
}

/// What the server knows of one network interface.
pub struct InterfaceAddress {
    pub is_loopback: bool,
    /// The IPv4 address of the interface, if it has one.
    pub ipv4: Option<[u8; 4]>,
}

/// The dotted decimal text of an IPv4 address.
pub open spec fn ipv4_text(a: Seq<u8>) -> Seq<char> {
    dec(a[0] as nat) + "."@ + dec(a[1] as nat) + "."@ + dec(a[2] as nat) + "."@ + dec(a[3] as nat)
}

/// Whether an interface is a usable one: not the loopback, with an IPv4
/// address.
pub open spec fn usable_interface(i: InterfaceAddress) -> bool {
    !i.is_loopback && i.ipv4 is Some
}

/// The address the server announces among `interfaces`: that of the first
/// interface that is not the loopback and has an IPv4 address, or
/// `IPNotFound` with an empty text when there is none.
pub fn server_ip_of(interfaces: &Vec<InterfaceAddress>) -> (r: Result<String, ServerError>)
    ensures
        match r {
            Ok(ip) => exists|k: int|
                0 <= k < interfaces@.len() && usable_interface(#[trigger] interfaces@[k])
                    && (forall|j: int| 0 <= j < k ==> !usable_interface(#[trigger] interfaces@[j]))
                    && ip@ == ipv4_text(interfaces@[k].ipv4->0@),
            Err(e) => e@ == ServerErrorView::IPNotFound(Seq::empty()) && forall|j: int|
                0 <= j < interfaces@.len() ==> !usable_interface(#[trigger] interfaces@[j]),
        },
{
    let mut i: usize = 0;
    while i < interfaces.len()
        invariant
            i <= interfaces@.len(),
            forall|j: int| 0 <= j < i ==> !usable_interface(#[trigger] interfaces@[j]),
        decreases interfaces@.len() - i,
    {
        if !interfaces[i].is_loopback {
            match &interfaces[i].ipv4 {
                Some(a) => {
                    let mut out = String::new();
                    push_dec(&mut out, a[0] as u64);
                    out.append(".");
                    push_dec(&mut out, a[1] as u64);
                    out.append(".");
                    push_dec(&mut out, a[2] as u64);
                    out.append(".");
                    push_dec(&mut out, a[3] as u64);
                    proof {
                        reveal_strlit(".");
                        assert(out@ =~= ipv4_text(a@));
                        assert(usable_interface(interfaces@[i as int]));
                    }
                    return Ok(out);
                },
                None => {},
            }
        }
        i = i + 1;
    }
    Err(ServerError::IPNotFound(String::new()))
}

/// Calls `if_addrs::get_if_addrs` and keeps, of each interface, whether it
/// is a loopback one and its IPv4 address if it has one; a failure gives
/// the error's text. Nothing is claimed of the list: it depends on the
/// machine.
#[verifier::external_body]
fn local_interfaces() -> (r: Result<Vec<InterfaceAddress>, String>) {
    match if_addrs::get_if_addrs() {
        Ok(list) => Ok(list.iter().map(|i| InterfaceAddress {
            is_loopback: i.is_loopback(),
            ipv4: match &i.addr {
                IfAddr::V4(a) => Some(a.ip.octets()),
                IfAddr::V6(_) => None,
            },
        }).collect()),
        Err(e) => Err(e.to_string()),
    }
}

/// The address the server announces on this machine: the dotted IPv4
/// address of the first of its interfaces that is not the loopback and has
/// one (see [`server_ip_of`]); `IPNotFound` with an empty text when none
/// has; `MapError` when the interfaces cannot be listed.
pub fn get_server_ip() -> (r: Result<String, ServerError>)
    ensures
        match r {
            Ok(ip) => exists|a: Seq<u8>| a.len() == 4 && ip@ == ipv4_text(a),
            Err(e) => e@ == ServerErrorView::IPNotFound(Seq::empty()) || e is MapError,
        },
{
    match local_interfaces() {
        Ok(interfaces) => {
            let r = server_ip_of(&interfaces);
            proof {
                if r is Ok {
                    let ip = r->Ok_0;
                    let k = choose|k: int|
                        0 <= k < interfaces@.len() && usable_interface(#[trigger] interfaces@[k])
                            && (forall|j: int|
                            0 <= j < k ==> !usable_interface(#[trigger] interfaces@[j]))
                            && ip@ == ipv4_text(interfaces@[k].ipv4->0@);
                    assert(interfaces@[k].ipv4->0@.len() == 4);
                }
            }
            r
        },
        Err(e) => Err(ServerError::MapError(e)),
    }
}

} // verus!

//! Decisions of the report exchange that runs next to a media session:
//! the `Hello`/`Ready` handshake that opens it and the receiver that keeps
//! it alive while connectivity reports arrive. The sockets, threads and
//! clocks that drive them stay with the caller, which feeds each received
//! datagram (and the current time) in and carries out the returned action.
use crate::rtcp::error::RtcpError;
use crate::rtcp::rtcp_package::{rtcp_package_parse, RTCPPackage};
use crate::rtcp::rtcp_packet::{rtcp_packet_bytes, rtcp_packet_parse, RtcpPacket};
use crate::rtp::connection_status::ConnectionStatus;
use crate::wire::push_all;
use vstd::prelude::*;

verus! {

/// How often (in milliseconds) a connectivity report is sent.
pub const REPORT_PERIOD_MILLIS: u64 = 1000;

/// How long (in nanoseconds) the receiver waits for a report before a
/// silent socket counts as a failure.
pub const REPORT_RECEIVE_LIMIT_NANOS: i64 = 1_000_000_000;

/// Number of consecutive failures after which the receiver gives up.
pub const RETRY_LIMIT: usize = 5;

/// What one read of the report socket produced.
pub enum ReportEvent {
    /// A datagram with these bytes arrived.
    Datagram(Vec<u8>),
    /// The read failed or timed out.
    ReceiveError,
}

/// What the handshake asks its caller to do after a datagram.
#[derive(PartialEq, Eq, Debug, Clone, Copy, Structural)]
pub enum HandshakeAction {
    /// Send `Ready` to the peer and keep waiting.
    SendReady,
    /// Send `Ready` to the peer, mark the connection open and keep waiting.
    SendReadyAndOpen,
    /// The handshake is complete.
    Done,
    /// Nothing to do; keep waiting.
    Wait,
    /// The peer sent a message that does not belong in a handshake.
    Unexpected,
}

/// State of the `Hello`/`Ready` handshake: whether the peer's first
/// `Ready` has already been answered.
pub struct Handshake {
    pub ready: bool,
}

impl Handshake {
    /// A handshake that has not seen a `Ready` yet.
    pub fn new() -> (r: Self)
        ensures
            !r.ready,
    {
        Handshake { ready: false }
    }

    /// Reacts to one datagram from the peer: a `Hello` is answered with
    /// `Ready`; the first `Ready` is answered with `Ready` and opens the
    /// connection; the second `Ready` completes the handshake; any other
    /// known message is unexpected and unknown bytes are ignored.
    pub fn on_datagram(&mut self, data: &[u8]) -> (r: HandshakeAction)
        ensures
            r == handshake_action(old(self).ready, rtcp_packet_parse(data@)),
            final(self).ready == (old(self).ready || rtcp_packet_parse(data@) == Some(
                RtcpPacket::Ready,
            )),
    {
        match RtcpPacket::from_bytes(data) {
            Some(RtcpPacket::Hello) => HandshakeAction::SendReady,
            Some(RtcpPacket::Ready) => {
                if self.ready {
                    HandshakeAction::Done
                } else {
                    self.ready = true;
                    HandshakeAction::SendReadyAndOpen
                }
            },
            Some(_) => HandshakeAction::Unexpected,
            None => HandshakeAction::Wait,
        }
    }
}

/// The handshake's answer to a decoded datagram, given whether a `Ready`
/// was already seen.
pub open spec fn handshake_action(ready: bool, p: Option<RtcpPacket>) -> HandshakeAction {
    match p {
        Some(RtcpPacket::Hello) => HandshakeAction::SendReady,
        Some(RtcpPacket::Ready) => if ready {
            HandshakeAction::Done
        } else {
            HandshakeAction::SendReadyAndOpen
        },
        Some(_) => HandshakeAction::Unexpected,
        None => HandshakeAction::Wait,
    }
}

/// The handshake completes only on a `Ready` that follows an earlier
/// `Ready`, and it opens the connection only on the first one.
pub proof fn lemma_handshake_needs_two_ready(ready: bool, p: Option<RtcpPacket>)
    ensures
        handshake_action(ready, p) == HandshakeAction::Done <==> (ready && p == Some(
            RtcpPacket::Ready,
        )),
        handshake_action(ready, p) == HandshakeAction::SendReadyAndOpen <==> (!ready && p == Some(
            RtcpPacket::Ready,
        )),
{
}

/// Whether more than the receive limit has passed between `last` and `now`.
pub open spec fn report_overdue(now: i64, last: i64) -> bool {
    now - last > REPORT_RECEIVE_LIMIT_NANOS
}

/// The outcome of one read of the report socket: a connectivity report is
/// a success, a goodbye ends the session, another known message is
/// unexpected, and unknown bytes or a failed read only count as a failure
/// once the receive limit has passed since the last report.
pub open spec fn report_outcome(event_bytes: Option<Seq<u8>>, now: i64, last: i64) -> Result<
    (),
    RtcpError,
> {
    match event_bytes {
        Some(d) => match rtcp_packet_parse(d) {
            Some(RtcpPacket::ConnectivityReport) => Ok(()),
            Some(RtcpPacket::Goodbye) => Err(RtcpError::GoodbyeReceived),
            Some(_) => Err(RtcpError::UnexpectedMessage),
            None => if report_overdue(now, last) {
                Err(RtcpError::TimedOut)
            } else {
                Ok(())
            },
        },
        None => if report_overdue(now, last) {
            Err(RtcpError::TimedOut)
        } else {
            Ok(())
        },
    }
}

/// The bytes of an event, if it is a datagram.
pub open spec fn event_bytes(e: ReportEvent) -> Option<Seq<u8>> {
    match e {
        ReportEvent::Datagram(d) => Some(d@),
        ReportEvent::ReceiveError => None,
    }
}

/// Whether an event is a connectivity report.
pub open spec fn is_connectivity_report(e: ReportEvent) -> bool {
    event_bytes(e) matches Some(d) && rtcp_packet_parse(d) == Some(RtcpPacket::ConnectivityReport)
}

/// The retry counter after an outcome: reset by a success, pushed to the
/// limit by a goodbye, incremented by any other failure.
pub open spec fn next_retries(retries: int, outcome: Result<(), RtcpError>) -> int {
    match outcome {
        Ok(()) => 0,
        Err(RtcpError::GoodbyeReceived) => RETRY_LIMIT as int,
        Err(_) => retries + 1,
    }
}

/// The retry counter after a sequence of outcomes.
pub open spec fn retries_after(retries: int, outcomes: Seq<Result<(), RtcpError>>) -> int
    decreases outcomes.len(),
{
    if outcomes.len() == 0 {
        retries
    } else {
        next_retries(retries_after(retries, outcomes.drop_last()), outcomes.last())
    }
}

/// State of the report receiver: when the last connectivity report
/// arrived and how many failures happened since.
pub struct ReportReceiver {
    pub last_report_nanos: i64,
    pub retries: usize,
}

impl ReportReceiver {
    /// A receiver started at `now_nanos`, with no failure yet.
    pub fn new(now_nanos: i64) -> (r: Self)
        ensures
            r.last_report_nanos == now_nanos,
            r.retries == 0,
    {
        ReportReceiver { last_report_nanos: now_nanos, retries: 0 }
    }

    /// Whether the receiver keeps listening.
    pub fn is_running(&self) -> (r: bool)
        ensures
            r == (self.retries < RETRY_LIMIT),
    {
        self.retries < RETRY_LIMIT
    }

    /// Interprets one read of the report socket at time `now_nanos`; a
    /// connectivity report also records `now_nanos` as the time of the
    /// last report.
    pub fn try_receive_report(&mut self, event: &ReportEvent, now_nanos: i64) -> (r: Result<
        (),
        RtcpError,
    >)
        ensures
            r == report_outcome(event_bytes(*event), now_nanos, old(self).last_report_nanos),
            final(self).retries == old(self).retries,
            final(self).last_report_nanos == if is_connectivity_report(*event) {
                now_nanos
            } else {
                old(self).last_report_nanos
            },
    {
        let overdue = (now_nanos as i128) - (self.last_report_nanos as i128)
            > REPORT_RECEIVE_LIMIT_NANOS as i128;
        match event {
            ReportEvent::Datagram(d) => match RtcpPacket::from_bytes(d.as_slice()) {
                Some(RtcpPacket::ConnectivityReport) => {
                    self.last_report_nanos = now_nanos;
                    Ok(())
                },
                Some(RtcpPacket::Goodbye) => Err(RtcpError::GoodbyeReceived),
                Some(_) => Err(RtcpError::UnexpectedMessage),
                None => {
                    if overdue {
                        Err(RtcpError::TimedOut)
                    } else {
                        Ok(())
                    }
                },
            },
            ReportEvent::ReceiveError => {
                if overdue {
                    Err(RtcpError::TimedOut)
                } else {
                    Ok(())
                }
            },
        }
    }

    /// Counts an outcome against the retry budget.
    pub fn record(&mut self, outcome: &Result<(), RtcpError>)
        requires
            old(self).retries < RETRY_LIMIT,
        ensures
            final(self).retries == next_retries(old(self).retries as int, *outcome),
            final(self).last_report_nanos == old(self).last_report_nanos,
    {
        match outcome {
            Ok(()) => {
                self.retries = 0;
            },
            Err(RtcpError::GoodbyeReceived) => {
                self.retries = RETRY_LIMIT;
            },
            Err(_) => {
                self.retries = self.retries + 1;
            },
        }
    }

    /// One turn of the receiving loop: interprets the event and counts its
    /// outcome. Returns whether the receiver keeps listening; once it does
    /// not, the caller marks the connection closed.
    pub fn step(&mut self, event: &ReportEvent, now_nanos: i64) -> (running: bool)
        requires
            old(self).retries < RETRY_LIMIT,
        ensures
            final(self).retries == next_retries(
                old(self).retries as int,
                report_outcome(event_bytes(*event), now_nanos, old(self).last_report_nanos),
            ),
            final(self).last_report_nanos == if is_connectivity_report(*event) {
                now_nanos
            } else {
                old(self).last_report_nanos
            },
            running == (final(self).retries < RETRY_LIMIT),
    {
        let outcome = self.try_receive_report(event, now_nanos);
        self.record(&outcome);
        self.is_running()
    }
}

/// A goodbye from the peer stops the receiver at once, and a connectivity
/// report clears every earlier failure.
pub proof fn lemma_goodbye_stops_report_resets(retries: int)
    ensures
        next_retries(retries, Err(RtcpError::GoodbyeReceived)) >= RETRY_LIMIT,
        next_retries(retries, Ok(())) == 0,
{
}

/// Starting from no failures, a run of failures that are not goodbyes keeps
/// the receiver listening for fewer than `RETRY_LIMIT` of them and stops it
/// at exactly `RETRY_LIMIT`.
pub proof fn lemma_consecutive_failures_stop(outcomes: Seq<Result<(), RtcpError>>)
    requires
        forall|i: int|
            0 <= i < outcomes.len() ==> (#[trigger] outcomes[i]) is Err && outcomes[i]
                != Err::<(), RtcpError>(RtcpError::GoodbyeReceived),
    ensures
        retries_after(0, outcomes) == outcomes.len(),
        retries_after(0, outcomes) < RETRY_LIMIT <==> outcomes.len() < RETRY_LIMIT,
    decreases outcomes.len(),
{
    if outcomes.len() > 0 {
        let prefix = outcomes.drop_last();
        assert forall|i: int| 0 <= i < prefix.len() implies (#[trigger] prefix[i]) is Err
            && prefix[i] != Err::<(), RtcpError>(RtcpError::GoodbyeReceived) by {
            assert(prefix[i] == outcomes[i]);
        }
        lemma_consecutive_failures_stop(prefix);
        let last = outcomes.last();
        assert(last == outcomes[outcomes.len() - 1]);
        match last {
            Ok(()) => {},
            Err(e) => {
                assert(e != RtcpError::GoodbyeReceived);
            },
        }
    }
}

/// Receive limit (in nanoseconds) of the report-only exchange.
pub const PACKAGE_REPORT_RECEIVE_LIMIT_NANOS: i64 = 5_000_000_000;

/// Number of consecutive failures after which the report-only receiver
/// gives up.
pub const PACKAGE_RETRY_LIMIT: usize = 3;

/// The outcome of one read in the report-only exchange: a connectivity
/// report is a success, a goodbye ends the session, unknown bytes are a
/// failure, and a failed read only counts once the receive limit has
/// passed since the last report.
pub open spec fn package_report_outcome(event_bytes: Option<Seq<u8>>, now: i64, last: i64) -> Result<
    (),
    RtcpError,
> {
    match event_bytes {
        Some(d) => match rtcp_package_parse(d) {
            Some(RTCPPackage::ConnectivityReport) => Ok(()),
            Some(RTCPPackage::Goodbye) => Err(RtcpError::GoodbyeReceived),
            None => Err(RtcpError::TimedOut),
        },
        None => if now - last > PACKAGE_REPORT_RECEIVE_LIMIT_NANOS {
            Err(RtcpError::TimedOut)
        } else {
            Ok(())
        },
    }
}

/// What one turn of the report-only receiving loop at `now` does: the
/// outcome resets, exhausts or increments the retry counter, a
/// connectivity report records `now`, and the receiver keeps listening
/// while the counter is below the limit.
pub open spec fn package_turn(
    pre: PackageReportReceiver,
    post: PackageReportReceiver,
    event: ReportEvent,
    now: i64,
    running: bool,
) -> bool {
    &&& post.retries == match package_report_outcome(
        event_bytes(event),
        now,
        pre.last_report_nanos,
    ) {
        Ok(()) => 0,
        Err(RtcpError::GoodbyeReceived) => PACKAGE_RETRY_LIMIT as int,
        Err(_) => pre.retries + 1,
    }
    &&& post.last_report_nanos == if event_bytes(event) matches Some(d) && rtcp_package_parse(d)
        == Some(RTCPPackage::ConnectivityReport) {
        now
    } else {
        pre.last_report_nanos
    }
    &&& running == (post.retries < PACKAGE_RETRY_LIMIT)
}

/// State of the report-only receiver.
pub struct PackageReportReceiver {
    pub last_report_nanos: i64,
    pub retries: usize,
}

impl PackageReportReceiver {
    /// A receiver started at `now_nanos`, with no failure yet.
    pub fn new(now_nanos: i64) -> (r: Self)
        ensures
            r.last_report_nanos == now_nanos,
            r.retries == 0,
    {
        PackageReportReceiver { last_report_nanos: now_nanos, retries: 0 }
    }

    /// One turn of the receiving loop; returns whether it keeps listening.
    pub fn step(&mut self, event: &ReportEvent, now_nanos: i64) -> (running: bool)
        requires
            old(self).retries < PACKAGE_RETRY_LIMIT,
        ensures
            package_turn(*old(self), *final(self), *event, now_nanos, running),
    {
        let outcome: Result<(), RtcpError> = match event {
            ReportEvent::Datagram(d) => match RTCPPackage::from_bytes(d.as_slice()) {
                Some(RTCPPackage::ConnectivityReport) => {
                    self.last_report_nanos = now_nanos;
                    Ok(())
                },
                Some(RTCPPackage::Goodbye) => Err(RtcpError::GoodbyeReceived),
                None => Err(RtcpError::TimedOut),
            },
            ReportEvent::ReceiveError => {
                if (now_nanos as i128) - (self.last_report_nanos as i128)
                    > PACKAGE_REPORT_RECEIVE_LIMIT_NANOS as i128 {
                    Err(RtcpError::TimedOut)
                } else {
                    Ok(())
                }
            },
        };
        match outcome {
            Ok(()) => {
                self.retries = 0;
            },
            Err(RtcpError::GoodbyeReceived) => {
                self.retries = PACKAGE_RETRY_LIMIT;
            },
            Err(_) => {
                self.retries = self.retries + 1;
            },
        }
        self.retries < PACKAGE_RETRY_LIMIT
    }

    /// One turn of the receiving loop at the current time of the local
    /// clock: as `step` at whatever time the clock reads.
    pub fn step_now(&mut self, event: &ReportEvent) -> (running: bool)
        requires
            old(self).retries < PACKAGE_RETRY_LIMIT,
        ensures
            exists|now: i64| package_turn(*old(self), *final(self), *event, now, running),
    {
        let now = now_nanos();
        let running = self.step(event, now);
        proof {
            assert(package_turn(*old(self), *self, *event, now, running));
        }
        running
    }
}

/// What starting the exchange at `now` does: it fails with
/// `SocketConfigFailed` when the read timeout of the report socket could
/// not be set, and otherwise starts the receiver with no failure and `now`
/// as the time of the last report; the status and handshake are kept.
pub open spec fn start_turn(
    pre: RtcpReportHandler,
    post: RtcpReportHandler,
    read_timeout_set: bool,
    now: i64,
    r: Result<(), RtcpError>,
) -> bool {
    &&& read_timeout_set ==> r == Ok::<(), RtcpError>(()) && post.receiver.retries == 0
        && post.receiver.last_report_nanos == now
    &&& !read_timeout_set ==> r == Err::<(), RtcpError>(RtcpError::SocketConfigFailed)
        && post.receiver == pre.receiver
    &&& post.connection_status == pre.connection_status
    &&& post.handshake == pre.handshake
}

/// What one turn of the receiving loop at `now` does: a closed connection
/// stops the receiver and changes nothing; otherwise the event's outcome is
/// counted against the retry budget (a connectivity report also records
/// `now`), and once the receiver stops the connection is closed.
pub open spec fn report_turn(
    pre: RtcpReportHandler,
    post: RtcpReportHandler,
    event: ReportEvent,
    now: i64,
    running: bool,
) -> bool {
    &&& pre.connection_status == ConnectionStatus::Closed ==> !running && post.receiver
        == pre.receiver
    &&& pre.connection_status != ConnectionStatus::Closed ==> {
        &&& post.receiver.retries == next_retries(
            pre.receiver.retries as int,
            report_outcome(event_bytes(event), now, pre.receiver.last_report_nanos),
        )
        &&& post.receiver.last_report_nanos == if is_connectivity_report(event) {
            now
        } else {
            pre.receiver.last_report_nanos
        }
        &&& running == (post.receiver.retries < RETRY_LIMIT)
    }
    &&& running ==> post.connection_status == pre.connection_status
    &&& !running ==> post.connection_status == ConnectionStatus::Closed
    &&& post.handshake == pre.handshake
}

/// Calls `chrono::Local::now` and gives its reading in nanoseconds since
/// the Unix epoch (`DateTime::timestamp_nanos_opt`), `None` when it does
/// not fit an `i64`. Nothing is claimed of the reading: it is the clock's.
#[verifier::external_body]
fn local_clock_nanos() -> (r: Option<i64>) {
    chrono::Local::now().timestamp_nanos_opt()
}

/// The local clock's time in nanoseconds since the Unix epoch; a reading
/// beyond the range of `i64` counts as the largest `i64`.
pub fn now_nanos() -> i64 {
    match local_clock_nanos() {
        Some(n) => n,
        None => i64::MAX,
    }
}

/// State of a report handler: the shared connection status, the handshake
/// that opens the exchange and the receiver that keeps it alive. The sender
/// and receiver loops of the caller each consult it once per turn.
pub struct RtcpReportHandler {
    pub connection_status: ConnectionStatus,
    pub handshake: Handshake,
    pub receiver: ReportReceiver,
}

impl RtcpReportHandler {
    /// A handler that starts from `connection_status`, before any handshake
    /// message or report.
    pub fn new(connection_status: ConnectionStatus) -> (r: Self)
        ensures
            r.connection_status == connection_status,
            !r.handshake.ready,
            r.receiver.retries == 0,
            r.receiver.last_report_nanos == 0,
    {
        RtcpReportHandler {
            connection_status,
            handshake: Handshake::new(),
            receiver: ReportReceiver::new(0),
        }
    }

    /// One datagram of the handshake; the first `Ready` from the peer also
    /// marks the connection open.
    pub fn on_handshake_datagram(&mut self, data: &[u8]) -> (r: HandshakeAction)
        ensures
            r == handshake_action(old(self).handshake.ready, rtcp_packet_parse(data@)),
            final(self).handshake.ready == (old(self).handshake.ready || rtcp_packet_parse(data@)
                == Some(RtcpPacket::Ready)),
            final(self).connection_status == if r == HandshakeAction::SendReadyAndOpen {
                ConnectionStatus::Open
            } else {
                old(self).connection_status
            },
            final(self).receiver == old(self).receiver,
    {
        let r = self.handshake.on_datagram(data);
        if r == HandshakeAction::SendReadyAndOpen {
            self.connection_status = ConnectionStatus::Open;
        }
        r
    }

    /// Starts the report exchange at `now_nanos`: it fails with
    /// `SocketConfigFailed` when the read timeout of the report socket could
    /// not be set, and otherwise starts the receiver with no failure and
    /// `now_nanos` as the time of the last report.
    pub fn start(&mut self, read_timeout_set: bool, now_nanos: i64) -> (r: Result<(), RtcpError>)
        ensures
            start_turn(*old(self), *final(self), read_timeout_set, now_nanos, r),
    {
        if !read_timeout_set {
            return Err(RtcpError::SocketConfigFailed);
        }
        self.receiver = ReportReceiver::new(now_nanos);
        Ok(())
    }

    /// Whether the sender should send another connectivity report: it stops
    /// once the connection is closed.
    pub fn report_due(&self) -> (r: bool)
        ensures
            r == (self.connection_status != ConnectionStatus::Closed),
    {
        self.connection_status != ConnectionStatus::Closed
    }

    /// Records whether a connectivity report could be sent; a failed send
    /// closes the connection and stops the sender. Returns whether the
    /// sender keeps going.
    pub fn on_report_sent(&mut self, sent: bool) -> (keep_sending: bool)
        ensures
            keep_sending == sent,
            final(self).connection_status == if sent {
                old(self).connection_status
            } else {
                ConnectionStatus::Closed
            },
            final(self).receiver == old(self).receiver,
            final(self).handshake == old(self).handshake,
    {
        if !sent {
            self.connection_status = ConnectionStatus::Closed;
        }
        sent
    }

    /// One turn of the receiving loop at `now_nanos`. A closed connection
    /// stops the receiver at once; otherwise the event is counted as in
    /// `ReportReceiver::step`, and once the receiver stops the connection is
    /// closed. Returns whether the receiver keeps listening.
    pub fn on_report_event(&mut self, event: &ReportEvent, now_nanos: i64) -> (running: bool)
        requires
            old(self).receiver.retries < RETRY_LIMIT,
        ensures
            report_turn(*old(self), *final(self), *event, now_nanos, running),
    {
        if self.connection_status == ConnectionStatus::Closed {
            return false;
        }
        let running = self.receiver.step(event, now_nanos);
        if !running {
            self.connection_status = ConnectionStatus::Closed;
        }
        running
    }

    /// One turn of the receiving loop at the current time of the local
    /// clock: as `on_report_event` at whatever time the clock reads.
    pub fn on_report_event_now(&mut self, event: &ReportEvent) -> (running: bool)
        requires
            old(self).receiver.retries < RETRY_LIMIT,
        ensures
            exists|now: i64| report_turn(*old(self), *final(self), *event, now, running),
    {
        let now = now_nanos();
        let running = self.on_report_event(event, now);
        proof {
            assert(report_turn(*old(self), *self, *event, now, running));
        }
        running
    }

    /// Starts the report exchange at the current time of the local clock:
    /// as `start` at whatever time the clock reads.
    pub fn start_now(&mut self, read_timeout_set: bool) -> (r: Result<(), RtcpError>)
        ensures
            exists|now: i64| start_turn(*old(self), *final(self), read_timeout_set, now, r),
    {
        let now = now_nanos();
        let r = self.start(read_timeout_set, now);
        proof {
            assert(start_turn(*old(self), *self, read_timeout_set, now, r));
        }
        r
    }

    /// Closes the exchange: the connection is marked closed and the
    /// returned `Goodbye` bytes are to be sent to the peer.
    pub fn close_connection(&mut self) -> (goodbye: Vec<u8>)
        ensures
            final(self).connection_status == ConnectionStatus::Closed,
            goodbye@ == rtcp_packet_bytes(RtcpPacket::Goodbye),
            final(self).receiver == old(self).receiver,
            final(self).handshake == old(self).handshake,
    {
        self.connection_status = ConnectionStatus::Closed;
        let mut out: Vec<u8> = Vec::new();
        push_all(&mut out, RtcpPacket::Goodbye.as_bytes());
        out
    }
}

} // verus!

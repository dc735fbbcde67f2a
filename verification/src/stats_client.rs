//! Messages of fuzzing statistics for the manager.
//!
//! Two kinds of message go to the manager, one JSON object per line:
//! - **Aggregate**: coverage counts and execution statistics, sent by the
//!   broker;
//! - **Rings**: the raw coverage drained from the process-local rings, sent by
//!   the client process.
//!
//! This module builds the messages, decides whether a rings message is worth
//! sending, frames a serialized message as a line, and classifies the failures
//! of connecting to the manager's socket. Connecting, serializing and writing
//! are the caller's part.
use vstd::prelude::*;
use crate::observers::coverage_ring::{self, CoverageStream};
use crate::observers::signal_ring::{self, SignalStream};

verus! {

/// Aggregate statistics sent by the broker.
#[derive(Debug, Clone)]
pub struct AggregateStats {
    pub vm_id: u32,
    pub target: String,
    pub coverage_signal: usize,
    pub corpus_size: usize,
    pub execs_per_sec: u64,
    pub total_execs: u64,
}

/// Raw ring-buffer data sent by the client.
#[derive(Debug, Clone)]
pub struct RingsData {
    pub vm_id: u32,
    pub target: String,
    /// Newly seen basic-block addresses.
    pub bbs: Vec<u64>,
    /// Newly seen edge signal slot indices, for cross-VM edge aggregation.
    pub signals: Vec<u32>,
    pub coverage_ring_overflows: u64,
    pub signal_ring_overflows: u64,
}

/// A message to the manager; serialized with a `msg_type` tag of
/// `"aggregate"` or `"rings"`.
#[derive(Debug, Clone)]
pub enum StatsMessage {
    /// Aggregate statistics from the broker process.
    Aggregate(AggregateStats),
    /// Raw ring-buffer data from the client process.
    Rings(RingsData),
}

/// Where statistics go: the VM, the target and the manager's socket.
#[derive(Debug, Clone)]
pub struct StatsClient {
    pub vm_id: u32,
    pub target: String,
    pub socket_path: String,
}

/// How connecting to the manager's socket failed.
#[derive(Debug, Clone, Copy, PartialEq, Eq, Structural)]
pub enum ConnectFailure {
    /// The socket does not exist (the manager is not listening yet).
    NotFound,
    /// Nobody accepts on the socket (the manager is gone).
    ConnectionRefused,
    /// Anything else, such as a permission or address problem.
    Other,
}

/// Whether a failure to connect means only that the manager is not listening
/// (the message is dropped and the send counts as done), rather than a
/// misconfiguration that must be reported.
pub fn is_benign_connect_failure(f: ConnectFailure) -> (b: bool)
    ensures
        b == (f == ConnectFailure::NotFound || f == ConnectFailure::ConnectionRefused),
{
    match f {
        ConnectFailure::NotFound => true,
        ConnectFailure::ConnectionRefused => true,
        ConnectFailure::Other => false,
    }
}

/// The line sent for a serialized message: the JSON, then a newline.
pub fn frame_line(json: &str) -> (line: String)
    ensures
        line@ == json@ + seq!['\n'],
{
    let mut line = String::from_str(json);
    line.append("\n");
    proof {
        reveal_strlit("\n");
    }
    line
}

/// Whether drained ring data carries anything: an address, a signal or an
/// overflow.
pub open spec fn rings_have_data(bbs: Seq<u64>, signals: Seq<u32>, cov_over: u64, sig_over: u64) -> bool {
    bbs.len() > 0 || signals.len() > 0 || cov_over != 0 || sig_over != 0
}

/// A rings message goes out whenever anything was drained, each part on its
/// own: new addresses, new signals, or an overflow of either ring, whatever
/// the other parts hold; and none goes out when nothing was drained.
pub proof fn law_rings_sent_when_anything_drained(
    bbs: Seq<u64>,
    signals: Seq<u32>,
    cov_over: u64,
    sig_over: u64,
)
    ensures
        bbs.len() > 0 ==> rings_have_data(bbs, signals, cov_over, sig_over),
        signals.len() > 0 ==> rings_have_data(bbs, signals, cov_over, sig_over),
        cov_over != 0 ==> rings_have_data(bbs, signals, cov_over, sig_over),
        sig_over != 0 ==> rings_have_data(bbs, signals, cov_over, sig_over),
        !rings_have_data(Seq::<u64>::empty(), Seq::<u32>::empty(), 0, 0),
{
}

impl StatsClient {
    /// A client for VM `vm_id` running `target`, sending to `socket_path`
    /// (such as `/tmp/almond-stats-0.sock`).
    pub fn new(vm_id: u32, target: &str, socket_path: &str) -> (c: Self)
        ensures
            c.vm_id == vm_id,
            c.target@ == target@,
            c.socket_path@ == socket_path@,
    {
        StatsClient {
            vm_id,
            target: String::from_str(target),
            socket_path: String::from_str(socket_path),
        }
    }

    /// The aggregate message of the given statistics, for this client's VM
    /// and target.
    pub fn aggregate_message(
        &self,
        coverage_signal: usize,
        corpus_size: usize,
        execs_per_sec: u64,
        total_execs: u64,
    ) -> (m: StatsMessage)
        ensures
            m matches StatsMessage::Aggregate(a) && {
                &&& a.vm_id == self.vm_id
                &&& a.target@ == self.target@
                &&& a.coverage_signal == coverage_signal
                &&& a.corpus_size == corpus_size
                &&& a.execs_per_sec == execs_per_sec
                &&& a.total_execs == total_execs
            },
    {
        StatsMessage::Aggregate(
            AggregateStats {
                vm_id: self.vm_id,
                target: self.target.clone(),
                coverage_signal,
                corpus_size,
                execs_per_sec,
                total_execs,
            },
        )
    }

    /// The rings message of drained ring data; nothing when the data is
    /// empty (no address, no signal, no overflow), so that nothing is sent.
    pub fn rings_message(
        &self,
        bbs: Vec<u64>,
        signals: Vec<u32>,
        coverage_ring_overflows: u64,
        signal_ring_overflows: u64,
    ) -> (m: Option<StatsMessage>)
        ensures
            !rings_have_data(bbs@, signals@, coverage_ring_overflows, signal_ring_overflows)
                ==> m is None,
            rings_have_data(bbs@, signals@, coverage_ring_overflows, signal_ring_overflows) ==> (
            m matches Some(StatsMessage::Rings(r)) && {
                &&& r.vm_id == self.vm_id
                &&& r.target@ == self.target@
                &&& r.bbs@ == bbs@
                &&& r.signals@ == signals@
                &&& r.coverage_ring_overflows == coverage_ring_overflows
                &&& r.signal_ring_overflows == signal_ring_overflows
            }),
    {
        if bbs.len() == 0 && signals.len() == 0 && coverage_ring_overflows == 0
            && signal_ring_overflows == 0 {
            return None;
        }
        Some(
            StatsMessage::Rings(
                RingsData {
                    vm_id: self.vm_id,
                    target: self.target.clone(),
                    bbs,
                    signals,
                    coverage_ring_overflows,
                    signal_ring_overflows,
                },
            ),
        )
    }

    /// Drains both coverage streams (pending addresses, pending signals and
    /// both overflow counters) and builds the rings message of what came out;
    /// nothing when all of it was empty.
    pub fn drain_rings_message(
        &self,
        coverage: &mut CoverageStream,
        signals: &mut SignalStream,
    ) -> (m: Option<StatsMessage>)
        requires
            old(coverage).wf(),
            old(signals).wf(),
        ensures
            final(coverage).wf(),
            final(signals).wf(),
            final(coverage).seen() == old(coverage).seen(),
            final(signals).seen() == old(signals).seen(),
            final(coverage).pending() == Seq::<u64>::empty(),
            final(signals).pending() == Seq::<u32>::empty(),
            final(coverage).overflows() == 0,
            final(signals).overflows() == 0,
            !rings_have_data(
                old(coverage).pending(),
                old(signals).pending(),
                old(coverage).overflows(),
                old(signals).overflows(),
            ) ==> m is None,
            rings_have_data(
                old(coverage).pending(),
                old(signals).pending(),
                old(coverage).overflows(),
                old(signals).overflows(),
            ) ==> (m matches Some(StatsMessage::Rings(r)) && {
                &&& r.vm_id == self.vm_id
                &&& r.target@ == self.target@
                &&& r.bbs@ == old(coverage).pending()
                &&& r.signals@ == old(signals).pending()
                &&& r.coverage_ring_overflows == old(coverage).overflows()
                &&& r.signal_ring_overflows == old(signals).overflows()
            }),
    {
        let bbs = coverage_ring::drain(coverage);
        let sigs = signal_ring::drain(signals);
        let cov_over = coverage_ring::drain_overflow(coverage);
        let sig_over = signal_ring::drain_overflow(signals);
        self.rings_message(bbs, sigs, cov_over, sig_over)
    }
}

} // verus!

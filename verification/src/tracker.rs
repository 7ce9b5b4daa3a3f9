use std::sync::Arc;
use vstd::prelude::*;

use crate::chain::{ChainedStream, ProxyChain};
use crate::session::{Session, SessionView, UdpPacket};
use crate::trusted::{fresh_uuid, oneshot_channel, poll_close_signal, share, utc_now};

verus! {

/// A point in time: whole seconds since the Unix epoch, and nanoseconds into
/// the running second.
#[derive(Clone, Copy, Debug, PartialEq, Eq, Structural)]
pub struct Timestamp {
    pub secs: i64,
    pub nanos: u32,
}

/// What the statistics side can read of one live connection.
#[derive(Debug)]
pub struct TrackerInfo {
    pub uuid: uuid::Uuid,
    pub session_holder: Session,
    pub start_time: Timestamp,
    pub rule: String,
    pub rule_payload: String,
    pub proxy_chain_holder: ProxyChain,
    pub upload_total: u64,
    pub download_total: u64,
}

/// A `TrackerInfo` with its texts as characters.
pub struct TrackerInfoView {
    pub uuid: uuid::Uuid,
    pub session: SessionView,
    pub start_time: Timestamp,
    pub rule: Seq<char>,
    pub rule_payload: Seq<char>,
    pub proxy_chain: Seq<Seq<char>>,
    pub upload_total: u64,
    pub download_total: u64,
}

impl View for TrackerInfo {
    type V = TrackerInfoView;

    open spec fn view(&self) -> TrackerInfoView {
        TrackerInfoView {
            uuid: self.uuid,
            session: self.session_holder@,
            start_time: self.start_time,
            rule: self.rule@,
            rule_payload: self.rule_payload@,
            proxy_chain: self.proxy_chain_holder@,
            upload_total: self.upload_total,
            download_total: self.download_total,
        }
    }
}

impl Clone for TrackerInfo {
    fn clone(&self) -> (res: Self)
        ensures
            res@ == self@,
    {
        TrackerInfo {
            uuid: self.uuid,
            session_holder: self.session_holder.clone(),
            start_time: self.start_time,
            rule: self.rule.clone(),
            rule_payload: self.rule_payload.clone(),
            proxy_chain_holder: self.proxy_chain_holder.clone(),
            upload_total: self.upload_total,
            download_total: self.download_total,
        }
    }
}

/// The name of the rule that chose the outbound, and what the rule matched
/// on. Both are empty where no rule applied.
pub open spec fn rule_texts(rule: Option<(&str, &str)>) -> (Seq<char>, Seq<char>) {
    match rule {
        Some((kind, payload)) => (kind@, payload@),
        None => (Seq::empty(), Seq::empty()),
    }
}

/// The record of a connection that starts now: no byte counted yet.
pub open spec fn opening_record(
    info: TrackerInfoView,
    sess: SessionView,
    rule: Option<(&str, &str)>,
    chain: Seq<Seq<char>>,
) -> bool {
    &&& info.session == sess
    &&& info.rule == rule_texts(rule).0
    &&& info.rule_payload == rule_texts(rule).1
    &&& info.proxy_chain == chain
    &&& info.upload_total == 0
    &&& info.download_total == 0
    &&& info.start_time.secs >= 0
    &&& info.start_time.nanos < 1_000_000_000
}

impl TrackerInfo {
    /// Starts the record of a connection under a new identifier and with the
    /// time of the call.
    pub fn open(sess: Session, rule: Option<(&str, &str)>, chain: ProxyChain) -> (info: Self)
        ensures
            opening_record(info@, sess@, rule, chain@),
    {
        let (kind, payload) = match rule {
            Some((kind, payload)) => (kind.to_owned(), payload.to_owned()),
            None => (String::new(), String::new()),
        };
        let now = utc_now();
        TrackerInfo {
            uuid: fresh_uuid(),
            session_holder: sess,
            start_time: Timestamp { secs: now.0, nanos: now.1 },
            rule: kind,
            rule_payload: payload,
            proxy_chain_holder: chain,
            upload_total: 0,
            download_total: 0,
        }
    }
}

/// The handle by which the statistics side knows a connection: its
/// identifier and its record as it stood when the handle was made.
pub struct TrackerHandle(uuid::Uuid, Arc<TrackerInfo>);

impl TrackerHandle {
    pub closed spec fn spec_id(&self) -> uuid::Uuid {
        self.0
    }

    pub closed spec fn spec_info(&self) -> TrackerInfo {
        *self.1
    }

    pub fn new(uuid: uuid::Uuid, info: Arc<TrackerInfo>) -> (res: Self)
        ensures
            res.spec_id() == uuid,
            res.spec_info() == *info,
    {
        TrackerHandle(uuid, info)
    }

    pub fn id(&self) -> (res: uuid::Uuid)
        ensures
            res == self.spec_id(),
    {
        self.0
    }

    pub fn tracker_info(&self) -> (res: Arc<TrackerInfo>)
        ensures
            *res == self.spec_info(),
    {
        share(&self.1)
    }
}

/// What a look at the receiving end of a close signal found.
#[derive(Clone, Copy, Debug, PartialEq, Eq, Structural)]
pub enum CloseSignal {
    /// The value was sent and is now taken.
    Fired,
    /// Nothing was sent yet and the sender is still there.
    Empty,
    /// The sender is gone, or the value was taken before.
    Closed,
}

/// What a tracked endpoint does with an operation after it looked at its
/// close signal.
#[derive(Clone, Copy, Debug, PartialEq, Eq, Structural)]
pub enum Verdict {
    /// The operation goes on to the endpoint inside.
    Pass,
    /// The operation ends at once with a broken-pipe error.
    BrokenPipe,
    /// The operation ends at once: no more packets.
    EndOfStream,
}

/// What the endpoint inside made of a write.
#[derive(Clone, Copy, Debug, PartialEq, Eq, Structural)]
pub enum WriteOutcome {
    /// It took this many bytes.
    Accepted(usize),
    /// It is not ready yet.
    Pending,
    /// It failed.
    Failed,
}

/// A close signal that fired, or whose sender is gone, ends the endpoint.
pub open spec fn interrupted(signal: CloseSignal) -> bool {
    signal != CloseSignal::Empty
}

/// What every stream operation and every sending operation on datagrams
/// comes to: an interrupted endpoint gives a broken pipe.
pub fn transfer_verdict(signal: CloseSignal) -> (verdict: Verdict)
    ensures
        verdict == if interrupted(signal) {
            Verdict::BrokenPipe
        } else {
            Verdict::Pass
        },
{
    match signal {
        CloseSignal::Empty => Verdict::Pass,
        CloseSignal::Fired => Verdict::BrokenPipe,
        CloseSignal::Closed => Verdict::BrokenPipe,
    }
}

/// What receiving a datagram comes to: an interrupted endpoint has no more
/// packets.
pub fn receive_verdict(signal: CloseSignal) -> (verdict: Verdict)
    ensures
        verdict == if interrupted(signal) {
            Verdict::EndOfStream
        } else {
            Verdict::Pass
        },
{
    match signal {
        CloseSignal::Empty => Verdict::Pass,
        CloseSignal::Fired => Verdict::EndOfStream,
        CloseSignal::Closed => Verdict::EndOfStream,
    }
}

/// A counter after `n` more bytes. It wraps around at the end of `u64`, as
/// an atomic addition does.
pub open spec fn counted(total: u64, n: usize) -> u64 {
    ((total + n) % 0x1_0000_0000_0000_0000) as u64
}

/// Adds `n` bytes to a counter.
pub fn count(total: u64, n: usize) -> (res: u64)
    ensures
        res == counted(total, n),
        total + n <= u64::MAX ==> res == total + n,
{
    total.wrapping_add(n as u64)
}

/// The lengths of a run of payloads, added up.
pub open spec fn total_len(lens: Seq<usize>) -> nat
    decreases lens.len(),
{
    if lens.len() == 0 {
        0
    } else {
        (total_len(lens.drop_last()) + lens.last()) as nat
    }
}

/// A counter after a run of payloads, each counted in its turn.
pub open spec fn counted_all(total: u64, lens: Seq<usize>) -> u64
    decreases lens.len(),
{
    if lens.len() == 0 {
        total
    } else {
        counted(counted_all(total, lens.drop_last()), lens.last())
    }
}

/// The first payloads of a run are no longer than the whole run.
pub proof fn lemma_total_len_of_prefix(lens: Seq<usize>, k: int)
    requires
        0 <= k <= lens.len(),
    ensures
        total_len(lens.take(k)) <= total_len(lens),
    decreases lens.len(),
{
    if k == lens.len() {
        assert(lens.take(k) =~= lens);
    } else {
        assert(lens.drop_last().take(k) =~= lens.take(k));
        lemma_total_len_of_prefix(lens.drop_last(), k);
    }
}

/// As long as it does not run over the end of `u64`, a counter stands at
/// what it started with plus the lengths of all payloads counted, and it
/// never went down on the way there.
pub proof fn lemma_counter_is_sum(total: u64, lens: Seq<usize>)
    requires
        total + total_len(lens) <= u64::MAX,
    ensures
        counted_all(total, lens) == total + total_len(lens),
        forall|k: int|
            0 <= k <= lens.len() ==> #[trigger] counted_all(total, lens.take(k)) == total
                + total_len(lens.take(k)),
        forall|j: int, k: int|
            0 <= j <= k <= lens.len() ==> counted_all(total, lens.take(j)) <= counted_all(
                total,
                lens.take(k),
            ),
    decreases lens.len(),
{
    if lens.len() > 0 {
        lemma_counter_is_sum(total, lens.drop_last());
    }
    assert forall|k: int| 0 <= k <= lens.len() implies #[trigger] counted_all(total, lens.take(k))
        == total + total_len(lens.take(k)) by {
        lemma_total_len_of_prefix(lens, k);
        if k == lens.len() {
            assert(lens.take(k) =~= lens);
        } else {
            assert(lens.drop_last().take(k) =~= lens.take(k));
        }
    }
    assert forall|j: int, k: int| 0 <= j <= k <= lens.len() implies counted_all(
        total,
        lens.take(j),
    ) <= counted_all(total, lens.take(k)) by {
        assert(lens.take(k).take(j) =~= lens.take(j));
        lemma_total_len_of_prefix(lens.take(k), j);
    }
}

impl TrackerInfo {
    /// The record after `n` bytes went to the remote side.
    pub open spec fn uploaded(self, n: usize) -> TrackerInfo {
        TrackerInfo { upload_total: counted(self.upload_total, n), ..self }
    }

    /// The record after `n` bytes came from the remote side.
    pub open spec fn downloaded(self, n: usize) -> TrackerInfo {
        TrackerInfo { download_total: counted(self.download_total, n), ..self }
    }

    fn add_upload(&mut self, n: usize)
        ensures
            *final(self) == old(self).uploaded(n),
    {
        self.upload_total = count(self.upload_total, n);
    }

    fn add_download(&mut self, n: usize)
        ensures
            *final(self) == old(self).downloaded(n),
    {
        self.download_total = count(self.download_total, n);
    }
}

/// A stream with the record of what went through it and the receiving end
/// of its close signal. The stream inside is moved by whoever polls it; this
/// type decides whether an operation may go on and counts what it moved.
pub struct TrackedStream<S> {
    inner: S,
    tracker: TrackerInfo,
    close_notify: tokio::sync::oneshot::Receiver<()>,
    interrupted: bool,
}

impl<S> TrackedStream<S> {
    /// The stream inside.
    pub closed spec fn inner_view(&self) -> S {
        self.inner
    }

    /// The record as it stands.
    pub closed spec fn info(&self) -> TrackerInfo {
        self.tracker
    }

    /// Whether the close signal was seen to have come: it fired, or its
    /// sender is gone. Once it was seen, it stays seen.
    pub closed spec fn latched(&self) -> bool {
        self.interrupted
    }

    /// Wraps `inner`, starts its record and makes its close signal. The
    /// handle and the sending end of the signal are for the statistics side.
    pub fn new(inner: S, sess: Session, rule: Option<(&str, &str)>) -> (res: (
        Self,
        TrackerHandle,
        tokio::sync::oneshot::Sender<()>,
    )) where S: ChainedStream
        ensures
            res.0.inner_view() == inner,
            opening_record(res.0.info()@, sess@, rule, inner.chain_view()),
            res.1.spec_id() == res.0.info().uuid,
            res.1.spec_info()@ == res.0.info()@,
            !res.0.latched(),
    {
        let chain = inner.chain().clone();
        let (tx, rx) = oneshot_channel::<()>();
        let tracker = TrackerInfo::open(sess, rule, chain);
        let handle = TrackerHandle::new(tracker.uuid, Arc::new(tracker.clone()));
        (TrackedStream { inner, tracker, close_notify: rx, interrupted: false }, handle, tx)
    }

    pub fn id(&self) -> (res: uuid::Uuid)
        ensures
            res == self.info().uuid,
    {
        self.tracker.uuid
    }

    /// The record as it stands, for others to keep.
    pub fn tracker_info(&self) -> (res: Arc<TrackerInfo>)
        ensures
            res@ == self.info()@,
    {
        Arc::new(self.tracker.clone())
    }

    pub fn inner(&self) -> (res: &S)
        ensures
            *res == self.inner_view(),
    {
        &self.inner
    }

    pub fn inner_mut(&mut self) -> (res: &mut S)
        ensures
            *res == old(self).inner_view(),
            final(self).inner_view() == *final(res),
            final(self).info() == old(self).info(),
            final(self).latched() == old(self).latched(),
    {
        &mut self.inner
    }

    /// Whether the close signal was seen to have come.
    pub fn is_latched(&self) -> (res: bool)
        ensures
            res == self.latched(),
    {
        self.interrupted
    }

    /// Looks at the close signal and keeps in mind that it came. What comes
    /// back is what the endpoint now knows: once the signal was seen to have
    /// come, every later look finds it closed, whatever the receiver says.
    fn close_signal(&mut self) -> (signal: CloseSignal)
        ensures
            final(self).latched() == interrupted(signal),
            old(self).latched() ==> signal == CloseSignal::Closed,
            final(self).inner_view() == old(self).inner_view(),
            final(self).info() == old(self).info(),
    {
        let polled = poll_close_signal(&mut self.close_notify);
        if self.interrupted {
            CloseSignal::Closed
        } else {
            match polled {
                CloseSignal::Empty => CloseSignal::Empty,
                CloseSignal::Fired => {
                    self.interrupted = true;
                    CloseSignal::Fired
                },
                CloseSignal::Closed => {
                    self.interrupted = true;
                    CloseSignal::Closed
                },
            }
        }
    }

    /// Before a read: whether it may go on.
    pub fn poll_read(&mut self) -> (verdict: Verdict)
        ensures
            verdict == if final(self).latched() {
                Verdict::BrokenPipe
            } else {
                Verdict::Pass
            },
            old(self).latched() ==> final(self).latched(),
            final(self).inner_view() == old(self).inner_view(),
            final(self).info() == old(self).info(),
    {
        let signal = self.close_signal();
        transfer_verdict(signal)
    }

    /// After the stream inside was polled for a read: counts what stands in
    /// the buffer, whatever the poll gave, and says how much that is.
    pub fn read_polled(&mut self, filled: usize) -> (download: usize)
        ensures
            download == filled,
            final(self).info() == old(self).info().downloaded(filled),
            final(self).inner_view() == old(self).inner_view(),
            final(self).latched() == old(self).latched(),
    {
        self.tracker.add_download(filled);
        filled
    }

    /// Before a write: whether it may go on.
    pub fn poll_write(&mut self) -> (verdict: Verdict)
        ensures
            verdict == if final(self).latched() {
                Verdict::BrokenPipe
            } else {
                Verdict::Pass
            },
            old(self).latched() ==> final(self).latched(),
            final(self).inner_view() == old(self).inner_view(),
            final(self).info() == old(self).info(),
    {
        let signal = self.close_signal();
        transfer_verdict(signal)
    }

    /// After the stream inside was polled for a write: counts the bytes it
    /// took, and nothing where it took none.
    pub fn write_polled(&mut self, outcome: WriteOutcome) -> (upload: Option<usize>)
        ensures
            upload == match outcome {
                WriteOutcome::Accepted(n) => Some(n),
                _ => None,
            },
            final(self).info() == match outcome {
                WriteOutcome::Accepted(n) => old(self).info().uploaded(n),
                _ => old(self).info(),
            },
            final(self).inner_view() == old(self).inner_view(),
            final(self).latched() == old(self).latched(),
    {
        match outcome {
            WriteOutcome::Accepted(n) => {
                self.tracker.add_upload(n);
                Some(n)
            },
            _ => None,
        }
    }

    /// Before a flush: whether it may go on.
    pub fn poll_flush(&mut self) -> (verdict: Verdict)
        ensures
            verdict == if final(self).latched() {
                Verdict::BrokenPipe
            } else {
                Verdict::Pass
            },
            old(self).latched() ==> final(self).latched(),
            final(self).inner_view() == old(self).inner_view(),
            final(self).info() == old(self).info(),
    {
        let signal = self.close_signal();
        transfer_verdict(signal)
    }

    /// Before a shutdown: whether it may go on.
    pub fn poll_shutdown(&mut self) -> (verdict: Verdict)
        ensures
            verdict == if final(self).latched() {
                Verdict::BrokenPipe
            } else {
                Verdict::Pass
            },
            old(self).latched() ==> final(self).latched(),
            final(self).inner_view() == old(self).inner_view(),
            final(self).info() == old(self).info(),
    {
        let signal = self.close_signal();
        transfer_verdict(signal)
    }
}

/// Why a tracked endpoint refused to send.
#[derive(Clone, Copy, Debug, PartialEq, Eq, Structural)]
pub enum TransferError {
    BrokenPipe,
}

/// A packet endpoint with the record of what went through it and the
/// receiving end of its close signal.
pub struct TrackedDatagram<D> {
    inner: D,
    tracker: TrackerInfo,
    close_notify: tokio::sync::oneshot::Receiver<()>,
    interrupted: bool,
}

impl<D> TrackedDatagram<D> {
    /// The endpoint inside.
    pub closed spec fn inner_view(&self) -> D {
        self.inner
    }

    /// The record as it stands.
    pub closed spec fn info(&self) -> TrackerInfo {
        self.tracker
    }

    /// Whether the close signal was seen to have come: it fired, or its
    /// sender is gone. Once it was seen, it stays seen.
    pub closed spec fn latched(&self) -> bool {
        self.interrupted
    }

    /// Wraps `inner`, starts its record with an empty chain and makes its
    /// close signal. The handle and the sending end of the signal are for
    /// the statistics side.
    pub fn new(inner: D, sess: Session, rule: Option<(&str, &str)>) -> (res: (
        Self,
        TrackerHandle,
        tokio::sync::oneshot::Sender<()>,
    ))
        ensures
            res.0.inner_view() == inner,
            opening_record(res.0.info()@, sess@, rule, Seq::empty()),
            res.1.spec_id() == res.0.info().uuid,
            res.1.spec_info()@ == res.0.info()@,
            !res.0.latched(),
    {
        let (tx, rx) = oneshot_channel::<()>();
        let tracker = TrackerInfo::open(sess, rule, ProxyChain::default());
        let handle = TrackerHandle::new(tracker.uuid, Arc::new(tracker.clone()));
        (TrackedDatagram { inner, tracker, close_notify: rx, interrupted: false }, handle, tx)
    }

    pub fn id(&self) -> (res: uuid::Uuid)
        ensures
            res == self.info().uuid,
    {
        self.tracker.uuid
    }

    /// The record as it stands, for others to keep.
    pub fn tracker_info(&self) -> (res: Arc<TrackerInfo>)
        ensures
            res@ == self.info()@,
    {
        Arc::new(self.tracker.clone())
    }

    pub fn inner(&self) -> (res: &D)
        ensures
            *res == self.inner_view(),
    {
        &self.inner
    }

    pub fn inner_mut(&mut self) -> (res: &mut D)
        ensures
            *res == old(self).inner_view(),
            final(self).inner_view() == *final(res),
            final(self).info() == old(self).info(),
            final(self).latched() == old(self).latched(),
    {
        &mut self.inner
    }

    /// Whether the close signal was seen to have come.
    pub fn is_latched(&self) -> (res: bool)
        ensures
            res == self.latched(),
    {
        self.interrupted
    }

    /// Looks at the close signal and keeps in mind that it came. What comes
    /// back is what the endpoint now knows: once the signal was seen to have
    /// come, every later look finds it closed, whatever the receiver says.
    fn close_signal(&mut self) -> (signal: CloseSignal)
        ensures
            final(self).latched() == interrupted(signal),
            old(self).latched() ==> signal == CloseSignal::Closed,
            final(self).inner_view() == old(self).inner_view(),
            final(self).info() == old(self).info(),
    {
        let polled = poll_close_signal(&mut self.close_notify);
        if self.interrupted {
            CloseSignal::Closed
        } else {
            match polled {
                CloseSignal::Empty => CloseSignal::Empty,
                CloseSignal::Fired => {
                    self.interrupted = true;
                    CloseSignal::Fired
                },
                CloseSignal::Closed => {
                    self.interrupted = true;
                    CloseSignal::Closed
                },
            }
        }
    }

    /// Before the endpoint inside is asked for the next packet: whether it
    /// is asked at all.
    pub fn poll_next(&mut self) -> (verdict: Verdict)
        ensures
            verdict == if final(self).latched() {
                Verdict::EndOfStream
            } else {
                Verdict::Pass
            },
            old(self).latched() ==> final(self).latched(),
            final(self).inner_view() == old(self).inner_view(),
            final(self).info() == old(self).info(),
    {
        let signal = self.close_signal();
        receive_verdict(signal)
    }

    /// After the endpoint inside was asked for the next packet: counts the
    /// payload of the packet it gave, if it gave one.
    pub fn next_polled(&mut self, received: Option<&UdpPacket>) -> (download: Option<usize>)
        ensures
            download == match received {
                Some(packet) => Some(packet.data.len()),
                None => None,
            },
            final(self).info() == match received {
                Some(packet) => old(self).info().downloaded(packet.data.len()),
                None => old(self).info(),
            },
            final(self).inner_view() == old(self).inner_view(),
            final(self).latched() == old(self).latched(),
    {
        match received {
            Some(packet) => {
                let n = packet.data.len();
                self.tracker.add_download(n);
                Some(n)
            },
            None => None,
        }
    }

    /// Before the endpoint inside is asked whether it can take a packet.
    pub fn poll_ready(&mut self) -> (verdict: Verdict)
        ensures
            verdict == if final(self).latched() {
                Verdict::BrokenPipe
            } else {
                Verdict::Pass
            },
            old(self).latched() ==> final(self).latched(),
            final(self).inner_view() == old(self).inner_view(),
            final(self).info() == old(self).info(),
    {
        let signal = self.close_signal();
        transfer_verdict(signal)
    }

    /// What sending `item` does once the verdict is known: only where the
    /// packet may pass is the payload counted, before the packet is handed on.
    pub fn send_started(&mut self, verdict: Verdict, item: &UdpPacket) -> (upload: Result<
        usize,
        TransferError,
    >)
        ensures
            upload == if verdict == Verdict::Pass {
                Ok::<usize, TransferError>(item.data.len())
            } else {
                Err::<usize, TransferError>(TransferError::BrokenPipe)
            },
            final(self).info() == if verdict == Verdict::Pass {
                old(self).info().uploaded(item.data.len())
            } else {
                old(self).info()
            },
            final(self).inner_view() == old(self).inner_view(),
            final(self).latched() == old(self).latched(),
    {
        match verdict {
            Verdict::Pass => {
                let n = item.data.len();
                self.tracker.add_upload(n);
                Ok(n)
            },
            _ => Err(TransferError::BrokenPipe),
        }
    }

    /// Before `item` is handed to the endpoint inside: looks at the close
    /// signal and counts the payload if the packet may go on. Once the signal
    /// was seen to have come, no packet goes on and nothing is counted.
    pub fn start_send(&mut self, item: &UdpPacket) -> (upload: Result<usize, TransferError>)
        ensures
            upload == if final(self).latched() {
                Err::<usize, TransferError>(TransferError::BrokenPipe)
            } else {
                Ok::<usize, TransferError>(item.data.len())
            },
            final(self).info() == if final(self).latched() {
                old(self).info()
            } else {
                old(self).info().uploaded(item.data.len())
            },
            old(self).latched() ==> final(self).latched(),
            final(self).inner_view() == old(self).inner_view(),
    {
        let signal = self.close_signal();
        let verdict = transfer_verdict(signal);
        self.send_started(verdict, item)
    }

    /// Before a flush: whether it may go on.
    pub fn poll_flush(&mut self) -> (verdict: Verdict)
        ensures
            verdict == if final(self).latched() {
                Verdict::BrokenPipe
            } else {
                Verdict::Pass
            },
            old(self).latched() ==> final(self).latched(),
            final(self).inner_view() == old(self).inner_view(),
            final(self).info() == old(self).info(),
    {
        let signal = self.close_signal();
        transfer_verdict(signal)
    }

    /// Before the sending side is closed: whether that may go on.
    pub fn poll_close(&mut self) -> (verdict: Verdict)
        ensures
            verdict == if final(self).latched() {
                Verdict::BrokenPipe
            } else {
                Verdict::Pass
            },
            old(self).latched() ==> final(self).latched(),
            final(self).inner_view() == old(self).inner_view(),
            final(self).info() == old(self).info(),
    {
        let signal = self.close_signal();
        transfer_verdict(signal)
    }
}

} // verus!

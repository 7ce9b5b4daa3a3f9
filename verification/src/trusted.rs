use std::sync::Arc;
use vstd::prelude::*;

use crate::session::UdpPacket;
use crate::tracker::CloseSignal;

verus! {

/// `uuid::Uuid`, carried as it is.
#[verifier::external_type_specification]
#[verifier::external_body]
pub struct ExUuid(uuid::Uuid);

/// The sending end of a one-shot channel of tokio, carried as it is.
#[verifier::external_type_specification]
#[verifier::external_body]
#[verifier::reject_recursive_types(T)]
pub struct ExOneshotSender<T>(tokio::sync::oneshot::Sender<T>);

/// The receiving end of a one-shot channel of tokio, carried as it is.
#[verifier::external_type_specification]
#[verifier::external_body]
#[verifier::reject_recursive_types(T)]
pub struct ExOneshotReceiver<T>(tokio::sync::oneshot::Receiver<T>);

/// What awaiting a one-shot receiver can fail with. It is declared because
/// the receiver names it; nothing here makes or reads one.
#[verifier::external_type_specification]
#[verifier::external_body]
pub struct ExRecvError(tokio::sync::oneshot::error::RecvError);

/// The handle of a task of tokio, carried as it is.
#[verifier::external_type_specification]
#[verifier::external_body]
#[verifier::reject_recursive_types(T)]
pub struct ExJoinHandle<T>(tokio::task::JoinHandle<T>);

/// What awaiting a task handle can fail with. It is declared because the
/// handle names it; nothing here makes or reads one.
#[verifier::external_type_specification]
#[verifier::external_body]
pub struct ExJoinError(tokio::task::JoinError);

/// The sending end of a bounded channel of tokio, carried as it is.
#[verifier::external_type_specification]
#[verifier::external_body]
#[verifier::reject_recursive_types(T)]
pub struct ExMpscSender<T>(tokio::sync::mpsc::Sender<T>);

/// The receiving end of a bounded channel of tokio, carried as it is.
#[verifier::external_type_specification]
#[verifier::external_body]
#[verifier::reject_recursive_types(T)]
pub struct ExMpscReceiver<T>(tokio::sync::mpsc::Receiver<T>);

/// `Arc::clone`: the new handle refers to the value that `data` refers to.
#[verifier::external_body]
pub(crate) fn share<T>(data: &Arc<T>) -> (res: Arc<T>)
    ensures
        res == *data,
{
    Arc::clone(data)
}

/// `uuid::Uuid::new_v4`: a random identifier. Nothing is claimed of it.
#[verifier::external_body]
pub(crate) fn fresh_uuid() -> uuid::Uuid {
    uuid::Uuid::new_v4()
}

/// `chrono::Utc::now`, read through `timestamp` and `timestamp_subsec_nanos`:
/// the whole seconds since the Unix epoch and the nanoseconds into the
/// running second. `now` builds its result from a duration since the epoch,
/// so the seconds are not negative and the nanoseconds stay under a second.
/// It panics on a clock that stands before 1970.
#[verifier::external_body]
pub(crate) fn utc_now() -> (t: (i64, u32))
    ensures
        t.0 >= 0,
        t.1 < 1_000_000_000,
{
    let now = chrono::Utc::now();
    (now.timestamp(), now.timestamp_subsec_nanos())
}

/// `tokio::sync::oneshot::channel`: the two ends of a new one-shot channel.
#[verifier::external_body]
pub(crate) fn oneshot_channel<T>() -> (tokio::sync::oneshot::Sender<T>, tokio::sync::oneshot::Receiver<T>) {
    tokio::sync::oneshot::channel()
}

/// `tokio::sync::oneshot::Receiver::try_recv`, without waiting. What comes
/// back depends on what the other end did, so nothing is claimed of it.
#[verifier::external_body]
pub(crate) fn poll_close_signal<T>(receiver: &mut tokio::sync::oneshot::Receiver<T>) -> CloseSignal {
    match receiver.try_recv() {
        Ok(_) => CloseSignal::Fired,
        Err(tokio::sync::oneshot::error::TryRecvError::Empty) => CloseSignal::Empty,
        Err(tokio::sync::oneshot::error::TryRecvError::Closed) => CloseSignal::Closed,
    }
}

/// How many packets the channel behind `sender` holds at most: the buffer
/// that the channel was made with, which `Sender::max_capacity` reports.
pub uninterp spec fn buffer_of(sender: tokio::sync::mpsc::Sender<UdpPacket>) -> usize;

/// `tokio::sync::mpsc::channel`: the two ends of a new channel that holds
/// at most `buffer` packets. The call panics on a buffer of zero and on one
/// above an eighth of `usize::MAX`.
#[verifier::external_body]
pub(crate) fn packet_channel(buffer: usize) -> (res: (
    tokio::sync::mpsc::Sender<UdpPacket>,
    tokio::sync::mpsc::Receiver<UdpPacket>,
))
    requires
        0 < buffer <= usize::MAX / 8,
    ensures
        buffer_of(res.0) == buffer,
{
    tokio::sync::mpsc::channel(buffer)
}

/// `tokio::task::JoinHandle::abort`: asks the runtime to cancel the task.
#[verifier::external_body]
pub(crate) fn abort_task<T>(handle: &tokio::task::JoinHandle<T>) {
    handle.abort()
}

} // verus!

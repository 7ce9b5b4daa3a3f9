use vstd::prelude::*;

use crate::keys::{
    first_index, lemma_first_index, lemma_first_index_is, lemma_first_index_push, same_text,
};
use crate::session::{
    Session, SessionView, SocketAddress, SocksAddr, SocksAddrView, UdpPacket, UdpPacketView,
};
use crate::trusted::{abort_task, buffer_of, oneshot_channel, packet_channel};

verus! {

/// What a flow keeps for one outbound: the task that brings replies back,
/// the task that feeds the outbound, and the sender into that feeding task.
pub struct OutboundHandle {
    pub recv_task: tokio::task::JoinHandle<()>,
    pub send_task: tokio::task::JoinHandle<()>,
    pub sender: tokio::sync::mpsc::Sender<UdpPacket>,
}

/// The outbounds that one packet flow has connected, by name. A name has at
/// most one entry.
pub struct OutboundHandleMap {
    entries: Vec<(String, OutboundHandle)>,
}

/// The names of a list of entries, in the order of the entries.
pub open spec fn entry_names(entries: Seq<(String, OutboundHandle)>) -> Seq<Seq<char>> {
    Seq::new(entries.len(), |i: int| entries[i].0@)
}

impl View for OutboundHandleMap {
    type V = Map<Seq<char>, OutboundHandle>;

    closed spec fn view(&self) -> Map<Seq<char>, OutboundHandle> {
        Map::new(
            |name: Seq<char>| first_index(entry_names(self.entries@), name) < self.entries.len(),
            |name: Seq<char>| self.entries[first_index(entry_names(self.entries@), name)].1,
        )
    }
}

impl OutboundHandleMap {
    /// No name stands twice.
    pub closed spec fn wf(&self) -> bool {
        forall|i: int, j: int|
            0 <= i < j < self.entries.len() ==> (#[trigger] self.entries[i]).0@ != (
            #[trigger] self.entries[j]).0@
    }

    /// How many entries there are.
    pub closed spec fn spec_len(&self) -> nat {
        self.entries.len() as nat
    }

    pub fn new() -> (map: Self)
        ensures
            map@ == Map::<Seq<char>, OutboundHandle>::empty(),
            map.wf(),
            map.spec_len() == 0,
    {
        let map = OutboundHandleMap { entries: Vec::new() };
        assert(map@ =~= Map::<Seq<char>, OutboundHandle>::empty());
        map
    }

    pub fn len(&self) -> (n: usize)
        ensures
            n == self.spec_len(),
    {
        self.entries.len()
    }

    fn position(&self, name: &str) -> (i: usize)
        ensures
            i == first_index(entry_names(self.entries@), name@),
            i <= self.entries.len(),
    {
        let ghost names = entry_names(self.entries@);
        let mut i: usize = 0;
        while i < self.entries.len()
            invariant
                i <= self.entries.len(),
                names == entry_names(self.entries@),
                forall|j: int| 0 <= j < i ==> #[trigger] names[j] != name@,
            decreases self.entries.len() - i,
        {
            if same_text(self.entries[i].0.as_str(), name) {
                proof {
                    assert(names[i as int] == name@);
                    lemma_first_index_is(names, name@, i as int);
                }
                return i;
            }
            i = i + 1;
        }
        proof {
            lemma_first_index_is(names, name@, i as int);
        }
        i
    }

    /// Keeps the two tasks and the sender under `outbound_name`, in place of
    /// what was kept under that name before. The tasks that were kept there
    /// are cancelled: no task outlives its entry.
    pub fn insert(
        &mut self,
        outbound_name: &str,
        recv_handle: tokio::task::JoinHandle<()>,
        send_handle: tokio::task::JoinHandle<()>,
        sender: tokio::sync::mpsc::Sender<UdpPacket>,
    )
        ensures
            final(self)@ == old(self)@.insert(
                outbound_name@,
                OutboundHandle { recv_task: recv_handle, send_task: send_handle, sender },
            ),
            old(self).wf() ==> final(self).wf(),
            final(self).spec_len() == if old(self)@.dom().contains(outbound_name@) {
                old(self).spec_len()
            } else {
                old(self).spec_len() + 1
            },
    {
        let handle = OutboundHandle { recv_task: recv_handle, send_task: send_handle, sender };
        let i = self.position(outbound_name);
        let ghost before = self.entries@;
        let ghost names = entry_names(before);
        let ghost target = self@.insert(outbound_name@, handle);
        if i < self.entries.len() {
            abort_task(&self.entries[i].1.recv_task);
            abort_task(&self.entries[i].1.send_task);
            self.entries[i].1 = handle;
            proof {
                assert(entry_names(self.entries@) =~= names);
                lemma_first_index(names, outbound_name@);
                assert forall|name: Seq<char>|
                    #![trigger self@.dom().contains(name)]
                    #![trigger target.dom().contains(name)]
                    (self@.dom().contains(name) <==> target.dom().contains(name)) && (
                    self@.dom().contains(name) ==> self@[name] == target[name]) by {
                    lemma_first_index(names, name);
                }
                assert(self@ =~= target);
            }
        } else {
            self.entries.push((outbound_name.to_owned(), handle));
            proof {
                assert(entry_names(self.entries@) =~= names.push(outbound_name@));
                lemma_first_index(names, outbound_name@);
                assert forall|name: Seq<char>|
                    #![trigger self@.dom().contains(name)]
                    #![trigger target.dom().contains(name)]
                    (self@.dom().contains(name) <==> target.dom().contains(name)) && (
                    self@.dom().contains(name) ==> self@[name] == target[name]) by {
                    lemma_first_index_push(names, outbound_name@, name);
                    lemma_first_index(names, name);
                }
                assert(self@ =~= target);
                if old(self).wf() {
                    assert forall|a: int, b: int| 0 <= a < b < self.entries.len() implies (
                    #[trigger] self.entries[a]).0@ != (#[trigger] self.entries[b]).0@ by {
                        if b == before.len() {
                            assert(names[a] == before[a].0@);
                        } else {
                            assert(self.entries[a] == before[a]);
                            assert(self.entries[b] == before[b]);
                        }
                    }
                }
            }
        }
    }

    /// The sender kept under `outbound_name`, if the flow has connected that
    /// outbound.
    pub fn get_outbound_sender_mut(&mut self, outbound_name: &str) -> (res: Option<
        &mut tokio::sync::mpsc::Sender<UdpPacket>,
    >)
        ensures
            match res {
                Some(sender) => {
                    &&& old(self)@.dom().contains(outbound_name@)
                    &&& *sender == old(self)@[outbound_name@].sender
                    &&& final(self)@ == old(self)@.insert(
                        outbound_name@,
                        OutboundHandle { sender: *final(sender), ..old(self)@[outbound_name@] },
                    )
                    &&& final(self).spec_len() == old(self).spec_len()
                    &&& old(self).wf() ==> final(self).wf()
                },
                None => !old(self)@.dom().contains(outbound_name@) && *final(self) == *old(self),
            },
    {
        let i = self.position(outbound_name);
        if i < self.entries.len() {
            proof {
                let before = self.entries@;
                let names = entry_names(before);
                let old_map = self@;
                let wf = self.wf();
                lemma_first_index(names, outbound_name@);
                assert forall|after: OutboundHandleMap|
                    after.entries@.len() == before.len() && (forall|j: int|
                        0 <= j < before.len() ==> (#[trigger] after.entries@[j]).0 == before[j].0)
                        && (forall|j: int|
                        0 <= j < before.len() && j != i ==> (#[trigger] after.entries@[j])
                            == before[j]) && after.entries@[i as int].1.recv_task
                        == before[i as int].1.recv_task && after.entries@[i as int].1.send_task
                        == before[i as int].1.send_task implies #[trigger] after@
                        == old_map.insert(
                        outbound_name@,
                        OutboundHandle {
                            sender: after.entries@[i as int].1.sender,
                            ..old_map[outbound_name@]
                        },
                    ) && (wf ==> after.wf()) by {
                    let target = old_map.insert(
                        outbound_name@,
                        OutboundHandle {
                            sender: after.entries@[i as int].1.sender,
                            ..old_map[outbound_name@]
                        },
                    );
                    assert(entry_names(after.entries@) =~= names);
                    assert forall|name: Seq<char>|
                        #![trigger after@.dom().contains(name)]
                        #![trigger target.dom().contains(name)]
                        (after@.dom().contains(name) <==> target.dom().contains(name)) && (
                        after@.dom().contains(name) ==> after@[name] == target[name]) by {
                        lemma_first_index(names, name);
                    }
                    assert(after@ =~= target);
                }
            }
            Some(&mut self.entries[i].1.sender)
        } else {
            None
        }
    }

    /// Whether the flow has connected the outbound `outbound_name`.
    pub fn contains(&self, outbound_name: &str) -> (res: bool)
        ensures
            res == self@.dom().contains(outbound_name@),
    {
        self.position(outbound_name) < self.entries.len()
    }

    /// Cancels every task that the map keeps and forgets all entries.
    pub fn abort_all(&mut self)
        ensures
            final(self)@ == Map::<Seq<char>, OutboundHandle>::empty(),
            final(self).spec_len() == 0,
            final(self).wf(),
    {
        let mut i: usize = 0;
        while i < self.entries.len()
            invariant
                i <= self.entries.len(),
            decreases self.entries.len() - i,
        {
            abort_task(&self.entries[i].1.recv_task);
            abort_task(&self.entries[i].1.send_task);
            i = i + 1;
        }
        self.entries = Vec::new();
        assert(self@ =~= Map::<Seq<char>, OutboundHandle>::empty());
    }
}

/// How many packets each channel of a flow holds before a sender has to
/// wait.
pub const CHANNEL_CAPACITY: usize = 32;

/// The channel through which a flow feeds one outbound.
pub fn forwarder_channel() -> (res: (
    tokio::sync::mpsc::Sender<UdpPacket>,
    tokio::sync::mpsc::Receiver<UdpPacket>,
))
    ensures
        buffer_of(res.0) == CHANNEL_CAPACITY,
{
    packet_channel(CHANNEL_CAPACITY)
}

/// The channel through which the replies of all outbounds of a flow come
/// back to the local side.
pub fn reply_channel() -> (res: (
    tokio::sync::mpsc::Sender<UdpPacket>,
    tokio::sync::mpsc::Receiver<UdpPacket>,
))
    ensures
        buffer_of(res.0) == CHANNEL_CAPACITY,
{
    packet_channel(CHANNEL_CAPACITY)
}

/// The session under which one packet of a flow is routed: the session of
/// the flow, from the sender of the packet to its destination.
pub open spec fn packet_session_view(base: SessionView, packet: UdpPacketView) -> SessionView {
    SessionView { source: packet.src_addr->Ip_0, destination: packet.dst_addr, ..base }
}

/// A reply on its way back: addressed to the client, else unchanged.
pub open spec fn nat_reply_view(packet: UdpPacketView, client: SocketAddress) -> UdpPacketView {
    UdpPacketView { dst_addr: SocksAddrView::Ip(client), ..packet }
}

/// The session under which `packet` is routed. The packet has to come from
/// a socket address.
pub fn packet_session(base: &Session, packet: &UdpPacket) -> (sess: Session)
    requires
        packet@.src_addr is Ip,
    ensures
        sess@ == packet_session_view(base@, packet@),
{
    let mut sess = base.clone();
    sess.source = packet.src_addr.clone().must_into_socket_addr();
    sess.destination = packet.dst_addr.clone();
    sess
}

/// Turns the destination of a reply back to the client that the flow
/// belongs to. The payload and the sender stay as they are.
pub fn nat_reply(packet: UdpPacket, client: SocketAddress) -> (res: UdpPacket)
    ensures
        res@ == nat_reply_view(packet@, client),
{
    let mut packet = packet;
    packet.dst_addr = SocksAddr::from_socket_addr(client);
    packet
}

/// What the packet loop of a flow does with a packet once the router has
/// named the outbound for it.
#[derive(Clone, Copy, Debug, PartialEq, Eq, Structural)]
pub enum PacketAction {
    /// The outbound is connected: the packet goes to its sender.
    Forward,
    /// The outbound is not connected yet: connect it, then send the packet.
    Connect,
    /// The flow has ended: the packet is dropped and the loop stops.
    Stop,
}

/// The state of the packet loop of one flow: the session that the flow was
/// opened with, the outbounds connected so far, and whether the loop still
/// runs.
pub struct DatagramFlow {
    sess: Session,
    handles: OutboundHandleMap,
    running: bool,
}

impl DatagramFlow {
    /// The session that the flow was opened with.
    pub closed spec fn session(&self) -> Session {
        self.sess
    }

    /// The outbounds connected so far.
    pub closed spec fn handles(&self) -> OutboundHandleMap {
        self.handles
    }

    /// Whether the packet loop still runs.
    pub closed spec fn running(&self) -> bool {
        self.running
    }

    /// A flow ends with nothing left in its map.
    pub open spec fn wf(&self) -> bool {
        &&& self.handles().wf()
        &&& !self.running() ==> self.handles().spec_len() == 0
    }

    pub fn new(sess: Session) -> (flow: Self)
        ensures
            flow.session() == sess,
            flow.handles()@ == Map::<Seq<char>, OutboundHandle>::empty(),
            flow.running(),
            flow.wf(),
    {
        DatagramFlow { sess, handles: OutboundHandleMap::new(), running: true }
    }

    pub fn is_running(&self) -> (res: bool)
        ensures
            res == self.running(),
    {
        self.running
    }

    /// How many outbounds are connected.
    pub fn outbound_count(&self) -> (n: usize)
        ensures
            n == self.handles().spec_len(),
    {
        self.handles.len()
    }

    /// The session under which `packet` is routed.
    pub fn packet_session(&self, packet: &UdpPacket) -> (sess: Session)
        requires
            packet@.src_addr is Ip,
        ensures
            sess@ == packet_session_view(self.session()@, packet@),
    {
        packet_session(&self.sess, packet)
    }

    /// What to do with a packet that the router sends to `outbound_name`.
    pub fn on_packet(&self, outbound_name: &str) -> (action: PacketAction)
        ensures
            action == if !self.running() {
                PacketAction::Stop
            } else if self.handles()@.dom().contains(outbound_name@) {
                PacketAction::Forward
            } else {
                PacketAction::Connect
            },
    {
        if !self.running {
            PacketAction::Stop
        } else if self.handles.contains(outbound_name) {
            PacketAction::Forward
        } else {
            PacketAction::Connect
        }
    }

    /// The map of connected outbounds, to look up a sender in.
    pub fn handles_mut(&mut self) -> (res: &mut OutboundHandleMap)
        ensures
            *res == old(self).handles(),
            final(self).handles() == *final(res),
            final(self).session() == old(self).session(),
            final(self).running() == old(self).running(),
    {
        &mut self.handles
    }

    /// The outbound `outbound_name` was connected: its two tasks and the
    /// sender into them are kept under its name. A flow that has ended keeps
    /// nothing: it cancels the two tasks at once.
    pub fn on_connected(
        &mut self,
        outbound_name: &str,
        recv_handle: tokio::task::JoinHandle<()>,
        send_handle: tokio::task::JoinHandle<()>,
        sender: tokio::sync::mpsc::Sender<UdpPacket>,
    )
        ensures
            final(self).handles()@ == if old(self).running() {
                old(self).handles()@.insert(
                    outbound_name@,
                    OutboundHandle { recv_task: recv_handle, send_task: send_handle, sender },
                )
            } else {
                old(self).handles()@
            },
            final(self).session() == old(self).session(),
            final(self).running() == old(self).running(),
            old(self).wf() ==> final(self).wf(),
    {
        if self.running {
            self.handles.insert(outbound_name, recv_handle, send_handle, sender);
        } else {
            abort_task(&recv_handle);
            abort_task(&send_handle);
        }
    }

    /// An outbound could not be connected: the whole flow ends, and every
    /// task of every outbound connected before is cancelled.
    pub fn on_connect_failed(&mut self)
        ensures
            !final(self).running(),
            final(self).handles()@ == Map::<Seq<char>, OutboundHandle>::empty(),
            final(self).session() == old(self).session(),
            final(self).wf(),
    {
        self.running = false;
        self.handles.abort_all();
    }

    /// The flow was closed from outside: every task of every outbound is
    /// cancelled and the loop stops.
    pub fn close(&mut self)
        ensures
            !final(self).running(),
            final(self).handles()@ == Map::<Seq<char>, OutboundHandle>::empty(),
            final(self).handles().spec_len() == 0,
            final(self).session() == old(self).session(),
            final(self).wf(),
    {
        self.running = false;
        self.handles.abort_all();
    }
}

/// The channels of a flow that its tasks share: the one on which replies
/// come back, and the one-shot channel that closes the flow.
pub struct FlowChannels {
    pub reply_sender: tokio::sync::mpsc::Sender<UdpPacket>,
    pub reply_receiver: tokio::sync::mpsc::Receiver<UdpPacket>,
    pub close_sender: tokio::sync::oneshot::Sender<u8>,
    pub close_receiver: tokio::sync::oneshot::Receiver<u8>,
}

/// How far the dispatch of a stream has come.
#[derive(Clone, Copy, Debug, PartialEq, Eq, Structural)]
pub enum StreamStage {
    /// The router has not named an outbound yet.
    Matching,
    /// The outbound is being connected.
    Connecting,
    /// Bytes are copied in both directions.
    Relaying,
    /// The outbound could not be connected; the local stream is shut down.
    ShuttingDown,
    /// Nothing is left to do.
    Closed,
}

/// What happened outside since the last step.
#[derive(Debug)]
pub enum StreamEvent {
    /// The router named this outbound.
    Matched(String),
    /// The outbound gave a remote stream.
    Connected,
    /// The outbound gave an error.
    ConnectFailed,
    /// Both directions reached their end, after this many bytes each way.
    Relayed { up: u64, down: u64 },
    /// The copy ended with an error.
    RelayFailed,
    /// The local stream was shut down for writing, or could not be.
    LocalShutDown,
}

/// How the dispatch of a stream ended.
#[derive(Clone, Copy, Debug, PartialEq, Eq, Structural)]
pub enum StreamEnd {
    Closed { up: u64, down: u64 },
    RelayError,
    ConnectError,
}

/// What to do next for a stream.
#[derive(Clone, Copy, Debug, PartialEq, Eq, Structural)]
pub enum StreamAction {
    /// Ask the outbound for a remote stream.
    Connect,
    /// Copy in both directions until both have ended or one fails.
    Relay,
    /// Shut the local stream down for writing.
    ShutdownLocal,
    /// Nothing more: the dispatch ended this way.
    Finish(StreamEnd),
    /// The event does not belong to this stage; nothing changes.
    Ignore,
}

/// The stage and the action that follow from a stage and an event.
pub open spec fn stream_step(stage: StreamStage, event: StreamEvent) -> (StreamStage, StreamAction) {
    match (stage, event) {
        (StreamStage::Matching, StreamEvent::Matched(_)) => (
            StreamStage::Connecting,
            StreamAction::Connect,
        ),
        (StreamStage::Connecting, StreamEvent::Connected) => (
            StreamStage::Relaying,
            StreamAction::Relay,
        ),
        (StreamStage::Connecting, StreamEvent::ConnectFailed) => (
            StreamStage::ShuttingDown,
            StreamAction::ShutdownLocal,
        ),
        (StreamStage::Relaying, StreamEvent::Relayed { up, down }) => (
            StreamStage::Closed,
            StreamAction::Finish(StreamEnd::Closed { up, down }),
        ),
        (StreamStage::Relaying, StreamEvent::RelayFailed) => (
            StreamStage::Closed,
            StreamAction::Finish(StreamEnd::RelayError),
        ),
        (StreamStage::ShuttingDown, StreamEvent::LocalShutDown) => (
            StreamStage::Closed,
            StreamAction::Finish(StreamEnd::ConnectError),
        ),
        _ => (stage, StreamAction::Ignore),
    }
}

/// How many steps a stage is away from the start.
pub open spec fn stage_rank(stage: StreamStage) -> nat {
    match stage {
        StreamStage::Matching => 0,
        StreamStage::Connecting => 1,
        StreamStage::Relaying => 2,
        StreamStage::ShuttingDown => 2,
        StreamStage::Closed => 3,
    }
}

/// Every event that is not ignored brings the dispatch one stage further,
/// so a dispatch ends after three such events; once closed, it ignores
/// every event. The local stream is shut down only when the outbound could
/// not be connected, and bytes are copied only when it could.
pub proof fn lemma_stream_progress(stage: StreamStage, event: StreamEvent)
    ensures
        stream_step(stage, event).1 != StreamAction::Ignore ==> stage_rank(
            stream_step(stage, event).0,
        ) == stage_rank(stage) + 1,
        stream_step(stage, event).1 == StreamAction::Ignore ==> stream_step(stage, event).0
            == stage,
        stage == StreamStage::Closed ==> stream_step(stage, event).1 == StreamAction::Ignore,
        stream_step(stage, event).1 == StreamAction::ShutdownLocal <==> stage
            == StreamStage::Connecting && event == StreamEvent::ConnectFailed,
        stream_step(stage, event).1 == StreamAction::Relay <==> stage == StreamStage::Connecting
            && event == StreamEvent::Connected,
{
}

/// The dispatch of one stream: its session and how far it has come.
pub struct StreamDispatch {
    sess: Session,
    stage: StreamStage,
}

impl StreamDispatch {
    pub closed spec fn session(&self) -> Session {
        self.sess
    }

    pub closed spec fn stage(&self) -> StreamStage {
        self.stage
    }

    pub fn new(sess: Session) -> (run: Self)
        ensures
            run.session() == sess,
            run.stage() == StreamStage::Matching,
    {
        StreamDispatch { sess, stage: StreamStage::Matching }
    }

    pub fn get_session(&self) -> (sess: &Session)
        ensures
            *sess == self.session(),
    {
        &self.sess
    }

    pub fn get_stage(&self) -> (stage: StreamStage)
        ensures
            stage == self.stage(),
    {
        self.stage
    }

    /// The session after an event: the outbound that the router named is
    /// written into it.
    pub open spec fn session_step(sess: SessionView, stage: StreamStage, event: StreamEvent)
        -> SessionView {
        match (stage, event) {
            (StreamStage::Matching, StreamEvent::Matched(name)) => SessionView {
                outbound_target: name@,
                ..sess
            },
            _ => sess,
        }
    }

    /// Takes an event and says what to do next.
    pub fn step(&mut self, event: StreamEvent) -> (action: StreamAction)
        ensures
            (final(self).stage(), action) == stream_step(old(self).stage(), event),
            final(self).session()@ == Self::session_step(
                old(self).session()@,
                old(self).stage(),
                event,
            ),
    {
        let (next, action) = match (self.stage, event) {
            (StreamStage::Matching, StreamEvent::Matched(name)) => {
                self.sess.outbound_target = name;
                (StreamStage::Connecting, StreamAction::Connect)
            },
            (StreamStage::Connecting, StreamEvent::Connected) => (
                StreamStage::Relaying,
                StreamAction::Relay,
            ),
            (StreamStage::Connecting, StreamEvent::ConnectFailed) => (
                StreamStage::ShuttingDown,
                StreamAction::ShutdownLocal,
            ),
            (StreamStage::Relaying, StreamEvent::Relayed { up, down }) => (
                StreamStage::Closed,
                StreamAction::Finish(StreamEnd::Closed { up, down }),
            ),
            (StreamStage::Relaying, StreamEvent::RelayFailed) => (
                StreamStage::Closed,
                StreamAction::Finish(StreamEnd::RelayError),
            ),
            (StreamStage::ShuttingDown, StreamEvent::LocalShutDown) => (
                StreamStage::Closed,
                StreamAction::Finish(StreamEnd::ConnectError),
            ),
            (stage, _) => (stage, StreamAction::Ignore),
        };
        self.stage = next;
        action
    }
}

/// The three collaborators that every dispatch needs: the registry of
/// outbounds, the router and the resolver. The dispatcher hands them out and
/// opens the state of each dispatch; it never calls them itself.
pub struct Dispatcher<M, R, D> {
    outbound_manager: M,
    router: R,
    resolver: D,
}

impl<M, R, D> Dispatcher<M, R, D> {
    pub closed spec fn spec_outbound_manager(&self) -> M {
        self.outbound_manager
    }

    pub closed spec fn spec_router(&self) -> R {
        self.router
    }

    pub closed spec fn spec_resolver(&self) -> D {
        self.resolver
    }

    pub fn new(outbound_manager: M, router: R, resolver: D) -> (res: Self)
        ensures
            res.spec_outbound_manager() == outbound_manager,
            res.spec_router() == router,
            res.spec_resolver() == resolver,
    {
        Self { outbound_manager, router, resolver }
    }

    pub fn outbound_manager(&self) -> (res: &M)
        ensures
            *res == self.spec_outbound_manager(),
    {
        &self.outbound_manager
    }

    pub fn router(&self) -> (res: &R)
        ensures
            *res == self.spec_router(),
    {
        &self.router
    }

    pub fn resolver(&self) -> (res: &D)
        ensures
            *res == self.spec_resolver(),
    {
        &self.resolver
    }

    /// Opens the dispatch of a stream under `sess`. The router is to be
    /// asked first.
    pub fn dispatch_stream(&self, sess: Session) -> (run: StreamDispatch)
        ensures
            run.session() == sess,
            run.stage() == StreamStage::Matching,
    {
        StreamDispatch::new(sess)
    }

    /// Opens a packet flow under `sess`: the state of its packet loop, with
    /// no outbound connected, and the channels that its tasks share. The
    /// sending end of the close channel is what the caller keeps to end the
    /// flow.
    pub fn dispatch_datagram(&self, sess: Session) -> (res: (DatagramFlow, FlowChannels))
        ensures
            res.0.session() == sess,
            res.0.handles()@ == Map::<Seq<char>, OutboundHandle>::empty(),
            res.0.running(),
            res.0.wf(),
            buffer_of(res.1.reply_sender) == CHANNEL_CAPACITY,
    {
        let flow = DatagramFlow::new(sess);
        let (reply_sender, reply_receiver) = reply_channel();
        let (close_sender, close_receiver) = oneshot_channel::<u8>();
        (flow, FlowChannels { reply_sender, reply_receiver, close_sender, close_receiver })
    }
}

} // verus!

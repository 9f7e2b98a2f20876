//! The table of listening TCP ports and the queues of half-open connections
//! waiting to be accepted on each.
use vstd::prelude::*;
use std::collections::VecDeque;

verus! {

/// The number of TCP ports.
pub const PORT_NUM: usize = 65536;

/// The most half-open connections a listening port keeps.
pub const LISTEN_QUEUE_SIZE: usize = 512;

/// The address and port a socket listens on; `None` listens on every
/// local IPv4 address.
#[derive(Clone, Copy, Debug, PartialEq, Eq, Structural)]
pub struct ListenEndpoint {
    pub addr: Option<u32>,
    pub port: u16,
}

/// Why a listen-table operation failed.
#[derive(Clone, Copy, Debug, PartialEq, Eq, Structural)]
pub enum NetError {
    /// The port is already listened on.
    AddrInUse,
    /// The port is not listened on.
    InvalidInput,
    /// No connection is established yet.
    WouldBlock,
}

/// The state of one listening port: its endpoint and the socket handles of
/// the connections that arrived, oldest first.
pub struct ListenTableEntry {
    listen_endpoint: ListenEndpoint,
    syn_queue: VecDeque<usize>,
}

/// What the contracts say of a listening port.
pub struct EntryView {
    pub endpoint: ListenEndpoint,
    pub syn_queue: Seq<usize>,
}

/// Whether a port listening on `ep` takes a connection addressed to `dst`.
pub open spec fn accepts(ep: ListenEndpoint, dst: u32) -> bool {
    match ep.addr {
        Some(a) => a == dst,
        None => true,
    }
}

/// `VecDeque::swap_remove_front`: removes the element at `index` and puts
/// the front element in its place (`None`, and no change, when `index` is out
/// of range).
#[verifier::external_body]
fn deque_swap_remove_front(q: &mut VecDeque<usize>, index: usize) -> (r: Option<usize>)
    ensures
        index < old(q)@.len() ==> r == Some(old(q)@[index as int]) && final(q)@ == old(q)@.update(
            index as int,
            old(q)@[0],
        ).subrange(1, old(q)@.len() as int),
        index >= old(q)@.len() ==> r is None && final(q)@ == old(q)@,
{
    q.swap_remove_front(index)
}

impl ListenTableEntry {
    /// A port listening on `listen_endpoint` with no connection yet.
    pub fn new(listen_endpoint: ListenEndpoint) -> (r: ListenTableEntry)
        ensures
            r.view_entry() == (EntryView { endpoint: listen_endpoint, syn_queue: Seq::empty() }),
    {
        ListenTableEntry {
            listen_endpoint,
            syn_queue: VecDeque::with_capacity(LISTEN_QUEUE_SIZE),
        }
    }

    pub closed spec fn view_entry(&self) -> EntryView {
        EntryView { endpoint: self.listen_endpoint, syn_queue: self.syn_queue@ }
    }

    /// Whether this port takes a connection addressed to `dst`.
    pub fn can_accept(&self, dst: u32) -> (r: bool)
        ensures
            r == accepts(self.view_entry().endpoint, dst),
    {
        match self.listen_endpoint.addr {
            Some(addr) => addr == dst,
            None => true,
        }
    }
}

/// The listen table: one slot per TCP port.
pub struct ListenTable {
    tcp: Vec<Option<ListenTableEntry>>,
}

/// The view of one slot.
pub open spec fn slot_view(e: Option<ListenTableEntry>) -> Option<EntryView> {
    match e {
        Some(x) => Some(x.view_entry()),
        None => None,
    }
}

/// The slots after listening on `ep`: a free port starts listening with an
/// empty queue; a port already listened on is left as it is.
pub open spec fn slots_after_listen(s: Seq<Option<EntryView>>, ep: ListenEndpoint) -> Seq<
    Option<EntryView>,
> {
    if s[ep.port as int] is None {
        s.update(ep.port as int, Some(EntryView { endpoint: ep, syn_queue: Seq::empty() }))
    } else {
        s
    }
}

/// The slots after unlistening `port`.
pub open spec fn slots_after_unlisten(s: Seq<Option<EntryView>>, port: u16) -> Seq<
    Option<EntryView>,
> {
    s.update(port as int, None)
}

/// The index of the first `true` in `flags`, if any.
pub open spec fn first_true(flags: Seq<bool>) -> Option<int> {
    if exists|i: int| 0 <= i < flags.len() && flags[i] {
        Some(choose|i: int| 0 <= i < flags.len() && flags[i] && forall|j: int| 0 <= j < i ==> !flags[j])
    } else {
        None
    }
}

impl ListenTable {
    /// The slots, indexed by port.
    pub closed spec fn slots(&self) -> Seq<Option<EntryView>> {
        self.tcp@.map_values(|e: Option<ListenTableEntry>| slot_view(e))
    }

    /// One slot per port, and no port keeps more than `LISTEN_QUEUE_SIZE`
    /// connections.
    pub open spec fn wf(&self) -> bool {
        &&& self.slots().len() == PORT_NUM
        &&& forall|p: int|
            0 <= p < PORT_NUM && (#[trigger] self.slots()[p]) is Some ==> self.slots()[p].unwrap().syn_queue.len()
                <= LISTEN_QUEUE_SIZE
    }

    /// A table in which no port is listened on.
    pub fn new() -> (r: ListenTable)
        ensures
            r.wf(),
            forall|p: int| 0 <= p < PORT_NUM ==> #[trigger] r.slots()[p] is None,
    {
        let mut tcp: Vec<Option<ListenTableEntry>> = Vec::with_capacity(PORT_NUM);
        let mut i: usize = 0;
        while i < PORT_NUM
            invariant
                i <= PORT_NUM,
                tcp@.len() == i,
                forall|p: int| 0 <= p < i ==> #[trigger] tcp@[p] is None,
            decreases PORT_NUM - i,
        {
            tcp.push(None);
            i = i + 1;
        }
        let r = ListenTable { tcp };
        assert forall|p: int| 0 <= p < PORT_NUM implies #[trigger] r.slots()[p] is None by {
            assert(r.tcp@[p] is None);
        }
        r
    }

    /// Whether nothing listens on `port`.
    pub fn can_listen(&self, port: u16) -> (r: bool)
        requires
            self.wf(),
        ensures
            r == (self.slots()[port as int] is None),
    {
        match &self.tcp[port as usize] {
            Some(_) => false,
            None => true,
        }
    }

    /// The handles of the connections waiting on `port`, oldest first, or
    /// `None` when nothing listens there.
    pub fn syn_queue(&self, port: u16) -> (r: Option<Vec<usize>>)
        requires
            self.wf(),
        ensures
            match self.slots()[port as int] {
                Some(e) => r is Some && r.unwrap()@ == e.syn_queue,
                None => r is None,
            },
    {
        match &self.tcp[port as usize] {
            Some(e) => {
                let n = e.syn_queue.len();
                let mut handles: Vec<usize> = Vec::new();
                let mut i: usize = 0;
                while i < n
                    invariant
                        n == e.syn_queue@.len(),
                        i <= n,
                        handles@ == e.syn_queue@.subrange(0, i as int),
                    decreases n - i,
                {
                    handles.push(e.syn_queue[i]);
                    i = i + 1;
                    assert(handles@ =~= e.syn_queue@.subrange(0, i as int));
                }
                assert(handles@ =~= e.syn_queue@);
                Some(handles)
            },
            None => None,
        }
    }

    /// Starts listening on `listen_endpoint`; a port already listened on is
    /// refused with `AddrInUse`.
    pub fn listen(&mut self, listen_endpoint: ListenEndpoint) -> (r: Result<(), NetError>)
        requires
            old(self).wf(),
            listen_endpoint.port != 0,
        ensures
            final(self).wf(),
            final(self).slots() == slots_after_listen(old(self).slots(), listen_endpoint),
            ({
                let p = listen_endpoint.port as int;
                if old(self).slots()[p] is None {
                    &&& r == Ok::<(), NetError>(())
                    &&& final(self).slots() == old(self).slots().update(
                        p,
                        Some(EntryView { endpoint: listen_endpoint, syn_queue: Seq::empty() }),
                    )
                } else {
                    &&& r == Err::<(), NetError>(NetError::AddrInUse)
                    &&& final(self).slots() == old(self).slots()
                }
            }),
    {
        let port = listen_endpoint.port as usize;
        let free = match &self.tcp[port] {
            Some(_) => false,
            None => true,
        };
        if free {
            let e = ListenTableEntry::new(listen_endpoint);
            self.tcp.set(port, Some(e));
            assert(self.slots() =~= old(self).slots().update(
                port as int,
                Some(EntryView { endpoint: listen_endpoint, syn_queue: Seq::empty() }),
            ));
            Ok(())
        } else {
            Err(NetError::AddrInUse)
        }
    }

    /// Stops listening on `port`. Returns the handles of the connections
    /// that were still waiting to be accepted: their sockets are closed.
    pub fn unlisten(&mut self, port: u16) -> (r: Vec<usize>)
        requires
            old(self).wf(),
        ensures
            final(self).wf(),
            final(self).slots() == slots_after_unlisten(old(self).slots(), port),
            r@ == (match old(self).slots()[port as int] {
                Some(e) => e.syn_queue,
                None => Seq::empty(),
            }),
    {
        let p = port as usize;
        let mut slot: Option<ListenTableEntry> = None;
        std::mem::swap(&mut slot, &mut self.tcp[p]);
        let mut handles: Vec<usize> = Vec::new();
        match slot {
            Some(e) => {
                let n = e.syn_queue.len();
                let mut i: usize = 0;
                while i < n
                    invariant
                        n == e.syn_queue@.len(),
                        i <= n,
                        handles@ == e.syn_queue@.subrange(0, i as int),
                    decreases n - i,
                {
                    handles.push(e.syn_queue[i]);
                    i = i + 1;
                    assert(handles@ =~= e.syn_queue@.subrange(0, i as int));
                }
                assert(handles@ =~= e.syn_queue@);
            },
            None => {},
        }
        assert(self.slots() =~= old(self).slots().update(port as int, None));
        handles
    }

    /// Whether a connection on `port` is ready to be accepted. `connected`
    /// tells, for each waiting connection in order, whether it is
    /// established. A port not listened on is refused with `InvalidInput`.
    pub fn can_accept(&self, port: u16, connected: &[bool]) -> (r: Result<bool, NetError>)
        requires
            self.wf(),
            self.slots()[port as int] is Some ==> connected@.len()
                == self.slots()[port as int].unwrap().syn_queue.len(),
        ensures
            match self.slots()[port as int] {
                Some(e) => r == Ok::<bool, NetError>(
                    exists|i: int| 0 <= i < connected@.len() && connected@[i],
                ),
                None => r == Err::<bool, NetError>(NetError::InvalidInput),
            },
    {
        match &self.tcp[port as usize] {
            Some(_) => {
                assert(self.slots()[port as int] == slot_view(self.tcp@[port as int]));
                let n = connected.len();
                let mut i: usize = 0;
                while i < n
                    invariant
                        self.slots()[port as int] is Some,
                        n == connected@.len(),
                        i <= n,
                        forall|j: int| 0 <= j < i ==> !connected@[j],
                    decreases n - i,
                {
                    if connected[i] {
                        assert(connected@[i as int]);
                        return Ok(true);
                    }
                    i = i + 1;
                }
                Ok(false)
            },
            None => Err(NetError::InvalidInput),
        }
    }

    /// Accepts the oldest established connection on `port` (`connected` as
    /// for [`ListenTable::can_accept`]): its handle leaves the queue, whose
    /// front connection takes its place. With none established the answer is
    /// `WouldBlock`; a port not listened on is refused with `InvalidInput`.
    pub fn accept(&mut self, port: u16, connected: &[bool]) -> (r: Result<usize, NetError>)
        requires
            old(self).wf(),
            old(self).slots()[port as int] is Some ==> connected@.len() == old(
                self,
            ).slots()[port as int].unwrap().syn_queue.len(),
        ensures
            final(self).wf(),
            match old(self).slots()[port as int] {
                None => r == Err::<usize, NetError>(NetError::InvalidInput) && final(self).slots()
                    == old(self).slots(),
                Some(e) => match first_true(connected@) {
                    None => r == Err::<usize, NetError>(NetError::WouldBlock) && final(self).slots()
                        == old(self).slots(),
                    Some(i) => {
                        &&& r == Ok::<usize, NetError>(e.syn_queue[i])
                        &&& final(self).slots() == old(self).slots().update(
                            port as int,
                            Some(
                                EntryView {
                                    endpoint: e.endpoint,
                                    syn_queue: e.syn_queue.update(i, e.syn_queue[0]).subrange(
                                        1,
                                        e.syn_queue.len() as int,
                                    ),
                                },
                            ),
                        )
                    },
                },
            },
    {
        let p = port as usize;
        let listening = match &self.tcp[p] {
            Some(_) => true,
            None => false,
        };
        if !listening {
            return Err(NetError::InvalidInput);
        }
        let n = connected.len();
        let mut i: usize = 0;
        while i < n
            invariant
                n == connected@.len(),
                i <= n,
                forall|j: int| 0 <= j < i ==> !connected@[j],
            ensures
                i <= n,
                forall|j: int| 0 <= j < i ==> !connected@[j],
                i < n ==> connected@[i as int],
            decreases n - i,
        {
            if connected[i] {
                break;
            }
            i = i + 1;
        }
        if i == n {
            assert(!exists|j: int| 0 <= j < connected@.len() && connected@[j]);
            return Err(NetError::WouldBlock);
        }
        proof {
            assert(connected@[i as int]);
            let k = choose|k: int|
                0 <= k < connected@.len() && connected@[k] && forall|j: int| 0 <= j < k ==> !connected@[j];
            assert(0 <= k < connected@.len() && connected@[k] && forall|j: int| 0 <= j < k ==> !connected@[j]);
            if k < i {
            } else if k > i {
                assert(!connected@[i as int]);
            }
        }
        let mut slot: Option<ListenTableEntry> = None;
        std::mem::swap(&mut slot, &mut self.tcp[p]);
        let mut e = slot.unwrap();
        let handle = deque_swap_remove_front(&mut e.syn_queue, i).unwrap();
        self.tcp.set(p, Some(e));
        assert(self.slots() =~= old(self).slots().update(
            port as int,
            Some(
                EntryView {
                    endpoint: old(self).slots()[port as int].unwrap().endpoint,
                    syn_queue: old(self).slots()[port as int].unwrap().syn_queue.update(
                        i as int,
                        old(self).slots()[port as int].unwrap().syn_queue[0],
                    ).subrange(1, old(self).slots()[port as int].unwrap().syn_queue.len() as int),
                },
            ),
        ));
        Ok(handle)
    }

    /// A first SYN arrived for `dst_addr:dst_port`: returns the endpoint a new
    /// socket must listen on to take the connection, or `None` when nothing
    /// listens there for that address or the port's queue is full.
    pub fn incoming_tcp_packet(&self, dst_addr: u32, dst_port: u16) -> (r: Option<ListenEndpoint>)
        requires
            self.wf(),
        ensures
            match self.slots()[dst_port as int] {
                None => r is None,
                Some(e) => if accepts(e.endpoint, dst_addr) && e.syn_queue.len()
                    < LISTEN_QUEUE_SIZE {
                    r == Some(e.endpoint)
                } else {
                    r is None
                },
            },
    {
        match &self.tcp[dst_port as usize] {
            Some(entry) => {
                if !entry.can_accept(dst_addr) {
                    return None;
                }
                if entry.syn_queue.len() >= LISTEN_QUEUE_SIZE {
                    return None;
                }
                Some(entry.listen_endpoint)
            },
            None => None,
        }
    }

    /// Queues the handle of the socket created for an incoming connection on
    /// `port`, as decided by [`ListenTable::incoming_tcp_packet`].
    pub fn push_syn(&mut self, port: u16, handle: usize)
        requires
            old(self).wf(),
            old(self).slots()[port as int] is Some,
            old(self).slots()[port as int].unwrap().syn_queue.len() < LISTEN_QUEUE_SIZE,
        ensures
            final(self).wf(),
            final(self).slots() == old(self).slots().update(
                port as int,
                Some(
                    EntryView {
                        endpoint: old(self).slots()[port as int].unwrap().endpoint,
                        syn_queue: old(self).slots()[port as int].unwrap().syn_queue.push(handle),
                    },
                ),
            ),
    {
        let p = port as usize;
        let mut slot: Option<ListenTableEntry> = None;
        std::mem::swap(&mut slot, &mut self.tcp[p]);
        let mut e = slot.unwrap();
        e.syn_queue.push_back(handle);
        self.tcp.set(p, Some(e));
        assert(self.slots() =~= old(self).slots().update(
            port as int,
            Some(
                EntryView {
                    endpoint: old(self).slots()[port as int].unwrap().endpoint,
                    syn_queue: old(self).slots()[port as int].unwrap().syn_queue.push(handle),
                },
            ),
        ));
    }
}

} // verus!

verus! {

/// Listening on a free port and then unlistening it leaves the table as it
/// was; listening again on a port already listened on changes nothing.
pub proof fn law_listen_unlisten(t: ListenTable, ep: ListenEndpoint, other: ListenEndpoint)
    requires
        t.wf(),
        t.slots()[ep.port as int] is None,
        other.port == ep.port,
    ensures
        slots_after_unlisten(slots_after_listen(t.slots(), ep), ep.port) == t.slots(),
        slots_after_listen(slots_after_listen(t.slots(), ep), other) == slots_after_listen(
            t.slots(),
            ep,
        ),
{
    assert(slots_after_unlisten(slots_after_listen(t.slots(), ep), ep.port) =~= t.slots());
}

/// A port listened on without an address takes connections to every
/// destination address; one listened on a given address takes exactly the
/// connections to that address.
pub proof fn law_accepts(port: u16, a: u32, dst: u32)
    ensures
        accepts(ListenEndpoint { addr: None, port }, dst),
        accepts(ListenEndpoint { addr: Some(a), port }, dst) <==> a == dst,
{
}

} // verus!

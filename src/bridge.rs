use vstd::prelude::*;

use crate::config::{push_text, string_from_chars, PortConfig};
use crate::scrollback::{lemma_tail_append, tail, Scrollback};

verus! {

/// How many chunks may wait in the outbound queue before writers block.
pub const OUTBOUND_QUEUE_CAPACITY: usize = 256;

/// The most bytes the inbound pump takes from the device per read.
pub const READ_CHUNK_SIZE: usize = 1024;

/// How many chunks the fan-out channel keeps for a subscriber that falls
/// behind before it reports them as dropped.
pub const FANOUT_RETAINED: usize = 1024;

/// An open device: the settings it was opened with, and the handles of what
/// runs for it (the two pumps and the producer end of the outbound queue).
pub struct Connection<H> {
    pub config: PortConfig,
    pub handles: H,
}

/// Why an open request was refused.
#[derive(Debug)]
pub enum ConnectError {
    /// A device is already open.
    Conflict,
    /// The device could not be opened; the reason from the device layer.
    OpenFailed(String),
}

/// What `status` reports.
#[derive(Debug)]
pub struct Status {
    pub connected: bool,
    pub port: Option<String>,
    pub config: Option<PortConfig>,
}

/// What the inbound pump does after one read of the device.
#[derive(Debug)]
pub enum InboundStep {
    /// Publish these bytes to every subscriber and read again.
    Publish(Vec<u8>),
    /// The device reported end of stream: stop.
    EndOfStream,
    /// The read failed: stop.
    Failed(String),
}

/// A lifecycle request: an open attempt (and whether the device itself
/// opened) or a close.
pub enum LifecycleOp {
    Open { device_opens: bool },
    Close,
}

/// Whether a device is open after `op`, starting from `was_open`.
pub open spec fn open_after(was_open: bool, op: LifecycleOp) -> bool {
    match op {
        LifecycleOp::Open { device_opens } => was_open || device_opens,
        LifecycleOp::Close => false,
    }
}

/// Whether `op` succeeds when started with `was_open`.
pub open spec fn op_succeeds(was_open: bool, op: LifecycleOp) -> bool {
    match op {
        LifecycleOp::Open { device_opens } => !was_open && device_opens,
        LifecycleOp::Close => true,
    }
}

/// Whether a device is open after running `ops` from `was_open`.
pub open spec fn open_after_all(was_open: bool, ops: Seq<LifecycleOp>) -> bool
    decreases ops.len(),
{
    if ops.len() == 0 {
        was_open
    } else {
        open_after(open_after_all(was_open, ops.drop_last()), ops.last())
    }
}

/// How many open requests in `ops` succeed, starting from `was_open`.
pub open spec fn opens_granted(was_open: bool, ops: Seq<LifecycleOp>) -> nat
    decreases ops.len(),
{
    if ops.len() == 0 {
        0
    } else {
        let before = open_after_all(was_open, ops.drop_last());
        opens_granted(was_open, ops.drop_last()) + if ops.last() is Open && op_succeeds(
            before,
            ops.last(),
        ) {
            1nat
        } else {
            0nat
        }
    }
}

/// Between two closes at most one open succeeds: in any run of requests with
/// no close, at most one open is granted, none when a device was already
/// open, and once one is granted the device stays open to the end of the run.
pub proof fn lemma_single_open_between_closes(was_open: bool, ops: Seq<LifecycleOp>)
    requires
        forall|i: int| 0 <= i < ops.len() ==> !(#[trigger] ops[i] is Close),
    ensures
        opens_granted(was_open, ops) <= 1,
        was_open ==> opens_granted(was_open, ops) == 0,
        opens_granted(was_open, ops) == 1 ==> open_after_all(was_open, ops),
        was_open ==> open_after_all(was_open, ops),
    decreases ops.len(),
{
    if ops.len() > 0 {
        let init = ops.drop_last();
        assert forall|i: int| 0 <= i < init.len() implies !(#[trigger] init[i] is Close) by {
            assert(init[i] == ops[i]);
        }
        lemma_single_open_between_closes(was_open, init);
        assert(ops[ops.len() - 1] == ops.last());
    }
}

/// A close always succeeds and leaves nothing open, whatever came before.
pub proof fn lemma_close_leaves_closed(was_open: bool, ops: Seq<LifecycleOp>)
    requires
        ops.len() > 0,
        ops.last() is Close,
    ensures
        !open_after_all(was_open, ops),
        op_succeeds(open_after_all(was_open, ops.drop_last()), ops.last()),
{
}

/// The single connection slot with the scrollback of its current session.
pub struct Bridge<H> {
    slot: Option<Connection<H>>,
    scrollback: Scrollback,
    received: Ghost<Seq<u8>>,
}

impl<H> Bridge<H> {
    /// The open connection, if any.
    pub closed spec fn connection(&self) -> Option<Connection<H>> {
        self.slot
    }

    /// The bytes the scrollback holds now.
    pub closed spec fn history(&self) -> Seq<u8> {
        self.scrollback@
    }

    /// Every byte received from the device since the scrollback was last cleared.
    pub closed spec fn stream(&self) -> Seq<u8> {
        self.received@
    }

    pub closed spec fn capacity(&self) -> nat {
        self.scrollback.capacity()
    }

    pub closed spec fn wf(&self) -> bool {
        &&& self.scrollback.wf()
        &&& self.scrollback@ == tail(self.received@, self.scrollback.capacity())
    }

    /// A bridge with nothing open and a scrollback of at most `cap` bytes.
    pub fn new(cap: usize) -> (r: Bridge<H>)
        ensures
            r.wf(),
            r.connection() is None,
            r.history() == Seq::<u8>::empty(),
            r.stream() == Seq::<u8>::empty(),
            r.capacity() == cap,
    {
        Bridge { slot: None, scrollback: Scrollback::new(cap), received: Ghost(Seq::empty()) }
    }

    pub fn is_open(&self) -> (r: bool)
        ensures
            r == self.connection() is Some,
    {
        self.slot.is_some()
    }

    fn reset_history(&mut self)
        requires
            old(self).wf(),
        ensures
            final(self).wf(),
            final(self).connection() == old(self).connection(),
            final(self).capacity() == old(self).capacity(),
            final(self).history() == Seq::<u8>::empty(),
            final(self).stream() == Seq::<u8>::empty(),
    {
        self.scrollback.clear();
        self.received = Ghost(Seq::empty());
    }

    /// Installs a connection for `config`, given the outcome of opening the
    /// device. When one is already open nothing changes and the request is a
    /// conflict. Otherwise the scrollback starts over, and the connection is
    /// installed exactly when the device opened.
    pub fn connect(&mut self, config: PortConfig, opened: Result<H, String>) -> (r: Result<
        (),
        ConnectError,
    >)
        requires
            old(self).wf(),
        ensures
            final(self).wf(),
            final(self).capacity() == old(self).capacity(),
            final(self).connection() is Some == open_after(
                old(self).connection() is Some,
                LifecycleOp::Open { device_opens: opened is Ok },
            ),
            r is Ok == op_succeeds(
                old(self).connection() is Some,
                LifecycleOp::Open { device_opens: opened is Ok },
            ),
            old(self).connection() is Some ==> r is Err && r->Err_0 is Conflict && *final(self)
                == *old(self),
            old(self).connection() is None ==> {
                &&& final(self).history() == Seq::<u8>::empty()
                &&& final(self).stream() == Seq::<u8>::empty()
                &&& match opened {
                    Ok(h) => r is Ok && final(self).connection() == Some(
                        (Connection { config, handles: h }),
                    ),
                    Err(e) => r == Err::<(), ConnectError>(ConnectError::OpenFailed(e))
                        && final(self).connection() is None,
                }
            },
    {
        if self.slot.is_some() {
            return Err(ConnectError::Conflict);
        }
        self.reset_history();
        match opened {
            Ok(h) => {
                self.slot = Some(Connection { config, handles: h });
                Ok(())
            },
            Err(e) => Err(ConnectError::OpenFailed(e)),
        }
    }

    /// Takes the open connection out of the slot, if any, and clears the
    /// scrollback with it. With nothing open this changes nothing.
    pub fn disconnect(&mut self) -> (r: Option<Connection<H>>)
        requires
            old(self).wf(),
        ensures
            final(self).wf(),
            final(self).capacity() == old(self).capacity(),
            r == old(self).connection(),
            final(self).connection() is None,
            final(self).connection() is Some == open_after(
                old(self).connection() is Some,
                LifecycleOp::Close,
            ),
            old(self).connection() is Some ==> final(self).history() == Seq::<u8>::empty()
                && final(self).stream() == Seq::<u8>::empty(),
            old(self).connection() is None ==> *final(self) == *old(self),
    {
        let taken = self.slot.take();
        if taken.is_some() {
            self.reset_history();
        }
        taken
    }

    /// Whether a device is open, and which one with which settings.
    pub fn status(&self) -> (r: Status)
        ensures
            r.connected == self.connection() is Some,
            match self.connection() {
                Some(c) => r.port == Some(c.config.port) && r.config == Some(c.config),
                None => r.port is None && r.config is None,
            },
    {
        match &self.slot {
            Some(c) => Status {
                connected: true,
                port: Some(c.config.port.clone()),
                config: Some(c.config.duplicate()),
            },
            None => Status { connected: false, port: None, config: None },
        }
    }

    /// The handles of the open connection, looked up at the moment of use so
    /// that a write never goes to a connection that was already closed.
    pub fn outbound(&self) -> (r: Option<&H>)
        ensures
            match self.connection() {
                Some(c) => r == Some(&c.handles),
                None => r is None,
            },
    {
        match &self.slot {
            Some(c) => Some(&c.handles),
            None => None,
        }
    }

    /// Adds bytes received from the device to the scrollback.
    pub fn record(&mut self, data: &[u8])
        requires
            old(self).wf(),
        ensures
            final(self).wf(),
            final(self).connection() == old(self).connection(),
            final(self).capacity() == old(self).capacity(),
            final(self).stream() == old(self).stream() + data@,
            final(self).history() == tail(old(self).history() + data@, old(self).capacity()),
            final(self).history().len() <= final(self).capacity(),
    {
        proof {
            lemma_tail_append(self.received@, data@, self.scrollback.capacity());
        }
        self.scrollback.append(data);
        self.received = Ghost(self.received@ + data@);
    }

    /// The inbound pump's step after a read of `read` bytes into `buf`: a
    /// zero-length read ends the stream, a failed one stops the pump, and
    /// otherwise the bytes read go to the scrollback and are handed back for
    /// publishing, in the order read.
    pub fn ingest(&mut self, read: Result<usize, String>, buf: &[u8]) -> (r: InboundStep)
        requires
            old(self).wf(),
            read is Ok ==> read->Ok_0 <= buf@.len(),
        ensures
            final(self).wf(),
            final(self).connection() == old(self).connection(),
            final(self).capacity() == old(self).capacity(),
            match read {
                Ok(n) => if n == 0 {
                    r is EndOfStream && *final(self) == *old(self)
                } else {
                    &&& r is Publish
                    &&& r->Publish_0@ == buf@.subrange(0, n as int)
                    &&& final(self).stream() == old(self).stream() + buf@.subrange(0, n as int)
                    &&& final(self).history() == tail(
                        old(self).history() + buf@.subrange(0, n as int),
                        old(self).capacity(),
                    )
                },
                Err(e) => r == InboundStep::Failed(e) && *final(self) == *old(self),
            },
    {
        match read {
            Ok(n) => {
                if n == 0 {
                    InboundStep::EndOfStream
                } else {
                    let chunk = copy_prefix(buf, n);
                    self.record(chunk.as_slice());
                    InboundStep::Publish(chunk)
                }
            },
            Err(e) => InboundStep::Failed(e),
        }
    }

    /// What a newly attached client receives first: the whole scrollback as
    /// one message, or nothing when it is empty.
    pub fn attach(&self) -> (r: Option<Vec<u8>>)
        requires
            self.wf(),
        ensures
            self.history().len() == 0 ==> r is None,
            self.history().len() > 0 ==> r is Some && r->Some_0@ == self.history(),
            self.history() == tail(self.stream(), self.capacity()),
    {
        if self.scrollback.is_empty() {
            None
        } else {
            Some(self.scrollback.contents())
        }
    }
}

impl ConnectError {
    /// The text a client is shown for this refusal.
    pub fn message(&self) -> (r: String)
        ensures
            r@ == match self {
                ConnectError::Conflict => "Already connected. Disconnect first."@,
                ConnectError::OpenFailed(e) => "Failed to open port: "@ + e@,
            },
    {
        let mut out: Vec<char> = Vec::new();
        match self {
            ConnectError::Conflict => push_text(&mut out, "Already connected. Disconnect first."),
            ConnectError::OpenFailed(e) => {
                push_text(&mut out, "Failed to open port: ");
                push_text(&mut out, e.as_str());
            },
        }
        string_from_chars(&out)
    }
}

/// The text a client is shown when `port` was opened.
pub fn connected_message(port: &str) -> (r: String)
    ensures
        r@ == "Connected to "@ + port@,
{
    let mut out: Vec<char> = Vec::new();
    push_text(&mut out, "Connected to ");
    push_text(&mut out, port);
    string_from_chars(&out)
}

/// The text a client is shown after a close: which device was closed, or
/// that nothing was open.
pub fn closed_message(port: Option<&str>) -> (r: String)
    ensures
        r@ == match port {
            Some(p) => "Disconnected from "@ + p@,
            None => "Not connected"@,
        },
{
    let mut out: Vec<char> = Vec::new();
    match port {
        Some(p) => {
            push_text(&mut out, "Disconnected from ");
            push_text(&mut out, p);
        },
        None => push_text(&mut out, "Not connected"),
    }
    string_from_chars(&out)
}

/// The first `n` bytes of `buf`.
fn copy_prefix(buf: &[u8], n: usize) -> (r: Vec<u8>)
    requires
        n <= buf@.len(),
    ensures
        r@ == buf@.subrange(0, n as int),
{
    let mut out: Vec<u8> = Vec::new();
    let mut i: usize = 0;
    while i < n
        invariant
            n <= buf@.len(),
            0 <= i <= n,
            out@ == buf@.subrange(0, i as int),
        decreases n - i,
    {
        out.push(buf[i]);
        proof {
            assert(out@ =~= buf@.subrange(0, i + 1));
        }
        i = i + 1;
    }
    out
}

} // verus!

//! The protocol engine of the serial link.
//!
//! A link is in one of three states, each its own handle type: not yet
//! initialized (`FleaPreTerminal`), idle (`IdleFleaTerminal`) and busy with one
//! command (`BusyFleaTerminal`); while a cancelled command is drained it is a
//! `CancellingFleaTerminal`. Every transition consumes the handle it starts
//! from, and only the idle handle can issue a command, so at most one command
//! is ever outstanding on a link.
//!
//! The handles hold the port but never touch it: the caller writes the bytes
//! that a transition asks for, performs each read attempt, and hands what it
//! read to the handle, which decides what comes next.
use vstd::prelude::*;
use vstd::utf8::encode_utf8;

verus! {

/// Byte that interrupts whatever the device is doing; sent on its own, with no line feed.
pub const INTERRUPT: u8 = 3;

/// Turns the device's prompt on.
pub const PROMPT_ON_COMMAND: &'static str = "prompt on";

/// Resets the device; no answer follows.
pub const RESET_COMMAND: &'static str = "reset";

/// Length of the completion marker.
pub const PROMPT_LEN: usize = 2;

/// How long, in milliseconds, the device may take to answer the handshake.
pub const HANDSHAKE_TIMEOUT_MS: u64 = 1000;

/// The completion marker that the device writes after every response: its prompt, `"> "`.
pub open spec fn prompt() -> Seq<u8> {
    seq![62u8, 32u8]
}

/// Whether a buffer ends with the completion marker.
pub open spec fn ends_with_prompt(s: Seq<u8>) -> bool {
    s.len() >= PROMPT_LEN && s.subrange(s.len() - PROMPT_LEN, s.len() as int) == prompt()
}

/// Whether a read completes a response: it brought bytes, and the response
/// with them ends with the completion marker.
pub open spec fn completes(response: Seq<u8>, event: ReadEvent) -> bool {
    event_bytes(event).len() > 0 && ends_with_prompt(response + event_bytes(event))
}

/// A buffer without its completion marker.
pub open spec fn strip_prompt(s: Seq<u8>) -> Seq<u8> {
    s.subrange(0, s.len() - PROMPT_LEN)
}

/// The bytes written for a command: its text and a line feed.
pub open spec fn frame(command: Seq<char>) -> Seq<u8> {
    encode_utf8(command).push(10u8)
}

/// The last bytes of `s`, as many as the marker has, or all of `s` if shorter.
pub open spec fn last_window(s: Seq<u8>) -> Seq<u8> {
    if s.len() >= PROMPT_LEN {
        s.subrange(s.len() - PROMPT_LEN, s.len() as int)
    } else {
        s
    }
}

/// All the bytes of a sequence of reads, in order.
pub open spec fn concat_reads(chunks: Seq<Seq<u8>>) -> Seq<u8>
    decreases chunks.len(),
{
    if chunks.len() == 0 {
        Seq::empty()
    } else {
        concat_reads(chunks.drop_last()) + chunks.last()
    }
}

/// The window of a drain after a sequence of reads, step after step.
pub open spec fn window_after(window: Seq<u8>, chunks: Seq<Seq<u8>>) -> Seq<u8>
    decreases chunks.len(),
{
    if chunks.len() == 0 {
        window
    } else {
        last_window(window_after(window, chunks.drop_last()) + chunks.last())
    }
}

/// The response of a command after a sequence of reads, step after step.
pub open spec fn response_after(response: Seq<u8>, chunks: Seq<Seq<u8>>) -> Seq<u8>
    decreases chunks.len(),
{
    if chunks.len() == 0 {
        response
    } else {
        response_after(response, chunks.drop_last()) + chunks.last()
    }
}

proof fn lemma_last_window_absorb(x: Seq<u8>, c: Seq<u8>)
    ensures
        last_window(last_window(x) + c) == last_window(x + c),
{
    let l = last_window(x) + c;
    let m = x + c;
    if c.len() >= PROMPT_LEN {
        assert(l.subrange(l.len() - 2, l.len() as int) =~= c.subrange(c.len() - 2, c.len() as int));
        assert(m.subrange(m.len() - 2, m.len() as int) =~= c.subrange(c.len() - 2, c.len() as int));
    } else if x.len() >= PROMPT_LEN {
        assert(l.subrange(l.len() - 2, l.len() as int) =~= m.subrange(m.len() - 2, m.len() as int));
    } else {
        assert(l =~= m);
    }
}

proof fn lemma_window_after(window: Seq<u8>, chunks: Seq<Seq<u8>>)
    ensures
        window_after(window, chunks) == if chunks.len() == 0 {
            window
        } else {
            last_window(window + concat_reads(chunks))
        },
    decreases chunks.len(),
{
    if chunks.len() > 0 {
        let init = chunks.drop_last();
        lemma_window_after(window, init);
        if init.len() == 0 {
            assert(concat_reads(init) == Seq::<u8>::empty());
            assert(window + concat_reads(chunks) =~= window + chunks.last());
        } else {
            lemma_last_window_absorb(window + concat_reads(init), chunks.last());
            assert(window + concat_reads(init) + chunks.last() =~= window + concat_reads(chunks));
        }
    }
}

proof fn lemma_response_after(response: Seq<u8>, chunks: Seq<Seq<u8>>)
    ensures
        response_after(response, chunks) == response + concat_reads(chunks),
    decreases chunks.len(),
{
    if chunks.len() == 0 {
        assert(response + Seq::<u8>::empty() =~= response);
    } else {
        lemma_response_after(response, chunks.drop_last());
        assert(response + concat_reads(chunks.drop_last()) + chunks.last() =~= response
            + concat_reads(chunks));
    }
}

/// Cancelling leaves nothing behind. A drain, which starts from an empty
/// window, ends exactly when all that was read since the cancel ends with the
/// marker; and a command, which starts from an empty response, holds after its
/// reads exactly the bytes read since it was issued, so that nothing of a
/// cancelled command reaches the response of the next one.
pub proof fn lemma_cancel_leaves_no_residue(drained: Seq<Seq<u8>>, fresh: Seq<Seq<u8>>)
    ensures
        (window_after(Seq::empty(), drained) == prompt()) == ends_with_prompt(concat_reads(drained)),
        response_after(Seq::empty(), fresh) == concat_reads(fresh),
{
    lemma_window_after(Seq::empty(), drained);
    lemma_response_after(Seq::empty(), fresh);
    assert(Seq::<u8>::empty() + concat_reads(fresh) =~= concat_reads(fresh));
    let all = concat_reads(drained);
    if drained.len() == 0 {
        assert(all == Seq::<u8>::empty());
        assert(Seq::<u8>::empty() != prompt()) by {
            assert(prompt().len() == 2);
        }
    } else {
        assert(Seq::<u8>::empty() + all =~= all);
        if all.len() < PROMPT_LEN {
            assert(last_window(all).len() != prompt().len());
        }
    }
}

/// What one non-blocking read attempt on the link produced.
pub enum ReadEvent {
    /// Bytes arrived.
    Data(Vec<u8>),
    /// Nothing arrived before the read gave up.
    Nothing,
    /// The link broke: the port reported a broken pipe or an unexpected end of stream.
    Lost,
}

/// The bytes that a read event delivered.
pub open spec fn event_bytes(e: ReadEvent) -> Seq<u8> {
    match e {
        ReadEvent::Data(v) => v@,
        _ => Seq::empty(),
    }
}

/// The link broke; the handle is gone and a fresh connection is needed.
#[derive(Debug)]
pub struct ConnectionLostError;

#[derive(Debug, PartialEq, Eq, Structural, Clone, Copy)]
pub enum FleaTerminalError {
    /// No completion marker within the time allowed, in milliseconds.
    Timeout { timeout_ms: u64 },
    /// The link broke.
    ConnectionLost,
}

/// The bytes written for a command.
pub fn frame_command(command: &str) -> (r: Vec<u8>)
    ensures
        r@ == frame(command@),
{
    let mut r = vstd::slice::slice_to_vec(command.as_bytes());
    r.push(10u8);
    r
}

/// Appends a chunk to a response and tells whether the response is complete.
fn absorb(response: &mut Vec<u8>, chunk: Vec<u8>) -> (done: bool)
    ensures
        final(response)@ == old(response)@ + chunk@,
        done == ends_with_prompt(final(response)@),
{
    let mut chunk = chunk;
    response.append(&mut chunk);
    let n = response.len();
    if n < PROMPT_LEN {
        return false;
    }
    let a = response[n - 2];
    let b = response[n - 1];
    proof {
        let tail = response@.subrange(n - 2, n as int);
        assert(tail =~= seq![a, b]);
        assert(tail == prompt() ==> tail[0] == 62u8 && tail[1] == 32u8);
    }
    a == 62u8 && b == 32u8
}

/// A link that is open but not yet initialized.
pub struct FleaPreTerminal<P> {
    port: P,
}

/// A link with no command outstanding.
pub struct IdleFleaTerminal<P> {
    inner: FleaPreTerminal<P>,
}

/// A link with one command outstanding, and the response read so far.
pub struct BusyFleaTerminal<P> {
    inner: FleaPreTerminal<P>,
    request: Vec<u8>,
    response: Vec<u8>,
}

/// A link whose command was cancelled, read until the device's next marker.
pub struct CancellingFleaTerminal<P> {
    inner: FleaPreTerminal<P>,
    window: Vec<u8>,
}

/// A link during its handshake.
pub struct HandshakingFleaTerminal<P> {
    inner: FleaPreTerminal<P>,
    request: Vec<u8>,
    response: Vec<u8>,
}

/// What one step of a blocking command brought.
pub enum ExecStep<P> {
    /// The response without its marker, and the link idle again.
    Complete(Vec<u8>, IdleFleaTerminal<P>),
    /// No marker yet; read again.
    Pending(BusyFleaTerminal<P>),
    /// The time allowed ran out; the command is still outstanding and the
    /// caller may go on reading or cancel it.
    TimedOut(BusyFleaTerminal<P>, FleaTerminalError),
    /// The link broke.
    Lost(ConnectionLostError),
}

/// What one step of a handshake brought.
pub enum HandshakeStep<P> {
    /// The device answered; the caller clears the port's buffers before use.
    Ready(IdleFleaTerminal<P>),
    /// No marker yet; read again.
    Pending(HandshakingFleaTerminal<P>),
    /// The handshake failed; the link is handed back to be tried again.
    Failed(FleaPreTerminal<P>, FleaTerminalError),
}

/// What one step of a drain brought.
pub enum DrainStep<P> {
    /// The marker came; the caller clears the port's buffers before use.
    Drained(IdleFleaTerminal<P>),
    /// No marker yet; read again.
    Pending(CancellingFleaTerminal<P>),
    /// The time allowed ran out; the link must be initialized anew.
    TimedOut(FleaPreTerminal<P>, FleaTerminalError),
    /// The link broke.
    Lost(ConnectionLostError),
}

impl<P> FleaPreTerminal<P> {
    pub fn new(port: P) -> (r: Self)
        ensures
            r.port() == port,
    {
        Self { port }
    }

    pub closed spec fn port(&self) -> P {
        self.port
    }

    pub fn port_mut(&mut self) -> (r: &mut P)
        ensures
            *r == old(self).port(),
            final(self).port() == *final(r),
    {
        &mut self.port
    }

    /// Starts the handshake: an interrupt byte, then `prompt on`, answered by a marker.
    pub fn initialize(self) -> (r: HandshakingFleaTerminal<P>)
        ensures
            r.port() == self.port(),
            r.request() == seq![INTERRUPT].add(frame(PROMPT_ON_COMMAND@)),
            r.response() == Seq::<u8>::empty(),
    {
        let mut request: Vec<u8> = Vec::new();
        request.push(INTERRUPT);
        let mut command = frame_command(PROMPT_ON_COMMAND);
        request.append(&mut command);
        HandshakingFleaTerminal { inner: self, request, response: Vec::new() }
    }
}

impl<P> HandshakingFleaTerminal<P> {
    pub closed spec fn port(&self) -> P {
        self.inner.port
    }

    /// The bytes to write to start the handshake.
    pub closed spec fn request(&self) -> Seq<u8> {
        self.request@
    }

    /// What the device answered so far.
    pub closed spec fn response(&self) -> Seq<u8> {
        self.response@
    }

    pub fn request_bytes(&self) -> (r: &Vec<u8>)
        ensures
            r@ == self.request(),
    {
        &self.request
    }

    pub fn port_mut(&mut self) -> (r: &mut P)
        ensures
            *r == old(self).port(),
            final(self).port() == *final(r),
            final(self).request() == old(self).request(),
            final(self).response() == old(self).response(),
    {
        self.inner.port_mut()
    }

    /// Gives up the handshake, handing the link back to be initialized anew.
    pub fn abandon(self) -> (r: FleaPreTerminal<P>)
        ensures
            r.port() == self.port(),
    {
        self.inner
    }

    /// Takes one read attempt, made `elapsed_ms` milliseconds after the
    /// handshake began.
    ///
    /// Ready once the answer ends with the marker; failed when the link broke
    /// or, without a marker, once `HANDSHAKE_TIMEOUT_MS` have passed.
    pub fn step(self, event: ReadEvent, elapsed_ms: u64) -> (r: HandshakeStep<P>)
        ensures
            match event {
                ReadEvent::Lost => r matches HandshakeStep::Failed(pre, e) && e
                    == FleaTerminalError::ConnectionLost && pre.port() == self.port(),
                _ => if completes(self.response(), event) {
                    r matches HandshakeStep::Ready(idle) && idle.port() == self.port()
                } else if elapsed_ms >= HANDSHAKE_TIMEOUT_MS {
                    r matches HandshakeStep::Failed(pre, e) && e == (FleaTerminalError::Timeout {
                        timeout_ms: HANDSHAKE_TIMEOUT_MS,
                    }) && pre.port() == self.port()
                } else {
                    r matches HandshakeStep::Pending(h) && h.request() == self.request()
                        && h.response() == self.response() + event_bytes(event) && h.port()
                        == self.port()
                },
            },
    {
        let mut this = self;
        let done = match event {
            ReadEvent::Data(chunk) => {
                let got = chunk.len() > 0;
                let ends = absorb(&mut this.response, chunk);
                got && ends
            },
            ReadEvent::Nothing => {
                absorb(&mut this.response, Vec::new());
                false
            },
            ReadEvent::Lost => {
                return HandshakeStep::Failed(this.inner, FleaTerminalError::ConnectionLost);
            },
        };
        if done {
            HandshakeStep::Ready(IdleFleaTerminal { inner: this.inner })
        } else if elapsed_ms >= HANDSHAKE_TIMEOUT_MS {
            HandshakeStep::Failed(this.inner, FleaTerminalError::Timeout { timeout_ms: HANDSHAKE_TIMEOUT_MS })
        } else {
            HandshakeStep::Pending(this)
        }
    }
}

impl<P> IdleFleaTerminal<P> {
    pub closed spec fn port(&self) -> P {
        self.inner.port
    }

    pub fn port_mut(&mut self) -> (r: &mut P)
        ensures
            *r == old(self).port(),
            final(self).port() == *final(r),
    {
        self.inner.port_mut()
    }

    /// Hands the link back to be initialized anew, for when it cannot be
    /// trusted to be idle.
    pub fn reset(self) -> (r: FleaPreTerminal<P>)
        ensures
            r.port() == self.port(),
    {
        self.inner
    }

    /// Issues a command: the link becomes busy with an empty response, and the
    /// caller writes the command's frame before reading.
    pub fn exec_async(self, command: &str) -> (r: BusyFleaTerminal<P>)
        ensures
            r.port() == self.port(),
            r.request() == frame(command@),
            r.response() == Seq::<u8>::empty(),
    {
        BusyFleaTerminal { inner: self.inner, request: frame_command(command), response: Vec::new() }
    }
}

impl<P> BusyFleaTerminal<P> {
    pub closed spec fn port(&self) -> P {
        self.inner.port
    }

    /// The bytes to write for the outstanding command.
    pub closed spec fn request(&self) -> Seq<u8> {
        self.request@
    }

    /// The response read so far.
    pub closed spec fn response(&self) -> Seq<u8> {
        self.response@
    }

    pub fn request_bytes(&self) -> (r: &Vec<u8>)
        ensures
            r@ == self.request(),
    {
        &self.request
    }

    pub fn port_mut(&mut self) -> (r: &mut P)
        ensures
            *r == old(self).port(),
            final(self).port() == *final(r),
            final(self).request() == old(self).request(),
            final(self).response() == old(self).response(),
    {
        self.inner.port_mut()
    }

    /// Takes one read attempt: complete, with the response less its marker and
    /// the link idle again, once the response ends with the marker; still busy
    /// otherwise; an error if the link broke.
    pub fn is_ready(self, event: ReadEvent) -> (r: Result<
        Result<(Vec<u8>, IdleFleaTerminal<P>), BusyFleaTerminal<P>>,
        ConnectionLostError,
    >)
        ensures
            match event {
                ReadEvent::Lost => r is Err,
                _ => if completes(self.response(), event) {
                    r matches Ok(Ok((payload, idle))) && payload@ == strip_prompt(
                        self.response() + event_bytes(event),
                    ) && idle.port() == self.port()
                } else {
                    r matches Ok(Err(busy)) && busy.response() == self.response() + event_bytes(
                        event,
                    ) && busy.request() == self.request() && busy.port() == self.port()
                },
            },
    {
        let mut this = self;
        let done = match event {
            ReadEvent::Data(chunk) => {
                let got = chunk.len() > 0;
                let ends = absorb(&mut this.response, chunk);
                got && ends
            },
            ReadEvent::Nothing => {
                absorb(&mut this.response, Vec::new());
                false
            },
            ReadEvent::Lost => return Err(ConnectionLostError),
        };
        if done {
            Ok(Ok(this.into_result()))
        } else {
            Ok(Err(this))
        }
    }

    fn into_result(self) -> (r: (Vec<u8>, IdleFleaTerminal<P>))
        requires
            self.response@.len() >= PROMPT_LEN,
        ensures
            r.0@ == strip_prompt(self.response@),
            r.1.port() == self.port(),
    {
        let mut response = self.response;
        response.truncate(response.len() - PROMPT_LEN);
        (response, IdleFleaTerminal { inner: self.inner })
    }

    /// Takes one read attempt of a blocking command, made `elapsed_ms`
    /// milliseconds after it was issued.
    ///
    /// As `is_ready`; without a marker and once `timeout_ms` have passed, the
    /// command times out and stays outstanding.
    pub fn exec_sync_step(self, event: ReadEvent, elapsed_ms: u64, timeout_ms: Option<u64>) -> (r:
        ExecStep<P>)
        ensures
            match event {
                ReadEvent::Lost => r is Lost,
                _ => if completes(self.response(), event) {
                    r matches ExecStep::Complete(payload, idle) && payload@ == strip_prompt(
                        self.response() + event_bytes(event),
                    ) && idle.port() == self.port()
                } else {
                    match timeout_ms {
                        Some(t) if elapsed_ms >= t => r matches ExecStep::TimedOut(busy, e) && e
                            == (FleaTerminalError::Timeout { timeout_ms: t }) && busy.response()
                            == self.response() + event_bytes(event) && busy.request()
                            == self.request() && busy.port() == self.port(),
                        _ => r matches ExecStep::Pending(busy) && busy.response()
                            == self.response() + event_bytes(event) && busy.request()
                            == self.request() && busy.port() == self.port(),
                    }
                },
            },
    {
        match self.is_ready(event) {
            Err(e) => ExecStep::Lost(e),
            Ok(Ok((payload, idle))) => ExecStep::Complete(payload, idle),
            Ok(Err(busy)) => match timeout_ms {
                Some(t) => if elapsed_ms >= t {
                    ExecStep::TimedOut(busy, FleaTerminalError::Timeout { timeout_ms: t })
                } else {
                    ExecStep::Pending(busy)
                },
                None => ExecStep::Pending(busy),
            },
        }
    }

    /// Cancels the outstanding command: the caller writes `INTERRUPT`, then
    /// drains the link until the device's marker.
    pub fn cancel(self) -> (r: CancellingFleaTerminal<P>)
        ensures
            r.port() == self.port(),
            r.window() == Seq::<u8>::empty(),
    {
        CancellingFleaTerminal { inner: self.inner, window: Vec::new() }
    }
}

impl<P> CancellingFleaTerminal<P> {
    pub closed spec fn port(&self) -> P {
        self.inner.port
    }

    /// The last bytes drained, as many as the marker has.
    pub closed spec fn window(&self) -> Seq<u8> {
        self.window@
    }

    pub fn port_mut(&mut self) -> (r: &mut P)
        ensures
            *r == old(self).port(),
            final(self).port() == *final(r),
            final(self).window() == old(self).window(),
    {
        self.inner.port_mut()
    }

    /// Gives up the drain, handing the link back to be initialized anew.
    pub fn abandon(self) -> (r: FleaPreTerminal<P>)
        ensures
            r.port() == self.port(),
    {
        self.inner
    }

    /// Takes one read attempt of the drain, made `elapsed_ms` milliseconds
    /// after the cancel.
    ///
    /// The window slides over the bytes read; the link is drained once it
    /// equals the marker. Without that, once `timeout_ms` have passed, the
    /// drain gives up and hands back the link to be initialized anew.
    pub fn step(self, event: ReadEvent, elapsed_ms: u64, timeout_ms: u64) -> (r: DrainStep<P>)
        ensures
            match event {
                ReadEvent::Lost => r is Lost,
                _ => if event_bytes(event).len() > 0 && last_window(self.window() + event_bytes(event))
                    == prompt() {
                    r matches DrainStep::Drained(idle) && idle.port() == self.port()
                } else if elapsed_ms >= timeout_ms {
                    r matches DrainStep::TimedOut(pre, e) && pre.port() == self.port() && e == (
                    FleaTerminalError::Timeout { timeout_ms })
                } else {
                    r matches DrainStep::Pending(c) && c.window() == last_window(
                        self.window() + event_bytes(event),
                    ) && c.port() == self.port()
                },
            },
    {
        let mut window = self.window;
        let mut got = false;
        match event {
            ReadEvent::Data(chunk) => {
                let mut chunk = chunk;
                got = chunk.len() > 0;
                window.append(&mut chunk);
            },
            ReadEvent::Nothing => {
                assert(window@ + event_bytes(event) =~= window@);
            },
            ReadEvent::Lost => return DrainStep::Lost(ConnectionLostError),
        }
        let ghost all = window@;
        let n = window.len();
        if n >= PROMPT_LEN {
            let a = window[n - 2];
            let b = window[n - 1];
            window = Vec::new();
            window.push(a);
            window.push(b);
            assert(window@ =~= all.subrange(n - 2, n as int));
        }
        let drained = got && window.len() == PROMPT_LEN && window[0] == 62u8 && window[1] == 32u8;
        proof {
            assert(window@ == prompt() ==> window@[0] == 62u8 && window@[1] == 32u8);
            if window.len() == PROMPT_LEN && window[0] == 62u8 && window[1] == 32u8 {
                assert(window@ =~= prompt());
            }
        }
        if drained {
            DrainStep::Drained(IdleFleaTerminal { inner: self.inner })
        } else if elapsed_ms >= timeout_ms {
            DrainStep::TimedOut(self.inner, FleaTerminalError::Timeout { timeout_ms })
        } else {
            DrainStep::Pending(CancellingFleaTerminal { inner: self.inner, window })
        }
    }
}

} // verus!

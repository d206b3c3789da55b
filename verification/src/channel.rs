use vstd::prelude::*;
use crate::err::EdError;

verus! {

/// Read timeout used while discovering/polling the device, in milliseconds.
pub const DISCOVERY_TIMEOUT_MS: u64 = 300;

/// Read timeout used for normal command turnaround after a connect, in
/// milliseconds.
pub const OPERATING_TIMEOUT_MS: u64 = 2000;

/// A byte-oriented duplex channel to the device, the engine's only way in
/// and out. The model is three observations: `sent()`, every byte written on
/// the current handle; `incoming()`, the bytes from the device not yet
/// consumed; and `timeout_ms()`, the configured read timeout. Every
/// operation may fail with `Transport` (device absent, timeout); what each
/// promises on success is exact. The serial transport implements this trait
/// outside the engine; tests drive the engine through [`MockChannel`].
pub trait Channel: Sized {
    /// All bytes written to the device on the current handle, oldest first.
    /// The default model says nothing; a verified implementation overrides
    /// it (an unverified transport needs no model).
    open spec fn sent(&self) -> Seq<u8> {
        Seq::empty()
    }

    /// Bytes from the device not yet consumed, in arrival order.
    open spec fn incoming(&self) -> Seq<u8> {
        Seq::empty()
    }

    /// The configured read timeout, in milliseconds.
    open spec fn timeout_ms(&self) -> u64 {
        0
    }

    /// Write all of `data` to the device.
    fn write_all(&mut self, data: &[u8]) -> (r: Result<(), EdError>)
        ensures
            r is Ok ==> final(self).sent() == old(self).sent() + data@
                && final(self).incoming() == old(self).incoming()
                && final(self).timeout_ms() == old(self).timeout_ms(),
            r is Err ==> r == Err::<(), EdError>(EdError::Transport),
    ;

    /// Read exactly `n` bytes, blocking until they arrive or the configured
    /// timeout elapses. No partial value is ever returned: on success the
    /// result is exactly the next `n` incoming bytes.
    fn read_exact(&mut self, n: usize) -> (r: Result<Vec<u8>, EdError>)
        ensures
            r matches Ok(data) ==> n <= old(self).incoming().len()
                && data@ == old(self).incoming().take(n as int)
                && final(self).incoming() == old(self).incoming().skip(n as int)
                && final(self).sent() == old(self).sent()
                && final(self).timeout_ms() == old(self).timeout_ms(),
            r is Err ==> r == Err::<Vec<u8>, EdError>(EdError::Transport)
                && final(self).sent() == old(self).sent(),
    ;

    /// Set the read timeout.
    fn set_timeout(&mut self, ms: u64) -> (r: Result<(), EdError>)
        ensures
            r is Ok ==> final(self).timeout_ms() == ms
                && final(self).sent() == old(self).sent()
                && final(self).incoming() == old(self).incoming(),
            r is Err ==> r == Err::<(), EdError>(EdError::Transport)
                && final(self).sent() == old(self).sent()
                && final(self).incoming() == old(self).incoming(),
    ;

    /// Report bulk-transfer progress: bytes done against the total. Purely
    /// observational; the channel state is unchanged.
    fn progress(&mut self, done: u64, total: u64)
        ensures
            final(self).sent() == old(self).sent(),
            final(self).incoming() == old(self).incoming(),
            final(self).timeout_ms() == old(self).timeout_ms(),
    ;

    /// Release the current handle, wait for the device to settle, acquire a
    /// fresh handle to the same device, and wait again. While this runs no
    /// handle is held; on success nothing has been written on the new handle
    /// and the timeout is back at the discovery value. What the rebooted
    /// device will send is unknown.
    fn reopen(&mut self) -> (r: Result<(), EdError>)
        ensures
            r is Ok ==> final(self).sent() == Seq::<u8>::empty()
                && final(self).timeout_ms() == DISCOVERY_TIMEOUT_MS,
            r is Err ==> r == Err::<(), EdError>(EdError::Transport),
    ;
}

/// A synthetic in-memory channel: the device's responses are scripted, one
/// script per connection epoch (the first handle, then one per successful
/// reopen). Reads past the end of the current script fail like a timeout.
pub struct MockChannel {
    cur: Vec<u8>,
    pos: usize,
    later: Vec<Vec<u8>>,
    written: Vec<u8>,
    timeout: u64,
}

impl MockChannel {
    /// A channel whose device will send `first` on the current handle, then
    /// one further script per successful reopen.
    pub fn new(first: Vec<u8>, later: Vec<Vec<u8>>) -> (r: MockChannel)
        ensures
            r.incoming() == first@,
            r.sent() == Seq::<u8>::empty(),
            r.timeout_ms() == DISCOVERY_TIMEOUT_MS,
    {
        MockChannel { cur: first, pos: 0, later, written: Vec::new(), timeout: DISCOVERY_TIMEOUT_MS }
    }

    /// The bytes written on the current handle, oldest first.
    pub fn written_bytes(&self) -> (r: &Vec<u8>)
        ensures
            r@ == self.sent(),
    {
        &self.written
    }

    /// How many scripted incoming bytes are still unconsumed.
    pub fn remaining(&self) -> (r: usize)
        ensures
            r == self.incoming().len(),
    {
        if self.pos <= self.cur.len() {
            self.cur.len() - self.pos
        } else {
            0
        }
    }

    /// The configured read timeout, in milliseconds.
    pub fn timeout_value(&self) -> (r: u64)
        ensures
            r == self.timeout_ms(),
    {
        self.timeout
    }
}

impl Channel for MockChannel {
    closed spec fn sent(&self) -> Seq<u8> {
        self.written@
    }

    closed spec fn incoming(&self) -> Seq<u8> {
        if self.pos as int <= self.cur@.len() {
            self.cur@.skip(self.pos as int)
        } else {
            Seq::empty()
        }
    }

    closed spec fn timeout_ms(&self) -> u64 {
        self.timeout
    }

    fn write_all(&mut self, data: &[u8]) -> (r: Result<(), EdError>) {
        self.written.extend_from_slice(data);
        Ok(())
    }

    fn read_exact(&mut self, n: usize) -> (r: Result<Vec<u8>, EdError>) {
        if self.pos > self.cur.len() || n > self.cur.len() - self.pos {
            return Err(EdError::Transport);
        }
        let mut out: Vec<u8> = Vec::new();
        let mut i: usize = 0;
        while i < n
            invariant
                i <= n,
                self.pos + n <= self.cur.len(),
                out@ == self.cur@.subrange(self.pos as int, self.pos + i),
            decreases n - i,
        {
            let b = self.cur[self.pos + i];
            out.push(b);
            proof {
                assert(out@ =~= self.cur@.subrange(self.pos as int, self.pos + i + 1));
            }
            i = i + 1;
        }
        proof {
            assert(out@ =~= self.incoming().take(n as int));
        }
        self.pos = self.pos + n;
        proof {
            assert(self.incoming() =~= old(self).incoming().skip(n as int));
        }
        Ok(out)
    }

    fn set_timeout(&mut self, ms: u64) -> (r: Result<(), EdError>) {
        self.timeout = ms;
        Ok(())
    }

    fn progress(&mut self, done: u64, total: u64) {
    }

    fn reopen(&mut self) -> (r: Result<(), EdError>) {
        if self.later.len() == 0 {
            return Err(EdError::Transport);
        }
        let next = self.later.remove(0);
        self.cur = next;
        self.pos = 0;
        self.written = Vec::new();
        self.timeout = DISCOVERY_TIMEOUT_MS;
        Ok(())
    }
}

} // verus!

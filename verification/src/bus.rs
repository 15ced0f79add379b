//! The two capabilities the driver consumes: an addressed-write bus and a
//! blocking millisecond delay.
//!
//! A [`Bus`] implementation carries, in specification, a transcript of every
//! transaction it has accepted. The driver's contracts are all phrased over
//! that transcript, so a caller can read off exactly which bytes reach the
//! device.

use vstd::prelude::*;

verus! {

/// One addressed write on the bus: every byte sequence the driver ever sends
/// travels as one of these.
pub ghost struct Transaction {
    /// The slave address the payload was written to.
    pub addr: u8,
    /// The payload, control byte first.
    pub bytes: Seq<u8>,
}

/// The kinds of bus-level write failure a transport can report.
#[derive(Clone, Copy, Debug, PartialEq, Eq, Structural)]
pub enum TransportError {
    /// The device did not acknowledge an address or data byte.
    Nack,
    /// The transfer did not complete in time.
    Timeout,
    /// A bus-level fault (misplaced start or stop condition).
    Bus,
    /// Bus arbitration was lost to another master.
    Arbitration,
    /// A data overrun occurred.
    Overrun,
    /// Any other transport-specific failure.
    Other,
}

/// Write access to an addressed byte-oriented bus.
///
/// The driver owns one value of an implementing type and performs all I/O
/// through [`Bus::write`]. The transcript [`Bus::txns`] grows by exactly the
/// written transaction on success and is unchanged on failure, so the
/// driver's contracts can account for every byte on the wire.
pub trait Bus: Sized {
    /// The transcript of every transaction accepted so far, oldest first.
    spec fn txns(&self) -> Seq<Transaction>;

    /// Writes `payload` as one transaction addressed to `addr`.
    fn write(&mut self, addr: u8, payload: &[u8]) -> (r: Result<(), TransportError>)
        ensures
            r is Ok ==> final(self).txns() == old(self).txns().push(
                Transaction { addr, bytes: payload@ },
            ),
            r is Err ==> final(self).txns() == old(self).txns(),
    ;
}

/// A blocking delay with millisecond granularity, used only during
/// initialization.
pub trait DelayMs {
    /// Blocks for at least `ms` milliseconds.
    fn delay_ms(&mut self, ms: u32);
}

/// A bus that accepts every write and records it, for exercising the driver
/// without hardware.
pub struct RecordingBus {
    /// Every write accepted so far, oldest first, as (address, payload).
    pub writes: Vec<(u8, Vec<u8>)>,
}

impl RecordingBus {
    /// Creates a bus with an empty transcript.
    pub fn new() -> (r: RecordingBus)
        ensures
            r.txns() == Seq::<Transaction>::empty(),
    {
        let r = RecordingBus { writes: Vec::new() };
        proof {
            assert(r.txns() =~= Seq::<Transaction>::empty());
        }
        r
    }
}

impl Bus for RecordingBus {
    open spec fn txns(&self) -> Seq<Transaction> {
        Seq::new(
            self.writes@.len(),
            |i: int| Transaction { addr: self.writes@[i].0, bytes: self.writes@[i].1@ },
        )
    }

    fn write(&mut self, addr: u8, payload: &[u8]) -> (r: Result<(), TransportError>)
        ensures
            r is Ok,
    {
        let bytes = vstd::slice::slice_to_vec(payload);
        self.writes.push((addr, bytes));
        proof {
            assert(self.txns() =~= old(self).txns().push(
                Transaction { addr, bytes: payload@ },
            ));
        }
        Ok(())
    }
}

/// A plain addressed write, with nothing promised of it: the shape in which
/// unverified code (a hardware I2C peripheral, a test double) hands the
/// driver its transport.
pub trait RawWrite: Sized {
    /// Writes `payload` as one transaction addressed to `addr`.
    fn raw_write(&mut self, addr: u8, payload: &[u8]) -> Result<(), TransportError>;
}

/// A [`Bus`] over any [`RawWrite`] transport: it forwards every write and
/// keeps the transcript as ghost state, so unverified transports need only
/// supply the write itself.
pub struct RawBus<W: RawWrite> {
    /// The transport writes are forwarded to.
    pub writer: W,
    /// The transcript of accepted transactions, as ghost state.
    pub transcript: Ghost<Seq<Transaction>>,
}

impl<W: RawWrite> RawBus<W> {
    /// Wraps a transport, starting with an empty transcript.
    pub fn new(writer: W) -> (r: RawBus<W>)
        ensures
            r.txns() == Seq::<Transaction>::empty(),
            r.writer == writer,
    {
        RawBus { writer, transcript: Ghost(Seq::empty()) }
    }
}

impl<W: RawWrite> Bus for RawBus<W> {
    open spec fn txns(&self) -> Seq<Transaction> {
        self.transcript@
    }

    fn write(&mut self, addr: u8, payload: &[u8]) -> (r: Result<(), TransportError>) {
        let r = self.writer.raw_write(addr, payload);
        match r {
            Ok(()) => {
                proof {
                    self.transcript@ = self.transcript@.push(
                        Transaction { addr, bytes: payload@ },
                    );
                }
                Ok(())
            },
            Err(e) => Err(e),
        }
    }
}

/// A bus that rejects every write with a fixed error and accepts nothing,
/// for exercising the driver's failure paths without hardware.
pub struct FailingBus {
    /// The error every write reports.
    pub kind: TransportError,
}

impl Bus for FailingBus {
    open spec fn txns(&self) -> Seq<Transaction> {
        Seq::<Transaction>::empty()
    }

    fn write(&mut self, _addr: u8, _payload: &[u8]) -> (r: Result<(), TransportError>) {
        Err(self.kind)
    }
}

/// A delay that returns immediately, for exercising initialization without
/// hardware.
pub struct NoDelay;

impl DelayMs for NoDelay {
    fn delay_ms(&mut self, _ms: u32) {
    }
}

} // verus!

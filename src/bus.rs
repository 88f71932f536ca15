//! The two-wire bus that every driver talks through, and the ghost record of the transfers
//! a driver has issued on it.

use vstd::prelude::*;

verus! {

/// One step of a grouped transfer.
pub enum Operation<'a> {
    /// Read into the buffer, which keeps its length.
    Read(&'a mut [u8]),
    /// Write the bytes.
    Write(&'a [u8]),
}

/// A blocking I2C bus with 7-bit addresses, as a HAL provides it. Each call is one
/// indivisible transfer; what comes back, and whether the call fails, is up to the bus.
/// The one thing stated of an implementation is what Rust's slices already guarantee: a
/// buffer read into keeps its length.
pub trait I2c {
    /// The bus's transport error, passed on unchanged by the drivers.
    type Error;

    /// Reads `read.len()` bytes from the device at `address`.
    fn read(&mut self, address: u8, read: &mut [u8]) -> (r: Result<(), Self::Error>)
        ensures
            final(read)@.len() == old(read)@.len(),
    ;

    /// Writes `write` to the device at `address`.
    fn write(&mut self, address: u8, write: &[u8]) -> Result<(), Self::Error>;

    /// Writes `write`, then reads `read.len()` bytes, without releasing the bus in between.
    fn write_read(&mut self, address: u8, write: &[u8], read: &mut [u8]) -> (r: Result<(), Self::Error>)
        ensures
            final(read)@.len() == old(read)@.len(),
    ;

    /// Runs the operations in order as one transfer. Adjacent operations of the same kind
    /// run back to back, with no stop or repeated start between them.
    fn transaction(&mut self, address: u8, operations: &mut [Operation<'_>]) -> Result<(), Self::Error>;
}

/// A transfer that a driver issued, with the bytes it sent and, for reads, the bytes that
/// were in the buffer when the bus call returned.
pub enum Transfer {
    Read { address: u8, data: Seq<u8> },
    Write { address: u8, bytes: Seq<u8> },
    WriteRead { address: u8, bytes: Seq<u8>, data: Seq<u8> },
    /// A grouped transfer made of writes only.
    WriteGroup { address: u8, parts: Seq<Seq<u8>> },
}

impl Transfer {
    /// The bytes that the transfer read back (none for a write).
    pub open spec fn data(self) -> Seq<u8> {
        match self {
            Transfer::Read { data, .. } => data,
            Transfer::WriteRead { data, .. } => data,
            _ => Seq::empty(),
        }
    }
}

/// A bus handle that records every transfer made through it and whether the bus call
/// succeeded. Drivers reach their bus only through one of these, so `history` is exactly
/// what they sent, in order, `oks` says which of those calls succeeded, and `last_outcome`
/// is what the latest call returned.
pub struct RecordingBus<B: I2c> {
    bus: B,
    log: Ghost<Seq<(Transfer, bool)>>,
    last: Ghost<Result<(), B::Error>>,
}

impl<B: I2c> RecordingBus<B> {
    /// The transfers made so far.
    pub closed spec fn history(&self) -> Seq<Transfer> {
        self.log@.map_values(|e: (Transfer, bool)| e.0)
    }

    /// For each call made so far, in order, whether it succeeded.
    pub closed spec fn oks(&self) -> Seq<bool> {
        self.log@.map_values(|e: (Transfer, bool)| e.1)
    }

    /// What the latest bus call returned (`Ok` before any call).
    pub closed spec fn last_outcome(&self) -> Result<(), B::Error> {
        self.last@
    }

    /// The bus handle inside.
    pub closed spec fn inner(&self) -> B {
        self.bus
    }

    /// The flags line up with the transfers: flag `i` is the outcome of transfer `i`.
    pub proof fn lemma_aligned(&self)
        ensures
            self.oks().len() == self.history().len(),
    {
    }

    proof fn lemma_push(&self, t: Transfer, ok: bool)
        ensures
            self.log@.push((t, ok)).map_values(|e: (Transfer, bool)| e.0) == self.history().push(t),
            self.log@.push((t, ok)).map_values(|e: (Transfer, bool)| e.1) == self.oks().push(ok),
    {
        assert(self.log@.push((t, ok)).map_values(|e: (Transfer, bool)| e.0) =~= self.history().push(t));
        assert(self.log@.push((t, ok)).map_values(|e: (Transfer, bool)| e.1) =~= self.oks().push(ok));
    }

    pub fn new(bus: B) -> (r: Self)
        ensures
            r.history() == Seq::<Transfer>::empty(),
            r.oks() == Seq::<bool>::empty(),
            r.last_outcome() == Ok::<(), B::Error>(()),
            r.inner() == bus,
    {
        let r = RecordingBus { bus, log: Ghost(Seq::empty()), last: Ghost(Ok(())) };
        assert(r.history() =~= Seq::<Transfer>::empty());
        assert(r.oks() =~= Seq::<bool>::empty());
        r
    }

    pub fn read(&mut self, address: u8, buf: &mut [u8]) -> (r: Result<(), B::Error>)
        ensures
            final(buf)@.len() == old(buf)@.len(),
            final(self).history() == old(self).history().push(
                Transfer::Read { address, data: final(buf)@ },
            ),
            final(self).oks() == old(self).oks().push(r is Ok),
            final(self).last_outcome() == r,
    {
        let r = self.bus.read(address, buf);
        proof {
            self.lemma_push(Transfer::Read { address, data: buf@ }, r is Ok);
        }
        self.log = Ghost(self.log@.push((Transfer::Read { address, data: buf@ }, r is Ok)));
        self.last = Ghost(r);
        r
    }

    pub fn write(&mut self, address: u8, bytes: &[u8]) -> (r: Result<(), B::Error>)
        ensures
            final(self).history() == old(self).history().push(
                Transfer::Write { address, bytes: bytes@ },
            ),
            final(self).oks() == old(self).oks().push(r is Ok),
            final(self).last_outcome() == r,
    {
        let r = self.bus.write(address, bytes);
        proof {
            self.lemma_push(Transfer::Write { address, bytes: bytes@ }, r is Ok);
        }
        self.log = Ghost(self.log@.push((Transfer::Write { address, bytes: bytes@ }, r is Ok)));
        self.last = Ghost(r);
        r
    }

    pub fn write_read(&mut self, address: u8, bytes: &[u8], buf: &mut [u8]) -> (r: Result<(), B::Error>)
        ensures
            final(buf)@.len() == old(buf)@.len(),
            final(self).history() == old(self).history().push(
                Transfer::WriteRead { address, bytes: bytes@, data: final(buf)@ },
            ),
            final(self).oks() == old(self).oks().push(r is Ok),
            final(self).last_outcome() == r,
    {
        let r = self.bus.write_read(address, bytes, buf);
        proof {
            self.lemma_push(Transfer::WriteRead { address, bytes: bytes@, data: buf@ }, r is Ok);
        }
        self.log = Ghost(self.log@.push((Transfer::WriteRead { address, bytes: bytes@, data: buf@ }, r is Ok)));
        self.last = Ghost(r);
        r
    }

    /// Writes `first` and then `second` as one grouped transfer.
    pub fn write_group(&mut self, address: u8, first: &[u8], second: &[u8]) -> (r: Result<(), B::Error>)
        ensures
            final(self).history() == old(self).history().push(
                Transfer::WriteGroup { address, parts: seq![first@, second@] },
            ),
            final(self).oks() == old(self).oks().push(r is Ok),
            final(self).last_outcome() == r,
    {
        let mut operations = [Operation::Write(first), Operation::Write(second)];
        let r = self.bus.transaction(address, &mut operations);
        proof {
            self.lemma_push(Transfer::WriteGroup { address, parts: seq![first@, second@] }, r is Ok);
        }
        self.log = Ghost(self.log@.push((Transfer::WriteGroup { address, parts: seq![first@, second@] }, r is Ok)));
        self.last = Ghost(r);
        r
    }
}

/// `r` passes on the outcome `last` of a bus call: `Ok` exactly when the call succeeded,
/// and otherwise the call's error, unchanged.
pub open spec fn passes_on<T, E>(r: Result<T, E>, last: Result<(), E>) -> bool {
    &&& r is Ok <==> last is Ok
    &&& r is Err ==> r->Err_0 == last->Err_0
}

/// The bytes that the last transfer of `h` read back.
pub open spec fn received(h: Seq<Transfer>) -> Seq<u8> {
    h.last().data()
}

/// A run of the planned transfers `planned` that stops at the first failed call: `h` is
/// `h0` followed by a nonempty prefix of `planned`, every call of that prefix but the last
/// succeeded (`k` extends `k0` with one flag per call), the last flag agrees with `last`,
/// the outcome of the latest call, and the run falls short of `planned` only where that
/// last call failed.
pub open spec fn ran<E>(
    h0: Seq<Transfer>,
    h: Seq<Transfer>,
    k0: Seq<bool>,
    k: Seq<bool>,
    last: Result<(), E>,
    planned: Seq<Transfer>,
) -> bool {
    let n = h.len() - h0.len();
    &&& 0 < n <= planned.len()
    &&& h == h0 + planned.take(n)
    &&& k.len() == k0.len() + n
    &&& k.subrange(0, k0.len() as int) == k0
    &&& forall|j: int| k0.len() <= j < k.len() - 1 ==> #[trigger] k[j]
    &&& k.last() == last is Ok
    &&& n < planned.len() ==> !k.last()
}

/// `h2`, `k2` extend `h`, `k` by the same calls: earlier transfers and their flags stay.
pub open spec fn extends(h: Seq<Transfer>, k: Seq<bool>, h2: Seq<Transfer>, k2: Seq<bool>) -> bool {
    &&& h.len() <= h2.len()
    &&& h2.subrange(0, h.len() as int) == h
    &&& k2.subrange(0, k.len() as int) == k
    &&& k2.len() - h2.len() == k.len() - h.len()
}

pub proof fn lemma_extends_at(h: Seq<Transfer>, k: Seq<bool>, h2: Seq<Transfer>, k2: Seq<bool>, i: int)
    requires
        extends(h, k, h2, k2),
        0 <= i < h.len(),
    ensures
        h2[i] == h[i],
        i < k.len() ==> k2[i] == k[i],
{
    assert(h2[i] == h2.subrange(0, h.len() as int)[i]);
    if i < k.len() {
        assert(k2[i] == k2.subrange(0, k.len() as int)[i]);
    }
}

pub proof fn lemma_extends_trans(
    h: Seq<Transfer>,
    k: Seq<bool>,
    h2: Seq<Transfer>,
    k2: Seq<bool>,
    h3: Seq<Transfer>,
    k3: Seq<bool>,
)
    requires
        extends(h, k, h2, k2),
        extends(h2, k2, h3, k3),
    ensures
        extends(h, k, h3, k3),
{
    assert(h3.subrange(0, h.len() as int) =~= h3.subrange(0, h2.len() as int).subrange(0, h.len() as int));
    assert(k3.subrange(0, k.len() as int) =~= k3.subrange(0, k2.len() as int).subrange(0, k.len() as int));
}

/// One bus call, recorded with its outcome, is a run of the one-transfer plan.
pub proof fn lemma_ran_one<E>(h0: Seq<Transfer>, k0: Seq<bool>, t: Transfer, last: Result<(), E>)
    ensures
        ran(h0, h0.push(t), k0, k0.push(last is Ok), last, seq![t]),
{
    assert(seq![t].take(1) =~= seq![t]);
    assert(h0.push(t) =~= h0 + seq![t]);
    assert(k0.push(last is Ok).subrange(0, k0.len() as int) =~= k0);
}

/// A run of `p` that went through, followed by a run of `q`, is a run of `p + q`.
pub proof fn lemma_ran_then<E>(
    h0: Seq<Transfer>,
    h1: Seq<Transfer>,
    h2: Seq<Transfer>,
    k0: Seq<bool>,
    k1: Seq<bool>,
    k2: Seq<bool>,
    l1: Result<(), E>,
    l2: Result<(), E>,
    p: Seq<Transfer>,
    q: Seq<Transfer>,
)
    requires
        ran(h0, h1, k0, k1, l1, p),
        l1 is Ok,
        ran(h1, h2, k1, k2, l2, q),
    ensures
        ran(h0, h2, k0, k2, l2, p + q),
{
    assert(p.take(p.len() as int) =~= p);
    let n2 = h2.len() - h1.len();
    assert((p + q).take(p.len() + n2) =~= p + q.take(n2));
    assert(h2 =~= h0 + (p + q).take(p.len() + n2));
    assert(k2.subrange(0, k0.len() as int) =~= k2.subrange(0, k1.len() as int).subrange(0, k0.len() as int));
    assert forall|j: int| k0.len() <= j < k2.len() - 1 implies #[trigger] k2[j] by {
        if j < k1.len() {
            assert(k2[j] == k2.subrange(0, k1.len() as int)[j]);
        }
    }
}

/// A run of `p` whose last call failed is a run of any plan that begins with `p`.
pub proof fn lemma_ran_stop<E>(
    h0: Seq<Transfer>,
    h: Seq<Transfer>,
    k0: Seq<bool>,
    k: Seq<bool>,
    last: Result<(), E>,
    p: Seq<Transfer>,
    q: Seq<Transfer>,
)
    requires
        ran(h0, h, k0, k, last, p),
        last is Err,
    ensures
        ran(h0, h, k0, k, last, p + q),
{
    let n = h.len() - h0.len();
    assert((p + q).take(n) =~= p.take(n));
}

/// The big-endian 16-bit value of two bytes.
pub open spec fn be16(b: Seq<u8>) -> u16 {
    (b[0] as int * 256 + b[1] as int) as u16
}

} // verus!

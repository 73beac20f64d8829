use vstd::prelude::*;

use vstd::slice::slice_to_vec;

verus! {

/// A failed bus transaction (timeout, missing acknowledge, lost arbitration),
/// carrying the transport's error code.
#[derive(Clone, Copy, Debug, PartialEq, Eq, Structural)]
pub struct BusError {
    pub code: i32,
}

/// One call of [`I2cBus::write`] as the bus received it: the device address,
/// the bytes, the timeout, and what the bus answered.
pub type BusCall = (u8, Seq<u8>, u32, Result<(), BusError>);

/// The transport: a blocking write of a byte sequence to the device at a
/// 7-bit address, waiting at most `timeout` ticks.
pub trait I2cBus {
    /// Every call of `write` this bus has received, oldest first.
    spec fn handed(&self) -> Seq<BusCall>;

    /// Sends `bytes` to `address`; a failure of the transfer is returned. The
    /// call and its answer are added to `handed`.
    fn write(&mut self, address: u8, bytes: &[u8], timeout: u32) -> (r: Result<(), BusError>)
        ensures
            final(self).handed() == old(self).handed().push((address, bytes@, timeout, r)),
    ;
}

/// One single-byte register write: the register address and the byte.
#[derive(Clone, Copy, Debug, PartialEq, Eq, Structural)]
pub struct RegWrite {
    pub register: u8,
    pub value: u8,
}

/// The bytes of one register write on the bus: the register, then the value.
pub open spec fn frame(w: RegWrite) -> Seq<u8> {
    seq![w.register, w.value]
}

/// The frames of a run of register writes.
pub open spec fn frames_of(ws: Seq<RegWrite>) -> Seq<Seq<u8>> {
    ws.map_values(|w: RegWrite| frame(w))
}

/// The bytes that a run of calls carried.
pub open spec fn frames(cs: Seq<BusCall>) -> Seq<Seq<u8>> {
    cs.map_values(|c: BusCall| c.1)
}

/// The first failure among a run of calls, or success if none failed.
pub open spec fn outcome(cs: Seq<BusCall>) -> Result<(), BusError>
    decreases cs.len(),
{
    if cs.len() == 0 {
        Ok(())
    } else if cs[0].3 is Err {
        cs[0].3
    } else {
        outcome(cs.drop_first())
    }
}

/// `cs` carries the writes `ws`, in order, to `address` with `timeout`.
pub open spec fn carries(cs: Seq<BusCall>, address: u8, timeout: u32, ws: Seq<RegWrite>) -> bool {
    &&& cs.len() == ws.len()
    &&& forall|i: int|
        0 <= i < ws.len() ==> {
            &&& (#[trigger] cs[i]).0 == address
            &&& cs[i].1 == frame(ws[i])
            &&& cs[i].2 == timeout
        }
}

/// A run of calls succeeds only if every call in it succeeded.
pub proof fn lemma_outcome_ok(cs: Seq<BusCall>, i: int)
    requires
        outcome(cs) is Ok,
        0 <= i < cs.len(),
    ensures
        cs[i].3 is Ok,
    decreases cs.len(),
{
    if i > 0 {
        lemma_outcome_ok(cs.drop_first(), i - 1);
    }
}

/// The first failure of `a` followed by `b` is the first of `a`, else that of `b`.
pub proof fn lemma_outcome_append(a: Seq<BusCall>, b: Seq<BusCall>)
    ensures
        outcome(a + b) == (if outcome(a) is Err {
            outcome(a)
        } else {
            outcome(b)
        }),
    decreases a.len(),
{
    if a.len() > 0 {
        assert((a + b).drop_first() =~= a.drop_first() + b);
        lemma_outcome_append(a.drop_first(), b);
    } else {
        assert(a + b =~= b);
    }
}

/// One call that a [`RecordingBus`] received.
pub struct Call {
    pub address: u8,
    pub bytes: Vec<u8>,
    pub timeout: u32,
    pub result: Result<(), BusError>,
}

impl Call {
    pub open spec fn spec_call(&self) -> BusCall {
        (self.address, self.bytes@, self.timeout, self.result)
    }
}

/// A bus with no hardware behind it: it keeps every call, and answers the
/// call with index `n` with `Err(BusError { code })` when `(n, code)` is
/// among its failures, else with `Ok(())`.
pub struct RecordingBus {
    calls: Vec<Call>,
    failures: Vec<(usize, i32)>,
}

/// The answer that a bus with `failures` gives to the call with index `n`:
/// the code of the last entry for `n`.
pub open spec fn scheduled(failures: Seq<(usize, i32)>, n: int) -> Result<(), BusError>
    decreases failures.len(),
{
    if failures.len() == 0 {
        Ok(())
    } else if failures.last().0 == n {
        Err(BusError { code: failures.last().1 })
    } else {
        scheduled(failures.drop_last(), n)
    }
}

impl RecordingBus {
    /// A bus that has received nothing and will fail the calls listed in
    /// `failures`, each as `(index, code)`.
    pub fn new(failures: Vec<(usize, i32)>) -> (r: RecordingBus)
        ensures
            r.handed() == Seq::<BusCall>::empty(),
            r.spec_failures() == failures@,
    {
        let r = RecordingBus { calls: Vec::new(), failures };
        proof {
            assert(r.handed() =~= Seq::<BusCall>::empty());
        }
        r
    }

    pub closed spec fn spec_failures(&self) -> Seq<(usize, i32)> {
        self.failures@
    }

    /// The answer to the call with index `n`.
    fn answer(&self, n: usize) -> (r: Result<(), BusError>)
        ensures
            r == scheduled(self.failures@, n as int),
    {
        let mut r: Result<(), BusError> = Ok(());
        let mut i: usize = 0;
        proof {
            assert(self.failures@.take(0) =~= Seq::<(usize, i32)>::empty());
        }
        while i < self.failures.len()
            invariant
                i <= self.failures.len(),
                r == scheduled(self.failures@.take(i as int), n as int),
            decreases self.failures.len() - i,
        {
            proof {
                assert(self.failures@.take(i + 1).drop_last() =~= self.failures@.take(i as int));
            }
            if self.failures[i].0 == n {
                r = Err(BusError { code: self.failures[i].1 });
            }
            i = i + 1;
        }
        proof {
            assert(self.failures@.take(self.failures.len() as int) =~= self.failures@);
        }
        r
    }

    /// The calls received so far, oldest first.
    pub fn calls(&self) -> (r: &Vec<Call>)
        ensures
            r@.map_values(|c: Call| c.spec_call()) == self.handed(),
    {
        &self.calls
    }
}

impl I2cBus for RecordingBus {
    closed spec fn handed(&self) -> Seq<BusCall> {
        self.calls@.map_values(|c: Call| c.spec_call())
    }

    fn write(&mut self, address: u8, bytes: &[u8], timeout: u32) -> (r: Result<(), BusError>) {
        let r = self.answer(self.calls.len());
        let call = Call { address, bytes: slice_to_vec(bytes), timeout, result: r };
        self.calls.push(call);
        proof {
            assert(self.handed() =~= old(self).handed().push((address, bytes@, timeout, r)));
        }
        r
    }
}

} // verus!

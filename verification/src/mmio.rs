//! The register window of the board, and a recording stand-in for it.

use vstd::prelude::*;

verus! {

/// Physical address at which the peripheral window of the BCM2837 begins.
pub const BASE_ADDR: u64 = 0x3F00_0000;

/// One thing a driver did to the board, as the board saw it.
#[derive(Clone, Copy, Debug, PartialEq, Eq)]
pub enum Event {
    /// A 32-bit load from the register at `addr`, which gave `data`.
    Read { addr: u64, data: u32 },
    /// A 32-bit store of `data` to the register at `addr`.
    Write { addr: u64, data: u32 },
    /// A pause of at least `cycles` processor cycles.
    Delay { cycles: u32 },
}

/// A register offset is word aligned and lies inside the address space once
/// the base is added.
pub open spec fn is_register(addr: u64) -> bool {
    addr % 4 == 0 && addr <= u64::MAX - BASE_ADDR
}

/// The value the next load gives: the head of what the device still has to
/// say, or 0 once it has gone quiet.
pub open spec fn next_reply(replies: Seq<u32>) -> u32 {
    if replies.len() > 0 {
        replies[0]
    } else {
        0
    }
}

/// What the device still has to say after one more load.
pub open spec fn rest(replies: Seq<u32>) -> Seq<u32> {
    if replies.len() > 0 {
        replies.drop_first()
    } else {
        replies
    }
}

/// The value the load after `n` others gives.
pub open spec fn reply_at(replies: Seq<u32>, n: nat) -> u32 {
    if n < replies.len() {
        replies[n as int]
    } else {
        0
    }
}

/// What the device still has to say after `n` loads.
pub open spec fn after_reads(replies: Seq<u32>, n: nat) -> Seq<u32> {
    if n <= replies.len() {
        replies.skip(n as int)
    } else {
        Seq::empty()
    }
}

/// Whether `event` is a load of the register at `addr`.
pub open spec fn is_load(event: Event, addr: u64) -> bool {
    match event {
        Event::Read { addr: a, data: _ } => a == addr,
        _ => false,
    }
}

/// Whether `event` is a store to the register at `addr`.
pub open spec fn is_store(event: Event, addr: u64) -> bool {
    match event {
        Event::Write { addr: a, data: _ } => a == addr,
        _ => false,
    }
}

/// How many loads of the register at `addr` are in `trace`.
pub open spec fn loads_of(trace: Seq<Event>, addr: u64) -> nat
    decreases trace.len(),
{
    if trace.len() == 0 {
        0
    } else if is_load(trace[0], addr) {
        1 + loads_of(trace.drop_first(), addr)
    } else {
        loads_of(trace.drop_first(), addr)
    }
}

/// How many stores to the register at `addr` are in `trace`.
pub open spec fn stores_of(trace: Seq<Event>, addr: u64) -> nat
    decreases trace.len(),
{
    if trace.len() == 0 {
        0
    } else if is_store(trace[0], addr) {
        1 + stores_of(trace.drop_first(), addr)
    } else {
        stores_of(trace.drop_first(), addr)
    }
}

/// The loads and stores of two traces, one after the other, add up.
pub proof fn accesses_add_up(first: Seq<Event>, second: Seq<Event>, addr: u64)
    ensures
        loads_of(first + second, addr) == loads_of(first, addr) + loads_of(second, addr),
        stores_of(first + second, addr) == stores_of(first, addr) + stores_of(second, addr),
    decreases first.len(),
{
    if first.len() == 0 {
        assert(first + second =~= second);
    } else {
        assert((first + second).drop_first() =~= first.drop_first() + second);
        accesses_add_up(first.drop_first(), second, addr);
    }
}

/// The physical address of the register at offset `addr`.
pub fn physical_address(addr: u64) -> (p: u64)
    requires
        is_register(addr),
    ensures
        p == BASE_ADDR + addr,
        p % 4 == 0,
{
    BASE_ADDR + addr
}

/// A window onto the peripheral registers.
///
/// The model of a window is the trace of events it has seen so far and the
/// finite run of values that the loads still to come will give; a device that
/// has nothing more to say reads as 0. Every load and store is performed once,
/// in program order, and nothing else touches the trace.
///
/// A verified window defines both model functions itself. Their bodies here
/// serve a window over real hardware, which has no state to define them by;
/// no driver relies on them.
pub trait Mmio {
    /// Everything done through this window so far, oldest first.
    open spec fn trace(&self) -> Seq<Event> {
        Seq::empty()
    }

    /// The values that the loads still to come will give, in order.
    open spec fn replies(&self) -> Seq<u32> {
        Seq::empty()
    }

    /// Stores `data` to the register at offset `addr`.
    fn write(&mut self, addr: u64, data: u32)
        requires
            is_register(addr),
        ensures
            final(self).trace() == old(self).trace().push(Event::Write { addr, data }),
            final(self).replies() == old(self).replies(),
    ;

    /// Loads the register at offset `addr`.
    fn read(&mut self, addr: u64) -> (data: u32)
        requires
            is_register(addr),
        ensures
            data == next_reply(old(self).replies()),
            final(self).trace() == old(self).trace().push(Event::Read { addr, data }),
            final(self).replies() == rest(old(self).replies()),
    ;

    /// Lets at least `cycles` processor cycles pass.
    fn delay(&mut self, cycles: u32)
        ensures
            final(self).trace() == old(self).trace().push(Event::Delay { cycles }),
            final(self).replies() == old(self).replies(),
    ;
}

/// A window that touches no hardware: it answers loads from a script and
/// keeps a log of every event.
pub struct Recorder {
    log: Vec<Event>,
    script: Vec<u32>,
}

impl Recorder {
    /// A recorder with an empty log whose loads give the values of `script`
    /// in order, and 0 after that.
    pub fn new(script: Vec<u32>) -> (r: Recorder)
        ensures
            r.trace() == Seq::<Event>::empty(),
            r.replies() == script@,
    {
        Recorder { log: Vec::new(), script }
    }

    /// The log so far, oldest event first.
    pub fn events(&self) -> (log: &Vec<Event>)
        ensures
            log@ == self.trace(),
    {
        &self.log
    }

    /// How many scripted values no load has taken yet.
    pub fn unread(&self) -> (n: usize)
        ensures
            n == self.replies().len(),
    {
        self.script.len()
    }
}

impl Mmio for Recorder {
    closed spec fn trace(&self) -> Seq<Event> {
        self.log@
    }

    closed spec fn replies(&self) -> Seq<u32> {
        self.script@
    }

    fn write(&mut self, addr: u64, data: u32) {
        self.log.push(Event::Write { addr, data });
    }

    fn read(&mut self, addr: u64) -> (data: u32) {
        let data: u32 = if self.script.len() > 0 {
            self.script.remove(0)
        } else {
            0
        };
        self.log.push(Event::Read { addr, data });
        data
    }

    fn delay(&mut self, cycles: u32) {
        self.log.push(Event::Delay { cycles });
    }
}

} // verus!

//! The periodic sensor task: one transaction per cycle, with the fixed
//! suspension the sensor requires between attempts.

use vstd::prelude::*;

use crate::driver::{read_step, DHT11, MAX_WAIT_POLLS};
use crate::frame::{Dht11Data, Dht11Error};
use crate::pin::{Level, PinMode};

verus! {

/// Suspension after every attempt, success or failure: the sensor does
/// not respond reliably to back-to-back requests, so this spacing must
/// never be shortened.
pub const READ_INTERVAL_MS: u64 = 2_000;

/// One line of the task's report: when the attempt started, on the
/// simulated clock, and how it ended.
#[derive(Clone, Copy, PartialEq, Eq, Debug)]
pub struct ReadRecord {
    /// Clock reading at the start of the attempt, in microseconds.
    pub started_us: u64,
    /// The reading, or the classified error.
    pub outcome: Result<Dht11Data, Dht11Error>,
}

/// The outcome of one record.
pub open spec fn record_outcome(rec: ReadRecord) -> Result<Dht11Data, Dht11Error> {
    rec.outcome
}

/// The outcomes of `n` back-to-back transactions over the scripted line,
/// each picking up at the sample position where the previous one ended.
pub open spec fn outcomes_from(s: Seq<Level>, pos: int, retries: nat, n: nat) -> Seq<
    Result<Dht11Data, Dht11Error>,
>
    decreases n,
{
    if n == 0 {
        Seq::empty()
    } else {
        let (res, p) = read_step(s, pos, retries);
        seq![res] + outcomes_from(s, p, retries, (n - 1) as nat)
    }
}

/// Run the periodic sensor task for `cycles` iterations: attempt one
/// transaction, record its outcome, and suspend for the fixed interval
/// before the next attempt — whatever the outcome was.
///
/// The report holds one record per cycle, the outcomes are exactly those
/// of the back-to-back transactions over the scripted line, and the
/// starts of successive attempts are never less than two seconds apart
/// on the clock.
pub fn run_sensor_task(dht: &mut DHT11, cycles: usize) -> (log: Vec<ReadRecord>)
    requires
        old(dht).pin@.pos + cycles * 8_340 <= usize::MAX,
        old(dht).pin@.now_us + cycles * 2_029_915 <= u64::MAX,
    ensures
        log@.len() == cycles,
        log@.map_values(|rec: ReadRecord| record_outcome(rec)) == outcomes_from(
            old(dht).pin@.samples,
            old(dht).pin@.pos,
            MAX_WAIT_POLLS as nat,
            cycles as nat,
        ),
        forall|i: int|
            0 <= i < cycles - 1 ==> (#[trigger] log@[i + 1]).started_us >= log@[i].started_us
                + 2_000_000,
        final(dht).pin@.samples == old(dht).pin@.samples,
        cycles > 0 ==> final(dht).pin@.mode == PinMode::Output && final(dht).pin@.driven
            == Level::High,
{
    let ghost s0 = dht.pin@.samples;
    let ghost p0 = dht.pin@.pos;
    let ghost t0 = dht.pin@.now_us;
    let mut log: Vec<ReadRecord> = Vec::new();
    let mut i: usize = 0;
    while i < cycles
        invariant
            s0 == old(dht).pin@.samples,
            p0 == old(dht).pin@.pos,
            t0 == old(dht).pin@.now_us,
            p0 + cycles * 8_340 <= usize::MAX,
            t0 + cycles * 2_029_915 <= u64::MAX,
            i <= cycles,
            log@.len() == i,
            dht.pin@.samples == s0,
            p0 <= dht.pin@.pos <= p0 + i * 8_340,
            t0 <= dht.pin@.now_us <= t0 + i * 2_029_915,
            i > 0 ==> dht.pin@.mode == PinMode::Output && dht.pin@.driven == Level::High,
            outcomes_from(s0, p0, MAX_WAIT_POLLS as nat, cycles as nat) == log@.map_values(
                |rec: ReadRecord| record_outcome(rec),
            ) + outcomes_from(s0, dht.pin@.pos, MAX_WAIT_POLLS as nat, (cycles - i) as nat),
            forall|k: int|
                0 <= k < i - 1 ==> (#[trigger] log@[k + 1]).started_us >= log@[k].started_us
                    + 2_000_000,
            i > 0 ==> log@[i - 1].started_us + 2_000_000 <= dht.pin@.now_us,
        decreases cycles - i,
    {
        let ghost pre_pos = dht.pin@.pos;
        let ghost old_map = log@.map_values(|rec: ReadRecord| record_outcome(rec));
        let start = dht.pin.elapsed_us();
        let outcome = dht.read();
        log.push(ReadRecord { started_us: start, outcome });
        dht.pin.suspend_ms(READ_INTERVAL_MS);
        i = i + 1;
        proof {
            let (res, p) = read_step(s0, pre_pos, MAX_WAIT_POLLS as nat);
            assert(log@.map_values(|rec: ReadRecord| record_outcome(rec)) =~= old_map.push(res));
            assert forall|rest: Seq<Result<Dht11Data, Dht11Error>>|
                (old_map + (seq![res] + rest)) =~= (old_map.push(res) + rest) by {}
        }
    }
    proof {
        assert(outcomes_from(s0, dht.pin@.pos, MAX_WAIT_POLLS as nat, 0) == Seq::<
            Result<Dht11Data, Dht11Error>,
        >::empty());
        assert(log@.map_values(|rec: ReadRecord| record_outcome(rec)) + Seq::<
            Result<Dht11Data, Dht11Error>,
        >::empty() =~= log@.map_values(|rec: ReadRecord| record_outcome(rec)));
    }
    log
}

} // verus!

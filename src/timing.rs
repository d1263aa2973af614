use vstd::prelude::*;

verus! {

/// The length of one world tick, in nanoseconds.
pub const TICK_NANOS: u64 = 50000000;

/// The fixed-timestep accumulator: with `carried` nanoseconds left over from
/// earlier frames and `delta` more elapsed, the number of world ticks now due
/// and the nanoseconds carried on to the next frame.
pub fn ticks_due(carried: u64, delta: u64) -> (r: (u64, u64))
    requires
        carried < TICK_NANOS,
        delta <= u64::MAX - TICK_NANOS,
    ensures
        r.0 == (carried + delta) / (TICK_NANOS as int),
        r.1 == (carried + delta) % (TICK_NANOS as int),
        r.1 < TICK_NANOS,
{
    let total = carried + delta;
    (total / TICK_NANOS, total % TICK_NANOS)
}

/// How long to wait for input so that a frame lasts `frame` nanoseconds when
/// `elapsed` of them have passed already; no wait once the frame is over.
pub fn frame_wait(frame: u64, elapsed: u64) -> (r: u64)
    ensures
        r == (if elapsed >= frame {
            0
        } else {
            frame - elapsed
        }),
{
    if elapsed >= frame {
        0
    } else {
        frame - elapsed
    }
}

} // verus!

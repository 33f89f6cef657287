//! Grid timing calculator: maps a grid slot, the number of grids a video
//! occupies, the trimmed stop time and the frame rate to the two values
//! that replace the slot's timing sentinels, and patches all 24 slots plus
//! the global playback-speed sentinel of a mesh buffer. Stop times and the
//! frame-rate-dependent quotients are handled as IEEE-754 bit patterns.
use vstd::prelude::*;
use crate::sentinel::{float_bits_spec, float_bits_of_int, le_bytes, patch_from,
    find_and_replace_float};

verus! {

/// Bit pattern of the 25.6-second duration of a fully occupied grid (256
/// frames on the template's native ten-per-second timeline).
pub const FULL_GRID_TIME_BITS: u32 = 0x41CCCCCD;

/// Base of the per-slot sentinel family replaced by the event-key time.
pub const TEXTKEY_SENTINEL_BASE: u32 = 121200;

/// Base of the per-slot sentinel family replaced by the controller stop time.
pub const CONTROLLER_SENTINEL_BASE: u32 = 141400;

/// The single sentinel replaced once per mesh by the playback-speed factor.
pub const SPEED_SENTINEL: u32 = 1313;

/// The template's native frame rate; event-key times need no rescaling at it.
pub const NATIVE_FRAME_RATE: u32 = 10;

/// A 32-bit float is zero (of either sign) exactly when all bits except the
/// sign bit are clear.
pub open spec fn is_zero_bits(bits: u32) -> bool {
    bits & 0x7fffffff == 0
}

/// The frame-rate-dependent replacement values. They are quotients of
/// 32-bit floats, so the caller computes them and passes their bit patterns.
pub struct RescaledTimes {
    /// Bit pattern of the full 25.6-second grid duration rescaled from the
    /// native timeline to the actual frame rate: `25.6 / frame_rate * 10`.
    pub full_rescaled_bits: u32,
    /// Bit pattern of the trimmed stop time rescaled the same way:
    /// `stop_time / frame_rate * 10`.
    pub stop_rescaled_bits: u32,
    /// Bit pattern of the playback-speed factor `frame_rate / 10`.
    pub speed_bits: u32,
}

/// Controller stop value for one slot: mid-sequence grids hold the full
/// 25.6-second duration, the final occupied grid holds the trimmed stop
/// time, and unused grids are driven to inert zero.
pub open spec fn controller_bits_spec(slot: int, grid_amount: int, stop_bits: u32) -> u32 {
    if slot < grid_amount {
        FULL_GRID_TIME_BITS
    } else if slot == grid_amount {
        stop_bits
    } else {
        0
    }
}

/// Event-key value for one slot: the controller value itself when that is
/// zero or the frame rate is the native one, otherwise the caller-supplied
/// rescaling of the controller value onto the actual frame-rate timeline.
pub open spec fn textkey_bits_spec(
    slot: int,
    grid_amount: int,
    stop_bits: u32,
    frame_rate: u32,
    times: RescaledTimes,
) -> u32 {
    let c = controller_bits_spec(slot, grid_amount, stop_bits);
    if is_zero_bits(c) || frame_rate == NATIVE_FRAME_RATE {
        c
    } else if slot < grid_amount {
        times.full_rescaled_bits
    } else {
        times.stop_rescaled_bits
    }
}

/// Computes the controller stop value for one slot.
pub fn controller_bits(slot: u32, grid_amount: u32, stop_bits: u32) -> (r: u32)
    ensures
        r == controller_bits_spec(slot as int, grid_amount as int, stop_bits),
{
    if slot < grid_amount {
        FULL_GRID_TIME_BITS
    } else if slot == grid_amount {
        stop_bits
    } else {
        0
    }
}

/// Computes the event-key value for one slot.
pub fn textkey_bits(
    slot: u32,
    grid_amount: u32,
    stop_bits: u32,
    frame_rate: u32,
    times: &RescaledTimes,
) -> (r: u32)
    ensures
        r == textkey_bits_spec(slot as int, grid_amount as int, stop_bits, frame_rate, *times),
{
    let c = controller_bits(slot, grid_amount, stop_bits);
    if c & 0x7fffffff == 0 || frame_rate == NATIVE_FRAME_RATE {
        c
    } else if slot < grid_amount {
        times.full_rescaled_bits
    } else {
        times.stop_rescaled_bits
    }
}

/// One slot's pair of sentinel patches: the event-key sentinel of the slot
/// is replaced by its event-key value, then the controller sentinel by its
/// controller value.
pub open spec fn patch_slot_spec(
    b: Seq<u8>,
    slot: int,
    grid_amount: int,
    stop_bits: u32,
    frame_rate: u32,
    times: RescaledTimes,
) -> Seq<u8> {
    let tk = textkey_bits_spec(slot, grid_amount, stop_bits, frame_rate, times);
    let c = controller_bits_spec(slot, grid_amount, stop_bits);
    let b1 = patch_from(
        b,
        le_bytes(float_bits_spec((TEXTKEY_SENTINEL_BASE + slot) as nat) as u32),
        le_bytes(tk),
        0,
    );
    patch_from(
        b1,
        le_bytes(float_bits_spec((CONTROLLER_SENTINEL_BASE + slot) as nat) as u32),
        le_bytes(c),
        0,
    )
}

/// The slot patches applied in order from `slot` up to slot 24.
pub open spec fn patch_slots_from(
    b: Seq<u8>,
    slot: int,
    grid_amount: int,
    stop_bits: u32,
    frame_rate: u32,
    times: RescaledTimes,
) -> Seq<u8>
    decreases 25 - slot,
    when 1 <= slot
{
    if slot > 24 {
        b
    } else {
        patch_slots_from(
            patch_slot_spec(b, slot, grid_amount, stop_bits, frame_rate, times),
            slot + 1,
            grid_amount,
            stop_bits,
            frame_rate,
            times,
        )
    }
}

/// All timing patches of one mesh buffer: the 24 per-slot sentinel pairs in
/// slot order, then the global speed sentinel.
pub open spec fn patch_timings_spec(
    b: Seq<u8>,
    grid_amount: int,
    stop_bits: u32,
    frame_rate: u32,
    times: RescaledTimes,
) -> Seq<u8> {
    patch_from(
        patch_slots_from(b, 1, grid_amount, stop_bits, frame_rate, times),
        le_bytes(float_bits_spec(SPEED_SENTINEL as nat) as u32),
        le_bytes(times.speed_bits),
        0,
    )
}

/// Patches every one of the 24 slots of a mesh buffer unconditionally —
/// unused slots are driven to zero rather than left holding stale sentinel
/// bytes — and then the global speed sentinel.
#[verifier::loop_isolation(false)]
pub fn patch_grid_timings(
    mesh: &mut Vec<u8>,
    grid_amount: u32,
    stop_bits: u32,
    frame_rate: u32,
    times: &RescaledTimes,
)
    ensures
        final(mesh)@ == patch_timings_spec(
            old(mesh)@,
            grid_amount as int,
            stop_bits,
            frame_rate,
            *times,
        ),
        final(mesh)@.len() == old(mesh)@.len(),
{
    let ghost m0 = mesh@;
    let mut slot: u32 = 1;
    while slot <= 24
        invariant
            1 <= slot <= 25,
            mesh@.len() == m0.len(),
            patch_slots_from(m0, 1, grid_amount as int, stop_bits, frame_rate, *times)
                == patch_slots_from(
                mesh@,
                slot as int,
                grid_amount as int,
                stop_bits,
                frame_rate,
                *times,
            ),
        decreases 25 - slot,
    {
        let ghost before = mesh@;
        let tk = textkey_bits(slot, grid_amount, stop_bits, frame_rate, times);
        let c = controller_bits(slot, grid_amount, stop_bits);
        let tk_sentinel = float_bits_of_int(TEXTKEY_SENTINEL_BASE + slot);
        let c_sentinel = float_bits_of_int(CONTROLLER_SENTINEL_BASE + slot);
        find_and_replace_float(mesh, tk_sentinel, tk);
        find_and_replace_float(mesh, c_sentinel, c);
        proof {
            assert(mesh@ == patch_slot_spec(
                before,
                slot as int,
                grid_amount as int,
                stop_bits,
                frame_rate,
                *times,
            ));
        }
        slot = slot + 1;
    }
    let speed_sentinel = float_bits_of_int(SPEED_SENTINEL);
    find_and_replace_float(mesh, speed_sentinel, times.speed_bits);
}

} // verus!

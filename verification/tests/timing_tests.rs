use autovideo::sentinel::float_bits_of_int;
use autovideo::timing::{
    controller_bits, patch_grid_timings, textkey_bits, RescaledTimes, FULL_GRID_TIME_BITS,
};

/// The rescaled values exactly as the front end computes them.
fn rescaled(stop_time: f32, frame_rate: u32) -> RescaledTimes {
    RescaledTimes {
        full_rescaled_bits: (25.6f32 / frame_rate as f32 * 10f32).to_bits(),
        stop_rescaled_bits: (stop_time / frame_rate as f32 * 10f32).to_bits(),
        speed_bits: (frame_rate as f32 / 10f32).to_bits(),
    }
}

#[test]
fn full_grid_time_is_25_point_6() {
    assert_eq!(FULL_GRID_TIME_BITS, 25.6f32.to_bits());
}

#[test]
fn grid_timing_concrete_case() {
    // grid_amount = 5, last_stop_time = 42.0, frame_rate = 20
    let stop = 42.0f32;
    let times = rescaled(stop, 20);
    for slot in 1..=4u32 {
        let c = controller_bits(slot, 5, stop.to_bits());
        let t = textkey_bits(slot, 5, stop.to_bits(), 20, &times);
        assert_eq!(f32::from_bits(c), 25.6);
        // 25.6 / 20 * 10, which prints as 12.8
        let expected = 25.6f32 / 20f32 * 10f32;
        assert_eq!(t, expected.to_bits());
        assert!((f32::from_bits(t) - 12.8).abs() < 1e-5);
    }
    let c5 = controller_bits(5, 5, stop.to_bits());
    let t5 = textkey_bits(5, 5, stop.to_bits(), 20, &times);
    assert_eq!(f32::from_bits(c5), 42.0);
    assert_eq!(f32::from_bits(t5), 21.0);
    for slot in 6..=24u32 {
        let c = controller_bits(slot, 5, stop.to_bits());
        let t = textkey_bits(slot, 5, stop.to_bits(), 20, &times);
        assert_eq!(f32::from_bits(c), 0.0);
        assert_eq!(f32::from_bits(t), 0.0);
    }
    assert_eq!(f32::from_bits(times.speed_bits), 2.0);
}

#[test]
fn native_frame_rate_needs_no_rescaling() {
    let stop = 17.5f32;
    let times = rescaled(stop, 10);
    for slot in 1..=24u32 {
        let c = controller_bits(slot, 3, stop.to_bits());
        let t = textkey_bits(slot, 3, stop.to_bits(), 10, &times);
        assert_eq!(t, c);
    }
}

#[test]
fn unused_slots_stay_zero_even_when_rescaling() {
    let times = rescaled(9.0, 30);
    let t = textkey_bits(20, 2, 9.0f32.to_bits(), 30, &times);
    assert_eq!(f32::from_bits(t), 0.0);
}

#[test]
fn mesh_buffer_gets_all_slots_and_speed_patched() {
    // a synthetic mesh: every slot sentinel pair plus the speed sentinel
    let mut mesh = Vec::new();
    for slot in 1..=24u32 {
        mesh.extend_from_slice(&((121200 + slot) as f32).to_le_bytes());
        mesh.extend_from_slice(&((141400 + slot) as f32).to_le_bytes());
    }
    mesh.extend_from_slice(&1313f32.to_le_bytes());

    let stop = 42.0f32;
    let times = rescaled(stop, 20);
    patch_grid_timings(&mut mesh, 5, stop.to_bits(), 20, &times);

    for slot in 1..=24u32 {
        let off = ((slot - 1) * 8) as usize;
        let tk = f32::from_le_bytes(mesh[off..off + 4].try_into().unwrap());
        let c = f32::from_le_bytes(mesh[off + 4..off + 8].try_into().unwrap());
        if slot < 5 {
            assert_eq!(c, 25.6);
            assert_eq!(tk.to_bits(), (25.6f32 / 20f32 * 10f32).to_bits());
        } else if slot == 5 {
            assert_eq!(c, 42.0);
            assert_eq!(tk, 21.0);
        } else {
            assert_eq!(c, 0.0);
            assert_eq!(tk, 0.0);
        }
    }
    let speed = f32::from_le_bytes(mesh[192..196].try_into().unwrap());
    assert_eq!(speed, 2.0);
}

#[test]
fn sentinel_bases_are_distinct_per_slot() {
    for slot in 1..=24u32 {
        assert_eq!(float_bits_of_int(121200 + slot), ((121200 + slot) as f32).to_bits());
        assert_eq!(float_bits_of_int(141400 + slot), ((141400 + slot) as f32).to_bits());
    }
}

use module_live_telemetry::raw_pages::{
    parse_car_state_sample, parse_controls_sample, parse_environment_sample, parse_motion_sample,
    parse_other_cars_sample, parse_session_sample, parse_timing_sample, parse_tyres_sample,
};

fn put_f32(p: &mut [u8], off: usize, v: f32) {
    p[off..off + 4].copy_from_slice(&v.to_le_bytes());
}

fn put_i32(p: &mut [u8], off: usize, v: i32) {
    p[off..off + 4].copy_from_slice(&v.to_le_bytes());
}

fn put_u16(p: &mut [u8], off: usize, v: u16) {
    p[off..off + 2].copy_from_slice(&v.to_le_bytes());
}

#[test]
fn test_parse_controls_from_physics_page() {
    let mut phys = vec![0u8; 800];
    put_i32(&mut phys, 0, 1234);
    put_f32(&mut phys, 4, 0.75);
    put_f32(&mut phys, 8, 0.25);
    put_f32(&mut phys, 12, 42.5);
    put_i32(&mut phys, 16, 3);
    put_i32(&mut phys, 20, 7100);
    put_f32(&mut phys, 24, -0.1);
    put_f32(&mut phys, 28, 201.5);
    put_f32(&mut phys, 364, 0.5);
    let c = parse_controls_sample(9, 90, &phys);
    assert_eq!(c.sample_tick, 9);
    assert_eq!(c.timestamp_ns, 90);
    assert_eq!(c.physics_packet_id, 1234);
    assert_eq!(c.graphics_packet_id, 0);
    assert_eq!(f32::from_bits(c.gas), 0.75);
    assert_eq!(f32::from_bits(c.brake), 0.25);
    assert_eq!(f32::from_bits(c.fuel), 42.5);
    assert_eq!(c.gear, 3);
    assert_eq!(c.rpms, 7100);
    assert_eq!(f32::from_bits(c.steer_angle), -0.1);
    assert_eq!(f32::from_bits(c.speed_kmh), 201.5);
    assert_eq!(f32::from_bits(c.clutch), 0.5);
}

#[test]
fn test_parse_motion_and_tyres_arrays() {
    let mut phys = vec![0u8; 800];
    for i in 0..3 {
        put_f32(&mut phys, 32 + 4 * i, i as f32 + 1.0);
    }
    for i in 0..12 {
        put_f32(&mut phys, 420 + 4 * i, i as f32);
    }
    put_i32(&mut phys, 244, 2);
    let m = parse_motion_sample(1, 2, &phys);
    let velocity: Vec<f32> = m.velocity.iter().map(|&b| f32::from_bits(b)).collect();
    assert_eq!(velocity, vec![1.0, 2.0, 3.0]);
    let t = parse_tyres_sample(1, 2, &phys);
    assert_eq!(t.tyre_contact_point.len(), 12);
    assert_eq!(f32::from_bits(t.tyre_contact_point[11]), 11.0);
    assert_eq!(t.number_of_tyres_out, 2);
}

#[test]
fn test_parse_session_and_timing_from_graphics_page() {
    let mut gfx = vec![0u8; 1584];
    put_i32(&mut gfx, 4, 2);
    put_f32(&mut gfx, 248, 0.5);
    put_i32(&mut gfx, 1408, 1);
    put_u16(&mut gfx, 1416, 7);
    put_u16(&mut gfx, 1416 + 2 * 32, 9);
    put_i32(&mut gfx, 1580, -4);
    put_i32(&mut gfx, 144, 83_456);
    put_u16(&mut gfx, 12, 0x31);
    let s = parse_session_sample(5, 50, &gfx);
    assert_eq!(s.status, 2);
    assert_eq!(f32::from_bits(s.normalized_car_position), 0.5);
    assert_eq!(s.is_valid_lap, 1);
    assert_eq!(s.track_status.len(), 33);
    assert_eq!(s.track_status[0], 7);
    assert_eq!(s.track_status[32], 9);
    assert_eq!(s.gap_ahead_or_tail_value, -4);
    let t = parse_timing_sample(5, 50, &gfx);
    assert_eq!(t.i_last_time, 83_456);
    assert_eq!(t.current_time_str.len(), 15);
    assert_eq!(t.current_time_str[0], 0x31);
}

#[test]
fn test_parse_samples_from_both_pages() {
    let mut phys = vec![0u8; 800];
    let mut gfx = vec![0u8; 1584];
    put_f32(&mut phys, 288, 24.5);
    put_i32(&mut gfx, 1560, 3);
    put_f32(&mut gfx, 1540, 26.0);
    put_f32(&mut gfx, 1552, 27.5);
    put_i32(&mut gfx, 252, 20);
    put_i32(&mut gfx, 976 + 4 * 59, 77);
    let e = parse_environment_sample(0, 0, &phys, &gfx);
    assert_eq!(f32::from_bits(e.air_temp), 24.5);
    assert_eq!(e.rain_intensity, 3);
    let c = parse_car_state_sample(0, 0, &phys, &gfx);
    let pressures: Vec<f32> = c.mfd_tyre_pressure.iter().map(|&b| f32::from_bits(b)).collect();
    assert_eq!(pressures, vec![26.0, 0.0, 0.0, 27.5]);
    let o = parse_other_cars_sample(0, 0, &gfx);
    assert_eq!(o.active_cars, 20);
    assert_eq!(o.car_coordinates.len(), 180);
    assert_eq!(o.car_id.len(), 60);
    assert_eq!(o.car_id[59], 77);
}

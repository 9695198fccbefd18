use touch_display::touch::{
    decode_channel, map_axis, AxisCal, RawResponse, Sampler, TouchConfig, TouchSample, CMD_PRESSURE,
    CMD_X, CMD_Y,
};
use touch_display::SpiFault;

fn cfg_4095() -> TouchConfig {
    TouchConfig {
        x: AxisCal { raw_min: 0, raw_max: 4095, px_max: 479 },
        y: AxisCal { raw_min: 0, raw_max: 4095, px_max: 319 },
        contact_min: 16,
        tol: 8,
    }
}

/// A response whose channels decode to the given raw counts: each
/// channel carries its count left-aligned in a big-endian byte pair.
fn resp(x: u16, y: u16, z: u16) -> RawResponse {
    let xw = x << 3;
    let yw = y << 3;
    let zw = z << 3;
    RawResponse {
        z_hi: (zw >> 8) as u8,
        z_lo: (zw & 0xff) as u8,
        x_hi: (xw >> 8) as u8,
        x_lo: (xw & 0xff) as u8,
        y_hi: (yw >> 8) as u8,
        y_lo: (yw & 0xff) as u8,
    }
}

#[test]
fn decode_exact_values() {
    assert_eq!(decode_channel(0x07, 0xf8), 255);
    assert_eq!(decode_channel(0x40, 0x00), 2048);
    assert_eq!(decode_channel(0x00, 0x00), 0);
    assert_eq!(decode_channel(0xff, 0xff), 8191);
}

#[test]
fn request_bytes_in_order() {
    let s = Sampler::new(cfg_4095());
    assert_eq!(s.request(), vec![CMD_PRESSURE, CMD_X, CMD_Y]);
}

#[test]
fn calibration_center_scenario() {
    let x = AxisCal { raw_min: 0, raw_max: 4095, px_max: 479 };
    let y = AxisCal { raw_min: 0, raw_max: 4095, px_max: 319 };
    assert_eq!(map_axis(x, 2048), 239);
    assert_eq!(map_axis(y, 2048), 159);
}

#[test]
fn calibration_endpoints() {
    let cal = AxisCal { raw_min: 200, raw_max: 3900, px_max: 479 };
    assert_eq!(map_axis(cal, 200), 0);
    assert_eq!(map_axis(cal, 3900), 479);
}

#[test]
fn calibration_monotonic_sweep() {
    let cal = AxisCal { raw_min: 100, raw_max: 4000, px_max: 319 };
    let mut prev = map_axis(cal, 100);
    for raw in 101..=4000u16 {
        let px = map_axis(cal, raw);
        assert!(px >= prev);
        assert!(px <= 319);
        prev = px;
    }
}

#[test]
fn debounce_two_agreeing_polls_report() {
    let mut s = Sampler::new(cfg_4095());
    assert_eq!(s.read(Ok(resp(2048, 2048, 600))), Ok(None));
    assert!(!s.is_pressed());
    let r = s.read(Ok(resp(2048, 2048, 600)));
    assert_eq!(r, Ok(Some(TouchSample { x: 239, y: 159 })));
    assert!(s.is_pressed());
}

#[test]
fn debounce_within_tolerance_reports_fresh_frame() {
    let mut s = Sampler::new(cfg_4095());
    assert_eq!(s.read(Ok(resp(2040, 2050, 600))), Ok(None));
    // differs by at most the tolerance of 8 on each axis
    let r = s.read(Ok(resp(2048, 2048, 600))).unwrap().unwrap();
    assert_eq!((r.x, r.y), (239, 159));
}

#[test]
fn noisy_sequence_never_reports() {
    let mut s = Sampler::new(cfg_4095());
    // consecutive polls always differ by more than the tolerance of 8
    let seq = [(100u16, 100u16), (400, 400), (100, 100), (700, 400), (100, 100)];
    for (x, y) in seq {
        assert_eq!(s.read(Ok(resp(x, y, 600))), Ok(None));
        assert!(!s.is_pressed());
    }
}

#[test]
fn single_noisy_sample_between_stable_ones() {
    let mut s = Sampler::new(cfg_4095());
    assert_eq!(s.read(Ok(resp(1000, 1000, 600))), Ok(None));
    // a spike breaks the pair; it alone must not produce a coordinate
    assert_eq!(s.read(Ok(resp(3000, 1000, 600))), Ok(None));
    assert_eq!(s.read(Ok(resp(1000, 1000, 600))), Ok(None));
    assert!(s.read(Ok(resp(1000, 1000, 600))).unwrap().is_some());
}

#[test]
fn pressure_below_threshold_two_polls() {
    let mut s = Sampler::new(cfg_4095());
    // valid coordinates, but the pressure channel says no contact
    assert_eq!(s.read(Ok(resp(2048, 2048, 15))), Ok(None));
    assert_eq!(s.read(Ok(resp(2048, 2048, 15))), Ok(None));
    assert!(!s.is_pressed());
}

#[test]
fn pressure_at_threshold_counts_as_contact() {
    let mut s = Sampler::new(cfg_4095());
    assert_eq!(s.read(Ok(resp(2048, 2048, 16))), Ok(None));
    assert!(s.read(Ok(resp(2048, 2048, 16))).unwrap().is_some());
}

#[test]
fn out_of_range_sample_is_no_touch() {
    let cfg = TouchConfig {
        x: AxisCal { raw_min: 200, raw_max: 3900, px_max: 479 },
        y: AxisCal { raw_min: 200, raw_max: 3900, px_max: 319 },
        contact_min: 0,
        tol: 8,
    };
    let mut s = Sampler::new(cfg);
    assert_eq!(s.read(Ok(resp(100, 2000, 600))), Ok(None));
    assert_eq!(s.read(Ok(resp(2000, 3950, 600))), Ok(None));
    // the rejections cleared the retained frame each time, so a valid
    // pair is needed again before anything is reported
    assert_eq!(s.read(Ok(resp(2000, 2000, 600))), Ok(None));
    assert!(s.read(Ok(resp(2000, 2000, 600))).unwrap().is_some());
}

#[test]
fn out_of_range_resets_debounce() {
    let mut s = Sampler::new(cfg_4095());
    assert_eq!(s.read(Ok(resp(2048, 2048, 600))), Ok(None));
    // an invalid frame clears the retained one
    assert_eq!(s.read(Ok(resp(2048, 2048, 0))), Ok(None));
    // so agreement with the poll before the reset no longer counts
    assert_eq!(s.read(Ok(resp(2048, 2048, 600))), Ok(None));
}

#[test]
fn transport_fault_propagates_verbatim() {
    let mut s = Sampler::new(cfg_4095());
    let r = s.read(Err(SpiFault { code: 42 }));
    assert_eq!(r, Err(SpiFault { code: 42 }));
    assert!(!s.is_pressed());
}

#[test]
fn transport_fault_resets_debounce() {
    let mut s = Sampler::new(cfg_4095());
    assert_eq!(s.read(Ok(resp(2048, 2048, 600))), Ok(None));
    assert!(s.read(Err(SpiFault { code: 1 })).is_err());
    assert_eq!(s.read(Ok(resp(2048, 2048, 600))), Ok(None));
    assert!(s.read(Ok(resp(2048, 2048, 600))).unwrap().is_some());
}

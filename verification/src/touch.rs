//! Touch sampler: reads a resistive-touch ADC controller over SPI,
//! validates and debounces the raw readings, and maps them to panel
//! pixel coordinates through a configured linear calibration.
//!
//! The sampler owns no bus. One polling cycle is split between the
//! application and this module: the application writes the control bytes
//! of [`Sampler::request`] to the controller, shifts in two response
//! bytes per channel within the same chip-select assertion, and hands
//! the outcome of that blocking transaction to [`Sampler::read`], which
//! does everything that can be decided from the bytes alone: bit-level
//! decoding, range validation, contact detection, debouncing, and the
//! calibration mapping.
//!
//! A reading that fails validation or debouncing is a legitimate "no
//! touch", reported as `Ok(None)`; a transport fault is a different
//! thing entirely — it is propagated verbatim as `Err`, never absorbed.

use vstd::prelude::*;
use crate::SpiFault;

verus! {

/// Control byte that asks the controller to convert the X channel.
pub const CMD_X: u8 = 0x90;

/// Control byte that asks the controller to convert the Y channel.
pub const CMD_Y: u8 = 0xD0;

/// Control byte that asks the controller to convert the pressure channel.
pub const CMD_PRESSURE: u8 = 0xB0;

/// Linear calibration for one axis: raw ADC counts in
/// `raw_min ..= raw_max` map onto pixels `0 ..= px_max`.
///
/// The parameters are configuration, never derived at runtime: they come
/// from the panel's data sheet or a calibration pass owned by the
/// application.
#[derive(Clone, Copy, PartialEq, Eq, Structural, Debug)]
pub struct AxisCal {
    /// Smallest raw reading accepted on this axis.
    pub raw_min: u16,
    /// Largest raw reading accepted on this axis.
    pub raw_max: u16,
    /// Largest pixel coordinate on this axis (panel extent minus one).
    pub px_max: u16,
}

impl AxisCal {
    /// A calibration is usable when its raw range is non-degenerate.
    pub open spec fn wf(self) -> bool {
        self.raw_min < self.raw_max
    }
}

/// The pixel coordinate `raw` maps to under `cal`: a fixed linear
/// transform with rounding toward zero.
pub open spec fn px_of(cal: AxisCal, raw: u16) -> int {
    (raw - cal.raw_min) * cal.px_max / (cal.raw_max - cal.raw_min)
}

/// Apply the calibration transform for one axis.
pub fn map_axis(cal: AxisCal, raw: u16) -> (px: u16)
    requires
        cal.wf(),
        cal.raw_min <= raw <= cal.raw_max,
    ensures
        px == px_of(cal, raw),
        px <= cal.px_max,
{
    let span: u32 = (cal.raw_max - cal.raw_min) as u32;
    let offset: u32 = (raw - cal.raw_min) as u32;
    proof {
        assert(offset * (cal.px_max as u32) <= 0xffff * 0xffff) by (nonlinear_arith)
            requires offset <= 0xffff, cal.px_max <= 0xffff,
        ;
    }
    let scaled: u32 = offset * (cal.px_max as u32);
    let px: u32 = scaled / span;
    proof {
        lemma_px_of_bounded(cal, raw);
    }
    px as u16
}

/// The calibration transform never leaves the panel: a raw reading
/// inside the calibrated range maps to a pixel coordinate at most
/// `px_max`.
pub proof fn lemma_px_of_bounded(cal: AxisCal, raw: u16)
    requires
        cal.wf(),
        cal.raw_min <= raw <= cal.raw_max,
    ensures
        0 <= px_of(cal, raw) <= cal.px_max,
{
    let off = (raw - cal.raw_min) as int;
    let span = (cal.raw_max - cal.raw_min) as int;
    let pm = cal.px_max as int;
    assert(off * pm <= span * pm) by (nonlinear_arith)
        requires 0 <= off <= span, 0 <= pm,
    ;
    assert(0 <= off * pm) by (nonlinear_arith)
        requires 0 <= off, 0 <= pm,
    ;
    assert(off * pm / span <= span * pm / span) by {
        vstd::arithmetic::div_mod::lemma_div_is_ordered(off * pm, span * pm, span);
    }
    assert(span * pm / span == pm) by (nonlinear_arith)
        requires span > 0,
    ;
    assert(off * pm / span >= 0) by {
        vstd::arithmetic::div_mod::lemma_div_pos_is_pos(off * pm, span);
    }
}

/// The raw ADC count carried by one big-endian response byte pair: the
/// controller shifts the conversion out left-aligned, so the count is
/// the 16-bit word divided by 8.
pub open spec fn raw_of(hi: u8, lo: u8) -> int {
    (hi * 256 + lo) / 8
}

/// Decode one channel's response byte pair into its raw ADC count.
pub fn decode_channel(hi: u8, lo: u8) -> (raw: u16)
    ensures
        raw == raw_of(hi, lo),
        raw < 0x2000,
{
    let word: u16 = ((hi as u16) << 8) | (lo as u16);
    proof {
        assert(((hi as u16) << 8) | (lo as u16) == hi * 256 + lo) by (bit_vector);
        assert(word >> 3 == word / 8) by (bit_vector);
    }
    word >> 3
}

/// The raw bytes one polling transaction shifts in: a big-endian byte
/// pair per sampled channel.
#[derive(Clone, Copy, PartialEq, Eq, Structural, Debug)]
pub struct RawResponse {
    /// High byte of the pressure channel's conversion.
    pub z_hi: u8,
    /// Low byte of the pressure channel's conversion.
    pub z_lo: u8,
    /// High byte of the X channel's conversion.
    pub x_hi: u8,
    /// Low byte of the X channel's conversion.
    pub x_lo: u8,
    /// High byte of the Y channel's conversion.
    pub y_hi: u8,
    /// Low byte of the Y channel's conversion.
    pub y_lo: u8,
}

/// One polling cycle's decoded channel values.
#[derive(Clone, Copy, PartialEq, Eq, Structural, Debug)]
pub struct RawFrame {
    /// Raw X channel count.
    pub x: u16,
    /// Raw Y channel count.
    pub y: u16,
    /// Raw pressure channel count.
    pub z: u16,
}

/// The frame a response decodes to, channel by channel.
pub open spec fn frame_of(resp: RawResponse) -> RawFrame {
    RawFrame {
        x: raw_of(resp.x_hi, resp.x_lo) as u16,
        y: raw_of(resp.y_hi, resp.y_lo) as u16,
        z: raw_of(resp.z_hi, resp.z_lo) as u16,
    }
}

/// The calibration transform is monotonic: on one axis, a larger raw
/// reading never maps to a smaller pixel coordinate, so the mapping has
/// no folding or inversion artifacts.
pub proof fn lemma_px_of_monotonic(cal: AxisCal, raw_a: u16, raw_b: u16)
    requires
        cal.wf(),
        cal.raw_min <= raw_a <= raw_b <= cal.raw_max,
    ensures
        px_of(cal, raw_a) <= px_of(cal, raw_b),
{
    let off_a = (raw_a - cal.raw_min) as int;
    let off_b = (raw_b - cal.raw_min) as int;
    let span = (cal.raw_max - cal.raw_min) as int;
    let pm = cal.px_max as int;
    assert(off_a * pm <= off_b * pm) by (nonlinear_arith)
        requires 0 <= off_a <= off_b, 0 <= pm,
    ;
    vstd::arithmetic::div_mod::lemma_div_is_ordered(off_a * pm, off_b * pm, span);
}

/// The sampler's configuration: calibration, contact threshold and
/// noise tolerance. All of it is supplied by the application — none of
/// these parameters can be derived at runtime.
#[derive(Clone, Copy, PartialEq, Eq, Structural, Debug)]
pub struct TouchConfig {
    /// Calibration of the X axis; its raw range is also the range of
    /// raw X readings accepted as valid.
    pub x: AxisCal,
    /// Calibration of the Y axis; its raw range is also the range of
    /// raw Y readings accepted as valid.
    pub y: AxisCal,
    /// Smallest pressure count that counts as contact. A controller
    /// without a pressure channel is used with `contact_min == 0`, which
    /// accepts every pressure reading.
    pub contact_min: u16,
    /// Noise tolerance: two consecutive readings agree when each raw
    /// coordinate differs by at most this many counts.
    pub tol: u16,
}

impl TouchConfig {
    /// A configuration is usable when both axis calibrations are.
    pub open spec fn wf(self) -> bool {
        self.x.wf() && self.y.wf()
    }
}

/// A debounced touch in panel pixel space. Coordinates are always
/// within the configured panel bounds: out-of-range raw readings are
/// rejected outright, never clamped into a misleading value.
#[derive(Clone, Copy, PartialEq, Eq, Structural, Debug)]
pub struct TouchSample {
    /// Pixel X coordinate.
    pub x: u16,
    /// Pixel Y coordinate.
    pub y: u16,
}

/// Whether a frame passes validation: the pressure channel indicates
/// contact and both coordinates lie in the controller's valid range.
/// A frame that fails here is "no touch", not an error.
pub open spec fn accepts(cfg: TouchConfig, f: RawFrame) -> bool {
    &&& cfg.contact_min <= f.z
    &&& cfg.x.raw_min <= f.x <= cfg.x.raw_max
    &&& cfg.y.raw_min <= f.y <= cfg.y.raw_max
}

/// Whether two consecutive frames agree within the noise tolerance on
/// both coordinates.
pub open spec fn agrees(cfg: TouchConfig, a: RawFrame, b: RawFrame) -> bool {
    &&& -(cfg.tol as int) <= a.x - b.x <= cfg.tol
    &&& -(cfg.tol as int) <= a.y - b.y <= cfg.tol
}

/// The debounce policy's whole transition, as one mathematical step:
/// from the previously retained frame and the freshly decoded one to
/// the frame retained next and whether a touch is reported.
///
/// A rejected frame clears the retained frame, so the settle period
/// starts over; an accepted frame is always retained, but reported only
/// when it agrees with an accepted predecessor — a single noisy sample
/// can never produce a spurious coordinate.
pub open spec fn step(cfg: TouchConfig, last: Option<RawFrame>, f: RawFrame) -> (Option<
    RawFrame,
>, bool) {
    if !accepts(cfg, f) {
        (None, false)
    } else if last matches Some(p) && agrees(cfg, p, f) {
        (Some(f), true)
    } else {
        (Some(f), false)
    }
}

/// The frame retained after polling `frames` in order, starting from a
/// retained frame of `last`.
pub open spec fn run_retained(cfg: TouchConfig, last: Option<RawFrame>, frames: Seq<RawFrame>) -> Option<
    RawFrame,
>
    decreases frames.len(),
{
    if frames.len() == 0 {
        last
    } else {
        step(cfg, run_retained(cfg, last, frames.drop_last()), frames.last()).0
    }
}

/// Whether the poll of `frames[i]` reports a touch, when the polls start
/// from a freshly constructed sampler and see `frames` in order.
pub open spec fn reports_at(cfg: TouchConfig, frames: Seq<RawFrame>, i: int) -> bool {
    step(cfg, run_retained(cfg, None, frames.take(i)), frames[i]).1
}

/// Debounce correctness, the quiet side: over any run of polls in which
/// every pair of consecutive frames disagrees by more than the noise
/// tolerance, not a single poll reports a touch — noise alone can never
/// produce a coordinate.
pub proof fn lemma_noise_reports_nothing(cfg: TouchConfig, frames: Seq<RawFrame>, i: int)
    requires
        0 <= i < frames.len(),
        forall|j: int| 0 < j < frames.len() ==> !agrees(cfg, frames[j - 1], #[trigger] frames[j]),
    ensures
        !reports_at(cfg, frames, i),
{
    if i > 0 {
        let pre = run_retained(cfg, None, frames.take(i));
        assert(frames.take(i).last() == frames[i - 1]);
        assert(pre is None || pre == Some(frames[i - 1]));
        assert(!agrees(cfg, frames[i - 1], frames[i]));
    }
}

/// Debounce correctness, the settled side: the quiet period ends as soon
/// as two consecutive frames are both valid and agree within tolerance —
/// the second of the pair is reported.
pub proof fn lemma_settled_reports(cfg: TouchConfig, frames: Seq<RawFrame>, i: int)
    requires
        0 < i < frames.len(),
        accepts(cfg, frames[i - 1]),
        accepts(cfg, frames[i]),
        agrees(cfg, frames[i - 1], frames[i]),
    ensures
        reports_at(cfg, frames, i),
{
    assert(frames.take(i).last() == frames[i - 1]);
}

/// No contact means no touch, however plausible the coordinates: a
/// pressure reading below the contact threshold on each of two
/// consecutive polls yields "no touch" both times, whatever was
/// retained before and whatever X and Y decoded to.
pub proof fn lemma_no_contact_no_touch(
    cfg: TouchConfig,
    last: Option<RawFrame>,
    f1: RawFrame,
    f2: RawFrame,
)
    requires
        f1.z < cfg.contact_min,
        f2.z < cfg.contact_min,
    ensures
        !step(cfg, last, f1).1,
        !step(cfg, step(cfg, last, f1).0, f2).1,
{
}

/// The touch sampler: its configuration and the mutable debounce state
/// that polling carries from one cycle to the next. Constructed once,
/// polled forever; nothing persists across a reset.
pub struct Sampler {
    cfg: TouchConfig,
    last: Option<RawFrame>,
    pressed: bool,
}

impl Sampler {
    /// The configuration the sampler was built with.
    pub closed spec fn config(self) -> TouchConfig {
        self.cfg
    }

    /// The accepted frame retained for debouncing, if the previous poll
    /// produced one.
    pub closed spec fn retained(self) -> Option<RawFrame> {
        self.last
    }

    /// The debounced press state after the most recent poll.
    pub closed spec fn pressed(self) -> bool {
        self.pressed
    }

    /// Build a sampler from its configuration. No I/O happens here: the
    /// SPI device stays with the application, which drives the polling
    /// cycle around [`Sampler::request`] and [`Sampler::read`].
    pub fn new(cfg: TouchConfig) -> (s: Sampler)
        requires
            cfg.wf(),
        ensures
            s.config() == cfg,
            s.retained() is None,
            !s.pressed(),
    {
        Sampler { cfg, last: None, pressed: false }
    }

    /// The control bytes of one polling transaction, in order. For each
    /// byte the application clocks the byte out and then shifts two
    /// response bytes in, all within a single chip-select assertion, and
    /// collects the pairs into a [`RawResponse`].
    pub fn request(&self) -> (req: Vec<u8>)
        ensures
            req@ == seq![CMD_PRESSURE, CMD_X, CMD_Y],
    {
        let mut req: Vec<u8> = Vec::new();
        req.push(CMD_PRESSURE);
        req.push(CMD_X);
        req.push(CMD_Y);
        proof {
            assert(req@ =~= seq![CMD_PRESSURE, CMD_X, CMD_Y]);
        }
        req
    }

    /// Finish one polling cycle, given the outcome of the blocking SPI
    /// transaction the application performed for [`Sampler::request`].
    ///
    /// A transport fault is propagated verbatim and resets the debounce
    /// state: it is a bus-level problem, never folded into "no touch".
    /// A response that decodes to a frame failing validation — pressure
    /// below the contact threshold, or a coordinate outside the valid
    /// raw range — yields `Ok(None)`. An accepted frame is reported only
    /// when it agrees with the retained frame of the previous poll
    /// within the noise tolerance; the report carries the calibrated
    /// panel coordinates of the fresh frame.
    pub fn read(&mut self, outcome: Result<RawResponse, SpiFault>) -> (r: Result<
        Option<TouchSample>,
        SpiFault,
    >)
        requires
            old(self).config().wf(),
        ensures
            final(self).config() == old(self).config(),
            match outcome {
                Err(fault) => {
                    &&& r == Err::<Option<TouchSample>, SpiFault>(fault)
                    &&& final(self).retained() is None
                    &&& !final(self).pressed()
                },
                Ok(resp) => ({
                    let f = frame_of(resp);
                    let next = step(old(self).config(), old(self).retained(), f);
                    &&& final(self).retained() == next.0
                    &&& final(self).pressed() == next.1
                    &&& if next.1 {
                        r matches Ok(s) && s matches Some(s) && s.x == px_of(
                            old(self).config().x,
                            f.x,
                        ) && s.y == px_of(old(self).config().y, f.y) && s.x <= old(
                            self,
                        ).config().x.px_max && s.y <= old(self).config().y.px_max
                    } else {
                        r == Ok::<Option<TouchSample>, SpiFault>(None)
                    }
                }),
            },
    {
        match outcome {
            Err(fault) => {
                self.last = None;
                self.pressed = false;
                Err(fault)
            },
            Ok(resp) => {
                let x = decode_channel(resp.x_hi, resp.x_lo);
                let y = decode_channel(resp.y_hi, resp.y_lo);
                let z = decode_channel(resp.z_hi, resp.z_lo);
                let f = RawFrame { x, y, z };
                let valid = self.cfg.contact_min <= z && self.cfg.x.raw_min <= x && x
                    <= self.cfg.x.raw_max && self.cfg.y.raw_min <= y && y <= self.cfg.y.raw_max;
                if !valid {
                    self.last = None;
                    self.pressed = false;
                    return Ok(None);
                }
                let report = match self.last {
                    Some(p) => {
                        let dx_ok = if p.x >= f.x {
                            p.x - f.x <= self.cfg.tol
                        } else {
                            f.x - p.x <= self.cfg.tol
                        };
                        let dy_ok = if p.y >= f.y {
                            p.y - f.y <= self.cfg.tol
                        } else {
                            f.y - p.y <= self.cfg.tol
                        };
                        dx_ok && dy_ok
                    },
                    None => false,
                };
                self.last = Some(f);
                self.pressed = report;
                if report {
                    let sx = map_axis(self.cfg.x, f.x);
                    let sy = map_axis(self.cfg.y, f.y);
                    Ok(Some(TouchSample { x: sx, y: sy }))
                } else {
                    Ok(None)
                }
            },
        }
    }

    /// Whether the most recent poll reported a debounced touch.
    pub fn is_pressed(&self) -> (r: bool)
        ensures
            r == self.pressed(),
    {
        self.pressed
    }
}

} // verus!

//! The animation engine: current mode, palette, derived gradient and
//! timing, with one entry point that applies a configuration update and
//! one that computes the frames of the next animation cycle.  The frames
//! carry their own pause, so the caller owns all sleeping and hardware
//! transmission.

use vstd::prelude::*;

use crate::color::Color;
use crate::gradient::build_gradient;
use crate::gradient::gradient_spec;
use crate::parse::UpdateMessage;
use crate::parse::lower_bytes;
use crate::parse::parse_colors;
use crate::parse::parse_colors_spec;
use crate::parse::wrap_u8;
use crate::parse::wrap_u8_spec;
use crate::parse::wrap_u64;
use crate::parse::wrap_u64_spec;
use crate::twinkler::Twinkler;
use crate::twinkler::black_buf;
use crate::twinkler::black_vec;
use crate::twinkler::timestep_rel;

verus! {

/// Number of pixels on the strip; fixed for the life of the process.
pub const LED_COUNT: usize = 460;

#[derive(Clone, Copy, PartialEq, Eq, Structural, Debug)]
pub enum ColorMode {
    Off,
    Gradient,
    GradientCenter,
    Solid,
    Twinkle,
}

/// How long to rest after a frame has been shown.
#[derive(Clone, Copy, PartialEq, Eq, Structural, Debug)]
pub enum Pause {
    NoSleep,
    Millis(u64),
    Seconds(u64),
}

/// One frame of an animation cycle: the pixels to transmit and the pause
/// that follows them.
pub struct Frame {
    pub pixels: Vec<Color>,
    pub pause: Pause,
}

/// The bytes of "gradient".
pub open spec fn spec_word_gradient() -> Seq<u8> {
    seq![103u8, 114, 97, 100, 105, 101, 110, 116]
}

/// The bytes of "gradientcenter".
pub open spec fn spec_word_gradientcenter() -> Seq<u8> {
    seq![103u8, 114, 97, 100, 105, 101, 110, 116, 99, 101, 110, 116, 101, 114]
}

/// The bytes of "off".
pub open spec fn spec_word_off() -> Seq<u8> {
    seq![111u8, 102, 102]
}

/// The bytes of "solid".
pub open spec fn spec_word_solid() -> Seq<u8> {
    seq![115u8, 111, 108, 105, 100]
}

/// The bytes of "twinkle".
pub open spec fn spec_word_twinkle() -> Seq<u8> {
    seq![116u8, 119, 105, 110, 107, 108, 101]
}

/// The mode a message's `mode` string selects, compared without regard
/// to ASCII case; anything unrecognized falls back to Off.
pub open spec fn mode_spec(s: Seq<u8>) -> ColorMode {
    let l = lower_bytes(s);
    if l == spec_word_gradient() {
        ColorMode::Gradient
    } else if l == spec_word_gradientcenter() {
        ColorMode::GradientCenter
    } else if l == spec_word_off() {
        ColorMode::Off
    } else if l == spec_word_solid() {
        ColorMode::Solid
    } else if l == spec_word_twinkle() {
        ColorMode::Twinkle
    } else {
        ColorMode::Off
    }
}

pub fn parse_mode(s: &Vec<u8>) -> (m: ColorMode)
    ensures
        m == mode_spec(s@),
{
    let l = crate::parse::ascii_lower(s);
    let n = l.len();
    if n == 8 && l[0] == 103 && l[1] == 114 && l[2] == 97 && l[3] == 100 && l[4] == 105 && l[5]
        == 101 && l[6] == 110 && l[7] == 116 {
        proof {
            assert(l@ =~= spec_word_gradient());
        }
        ColorMode::Gradient
    } else if n == 14 && l[0] == 103 && l[1] == 114 && l[2] == 97 && l[3] == 100 && l[4] == 105
        && l[5] == 101 && l[6] == 110 && l[7] == 116 && l[8] == 99 && l[9] == 101 && l[10] == 110
        && l[11] == 116 && l[12] == 101 && l[13] == 114 {
        proof {
            assert(l@ =~= spec_word_gradientcenter());
        }
        ColorMode::GradientCenter
    } else if n == 3 && l[0] == 111 && l[1] == 102 && l[2] == 102 {
        proof {
            assert(l@ =~= spec_word_off());
        }
        ColorMode::Off
    } else if n == 5 && l[0] == 115 && l[1] == 111 && l[2] == 108 && l[3] == 105 && l[4] == 100 {
        proof {
            assert(l@ =~= spec_word_solid());
        }
        ColorMode::Solid
    } else if n == 7 && l[0] == 116 && l[1] == 119 && l[2] == 105 && l[3] == 110 && l[4] == 107
        && l[5] == 108 && l[6] == 101 {
        proof {
            assert(l@ =~= spec_word_twinkle());
        }
        ColorMode::Twinkle
    } else {
        ColorMode::Off
    }
}

/// Pixel `i` of scroll step `j` of the plain gradient mode.
pub open spec fn gradient_pixel(colormap: Seq<Color>, j: int, i: int) -> Color
    recommends
        colormap.len() > 0,
{
    colormap[(i + j) % (colormap.len() as int)]
}

/// Pixel `i` of scroll step `j` of the centred gradient mode: the lower
/// half scrolls forward, the upper half mirrors it, so the sweep meets
/// in the middle.
pub open spec fn gradient_center_pixel(colormap: Seq<Color>, j: int, i: int) -> Color
    recommends
        colormap.len() > 0,
{
    if i < LED_COUNT / 2 {
        colormap[(i + j) % (colormap.len() as int)]
    } else {
        colormap[(LED_COUNT - 1 - i + j) % (colormap.len() as int)]
    }
}

pub struct LEDDriver {
    pub mode: ColorMode,
    pub colors: Vec<Color>,
    pub colormap: Vec<Color>,
    pub colorsteps: u64,
    pub delay: u64,
    pub twinkle_driver: Twinkler,
}

impl LEDDriver {
    /// The palette always holds at least one colour (Solid mode reads
    /// its head), and the particle simulator is intact.
    pub open spec fn wf(self) -> bool {
        self.colors@.len() >= 1 && self.twinkle_driver.wf()
    }

    /// The engine's startup state: twinkle mode, a two-colour palette,
    /// and the default density and delay.  The gradient is built on the
    /// first configuration update or by an explicit call.
    pub fn new() -> (d: LEDDriver)
        ensures
            d.wf(),
            d.mode == ColorMode::Twinkle,
            d.colors@ == seq![
                Color { c0: 255u8, c1: 0, c2: 0, c3: 0 },
                Color { c0: 0u8, c1: 0, c2: 255, c3: 0 },
            ],
            d.colormap@ == d.colors@,
            d.colorsteps == 255,
            d.delay == 2,
            d.twinkle_driver.stars@.len() == 0,
            d.twinkle_driver.comets@.len() == 0,
            d.twinkle_driver.led_vec@ == black_buf(),
    {
        let mut colors: Vec<Color> = Vec::new();
        colors.push(Color { c0: 255, c1: 0, c2: 0, c3: 0 });
        colors.push(Color { c0: 0, c1: 0, c2: 255, c3: 0 });
        let mut colormap: Vec<Color> = Vec::new();
        colormap.push(Color { c0: 255, c1: 0, c2: 0, c3: 0 });
        colormap.push(Color { c0: 0, c1: 0, c2: 255, c3: 0 });
        proof {
            assert(colors@ =~= seq![
                Color { c0: 255u8, c1: 0, c2: 0, c3: 0 },
                Color { c0: 0u8, c1: 0, c2: 255, c3: 0 },
            ]);
            assert(colormap@ =~= colors@);
        }
        LEDDriver {
            mode: ColorMode::Twinkle,
            colors,
            colormap,
            colorsteps: 255,
            delay: 2,
            twinkle_driver: Twinkler::new(),
        }
    }

    /// Rebuilds the gradient from the current palette and density; the
    /// result is a pure function of the two, so rebuilding with the same
    /// inputs always gives the same ramp.
    pub fn create_ping_pong_gradient(&mut self)
        ensures
            final(self).colormap@ == gradient_spec(
                old(self).colors@,
                old(self).colorsteps as nat,
            ),
            final(self).mode == old(self).mode,
            final(self).colors == old(self).colors,
            final(self).colorsteps == old(self).colorsteps,
            final(self).delay == old(self).delay,
            final(self).twinkle_driver == old(self).twinkle_driver,
    {
        let g = build_gradient(&self.colors, self.colorsteps);
        self.colormap = g;
    }

    /// Applies a configuration update: each present field replaces its
    /// state wholesale (the palette parsed from its string form, the mode
    /// resolved case-insensitively with unknown names falling back to
    /// Off, density and delay narrowed to their fields' widths), and the
    /// gradient is rebuilt from the resulting palette and density before
    /// the call returns.  A present `brightness` field is handed back,
    /// narrowed to a byte, for the caller to forward to the strip.
    pub fn parse_change_message(&mut self, msg: &UpdateMessage) -> (brightness: Option<u8>)
        requires
            old(self).wf(),
        ensures
            final(self).wf(),
            final(self).colors@ == match msg.colors {
                Option::Some(b) => parse_colors_spec(b@),
                Option::None => old(self).colors@,
            },
            final(self).mode == match msg.mode {
                Option::Some(m) => mode_spec(m@),
                Option::None => old(self).mode,
            },
            final(self).colorsteps == match msg.colorsteps {
                Option::Some(v) => wrap_u64_spec(v),
                Option::None => old(self).colorsteps,
            },
            final(self).delay == match msg.delay {
                Option::Some(v) => wrap_u64_spec(v),
                Option::None => old(self).delay,
            },
            brightness == match msg.brightness {
                Option::Some(v) => Option::Some(wrap_u8_spec(v)),
                Option::None => Option::<u8>::None,
            },
            final(self).colormap@ == gradient_spec(
                final(self).colors@,
                final(self).colorsteps as nat,
            ),
            final(self).twinkle_driver == old(self).twinkle_driver,
    {
        let mut brightness: Option<u8> = Option::None;
        match &msg.colors {
            Option::Some(b) => {
                self.colors = parse_colors(b);
            },
            Option::None => {},
        }
        match &msg.mode {
            Option::Some(m) => {
                self.mode = parse_mode(m);
            },
            Option::None => {},
        }
        match msg.brightness {
            Option::Some(v) => {
                brightness = Option::Some(wrap_u8(v));
            },
            Option::None => {},
        }
        match msg.colorsteps {
            Option::Some(v) => {
                self.colorsteps = wrap_u64(v);
            },
            Option::None => {},
        }
        match msg.delay {
            Option::Some(v) => {
                self.delay = wrap_u64(v);
            },
            Option::None => {},
        }
        self.create_ping_pong_gradient();
        brightness
    }

    /// Computes the frames of one animation cycle for the current mode.
    /// Off and Solid produce a single uniform frame (Off resting a coarse
    /// `delay / 10` seconds, Solid not resting at all); the two gradient
    /// modes produce one full scroll cycle — one frame per gradient entry,
    /// each resting `delay` milliseconds — and an empty gradient yields an
    /// empty cycle; Twinkle advances the particle simulation one tick and
    /// produces its composited buffer.  Only Twinkle changes the engine's
    /// state.
    pub fn do_animation_cycle(&mut self) -> (r: Vec<Frame>)
        requires
            old(self).wf(),
        ensures
            final(self).wf(),
            final(self).mode == old(self).mode,
            final(self).colors == old(self).colors,
            final(self).colormap == old(self).colormap,
            final(self).colorsteps == old(self).colorsteps,
            final(self).delay == old(self).delay,
            old(self).mode != ColorMode::Twinkle ==> final(self).twinkle_driver == old(
                self,
            ).twinkle_driver,
            old(self).mode == ColorMode::Off ==> r@.len() == 1 && r@[0].pixels@ == black_buf()
                && r@[0].pause == Pause::Seconds(old(self).delay / 10),
            old(self).mode == ColorMode::Solid ==> r@.len() == 1 && r@[0].pixels@.len()
                == LED_COUNT && (forall|i: int|
                0 <= i < LED_COUNT ==> r@[0].pixels@[i] == old(self).colors@[0]) && r@[0].pause
                == Pause::NoSleep,
            old(self).mode == ColorMode::Gradient ==> r@.len() == old(self).colormap@.len() && (
            forall|j: int|
                0 <= j < r@.len() ==> (#[trigger] r@[j]).pause == Pause::Millis(old(self).delay)
                    && r@[j].pixels@.len() == LED_COUNT && (forall|i: int|
                    0 <= i < LED_COUNT ==> r@[j].pixels@[i] == gradient_pixel(
                        old(self).colormap@,
                        j,
                        i,
                    ))),
            old(self).mode == ColorMode::GradientCenter ==> r@.len() == old(self).colormap@.len()
                && (forall|j: int|
                0 <= j < r@.len() ==> (#[trigger] r@[j]).pause == Pause::Millis(old(self).delay)
                    && r@[j].pixels@.len() == LED_COUNT && (forall|i: int|
                    0 <= i < LED_COUNT ==> r@[j].pixels@[i] == gradient_center_pixel(
                        old(self).colormap@,
                        j,
                        i,
                    ))),
            old(self).mode == ColorMode::Twinkle ==> r@.len() == 1 && timestep_rel(
                old(self).twinkle_driver,
                final(self).twinkle_driver,
            ) && r@[0].pixels@ == final(self).twinkle_driver.led_vec@ && r@[0].pause
                == Pause::Millis(old(self).delay),
    {
        let mut frames: Vec<Frame> = Vec::new();
        match self.mode {
            ColorMode::Off => {
                frames.push(Frame { pixels: black_vec(), pause: Pause::Seconds(self.delay / 10) });
            },
            ColorMode::Solid => {
                let c = self.colors[0];
                let mut px: Vec<Color> = Vec::new();
                let mut i: usize = 0;
                while i < LED_COUNT
                    invariant
                        i <= LED_COUNT,
                        px@.len() == i,
                        forall|k: int| 0 <= k < i ==> px@[k] == c,
                    decreases LED_COUNT - i,
                {
                    px.push(c);
                    i = i + 1;
                }
                frames.push(Frame { pixels: px, pause: Pause::NoSleep });
            },
            ColorMode::Gradient => {
                let len = self.colormap.len();
                let mut j: usize = 0;
                while j < len
                    invariant
                        len == self.colormap@.len(),
                        j <= len,
                        frames@.len() == j,
                        self == old(self),
                        forall|jj: int|
                            0 <= jj < j ==> (#[trigger] frames@[jj]).pause == Pause::Millis(
                                self.delay,
                            ) && frames@[jj].pixels@.len() == LED_COUNT && (forall|i: int|
                                0 <= i < LED_COUNT ==> frames@[jj].pixels@[i] == gradient_pixel(
                                    self.colormap@,
                                    jj,
                                    i,
                                )),
                    decreases len - j,
                {
                    let mut px: Vec<Color> = Vec::new();
                    let mut i: usize = 0;
                    while i < LED_COUNT
                        invariant
                            0 < len == self.colormap@.len(),
                            j < len,
                            i <= LED_COUNT,
                            px@.len() == i,
                            self == old(self),
                            forall|k: int|
                                0 <= k < i ==> px@[k] == gradient_pixel(
                                    self.colormap@,
                                    j as int,
                                    k,
                                ),
                        decreases LED_COUNT - i,
                    {
                        let idx: usize = (((i as u128) + (j as u128)) % (len as u128)) as usize;
                        proof {
                            assert(idx == ((i + j) as int) % (len as int));
                        }
                        px.push(self.colormap[idx]);
                        i = i + 1;
                    }
                    frames.push(Frame { pixels: px, pause: Pause::Millis(self.delay) });
                    j = j + 1;
                }
            },
            ColorMode::GradientCenter => {
                let len = self.colormap.len();
                let mut j: usize = 0;
                while j < len
                    invariant
                        len == self.colormap@.len(),
                        j <= len,
                        frames@.len() == j,
                        self == old(self),
                        forall|jj: int|
                            0 <= jj < j ==> (#[trigger] frames@[jj]).pause == Pause::Millis(
                                self.delay,
                            ) && frames@[jj].pixels@.len() == LED_COUNT && (forall|i: int|
                                0 <= i < LED_COUNT ==> frames@[jj].pixels@[i]
                                    == gradient_center_pixel(self.colormap@, jj, i)),
                    decreases len - j,
                {
                    let mut px: Vec<Color> = Vec::new();
                    let mut i: usize = 0;
                    let midpoint = LED_COUNT / 2;
                    while i < LED_COUNT
                        invariant
                            0 < len == self.colormap@.len(),
                            j < len,
                            i <= LED_COUNT,
                            midpoint == LED_COUNT / 2,
                            px@.len() == i,
                            self == old(self),
                            forall|k: int|
                                0 <= k < i ==> px@[k] == gradient_center_pixel(
                                    self.colormap@,
                                    j as int,
                                    k,
                                ),
                        decreases LED_COUNT - i,
                    {
                        let base: u128 = if i < midpoint {
                            (i as u128) + (j as u128)
                        } else {
                            (LED_COUNT as u128) - 1 - (i as u128) + (j as u128)
                        };
                        let idx: usize = (base % (len as u128)) as usize;
                        proof {
                            if i < midpoint {
                                assert(idx == ((i + j) as int) % (len as int));
                            } else {
                                assert(idx == (LED_COUNT - 1 - i + j) % (len as int));
                            }
                        }
                        px.push(self.colormap[idx]);
                        i = i + 1;
                    }
                    frames.push(Frame { pixels: px, pause: Pause::Millis(self.delay) });
                    j = j + 1;
                }
            },
            ColorMode::Twinkle => {
                self.twinkle_driver.do_timestep();
                let px = self.twinkle_driver.leds();
                frames.push(Frame { pixels: px, pause: Pause::Millis(self.delay) });
            },
        }
        frames
    }
}

/// Law: a configuration update followed immediately by a rendering step
/// in Gradient mode draws from the gradient of the updated palette and
/// density — the state an update leaves behind already has the new ramp
/// in place, so no frame can come from a stale one.
pub proof fn lemma_config_hot_swap(d: LEDDriver, j: int, i: int)
    requires
        d.colormap@ == gradient_spec(d.colors@, d.colorsteps as nat),
    ensures
        gradient_pixel(d.colormap@, j, i) == gradient_pixel(
            gradient_spec(d.colors@, d.colorsteps as nat),
            j,
            i,
        ),
{
}

} // verus!

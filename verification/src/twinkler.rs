//! The twinkle particle simulator: stochastically spawned "stars" and
//! "comets" whose brightness follows an asymmetric ignite-then-fade heat
//! curve, composited once per tick into a pixel buffer.

use vstd::prelude::*;
use vstd::pervasive::VecAdditionalExecFns;

use crate::color::Color;
use crate::color::scale_color;
use crate::color::scale_color_spec;
use crate::led_driver::LED_COUNT;

verus! {

/// Chance per tick of spawning a star: 1 in 5.
pub const STAR_SPAWN_NUM: u32 = 1;

pub const STAR_SPAWN_DEN: u32 = 5;

/// Chance per tick of spawning a comet: 1 in 100.
pub const COMET_SPAWN_NUM: u32 = 1;

pub const COMET_SPAWN_DEN: u32 = 100;

pub const COMET_MIN_TAILSIZE: usize = 5;

pub const COMET_MAX_TAILSIZE: usize = 30;

/// Heat moves toward its target by this ratio each tick.
pub const DEATH_RATE_NUM: u32 = 19;

pub const DEATH_RATE_DEN: u32 = 20;

/// Above this heat a particle flips from igniting to dying.
pub const DYING_THRESHOLD: u8 = 250;

/// A comet's head may wander past either end of the strip; it is kept
/// within this bound, which lies so far beyond the strip plus the longest
/// tail that every clamped tail index is already pinned to the strip's
/// edge, so the cap never changes a rendered pixel.
pub const HEAD_LIMIT: i64 = 1_000_000_000;

#[derive(Clone, Copy, PartialEq, Eq, Structural, Debug)]
pub struct Star {
    pub loc: usize,
    pub heat: u8,
    pub color: Color,
    pub is_dying: bool,
}

#[derive(Clone, Copy, PartialEq, Eq, Structural, Debug)]
pub struct Comet {
    pub head_loc: i64,
    pub tail_max: usize,
    pub heat: u8,
    pub is_dying: bool,
    pub direction: i64,
    pub color: Color,
}

pub struct Twinkler {
    pub rng: rand::rngs::ThreadRng,
    pub stars: Vec<Star>,
    pub comets: Vec<Comet>,
    pub led_vec: Vec<Color>,
}

/// Heat lost while dying: `heat * 19 / 20`, truncated downward.
pub open spec fn decay_heat(h: u8) -> int {
    (h * DEATH_RATE_NUM) / (DEATH_RATE_DEN as int)
}

/// Heat gained while igniting: the gap to 255 shrinks to 19/20 of itself,
/// truncated downward, so heat eases in toward full brightness.
pub open spec fn ignite_heat(h: u8) -> int {
    255 - ((255 - h) * DEATH_RATE_NUM) / (DEATH_RATE_DEN as int)
}

pub open spec fn next_heat(h: u8, dying: bool) -> int {
    if dying {
        decay_heat(h)
    } else {
        ignite_heat(h)
    }
}

pub proof fn lemma_next_heat_bounds(h: u8, dying: bool)
    ensures
        0 <= next_heat(h, dying) <= 255,
        dying && h >= 1 ==> next_heat(h, dying) < h,
        !dying ==> next_heat(h, dying) >= h,
        !dying && h < 255 ==> next_heat(h, dying) > h,
{
}

/// One tick of a star: the heat curve advances (unless the star is already
/// out), and a star that crosses the dying threshold starts to fade.
pub open spec fn step_star(s: Star) -> Star {
    if s.heat == 0 {
        s
    } else {
        let h2 = next_heat(s.heat, s.is_dying);
        Star {
            loc: s.loc,
            color: s.color,
            heat: h2 as u8,
            is_dying: s.is_dying || h2 > DYING_THRESHOLD as int,
        }
    }
}

/// The comet's head, one pixel further along, capped at `HEAD_LIMIT`.
pub open spec fn advance_head(h: i64, d: i64) -> int {
    if h + d > HEAD_LIMIT {
        HEAD_LIMIT as int
    } else if h + d < -(HEAD_LIMIT as int) {
        -(HEAD_LIMIT as int)
    } else {
        h + d
    }
}

/// One tick of a comet: the head advances every tick, and the heat curve
/// advances exactly as a star's does.
pub open spec fn step_comet(c: Comet) -> Comet {
    let h2 = if c.heat == 0 {
        c.heat as int
    } else {
        next_heat(c.heat, c.is_dying)
    };
    Comet {
        head_loc: advance_head(c.head_loc, c.direction) as i64,
        tail_max: c.tail_max,
        heat: h2 as u8,
        is_dying: if c.heat == 0 {
            c.is_dying
        } else {
            c.is_dying || h2 > DYING_THRESHOLD as int
        },
        direction: c.direction,
        color: c.color,
    }
}

pub open spec fn stepped_stars(stars: Seq<Star>) -> Seq<Star> {
    stars.map_values(|s: Star| step_star(s))
}

pub open spec fn stepped_comets(comets: Seq<Comet>) -> Seq<Comet> {
    comets.map_values(|c: Comet| step_comet(c))
}

/// The particles that survive a tick: exactly those whose heat is not yet
/// zero, in their original order.
pub open spec fn live_stars(stars: Seq<Star>) -> Seq<Star>
    decreases stars.len(),
{
    if stars.len() == 0 {
        Seq::empty()
    } else if stars.last().heat != 0 {
        live_stars(stars.drop_last()).push(stars.last())
    } else {
        live_stars(stars.drop_last())
    }
}

pub open spec fn live_comets(comets: Seq<Comet>) -> Seq<Comet>
    decreases comets.len(),
{
    if comets.len() == 0 {
        Seq::empty()
    } else if comets.last().heat != 0 {
        live_comets(comets.drop_last()).push(comets.last())
    } else {
        live_comets(comets.drop_last())
    }
}

/// The all-black frame.
pub open spec fn black_buf() -> Seq<Color> {
    Seq::new(LED_COUNT as nat, |i: int| Color::spec_black())
}

/// A star writes its dimmed colour at its position, unconditionally.
pub open spec fn paint_star_spec(buf: Seq<Color>, s: Star) -> Seq<Color>
    recommends
        s.loc < buf.len(),
{
    buf.update(s.loc as int, scale_color_spec(s.color, s.heat))
}

pub open spec fn paint_stars_spec(buf: Seq<Color>, stars: Seq<Star>) -> Seq<Color>
    decreases stars.len(),
{
    if stars.len() == 0 {
        buf
    } else {
        paint_star_spec(paint_stars_spec(buf, stars.drop_last()), stars.last())
    }
}

pub open spec fn clamp_led_index(x: int) -> int {
    if x < 0 {
        0
    } else if x > LED_COUNT - 1 {
        LED_COUNT - 1
    } else {
        x
    }
}

/// Intensity of tail offset `i`: the comet's colour scaled by
/// `heat * (1 - i / tail_max) / 255`, truncated downward.
pub open spec fn tail_channel_spec(x: u8, heat: u8, i: int, tail_max: int) -> int
    recommends
        0 <= i < tail_max,
{
    (x * heat * (tail_max - i)) / (tail_max * 255)
}

pub open spec fn tail_color_spec(c: Color, heat: u8, i: int, tail_max: int) -> Color
    recommends
        0 <= i < tail_max,
{
    Color {
        c0: tail_channel_spec(c.c0, heat, i, tail_max) as u8,
        c1: tail_channel_spec(c.c1, heat, i, tail_max) as u8,
        c2: tail_channel_spec(c.c2, heat, i, tail_max) as u8,
        c3: tail_channel_spec(c.c3, heat, i, tail_max) as u8,
    }
}

/// Tail offset `i` is painted behind the head (clamped onto the strip)
/// only when some channel still carries light: a fully black tail pixel
/// never overwrites what the buffer already holds.
pub open spec fn paint_tail_pixel(buf: Seq<Color>, c: Comet, i: int) -> Seq<Color> {
    let m = clamp_led_index(c.head_loc - i * c.direction);
    let col = tail_color_spec(c.color, c.heat, i, c.tail_max as int);
    if col.is_black() {
        buf
    } else {
        buf.update(m, col)
    }
}

pub open spec fn paint_tail(buf: Seq<Color>, c: Comet, k: int) -> Seq<Color>
    decreases k,
{
    if k <= 0 {
        buf
    } else {
        paint_tail_pixel(paint_tail(buf, c, k - 1), c, k - 1)
    }
}

pub open spec fn paint_comet_spec(buf: Seq<Color>, c: Comet) -> Seq<Color> {
    paint_tail(buf, c, c.tail_max as int)
}

/// All comets, stepped and painted in order; later writes win.
pub open spec fn run_comets_spec(buf: Seq<Color>, comets: Seq<Comet>) -> Seq<Color>
    decreases comets.len(),
{
    if comets.len() == 0 {
        buf
    } else {
        paint_comet_spec(run_comets_spec(buf, comets.drop_last()), step_comet(comets.last()))
    }
}

impl Star {
    /// The position is on the strip.
    pub open spec fn swf(self) -> bool {
        self.loc < LED_COUNT
    }

    /// A live star: well-placed and not yet burnt out.
    pub open spec fn wf(self) -> bool {
        self.swf() && self.heat >= 1
    }
}

impl Comet {
    /// Tail length and direction as spawned, head within its cap.
    pub open spec fn swf(self) -> bool {
        1 <= self.tail_max < COMET_MAX_TAILSIZE && (self.direction == 1 || self.direction == -1)
            && -(HEAD_LIMIT as int) <= self.head_loc <= HEAD_LIMIT as int
    }

    pub open spec fn wf(self) -> bool {
        self.swf() && self.heat >= 1
    }
}

impl Twinkler {
    /// The buffer spans the strip and every live particle is well-formed.
    pub open spec fn wf(self) -> bool {
        self.led_vec@.len() == LED_COUNT && (forall|i: int|
            0 <= i < self.stars@.len() ==> (#[trigger] self.stars@[i]).wf()) && (forall|i: int|
            0 <= i < self.comets@.len() ==> (#[trigger] self.comets@[i]).wf())
    }
}

pub proof fn lemma_step_star_swf(s: Star)
    requires
        s.swf(),
    ensures
        step_star(s).swf(),
        step_star(s).loc == s.loc,
{
}

pub proof fn lemma_step_comet_swf(c: Comet)
    requires
        c.swf(),
    ensures
        step_comet(c).swf(),
{
}

/// A fresh all-black frame buffer spanning the strip.
pub fn black_vec() -> (r: Vec<Color>)
    ensures
        r@ == black_buf(),
{
    let mut r: Vec<Color> = Vec::new();
    let mut i: usize = 0;
    while i < LED_COUNT
        invariant
            i <= LED_COUNT,
            r@.len() == i,
            forall|k: int| 0 <= k < i ==> r@[k] == Color::spec_black(),
        decreases LED_COUNT - i,
    {
        r.push(Color::black());
        i = i + 1;
    }
    proof {
        assert(r@ =~= black_buf());
    }
    r
}

/// One tick of a star's heat curve, as executable code.
pub fn step_star_exec(s: Star) -> (r: Star)
    ensures
        r == step_star(s),
{
    if s.heat == 0 {
        return s;
    }
    let h: u32 = s.heat as u32;
    let h2: u32 = if s.is_dying {
        (h * DEATH_RATE_NUM) / DEATH_RATE_DEN
    } else {
        255 - (((255 - h) * DEATH_RATE_NUM) / DEATH_RATE_DEN)
    };
    Star { loc: s.loc, color: s.color, heat: h2 as u8, is_dying: s.is_dying || h2
        > DYING_THRESHOLD as u32 }
}

/// One tick of a comet's head and heat, as executable code.
pub fn step_comet_exec(c: Comet) -> (r: Comet)
    requires
        c.swf(),
    ensures
        r == step_comet(c),
{
    let moved: i64 = c.head_loc + c.direction;
    let head: i64 = if moved > HEAD_LIMIT {
        HEAD_LIMIT
    } else if moved < -HEAD_LIMIT {
        -HEAD_LIMIT
    } else {
        moved
    };
    if c.heat == 0 {
        return Comet { head_loc: head, ..c };
    }
    let h: u32 = c.heat as u32;
    let h2: u32 = if c.is_dying {
        (h * DEATH_RATE_NUM) / DEATH_RATE_DEN
    } else {
        255 - (((255 - h) * DEATH_RATE_NUM) / DEATH_RATE_DEN)
    };
    Comet {
        head_loc: head,
        tail_max: c.tail_max,
        heat: h2 as u8,
        is_dying: c.is_dying || h2 > DYING_THRESHOLD as u32,
        direction: c.direction,
        color: c.color,
    }
}

impl Twinkler {
    pub fn new() -> (t: Twinkler)
        ensures
            t.wf(),
            t.stars@.len() == 0,
            t.comets@.len() == 0,
            t.led_vec@ == black_buf(),
    {
        Twinkler {
            rng: crate::rng::fresh_rng(),
            stars: Vec::new(),
            comets: Vec::new(),
            led_vec: black_vec(),
        }
    }

    /// Resets the working buffer to all black before compositing.
    pub fn clear_leds(&mut self)
        ensures
            final(self).led_vec@ == black_buf(),
            final(self).stars == old(self).stars,
            final(self).comets == old(self).comets,
    {
        self.led_vec = black_vec();
    }

    /// Advances every star one tick and paints each (dimmed by its heat)
    /// into the buffer; stars whose heat has reached zero are then removed.
    pub fn update_stars(&mut self)
        requires
            old(self).wf(),
        ensures
            final(self).wf(),
            final(self).led_vec@ == paint_stars_spec(
                old(self).led_vec@,
                stepped_stars(old(self).stars@),
            ),
            final(self).stars@ == live_stars(stepped_stars(old(self).stars@)),
            final(self).comets == old(self).comets,
    {
        let ghost orig = self.stars@;
        let ghost led0 = self.led_vec@;
        let n = self.stars.len();
        let mut idx: usize = 0;
        while idx < n
            invariant
                n == self.stars@.len(),
                n == orig.len(),
                idx <= n,
                self.led_vec@.len() == LED_COUNT,
                forall|k: int| 0 <= k < n ==> (#[trigger] orig[k]).wf(),
                forall|k: int| idx <= k < n ==> self.stars@[k] == orig[k],
                forall|k: int| 0 <= k < idx ==> self.stars@[k] == step_star(#[trigger] orig[k]),
                self.led_vec@ == paint_stars_spec(led0, stepped_stars(orig).subrange(0, idx as int)),
                self.comets == old(self).comets,
            decreases n - idx,
        {
            let s = self.stars[idx];
            let s2 = step_star_exec(s);
            proof {
                assert(s == orig[idx as int]);
                lemma_step_star_swf(orig[idx as int]);
            }
            self.stars.set(idx, s2);
            self.led_vec.set(s2.loc, scale_color(s2.color, s2.heat));
            proof {
                let st = stepped_stars(orig);
                assert(st.subrange(0, idx + 1).drop_last() =~= st.subrange(0, idx as int));
                assert(st[idx as int] == step_star(orig[idx as int]));
            }
            idx = idx + 1;
        }
        proof {
            assert(stepped_stars(orig).subrange(0, n as int) =~= stepped_stars(orig));
        }
        let mut alive: Vec<Star> = Vec::new();
        let mut i: usize = 0;
        while i < n
            invariant
                n == self.stars@.len(),
                n == orig.len(),
                i <= n,
                forall|k: int| 0 <= k < n ==> self.stars@[k] == step_star(#[trigger] orig[k]),
                forall|k: int| 0 <= k < n ==> (#[trigger] orig[k]).wf(),
                alive@ == live_stars(self.stars@.subrange(0, i as int)),
                forall|k: int| 0 <= k < alive@.len() ==> (#[trigger] alive@[k]).wf(),
            decreases n - i,
        {
            let s = self.stars[i];
            if s.heat != 0 {
                alive.push(s);
            }
            proof {
                assert(self.stars@.subrange(0, i + 1).drop_last() =~= self.stars@.subrange(
                    0,
                    i as int,
                ));
                lemma_step_star_swf(orig[i as int]);
            }
            i = i + 1;
        }
        proof {
            assert(self.stars@.subrange(0, n as int) =~= self.stars@);
            assert(self.stars@ =~= stepped_stars(orig));
        }
        self.stars = alive;
    }

    /// Advances every comet one tick (head movement plus the heat curve)
    /// and paints its fading tail into the buffer; a tail pixel that has
    /// gone fully black leaves the buffer untouched.  Comets whose heat
    /// has reached zero are then removed.
    pub fn update_comets(&mut self)
        requires
            old(self).wf(),
        ensures
            final(self).wf(),
            final(self).led_vec@ == run_comets_spec(old(self).led_vec@, old(self).comets@),
            final(self).comets@ == live_comets(stepped_comets(old(self).comets@)),
            final(self).stars == old(self).stars,
    {
        let ghost orig = self.comets@;
        let ghost led0 = self.led_vec@;
        let n = self.comets.len();
        let mut idx: usize = 0;
        while idx < n
            invariant
                n == self.comets@.len(),
                n == orig.len(),
                idx <= n,
                self.led_vec@.len() == LED_COUNT,
                forall|k: int| 0 <= k < n ==> (#[trigger] orig[k]).wf(),
                forall|k: int| idx <= k < n ==> self.comets@[k] == orig[k],
                forall|k: int| 0 <= k < idx ==> self.comets@[k] == step_comet(#[trigger] orig[k]),
                self.led_vec@ == run_comets_spec(led0, orig.subrange(0, idx as int)),
                self.stars == old(self).stars,
            decreases n - idx,
        {
            let c = self.comets[idx];
            proof {
                assert(c == orig[idx as int]);
                lemma_step_comet_swf(orig[idx as int]);
            }
            let c2 = step_comet_exec(c);
            self.comets.set(idx, c2);
            let tm = c2.tail_max;
            let ghost buf_pre = self.led_vec@;
            let ghost comets_now = self.comets@;
            let mut i: usize = 0;
            while i < tm
                invariant
                    i <= tm,
                    c2.swf(),
                    tm == c2.tail_max,
                    self.led_vec@.len() == LED_COUNT,
                    self.led_vec@ == paint_tail(buf_pre, c2, i as int),
                    self.comets@ == comets_now,
                    self.stars == old(self).stars,
                decreases tm - i,
            {
                let off: i64 = if c2.direction == 1 {
                    i as i64
                } else {
                    -(i as i64)
                };
                proof {
                    assert(off as int == (i as int) * c2.direction) by (nonlinear_arith)
                        requires
                            c2.direction == 1 || c2.direction == -1,
                            (off as int) == if c2.direction == 1 {
                                i as int
                            } else {
                                -(i as int)
                            },
                    ;
                }
                let pos: i64 = c2.head_loc - off;
                let m: usize = if pos < 0 {
                    0
                } else if pos > (LED_COUNT as i64) - 1 {
                    LED_COUNT - 1
                } else {
                    pos as usize
                };
                let col = tail_color_exec(c2.color, c2.heat, i, tm);
                if !(col.c0 == 0 && col.c1 == 0 && col.c2 == 0 && col.c3 == 0) {
                    self.led_vec.set(m, col);
                }
                proof {
                    assert(m == clamp_led_index(c2.head_loc - (i as int) * c2.direction));
                }
                i = i + 1;
            }
            proof {
                assert(self.led_vec@ == paint_comet_spec(buf_pre, c2));
                assert(orig.subrange(0, idx + 1).drop_last() =~= orig.subrange(0, idx as int));
                assert(orig.subrange(0, idx + 1).last() == orig[idx as int]);
            }
            idx = idx + 1;
        }
        proof {
            assert(orig.subrange(0, n as int) =~= orig);
        }
        let mut alive: Vec<Comet> = Vec::new();
        let mut i: usize = 0;
        while i < n
            invariant
                n == self.comets@.len(),
                n == orig.len(),
                i <= n,
                forall|k: int| 0 <= k < n ==> self.comets@[k] == step_comet(#[trigger] orig[k]),
                forall|k: int| 0 <= k < n ==> (#[trigger] orig[k]).wf(),
                alive@ == live_comets(self.comets@.subrange(0, i as int)),
                forall|k: int| 0 <= k < alive@.len() ==> (#[trigger] alive@[k]).wf(),
            decreases n - i,
        {
            let c = self.comets[i];
            if c.heat != 0 {
                alive.push(c);
            }
            proof {
                assert(self.comets@.subrange(0, i + 1).drop_last() =~= self.comets@.subrange(
                    0,
                    i as int,
                ));
                lemma_step_comet_swf(orig[i as int]);
            }
            i = i + 1;
        }
        proof {
            assert(self.comets@.subrange(0, n as int) =~= self.comets@);
            assert(self.comets@ =~= stepped_comets(orig));
        }
        self.comets = alive;
    }

    /// The deterministic part of a tick: the buffer is cleared, every
    /// star is advanced and painted, then every comet, and burnt-out
    /// particles are dropped.
    pub fn advance(&mut self)
        requires
            old(self).wf(),
        ensures
            final(self).wf(),
            final(self).led_vec@ == run_comets_spec(
                paint_stars_spec(black_buf(), stepped_stars(old(self).stars@)),
                old(self).comets@,
            ),
            final(self).stars@ == live_stars(stepped_stars(old(self).stars@)),
            final(self).comets@ == live_comets(stepped_comets(old(self).comets@)),
    {
        self.clear_leds();
        self.update_stars();
        self.update_comets();
    }

    /// Spawns a star at a random position: full heat still to come (heat
    /// starts at 1), not yet dying, in the fixed star colour.
    pub fn spawn_star(&mut self)
        requires
            old(self).wf(),
        ensures
            final(self).wf(),
            star_spawn_step(old(self).stars@, final(self).stars@),
            final(self).stars@.len() == old(self).stars@.len() + 1,
            final(self).comets == old(self).comets,
            final(self).led_vec == old(self).led_vec,
    {
        let loc = crate::rng::pick_in_range(&mut self.rng, 0, LED_COUNT);
        self.stars.push(
            Star { loc, heat: 1, color: Color { c0: 255, c1: 100, c2: 0, c3: 0 }, is_dying: false },
        );
        proof {
            assert(final(self).stars@ == old(self).stars@.push(spec_new_star(loc)));
        }
    }

    /// Spawns a comet with a random head position, tail length and
    /// direction: heat starts at 1, not yet dying, in the fixed comet
    /// colour.
    pub fn spawn_comet(&mut self)
        requires
            old(self).wf(),
        ensures
            final(self).wf(),
            comet_spawn_step(old(self).comets@, final(self).comets@),
            final(self).comets@.len() == old(self).comets@.len() + 1,
            final(self).stars == old(self).stars,
            final(self).led_vec == old(self).led_vec,
    {
        let loc = crate::rng::pick_in_range(&mut self.rng, 0, LED_COUNT);
        let tail = crate::rng::pick_in_range(&mut self.rng, COMET_MIN_TAILSIZE, COMET_MAX_TAILSIZE);
        let dir: i64 = if crate::rng::coin(&mut self.rng, 1, 2) {
            1
        } else {
            -1
        };
        self.comets.push(
            Comet {
                head_loc: loc as i64,
                tail_max: tail,
                heat: 1,
                is_dying: false,
                direction: dir,
                color: Color { c0: 0, c1: 0, c2: 255, c3: 0 },
            },
        );
        proof {
            assert(final(self).comets@ == old(self).comets@.push(
                spec_new_comet(loc as i64, tail, dir),
            ));
        }
    }

    /// One full tick: possibly spawn a star and/or a comet, then clear,
    /// advance and composite.  The spawn decisions and parameters are
    /// random, so the contract says only that the final state is the
    /// advanced image of the pre-state with at most one star and one
    /// comet added.
    pub fn do_timestep(&mut self)
        requires
            old(self).wf(),
        ensures
            final(self).wf(),
            timestep_rel(*old(self), *final(self)),
    {
        if crate::rng::coin(&mut self.rng, STAR_SPAWN_NUM, STAR_SPAWN_DEN) {
            self.spawn_star();
        }
        if crate::rng::coin(&mut self.rng, COMET_SPAWN_NUM, COMET_SPAWN_DEN) {
            self.spawn_comet();
        }
        let ghost pre = *old(self);
        let ghost ns = self.stars@;
        let ghost nc = self.comets@;
        proof {
            assert(star_spawn_step(pre.stars@, ns));
            assert(comet_spawn_step(pre.comets@, nc));
        }
        self.advance();
        proof {
            assert(star_spawn_step(pre.stars@, ns) && comet_spawn_step(pre.comets@, nc)
                && final(self).stars@ == live_stars(stepped_stars(ns)) && final(self).comets@
                == live_comets(stepped_comets(nc)) && final(self).led_vec@ == run_comets_spec(
                paint_stars_spec(black_buf(), stepped_stars(ns)),
                nc,
            ));
        }
    }

    /// A copy of the most recently composited frame.
    pub fn leds(&self) -> (r: Vec<Color>)
        ensures
            r@ == self.led_vec@,
    {
        let n = self.led_vec.len();
        let mut r: Vec<Color> = Vec::new();
        let mut i: usize = 0;
        while i < n
            invariant
                n == self.led_vec@.len(),
                i <= n,
                r@ == self.led_vec@.subrange(0, i as int),
            decreases n - i,
        {
            r.push(self.led_vec[i]);
            proof {
                assert(self.led_vec@.subrange(0, i + 1) =~= self.led_vec@.subrange(0, i as int)
                    .push(self.led_vec@[i as int]));
            }
            i = i + 1;
        }
        proof {
            assert(self.led_vec@.subrange(0, n as int) =~= self.led_vec@);
        }
        r
    }
}

/// A freshly spawned star at the given position.
pub open spec fn spec_new_star(loc: usize) -> Star {
    Star { loc, heat: 1, color: Color { c0: 255, c1: 100, c2: 0, c3: 0 }, is_dying: false }
}

/// A freshly spawned comet with the given head, tail length and direction.
pub open spec fn spec_new_comet(head: i64, tail: usize, dir: i64) -> Comet {
    Comet {
        head_loc: head,
        tail_max: tail,
        heat: 1,
        is_dying: false,
        direction: dir,
        color: Color { c0: 0, c1: 0, c2: 255, c3: 0 },
    }
}

/// The spawn phase adds either nothing or exactly one new star.
pub open spec fn star_spawn_step(pre: Seq<Star>, post: Seq<Star>) -> bool {
    post == pre || (exists|loc: usize| loc < LED_COUNT && post == pre.push(spec_new_star(loc)))
}

/// The spawn phase adds either nothing or exactly one new comet.
pub open spec fn comet_spawn_step(pre: Seq<Comet>, post: Seq<Comet>) -> bool {
    post == pre || (exists|head: i64, tail: usize, dir: i64|
        0 <= head < LED_COUNT && COMET_MIN_TAILSIZE <= tail < COMET_MAX_TAILSIZE && (dir == 1 || dir
            == -1) && post == pre.push(spec_new_comet(head, tail, dir)))
}

/// What one whole tick does, whatever the random draws decided: some
/// spawn outcome exists whose advanced image is the final state.
pub open spec fn timestep_rel(pre: Twinkler, post: Twinkler) -> bool {
    exists|ns: Seq<Star>, nc: Seq<Comet>|
        star_spawn_step(pre.stars@, ns) && comet_spawn_step(pre.comets@, nc) && post.stars@
            == live_stars(stepped_stars(ns)) && post.comets@ == live_comets(stepped_comets(nc))
            && post.led_vec@ == run_comets_spec(paint_stars_spec(black_buf(), stepped_stars(ns)), nc)
}

/// The star after `n` whole ticks of its heat curve.
pub open spec fn iter_star(s: Star, n: nat) -> Star
    decreases n,
{
    if n == 0 {
        s
    } else {
        iter_star(step_star(s), (n - 1) as nat)
    }
}

/// Law (ignition): while a live star is not yet dying, a tick never
/// lowers its heat, strictly raises it short of full brightness, leaves
/// its position alone, and flips it to dying exactly when the new heat
/// crosses the threshold.
pub proof fn lemma_star_ignites(s: Star)
    requires
        !s.is_dying,
        1 <= s.heat,
    ensures
        step_star(s).heat >= s.heat,
        s.heat < 255 ==> step_star(s).heat > s.heat,
        step_star(s).is_dying <==> step_star(s).heat > DYING_THRESHOLD,
        step_star(s).loc == s.loc,
{
    lemma_next_heat_bounds(s.heat, false);
}

/// Law (decay): a dying star stays dying and strictly loses heat each
/// tick until it reaches zero.
pub proof fn lemma_star_decays(s: Star)
    requires
        s.is_dying,
        1 <= s.heat,
    ensures
        step_star(s).heat < s.heat,
        step_star(s).is_dying,
        step_star(s).loc == s.loc,
{
    lemma_next_heat_bounds(s.heat, true);
}

proof fn lemma_iter_star_additive(s: Star, a: nat, b: nat)
    ensures
        iter_star(s, a + b) == iter_star(iter_star(s, a), b),
    decreases a,
{
    if a > 0 {
        lemma_iter_star_additive(step_star(s), (a - 1) as nat, b);
        assert(iter_star(s, a + b) == iter_star(step_star(s), (a + b - 1) as nat));
    }
}

proof fn lemma_burnt_out_stays(s: Star, n: nat)
    requires
        s.heat == 0,
    ensures
        iter_star(s, n) == s,
    decreases n,
{
    if n > 0 {
        assert(step_star(s) == s);
        lemma_burnt_out_stays(s, (n - 1) as nat);
    }
}

/// Law (bounded decay): a dying star's heat is zero after at most `heat`
/// further ticks.
pub proof fn lemma_dying_star_burns_out(s: Star)
    requires
        s.is_dying,
    ensures
        iter_star(s, s.heat as nat).heat == 0,
    decreases s.heat,
{
    if s.heat > 0 {
        lemma_star_decays(s);
        let s1 = step_star(s);
        lemma_dying_star_burns_out(s1);
        let k = (s.heat - 1) as nat;
        lemma_iter_star_additive(s1, s1.heat as nat, (k - s1.heat) as nat);
        lemma_burnt_out_stays(iter_star(s1, s1.heat as nat), (k - s1.heat) as nat);
        assert(iter_star(s, s.heat as nat) == iter_star(s1, k));
    }
}

/// Law (ignition terminates): a live star that is not yet dying flips to
/// dying within `256 - heat` ticks.
pub proof fn lemma_star_eventually_dying(s: Star)
    requires
        !s.is_dying,
        1 <= s.heat,
    ensures
        exists|n: nat| 1 <= n <= 256 - s.heat && (#[trigger] iter_star(s, n)).is_dying,
    decreases 255 - s.heat,
{
    lemma_star_ignites(s);
    let s1 = step_star(s);
    if s1.is_dying {
        assert(iter_star(s, 1) == iter_star(s1, 0));
        assert(1 <= 1nat <= 256 - s.heat && iter_star(s, 1nat).is_dying);
    } else {
        assert(s.heat < 255);
        lemma_star_eventually_dying(s1);
        let n1 = choose|n1: nat|
            1 <= n1 <= 256 - s1.heat && (#[trigger] iter_star(s1, n1)).is_dying;
        assert(iter_star(s, n1 + 1) == iter_star(s1, n1));
        assert(1 <= n1 + 1 <= 256 - s.heat && iter_star(s, (n1 + 1) as nat).is_dying);
    }
}

/// Law (lifecycle): a star spawned with heat 1 and not dying ignites,
/// flips to dying, and burns out — its heat is zero within a bounded
/// number of ticks.
pub proof fn lemma_star_lifecycle(s: Star)
    requires
        s.heat == 1,
        !s.is_dying,
    ensures
        exists|n: nat| n <= 510 && #[trigger] iter_star(s, n).heat == 0,
{
    lemma_star_eventually_dying(s);
    let n1 = choose|n1: nat| 1 <= n1 <= 256 - s.heat && (#[trigger] iter_star(s, n1)).is_dying;
    let s1 = iter_star(s, n1);
    lemma_dying_star_burns_out(s1);
    lemma_iter_star_additive(s, n1, s1.heat as nat);
    assert(iter_star(s, (n1 + s1.heat) as nat).heat == 0);
    assert(n1 + s1.heat <= 510);
}

/// Law (removal): the surviving set holds no burnt-out particle, and
/// when no particle is burnt out it is untouched — a star is removed in
/// exactly the tick its heat reaches zero.
pub proof fn lemma_live_stars_exact(stars: Seq<Star>)
    ensures
        forall|i: int|
            0 <= i < live_stars(stars).len() ==> (#[trigger] live_stars(stars)[i]).heat != 0,
        (forall|i: int| 0 <= i < stars.len() ==> (#[trigger] stars[i]).heat != 0) ==> live_stars(
            stars,
        ) == stars,
    decreases stars.len(),
{
    if stars.len() > 0 {
        lemma_live_stars_exact(stars.drop_last());
        let l = live_stars(stars.drop_last());
        if stars.last().heat != 0 {
            assert(live_stars(stars) == l.push(stars.last()));
            assert forall|i: int|
                0 <= i < live_stars(stars).len() implies (#[trigger] live_stars(stars)[i]).heat
                != 0 by {
                if i < l.len() {
                    assert(live_stars(stars)[i] == l[i]);
                } else {
                    assert(live_stars(stars)[i] == stars.last());
                }
            }
        } else {
            assert(live_stars(stars) == l);
        }
        if forall|i: int| 0 <= i < stars.len() ==> (#[trigger] stars[i]).heat != 0 {
            assert(forall|i: int|
                0 <= i < stars.drop_last().len() ==> (#[trigger] stars.drop_last()[i]).heat != 0);
            assert(live_stars(stars.drop_last()) == stars.drop_last());
            assert(stars.drop_last().push(stars.last()) =~= stars);
        }
    }
}

proof fn lemma_paint_tail_keeps_lit(buf: Seq<Color>, c: Comet, k: int, i: int)
    requires
        0 <= i < buf.len(),
        buf.len() == LED_COUNT,
    ensures
        paint_tail(buf, c, k).len() == buf.len(),
        paint_tail(buf, c, k)[i] == buf[i] || !paint_tail(buf, c, k)[i].is_black(),
    decreases k,
{
    if k > 0 {
        lemma_paint_tail_keeps_lit(buf, c, k - 1, i);
    }
}

/// Law (tail non-overwrite): compositing the comets on top of a buffer
/// either leaves a pixel exactly as it was — in particular, a star
/// painted there in the same tick stays visible — or replaces it with a
/// tail colour that still carries light; a tail pixel that has faded to
/// black never overwrites anything.
pub proof fn lemma_comets_never_blacken(buf: Seq<Color>, comets: Seq<Comet>, i: int)
    requires
        buf.len() == LED_COUNT,
        0 <= i < buf.len(),
    ensures
        run_comets_spec(buf, comets).len() == buf.len(),
        run_comets_spec(buf, comets)[i] == buf[i] || !run_comets_spec(buf, comets)[i].is_black(),
    decreases comets.len(),
{
    if comets.len() > 0 {
        lemma_comets_never_blacken(buf, comets.drop_last(), i);
        let mid = run_comets_spec(buf, comets.drop_last());
        let c1 = step_comet(comets.last());
        lemma_paint_tail_keeps_lit(mid, c1, c1.tail_max as int, i);
    }
}

/// Intensity of one tail channel, as executable code.
fn tail_channel_exec(x: u8, heat: u8, i: usize, tail_max: usize) -> (r: u8)
    requires
        i < tail_max,
        tail_max < COMET_MAX_TAILSIZE,
    ensures
        r as int == tail_channel_spec(x, heat, i as int, tail_max as int),
{
    proof {
        assert(0 <= x * heat <= 65025) by (nonlinear_arith)
            requires
                x <= 255,
                heat <= 255,
        ;
        assert(0 <= x * heat * (tail_max - i) <= 65025 * 30 && x * heat * (tail_max - i) <= 255
            * 255 * (tail_max as int)) by (nonlinear_arith)
            requires
                0 <= x * heat <= 65025,
                x <= 255,
                heat <= 255,
                0 < tail_max - i <= (tail_max as int) <= 30,
        ;
        assert((x * heat * (tail_max - i)) / ((tail_max as int) * 255) <= 255) by (nonlinear_arith)
            requires
                0 < (tail_max as int),
                0 <= x * heat * (tail_max - i) <= 255 * 255 * (tail_max as int),
        ;
    }
    let num: u64 = (x as u64) * (heat as u64) * ((tail_max - i) as u64);
    let den: u64 = (tail_max as u64) * 255;
    (num / den) as u8
}

/// Intensity of a whole tail pixel, as executable code.
fn tail_color_exec(c: Color, heat: u8, i: usize, tail_max: usize) -> (r: Color)
    requires
        i < tail_max,
        tail_max < COMET_MAX_TAILSIZE,
    ensures
        r == tail_color_spec(c, heat, i as int, tail_max as int),
{
    Color {
        c0: tail_channel_exec(c.c0, heat, i, tail_max),
        c1: tail_channel_exec(c.c1, heat, i, tail_max),
        c2: tail_channel_exec(c.c2, heat, i, tail_max),
        c3: tail_channel_exec(c.c3, heat, i, tail_max),
    }
}

} // verus!

//! Construction of the cyclic "ping-pong" colour ramp: the palette is
//! walked forward and then backward, interpolating a fixed number of
//! samples between each adjacent pair, so that scrolling through the
//! result bounces between the palette's ends instead of jumping.

use vstd::prelude::*;

use crate::color::Color;
use crate::color::lerp_color;
use crate::color::lerp_color_spec;

verus! {

/// The `steps` interpolated samples from `a` (inclusive) toward `b`
/// (exclusive).
pub open spec fn segment_spec(a: Color, b: Color, steps: nat) -> Seq<Color> {
    Seq::new(steps, |i: int| lerp_color_spec(a, b, i, steps as int))
}

/// The first `k` forward segments of the palette, concatenated: segment
/// `i` runs from `colors[i]` to `colors[i + 1]`.
pub open spec fn forward_spec(colors: Seq<Color>, seg: nat, k: nat) -> Seq<Color>
    recommends
        k < colors.len(),
    decreases k,
{
    if k == 0 {
        Seq::empty()
    } else {
        forward_spec(colors, seg, (k - 1) as nat) + segment_spec(
            colors[k - 1],
            colors[k as int],
            seg,
        )
    }
}

/// The full ping-pong ramp: a forward pass over the palette followed by
/// the same pass over the reversed palette.  Each segment holds
/// `total_steps / ((len - 1) * 2)` samples; a palette of fewer than two
/// colours yields the empty ramp.
pub open spec fn gradient_spec(colors: Seq<Color>, total_steps: nat) -> Seq<Color> {
    if colors.len() < 2 {
        Seq::empty()
    } else {
        let seg = total_steps / (((colors.len() - 1) * 2) as nat);
        forward_spec(colors, seg, (colors.len() - 1) as nat) + forward_spec(
            colors.reverse(),
            seg,
            (colors.len() - 1) as nat,
        )
    }
}

pub proof fn lemma_forward_len(colors: Seq<Color>, seg: nat, k: nat)
    ensures
        forward_spec(colors, seg, k).len() == k * seg,
    decreases k,
{
    if k > 0 {
        lemma_forward_len(colors, seg, (k - 1) as nat);
        assert(((k - 1) as nat) * seg + seg == k * seg) by (nonlinear_arith)
            requires
                k >= 1,
        ;
    } else {
        assert(k * seg == 0) by (nonlinear_arith)
            requires
                k == 0,
        ;
    }
}

/// The ramp's length: two passes of `len - 1` segments of `seg` samples,
/// and zero for a degenerate palette.
pub proof fn lemma_gradient_len(colors: Seq<Color>, total_steps: nat)
    ensures
        colors.len() < 2 ==> gradient_spec(colors, total_steps).len() == 0,
        colors.len() >= 2 ==> gradient_spec(colors, total_steps).len() == 2 * (colors.len() - 1)
            * (total_steps / (((colors.len() - 1) * 2) as nat)),
{
    if colors.len() >= 2 {
        let seg = total_steps / (((colors.len() - 1) * 2) as nat);
        let k = (colors.len() - 1) as nat;
        lemma_forward_len(colors, seg, k);
        lemma_forward_len(colors.reverse(), seg, k);
        assert(k * seg + k * seg == 2 * k * seg) by (nonlinear_arith);
    }
}

/// Law: the ramp is a pure function of palette and step count — builds
/// from equal inputs always yield the identical sequence, so snapshots
/// of it are stable.
pub proof fn lemma_gradient_deterministic(
    colors1: Seq<Color>,
    steps1: nat,
    colors2: Seq<Color>,
    steps2: nat,
)
    requires
        colors1 == colors2,
        steps1 == steps2,
    ensures
        gradient_spec(colors1, steps1) == gradient_spec(colors2, steps2),
{
}

/// Law: for a two-colour palette the ramp has exactly `2 * (steps / 2)`
/// entries, starts at the first colour, and reaches the second colour
/// exactly at its midpoint before walking back — the closure that makes
/// cyclic indexing bounce instead of jump.
pub proof fn lemma_gradient_two_color(a: Color, b: Color, total_steps: nat)
    ensures
        gradient_spec(seq![a, b], total_steps).len() == 2 * (total_steps / 2),
        total_steps / 2 > 0 ==> gradient_spec(seq![a, b], total_steps)[0] == a,
        total_steps / 2 > 0 ==> gradient_spec(seq![a, b], total_steps)[(total_steps / 2) as int]
            == b,
{
    let c = seq![a, b];
    let seg = total_steps / 2;
    assert(c.len() == 2);
    assert(total_steps / (((c.len() - 1) * 2) as nat) == seg);
    let fw = forward_spec(c, seg, 1);
    let bw = forward_spec(c.reverse(), seg, 1);
    assert(forward_spec(c, seg, 0) == Seq::<Color>::empty());
    assert(fw == forward_spec(c, seg, 0) + segment_spec(c[0], c[1], seg));
    assert(fw =~= segment_spec(c[0], c[1], seg));
    assert(c.reverse()[0] == b && c.reverse()[1] == a);
    assert(forward_spec(c.reverse(), seg, 0) == Seq::<Color>::empty());
    assert(bw == forward_spec(c.reverse(), seg, 0) + segment_spec(
        c.reverse()[0],
        c.reverse()[1],
        seg,
    ));
    assert(bw =~= segment_spec(b, a, seg));
    assert(gradient_spec(c, total_steps) == fw + bw);
    assert(gradient_spec(c, total_steps).len() == 2 * seg);
    if seg > 0 {
        crate::color::lemma_lerp_channel_at_start(a.c0, b.c0, seg as int);
        crate::color::lemma_lerp_channel_at_start(a.c1, b.c1, seg as int);
        crate::color::lemma_lerp_channel_at_start(a.c2, b.c2, seg as int);
        crate::color::lemma_lerp_channel_at_start(a.c3, b.c3, seg as int);
        assert(fw[0] == lerp_color_spec(a, b, 0, seg as int));
        assert(gradient_spec(c, total_steps)[0] == fw[0]);
        crate::color::lemma_lerp_channel_at_start(b.c0, a.c0, seg as int);
        crate::color::lemma_lerp_channel_at_start(b.c1, a.c1, seg as int);
        crate::color::lemma_lerp_channel_at_start(b.c2, a.c2, seg as int);
        crate::color::lemma_lerp_channel_at_start(b.c3, a.c3, seg as int);
        assert(gradient_spec(c, total_steps)[seg as int] == bw[0]);
        assert(bw[0] == lerp_color_spec(b, a, 0, seg as int));
    }
}

pub fn interpolate_segment(start_color: Color, end_color: Color, segment_steps: u64) -> (r: Vec<
    Color,
>)
    ensures
        r@ == segment_spec(start_color, end_color, segment_steps as nat),
{
    let mut segment: Vec<Color> = Vec::new();
    let mut step: u64 = 0;
    while step < segment_steps
        invariant
            step <= segment_steps,
            segment@.len() == step,
            forall|i: int|
                0 <= i < step ==> segment@[i] == lerp_color_spec(
                    start_color,
                    end_color,
                    i,
                    segment_steps as int,
                ),
        decreases segment_steps - step,
    {
        segment.push(lerp_color(start_color, end_color, step, segment_steps));
        step = step + 1;
    }
    proof {
        assert(segment@ =~= segment_spec(start_color, end_color, segment_steps as nat));
    }
    segment
}

/// One forward pass: appends `len - 1` interpolated segments onto
/// `gradient`, walking `colors` from front to back.
fn append_forward(gradient: &mut Vec<Color>, colors: &Vec<Color>, seg: u64)
    requires
        colors@.len() >= 1,
    ensures
        final(gradient)@ == old(gradient)@ + forward_spec(
            colors@,
            seg as nat,
            (colors@.len() - 1) as nat,
        ),
{
    let ghost start = gradient@;
    let n = colors.len();
    let mut i: usize = 0;
    while i < n - 1
        invariant
            n == colors@.len(),
            1 <= n,
            i <= n - 1,
            gradient@ == start + forward_spec(colors@, seg as nat, i as nat),
        decreases n - 1 - i,
    {
        let mut piece = interpolate_segment(colors[i], colors[i + 1], seg);
        let m = piece.len();
        let mut j: usize = 0;
        while j < m
            invariant
                m == piece@.len(),
                j <= m,
                gradient@ == start + forward_spec(colors@, seg as nat, i as nat) + piece@.subrange(
                    0,
                    j as int,
                ),
                piece@ == segment_spec(colors@[i as int], colors@[i as int + 1], seg as nat),
                i < colors@.len() - 1,
            decreases m - j,
        {
            gradient.push(piece[j]);
            j = j + 1;
            proof {
                assert(piece@.subrange(0, j as int) =~= piece@.subrange(0, j - 1).push(
                    piece@[j - 1],
                ));
            }
        }
        proof {
            assert(piece@.subrange(0, m as int) =~= piece@);
        }
        i = i + 1;
    }
}

/// Builds the reversed palette.
fn reversed(colors: &Vec<Color>) -> (r: Vec<Color>)
    ensures
        r@ == colors@.reverse(),
{
    let n = colors.len();
    let mut r: Vec<Color> = Vec::new();
    let mut i: usize = 0;
    while i < n
        invariant
            n == colors@.len(),
            i <= n,
            r@.len() == i,
            forall|k: int| 0 <= k < i ==> r@[k] == colors@[n - 1 - k],
        decreases n - i,
    {
        r.push(colors[n - 1 - i]);
        i = i + 1;
    }
    proof {
        assert(r@ =~= colors@.reverse());
    }
    r
}

/// Builds the full ping-pong ramp for the palette at the given density.
pub fn build_gradient(colors: &Vec<Color>, total_steps: u64) -> (r: Vec<Color>)
    ensures
        r@ == gradient_spec(colors@, total_steps as nat),
{
    let mut gradient: Vec<Color> = Vec::new();
    if colors.len() < 2 {
        return gradient;
    }
    let divisor: u128 = (colors.len() as u128 - 1) * 2;
    let seg: u64 = ((total_steps as u128) / divisor) as u64;
    assert(seg as nat == (total_steps as nat) / ((colors@.len() - 1) * 2) as nat);
    append_forward(&mut gradient, colors, seg);
    let rev = reversed(colors);
    append_forward(&mut gradient, &rev, seg);
    proof {
        assert(gradient@ =~= gradient_spec(colors@, total_steps as nat));
    }
    gradient
}

} // verus!

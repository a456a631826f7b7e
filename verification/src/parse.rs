//! Parsing of configuration updates.  The palette arrives as the bytes of
//! a `"(r,g,b),(r,g,b),..."` string: outer parentheses are trimmed, the
//! string is split on `"),("`, each piece is split on commas, and every
//! component that reads as a decimal byte (an optional `+` then digits,
//! value at most 255) counts.  A piece with exactly three such components
//! becomes a colour with the components reordered to the strip's native
//! channel order; any other piece falls back to opaque black.

use vstd::prelude::*;

use crate::color::Color;

verus! {

/// A decoded configuration update; only the fields that are present
/// take effect.
pub struct UpdateMessage {
    pub colors: Option<Vec<u8>>,
    pub mode: Option<Vec<u8>>,
    pub brightness: Option<i64>,
    pub colorsteps: Option<i64>,
    pub delay: Option<i64>,
}

pub open spec fn is_paren(b: u8) -> bool {
    b == 40 || b == 41
}

pub open spec fn trim_front(s: Seq<u8>) -> Seq<u8>
    decreases s.len(),
{
    if s.len() > 0 && is_paren(s[0]) {
        trim_front(s.drop_first())
    } else {
        s
    }
}

pub open spec fn trim_back(s: Seq<u8>) -> Seq<u8>
    decreases s.len(),
{
    if s.len() > 0 && is_paren(s.last()) {
        trim_back(s.drop_last())
    } else {
        s
    }
}

/// The string with every leading and trailing parenthesis removed.
pub open spec fn trim_parens(s: Seq<u8>) -> Seq<u8> {
    trim_back(trim_front(s))
}

proof fn lemma_trim_front_subrange(s: Seq<u8>, i: int)
    requires
        0 <= i <= s.len(),
        forall|k: int| 0 <= k < i ==> is_paren(#[trigger] s[k]),
        i == s.len() || !is_paren(s[i]),
    ensures
        trim_front(s) == s.subrange(i, s.len() as int),
    decreases i,
{
    if i == 0 {
        assert(s.subrange(0, s.len() as int) =~= s);
    } else {
        assert(is_paren(s[0]));
        lemma_trim_front_subrange(s.drop_first(), i - 1);
        assert(s.drop_first().subrange(i - 1, s.drop_first().len() as int) =~= s.subrange(
            i,
            s.len() as int,
        ));
    }
}

proof fn lemma_trim_back_subrange(s: Seq<u8>, j: int)
    requires
        0 <= j <= s.len(),
        forall|k: int| j <= k < s.len() ==> is_paren(#[trigger] s[k]),
        j == 0 || !is_paren(s[j - 1]),
    ensures
        trim_back(s) == s.subrange(0, j),
    decreases s.len() - j,
{
    if j == s.len() {
        if s.len() == 0 || !is_paren(s.last()) {
            assert(s.subrange(0, j) =~= s);
        } else {
            lemma_trim_back_subrange(s.drop_last(), j - 1);
            assert(s.drop_last().subrange(0, j - 1) =~= s.subrange(0, j - 1));
            assert(j >= 1 && !is_paren(s[j - 1]));
        }
    } else {
        assert(is_paren(s.last()));
        lemma_trim_back_subrange(s.drop_last(), j);
        assert(s.drop_last().subrange(0, j) =~= s.subrange(0, j));
    }
}

fn copy_range(s: &Vec<u8>, a: usize, b: usize) -> (r: Vec<u8>)
    requires
        a <= b <= s@.len(),
    ensures
        r@ == s@.subrange(a as int, b as int),
{
    let mut r: Vec<u8> = Vec::new();
    let mut i: usize = a;
    while i < b
        invariant
            a <= i <= b <= s@.len(),
            r@ == s@.subrange(a as int, i as int),
        decreases b - i,
    {
        r.push(s[i]);
        proof {
            assert(s@.subrange(a as int, i + 1) =~= s@.subrange(a as int, i as int).push(
                s@[i as int],
            ));
        }
        i = i + 1;
    }
    r
}

fn trim_parens_exec(s: &Vec<u8>) -> (r: Vec<u8>)
    ensures
        r@ == trim_parens(s@),
{
    let n = s.len();
    let mut lo: usize = 0;
    while lo < n && (s[lo] == 40 || s[lo] == 41)
        invariant
            lo <= n,
            n == s@.len(),
            forall|k: int| 0 <= k < lo ==> is_paren(#[trigger] s@[k]),
        decreases n - lo,
    {
        lo = lo + 1;
    }
    proof {
        lemma_trim_front_subrange(s@, lo as int);
    }
    let mut hi: usize = n;
    while hi > lo && (s[hi - 1] == 40 || s[hi - 1] == 41)
        invariant
            lo <= hi <= n,
            n == s@.len(),
            forall|k: int| hi <= k < n ==> is_paren(#[trigger] s@[k]),
        decreases hi,
    {
        hi = hi - 1;
    }
    proof {
        let t = s@.subrange(lo as int, n as int);
        lemma_trim_back_subrange(t, hi - lo);
        assert(t.subrange(0, hi - lo) =~= s@.subrange(lo as int, hi as int));
    }
    copy_range(s, lo, hi)
}

/// True when the three-byte piece separator `"),("` starts at `i`.
pub open spec fn is_sep_at(s: Seq<u8>, i: int) -> bool {
    i + 3 <= s.len() && s[i] == 41 && s[i + 1] == 44 && s[i + 2] == 40
}

/// The pieces of `s` from `i` onward, the current piece having started
/// at `start`: the separator is matched greedily left to right and
/// never overlaps itself.
pub open spec fn split_from(s: Seq<u8>, start: int, i: int) -> Seq<Seq<u8>>
    recommends
        0 <= start <= i <= s.len(),
    decreases s.len() - i,
{
    if i < 0 || i + 3 > s.len() {
        seq![s.subrange(start, s.len() as int)]
    } else if is_sep_at(s, i) {
        seq![s.subrange(start, i)] + split_from(s, i + 3, i + 3)
    } else {
        split_from(s, start, i + 1)
    }
}

pub open spec fn split_pieces(s: Seq<u8>) -> Seq<Seq<u8>> {
    split_from(s, 0, 0)
}

/// Splitting always yields at least one piece (possibly empty).
pub proof fn lemma_split_from_len(s: Seq<u8>, start: int, i: int)
    ensures
        split_from(s, start, i).len() >= 1,
    decreases s.len() - i,
{
    if !(i < 0 || i + 3 > s.len()) {
        if is_sep_at(s, i) {
            lemma_split_from_len(s, i + 3, i + 3);
        } else {
            lemma_split_from_len(s, start, i + 1);
        }
    }
}

pub open spec fn vec_views(vs: Seq<Vec<u8>>) -> Seq<Seq<u8>> {
    vs.map_values(|v: Vec<u8>| v@)
}

fn split_pieces_exec(s: &Vec<u8>) -> (r: Vec<Vec<u8>>)
    ensures
        vec_views(r@) == split_pieces(s@),
        r@.len() >= 1,
{
    let n = s.len();
    let mut pieces: Vec<Vec<u8>> = Vec::new();
    let mut start: usize = 0;
    let mut i: usize = 0;
    while i < n && n - i >= 3
        invariant
            0 <= start <= i <= n,
            n == s@.len(),
            split_pieces(s@) == vec_views(pieces@) + split_from(s@, start as int, i as int),
        decreases n - i,
    {
        if s[i] == 41 && s[i + 1] == 44 && s[i + 2] == 40 {
            let piece = copy_range(s, start, i);
            proof {
                assert(vec_views(pieces@.push(piece)) =~= vec_views(pieces@) + seq![piece@]);
            }
            pieces.push(piece);
            start = i + 3;
            i = i + 3;
        } else {
            i = i + 1;
        }
    }
    let last = copy_range(s, start, n);
    proof {
        assert(vec_views(pieces@.push(last)) =~= vec_views(pieces@) + seq![last@]);
        assert(split_from(s@, start as int, i as int) =~= seq![s@.subrange(start as int, n as int)]);
    }
    pieces.push(last);
    proof {
        assert(vec_views(pieces@) =~= split_pieces(s@));
    }
    pieces
}

/// The comma-separated components of one piece.
pub open spec fn split_commas_from(s: Seq<u8>, start: int, i: int) -> Seq<Seq<u8>>
    recommends
        0 <= start <= i <= s.len(),
    decreases s.len() - i,
{
    if i < 0 || i >= s.len() {
        seq![s.subrange(start, s.len() as int)]
    } else if s[i] == 44 {
        seq![s.subrange(start, i)] + split_commas_from(s, i + 1, i + 1)
    } else {
        split_commas_from(s, start, i + 1)
    }
}

pub open spec fn split_commas(s: Seq<u8>) -> Seq<Seq<u8>> {
    split_commas_from(s, 0, 0)
}

fn split_commas_exec(s: &Vec<u8>) -> (r: Vec<Vec<u8>>)
    ensures
        vec_views(r@) == split_commas(s@),
{
    let n = s.len();
    let mut comps: Vec<Vec<u8>> = Vec::new();
    let mut start: usize = 0;
    let mut i: usize = 0;
    while i < n
        invariant
            0 <= start <= i <= n,
            n == s@.len(),
            split_commas(s@) == vec_views(comps@) + split_commas_from(s@, start as int, i as int),
        decreases n - i,
    {
        if s[i] == 44 {
            let piece = copy_range(s, start, i);
            proof {
                assert(vec_views(comps@.push(piece)) =~= vec_views(comps@) + seq![piece@]);
            }
            comps.push(piece);
            start = i + 1;
            i = i + 1;
        } else {
            i = i + 1;
        }
    }
    let last = copy_range(s, start, n);
    proof {
        assert(vec_views(comps@.push(last)) =~= vec_views(comps@) + seq![last@]);
    }
    comps.push(last);
    proof {
        assert(vec_views(comps@) =~= split_commas(s@));
    }
    comps
}

pub open spec fn is_digit(b: u8) -> bool {
    48 <= b && b <= 57
}

pub open spec fn all_digits(s: Seq<u8>) -> bool {
    forall|i: int| 0 <= i < s.len() ==> is_digit(#[trigger] s[i])
}

/// The numeric value of a digit string.
pub open spec fn digits_val(s: Seq<u8>) -> int
    decreases s.len(),
{
    if s.len() == 0 {
        0
    } else {
        digits_val(s.drop_last()) * 10 + (s.last() - 48)
    }
}

proof fn lemma_digits_val_nonneg(s: Seq<u8>)
    requires
        all_digits(s),
    ensures
        digits_val(s) >= 0,
    decreases s.len(),
{
    if s.len() > 0 {
        assert(all_digits(s.drop_last())) by {
            assert(forall|i: int|
                0 <= i < s.len() - 1 ==> s.drop_last()[i] == #[trigger] s[i] && is_digit(s[i]));
        }
        lemma_digits_val_nonneg(s.drop_last());
    }
}

/// A digit string is worth at least any of its prefixes.
proof fn lemma_digits_val_prefix(s: Seq<u8>, k: int)
    requires
        all_digits(s),
        0 <= k <= s.len(),
    ensures
        digits_val(s) >= digits_val(s.subrange(0, k)),
    decreases s.len(),
{
    if k == s.len() {
        assert(s.subrange(0, k) =~= s);
    } else {
        assert(all_digits(s.drop_last())) by {
            assert(forall|i: int|
                0 <= i < s.len() - 1 ==> s.drop_last()[i] == #[trigger] s[i] && is_digit(s[i]));
        }
        lemma_digits_val_prefix(s.drop_last(), k);
        lemma_digits_val_nonneg(s.drop_last());
        assert(s.drop_last().subrange(0, k) =~= s.subrange(0, k));
        assert(is_digit(s.last()));
    }
}

/// What `"123"` reads as: an optional leading `+`, then one or more
/// digits, the whole worth at most 255; anything else fails.
pub open spec fn parse_u8_spec(s: Seq<u8>) -> Option<u8> {
    let d = if s.len() > 0 && s[0] == 43 {
        s.drop_first()
    } else {
        s
    };
    if d.len() > 0 && all_digits(d) && digits_val(d) <= 255 {
        Option::Some(digits_val(d) as u8)
    } else {
        Option::None
    }
}

pub fn parse_u8(s: &Vec<u8>) -> (r: Option<u8>)
    ensures
        r == parse_u8_spec(s@),
{
    let n = s.len();
    let mut j: usize = 0;
    if n > 0 && s[0] == 43 {
        j = 1;
    }
    let ghost d = s@.subrange(j as int, n as int);
    proof {
        if j == 1 {
            assert(d =~= s@.drop_first());
        } else {
            assert(d =~= s@);
        }
    }
    if j == n {
        return Option::None;
    }
    let mut acc: u32 = 0;
    let mut k: usize = j;
    while k < n
        invariant
            j <= k <= n,
            n == s@.len(),
            j < n,
            acc <= 255,
            if s@.len() > 0 && s@[0] == 43 {
                j == 1
            } else {
                j == 0
            },
            d == s@.subrange(j as int, n as int),
            acc == digits_val(s@.subrange(j as int, k as int)),
            all_digits(s@.subrange(j as int, k as int)),
        decreases n - k,
    {
        let b = s[k];
        if b < 48 || b > 57 {
            proof {
                assert(d[k - j] == s@[k as int]);
                assert(!is_digit(d[k - j]));
                assert(!all_digits(d));
            }
            return Option::None;
        }
        proof {
            assert(s@.subrange(j as int, k + 1).drop_last() =~= s@.subrange(j as int, k as int));
            assert(s@.subrange(j as int, k + 1).last() == s@[k as int]);
            assert(forall|i: int|
                0 <= i < k + 1 - j ==> s@.subrange(j as int, k + 1)[i] == #[trigger] s@[i + j]);
        }
        acc = acc * 10 + ((b - 48) as u32);
        if acc > 255 {
            proof {
                if j == 0 {
                    assert(d =~= s@);
                } else {
                    assert(d =~= s@.drop_first());
                }
                assert(acc == digits_val(s@.subrange(j as int, k + 1)));
                if all_digits(d) {
                    assert(d.subrange(0, k + 1 - j) =~= s@.subrange(j as int, k + 1));
                    lemma_digits_val_prefix(d, k + 1 - j);
                    assert(digits_val(d) > 255);
                }
            }
            return Option::None;
        }
        k = k + 1;
    }
    proof {
        assert(s@.subrange(j as int, n as int) =~= d);
    }
    Option::Some(acc as u8)
}

/// The components of a piece that read as numbers, in order.
pub open spec fn parsed_nums(comps: Seq<Seq<u8>>) -> Seq<u8>
    decreases comps.len(),
{
    if comps.len() == 0 {
        Seq::empty()
    } else {
        parsed_nums(comps.drop_last()) + (match parse_u8_spec(comps.last()) {
            Option::Some(v) => seq![v],
            Option::None => Seq::empty(),
        })
    }
}

/// A piece with exactly three numeric components becomes a colour, the
/// components reordered from the message's red/green/blue to the strip's
/// native order with an opaque fourth channel; any other piece falls
/// back to opaque black.
pub open spec fn piece_color_spec(piece: Seq<u8>) -> Color {
    let nums = parsed_nums(split_commas(piece));
    if nums.len() == 3 {
        Color { c0: nums[2], c1: nums[1], c2: nums[0], c3: 255 }
    } else {
        Color { c0: 0, c1: 0, c2: 0, c3: 255 }
    }
}

fn piece_color(piece: &Vec<u8>) -> (r: Color)
    ensures
        r == piece_color_spec(piece@),
{
    let comps = split_commas_exec(piece);
    let m = comps.len();
    let mut nums: Vec<u8> = Vec::new();
    let mut i: usize = 0;
    while i < m
        invariant
            i <= m,
            m == comps@.len(),
            vec_views(comps@) == split_commas(piece@),
            nums@ == parsed_nums(vec_views(comps@).subrange(0, i as int)),
        decreases m - i,
    {
        let v = parse_u8(&comps[i]);
        proof {
            let vs = vec_views(comps@);
            assert(vs.subrange(0, i + 1).drop_last() =~= vs.subrange(0, i as int));
            assert(vs.subrange(0, i + 1).last() == vs[i as int]);
            assert(vs[i as int] == comps@[i as int]@);
        }
        match v {
            Option::Some(x) => { nums.push(x) },
            Option::None => {},
        }
        i = i + 1;
    }
    proof {
        assert(vec_views(comps@).subrange(0, m as int) =~= vec_views(comps@));
    }
    if nums.len() == 3 {
        Color { c0: nums[2], c1: nums[1], c2: nums[0], c3: 255 }
    } else {
        Color { c0: 0, c1: 0, c2: 0, c3: 255 }
    }
}

/// The palette parsed from the raw bytes of the `colors` field.
pub open spec fn parse_colors_spec(s: Seq<u8>) -> Seq<Color> {
    split_pieces(trim_parens(s)).map_values(|p: Seq<u8>| piece_color_spec(p))
}

/// Parsing always yields at least one entry, so a present `colors`
/// field never empties the palette.
pub proof fn lemma_parse_colors_nonempty(s: Seq<u8>)
    ensures
        parse_colors_spec(s).len() >= 1,
{
    lemma_split_from_len(trim_parens(s), 0, 0);
}

pub fn parse_colors(s: &Vec<u8>) -> (r: Vec<Color>)
    ensures
        r@ == parse_colors_spec(s@),
        r@.len() >= 1,
{
    let t = trim_parens_exec(s);
    let pieces = split_pieces_exec(&t);
    let m = pieces.len();
    let mut out: Vec<Color> = Vec::new();
    let mut i: usize = 0;
    while i < m
        invariant
            i <= m,
            m == pieces@.len(),
            vec_views(pieces@) == split_pieces(trim_parens(s@)),
            out@.len() == i,
            forall|k: int|
                0 <= k < i ==> out@[k] == piece_color_spec(vec_views(pieces@)[k]),
        decreases m - i,
    {
        let c = piece_color(&pieces[i]);
        proof {
            assert(vec_views(pieces@)[i as int] == pieces@[i as int]@);
        }
        out.push(c);
        i = i + 1;
    }
    proof {
        assert(out@ =~= parse_colors_spec(s@));
        lemma_parse_colors_nonempty(s@);
    }
    out
}

/// The low byte of the integer, as a wrapping narrowing keeps it.
pub open spec fn wrap_u8_spec(v: i64) -> u8 {
    ((v as int) % 256) as u8
}

pub fn wrap_u8(v: i64) -> (r: u8)
    ensures
        r == wrap_u8_spec(v),
{
    if v >= 0 {
        let u: u64 = v as u64;
        (u % 256) as u8
    } else {
        let u: u64 = (-(v + 1)) as u64;
        let w: u64 = u % 256;
        proof {
            let q = (u as int) / 256;
            assert((u as int) == 256 * q + (w as int)) by (nonlinear_arith)
                requires
                    q == (u as int) / 256,
                    w == (u as int) % 256,
            ;
            assert((v as int) % 256 == 255 - (w as int)) by (nonlinear_arith)
                requires
                    (v as int) == -(u as int) - 1,
                    (u as int) == 256 * q + (w as int),
                    0 <= (w as int) < 256,
            ;
        }
        (255 - w) as u8
    }
}

/// The low 64 bits of the integer, as a wrapping narrowing keeps them.
pub open spec fn wrap_u64_spec(v: i64) -> u64 {
    ((v as int) % 0x10000000000000000) as u64
}

pub fn wrap_u64(v: i64) -> (r: u64)
    ensures
        r == wrap_u64_spec(v),
{
    if v >= 0 {
        proof {
            assert((v as int) % 0x10000000000000000 == v as int) by (nonlinear_arith)
                requires
                    0 <= (v as int) < 0x10000000000000000,
            ;
        }
        v as u64
    } else {
        let u: u64 = (-(v + 1)) as u64;
        proof {
            assert((v as int) % 0x10000000000000000 == 0x10000000000000000 + (v as int))
                by (nonlinear_arith)
                requires
                    -0x10000000000000000 <= (v as int) < 0,
            ;
        }
        u64::MAX - u
    }
}

/// ASCII upper-case letters lowered; every other byte kept.
pub open spec fn lower_byte(b: u8) -> u8 {
    if 65 <= b && b <= 90 {
        (b + 32) as u8
    } else {
        b
    }
}

pub open spec fn lower_bytes(s: Seq<u8>) -> Seq<u8> {
    s.map_values(|b: u8| lower_byte(b))
}

pub fn ascii_lower(s: &Vec<u8>) -> (r: Vec<u8>)
    ensures
        r@ == lower_bytes(s@),
{
    let n = s.len();
    let mut r: Vec<u8> = Vec::new();
    let mut i: usize = 0;
    while i < n
        invariant
            i <= n,
            n == s@.len(),
            r@.len() == i,
            forall|k: int| 0 <= k < i ==> r@[k] == lower_byte(#[trigger] s@[k]),
        decreases n - i,
    {
        let b = s[i];
        if b >= 65 && b <= 90 {
            r.push(b + 32);
        } else {
            r.push(b);
        }
        i = i + 1;
    }
    proof {
        assert(r@ =~= lower_bytes(s@));
    }
    r
}

} // verus!

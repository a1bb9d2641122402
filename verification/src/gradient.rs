use vstd::prelude::*;
use crate::geom::Size;

verus! {

/// The stops of a gradient that repeats `colors`, each `length` cells long: color `i` at
/// `i * length`, and the first color again after the last one (positions as `i32`, as a fixed
/// position takes them). `None` for no colors: such a gradient is the default one.
pub open spec fn spec_repeater_stops<C>(colors: Seq<C>, length: nat) -> Option<Seq<(i32, C)>> {
    if colors.len() == 0 {
        None
    } else {
        Some(
            Seq::new(colors.len(), |i: int| ((i * length) as i32, colors[i])).push(
                ((colors.len() * length) as i32, colors[0]),
            ),
        )
    }
}

/// The stops of a gradient that repeats `colors`, each `length` cells long (see
/// `spec_repeater_stops`).
pub fn repeater_stops<C: Copy>(colors: &Vec<C>, length: usize) -> (r: Option<Vec<(i32, C)>>)
    requires
        colors@.len() * length <= usize::MAX,
    ensures
        match (r, spec_repeater_stops(colors@, length as nat)) {
            (Some(v), Some(s)) => v@ == s,
            (None, None) => true,
            _ => false,
        },
{
    if colors.len() == 0 {
        return None;
    }
    let n = colors.len();
    let mut v: Vec<(i32, C)> = Vec::new();
    let mut i: usize = 0;
    while i < n
        invariant
            n == colors@.len(),
            n * length <= usize::MAX,
            i <= n,
            v@ == Seq::new(i as nat, |k: int| ((k * length) as i32, colors@[k])),
        decreases n - i,
    {
        assert(i * length <= n * length) by (nonlinear_arith)
            requires
                i <= n,
        ;
        let p = i * length;
        v.push((p as i32, colors[i]));
        assert(v@ =~= Seq::new((i + 1) as nat, |k: int| ((k * length) as i32, colors@[k])));
        i = i + 1;
    }
    let last = n * length;
    v.push((last as i32, colors[0]));
    Some(v)
}

/// The stops of a gradient from `c1` to `c2` and back, each half `length` cells long.
pub fn two_color_repeater_stops<C: Copy>(c1: C, c2: C, length: usize) -> (r: Vec<(i32, C)>)
    requires
        i32::MIN <= 2 * (length as i32) <= i32::MAX,
    ensures
        r@ == seq![(0i32, c1), (length as i32, c2), ((2 * (length as i32)) as i32, c1)],
{
    let l = length as i32;
    vec![(0, c1), (l, c2), (2 * l, c1)]
}

/// The longest duration, in nanoseconds.
pub open spec fn max_duration_nanos() -> nat {
    18446744073709551615nat * 1000000000nat + 999999999nat
}

/// `each` nanoseconds times `i` (taken as `u32`, as a duration is multiplied).
pub open spec fn times_u32(each: nat, i: int) -> nat {
    each * ((i as u32) as nat)
}

/// The stops of a time gradient that shows each of `colors` for `each` nanoseconds, and its
/// total duration: color `i` from `each * i`, then the first color again at the end, `each`
/// times the number of colors (the count and the indices taken as `u32`, as a duration is
/// multiplied). A single color is one stop at `each`; no colors is the default time gradient
/// (`None`).
pub open spec fn spec_time_loop_stops<C>(each: nat, colors: Seq<C>) -> Option<(nat, Seq<(nat, C)>)> {
    if colors.len() == 0 {
        None
    } else if colors.len() == 1 {
        Some((each, seq![(each, colors[0])]))
    } else {
        let total = times_u32(each, colors.len() as int);
        Some((total, Seq::new(colors.len(), |i: int| (times_u32(each, i), colors[i])).push((total, colors[0]))))
    }
}

/// The stops (in nanoseconds) of a time gradient that shows each of `colors` for `each`
/// nanoseconds, and its total duration (see `spec_time_loop_stops`). Times beyond the longest
/// duration are left out: multiplying the duration fails there.
pub fn time_loop_stops<C: Copy>(each: u128, colors: &Vec<C>) -> (r: Option<(u128, Vec<(u128, C)>)>)
    requires
        each <= max_duration_nanos(),
        forall|i: int| 0 <= i <= colors@.len() ==> #[trigger] times_u32(each as nat, i) <= max_duration_nanos(),
    ensures
        match (r, spec_time_loop_stops(each as nat, colors@)) {
            (Some((t, v)), Some((st, sv))) => t == st && v@.len() == sv.len() && forall|i: int|
                0 <= i < sv.len() ==> (#[trigger] v@[i]).0 == sv[i].0 && v@[i].1 == sv[i].1,
            (None, None) => true,
            _ => false,
        },
{
    let n = colors.len();
    if n == 0 {
        return None;
    }
    if n == 1 {
        return Some((each, vec![(each, colors[0])]));
    }
    assert(times_u32(each as nat, n as int) <= max_duration_nanos());
    let total = each * ((n as u32) as u128);
    let mut v: Vec<(u128, C)> = Vec::new();
    let mut i: usize = 0;
    while i < n
        invariant
            n == colors@.len(),
            i <= n,
            forall|j: int| 0 <= j <= colors@.len() ==> #[trigger] times_u32(each as nat, j) <= max_duration_nanos(),
            v@.len() == i,
            forall|k: int|
                0 <= k < i ==> (#[trigger] v@[k]).0 == times_u32(each as nat, k) && v@[k].1 == colors@[k],
        decreases n - i,
    {
        assert(times_u32(each as nat, i as int) <= max_duration_nanos());
        v.push((each * ((i as u32) as u128), colors[i]));
        i = i + 1;
    }
    v.push((total, colors[0]));
    Some((total, v))
}

/// Each rotation of `colors`: the `i`-th starts at color `i` and goes on around, as many colors
/// long.
pub open spec fn spec_rotations<C>(colors: Seq<C>) -> Seq<Seq<C>> {
    Seq::new(colors.len(), |i: int| Seq::new(colors.len(), |k: int| colors[(i + k) % (colors.len() as int)]))
}

/// Each rotation of `colors` (see `spec_rotations`), as a gradient that loops over time gives
/// each of its stops.
pub fn rotations<C: Copy>(colors: &Vec<C>) -> (r: Vec<Vec<C>>)
    ensures
        r@.len() == colors@.len(),
        forall|i: int| 0 <= i < r@.len() ==> (#[trigger] r@[i])@ == spec_rotations(colors@)[i],
{
    let n = colors.len();
    let mut out: Vec<Vec<C>> = Vec::new();
    let mut i: usize = 0;
    while i < n
        invariant
            n == colors@.len(),
            i <= n,
            out@.len() == i,
            forall|j: int| 0 <= j < i ==> (#[trigger] out@[j])@ == spec_rotations(colors@)[j],
        decreases n - i,
    {
        let mut row: Vec<C> = Vec::new();
        let mut k: usize = 0;
        let mut at: usize = i;
        proof {
            vstd::arithmetic::div_mod::lemma_fundamental_div_mod_converse(i as int, n as int, 0, i as int);
        }
        while k < n
            invariant
                n == colors@.len(),
                i < n,
                k <= n,
                at < n,
                at as int == (i + k) % (n as int),
                row@ == Seq::new(k as nat, |kk: int| colors@[(i + kk) % (n as int)]),
            decreases n - k,
        {
            row.push(colors[at]);
            assert(row@ =~= Seq::new((k + 1) as nat, |kk: int| colors@[(i + kk) % (n as int)]));
            proof {
                lemma_mod_step((i + k) as int, n as int);
            }
            at = if at + 1 == n { 0 } else { at + 1 };
            k = k + 1;
        }
        assert(row@ =~= spec_rotations(colors@)[i as int]);
        out.push(row);
        i = i + 1;
    }
    out
}

/// One step further around: `(x + 1) % n` from `x % n`.
proof fn lemma_mod_step(x: int, n: int)
    requires
        n > 0,
        x >= 0,
    ensures
        (x + 1) % n == (if x % n + 1 == n { 0 } else { x % n + 1 }),
{
    let q = x / n;
    let r = x % n;
    vstd::arithmetic::div_mod::lemma_fundamental_div_mod(x, n);
    if r + 1 == n {
        assert(x + 1 == (q + 1) * n + 0) by (nonlinear_arith)
            requires
                x == n * q + r,
                r + 1 == n,
        ;
        vstd::arithmetic::div_mod::lemma_fundamental_div_mod_converse(x + 1, n, q + 1, 0);
    } else {
        assert(x + 1 == q * n + (r + 1)) by (nonlinear_arith)
            requires
                x == n * q + r,
        ;
        vstd::arithmetic::div_mod::lemma_fundamental_div_mod_converse(x + 1, n, q, r + 1);
    }
}

/// The `k`-th color of the `i`-th rotation is the `i`-th color of the `k`-th rotation, and the
/// first rotation is `colors` itself.
pub proof fn lemma_rotations<C>(colors: Seq<C>, i: int, k: int)
    requires
        0 <= i < colors.len(),
        0 <= k < colors.len(),
    ensures
        spec_rotations(colors)[i][k] == spec_rotations(colors)[k][i],
        spec_rotations(colors)[0][k] == colors[k],
{
    assert(i + k == k + i);
    vstd::arithmetic::div_mod::lemma_small_mod(k as nat, colors.len());
}

/// A gradient angle at a right angle: along x (0 and 180 degrees, the latter backwards) or
/// along y (90 and 270 degrees, the latter backwards).
#[derive(Clone, Copy, PartialEq, Eq, Debug, Structural)]
pub enum RightAngle {
    Deg0,
    Deg90,
    Deg180,
    Deg270,
}

/// The remainder of `a` by `b` (above zero) as integer division truncating toward zero leaves
/// it: it has the sign of `a`.
pub open spec fn trunc_rem(a: int, b: int) -> int {
    if a >= 0 {
        a % b
    } else {
        -((-a) % b)
    }
}

/// The position on a right-angle gradient of the cell (`x`, `y`): the column (or row) less the
/// offset, as remainder by the width (or height) of the drawing, negated for 180 and 270
/// degrees. `None` where that width (or height) is zero.
pub open spec fn spec_right_angle_pos(angle: RightAngle, x: u16, y: u16, offset: (i32, i32), size: Size) -> Option<int> {
    match angle {
        RightAngle::Deg0 => if size.width == 0 { None } else { Some(trunc_rem(x - offset.0, size.width as int)) },
        RightAngle::Deg90 => if size.height == 0 { None } else { Some(trunc_rem(y - offset.1, size.height as int)) },
        RightAngle::Deg180 => if size.width == 0 { None } else { Some(-trunc_rem(x - offset.0, size.width as int)) },
        RightAngle::Deg270 => if size.height == 0 { None } else { Some(-trunc_rem(y - offset.1, size.height as int)) },
    }
}

/// The remainder of `a` by `b`, truncating toward zero.
fn rem_toward_zero(a: i64, b: u16) -> (r: i64)
    requires
        b > 0,
        a > i64::MIN,
    ensures
        r == trunc_rem(a as int, b as int),
        -(b as int) < r < b as int,
{
    if a >= 0 {
        ((a as u64) % (b as u64)) as i64
    } else {
        let m = (((-a) as u64) % (b as u64)) as i64;
        -m
    }
}

/// The position on a right-angle gradient of the cell (`x`, `y`) (see `spec_right_angle_pos`).
pub fn right_angle_pos(angle: RightAngle, x: u16, y: u16, offset: (i32, i32), size: Size) -> (r: Option<i32>)
    requires
        i32::MIN <= x - offset.0 <= i32::MAX,
        i32::MIN <= y - offset.1 <= i32::MAX,
    ensures
        match (r, spec_right_angle_pos(angle, x, y, offset, size)) {
            (Some(v), Some(w)) => v == w,
            (None, None) => true,
            _ => false,
        },
{
    let along_x = match angle {
        RightAngle::Deg0 | RightAngle::Deg180 => true,
        _ => false,
    };
    let (d, n) = if along_x {
        ((x as i64) - (offset.0 as i64), size.width)
    } else {
        ((y as i64) - (offset.1 as i64), size.height)
    };
    if n == 0 {
        return None;
    }
    let m = rem_toward_zero(d, n) as i32;
    match angle {
        RightAngle::Deg0 | RightAngle::Deg90 => Some(m),
        _ => Some(-m),
    }
}

/// The width of the drawing along a right-angle gradient (the height at 90 and 270 degrees).
pub open spec fn right_angle_span(angle: RightAngle, size: Size) -> int {
    match angle {
        RightAngle::Deg0 | RightAngle::Deg180 => size.width as int,
        _ => size.height as int,
    }
}

/// A gradient at a right angle is the same all along each line across it: at 0 and 180
/// degrees every cell of a column has one position, at 90 and 270 degrees every cell of a row;
/// and each position lies less than the drawing's width (or height) from zero.
pub proof fn lemma_right_angle_stable(angle: RightAngle, x1: u16, x2: u16, y1: u16, y2: u16, offset: (i32, i32), size: Size)
    ensures
        (angle == RightAngle::Deg0 || angle == RightAngle::Deg180) ==> spec_right_angle_pos(angle, x1, y1, offset, size)
            == spec_right_angle_pos(angle, x1, y2, offset, size),
        (angle == RightAngle::Deg90 || angle == RightAngle::Deg270) ==> spec_right_angle_pos(angle, x1, y1, offset, size)
            == spec_right_angle_pos(angle, x2, y1, offset, size),
        spec_right_angle_pos(angle, x1, y1, offset, size) matches Some(p) ==> -right_angle_span(angle, size) < p
            < right_angle_span(angle, size),
{
    let n = right_angle_span(angle, size);
    if n > 0 {
        let a = match angle {
            RightAngle::Deg0 | RightAngle::Deg180 => x1 - offset.0,
            _ => y1 - offset.1,
        };
        if a >= 0 {
            vstd::arithmetic::div_mod::lemma_mod_bound(a, n);
        } else {
            vstd::arithmetic::div_mod::lemma_mod_bound(-a, n);
        }
    }
}

} // verus!

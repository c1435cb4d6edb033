//! The field renderer: from a snapshot of the stars to a list of draw
//! primitives.
//!
//! The renderer reads the stars and changes nothing. What it returns is a
//! function of the snapshot and of the switches alone.
use vstd::prelude::*;
use crate::arith::{div_toward_zero, isqrt, lemma_quotient_error, lemma_steps_within};
use crate::color::Color;
use crate::controls::{Controls, DrawMode};
use crate::geometry::{lemma_dist_sqr_bound, Point};
use crate::units::{COORD_MAX, DIM_GRAY, LINE_WIDTH, MAX_SEGMENT_LEN, STAR_RADIUS, UNIT};

verus! {

/// A star as the renderer sees it: where it is, and its colour now.
#[derive(Clone, Copy, Debug, PartialEq, Eq, Structural)]
pub struct Dot {
    pub pos: Point,
    pub color: Color,
}

/// One call of the host's drawing interface.
#[derive(Clone, Copy, Debug, PartialEq, Eq, Structural)]
pub enum Primitive {
    /// A filled disc.
    Circle { center: Point, radius: i64, color: Color },
    /// A straight line of one colour.
    Line { start: Point, end: Point, width: i64, round_caps: bool, color: Color },
}

impl Dot {
    /// The position and the colour are well formed.
    pub open spec fn wf(self) -> bool {
        self.pos.wf() && self.color.wf()
    }
}

/// Every dot of the snapshot is well formed.
pub open spec fn dots_wf(dots: Seq<Dot>) -> bool {
    forall|i: int| 0 <= i < dots.len() ==> (#[trigger] dots[i]).wf()
}

/// The line that the host draws from `start` to `end`: of the fixed width,
/// with round caps.
pub open spec fn line(start: Point, end: Point, color: Color) -> Primitive {
    Primitive::Line { start, end, width: LINE_WIDTH, round_caps: true, color }
}

/// The disc that the host draws for a star in point mode.
pub open spec fn disc(dot: Dot) -> Primitive {
    Primitive::Circle { center: dot.pos, radius: STAR_RADIUS, color: dot.color }
}

/// `n` is the number of pieces of a connector whose squared length is
/// `dist_sqr`: the least number, and at least one, of pieces of the greatest
/// length that reach from end to end.
pub open spec fn is_segment_count(dist_sqr: int, n: int) -> bool {
    &&& n >= 1
    &&& (n * MAX_SEGMENT_LEN) * (n * MAX_SEGMENT_LEN) >= dist_sqr
    &&& n == 1 || ((n - 1) * MAX_SEGMENT_LEN) * ((n - 1) * MAX_SEGMENT_LEN) < dist_sqr
}

/// The number of pieces of a connector whose squared length is `dist_sqr`.
pub open spec fn segment_count(dist_sqr: int) -> int {
    choose|n: int| is_segment_count(dist_sqr, n)
}

/// Where a line starts; for a disc, its centre.
pub open spec fn segment_start(p: Primitive) -> Point {
    match p {
        Primitive::Line { start, .. } => start,
        Primitive::Circle { center, .. } => center,
    }
}

/// Where a line ends; for a disc, its centre.
pub open spec fn segment_end(p: Primitive) -> Point {
    match p {
        Primitive::Line { end, .. } => end,
        Primitive::Circle { center, .. } => center,
    }
}

/// Every connector has a number of pieces.
pub proof fn lemma_segment_count_exists(dist_sqr: int)
    requires
        0 <= dist_sqr,
    ensures
        is_segment_count(dist_sqr, segment_count(dist_sqr)),
{
    lemma_segment_count_from(dist_sqr, 1);
}

/// Counting up from a number of pieces that is one, or too small by one or
/// more, arrives at the number of pieces.
proof fn lemma_segment_count_from(dist_sqr: int, n: int)
    requires
        n >= 1,
        n == 1 || ((n - 1) * MAX_SEGMENT_LEN) * ((n - 1) * MAX_SEGMENT_LEN) < dist_sqr,
    ensures
        exists|m: int| is_segment_count(dist_sqr, m),
    decreases dist_sqr - n,
{
    if (n * MAX_SEGMENT_LEN) * (n * MAX_SEGMENT_LEN) < dist_sqr {
        assert(n < dist_sqr) by (nonlinear_arith)
            requires
                (n * MAX_SEGMENT_LEN) * (n * MAX_SEGMENT_LEN) < dist_sqr,
                n >= 1,
                MAX_SEGMENT_LEN == 5_000_000,
        ;
        lemma_segment_count_from(dist_sqr, n + 1);
    } else {
        assert(is_segment_count(dist_sqr, n));
    }
}

/// A connector has one number of pieces only.
pub proof fn lemma_segment_count_unique(dist_sqr: int, n1: int, n2: int)
    requires
        is_segment_count(dist_sqr, n1),
        is_segment_count(dist_sqr, n2),
    ensures
        n1 == n2,
{
    let len = MAX_SEGMENT_LEN as int;
    if n1 < n2 {
        assert((n1 * len) * (n1 * len) <= ((n2 - 1) * len) * ((n2 - 1) * len))
            by (nonlinear_arith)
            requires
                1 <= n1 <= n2 - 1,
                len > 0,
        ;
    } else if n2 < n1 {
        assert((n2 * len) * (n2 * len) <= ((n1 - 1) * len) * ((n1 - 1) * len))
            by (nonlinear_arith)
            requires
                1 <= n2 <= n1 - 1,
                len > 0,
        ;
    }
}

/// Between two points in range a connector has fewer than a million million
/// pieces.
pub proof fn lemma_segment_count_bound(dist_sqr: int, n: int)
    requires
        is_segment_count(dist_sqr, n),
        dist_sqr <= 8 * (COORD_MAX * COORD_MAX),
    ensures
        1 <= n < 1_000_000_000_000,
{
    if n > 1 {
        let reach = (n - 1) * MAX_SEGMENT_LEN;
        assert(reach < 3 * COORD_MAX) by (nonlinear_arith)
            requires
                reach * reach < 8 * (COORD_MAX * COORD_MAX),
                COORD_MAX > 0,
        ;
    }
}

/// Where the connector from `a` to `b` in `n` pieces stands after `k`
/// pieces. Each piece is as long as the whole divided by `n`, rounded toward
/// zero along each axis.
pub open spec fn interp_point(a: Point, b: Point, n: int, k: int) -> Point {
    Point {
        x: (a.x + k * div_toward_zero(b.x - a.x, n)) as i64,
        y: (a.y + k * div_toward_zero(b.y - a.y, n)) as i64,
    }
}

/// The colour of piece `k` of `n` on the way from colour `a` to colour `b`:
/// `a` moved `k` times by the `n`th part of the difference, each channel
/// rounded toward zero. It is opaque.
pub open spec fn interp_color(a: Color, b: Color, n: int, k: int) -> Color {
    Color {
        r: (a.r + k * div_toward_zero(b.r - a.r, n)) as i64,
        g: (a.g + k * div_toward_zero(b.g - a.g, n)) as i64,
        b: (a.b + k * div_toward_zero(b.b - a.b, n)) as i64,
        a: UNIT,
    }
}

/// Piece `k` of the `n` pieces of the connector from `a` to `b`: a line of
/// one colour from where the connector stands after `k` pieces to where it
/// stands after one more.
pub open spec fn interp_segment(a: Dot, b: Dot, n: int, k: int) -> Primitive {
    line(
        interp_point(a.pos, b.pos, n, k),
        interp_point(a.pos, b.pos, n, k + 1),
        interp_color(a.color, b.color, n, k),
    )
}

/// The connector from `a` to `b` in pieces, from `a` on.
pub open spec fn interp_line(a: Dot, b: Dot) -> Seq<Primitive> {
    let n = segment_count(a.pos.dist_sqr(b.pos));
    Seq::new(n as nat, |k: int| interp_segment(a, b, n, k))
}

/// Seen from dot `ix`, dot `j` comes before dot `k`: it is nearer, or as
/// near and earlier in the snapshot.
pub open spec fn comes_before(dots: Seq<Dot>, ix: int, j: int, k: int) -> bool {
    let dj = dots[ix].pos.dist_sqr(dots[j].pos);
    let dk = dots[ix].pos.dist_sqr(dots[k].pos);
    dj < dk || (dj == dk && j <= k)
}

/// Dot `j` is the nearest to dot `ix` among the dots after `ix`; of several
/// that are as near, it is the first.
pub open spec fn is_nearest(dots: Seq<Dot>, ix: int, j: int) -> bool {
    &&& 0 <= ix < j < dots.len()
    &&& forall|k: int| ix < k < dots.len() ==> #[trigger] comes_before(dots, ix, j, k)
}

/// Dot `j` is the nearest to dot `ix` among the dots after `ix` but for dot
/// `first`; of several that are as near, it is the first.
pub open spec fn is_second_nearest(dots: Seq<Dot>, ix: int, first: int, j: int) -> bool {
    &&& 0 <= ix < j < dots.len()
    &&& j != first
    &&& forall|k: int|
        ix < k < dots.len() && k != first ==> #[trigger] comes_before(dots, ix, j, k)
}

/// The place of the nearest dot after dot `ix`, if any dot follows it.
pub open spec fn nearest(dots: Seq<Dot>, ix: int) -> Option<int> {
    if 0 <= ix && ix + 1 < dots.len() {
        Some(choose|j: int| is_nearest(dots, ix, j))
    } else {
        None
    }
}

/// The place of the second nearest dot after dot `ix`, if two dots or more
/// follow it.
pub open spec fn second_nearest(dots: Seq<Dot>, ix: int) -> Option<int> {
    if 0 <= ix && ix + 2 < dots.len() {
        Some(choose|j: int| is_second_nearest(dots, ix, nearest(dots, ix).unwrap(), j))
    } else {
        None
    }
}

/// The nearest dot is determined.
pub proof fn lemma_nearest_unique(dots: Seq<Dot>, ix: int, j1: int, j2: int)
    requires
        is_nearest(dots, ix, j1),
        is_nearest(dots, ix, j2),
    ensures
        j1 == j2,
        nearest(dots, ix) == Some(j1),
{
    assert(comes_before(dots, ix, j1, j2));
    assert(comes_before(dots, ix, j2, j1));
    let j = choose|j: int| is_nearest(dots, ix, j);
    assert(is_nearest(dots, ix, j));
    assert(comes_before(dots, ix, j1, j));
    assert(comes_before(dots, ix, j, j1));
}

/// The second nearest dot is determined.
pub proof fn lemma_second_nearest_unique(dots: Seq<Dot>, ix: int, first: int, j1: int, j2: int)
    requires
        is_nearest(dots, ix, first),
        is_second_nearest(dots, ix, first, j1),
        is_second_nearest(dots, ix, first, j2),
    ensures
        j1 == j2,
        second_nearest(dots, ix) == Some(j1),
{
    assert(comes_before(dots, ix, j1, j2));
    assert(comes_before(dots, ix, j2, j1));
    lemma_nearest_unique(dots, ix, first, first);
    let j = choose|j: int| is_second_nearest(dots, ix, first, j);
    assert(is_second_nearest(dots, ix, first, j));
    assert(comes_before(dots, ix, j1, j));
    assert(comes_before(dots, ix, j, j1));
}

/// What is drawn for dot `ix` in line mode: a gray line to the second
/// nearest of the dots after it, if that connector is switched on and there
/// is such a dot, and then the coloured connector to the nearest, if that
/// one is switched on and a dot follows.
pub open spec fn nearest_line(dots: Seq<Dot>, ix: int, controls: Controls) -> Seq<Primitive> {
    let gray = match second_nearest(dots, ix) {
        Some(j) if controls.secondary_nearest => seq![
            line(
                dots[ix].pos,
                dots[j].pos,
                Color { r: DIM_GRAY, g: DIM_GRAY, b: DIM_GRAY, a: UNIT },
            ),
        ],
        _ => Seq::<Primitive>::empty(),
    };
    let coloured = match nearest(dots, ix) {
        Some(j) if controls.primary_nearest => interp_line(dots[ix], dots[j]),
        _ => Seq::<Primitive>::empty(),
    };
    gray + coloured
}

/// What is drawn in line mode for the first `upto` dots, in their order.
pub open spec fn field_lines(dots: Seq<Dot>, controls: Controls, upto: int) -> Seq<Primitive>
    decreases upto,
{
    if upto <= 0 {
        Seq::<Primitive>::empty()
    } else {
        field_lines(dots, controls, upto - 1) + nearest_line(dots, upto - 1, controls)
    }
}

/// What is drawn for a snapshot: in point mode one disc for each dot, in
/// line mode the connectors of each dot, both in the order of the snapshot.
pub open spec fn field(dots: Seq<Dot>, controls: Controls) -> Seq<Primitive> {
    match controls.draw_mode {
        DrawMode::Points => Seq::new(dots.len(), |i: int| disc(dots[i])),
        DrawMode::Lines => field_lines(dots, controls, dots.len() as int),
    }
}

/// The number of pieces into which a connector of the given squared length
/// is divided.
pub fn segments(dist_sqr: u128) -> (n: u64)
    ensures
        is_segment_count(dist_sqr as int, n as int),
        n == segment_count(dist_sqr as int),
{
    let floor: u64 = isqrt(dist_sqr);
    let root: u128 = if (floor as u128) * (floor as u128) == dist_sqr {
        floor as u128
    } else {
        floor as u128 + 1
    };
    let len: u128 = MAX_SEGMENT_LEN as u128;
    let pieces: u128 = (root + (len - 1)) / len;
    let n: u128 = if pieces == 0 {
        1
    } else {
        pieces
    };
    proof {
        let r = root as int;
        let d = dist_sqr as int;
        let l = len as int;
        let m = n as int;
        assert(r * r >= d) by (nonlinear_arith)
            requires
                r == floor || r == floor + 1,
                r == floor ==> floor * floor == d,
                d < (floor + 1) * (floor + 1),
        ;
        assert(m * l >= r && (m > 1 ==> (m - 1) * l <= r - 1));
        assert((m * l) * (m * l) >= r * r) by (nonlinear_arith)
            requires
                m * l >= r,
                r >= 0,
        ;
        if m > 1 {
            assert(r >= 1);
            assert((r - 1) * (r - 1) < d) by (nonlinear_arith)
                requires
                    r == floor || r == floor + 1,
                    r == floor ==> floor * floor == d,
                    r == floor + 1 ==> floor * floor < d,
                    floor * floor <= d,
                    r >= 1,
                    floor >= 0,
            ;
            assert(((m - 1) * l) * ((m - 1) * l) <= (r - 1) * (r - 1)) by (nonlinear_arith)
                requires
                    0 <= (m - 1) * l <= r - 1,
            ;
        }
        assert(is_segment_count(d, m));
        let c = segment_count(d);
        assert(is_segment_count(d, c));
        lemma_segment_count_unique(d, m, c);
    }
    n as u64
}

/// The line from `start` to `end` in the given colour, as the host is to
/// draw it.
pub fn draw_line(start: Point, end: Point, color: Color) -> (p: Primitive)
    ensures
        p == line(start, end, color),
{
    Primitive::Line { start, end, width: LINE_WIDTH, round_caps: true, color }
}

/// The connector stays between its two ends: after `k` of `n` pieces it
/// stands at a well-formed point, `k` steps from `a`.
pub proof fn lemma_interp_point(a: Point, b: Point, n: int, k: int)
    requires
        a.wf(),
        b.wf(),
        n >= 1,
        0 <= k <= n,
    ensures
        interp_point(a, b, n, k).wf(),
        interp_point(a, b, n, k).x == a.x + k * div_toward_zero(b.x - a.x, n),
        interp_point(a, b, n, k).y == a.y + k * div_toward_zero(b.y - a.y, n),
{
    lemma_steps_within(b.x - a.x, n, k);
    lemma_steps_within(b.y - a.y, n, k);
}

/// The colour of a piece is between the colours of the two ends: it is well
/// formed, `k` steps from `a`.
pub proof fn lemma_interp_color(a: Color, b: Color, n: int, k: int)
    requires
        a.wf(),
        b.wf(),
        n >= 1,
        0 <= k <= n,
    ensures
        interp_color(a, b, n, k).wf(),
        interp_color(a, b, n, k).r == a.r + k * div_toward_zero(b.r - a.r, n),
        interp_color(a, b, n, k).g == a.g + k * div_toward_zero(b.g - a.g, n),
        interp_color(a, b, n, k).b == a.b + k * div_toward_zero(b.b - a.b, n),
{
    lemma_steps_within(b.r - a.r, n, k);
    lemma_steps_within(b.g - a.g, n, k);
    lemma_steps_within(b.b - a.b, n, k);
}

/// The pieces of a connector form a chain. The first starts at `a` in the
/// colour of `a`, each piece starts where the one before it ends, and the
/// last ends short of `b` by less than one length unit for each piece,
/// along each axis.
pub proof fn lemma_interp_line_chain(a: Dot, b: Dot)
    requires
        a.wf(),
        b.wf(),
    ensures
        interp_line(a, b).len() == segment_count(a.pos.dist_sqr(b.pos)) >= 1,
        interp_line(a, b)[0] == line(
            a.pos,
            segment_end(interp_line(a, b)[0]),
            a.color.opaque(),
        ),
        forall|k: int|
            0 <= k < interp_line(a, b).len() - 1 ==> segment_end(#[trigger] interp_line(a, b)[k])
                == segment_start(interp_line(a, b)[k + 1]),
        ({
            let n = interp_line(a, b).len() as int;
            let end = segment_end(interp_line(a, b)[n - 1]);
            &&& -n < b.pos.x - end.x < n
            &&& -n < b.pos.y - end.y < n
        }),
{
    let d = a.pos.dist_sqr(b.pos);
    lemma_dist_sqr_bound(a.pos, b.pos, COORD_MAX as int);
    lemma_segment_count_exists(d);
    let n = segment_count(d);
    lemma_interp_point(a.pos, b.pos, n, 0);
    lemma_interp_color(a.color, b.color, n, 0);
    lemma_interp_point(a.pos, b.pos, n, n);
    lemma_quotient_error(b.pos.x - a.pos.x, n);
    lemma_quotient_error(b.pos.y - a.pos.y, n);
}

/// Appends to the draw list the connector from `star` to `nearest`, in
/// pieces of the greatest length at most: each piece has one colour, and
/// from piece to piece the colour steps from that of `star` toward that of
/// `nearest`.
pub fn draw_interp_line(out: &mut Vec<Primitive>, star: &Dot, nearest: &Dot)
    requires
        star.wf(),
        nearest.wf(),
    ensures
        final(out)@ == old(out)@ + interp_line(*star, *nearest),
{
    proof {
        lemma_dist_sqr_bound(star.pos, nearest.pos, COORD_MAX as int);
    }
    let n: u64 = segments(star.pos.distance_sqr_to(&nearest.pos));
    proof {
        lemma_segment_count_bound(star.pos.dist_sqr(nearest.pos), n as int);
    }
    let count: i64 = n as i64;
    let px: i64 = (nearest.pos.x - star.pos.x) / count;
    let py: i64 = (nearest.pos.y - star.pos.y) / count;
    let cr: i64 = (nearest.color.r - star.color.r) / count;
    let cg: i64 = (nearest.color.g - star.color.g) / count;
    let cb: i64 = (nearest.color.b - star.color.b) / count;
    let mut pos: Point = star.pos;
    let mut color: Color = Color { r: star.color.r, g: star.color.g, b: star.color.b, a: UNIT };
    let mut k: u64 = 0;
    let ghost before = out@;
    assert(out@ =~= before + interp_line(*star, *nearest).take(0));
    while k < n
        invariant
            star.wf(),
            nearest.wf(),
            0 <= k <= n,
            n >= 1,
            count == n,
            n == segment_count(star.pos.dist_sqr(nearest.pos)),
            px == div_toward_zero(nearest.pos.x - star.pos.x, n as int),
            py == div_toward_zero(nearest.pos.y - star.pos.y, n as int),
            cr == div_toward_zero(nearest.color.r - star.color.r, n as int),
            cg == div_toward_zero(nearest.color.g - star.color.g, n as int),
            cb == div_toward_zero(nearest.color.b - star.color.b, n as int),
            pos.x == star.pos.x + k * px,
            pos.y == star.pos.y + k * py,
            color.r == star.color.r + k * cr,
            color.g == star.color.g + k * cg,
            color.b == star.color.b + k * cb,
            color.a == UNIT,
            out@ == before + interp_line(*star, *nearest).take(k as int),
        decreases n - k,
    {
        proof {
            lemma_interp_point(star.pos, nearest.pos, n as int, k as int);
            lemma_interp_point(star.pos, nearest.pos, n as int, k as int + 1);
            lemma_interp_color(star.color, nearest.color, n as int, k as int);
            lemma_interp_color(star.color, nearest.color, n as int, k as int + 1);
            assert((k + 1) * px == k * px + px) by (nonlinear_arith);
            assert((k + 1) * py == k * py + py) by (nonlinear_arith);
            assert((k + 1) * cr == k * cr + cr) by (nonlinear_arith);
            assert((k + 1) * cg == k * cg + cg) by (nonlinear_arith);
            assert((k + 1) * cb == k * cb + cb) by (nonlinear_arith);
        }
        let next: Point = Point { x: pos.x + px, y: pos.y + py };
        out.push(draw_line(pos, next, color));
        proof {
            let whole = interp_line(*star, *nearest);
            assert(whole[k as int] == interp_segment(*star, *nearest, n as int, k as int));
            assert(whole.take(k as int + 1) =~= whole.take(k as int).push(whole[k as int]));
            assert(out@ =~= before + whole.take(k as int + 1));
        }
        pos = next;
        color = Color { r: color.r + cr, g: color.g + cg, b: color.b + cb, a: UNIT };
        k = k + 1;
    }
    assert(interp_line(*star, *nearest).take(n as int) =~= interp_line(*star, *nearest));
}

/// Finds, among the dots after dot `ix`, the nearest and the second nearest
/// to it. Distances are compared by their squares; of several dots that are
/// as near, the first in the snapshot wins.
pub fn nearest_two(dots: &Vec<Dot>, ix: usize) -> (found: (Option<usize>, Option<usize>))
    requires
        dots_wf(dots@),
    ensures
        match found.0 {
            Some(j) => is_nearest(dots@, ix as int, j as int) && nearest(dots@, ix as int)
                == Some(j as int),
            None => ix + 1 >= dots.len() && nearest(dots@, ix as int).is_none(),
        },
        match found.1 {
            Some(j) => found.0.is_some() && is_second_nearest(
                dots@,
                ix as int,
                found.0.unwrap() as int,
                j as int,
            ) && second_nearest(dots@, ix as int) == Some(j as int),
            None => ix + 2 >= dots.len() && second_nearest(dots@, ix as int).is_none(),
        },
{
    let n: usize = dots.len();
    if ix >= n || n - ix < 2 {
        return (None, None);
    }
    let from: Point = dots[ix].pos;
    let mut first: usize = ix + 1;
    proof {
        lemma_dist_sqr_bound(from, dots@[first as int].pos, COORD_MAX as int);
    }
    let mut first_dist: u128 = from.distance_sqr_to(&dots[first].pos);
    let mut second: Option<usize> = None;
    let mut second_dist: u128 = 0;
    let mut k: usize = ix + 2;
    assert(comes_before(dots@, ix as int, first as int, first as int));
    while k < n
        invariant
            dots_wf(dots@),
            n == dots.len(),
            ix + 2 <= k <= n,
            from == dots@[ix as int].pos,
            ix < first < k,
            first_dist == from.dist_sqr(dots@[first as int].pos),
            forall|m: int| ix < m < k ==> #[trigger] comes_before(dots@, ix as int, first as int, m),
            second.is_none() <==> k == ix + 2,
            match second {
                Some(s) => {
                    &&& ix < s < k
                    &&& s != first
                    &&& second_dist == from.dist_sqr(dots@[s as int].pos)
                    &&& forall|m: int|
                        ix < m < k && m != first ==> #[trigger] comes_before(
                            dots@,
                            ix as int,
                            s as int,
                            m,
                        )
                },
                None => true,
            },
        decreases n - k,
    {
        proof {
            lemma_dist_sqr_bound(from, dots@[k as int].pos, COORD_MAX as int);
        }
        let dist: u128 = from.distance_sqr_to(&dots[k].pos);
        assert(comes_before(dots@, ix as int, k as int, k as int));
        if dist < first_dist {
            assert forall|m: int| ix < m < k + 1 implies #[trigger] comes_before(
                dots@,
                ix as int,
                k as int,
                m,
            ) by {
                if m < k {
                    assert(comes_before(dots@, ix as int, first as int, m));
                }
            }
            second = Some(first);
            second_dist = first_dist;
            first = k;
            first_dist = dist;
        } else {
            assert(comes_before(dots@, ix as int, first as int, k as int));
            let closer: bool = match second {
                Some(_) => dist < second_dist,
                None => true,
            };
            if closer {
                assert forall|m: int| ix < m < k + 1 && m != first implies #[trigger] comes_before(
                    dots@,
                    ix as int,
                    k as int,
                    m,
                ) by {
                    if m < k {
                        match second {
                            Some(s) => {
                                assert(comes_before(dots@, ix as int, s as int, m));
                            },
                            None => {},
                        }
                    }
                }
                second = Some(k);
                second_dist = dist;
            } else {
                assert(comes_before(dots@, ix as int, second.unwrap() as int, k as int));
            }
        }
        k = k + 1;
    }
    proof {
        lemma_nearest_unique(dots@, ix as int, first as int, first as int);
        match second {
            Some(s) => {
                lemma_second_nearest_unique(dots@, ix as int, first as int, s as int, s as int);
            },
            None => {},
        }
    }
    (Some(first), second)
}

/// Appends to the draw list what is drawn for dot `ix` in line mode: the
/// gray line to the second nearest of the dots after it, then the coloured
/// connector to the nearest, each if it is switched on and there is such a
/// dot.
pub fn draw_nearest_line(out: &mut Vec<Primitive>, dots: &Vec<Dot>, ix: usize, controls: &Controls)
    requires
        dots_wf(dots@),
        ix < dots.len(),
    ensures
        final(out)@ == old(out)@ + nearest_line(dots@, ix as int, *controls),
{
    let ghost before = out@;
    let found: (Option<usize>, Option<usize>) = nearest_two(dots, ix);
    let star: Dot = dots[ix];
    match found.1 {
        Some(j) => {
            if controls.secondary_nearest {
                out.push(draw_line(star.pos, dots[j].pos, Color::dim_gray()));
            }
        },
        None => {},
    }
    let ghost gray = out@;
    match found.0 {
        Some(j) => {
            if controls.primary_nearest {
                draw_interp_line(out, &star, &dots[j]);
            }
        },
        None => {},
    }
    assert(out@ =~= before + nearest_line(dots@, ix as int, *controls));
}

/// Draws the field of stars: the list of what the host is to draw for the
/// snapshot, in the order in which it is to draw it.
///
/// In point mode that is one disc for each dot. In line mode it is, for each
/// dot, the connectors to the nearest and second nearest of the dots after
/// it, as far as they are switched on. The list is a function of the
/// snapshot and the switches alone: drawing the same snapshot again gives
/// the same list.
pub fn draw_field(dots: &Vec<Dot>, controls: &Controls) -> (out: Vec<Primitive>)
    requires
        dots_wf(dots@),
    ensures
        out@ == field(dots@, *controls),
        controls.draw_mode == DrawMode::Points ==> out.len() == dots.len(),
        controls.draw_mode == DrawMode::Lines && dots.len() <= 1 ==> out.len() == 0,
{
    let mut out: Vec<Primitive> = Vec::new();
    let n: usize = dots.len();
    let mut ix: usize = 0;
    match controls.draw_mode {
        DrawMode::Points => {
            while ix < n
                invariant
                    n == dots.len(),
                    ix <= n,
                    out@.len() == ix,
                    forall|i: int| 0 <= i < ix ==> out@[i] == disc(dots@[i]),
                decreases n - ix,
            {
                let dot: Dot = dots[ix];
                out.push(Primitive::Circle { center: dot.pos, radius: STAR_RADIUS, color: dot.color });
                ix = ix + 1;
            }
            assert(out@ =~= field(dots@, *controls));
        },
        DrawMode::Lines => {
            while ix < n
                invariant
                    dots_wf(dots@),
                    n == dots.len(),
                    ix <= n,
                    out@ == field_lines(dots@, *controls, ix as int),
                decreases n - ix,
            {
                draw_nearest_line(&mut out, dots, ix, controls);
                ix = ix + 1;
            }
            proof {
                lemma_few_dots_no_lines(dots@, *controls);
            }
        },
    }
    out
}

/// With no dot or one dot only, line mode draws nothing.
pub proof fn lemma_few_dots_no_lines(dots: Seq<Dot>, controls: Controls)
    ensures
        dots.len() <= 1 ==> field_lines(dots, controls, dots.len() as int).len() == 0,
        dots.len() <= 1 && controls.draw_mode == DrawMode::Lines ==> field(dots, controls)
            == Seq::<Primitive>::empty(),
{
    if dots.len() == 1 {
        assert(field_lines(dots, controls, 0).len() == 0);
        assert(nearest(dots, 0).is_none());
        assert(second_nearest(dots, 0).is_none());
        assert(nearest_line(dots, 0, controls) =~= Seq::<Primitive>::empty());
        assert(field_lines(dots, controls, 1) =~= Seq::<Primitive>::empty());
    }
}

/// The last dot of a snapshot has no connector: no dot follows it.
pub proof fn lemma_last_dot_no_line(dots: Seq<Dot>, controls: Controls)
    requires
        dots.len() >= 1,
    ensures
        nearest_line(dots, dots.len() - 1, controls) == Seq::<Primitive>::empty(),
        field_lines(dots, controls, dots.len() as int) == field_lines(
            dots,
            controls,
            dots.len() - 1,
        ),
{
    let last = dots.len() - 1;
    assert(nearest(dots, last).is_none());
    assert(second_nearest(dots, last).is_none());
    assert(nearest_line(dots, last, controls) =~= Seq::<Primitive>::empty());
    assert(field_lines(dots, controls, dots.len() as int) =~= field_lines(dots, controls, last));
}

/// Rendering is repeatable: two snapshots with the same dots, drawn with the
/// same switches, give the same list of primitives.
pub proof fn lemma_draw_field_repeatable(first: Vec<Dot>, second: Vec<Dot>, controls: Controls)
    requires
        first@ == second@,
    ensures
        field(first@, controls) == field(second@, controls),
{
}

} // verus!

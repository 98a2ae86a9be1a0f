//! The shapes that a pixel's outline takes, and that it never crosses itself.
use crate::analyze::{corner, light_outline, pixel_outline, square, Nearby, PixelKind};
use vstd::prelude::*;

verus! {

/// A dark pixel's outline is its full square, whatever its neighbours.
pub proof fn lemma_dark_pixel_is_square(nb: Nearby, left: int, top: int, pitch: int, clearance: int)
    ensures
        pixel_outline(PixelKind::Dark, nb, left, top, pitch, clearance) == square(
            left,
            top,
            left + pitch,
            top + pitch,
        ),
{
}

/// A light pixel with no dark pixel among its eight neighbours keeps its full
/// square.
pub proof fn lemma_light_pixel_without_dark_neighbours(
    nb: Nearby,
    left: int,
    top: int,
    pitch: int,
    clearance: int,
)
    requires
        nb.top != PixelKind::Dark,
        nb.bot != PixelKind::Dark,
        nb.left != PixelKind::Dark,
        nb.right != PixelKind::Dark,
        nb.top_left != PixelKind::Dark,
        nb.top_right != PixelKind::Dark,
        nb.bot_left != PixelKind::Dark,
        nb.bot_right != PixelKind::Dark,
    ensures
        pixel_outline(PixelKind::Light, nb, left, top, pitch, clearance) == square(
            left,
            top,
            left + pitch,
            top + pitch,
        ),
{
    assert(pixel_outline(PixelKind::Light, nb, left, top, pitch, clearance) =~= square(
        left,
        top,
        left + pitch,
        top + pitch,
    ));
}

/// A light pixel whose only dark edge neighbour lies on one side, and whose
/// two corners away from that side touch no dark pixel across the diagonal,
/// has the two corners on that side moved inward by the clearance along that
/// side's axis; the other two corners stay where they were.
pub proof fn lemma_light_pixel_one_dark_side(
    nb: Nearby,
    left: int,
    top: int,
    pitch: int,
    clearance: int,
)
    ensures
        ({
            let (l, t, r, b, c) = (left, top, left + pitch, top + pitch, clearance);
            let outline = pixel_outline(PixelKind::Light, nb, left, top, pitch, clearance);
            &&& nb.left == PixelKind::Dark && nb.top != PixelKind::Dark && nb.right
                != PixelKind::Dark && nb.bot != PixelKind::Dark && nb.top_right != PixelKind::Dark
                && nb.bot_right != PixelKind::Dark ==> outline == seq![
                (l + c, t),
                (r, t),
                (r, b),
                (l + c, b),
            ]
            &&& nb.right == PixelKind::Dark && nb.top != PixelKind::Dark && nb.left
                != PixelKind::Dark && nb.bot != PixelKind::Dark && nb.top_left != PixelKind::Dark
                && nb.bot_left != PixelKind::Dark ==> outline == seq![
                (l, t),
                (r - c, t),
                (r - c, b),
                (l, b),
            ]
            &&& nb.top == PixelKind::Dark && nb.left != PixelKind::Dark && nb.right
                != PixelKind::Dark && nb.bot != PixelKind::Dark && nb.bot_left != PixelKind::Dark
                && nb.bot_right != PixelKind::Dark ==> outline == seq![
                (l, t + c),
                (r, t + c),
                (r, b),
                (l, b),
            ]
            &&& nb.bot == PixelKind::Dark && nb.left != PixelKind::Dark && nb.right
                != PixelKind::Dark && nb.top != PixelKind::Dark && nb.top_left != PixelKind::Dark
                && nb.top_right != PixelKind::Dark ==> outline == seq![
                (l, t),
                (r, t),
                (r, b - c),
                (l, b - c),
            ]
        }),
{
    let outline = pixel_outline(PixelKind::Light, nb, left, top, pitch, clearance);
    let (l, t, r, b, c) = (left, top, left + pitch, top + pitch, clearance);
    assert(nb.left == PixelKind::Dark && nb.top != PixelKind::Dark && nb.right != PixelKind::Dark
        && nb.bot != PixelKind::Dark && nb.top_right != PixelKind::Dark && nb.bot_right
        != PixelKind::Dark ==> outline =~= seq![(l + c, t), (r, t), (r, b), (l + c, b)]);
    assert(nb.right == PixelKind::Dark && nb.top != PixelKind::Dark && nb.left != PixelKind::Dark
        && nb.bot != PixelKind::Dark && nb.top_left != PixelKind::Dark && nb.bot_left
        != PixelKind::Dark ==> outline =~= seq![(l, t), (r - c, t), (r - c, b), (l, b)]);
    assert(nb.top == PixelKind::Dark && nb.left != PixelKind::Dark && nb.right != PixelKind::Dark
        && nb.bot != PixelKind::Dark && nb.bot_left != PixelKind::Dark && nb.bot_right
        != PixelKind::Dark ==> outline =~= seq![(l, t + c), (r, t + c), (r, b), (l, b)]);
    assert(nb.bot == PixelKind::Dark && nb.left != PixelKind::Dark && nb.right != PixelKind::Dark
        && nb.top != PixelKind::Dark && nb.top_left != PixelKind::Dark && nb.top_right
        != PixelKind::Dark ==> outline =~= seq![(l, t), (r, t), (r, b - c), (l, b - c)]);
}

/// A corner whose two edge neighbours are not dark but whose diagonal
/// neighbour is.
pub open spec fn notched(horiz: PixelKind, vert: PixelKind, diag: PixelKind) -> bool {
    horiz != PixelKind::Dark && vert != PixelKind::Dark && diag == PixelKind::Dark
}

/// Where exactly one corner of a light pixel touches dark only across its
/// diagonal, that corner becomes three points stepping around the diagonal
/// pixel, and the other three stay single points: six points in all.
pub proof fn lemma_light_pixel_one_notch(
    nb: Nearby,
    left: int,
    top: int,
    pitch: int,
    clearance: int,
)
    ensures
        ({
            let (l, t, r, b, c) = (left, top, left + pitch, top + pitch, clearance);
            let outline = pixel_outline(PixelKind::Light, nb, left, top, pitch, clearance);
            let tl = notched(nb.left, nb.top, nb.top_left);
            let tr = notched(nb.right, nb.top, nb.top_right);
            let br = notched(nb.right, nb.bot, nb.bot_right);
            let bl = notched(nb.left, nb.bot, nb.bot_left);
            &&& tl && !tr && !br && !bl ==> outline.len() == 6 && outline.subrange(0, 3) == seq![
                (l, t + c),
                (l + c, t + c),
                (l + c, t),
            ]
            &&& tr && !tl && !br && !bl ==> outline.len() == 6 && outline.subrange(1, 4) == seq![
                (r - c, t),
                (r - c, t + c),
                (r, t + c),
            ]
            &&& br && !tl && !tr && !bl ==> outline.len() == 6 && outline.subrange(2, 5) == seq![
                (r, b - c),
                (r - c, b - c),
                (r - c, b),
            ]
            &&& bl && !tl && !tr && !br ==> outline.len() == 6 && outline.subrange(3, 6) == seq![
                (l + c, b),
                (l + c, b - c),
                (l, b - c),
            ]
        }),
{
    let (l, t, r, b, c) = (left, top, left + pitch, top + pitch, clearance);
    let outline = pixel_outline(PixelKind::Light, nb, left, top, pitch, clearance);
    let tl = notched(nb.left, nb.top, nb.top_left);
    let tr = notched(nb.right, nb.top, nb.top_right);
    let br = notched(nb.right, nb.bot, nb.bot_right);
    let bl = notched(nb.left, nb.bot, nb.bot_left);
    assert(tl && !tr && !br && !bl ==> outline.subrange(0, 3) =~= seq![
        (l, t + c),
        (l + c, t + c),
        (l + c, t),
    ]);
    assert(tr && !tl && !br && !bl ==> outline.subrange(1, 4) =~= seq![
        (r - c, t),
        (r - c, t + c),
        (r, t + c),
    ]);
    assert(br && !tl && !tr && !bl ==> outline.subrange(2, 5) =~= seq![
        (r, b - c),
        (r - c, b - c),
        (r - c, b),
    ]);
    assert(bl && !tl && !tr && !br ==> outline.subrange(3, 6) =~= seq![
        (l + c, b),
        (l + c, b - c),
        (l, b - c),
    ]);
}

/// The index after `i` around a closed outline of `n` points.
pub open spec fn next_index(n: int, i: int) -> int {
    if i + 1 == n {
        0
    } else {
        i + 1
    }
}

/// Both `a` and `b` lie strictly on one side of `m`.
pub open spec fn same_side(a: int, b: int, m: int) -> bool {
    (a < m && b < m) || (m < a && m < b)
}

/// The spans from `a1` to `a2` and from `b1` to `b2` share a value.
pub open spec fn spans_overlap(a1: int, a2: int, b1: int, b2: int) -> bool {
    !(a1 < b1 && a1 < b2 && a2 < b1 && a2 < b2) && !(b1 < a1 && b1 < a2 && b2 < a1 && b2 < a2)
}

/// Two axis-aligned segments, p–q and r–s, share a point: each is its own
/// bounding box, so they do exactly when their spans overlap on both axes.
pub open spec fn segments_meet(p: (int, int), q: (int, int), r: (int, int), s: (int, int)) -> bool {
    spans_overlap(p.0, q.0, r.0, s.0) && spans_overlap(p.1, q.1, r.1, s.1)
}

/// The axis-aligned segments p–q and q–r share no point but `q`: on neither
/// axis do `p` and `r` both run on past `q` to the same side.
pub open spec fn meet_only_at_joint(p: (int, int), q: (int, int), r: (int, int)) -> bool {
    !same_side(p.0, r.0, q.0) && !same_side(p.1, r.1, q.1)
}

/// Edges p–q and r–s, starting at points `i` and `j` of an outline of `n`
/// points, meet only where a simple polygon lets them: at their common point
/// if they follow one another, and nowhere otherwise.
pub open spec fn edge_pair_ok(
    n: int,
    i: int,
    j: int,
    p: (int, int),
    q: (int, int),
    r: (int, int),
    s: (int, int),
) -> bool {
    if j == i + 1 {
        meet_only_at_joint(p, r, s)
    } else if i == 0 && j == n - 1 {
        meet_only_at_joint(r, p, q)
    } else {
        !segments_meet(p, q, r, s)
    }
}

/// The closed outline through the points of `pts`, in order, is a simple
/// polygon: it has at least three points, each edge runs along an axis and
/// has a length, edges that follow one another share only their common point,
/// and any other two edges share none.
pub open spec fn simple_polygon(pts: Seq<(int, int)>) -> bool {
    let n = pts.len() as int;
    &&& n >= 3
    &&& forall|i: int|
        0 <= i < n ==> #[trigger] pts[i] != pts[next_index(n, i)] && (pts[i].0 == pts[next_index(
            n,
            i,
        )].0 || pts[i].1 == pts[next_index(n, i)].1)
    &&& forall|i: int, j: int|
        0 <= i < j < n ==> edge_pair_ok(
            n,
            i,
            j,
            #[trigger] pts[i],
            pts[next_index(n, i)],
            #[trigger] pts[j],
            pts[next_index(n, j)],
        )
}

/// The `k`th of four values.
pub open spec fn pick(vs: (int, int, int, int), k: int) -> int {
    if k == 0 {
        vs.0
    } else if k == 1 {
        vs.1
    } else if k == 2 {
        vs.2
    } else {
        vs.3
    }
}

/// The edges and insets of a pixel numbered in the order in which they lie
/// on an axis.
pub open spec fn grid_steps() -> (int, int, int, int) {
    (0, 1, 2, 3)
}

/// The number of points that a corner contributes.
pub open spec fn corner_len(horiz: PixelKind, vert: PixelKind, diag: PixelKind) -> int {
    if notched(horiz, vert, diag) {
        3
    } else {
        1
    }
}

/// The `k`th point that `corner` lists.
pub open spec fn corner_point(
    x: int,
    x_inset: int,
    y: int,
    y_inset: int,
    horiz: PixelKind,
    vert: PixelKind,
    diag: PixelKind,
    reflect: bool,
    k: int,
) -> (int, int) {
    if !notched(horiz, vert, diag) {
        (
            if horiz == PixelKind::Dark { x_inset } else { x },
            if vert == PixelKind::Dark { y_inset } else { y },
        )
    } else if reflect {
        if k == 0 {
            (x_inset, y)
        } else if k == 1 {
            (x_inset, y_inset)
        } else {
            (x, y_inset)
        }
    } else {
        if k == 0 {
            (x, y_inset)
        } else if k == 1 {
            (x_inset, y_inset)
        } else {
            (x_inset, y)
        }
    }
}

pub open spec fn outline_len(nb: Nearby) -> int {
    corner_len(nb.left, nb.top, nb.top_left) + corner_len(nb.right, nb.top, nb.top_right)
        + corner_len(nb.right, nb.bot, nb.bot_right) + corner_len(nb.left, nb.bot, nb.bot_left)
}

/// The `k`th point of `light_outline(nb, xs, ys)`.
pub open spec fn outline_point(
    nb: Nearby,
    xs: (int, int, int, int),
    ys: (int, int, int, int),
    k: int,
) -> (int, int) {
    let a = corner_len(nb.left, nb.top, nb.top_left);
    let b = corner_len(nb.right, nb.top, nb.top_right);
    let c = corner_len(nb.right, nb.bot, nb.bot_right);
    if k < a {
        corner_point(xs.0, xs.1, ys.0, ys.1, nb.left, nb.top, nb.top_left, false, k)
    } else if k < a + b {
        corner_point(xs.3, xs.2, ys.0, ys.1, nb.right, nb.top, nb.top_right, true, k - a)
    } else if k < a + b + c {
        corner_point(xs.3, xs.2, ys.3, ys.2, nb.right, nb.bot, nb.bot_right, false, k - a - b)
    } else {
        corner_point(xs.0, xs.1, ys.3, ys.2, nb.left, nb.bot, nb.bot_left, true, k - a - b - c)
    }
}

proof fn lemma_corner_points(
    x: int,
    x_inset: int,
    y: int,
    y_inset: int,
    horiz: PixelKind,
    vert: PixelKind,
    diag: PixelKind,
    reflect: bool,
)
    ensures
        ({
            let s = corner(x, x_inset, y, y_inset, horiz, vert, diag, reflect);
            &&& s.len() == corner_len(horiz, vert, diag)
            &&& forall|k: int|
                0 <= k < s.len() ==> #[trigger] s[k] == corner_point(
                    x,
                    x_inset,
                    y,
                    y_inset,
                    horiz,
                    vert,
                    diag,
                    reflect,
                    k,
                )
        }),
{
}

proof fn lemma_outline_points(nb: Nearby, xs: (int, int, int, int), ys: (int, int, int, int))
    ensures
        ({
            let s = light_outline(nb, xs, ys);
            &&& s.len() == outline_len(nb)
            &&& forall|k: int| 0 <= k < s.len() ==> #[trigger] s[k] == outline_point(nb, xs, ys, k)
        }),
{
    let a = corner(xs.0, xs.1, ys.0, ys.1, nb.left, nb.top, nb.top_left, false);
    let b = corner(xs.3, xs.2, ys.0, ys.1, nb.right, nb.top, nb.top_right, true);
    let c = corner(xs.3, xs.2, ys.3, ys.2, nb.right, nb.bot, nb.bot_right, false);
    let d = corner(xs.0, xs.1, ys.3, ys.2, nb.left, nb.bot, nb.bot_left, true);
    lemma_corner_points(xs.0, xs.1, ys.0, ys.1, nb.left, nb.top, nb.top_left, false);
    lemma_corner_points(xs.3, xs.2, ys.0, ys.1, nb.right, nb.top, nb.top_right, true);
    lemma_corner_points(xs.3, xs.2, ys.3, ys.2, nb.right, nb.bot, nb.bot_right, false);
    lemma_corner_points(xs.0, xs.1, ys.3, ys.2, nb.left, nb.bot, nb.bot_left, true);
    let s = light_outline(nb, xs, ys);
    assert(s == a + b + c + d);
    assert forall|k: int| 0 <= k < s.len() implies #[trigger] s[k] == outline_point(nb, xs, ys, k) by {
        if k < a.len() {
            assert(s[k] == a[k]);
        } else if k < a.len() + b.len() {
            assert(s[k] == b[k - a.len()]);
        } else if k < a.len() + b.len() + c.len() {
            assert(s[k] == c[k - a.len() - b.len()]);
        } else {
            assert(s[k] == d[k - a.len() - b.len() - c.len()]);
        }
    }
}

/// The `k`th point of the outline of a light pixel on the grid of edge and
/// inset numbers.
pub open spec fn gp(nb: Nearby, k: int) -> (int, int) {
    outline_point(nb, grid_steps(), grid_steps(), k)
}

/// The edges of the grid outline that start at points `i` and `j` meet as
/// `simple_polygon` allows, if the outline has that many points.
pub open spec fn pair_holds(nb: Nearby, i: int, j: int) -> bool {
    let n = outline_len(nb);
    j < n ==> edge_pair_ok(
        n,
        i,
        j,
        gp(nb, i),
        gp(nb, next_index(n, i)),
        gp(nb, j),
        gp(nb, next_index(n, j)),
    )
}

/// The edge of the grid outline that starts at point `k` has a length and
/// runs along an axis, if the outline has that many points.
pub open spec fn edge_holds(nb: Nearby, k: int) -> bool {
    let n = outline_len(nb);
    let (p, q) = (gp(nb, k), gp(nb, next_index(n, k)));
    k < n ==> (p.0 != q.0 || p.1 != q.1) && (p.0 == q.0 || p.1 == q.1)
}

/// The edge of the grid outline that starts at point 0, against each later
/// edge. The pairs are split over one lemma per starting point so that each
/// proof stays small.
proof fn lemma_grid_pairs_0(nb: Nearby)
    ensures
        pair_holds(nb, 0, 1),
        pair_holds(nb, 0, 2),
        pair_holds(nb, 0, 3),
        pair_holds(nb, 0, 4),
        pair_holds(nb, 0, 5),
        pair_holds(nb, 0, 6),
        pair_holds(nb, 0, 7),
        pair_holds(nb, 0, 8),
        pair_holds(nb, 0, 9),
        pair_holds(nb, 0, 10),
        pair_holds(nb, 0, 11),
{
}

/// As `lemma_grid_pairs_0`, for the edge that starts at point 1.
proof fn lemma_grid_pairs_1(nb: Nearby)
    ensures
        pair_holds(nb, 1, 2),
        pair_holds(nb, 1, 3),
        pair_holds(nb, 1, 4),
        pair_holds(nb, 1, 5),
        pair_holds(nb, 1, 6),
        pair_holds(nb, 1, 7),
        pair_holds(nb, 1, 8),
        pair_holds(nb, 1, 9),
        pair_holds(nb, 1, 10),
        pair_holds(nb, 1, 11),
{
}

/// As `lemma_grid_pairs_0`, for the edge that starts at point 2.
proof fn lemma_grid_pairs_2(nb: Nearby)
    ensures
        pair_holds(nb, 2, 3),
        pair_holds(nb, 2, 4),
        pair_holds(nb, 2, 5),
        pair_holds(nb, 2, 6),
        pair_holds(nb, 2, 7),
        pair_holds(nb, 2, 8),
        pair_holds(nb, 2, 9),
        pair_holds(nb, 2, 10),
        pair_holds(nb, 2, 11),
{
}

/// As `lemma_grid_pairs_0`, for the edge that starts at point 3.
proof fn lemma_grid_pairs_3(nb: Nearby)
    ensures
        pair_holds(nb, 3, 4),
        pair_holds(nb, 3, 5),
        pair_holds(nb, 3, 6),
        pair_holds(nb, 3, 7),
        pair_holds(nb, 3, 8),
        pair_holds(nb, 3, 9),
        pair_holds(nb, 3, 10),
        pair_holds(nb, 3, 11),
{
}

/// As `lemma_grid_pairs_0`, for the edge that starts at point 4.
proof fn lemma_grid_pairs_4(nb: Nearby)
    ensures
        pair_holds(nb, 4, 5),
        pair_holds(nb, 4, 6),
        pair_holds(nb, 4, 7),
        pair_holds(nb, 4, 8),
        pair_holds(nb, 4, 9),
        pair_holds(nb, 4, 10),
        pair_holds(nb, 4, 11),
{
}

/// As `lemma_grid_pairs_0`, for the edge that starts at point 5.
proof fn lemma_grid_pairs_5(nb: Nearby)
    ensures
        pair_holds(nb, 5, 6),
        pair_holds(nb, 5, 7),
        pair_holds(nb, 5, 8),
        pair_holds(nb, 5, 9),
        pair_holds(nb, 5, 10),
        pair_holds(nb, 5, 11),
{
}

/// As `lemma_grid_pairs_0`, for the edge that starts at point 6.
proof fn lemma_grid_pairs_6(nb: Nearby)
    ensures
        pair_holds(nb, 6, 7),
        pair_holds(nb, 6, 8),
        pair_holds(nb, 6, 9),
        pair_holds(nb, 6, 10),
        pair_holds(nb, 6, 11),
{
}

/// As `lemma_grid_pairs_0`, for the edge that starts at point 7.
proof fn lemma_grid_pairs_7(nb: Nearby)
    ensures
        pair_holds(nb, 7, 8),
        pair_holds(nb, 7, 9),
        pair_holds(nb, 7, 10),
        pair_holds(nb, 7, 11),
{
}

/// As `lemma_grid_pairs_0`, for the edge that starts at point 8.
proof fn lemma_grid_pairs_8(nb: Nearby)
    ensures
        pair_holds(nb, 8, 9),
        pair_holds(nb, 8, 10),
        pair_holds(nb, 8, 11),
{
}

/// As `lemma_grid_pairs_0`, for the edge that starts at point 9.
proof fn lemma_grid_pairs_9(nb: Nearby)
    ensures
        pair_holds(nb, 9, 10),
        pair_holds(nb, 9, 11),
{
}

/// As `lemma_grid_pairs_0`, for the edge that starts at point 10.
proof fn lemma_grid_pairs_10(nb: Nearby)
    ensures
        pair_holds(nb, 10, 11),
{
}

/// The edge of the grid outline that starts at point 0; one lemma per edge
/// keeps each proof small.
proof fn lemma_grid_edge_0(nb: Nearby)
    ensures
        edge_holds(nb, 0),
{
}

/// As `lemma_grid_edge_0`, for point 1.
proof fn lemma_grid_edge_1(nb: Nearby)
    ensures
        edge_holds(nb, 1),
{
}

/// As `lemma_grid_edge_0`, for point 2.
proof fn lemma_grid_edge_2(nb: Nearby)
    ensures
        edge_holds(nb, 2),
{
}

/// As `lemma_grid_edge_0`, for point 3.
proof fn lemma_grid_edge_3(nb: Nearby)
    ensures
        edge_holds(nb, 3),
{
}

/// As `lemma_grid_edge_0`, for point 4.
proof fn lemma_grid_edge_4(nb: Nearby)
    ensures
        edge_holds(nb, 4),
{
}

/// As `lemma_grid_edge_0`, for point 5.
proof fn lemma_grid_edge_5(nb: Nearby)
    ensures
        edge_holds(nb, 5),
{
}

/// As `lemma_grid_edge_0`, for point 6.
proof fn lemma_grid_edge_6(nb: Nearby)
    ensures
        edge_holds(nb, 6),
{
}

/// As `lemma_grid_edge_0`, for point 7.
proof fn lemma_grid_edge_7(nb: Nearby)
    ensures
        edge_holds(nb, 7),
{
}

/// As `lemma_grid_edge_0`, for point 8.
proof fn lemma_grid_edge_8(nb: Nearby)
    ensures
        edge_holds(nb, 8),
{
}

/// As `lemma_grid_edge_0`, for point 9.
proof fn lemma_grid_edge_9(nb: Nearby)
    ensures
        edge_holds(nb, 9),
{
}

/// As `lemma_grid_edge_0`, for point 10.
proof fn lemma_grid_edge_10(nb: Nearby)
    ensures
        edge_holds(nb, 10),
{
}

/// As `lemma_grid_edge_0`, for point 11.
proof fn lemma_grid_edge_11(nb: Nearby)
    ensures
        edge_holds(nb, 11),
{
}

/// On the grid of edge and inset numbers, the outline of a light pixel is a
/// simple polygon whatever its neighbours. It has at most twelve points, so
/// the pairs of its edges are checked one by one.
proof fn lemma_grid_outline_simple(nb: Nearby)
    ensures
        simple_polygon(light_outline(nb, grid_steps(), grid_steps())),
{
    let g = grid_steps();
    let s = light_outline(nb, g, g);
    let n = outline_len(nb);
    lemma_outline_points(nb, g, g);
    lemma_grid_edge_0(nb);
    lemma_grid_edge_1(nb);
    lemma_grid_edge_2(nb);
    lemma_grid_edge_3(nb);
    lemma_grid_edge_4(nb);
    lemma_grid_edge_5(nb);
    lemma_grid_edge_6(nb);
    lemma_grid_edge_7(nb);
    lemma_grid_edge_8(nb);
    lemma_grid_edge_9(nb);
    lemma_grid_edge_10(nb);
    lemma_grid_edge_11(nb);
    lemma_grid_pairs_0(nb);
    lemma_grid_pairs_1(nb);
    lemma_grid_pairs_2(nb);
    lemma_grid_pairs_3(nb);
    lemma_grid_pairs_4(nb);
    lemma_grid_pairs_5(nb);
    lemma_grid_pairs_6(nb);
    lemma_grid_pairs_7(nb);
    lemma_grid_pairs_8(nb);
    lemma_grid_pairs_9(nb);
    lemma_grid_pairs_10(nb);
    assert forall|k: int| 0 <= k < n implies #[trigger] s[k] != s[next_index(n, k)] && (s[k].0
        == s[next_index(n, k)].0 || s[k].1 == s[next_index(n, k)].1) by {
        assert(k == 0 || k == 1 || k == 2 || k == 3 || k == 4 || k == 5 || k == 6 || k == 7 || k == 8 || k == 9 || k == 10 || k == 11);
        assert(edge_holds(nb, k));
    }
    assert forall|i: int, j: int| 0 <= i < j < n implies #[trigger] pair_holds(nb, i, j) by {
        assert(i == 0 || i == 1 || i == 2 || i == 3 || i == 4 || i == 5 || i == 6 || i == 7 || i == 8 || i == 9 || i == 10);
        assert(j == 1 || j == 2 || j == 3 || j == 4 || j == 5 || j == 6 || j == 7 || j == 8 || j == 9 || j == 10 || j == 11);
    }
    assert forall|i: int, j: int| 0 <= i < j < n implies edge_pair_ok(
        n,
        i,
        j,
        #[trigger] s[i],
        s[next_index(n, i)],
        #[trigger] s[j],
        s[next_index(n, j)],
    ) by {
        assert(pair_holds(nb, i, j));
    }
}

pub open spec fn increasing(vs: (int, int, int, int)) -> bool {
    vs.0 < vs.1 < vs.2 < vs.3
}

proof fn lemma_pick_order(vs: (int, int, int, int))
    requires
        increasing(vs),
    ensures
        forall|a: int, b: int|
            0 <= a <= 3 && 0 <= b <= 3 ==> ((#[trigger] pick(vs, a) < #[trigger] pick(vs, b)) == (a
                < b)) && ((pick(vs, a) == pick(vs, b)) == (a == b)),
{
}

proof fn lemma_point_on_grid(nb: Nearby, xs: (int, int, int, int), ys: (int, int, int, int), k: int)
    ensures
        outline_point(nb, xs, ys, k) == (pick(xs, gp(nb, k).0), pick(ys, gp(nb, k).1)),
        0 <= gp(nb, k).0 <= 3,
        0 <= gp(nb, k).1 <= 3,
{
}

/// Moving the points of a simple polygon drawn on a 4 by 4 grid to any
/// coordinates that keep the order of the grid lines keeps it simple.
proof fn lemma_simple_on_grid_moved(
    t: Seq<(int, int)>,
    s: Seq<(int, int)>,
    xs: (int, int, int, int),
    ys: (int, int, int, int),
)
    requires
        simple_polygon(t),
        increasing(xs),
        increasing(ys),
        s.len() == t.len(),
        forall|k: int|
            0 <= k < t.len() ==> 0 <= #[trigger] t[k].0 <= 3 && 0 <= t[k].1 <= 3 && s[k] == (
                pick(xs, t[k].0),
                pick(ys, t[k].1),
            ),
    ensures
        simple_polygon(s),
{
    let n = t.len() as int;
    lemma_pick_order(xs);
    lemma_pick_order(ys);
    assert forall|k: int| 0 <= k < n implies #[trigger] s[k] != s[next_index(n, k)] && (s[k].0
        == s[next_index(n, k)].0 || s[k].1 == s[next_index(n, k)].1) by {
        let m = next_index(n, k);
        assert(t[k] != t[m] && (t[k].0 == t[m].0 || t[k].1 == t[m].1));
        assert(0 <= t[m].0 <= 3);
    }
    assert forall|i: int, j: int| 0 <= i < j < n implies edge_pair_ok(
        n,
        i,
        j,
        #[trigger] s[i],
        s[next_index(n, i)],
        #[trigger] s[j],
        s[next_index(n, j)],
    ) by {
        let (a, b) = (next_index(n, i), next_index(n, j));
        assert(edge_pair_ok(n, i, j, t[i], t[a], t[j], t[b]));
        assert(0 <= t[a].0 <= 3 && 0 <= t[b].0 <= 3);
    }
}

proof fn lemma_outline_on_grid(nb: Nearby, xs: (int, int, int, int), ys: (int, int, int, int))
    ensures
        ({
            let s = light_outline(nb, xs, ys);
            let t = light_outline(nb, grid_steps(), grid_steps());
            &&& s.len() == t.len()
            &&& forall|k: int|
                0 <= k < t.len() ==> 0 <= #[trigger] t[k].0 <= 3 && 0 <= t[k].1 <= 3 && s[k] == (
                    pick(xs, t[k].0),
                    pick(ys, t[k].1),
                )
        }),
{
    let s = light_outline(nb, xs, ys);
    let t = light_outline(nb, grid_steps(), grid_steps());
    lemma_outline_points(nb, xs, ys);
    lemma_outline_points(nb, grid_steps(), grid_steps());
    assert forall|k: int| 0 <= k < t.len() implies 0 <= #[trigger] t[k].0 <= 3 && 0 <= t[k].1 <= 3
        && s[k] == (pick(xs, t[k].0), pick(ys, t[k].1)) by {
        lemma_point_on_grid(nb, xs, ys, k);
    }
}

/// A light pixel's outline is a simple polygon whenever each axis's edges
/// and insets lie in order (left, left inset, right inset, right).
proof fn lemma_light_outline_simple(nb: Nearby, xs: (int, int, int, int), ys: (int, int, int, int))
    requires
        increasing(xs),
        increasing(ys),
    ensures
        simple_polygon(light_outline(nb, xs, ys)),
{
    lemma_grid_outline_simple(nb);
    lemma_outline_on_grid(nb, xs, ys);
    lemma_simple_on_grid_moved(
        light_outline(nb, grid_steps(), grid_steps()),
        light_outline(nb, xs, ys),
        xs,
        ys,
    );
}

/// A pixel's outline never crosses or touches itself, whatever its
/// neighbours, as long as the clearance is positive and under half the
/// pitch.
pub proof fn lemma_pixel_outline_simple(
    kind: PixelKind,
    nb: Nearby,
    left: int,
    top: int,
    pitch: int,
    clearance: int,
)
    requires
        kind != PixelKind::Transparent,
        0 < clearance,
        2 * clearance < pitch,
    ensures
        simple_polygon(pixel_outline(kind, nb, left, top, pitch, clearance)),
{
    let (r, b, c) = (left + pitch, top + pitch, clearance);
    let xs = (left, left + c, r - c, r);
    let ys = (top, top + c, b - c, b);
    if kind == PixelKind::Dark {
        let plain = Nearby {
            this: PixelKind::Light,
            top: PixelKind::Light,
            bot: PixelKind::Light,
            left: PixelKind::Light,
            right: PixelKind::Light,
            top_left: PixelKind::Light,
            top_right: PixelKind::Light,
            bot_left: PixelKind::Light,
            bot_right: PixelKind::Light,
        };
        lemma_light_pixel_without_dark_neighbours(plain, left, top, pitch, clearance);
        lemma_light_outline_simple(plain, xs, ys);
    } else {
        lemma_light_outline_simple(nb, xs, ys);
    }
}

} // verus!

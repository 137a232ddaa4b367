use vstd::prelude::*;

verus! {

/// A rectangle of the virtual screen, in physical pixels: a monitor, or the
/// area that all monitors together span.
#[derive(Debug, Clone, Copy, PartialEq, Eq)]
pub struct ScreenRect {
    pub x: i32,
    pub y: i32,
    pub width: u32,
    pub height: u32,
}

/// The value of `v as i32`: `v` itself where it fits, else `v - 2^32`.
pub open spec fn as_i32(v: u32) -> int {
    if v <= i32::MAX {
        v as int
    } else {
        v - 0x1_0000_0000
    }
}

/// The value of `v as u32` for an `i32` value `v`: `v` itself where it is not
/// negative, else `v + 2^32`.
pub open spec fn as_u32(v: int) -> int {
    if v >= 0 {
        v
    } else {
        v + 0x1_0000_0000
    }
}

/// The smallest element of a non-empty sequence.
pub open spec fn seq_min(s: Seq<int>) -> int
    decreases s.len(),
{
    if s.len() <= 1 {
        s[0]
    } else {
        let m = seq_min(s.drop_last());
        if s.last() < m {
            s.last()
        } else {
            m
        }
    }
}

/// The largest element of a non-empty sequence.
pub open spec fn seq_max(s: Seq<int>) -> int
    decreases s.len(),
{
    if s.len() <= 1 {
        s[0]
    } else {
        let m = seq_max(s.drop_last());
        if s.last() > m {
            s.last()
        } else {
            m
        }
    }
}

/// The left edges of the rectangles.
pub open spec fn lefts(ms: Seq<ScreenRect>) -> Seq<int> {
    ms.map_values(|m: ScreenRect| m.x as int)
}

/// The top edges of the rectangles.
pub open spec fn tops(ms: Seq<ScreenRect>) -> Seq<int> {
    ms.map_values(|m: ScreenRect| m.y as int)
}

/// The right edges of the rectangles, `x + width as i32`.
pub open spec fn rights(ms: Seq<ScreenRect>) -> Seq<int> {
    ms.map_values(|m: ScreenRect| m.x + as_i32(m.width))
}

/// The bottom edges of the rectangles, `y + height as i32`.
pub open spec fn bottoms(ms: Seq<ScreenRect>) -> Seq<int> {
    ms.map_values(|m: ScreenRect| m.y + as_i32(m.height))
}

/// Whether the edges of every rectangle, and the extent of them all, can be
/// computed in `i32` arithmetic.
pub open spec fn edges_fit_i32(ms: Seq<ScreenRect>) -> bool {
    &&& forall|i: int|
        0 <= i < ms.len() ==> i32::MIN <= #[trigger] ms[i].x + as_i32(ms[i].width) <= i32::MAX
    &&& forall|i: int|
        0 <= i < ms.len() ==> i32::MIN <= #[trigger] ms[i].y + as_i32(ms[i].height) <= i32::MAX
    &&& ms.len() > 0 ==> i32::MIN <= seq_max(rights(ms)) - seq_min(lefts(ms)) <= i32::MAX
    &&& ms.len() > 0 ==> i32::MIN <= seq_max(bottoms(ms)) - seq_min(tops(ms)) <= i32::MAX
}

/// The area spanned by the rectangles: from the leftmost left edge and the
/// topmost top edge to the rightmost right edge and the lowest bottom edge;
/// `None` where there are none.
pub open spec fn spanned_area(ms: Seq<ScreenRect>) -> Option<ScreenRect> {
    if ms.len() == 0 {
        None
    } else {
        Some(
            ScreenRect {
                x: seq_min(lefts(ms)) as i32,
                y: seq_min(tops(ms)) as i32,
                width: as_u32(seq_max(rights(ms)) - seq_min(lefts(ms))) as u32,
                height: as_u32(seq_max(bottoms(ms)) - seq_min(tops(ms))) as u32,
            },
        )
    }
}

/// `v as i32`.
fn wrap_to_i32(v: u32) -> (r: i32)
    ensures
        r == as_i32(v),
{
    proof {
        assert(v <= 0x7fff_ffffu32 ==> (v as i32) as int == v as int) by (bit_vector);
        assert(v > 0x7fff_ffffu32 ==> (v as i32) as int == v as int - 0x1_0000_0000int)
            by (bit_vector);
    }
    v as i32
}

/// `v as u32`.
fn wrap_to_u32(v: i32) -> (r: u32)
    ensures
        r == as_u32(v as int),
{
    proof {
        assert(v >= 0i32 ==> (v as u32) as int == v as int) by (bit_vector);
        assert(v < 0i32 ==> (v as u32) as int == v as int + 0x1_0000_0000int) by (bit_vector);
    }
    v as u32
}

/// The minimum of a prefix one longer is the minimum of the prefix and the
/// new element.
proof fn lemma_min_max_step(s: Seq<int>, i: int)
    requires
        0 < i < s.len(),
    ensures
        seq_min(s.take(i + 1)) == (if s[i] < seq_min(s.take(i)) {
            s[i]
        } else {
            seq_min(s.take(i))
        }),
        seq_max(s.take(i + 1)) == (if s[i] > seq_max(s.take(i)) {
            s[i]
        } else {
            seq_max(s.take(i))
        }),
{
    assert(s.take(i + 1).drop_last() =~= s.take(i));
}

/// The area that all monitors together span, given each monitor's position and
/// size; `None` where there is no monitor.
pub fn total_screen(monitors: &Vec<ScreenRect>) -> (r: Option<ScreenRect>)
    requires
        edges_fit_i32(monitors@),
    ensures
        r == spanned_area(monitors@),
{
    let ghost ms = monitors@;
    if monitors.len() == 0 {
        return None;
    }
    let first = monitors[0];
    let mut left: i32 = first.x;
    let mut top: i32 = first.y;
    let mut right: i32 = first.x + wrap_to_i32(first.width);
    let mut bottom: i32 = first.y + wrap_to_i32(first.height);
    proof {
        assert(lefts(ms).take(1) =~= seq![ms[0].x as int]);
        assert(tops(ms).take(1) =~= seq![ms[0].y as int]);
        assert(rights(ms).take(1) =~= seq![ms[0].x + as_i32(ms[0].width)]);
        assert(bottoms(ms).take(1) =~= seq![ms[0].y + as_i32(ms[0].height)]);
    }
    let mut i: usize = 1;
    while i < monitors.len()
        invariant
            ms == monitors@,
            edges_fit_i32(ms),
            1 <= i <= ms.len(),
            left == seq_min(lefts(ms).take(i as int)),
            top == seq_min(tops(ms).take(i as int)),
            right == seq_max(rights(ms).take(i as int)),
            bottom == seq_max(bottoms(ms).take(i as int)),
        decreases ms.len() - i,
    {
        let m = monitors[i];
        proof {
            lemma_min_max_step(lefts(ms), i as int);
            lemma_min_max_step(tops(ms), i as int);
            lemma_min_max_step(rights(ms), i as int);
            lemma_min_max_step(bottoms(ms), i as int);
            assert(i32::MIN <= ms[i as int].x + as_i32(ms[i as int].width) <= i32::MAX);
            assert(i32::MIN <= ms[i as int].y + as_i32(ms[i as int].height) <= i32::MAX);
        }
        if m.x < left {
            left = m.x;
        }
        if m.y < top {
            top = m.y;
        }
        let r_edge: i32 = m.x + wrap_to_i32(m.width);
        if r_edge > right {
            right = r_edge;
        }
        let b_edge: i32 = m.y + wrap_to_i32(m.height);
        if b_edge > bottom {
            bottom = b_edge;
        }
        i = i + 1;
    }
    proof {
        assert(lefts(ms).take(ms.len() as int) =~= lefts(ms));
        assert(tops(ms).take(ms.len() as int) =~= tops(ms));
        assert(rights(ms).take(ms.len() as int) =~= rights(ms));
        assert(bottoms(ms).take(ms.len() as int) =~= bottoms(ms));
    }
    let width = wrap_to_u32(right - left);
    let height = wrap_to_u32(bottom - top);
    Some(ScreenRect { x: left, y: top, width, height })
}

/// Whether `total_screen` can take these monitors: whether each edge, and the
/// width and height of the spanned area, can be computed in `i32` arithmetic.
pub fn edges_fit(monitors: &Vec<ScreenRect>) -> (r: bool)
    ensures
        r == edges_fit_i32(monitors@),
{
    let ghost ms = monitors@;
    if monitors.len() == 0 {
        return true;
    }
    let first = monitors[0];
    let mut left: i64 = first.x as i64;
    let mut top: i64 = first.y as i64;
    let mut right: i64 = first.x as i64 + wrap_to_i32(first.width) as i64;
    let mut bottom: i64 = first.y as i64 + wrap_to_i32(first.height) as i64;
    proof {
        assert(lefts(ms).take(1) =~= seq![ms[0].x as int]);
        assert(tops(ms).take(1) =~= seq![ms[0].y as int]);
        assert(rights(ms).take(1) =~= seq![ms[0].x + as_i32(ms[0].width)]);
        assert(bottoms(ms).take(1) =~= seq![ms[0].y + as_i32(ms[0].height)]);
    }
    let mut i: usize = 0;
    while i < monitors.len()
        invariant
            ms == monitors@,
            ms.len() > 0,
            0 <= i <= ms.len(),
            forall|j: int|
                0 <= j < i ==> i32::MIN <= #[trigger] ms[j].x + as_i32(ms[j].width) <= i32::MAX,
            forall|j: int|
                0 <= j < i ==> i32::MIN <= #[trigger] ms[j].y + as_i32(ms[j].height) <= i32::MAX,
            i32::MIN <= left <= i32::MAX,
            i32::MIN <= top <= i32::MAX,
            i > 0 ==> i32::MIN <= right <= i32::MAX,
            i > 0 ==> i32::MIN <= bottom <= i32::MAX,
            -0x1_0000_0000 <= right <= 0x1_0000_0000,
            -0x1_0000_0000 <= bottom <= 0x1_0000_0000,
            left == seq_min(lefts(ms).take(if i == 0 { 1 } else { i as int })),
            top == seq_min(tops(ms).take(if i == 0 { 1 } else { i as int })),
            right == seq_max(rights(ms).take(if i == 0 { 1 } else { i as int })),
            bottom == seq_max(bottoms(ms).take(if i == 0 { 1 } else { i as int })),
        decreases ms.len() - i,
    {
        let m = monitors[i];
        let r_edge: i64 = m.x as i64 + wrap_to_i32(m.width) as i64;
        let b_edge: i64 = m.y as i64 + wrap_to_i32(m.height) as i64;
        if r_edge < i32::MIN as i64 || r_edge > i32::MAX as i64 {
            return false;
        }
        if b_edge < i32::MIN as i64 || b_edge > i32::MAX as i64 {
            return false;
        }
        if i > 0 {
            proof {
                lemma_min_max_step(lefts(ms), i as int);
                lemma_min_max_step(tops(ms), i as int);
                lemma_min_max_step(rights(ms), i as int);
                lemma_min_max_step(bottoms(ms), i as int);
            }
            if (m.x as i64) < left {
                left = m.x as i64;
            }
            if (m.y as i64) < top {
                top = m.y as i64;
            }
            if r_edge > right {
                right = r_edge;
            }
            if b_edge > bottom {
                bottom = b_edge;
            }
        }
        i = i + 1;
    }
    proof {
        assert(lefts(ms).take(ms.len() as int) =~= lefts(ms));
        assert(tops(ms).take(ms.len() as int) =~= tops(ms));
        assert(rights(ms).take(ms.len() as int) =~= rights(ms));
        assert(bottoms(ms).take(ms.len() as int) =~= bottoms(ms));
    }
    let width: i64 = right - left;
    let height: i64 = bottom - top;
    i32::MIN as i64 <= width && width <= i32::MAX as i64 && i32::MIN as i64 <= height && height
        <= i32::MAX as i64
}

/// The minimum and the maximum of a non-empty sequence bound every element and
/// are elements themselves.
pub proof fn lemma_seq_min_max(s: Seq<int>)
    requires
        s.len() > 0,
    ensures
        forall|i: int| 0 <= i < s.len() ==> seq_min(s) <= #[trigger] s[i] <= seq_max(s),
        exists|i: int| 0 <= i < s.len() && s[i] == seq_min(s),
        exists|i: int| 0 <= i < s.len() && s[i] == seq_max(s),
    decreases s.len(),
{
    if s.len() == 1 {
        assert(s[0] == seq_min(s));
        assert(s[0] == seq_max(s));
    } else {
        let t = s.drop_last();
        lemma_seq_min_max(t);
        assert forall|i: int| 0 <= i < s.len() implies seq_min(s) <= #[trigger] s[i] <= seq_max(s) by {
            if i < s.len() - 1 {
                assert(s[i] == t[i]);
            }
        }
        let a = choose|i: int| 0 <= i < t.len() && t[i] == seq_min(t);
        let b = choose|i: int| 0 <= i < t.len() && t[i] == seq_max(t);
        assert(s[a] == t[a]);
        assert(s[b] == t[b]);
        if s.last() < seq_min(t) {
            assert(s[s.len() - 1] == seq_min(s));
        } else {
            assert(s[a] == seq_min(s));
        }
        if s.last() > seq_max(t) {
            assert(s[s.len() - 1] == seq_max(s));
        } else {
            assert(s[b] == seq_max(s));
        }
    }
}

/// Every layout whose positions and sizes lie within `2^24` pixels of the
/// origin can be spanned: no edge and no extent overflows `i32`, whatever the
/// signs of the positions.
pub proof fn lemma_small_layouts_fit(ms: Seq<ScreenRect>)
    requires
        forall|i: int|
            0 <= i < ms.len() ==> -0x100_0000 <= #[trigger] ms[i].x <= 0x100_0000 && -0x100_0000
                <= ms[i].y <= 0x100_0000 && ms[i].width <= 0x100_0000 && ms[i].height
                <= 0x100_0000,
    ensures
        edges_fit_i32(ms),
{
    assert forall|i: int| 0 <= i < ms.len() implies i32::MIN <= #[trigger] ms[i].x + as_i32(
        ms[i].width,
    ) <= i32::MAX by {
        assert(-0x100_0000 <= ms[i].x <= 0x100_0000);
    }
    assert forall|i: int| 0 <= i < ms.len() implies i32::MIN <= #[trigger] ms[i].y + as_i32(
        ms[i].height,
    ) <= i32::MAX by {
        assert(-0x100_0000 <= ms[i].x <= 0x100_0000);
    }
    if ms.len() > 0 {
        lemma_seq_min_max(lefts(ms));
        lemma_seq_min_max(tops(ms));
        lemma_seq_min_max(rights(ms));
        lemma_seq_min_max(bottoms(ms));
        let a = choose|i: int| 0 <= i < lefts(ms).len() && lefts(ms)[i] == seq_min(lefts(ms));
        let b = choose|i: int| 0 <= i < tops(ms).len() && tops(ms)[i] == seq_min(tops(ms));
        let c = choose|i: int| 0 <= i < rights(ms).len() && rights(ms)[i] == seq_max(rights(ms));
        let d = choose|i: int| 0 <= i < bottoms(ms).len() && bottoms(ms)[i] == seq_max(bottoms(ms));
        assert(-0x100_0000 <= ms[a].x <= 0x100_0000);
        assert(-0x100_0000 <= ms[b].x <= 0x100_0000);
        assert(-0x100_0000 <= ms[c].x <= 0x100_0000);
        assert(-0x100_0000 <= ms[d].x <= 0x100_0000);
        assert(lefts(ms)[a] == ms[a].x);
        assert(tops(ms)[b] == ms[b].y);
        assert(rights(ms)[c] == ms[c].x + ms[c].width);
        assert(bottoms(ms)[d] == ms[d].y + ms[d].height);
    }
}

/// The wrapping conversions give the one value of the target type that is
/// congruent to their argument modulo `2^32`.
pub proof fn lemma_wrapping_casts(v: u32, w: i32)
    ensures
        i32::MIN <= as_i32(v) <= i32::MAX,
        (as_i32(v) - v) % 0x1_0000_0000 == 0,
        0 <= as_u32(w as int) <= u32::MAX,
        (as_u32(w as int) - w) % 0x1_0000_0000 == 0,
{
}

/// A layout spanning more than `i32::MAX` pixels from the leftmost left edge
/// to some right edge, or from the topmost top edge to some bottom edge,
/// cannot be spanned.
pub proof fn lemma_wide_span_refused(ms: Seq<ScreenRect>, i: int, j: int)
    requires
        0 <= i < ms.len(),
        0 <= j < ms.len(),
        (ms[j].width <= i32::MAX && ms[j].x + ms[j].width - ms[i].x > i32::MAX) || (ms[j].height
            <= i32::MAX && ms[j].y + ms[j].height - ms[i].y > i32::MAX),
    ensures
        !edges_fit_i32(ms),
{
    lemma_seq_min_max(lefts(ms));
    lemma_seq_min_max(tops(ms));
    lemma_seq_min_max(rights(ms));
    lemma_seq_min_max(bottoms(ms));
    assert(lefts(ms)[i] == ms[i].x);
    assert(tops(ms)[i] == ms[i].y);
    assert(rights(ms)[j] == ms[j].x + as_i32(ms[j].width));
    assert(bottoms(ms)[j] == ms[j].y + as_i32(ms[j].height));
}

/// A layout in which some monitor's right or bottom edge lies beyond
/// `i32::MAX` cannot be spanned.
pub proof fn lemma_overflowing_edge_refused(ms: Seq<ScreenRect>, i: int)
    requires
        0 <= i < ms.len(),
        (ms[i].width <= i32::MAX && ms[i].x + ms[i].width > i32::MAX) || (ms[i].height
            <= i32::MAX && ms[i].y + ms[i].height > i32::MAX),
    ensures
        !edges_fit_i32(ms),
{
}

/// Where no monitor is wider or taller than `i32::MAX`, the spanned area holds
/// every monitor, and each of its four edges is an edge of some monitor.
pub proof fn lemma_spanned_area_covers(ms: Seq<ScreenRect>)
    requires
        ms.len() > 0,
        edges_fit_i32(ms),
        forall|i: int| 0 <= i < ms.len() ==> #[trigger] ms[i].width <= i32::MAX,
        forall|i: int| 0 <= i < ms.len() ==> #[trigger] ms[i].height <= i32::MAX,
    ensures
        ({
            let a = spanned_area(ms)->Some_0;
            &&& forall|i: int| 0 <= i < ms.len() ==> {
                &&& a.x <= #[trigger] ms[i].x
                &&& a.y <= ms[i].y
                &&& ms[i].x + ms[i].width <= a.x + a.width
                &&& ms[i].y + ms[i].height <= a.y + a.height
            }
            &&& exists|i: int| 0 <= i < ms.len() && #[trigger] ms[i].x == a.x
            &&& exists|i: int| 0 <= i < ms.len() && #[trigger] ms[i].y == a.y
            &&& exists|i: int| 0 <= i < ms.len() && #[trigger] ms[i].x + ms[i].width == a.x + a.width
            &&& exists|i: int| 0 <= i < ms.len() && #[trigger] ms[i].y + ms[i].height == a.y + a.height
        }),
{
    lemma_seq_min_max(lefts(ms));
    lemma_seq_min_max(tops(ms));
    lemma_seq_min_max(rights(ms));
    lemma_seq_min_max(bottoms(ms));
    let a = spanned_area(ms)->Some_0;
    assert(rights(ms)[0] >= lefts(ms)[0]);
    assert(bottoms(ms)[0] >= tops(ms)[0]);
    assert(a.width == seq_max(rights(ms)) - seq_min(lefts(ms)));
    assert(a.height == seq_max(bottoms(ms)) - seq_min(tops(ms)));
    assert forall|i: int| 0 <= i < ms.len() implies {
        &&& a.x <= #[trigger] ms[i].x
        &&& a.y <= ms[i].y
        &&& ms[i].x + ms[i].width <= a.x + a.width
        &&& ms[i].y + ms[i].height <= a.y + a.height
    } by {
        assert(lefts(ms)[i] == ms[i].x);
        assert(tops(ms)[i] == ms[i].y);
        assert(rights(ms)[i] == ms[i].x + ms[i].width);
        assert(bottoms(ms)[i] == ms[i].y + ms[i].height);
    }
    let il = choose|i: int| 0 <= i < lefts(ms).len() && lefts(ms)[i] == seq_min(lefts(ms));
    assert(ms[il].x == a.x);
    let it = choose|i: int| 0 <= i < tops(ms).len() && tops(ms)[i] == seq_min(tops(ms));
    assert(ms[it].y == a.y);
    let ir = choose|i: int| 0 <= i < rights(ms).len() && rights(ms)[i] == seq_max(rights(ms));
    assert(ms[ir].x + ms[ir].width == a.x + a.width);
    let ib = choose|i: int| 0 <= i < bottoms(ms).len() && bottoms(ms)[i] == seq_max(bottoms(ms));
    assert(ms[ib].y + ms[ib].height == a.y + a.height);
}

/// Two non-empty sequences holding the same values have the same minimum and
/// the same maximum.
proof fn lemma_same_values_same_min_max(s: Seq<int>, t: Seq<int>)
    requires
        s.len() > 0,
        t.len() > 0,
        forall|i: int| 0 <= i < s.len() ==> #[trigger] t.contains(s[i]),
        forall|j: int| 0 <= j < t.len() ==> #[trigger] s.contains(t[j]),
    ensures
        seq_min(s) == seq_min(t),
        seq_max(s) == seq_max(t),
{
    lemma_seq_min_max(s);
    lemma_seq_min_max(t);
    let a = choose|i: int| 0 <= i < s.len() && s[i] == seq_min(s);
    let b = choose|j: int| 0 <= j < t.len() && t[j] == seq_min(t);
    let c = choose|i: int| 0 <= i < s.len() && s[i] == seq_max(s);
    let d = choose|j: int| 0 <= j < t.len() && t[j] == seq_max(t);
    assert(t.contains(s[a]));
    assert(s.contains(t[b]));
    assert(t.contains(s[c]));
    assert(s.contains(t[d]));
    let ja = choose|j: int| 0 <= j < t.len() && t[j] == s[a];
    let ib = choose|i: int| 0 <= i < s.len() && s[i] == t[b];
    let jc = choose|j: int| 0 <= j < t.len() && t[j] == s[c];
    let id = choose|i: int| 0 <= i < s.len() && s[i] == t[d];
    assert(seq_min(t) <= t[ja]);
    assert(seq_min(s) <= s[ib]);
    assert(t[jc] <= seq_max(t));
    assert(s[id] <= seq_max(s));
}

/// Every monitor of `a` is also a monitor of `b` where both hold the same
/// monitors, counted with multiplicity.
proof fn lemma_each_in_permutation(a: Seq<ScreenRect>, b: Seq<ScreenRect>)
    requires
        a.to_multiset() == b.to_multiset(),
    ensures
        forall|i: int| 0 <= i < a.len() ==> #[trigger] b.contains(a[i]),
{
    broadcast use vstd::seq_lib::group_to_multiset_ensures;

    assert forall|i: int| 0 <= i < a.len() implies #[trigger] b.contains(a[i]) by {
        assert(a.contains(a[i]));
        assert(a.to_multiset().count(a[i]) > 0);
        assert(b.to_multiset().count(a[i]) > 0);
    }
}

/// The left edges, top edges, right edges or bottom edges of the rectangles,
/// for `k` 0, 1, 2 or 3.
spec fn edges(ms: Seq<ScreenRect>, k: int) -> Seq<int> {
    if k == 0 {
        lefts(ms)
    } else if k == 1 {
        tops(ms)
    } else if k == 2 {
        rights(ms)
    } else {
        bottoms(ms)
    }
}

/// Where each monitor of one list is a monitor of the other, the two lists
/// have the same edges of each kind, so the same extreme edges.
proof fn lemma_same_monitors_same_edge(a: Seq<ScreenRect>, b: Seq<ScreenRect>, k: int)
    requires
        a.len() > 0,
        b.len() > 0,
        forall|i: int| 0 <= i < a.len() ==> #[trigger] b.contains(a[i]),
        forall|i: int| 0 <= i < b.len() ==> #[trigger] a.contains(b[i]),
    ensures
        seq_min(edges(a, k)) == seq_min(edges(b, k)),
        seq_max(edges(a, k)) == seq_max(edges(b, k)),
{
    let s = edges(a, k);
    let t = edges(b, k);
    assert forall|i: int| 0 <= i < s.len() implies #[trigger] t.contains(s[i]) by {
        assert(b.contains(a[i]));
        let j = choose|j: int| 0 <= j < b.len() && b[j] == a[i];
        assert(t[j] == s[i]);
    }
    assert forall|j: int| 0 <= j < t.len() implies #[trigger] s.contains(t[j]) by {
        assert(a.contains(b[j]));
        let i = choose|i: int| 0 <= i < a.len() && a[i] == b[j];
        assert(s[i] == t[j]);
    }
    lemma_same_values_same_min_max(s, t);
}

/// Two lists in which each monitor of one is a monitor of the other are
/// accepted alike by `edges_fit_i32`.
proof fn lemma_same_monitors_same_fit(a: Seq<ScreenRect>, b: Seq<ScreenRect>)
    requires
        forall|i: int| 0 <= i < a.len() ==> #[trigger] b.contains(a[i]),
        forall|i: int| 0 <= i < b.len() ==> #[trigger] a.contains(b[i]),
        a.len() > 0 ==> b.len() > 0 && seq_min(lefts(a)) == seq_min(lefts(b)) && seq_min(tops(a))
            == seq_min(tops(b)) && seq_max(rights(a)) == seq_max(rights(b)) && seq_max(bottoms(a))
            == seq_max(bottoms(b)),
        a.len() == b.len(),
        edges_fit_i32(a),
    ensures
        edges_fit_i32(b),
{
    assert forall|j: int| 0 <= j < b.len() implies i32::MIN <= #[trigger] b[j].x + as_i32(
        b[j].width,
    ) <= i32::MAX by {
        assert(a.contains(b[j]));
        let i = choose|i: int| 0 <= i < a.len() && a[i] == b[j];
        assert(i32::MIN <= a[i].x + as_i32(a[i].width) <= i32::MAX);
    }
    assert forall|j: int| 0 <= j < b.len() implies i32::MIN <= #[trigger] b[j].y + as_i32(
        b[j].height,
    ) <= i32::MAX by {
        assert(a.contains(b[j]));
        let i = choose|i: int| 0 <= i < a.len() && a[i] == b[j];
        assert(i32::MIN <= a[i].y + as_i32(a[i].height) <= i32::MAX);
    }
}

/// The spanned area does not depend on the order in which the monitors come:
/// two lists that hold the same monitors, counted with multiplicity, span the
/// same area, and `total_screen` accepts both or neither.
pub proof fn lemma_spanned_area_order(a: Seq<ScreenRect>, b: Seq<ScreenRect>)
    requires
        a.to_multiset() == b.to_multiset(),
    ensures
        spanned_area(a) == spanned_area(b),
        edges_fit_i32(a) == edges_fit_i32(b),
{
    assert(a.len() == b.len()) by {
        broadcast use vstd::seq_lib::group_to_multiset_ensures;

        assert(a.len() == a.to_multiset().len());
        assert(b.len() == b.to_multiset().len());
    }
    lemma_each_in_permutation(a, b);
    lemma_each_in_permutation(b, a);
    if a.len() > 0 {
        lemma_same_monitors_same_edge(a, b, 0);
        lemma_same_monitors_same_edge(a, b, 1);
        lemma_same_monitors_same_edge(a, b, 2);
        lemma_same_monitors_same_edge(a, b, 3);
    }
    if edges_fit_i32(a) {
        lemma_same_monitors_same_fit(a, b);
    }
    if edges_fit_i32(b) {
        lemma_same_monitors_same_fit(b, a);
    }
}

} // verus!

//! The shared object buffer: every object takes `STRIDE` consecutive slots
//! (kind, x, y, w, h and three unused), objects later in the buffer are drawn
//! on top of earlier ones.

use vstd::prelude::*;

verus! {

/// Slots taken by one object in the buffer.
pub const STRIDE: usize = 8;

/// Offset of the kind code within an object's slots.
pub const KIND: usize = 0;

/// Offset of the x coordinate (circle centre, or text box left edge).
pub const X: usize = 1;

/// Offset of the y coordinate (circle centre, or text box top edge).
pub const Y: usize = 2;

/// Offset of the width (radius of a circle).
pub const W: usize = 3;

/// Offset of the height (unused for a circle).
pub const H: usize = 4;

/// The shapes the canvas knows.
#[derive(Clone, Copy, Debug, PartialEq, Eq, Structural)]
pub enum ShapeKind {
    Circle,
    TextBox,
}

/// While editing, kind code 0 is a circle and every other code a text box.
pub open spec fn spec_editing_shape(code: u8) -> ShapeKind {
    if code == 0 {
        ShapeKind::Circle
    } else {
        ShapeKind::TextBox
    }
}

/// How the editor treats an object with kind code `code` when hit-testing and
/// moving it.
pub fn editing_shape(code: u8) -> (r: ShapeKind)
    ensures
        r == spec_editing_shape(code),
{
    if code == 0 {
        ShapeKind::Circle
    } else {
        ShapeKind::TextBox
    }
}

/// On export, kind code 0 is a circle, 1 a text box, and any other code is
/// left out.
pub open spec fn spec_export_shape(code: u8) -> Option<ShapeKind> {
    if code == 0 {
        Some(ShapeKind::Circle)
    } else if code == 1 {
        Some(ShapeKind::TextBox)
    } else {
        None
    }
}

/// How an object with kind code `code` is exported, or `None` when it is
/// left out of the export.
pub fn export_shape(code: u8) -> (r: Option<ShapeKind>)
    ensures
        r == spec_export_shape(code),
{
    if code == 0 {
        Some(ShapeKind::Circle)
    } else if code == 1 {
        Some(ShapeKind::TextBox)
    } else {
        None
    }
}

/// An object that is exported is exported as the shape it is edited as.
/// (Kind codes above 1 are edited as text boxes but left out of the export.)
pub proof fn lemma_export_agrees_with_editing(code: u8)
    ensures
        spec_export_shape(code) is Some ==> spec_export_shape(code) == Some(spec_editing_shape(code)),
        spec_export_shape(code) is None <==> code > 1,
{
}

/// The objects that are exported, with their slot index and shape, given the
/// kind code of each slot in order.
pub open spec fn exported(kinds: Seq<u8>) -> Seq<(usize, ShapeKind)>
    decreases kinds.len(),
{
    if kinds.len() == 0 {
        Seq::empty()
    } else {
        let rest = exported(kinds.drop_last());
        match spec_export_shape(kinds.last()) {
            Some(k) => rest.push(((kinds.len() - 1) as usize, k)),
            None => rest,
        }
    }
}

/// The slots that are exported, in slot order, each with its index and shape;
/// slots whose kind code is neither a circle nor a text box are left out.
pub fn exported_slots(kinds: &[u8]) -> (r: Vec<(usize, ShapeKind)>)
    ensures
        r@ == exported(kinds@),
{
    let mut out: Vec<(usize, ShapeKind)> = Vec::new();
    let n = kinds.len();
    let mut i: usize = 0;
    while i < n
        invariant
            n == kinds@.len(),
            i <= n,
            out@ == exported(kinds@.take(i as int)),
        decreases n - i,
    {
        let ghost t = kinds@.take(i + 1);
        assert(t.drop_last() =~= kinds@.take(i as int));
        assert(t.last() == kinds@[i as int]);
        match export_shape(kinds[i]) {
            Some(k) => out.push((i, k)),
            None => {},
        }
        i = i + 1;
    }
    assert(kinds@.take(n as int) =~= kinds@);
    out
}

/// The answer of a hit test that found no object.
pub const NO_OBJECT: u32 = 0xffff_ffffu32;

/// `j` is the topmost object that is hit: it is hit and nothing above it is.
pub open spec fn is_topmost_hit(hits: Seq<bool>, j: int) -> bool {
    &&& 0 <= j < hits.len()
    &&& hits[j]
    &&& forall|k: int| j < k < hits.len() ==> !hits[k]
}

/// Given whether the pointer hits each object, bottom to top, the index of the
/// topmost object hit, or `NO_OBJECT` when none is. The index is reported as a
/// `u32`, truncated as `as` does.
pub fn topmost_hit(hits: &[bool]) -> (r: u32)
    ensures
        (forall|k: int| 0 <= k < hits@.len() ==> !hits@[k]) ==> r == NO_OBJECT,
        forall|j: int| is_topmost_hit(hits@, j) ==> r == j as u32,
{
    let mut i = hits.len();
    while i > 0
        invariant
            i <= hits@.len(),
            forall|k: int| i <= k < hits@.len() ==> !hits@[k],
        decreases i,
    {
        i = i - 1;
        if hits[i] {
            return i as u32;
        }
    }
    NO_OBJECT
}

/// The slots of object `obj` in `s`.
pub open spec fn object_slots<T>(s: Seq<T>, obj: int) -> Seq<T> {
    s.subrange(obj * STRIDE, (obj + 1) * STRIDE)
}

/// The buffer `s` of `count` objects after object `idx` has been brought to
/// the front: the objects above it move down one place and it becomes the
/// last (topmost) one. The object already on top, or an index past it, leaves
/// the buffer as it was. Slots after the `count` objects never change.
pub open spec fn spec_bring_to_front<T>(s: Seq<T>, idx: int, count: int) -> Seq<T> {
    if idx >= count - 1 {
        s
    } else {
        s.take(idx * STRIDE) + s.subrange((idx + 1) * STRIDE, count * STRIDE)
            + object_slots(s, idx) + s.skip(count * STRIDE)
    }
}

/// Moves object `idx` of the `count` objects in `buf` to the top of the
/// drawing order, shifting the objects above it down by one.
pub fn buffer_bring_to_front<T: Copy>(buf: &mut [T], idx: usize, count: usize)
    requires
        count >= 1,
        idx < count - 1 ==> count * STRIDE <= old(buf)@.len(),
    ensures
        final(buf)@ == spec_bring_to_front(old(buf)@, idx as int, count as int),
{
    if idx >= count - 1 {
        return;
    }
    let ghost s = buf@;
    let len = buf.len();
    assert(idx * STRIDE + STRIDE <= (count - 1) * STRIDE + STRIDE <= s.len()) by (nonlinear_arith)
        requires
            idx < count - 1,
            count * STRIDE <= s.len(),
            STRIDE == 8,
    ;
    let base = idx * STRIDE;
    let last = (count - 1) * STRIDE;
    let mut saved: Vec<T> = Vec::new();
    let mut k: usize = 0;
    while k < STRIDE
        invariant
            k <= STRIDE,
            base + STRIDE <= buf@.len(),
            buf@.len() == s.len(),
            len == s.len(),
            buf@ == s,
            saved@ == s.subrange(base as int, base + k),
        decreases STRIDE - k,
    {
        saved.push(buf[base + k]);
        k = k + 1;
    }
    let mut p: usize = base;
    while p < last
        invariant
            base <= p <= last,
            last + STRIDE <= s.len(),
            buf@.len() == s.len(),
            len == s.len(),
            forall|q: int| 0 <= q < base ==> buf@[q] == s[q],
            forall|q: int| base <= q < p ==> buf@[q] == s[q + STRIDE],
            forall|q: int| p <= q < s.len() ==> buf@[q] == s[q],
        decreases last - p,
    {
        let v = buf[p + STRIDE];
        buf[p] = v;
        p = p + 1;
    }
    let mut k: usize = 0;
    while k < STRIDE
        invariant
            k <= STRIDE,
            base <= last,
            last + STRIDE <= s.len(),
            saved@ == s.subrange(base as int, base + STRIDE),
            buf@.len() == s.len(),
            len == s.len(),
            forall|q: int| 0 <= q < base ==> buf@[q] == s[q],
            forall|q: int| base <= q < last ==> buf@[q] == s[q + STRIDE],
            forall|q: int| last <= q < last + k ==> buf@[q] == saved@[q - last],
            forall|q: int| last + k <= q < s.len() ==> buf@[q] == s[q],
        decreases STRIDE - k,
    {
        buf[last + k] = saved[k];
        k = k + 1;
    }
    assert(buf@ =~= spec_bring_to_front(s, idx as int, count as int));
}

/// Bringing an object to the front only reorders the buffer: every value is
/// still there, as often as before.
pub proof fn lemma_bring_to_front_permutes<T>(s: Seq<T>, idx: int, count: int)
    requires
        0 <= idx,
        idx < count - 1 ==> count * STRIDE <= s.len(),
    ensures
        spec_bring_to_front(s, idx, count).to_multiset() == s.to_multiset(),
        spec_bring_to_front(s, idx, count).len() == s.len(),
{
    broadcast use vstd::seq_lib::group_to_multiset_ensures;
    if idx < count - 1 {
        let a = s.take(idx * STRIDE);
        let b = object_slots(s, idx);
        let c = s.subrange((idx + 1) * STRIDE, count * STRIDE);
        let d = s.skip(count * STRIDE);
        assert(s =~= a + b + c + d);
        vstd::seq_lib::lemma_multiset_commutative(a + b, c);
        vstd::seq_lib::lemma_multiset_commutative(a, b);
        vstd::seq_lib::lemma_multiset_commutative(a + b + c, d);
        vstd::seq_lib::lemma_multiset_commutative(a + c, b);
        vstd::seq_lib::lemma_multiset_commutative(a, c);
        vstd::seq_lib::lemma_multiset_commutative(a + c + b, d);
        assert(a.to_multiset().add(b.to_multiset()).add(c.to_multiset())
            =~= a.to_multiset().add(c.to_multiset()).add(b.to_multiset()));
    }
}

/// After bringing object `idx` to the front it is the topmost object, the
/// objects below it keep their places, and the ones above it keep their order
/// one place lower.
pub proof fn lemma_bring_to_front_order<T>(s: Seq<T>, idx: int, count: int)
    requires
        0 <= idx < count - 1,
        count * STRIDE <= s.len(),
    ensures
        object_slots(spec_bring_to_front(s, idx, count), count - 1) == object_slots(s, idx),
        forall|o: int| 0 <= o < idx ==> object_slots(spec_bring_to_front(s, idx, count), o)
            == #[trigger] object_slots(s, o),
        forall|o: int| idx <= o < count - 1 ==> object_slots(spec_bring_to_front(s, idx, count), o)
            == #[trigger] object_slots(s, o + 1),
{
    let r = spec_bring_to_front(s, idx, count);
    assert(object_slots(r, count - 1) =~= object_slots(s, idx));
    assert forall|o: int| 0 <= o < idx implies object_slots(r, o) == #[trigger] object_slots(s, o) by {
        assert(object_slots(r, o) =~= object_slots(s, o));
    }
    assert forall|o: int| idx <= o < count - 1 implies object_slots(r, o)
        == #[trigger] object_slots(s, o + 1) by {
        assert(object_slots(r, o) =~= object_slots(s, o + 1));
    }
}

/// Whether each of the first `count` objects of `s` is hit, by a hit rule
/// that looks only at an object's own slots.
pub open spec fn hit_vector<T>(s: Seq<T>, count: int, hit: spec_fn(Seq<T>) -> bool) -> Seq<bool> {
    Seq::new(count as nat, |o: int| hit(object_slots(s, o)))
}

/// The object brought to the front wins every hit test it takes part in:
/// after bringing object `idx` to the front, if it is hit, the topmost object
/// hit is the last one, `count - 1`, which is where it now is.
pub proof fn lemma_front_object_wins_hit_test<T>(
    s: Seq<T>,
    idx: int,
    count: int,
    hit: spec_fn(Seq<T>) -> bool,
)
    requires
        0 <= idx < count,
        count * STRIDE <= s.len(),
        hit(object_slots(s, idx)),
    ensures
        is_topmost_hit(hit_vector(spec_bring_to_front(s, idx, count), count, hit), count - 1),
{
    if idx < count - 1 {
        lemma_bring_to_front_order(s, idx, count);
    }
}

} // verus!

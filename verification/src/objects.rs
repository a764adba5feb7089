//! Rectangles, the falling objects they confine, and the field that
//! drives the objects' spawn/advance/retire lifecycle.

use vstd::prelude::*;
use rand::Rng;

verus! {

/// An axis-aligned integer rectangle: `offset` is the top-left corner
/// (x, y), `bounds` the (width, height) extents.
#[derive(Debug, Clone, Copy)]
pub struct Rect {
    pub offset: (i32, i32),
    pub bounds: (i32, i32),
}

impl Rect {
    /// Well-formed: non-negative extents, and the far edges still fit in
    /// `i32`.
    pub open spec fn wf(self) -> bool {
        &&& 0 <= self.bounds.0
        &&& 0 <= self.bounds.1
        &&& self.offset.0 + self.bounds.0 <= i32::MAX
        &&& self.offset.1 + self.bounds.1 <= i32::MAX
    }

    pub open spec fn spec_top(self) -> int {
        self.offset.1 as int
    }

    pub open spec fn spec_bottom(self) -> int {
        self.offset.1 + self.bounds.1
    }

    pub open spec fn spec_left(self) -> int {
        self.offset.0 as int
    }

    pub open spec fn spec_right(self) -> int {
        self.offset.0 + self.bounds.0
    }

    pub open spec fn spec_width(self) -> int {
        self.bounds.0 as int
    }

    pub open spec fn spec_height(self) -> int {
        self.bounds.1 as int
    }

    /// Half-open containment: the right and bottom edges are excluded.
    pub open spec fn spec_contains(self, p: (int, int)) -> bool {
        &&& self.spec_left() <= p.0 < self.spec_right()
        &&& self.spec_top() <= p.1 < self.spec_bottom()
    }

    pub fn top(&self) -> (r: i32)
        ensures
            r == self.spec_top(),
    {
        self.offset.1
    }

    pub fn bottom(&self) -> (r: i32)
        requires
            self.wf(),
        ensures
            r == self.spec_bottom(),
    {
        self.offset.1 + self.bounds.1
    }

    pub fn left(&self) -> (r: i32)
        ensures
            r == self.spec_left(),
    {
        self.offset.0
    }

    pub fn right(&self) -> (r: i32)
        requires
            self.wf(),
        ensures
            r == self.spec_right(),
    {
        self.offset.0 + self.bounds.0
    }

    pub fn width(&self) -> (r: i32)
        ensures
            r == self.spec_width(),
    {
        self.bounds.0
    }

    pub fn height(&self) -> (r: i32)
        ensures
            r == self.spec_height(),
    {
        self.bounds.1
    }

    /// Whether the point lies inside the rectangle, right and bottom
    /// edges excluded.
    pub fn contains(&self, p: (i32, i32)) -> (r: bool)
        requires
            self.wf(),
        ensures
            r == self.spec_contains((p.0 as int, p.1 as int)),
    {
        (p.0 >= self.offset.0 && p.0 < self.right()) && (p.1 >= self.offset.1 && p.1 < self.bottom())
    }
}

/// Where one downward step takes a position: the row below it.
pub open spec fn fallen(p: (int, int)) -> (int, int) {
    (p.0, p.1 + 1)
}

/// A single falling object with a 2D cell position.
#[derive(Debug, Clone, Copy)]
pub struct SpaceObject {
    pos: (i32, i32),
}

impl View for SpaceObject {
    type V = (int, int);

    closed spec fn view(&self) -> (int, int) {
        (self.pos.0 as int, self.pos.1 as int)
    }
}

impl SpaceObject {
    pub fn new(nx: i32, ny: i32) -> (s: Self)
        ensures
            s@ == (nx as int, ny as int),
    {
        Self { pos: (nx, ny) }
    }

    /// Falls exactly one row; the column never changes.
    pub fn update(&mut self)
        requires
            old(self)@.1 < i32::MAX,
        ensures
            final(self)@ == fallen(old(self)@),
    {
        self.pos.1 += 1
    }

    pub fn get_pos(&self) -> (p: (i32, i32))
        ensures
            (p.0 as int, p.1 as int) == self@,
    {
        self.pos
    }
}

/// Falling twice lands exactly two rows down — one row per step, never
/// more or fewer, whatever any surrounding field's bounds are.
pub proof fn lemma_fall_twice(p: (int, int))
    ensures
        fallen(fallen(p)) == (p.0, p.1 + 2),
{
}

/// Relies on rand::Rng::gen_range over `0..n`: a uniformly random
/// integer in the half-open range; the call panics only on an empty
/// range, which the precondition excludes.
#[verifier::external_body]
fn random_below(n: i32) -> (r: i32)
    requires
        0 < n,
    ensures
        0 <= r < n,
{
    let mut rng = rand::thread_rng();
    rng.gen_range(0..n)
}

/// One retire-and-advance pass over a sequence of positions: a position
/// strictly above the bottom edge (y < bottom) falls one row and is
/// kept, in order; a position at or past the bottom edge is removed
/// without moving.
pub open spec fn advanced(s: Seq<(int, int)>, bottom: int) -> Seq<(int, int)>
    decreases s.len(),
{
    if s.len() == 0 {
        Seq::empty()
    } else {
        let rest = advanced(s.drop_last(), bottom);
        if s.last().1 < bottom {
            rest.push(fallen(s.last()))
        } else {
            rest
        }
    }
}

/// How many positions are at or past the bottom edge (y >= bottom).
pub open spec fn count_past(s: Seq<(int, int)>, bottom: int) -> int
    decreases s.len(),
{
    if s.len() == 0 {
        0
    } else {
        count_past(s.drop_last(), bottom) + (if s.last().1 >= bottom {
            1int
        } else {
            0int
        })
    }
}

/// The positions that survive a collision pass against `r`: those not
/// contained in `r`, in order.
pub open spec fn survivors(s: Seq<(int, int)>, r: Rect) -> Seq<(int, int)>
    decreases s.len(),
{
    if s.len() == 0 {
        Seq::empty()
    } else {
        let rest = survivors(s.drop_last(), r);
        if r.spec_contains(s.last()) {
            rest
        } else {
            rest.push(s.last())
        }
    }
}

/// Relates a field's objects after one `update` to those before: the
/// retire-and-advance pass, then exactly one object spawned on the top
/// edge of `b`, in some column of `b`.
pub open spec fn update_shape(post: Seq<(int, int)>, pre: Seq<(int, int)>, b: Rect) -> bool {
    &&& post.len() == advanced(pre, b.spec_bottom()).len() + 1
    &&& post.drop_last() == advanced(pre, b.spec_bottom())
    &&& post.last().1 == b.spec_top()
    &&& 0 <= post.last().0 < b.spec_width()
}

/// The retire-and-advance pass removes exactly the positions at or past
/// the bottom edge: of `s.len()` positions,
/// `s.len() - count_past(s, bottom)` are kept.
pub proof fn lemma_advanced_len(s: Seq<(int, int)>, bottom: int)
    ensures
        0 <= count_past(s, bottom) <= s.len(),
        advanced(s, bottom).len() == s.len() - count_past(s, bottom),
    decreases s.len(),
{
    if s.len() > 0 {
        lemma_advanced_len(s.drop_last(), bottom);
    }
}

/// When every position is strictly above the bottom edge, the
/// retire-and-advance pass keeps every one of them.
pub proof fn lemma_none_past_keeps_all(s: Seq<(int, int)>, bottom: int)
    requires
        forall|i: int| 0 <= i < s.len() ==> s[i].1 < bottom,
    ensures
        count_past(s, bottom) == 0,
        advanced(s, bottom).len() == s.len(),
    decreases s.len(),
{
    if s.len() > 0 {
        assert forall|i: int| 0 <= i < s.drop_last().len() implies s.drop_last()[i].1
            < bottom by {
            assert(s.drop_last()[i] == s[i]);
        }
        lemma_none_past_keeps_all(s.drop_last(), bottom);
        assert(s.last().1 < bottom);
    }
}

/// Positions kept by the retire-and-advance pass never lie past the
/// bottom edge: every survivor fell from a row strictly above it, so it
/// sits at most on the bottom row.
pub proof fn lemma_advanced_within(s: Seq<(int, int)>, bottom: int)
    ensures
        forall|i: int|
            0 <= i < advanced(s, bottom).len() ==> #[trigger] advanced(s, bottom)[i].1 <= bottom,
    decreases s.len(),
{
    if s.len() > 0 {
        lemma_advanced_within(s.drop_last(), bottom);
        assert forall|i: int|
            0 <= i < advanced(s, bottom).len() implies #[trigger] advanced(s, bottom)[i].1
            <= bottom by {
            if i < advanced(s.drop_last(), bottom).len() {
                assert(advanced(s, bottom)[i] == advanced(s.drop_last(), bottom)[i]);
            }
        }
    }
}

/// Containment is a half-open test: no point on the right or bottom
/// edge is inside the rectangle, and the offset corner itself is inside
/// whenever both extents are positive.
pub proof fn lemma_contains_half_open(r: Rect, p: (int, int))
    requires
        r.wf(),
    ensures
        p.0 == r.spec_right() ==> !r.spec_contains(p),
        p.1 == r.spec_bottom() ==> !r.spec_contains(p),
        (0 < r.spec_width() && 0 < r.spec_height()) ==> r.spec_contains(
            (r.offset.0 as int, r.offset.1 as int),
        ),
{
}

/// After one field update on objects all strictly above the bottom
/// edge, the field holds exactly one object more than before, and the
/// newly spawned object sits on the field's top edge.
pub proof fn lemma_update_grows_by_one(post: Seq<(int, int)>, pre: Seq<(int, int)>, b: Rect)
    requires
        update_shape(post, pre, b),
        forall|i: int| 0 <= i < pre.len() ==> pre[i].1 < b.spec_bottom(),
    ensures
        post.len() == pre.len() + 1,
        post.last().1 == b.spec_top(),
{
    lemma_none_past_keeps_all(pre, b.spec_bottom());
}

/// The field's invariant is restored by every update: afterwards no
/// object lies past the bottom edge — the survivors fell from strictly
/// above it, and the spawned object sits on the top edge, which a
/// well-formed rectangle keeps at or above its bottom edge.
pub proof fn lemma_update_within_bounds(post: Seq<(int, int)>, pre: Seq<(int, int)>, b: Rect)
    requires
        update_shape(post, pre, b),
        b.wf(),
    ensures
        forall|i: int| 0 <= i < post.len() ==> #[trigger] post[i].1 <= b.spec_bottom(),
{
    lemma_advanced_within(pre, b.spec_bottom());
    assert forall|i: int| 0 <= i < post.len() implies #[trigger] post[i].1 <= b.spec_bottom() by {
        if i < post.len() - 1 {
            assert(post[i] == post.drop_last()[i]);
            assert(post.drop_last()[i] == advanced(pre, b.spec_bottom())[i]);
        } else {
            assert(post[i] == post.last());
        }
    }
}

/// The census of one field update: when exactly `count_past` objects
/// are past the bottom edge, the update retires those, keeps the rest,
/// and spawns one — `pre.len() - count_past + 1` objects in all.
pub proof fn lemma_update_census(post: Seq<(int, int)>, pre: Seq<(int, int)>, b: Rect)
    requires
        update_shape(post, pre, b),
    ensures
        post.len() == pre.len() - count_past(pre, b.spec_bottom()) + 1,
{
    lemma_advanced_len(pre, b.spec_bottom());
}

/// A rectangular field together with the falling objects currently
/// inside it.
#[derive(Debug)]
pub struct ObjectField {
    field_bounds: Rect,
    pub object_set: Vec<SpaceObject>,
}

impl ObjectField {
    /// The field's bounding rectangle.
    pub closed spec fn spec_bounds(self) -> Rect {
        self.field_bounds
    }

    /// The objects' positions, in the order the field holds them.
    pub closed spec fn objects(self) -> Seq<(int, int)> {
        self.object_set@.map_values(|o: SpaceObject| o@)
    }

    pub fn new(bounds: Rect, set: Vec<SpaceObject>) -> (f: Self)
        ensures
            f.spec_bounds() == bounds,
            f.objects() == set@.map_values(|o: SpaceObject| o@),
    {
        Self { field_bounds: bounds, object_set: set }
    }

    /// A read-only view of the objects, for rendering.
    pub fn get_data(&self) -> (r: &Vec<SpaceObject>)
        ensures
            r@.map_values(|o: SpaceObject| o@) == self.objects(),
    {
        &self.object_set
    }

    /// Empties the field; the bounds stay.
    pub fn clear(&mut self)
        ensures
            final(self).spec_bounds() == old(self).spec_bounds(),
            final(self).objects().len() == 0,
    {
        self.object_set.clear();
    }

    /// One lifecycle step: every object at or past the bottom edge is
    /// retired without moving, every object strictly above it falls one
    /// row, and exactly one new object is spawned at a uniformly random
    /// column on the top edge.
    pub fn update(&mut self)
        requires
            old(self).spec_bounds().wf(),
            0 < old(self).spec_bounds().spec_width(),
        ensures
            final(self).spec_bounds() == old(self).spec_bounds(),
            update_shape(final(self).objects(), old(self).objects(), old(self).spec_bounds()),
            final(self).objects().len() == old(self).objects().len() - count_past(
                old(self).objects(),
                old(self).spec_bounds().spec_bottom(),
            ) + 1,
            forall|i: int|
                0 <= i < final(self).objects().len() ==> #[trigger] final(self).objects()[i].1
                    <= old(self).spec_bounds().spec_bottom(),
    {
        let ghost orig: Seq<(int, int)> = self.objects();
        let ghost ob: Rect = self.field_bounds;
        let bottom = self.field_bounds.bottom();
        let top = self.field_bounds.top();
        let width = self.field_bounds.width();
        let mut kept: Vec<SpaceObject> = Vec::new();
        let mut i: usize = 0;
        while i < self.object_set.len()
            invariant
                i <= self.object_set.len(),
                self.object_set@.map_values(|o: SpaceObject| o@) == orig,
                orig.len() == self.object_set@.len(),
                bottom == ob.spec_bottom(),
                kept@.map_values(|o: SpaceObject| o@) == advanced(orig.take(i as int), bottom as int),
            decreases self.object_set.len() - i,
        {
            let p = self.object_set[i].get_pos();
            proof {
                assert(self.object_set@.map_values(|o: SpaceObject| o@)[i as int]
                    == self.object_set@[i as int]@);
                assert((p.0 as int, p.1 as int) == orig[i as int]);
            }
            if p.1 < bottom {
                kept.push(SpaceObject::new(p.0, p.1 + 1));
            }
            proof {
                assert(orig.take(i as int + 1).drop_last() =~= orig.take(i as int));
                assert(orig.take(i as int + 1).last() == orig[i as int]);
                assert(kept@.map_values(|o: SpaceObject| o@) =~= advanced(
                    orig.take(i as int + 1),
                    bottom as int,
                ));
            }
            i += 1;
        }
        proof {
            assert(orig.take(orig.len() as int) =~= orig);
        }
        self.object_set = kept;
        let x = random_below(width);
        self.object_set.push(SpaceObject::new(x, top));
        proof {
            assert(self.object_set@.map_values(|o: SpaceObject| o@).drop_last() =~= advanced(
                orig,
                ob.spec_bottom(),
            ));
            lemma_advanced_len(orig, ob.spec_bottom());
            assert(update_shape(self.objects(), orig, ob));
            lemma_update_within_bounds(self.objects(), orig, ob);
        }
    }

    /// A collision pass: removes every object the rectangle contains,
    /// and charges 10 energy for each one removed.
    pub fn remove_hits(&mut self, r: &Rect, energy: &mut i32)
        requires
            r.wf(),
            *old(energy) - 10 * old(self).objects().len() >= i32::MIN,
        ensures
            final(self).spec_bounds() == old(self).spec_bounds(),
            final(self).objects() == survivors(old(self).objects(), *r),
            final(self).objects().len() <= old(self).objects().len(),
            *final(energy) == *old(energy) - 10 * (old(self).objects().len()
                - final(self).objects().len()),
    {
        let ghost orig: Seq<(int, int)> = self.objects();
        let ghost e0: int = *energy as int;
        let mut kept: Vec<SpaceObject> = Vec::new();
        let mut i: usize = 0;
        while i < self.object_set.len()
            invariant
                i <= self.object_set.len(),
                self.object_set@.map_values(|o: SpaceObject| o@) == orig,
                orig.len() == self.object_set@.len(),
                r.wf(),
                kept@.map_values(|o: SpaceObject| o@) == survivors(orig.take(i as int), *r),
                kept@.len() <= i,
                *energy == e0 - 10 * (i - kept@.len()),
                e0 - 10 * orig.len() >= i32::MIN,
                e0 <= i32::MAX,
            decreases self.object_set.len() - i,
        {
            let o = self.object_set[i];
            let p = o.get_pos();
            proof {
                assert(self.object_set@.map_values(|o: SpaceObject| o@)[i as int]
                    == self.object_set@[i as int]@);
                assert((p.0 as int, p.1 as int) == orig[i as int]);
            }
            if r.contains(p) {
                *energy = *energy - 10;
            } else {
                kept.push(o);
            }
            proof {
                assert(orig.take(i as int + 1).drop_last() =~= orig.take(i as int));
                assert(orig.take(i as int + 1).last() == orig[i as int]);
                assert(kept@.map_values(|o: SpaceObject| o@) =~= survivors(
                    orig.take(i as int + 1),
                    *r,
                ));
            }
            i += 1;
        }
        proof {
            assert(orig.take(orig.len() as int) =~= orig);
        }
        self.object_set = kept;
    }
}

} // verus!

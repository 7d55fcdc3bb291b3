//! Per-output damage history, used to bound the region repainted into a
//! target buffer whose age is known.
use vstd::prelude::*;
use crate::geometry::{Rect, rect_contains, region_contains, region_covers};
use crate::space::RenderElement;

verus! {

/// How many past frames of damage are kept; a buffer older than this is
/// repainted in full.
pub const MAX_AGE: usize = 4;

/// Concatenation of the damage of several frames, oldest entry first.
pub open spec fn flatten(frames: Seq<Seq<Rect>>) -> Seq<Rect>
    decreases frames.len(),
{
    if frames.len() == 0 {
        Seq::empty()
    } else {
        flatten(frames.drop_last()) + frames.last()
    }
}

/// The region to repaint into a buffer of age `age`: the whole output when the
/// buffer's contents are unknown (age 0) or older than the history; else the
/// new damage together with the damage of the `age` most recent frames.
pub open spec fn repaint_spec(output: Rect, frames: Seq<Seq<Rect>>, age: int, damage: Seq<Rect>) -> Seq<Rect> {
    if age == 0 || age > frames.len() {
        seq![output]
    } else {
        damage + flatten(frames.subrange(0, age))
    }
}

/// The history after a frame with damage `d` was presented: newest first,
/// at most `MAX_AGE` frames.
pub open spec fn pushed_spec(frames: Seq<Seq<Rect>>, d: Seq<Rect>) -> Seq<Seq<Rect>> {
    let all = seq![d] + frames;
    if all.len() > MAX_AGE {
        all.subrange(0, MAX_AGE as int)
    } else {
        all
    }
}

/// The screen area that an element occupies.
pub open spec fn element_rect(e: RenderElement) -> Rect {
    Rect { x: e.x, y: e.y, w: e.w, h: e.h }
}

/// The damage at the first `n` places of paint order: where the two frames
/// hold the same element at a place, nothing; else the area of each element
/// that stands there (the new one first).
pub open spec fn diff_upto(prev: Seq<RenderElement>, cur: Seq<RenderElement>, n: nat) -> Seq<Rect>
    decreases n,
{
    if n == 0 {
        Seq::empty()
    } else {
        let i = n - 1;
        let r = diff_upto(prev, cur, i as nat);
        if i < prev.len() && i < cur.len() && prev[i] == cur[i] {
            r
        } else {
            let c = if i < cur.len() { seq![element_rect(cur[i])] } else { Seq::empty() };
            let p = if i < prev.len() { seq![element_rect(prev[i])] } else { Seq::empty() };
            r + c + p
        }
    }
}

/// The damage between two frames, compared place by place in paint order: an
/// element that appeared, moved, changed buffer or changed place in the stack
/// damages its area, and so does the element that stood at that place before.
pub open spec fn frame_damage_spec(prev: Seq<RenderElement>, cur: Seq<RenderElement>) -> Seq<Rect> {
    diff_upto(prev, cur, if prev.len() >= cur.len() { prev.len() } else { cur.len() })
}

/// The damage of a frame with elements `cur` over one with elements `prev`.
pub fn frame_damage(prev: &Vec<RenderElement>, cur: &Vec<RenderElement>) -> (r: Vec<Rect>)
    ensures
        r@ == frame_damage_spec(prev@, cur@),
{
    let n: usize = if prev.len() >= cur.len() { prev.len() } else { cur.len() };
    let mut r: Vec<Rect> = Vec::new();
    let mut i: usize = 0;
    while i < n
        invariant
            i <= n,
            n == (if prev@.len() >= cur@.len() { prev@.len() } else { cur@.len() }),
            r@ == diff_upto(prev@, cur@, i as nat),
        decreases n - i,
    {
        let same = i < prev.len() && i < cur.len() && prev[i] == cur[i];
        if !same {
            let ghost before = r@;
            if i < cur.len() {
                let e = cur[i];
                r.push(Rect { x: e.x, y: e.y, w: e.w, h: e.h });
            }
            if i < prev.len() {
                let e = prev[i];
                r.push(Rect { x: e.x, y: e.y, w: e.w, h: e.h });
            }
            proof {
                let c = if i < cur@.len() { seq![element_rect(cur@[i as int])] } else { Seq::<Rect>::empty() };
                let p = if i < prev@.len() { seq![element_rect(prev@[i as int])] } else { Seq::<Rect>::empty() };
                assert(r@ =~= before + c + p);
            }
        }
        i = i + 1;
    }
    r
}

/// Every rectangle of a frame stands in the concatenation of the frames.
pub proof fn lemma_flatten_holds(frames: Seq<Seq<Rect>>, k: int, j: int)
    requires
        0 <= k < frames.len(),
        0 <= j < frames[k].len(),
    ensures
        exists|i: int| 0 <= i < flatten(frames).len() && flatten(frames)[i] == frames[k][j],
    decreases frames.len(),
{
    let rest = frames.drop_last();
    if k == frames.len() - 1 {
        let i = flatten(rest).len() + j;
        assert(flatten(frames)[i] == frames[k][j]);
    } else {
        lemma_flatten_holds(rest, k, j);
        let i = choose|i: int| 0 <= i < flatten(rest).len() && flatten(rest)[i] == rest[k][j];
        assert(flatten(frames)[i] == frames[k][j]);
    }
}

/// Repaint correctness: into a buffer of age 0 the whole output is repainted;
/// into a buffer of age `age`, where at least `age` past frames are known, the
/// repainted region covers the new damage and the damage of each of the `age`
/// most recent frames.
pub proof fn lemma_repaint_covers_history(output: Rect, frames: Seq<Seq<Rect>>, age: int, damage: Seq<Rect>)
    requires
        0 <= age <= frames.len(),
    ensures
        age == 0 ==> repaint_spec(output, frames, age, damage) == seq![output],
        age >= 1 ==> region_covers(repaint_spec(output, frames, age, damage), damage),
        forall|k: int| 0 <= k < age ==> region_covers(repaint_spec(output, frames, age, damage), #[trigger] frames[k]),
{
    if age > 0 {
        let r = repaint_spec(output, frames, age, damage);
        let head = frames.subrange(0, age);
        assert forall|px: int, py: int| #[trigger] region_contains(damage, px, py) implies region_contains(r, px, py) by {
            let i = choose|i: int| 0 <= i < damage.len() && #[trigger] rect_contains(damage[i], px, py);
            assert(r[i] == damage[i]);
        }
        assert forall|k: int| 0 <= k < age implies region_covers(r, #[trigger] frames[k]) by {
            assert forall|px: int, py: int| #[trigger] region_contains(frames[k], px, py) implies region_contains(r, px, py) by {
                let j = choose|j: int| 0 <= j < frames[k].len() && #[trigger] rect_contains(frames[k][j], px, py);
                assert(head[k] == frames[k]);
                lemma_flatten_holds(head, k, j);
                let i = choose|i: int| 0 <= i < flatten(head).len() && flatten(head)[i] == head[k][j];
                assert(r[damage.len() + i] == frames[k][j]);
                assert(rect_contains(r[damage.len() + i], px, py));
            }
        }
    }
}

/// Accumulates the damage of the frames most recently presented on one output.
pub struct DamageTracker {
    output: Rect,
    history: Vec<Vec<Rect>>,
}

impl DamageTracker {
    /// The output rectangle that a full repaint covers.
    pub closed spec fn output_spec(&self) -> Rect {
        self.output
    }

    /// The damage of past frames, the most recent first.
    pub closed spec fn frames(&self) -> Seq<Seq<Rect>> {
        Seq::new(self.history@.len(), |i: int| self.history@[i]@)
    }

    pub closed spec fn wf(&self) -> bool {
        self.history@.len() <= MAX_AGE
    }

    /// A tracker with no history for an output of the given size.
    pub fn new(w: i64, h: i64) -> (t: DamageTracker)
        ensures
            t.wf(),
            t.output_spec() == Rect::from_size_spec(w, h),
            t.frames() == Seq::<Seq<Rect>>::empty(),
    {
        let t = DamageTracker { output: Rect::from_size(w, h), history: Vec::new() };
        assert(t.frames() =~= Seq::<Seq<Rect>>::empty());
        t
    }

    pub fn output(&self) -> (r: Rect)
        ensures
            r == self.output_spec(),
    {
        self.output
    }

    /// Number of past frames whose damage is known.
    pub fn history_len(&self) -> (n: usize)
        ensures
            n == self.frames().len(),
    {
        self.history.len()
    }

    /// Forgets every past frame, so that the next repaint is a full one.
    pub fn reset(&mut self)
        ensures
            final(self).wf(),
            final(self).output_spec() == old(self).output_spec(),
            final(self).frames() == Seq::<Seq<Rect>>::empty(),
    {
        self.history = Vec::new();
        assert(self.frames() =~= Seq::<Seq<Rect>>::empty());
    }

    /// Follows a change of the output's size; the history no longer applies.
    pub fn resize(&mut self, w: i64, h: i64)
        ensures
            final(self).wf(),
            final(self).output_spec() == Rect::from_size_spec(w, h),
            final(self).frames() == Seq::<Seq<Rect>>::empty(),
    {
        self.output = Rect::from_size(w, h);
        self.reset();
    }

    /// The region that a buffer of age `age` must have repainted, given the
    /// damage `damage` of the frame now being drawn.
    pub fn repaint_region(&self, age: usize, damage: &Vec<Rect>) -> (r: Vec<Rect>)
        requires
            self.wf(),
        ensures
            r@ == repaint_spec(self.output_spec(), self.frames(), age as int, damage@),
    {
        if age == 0 || age > self.history.len() {
            return vec![self.output];
        }
        let mut r: Vec<Rect> = damage.clone();
        let mut k: usize = 0;
        while k < age
            invariant
                age <= self.history@.len(),
                k <= age,
                r@ == damage@ + flatten(self.frames().subrange(0, k as int)),
            decreases age - k,
        {
            let frame = &self.history[k];
            let ghost before = r@;
            let mut j: usize = 0;
            while j < frame.len()
                invariant
                    j <= frame@.len(),
                    r@ == before + frame@.subrange(0, j as int),
                decreases frame@.len() - j,
            {
                r.push(frame[j]);
                assert(frame@.subrange(0, j + 1) =~= frame@.subrange(0, j as int).push(frame@[j as int]));
                j = j + 1;
            }
            proof {
                let s = self.frames().subrange(0, k + 1);
                assert(s.drop_last() =~= self.frames().subrange(0, k as int));
                assert(s.last() == frame@);
                assert(frame@.subrange(0, frame@.len() as int) =~= frame@);
            }
            k = k + 1;
        }
        r
    }

    /// Records the damage of a frame that was presented.
    pub fn push_frame(&mut self, damage: Vec<Rect>)
        requires
            old(self).wf(),
        ensures
            final(self).wf(),
            final(self).output_spec() == old(self).output_spec(),
            final(self).frames() == pushed_spec(old(self).frames(), damage@),
    {
        let ghost d = damage@;
        let ghost old_frames = self.frames();
        self.history.insert(0, damage);
        if self.history.len() > MAX_AGE {
            self.history.truncate(MAX_AGE);
        }
        assert(self.frames() =~= pushed_spec(old_frames, d));
    }
}

} // verus!

//! Paint order over a sequence of map operations: the window mapped or
//! raised more recently paints above.
use vstd::prelude::*;
use crate::geometry::Rect;
use crate::space::{Window, elements_spec, map_spec, others_spec, mapped_entry, find_spec};

verus! {

/// One call of `WindowSpace::map` (a raise is a map at the window's place).
#[derive(Clone, Copy, Debug, PartialEq, Eq)]
pub struct MapStep {
    pub id: u64,
    pub x: i32,
    pub y: i32,
    pub activate: bool,
}

/// The windows after the steps, applied in order.
pub open spec fn maps_spec(ws: Seq<Window>, steps: Seq<MapStep>) -> Seq<Window>
    decreases steps.len(),
{
    if steps.len() == 0 {
        ws
    } else {
        let s = steps.last();
        map_spec(maps_spec(ws, steps.drop_last()), s.id, s.x, s.y, s.activate)
    }
}

pub open spec fn present(ws: Seq<Window>, id: u64) -> bool {
    exists|i: int| 0 <= i < ws.len() && (#[trigger] ws[i]).id == id
}

/// Every window `a` stands before every window `b`.
pub open spec fn before(ws: Seq<Window>, a: u64, b: u64) -> bool {
    forall|i: int, j: int| 0 <= i < ws.len() && 0 <= j < ws.len() && (#[trigger] ws[i]).id == a && (#[trigger] ws[j]).id == b ==> i < j
}

/// Step `k` is the last one that maps `id`.
pub open spec fn last_step(steps: Seq<MapStep>, id: u64, k: int) -> bool {
    &&& 0 <= k < steps.len()
    &&& steps[k].id == id
    &&& forall|m: int| k < m < steps.len() ==> (#[trigger] steps[m]).id != id
}

proof fn lemma_others_absent(ws: Seq<Window>, id: u64, d: bool, b: u64)
    requires
        forall|j: int| 0 <= j < ws.len() ==> (#[trigger] ws[j]).id != b,
    ensures
        forall|i: int| 0 <= i < others_spec(ws, id, d).len() ==> (#[trigger] others_spec(ws, id, d)[i]).id != b,
    decreases ws.len(),
{
    if ws.len() > 0 {
        let init = ws.drop_last();
        assert forall|j: int| 0 <= j < init.len() implies (#[trigger] init[j]).id != b by {
            assert(init[j] == ws[j]);
        }
        lemma_others_absent(init, id, d, b);
        assert(ws[ws.len() - 1] == ws.last());
        let r = others_spec(init, id, d);
        let o = others_spec(ws, id, d);
        assert forall|i: int| 0 <= i < o.len() implies (#[trigger] o[i]).id != b by {
            if i < r.len() {
                assert(o[i] == r[i]);
            }
        }
    }
}

proof fn lemma_others_no_id(ws: Seq<Window>, id: u64, d: bool)
    ensures
        forall|i: int| 0 <= i < others_spec(ws, id, d).len() ==> (#[trigger] others_spec(ws, id, d)[i]).id != id,
    decreases ws.len(),
{
    if ws.len() > 0 {
        lemma_others_no_id(ws.drop_last(), id, d);
        let r = others_spec(ws.drop_last(), id, d);
        let o = others_spec(ws, id, d);
        assert forall|i: int| 0 <= i < o.len() implies (#[trigger] o[i]).id != id by {
            if i < r.len() {
                assert(o[i] == r[i]);
            }
        }
    }
}

proof fn lemma_others_present(ws: Seq<Window>, id: u64, d: bool, a: u64)
    requires
        a != id,
        present(ws, a),
    ensures
        present(others_spec(ws, id, d), a),
    decreases ws.len(),
{
    let init = ws.drop_last();
    let o = others_spec(ws, id, d);
    if ws.last().id == a {
        assert(o[o.len() - 1].id == a);
    } else {
        let i = choose|i: int| 0 <= i < ws.len() && (#[trigger] ws[i]).id == a;
        assert(i < ws.len() - 1);
        assert(init[i] == ws[i]);
        lemma_others_present(init, id, d, a);
        let r = others_spec(init, id, d);
        let k = choose|k: int| 0 <= k < r.len() && (#[trigger] r[k]).id == a;
        assert(o[k] == r[k]);
    }
}

proof fn lemma_others_before(ws: Seq<Window>, id: u64, d: bool, a: u64, b: u64)
    requires
        a != id,
        b != id,
        before(ws, a, b),
    ensures
        before(others_spec(ws, id, d), a, b),
    decreases ws.len(),
{
    if ws.len() > 0 {
        let init = ws.drop_last();
        let n = ws.len() - 1;
        assert forall|i: int, j: int| 0 <= i < init.len() && 0 <= j < init.len() && (#[trigger] init[i]).id == a && (#[trigger] init[j]).id == b implies i < j by {
            assert(init[i] == ws[i] && init[j] == ws[j]);
        }
        lemma_others_before(init, id, d, a, b);
        let r = others_spec(init, id, d);
        let o = others_spec(ws, id, d);
        assert(ws[n] == ws.last());
        if ws.last().id == a {
            assert forall|j: int| 0 <= j < init.len() implies (#[trigger] init[j]).id != b by {
                assert(init[j] == ws[j]);
            }
            lemma_others_absent(init, id, d, b);
        }
        assert forall|i: int, j: int| 0 <= i < o.len() && 0 <= j < o.len() && (#[trigger] o[i]).id == a && (#[trigger] o[j]).id == b implies i < j by {
            if i < r.len() && j < r.len() {
                assert(o[i] == r[i] && o[j] == r[j]);
            } else if i < r.len() {
                assert(o[i] == r[i]);
            } else if j < r.len() {
                assert(o[j] == r[j]);
                assert(o[i].id == ws.last().id);
            } else {
                assert(ws.last().id == a && ws.last().id == b);
                assert(ws[n].id == a && ws[n].id == b);
            }
        }
    }
}

/// A map keeps the order of the windows it does not move and puts the one
/// it moves after all of them.
proof fn lemma_map_step(ws: Seq<Window>, s: MapStep, a: u64, b: u64)
    ensures
        present(map_spec(ws, s.id, s.x, s.y, s.activate), s.id),
        a != s.id && present(ws, a) ==> present(map_spec(ws, s.id, s.x, s.y, s.activate), a),
        a != s.id && present(ws, a) ==> before(map_spec(ws, s.id, s.x, s.y, s.activate), a, s.id),
        a != s.id && b != s.id && before(ws, a, b) ==> before(map_spec(ws, s.id, s.x, s.y, s.activate), a, b),
{
    let o = others_spec(ws, s.id, s.activate);
    let m = map_spec(ws, s.id, s.x, s.y, s.activate);
    crate::space::lemma_find_id(ws, s.id);
    assert(m[m.len() - 1] == mapped_entry(find_spec(ws, s.id), s.id, s.x, s.y, s.activate));
    assert(m[m.len() - 1].id == s.id);
    lemma_others_no_id(ws, s.id, s.activate);
    if a != s.id && present(ws, a) {
        lemma_others_present(ws, s.id, s.activate, a);
        let k = choose|k: int| 0 <= k < o.len() && (#[trigger] o[k]).id == a;
        assert(m[k] == o[k]);
        assert forall|i: int, j: int| 0 <= i < m.len() && 0 <= j < m.len() && (#[trigger] m[i]).id == a && (#[trigger] m[j]).id == s.id implies i < j by {
            if j < o.len() {
                assert(m[j] == o[j]);
            }
        }
    }
    if a != s.id && b != s.id && before(ws, a, b) {
        lemma_others_before(ws, s.id, s.activate, a, b);
        assert forall|i: int, j: int| 0 <= i < m.len() && 0 <= j < m.len() && (#[trigger] m[i]).id == a && (#[trigger] m[j]).id == b implies i < j by {
            assert(i < o.len() && j < o.len());
            assert(m[i] == o[i] && m[j] == o[j]);
        }
    }
}

/// After the step that maps `a`, `a` stays in the space through later steps
/// that map other windows.
proof fn lemma_stays_present(ws: Seq<Window>, steps: Seq<MapStep>, a: u64, j: int)
    requires
        last_step(steps, a, j),
    ensures
        present(maps_spec(ws, steps), a),
    decreases steps.len(),
{
    let init = steps.drop_last();
    let s = steps.last();
    if j == steps.len() - 1 {
        lemma_map_step(maps_spec(ws, init), s, a, a);
    } else {
        assert(steps[steps.len() - 1].id != a);
        assert forall|m: int| j < m < init.len() implies (#[trigger] init[m]).id != a by {
            assert(init[m] == steps[m]);
        }
        assert(init[j] == steps[j]);
        lemma_stays_present(ws, init, a, j);
        lemma_map_step(maps_spec(ws, init), s, a, a);
    }
}

proof fn lemma_absent_no_elements(ws: Seq<Window>, b: u64, output: Rect, scale: u16)
    requires
        forall|j: int| 0 <= j < ws.len() ==> (#[trigger] ws[j]).id != b,
    ensures
        forall|i: int| 0 <= i < elements_spec(ws, output, scale).len() ==> (#[trigger] elements_spec(ws, output, scale)[i]).window != b,
    decreases ws.len(),
{
    if ws.len() > 0 {
        let init = ws.drop_last();
        assert forall|j: int| 0 <= j < init.len() implies (#[trigger] init[j]).id != b by {
            assert(init[j] == ws[j]);
        }
        lemma_absent_no_elements(init, b, output, scale);
        assert(ws[ws.len() - 1] == ws.last());
        let r = elements_spec(init, output, scale);
        let e = elements_spec(ws, output, scale);
        assert forall|i: int| 0 <= i < e.len() implies (#[trigger] e[i]).window != b by {
            if i < r.len() {
                assert(e[i] == r[i]);
            }
        }
    }
}

/// Order of windows carries over to the order of their elements.
proof fn lemma_elements_before(ws: Seq<Window>, a: u64, b: u64, output: Rect, scale: u16)
    requires
        before(ws, a, b),
    ensures
        forall|i: int, j: int| 0 <= i < elements_spec(ws, output, scale).len() && 0 <= j < elements_spec(ws, output, scale).len()
            && (#[trigger] elements_spec(ws, output, scale)[i]).window == a
            && (#[trigger] elements_spec(ws, output, scale)[j]).window == b ==> i < j,
    decreases ws.len(),
{
    if ws.len() > 0 {
        let init = ws.drop_last();
        let n = ws.len() - 1;
        assert forall|i: int, j: int| 0 <= i < init.len() && 0 <= j < init.len() && (#[trigger] init[i]).id == a && (#[trigger] init[j]).id == b implies i < j by {
            assert(init[i] == ws[i] && init[j] == ws[j]);
        }
        lemma_elements_before(init, a, b, output, scale);
        assert(ws[n] == ws.last());
        if ws.last().id == a {
            assert forall|j: int| 0 <= j < init.len() implies (#[trigger] init[j]).id != b by {
                assert(init[j] == ws[j]);
            }
            lemma_absent_no_elements(init, b, output, scale);
        }
        let r = elements_spec(init, output, scale);
        let e = elements_spec(ws, output, scale);
        assert forall|i: int, j: int| 0 <= i < e.len() && 0 <= j < e.len() && (#[trigger] e[i]).window == a && (#[trigger] e[j]).window == b implies i < j by {
            if i < r.len() && j < r.len() {
                assert(e[i] == r[i] && e[j] == r[j]);
            } else if i < r.len() {
                assert(e[i] == r[i]);
            } else if j < r.len() {
                assert(e[j] == r[j]);
            } else {
                assert(ws[n].id == a && ws[n].id == b);
            }
        }
    }
}

/// Paint order over any sequence of maps and raises: where window `b` was
/// last mapped after window `a` was, both stand in the space, every entry of
/// `a` stands before every entry of `b`, and every element of `a` paints
/// before (beneath) every element of `b`.
pub proof fn lemma_paint_order(ws: Seq<Window>, steps: Seq<MapStep>, a: u64, j: int, b: u64, k: int, output: Rect, scale: u16)
    requires
        last_step(steps, a, j),
        last_step(steps, b, k),
        j < k,
    ensures
        present(maps_spec(ws, steps), a),
        present(maps_spec(ws, steps), b),
        before(maps_spec(ws, steps), a, b),
        forall|i1: int, i2: int| 0 <= i1 < elements_spec(maps_spec(ws, steps), output, scale).len()
            && 0 <= i2 < elements_spec(maps_spec(ws, steps), output, scale).len()
            && (#[trigger] elements_spec(maps_spec(ws, steps), output, scale)[i1]).window == a
            && (#[trigger] elements_spec(maps_spec(ws, steps), output, scale)[i2]).window == b ==> i1 < i2,
    decreases steps.len(),
{
    lemma_order_windows(ws, steps, a, j, b, k);
    lemma_stays_present(ws, steps, a, j);
    lemma_stays_present(ws, steps, b, k);
    lemma_elements_before(maps_spec(ws, steps), a, b, output, scale);
}

proof fn lemma_order_windows(ws: Seq<Window>, steps: Seq<MapStep>, a: u64, j: int, b: u64, k: int)
    requires
        last_step(steps, a, j),
        last_step(steps, b, k),
        j < k,
    ensures
        before(maps_spec(ws, steps), a, b),
    decreases steps.len(),
{
    let init = steps.drop_last();
    let s = steps.last();
    assert(steps[k].id == b && steps[j].id == a);
    assert(a != b);
    assert(init[j] == steps[j]);
    if k == steps.len() - 1 {
        assert forall|m: int| j < m < init.len() implies (#[trigger] init[m]).id != a by {
            assert(init[m] == steps[m]);
        }
        lemma_stays_present(ws, init, a, j);
        lemma_map_step(maps_spec(ws, init), s, a, a);
    } else {
        assert(init[k] == steps[k]);
        assert forall|m: int| j < m < init.len() implies (#[trigger] init[m]).id != a by {
            assert(init[m] == steps[m]);
        }
        assert forall|m: int| k < m < init.len() implies (#[trigger] init[m]).id != b by {
            assert(init[m] == steps[m]);
        }
        assert(steps[steps.len() - 1].id != a && steps[steps.len() - 1].id != b);
        lemma_order_windows(ws, init, a, j, b, k);
        lemma_map_step(maps_spec(ws, init), s, a, b);
    }
}

} // verus!

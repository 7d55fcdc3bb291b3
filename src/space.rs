//! The window space: an ordered, positioned collection of windows, each with
//! the buffer it currently shows and the buffer that waits on a fence.
use vstd::prelude::*;
use crate::geometry::{Rect, rects_overlap};

verus! {

/// A client buffer that the renderer has imported, with its size in pixels.
#[derive(Clone, Copy, Debug, PartialEq, Eq, Structural)]
pub struct BufferRef {
    pub id: u64,
    pub w: i32,
    pub h: i32,
}

/// A buffer attached to a surface that may not be used before `fence` signals.
#[derive(Clone, Copy, Debug, PartialEq, Eq, Structural)]
pub struct PendingBuffer {
    pub buffer: BufferRef,
    pub fence: u64,
}

/// A toplevel window as the space places it.
#[derive(Clone, Copy, Debug, PartialEq, Eq)]
pub struct Window {
    pub id: u64,
    pub x: i32,
    pub y: i32,
    pub alive: bool,
    pub activated: bool,
    /// The buffer that compositing reads.
    pub current: Option<BufferRef>,
    /// A newer buffer that waits for its fence.
    pub pending: Option<PendingBuffer>,
}

/// A drawable element: a window's current buffer placed in an output's
/// physical coordinates.
#[derive(Clone, Copy, Debug, PartialEq, Eq, Structural)]
pub struct RenderElement {
    pub window: u64,
    pub buffer: u64,
    pub x: i64,
    pub y: i64,
    pub w: i64,
    pub h: i64,
}

/// The buffers that an update frees, to be handed back to the client: the
/// current buffer it replaced, and a pending buffer it dropped unused.
#[derive(Clone, Copy, Debug, PartialEq, Eq, Structural)]
pub struct Released {
    pub current: Option<u64>,
    pub pending: Option<u64>,
}

/// What an update does to each window with a given identity.
#[derive(Clone, Copy, Debug, PartialEq, Eq)]
pub enum WindowOp {
    Kill,
    Commit(BufferRef, Option<u64>),
    Signal(u64),
}

/// The last window of `ws` with identity `id`.
pub open spec fn find_spec(ws: Seq<Window>, id: u64) -> Option<Window>
    decreases ws.len(),
{
    if ws.len() == 0 {
        None
    } else if ws.last().id == id {
        Some(ws.last())
    } else {
        find_spec(ws.drop_last(), id)
    }
}

pub open spec fn deactivated(w: Window, yes: bool) -> Window {
    if yes {
        Window { activated: false, ..w }
    } else {
        w
    }
}

/// The windows other than `id`, in order, each deactivated when `deact` holds.
pub open spec fn others_spec(ws: Seq<Window>, id: u64, deact: bool) -> Seq<Window>
    decreases ws.len(),
{
    if ws.len() == 0 {
        Seq::empty()
    } else {
        let r = others_spec(ws.drop_last(), id, deact);
        if ws.last().id == id {
            r
        } else {
            r.push(deactivated(ws.last(), deact))
        }
    }
}

/// The window that `map` places on top: the one already there, moved, or a new one.
pub open spec fn mapped_entry(found: Option<Window>, id: u64, x: i32, y: i32, activate: bool) -> Window {
    match found {
        Some(w) => Window { x, y, activated: activate || w.activated, ..w },
        None => Window { id, x, y, alive: true, activated: activate, current: None, pending: None },
    }
}

/// Mapping puts the window last in paint order (on top); activating it
/// deactivates every other window.
pub open spec fn map_spec(ws: Seq<Window>, id: u64, x: i32, y: i32, activate: bool) -> Seq<Window> {
    others_spec(ws, id, activate).push(mapped_entry(find_spec(ws, id), id, x, y, activate))
}

/// The windows whose alive flag holds, in order.
pub open spec fn alive_spec(ws: Seq<Window>) -> Seq<Window>
    decreases ws.len(),
{
    if ws.len() == 0 {
        Seq::empty()
    } else {
        let r = alive_spec(ws.drop_last());
        if ws.last().alive {
            r.push(ws.last())
        } else {
            r
        }
    }
}

/// One window after an update. A dead window takes no buffer; a fence only
/// installs the pending buffer that waits for it.
pub open spec fn apply_op(w: Window, op: WindowOp) -> Window {
    match op {
        WindowOp::Kill => Window { alive: false, ..w },
        WindowOp::Commit(b, fence) => {
            if !w.alive {
                w
            } else {
                match fence {
                    None => Window { current: Some(b), pending: None, ..w },
                    Some(f) => Window { pending: Some(PendingBuffer { buffer: b, fence: f }), ..w },
                }
            }
        },
        WindowOp::Signal(f) => {
            match w.pending {
                Some(p) => if w.alive && p.fence == f {
                    Window { current: Some(p.buffer), pending: None, ..w }
                } else {
                    w
                },
                None => w,
            }
        },
    }
}

/// Every window with identity `id` updated by `op`.
pub open spec fn update_spec(ws: Seq<Window>, id: u64, op: WindowOp) -> Seq<Window> {
    ws.map_values(|w: Window| if w.id == id { apply_op(w, op) } else { w })
}

/// The buffers freed when `op` is applied to `found`: the current buffer once
/// another takes its place, and a pending buffer that a newer commit replaced.
pub open spec fn released_spec(found: Option<Window>, op: WindowOp) -> Released {
    match found {
        Some(w) => {
            let n = apply_op(w, op);
            Released {
                current: if n.current != w.current && w.current is Some {
                    Some(w.current.unwrap().id)
                } else {
                    None
                },
                pending: match w.pending {
                    Some(p) => if n.pending != w.pending && n.current != Some(p.buffer) {
                        Some(p.buffer.id)
                    } else {
                        None
                    },
                    None => None,
                },
            }
        },
        None => Released { current: None, pending: None },
    }
}

/// The window's bounding box in logical coordinates: empty until a buffer is current.
pub open spec fn bbox_spec(w: Window) -> Rect {
    match w.current {
        Some(b) => Rect { x: w.x as i64, y: w.y as i64, w: b.w as i64, h: b.h as i64 },
        None => Rect { x: w.x as i64, y: w.y as i64, w: 0, h: 0 },
    }
}

/// A window contributes an element to an output when it is alive, has a
/// current buffer and overlaps the output.
pub open spec fn visible(w: Window, output: Rect) -> bool {
    w.alive && w.current is Some && rects_overlap(bbox_spec(w), output)
}

/// The element of a window projected into the output's space at `scale`.
pub open spec fn project(w: Window, output: Rect, scale: u16) -> RenderElement {
    let b = w.current.unwrap();
    RenderElement {
        window: w.id,
        buffer: b.id,
        x: ((w.x - output.x) * scale) as i64,
        y: ((w.y - output.y) * scale) as i64,
        w: (b.w * scale) as i64,
        h: (b.h * scale) as i64,
    }
}

/// The elements of the visible windows, in paint order (the last paints on top).
pub open spec fn elements_spec(ws: Seq<Window>, output: Rect, scale: u16) -> Seq<RenderElement>
    decreases ws.len(),
{
    if ws.len() == 0 {
        Seq::empty()
    } else {
        let r = elements_spec(ws.drop_last(), output, scale);
        if visible(ws.last(), output) {
            r.push(project(ws.last(), output, scale))
        } else {
            r
        }
    }
}

/// One window after an update.
pub fn apply(w: Window, op: WindowOp) -> (n: Window)
    ensures
        n == apply_op(w, op),
{
    match op {
        WindowOp::Kill => Window { alive: false, ..w },
        WindowOp::Commit(b, fence) => {
            if !w.alive {
                w
            } else {
                match fence {
                    None => Window { current: Some(b), pending: None, ..w },
                    Some(f) => Window { pending: Some(PendingBuffer { buffer: b, fence: f }), ..w },
                }
            }
        },
        WindowOp::Signal(f) => {
            match w.pending {
                Some(p) => if w.alive && p.fence == f {
                    Window { current: Some(p.buffer), pending: None, ..w }
                } else {
                    w
                },
                None => w,
            }
        },
    }
}

/// The windows of the space, the first painted first.
pub struct WindowSpace {
    windows: Vec<Window>,
}

impl View for WindowSpace {
    type V = Seq<Window>;

    closed spec fn view(&self) -> Seq<Window> {
        self.windows@
    }
}

impl WindowSpace {
    pub fn new() -> (s: WindowSpace)
        ensures
            s@ == Seq::<Window>::empty(),
    {
        WindowSpace { windows: Vec::new() }
    }

    /// The windows in paint order.
    pub fn windows(&self) -> (r: Vec<Window>)
        ensures
            r@ == self@,
    {
        self.windows.clone()
    }

    pub fn len(&self) -> (n: usize)
        ensures
            n == self@.len(),
    {
        self.windows.len()
    }

    /// The last window with identity `id`.
    pub fn find(&self, id: u64) -> (r: Option<Window>)
        ensures
            r == find_spec(self@, id),
    {
        let mut found: Option<Window> = None;
        let mut i: usize = 0;
        while i < self.windows.len()
            invariant
                i <= self@.len(),
                found == find_spec(self@.subrange(0, i as int), id),
            decreases self@.len() - i,
        {
            let w = self.windows[i];
            proof {
                assert(self@.subrange(0, i + 1).drop_last() =~= self@.subrange(0, i as int));
            }
            if w.id == id {
                found = Some(w);
            }
            i = i + 1;
        }
        assert(self@.subrange(0, self@.len() as int) =~= self@);
        found
    }

    /// Places window `id` at `(x, y)` on top of the paint order, adding it if
    /// it is new; with `activate` it becomes the only activated window.
    pub fn map(&mut self, id: u64, x: i32, y: i32, activate: bool)
        ensures
            final(self)@ == map_spec(old(self)@, id, x, y, activate),
    {
        let ghost ws = self@;
        let mut rest: Vec<Window> = Vec::new();
        let mut found: Option<Window> = None;
        let mut i: usize = 0;
        while i < self.windows.len()
            invariant
                self@ == ws,
                i <= ws.len(),
                found == find_spec(ws.subrange(0, i as int), id),
                rest@ == others_spec(ws.subrange(0, i as int), id, activate),
            decreases ws.len() - i,
        {
            let w = self.windows[i];
            proof {
                assert(ws.subrange(0, i + 1).drop_last() =~= ws.subrange(0, i as int));
            }
            if w.id == id {
                found = Some(w);
            } else if activate {
                rest.push(Window { activated: false, ..w });
            } else {
                rest.push(w);
            }
            i = i + 1;
        }
        assert(ws.subrange(0, ws.len() as int) =~= ws);
        let entry = match found {
            Some(w) => Window { x, y, activated: activate || w.activated, ..w },
            None => Window { id, x, y, alive: true, activated: activate, current: None, pending: None },
        };
        rest.push(entry);
        self.windows = rest;
    }

    /// Moves window `id` to the top of the paint order where it stands; does
    /// nothing when there is no such window.
    pub fn raise(&mut self, id: u64, activate: bool)
        ensures
            final(self)@ == (match find_spec(old(self)@, id) {
                Some(w) => map_spec(old(self)@, id, w.x, w.y, activate),
                None => old(self)@,
            }),
    {
        match self.find(id) {
            Some(w) => self.map(id, w.x, w.y, activate),
            None => {},
        }
    }

    /// Applies `op` to every window with identity `id`, and returns the buffer
    /// that stopped being current.
    fn update(&mut self, id: u64, op: WindowOp) -> (r: Released)
        ensures
            final(self)@ == update_spec(old(self)@, id, op),
            r == released_spec(find_spec(old(self)@, id), op),
    {
        let ghost ws = self@;
        let mut found: Option<Window> = None;
        let mut i: usize = 0;
        while i < self.windows.len()
            invariant
                i <= ws.len(),
                self@.len() == ws.len(),
                forall|j: int| 0 <= j < i ==> self@[j] == (if ws[j].id == id { apply_op(ws[j], op) } else { ws[j] }),
                forall|j: int| i <= j < ws.len() ==> self@[j] == ws[j],
                found == find_spec(ws.subrange(0, i as int), id),
            decreases ws.len() - i,
        {
            let w = self.windows[i];
            proof {
                assert(ws.subrange(0, i + 1).drop_last() =~= ws.subrange(0, i as int));
            }
            if w.id == id {
                found = Some(w);
                let n = apply(w, op);
                self.windows.set(i, n);
            }
            i = i + 1;
        }
        assert(ws.subrange(0, ws.len() as int) =~= ws);
        assert(self@ =~= update_spec(ws, id, op));
        match found {
            Some(w) => {
                let n = apply(w, op);
                let current = match w.current {
                    Some(c) => {
                        let changed = match n.current {
                            Some(nc) => nc != c,
                            None => true,
                        };
                        if changed { Some(c.id) } else { None }
                    },
                    None => None,
                };
                let pending = match w.pending {
                    Some(p) => {
                        let dropped = match n.pending {
                            Some(np) => np != p,
                            None => true,
                        };
                        let installed = match n.current {
                            Some(nc) => nc == p.buffer,
                            None => false,
                        };
                        if dropped && !installed { Some(p.buffer.id) } else { None }
                    },
                    None => None,
                };
                Released { current, pending }
            },
            None => Released { current: None, pending: None },
        }
    }

    /// Marks window `id` dead: its surface went away. It stays in the
    /// space, drawing nothing, until the next `refresh`.
    pub fn mark_dead(&mut self, id: u64)
        ensures
            final(self)@ == update_spec(old(self)@, id, WindowOp::Kill),
    {
        self.update(id, WindowOp::Kill);
    }

    /// A buffer attached to window `id`. Without a fence it becomes current at
    /// once; with a fence it waits, and the current buffer stays. The buffers
    /// freed (a replaced current buffer, a replaced pending one) are returned
    /// for release.
    pub fn commit_buffer(&mut self, id: u64, buffer: BufferRef, fence: Option<u64>) -> (released: Released)
        ensures
            final(self)@ == update_spec(old(self)@, id, WindowOp::Commit(buffer, fence)),
            released == released_spec(find_spec(old(self)@, id), WindowOp::Commit(buffer, fence)),
    {
        self.update(id, WindowOp::Commit(buffer, fence))
    }

    /// `fence` signaled: the buffer of window `id` that waited on it becomes
    /// current, and the buffer it replaces is returned for release. A fence of
    /// a dead window, or one that nothing waits on, changes nothing.
    pub fn fence_signaled(&mut self, id: u64, fence: u64) -> (released: Released)
        ensures
            final(self)@ == update_spec(old(self)@, id, WindowOp::Signal(fence)),
            released == released_spec(find_spec(old(self)@, id), WindowOp::Signal(fence)),
    {
        self.update(id, WindowOp::Signal(fence))
    }

    /// Drops the windows that are no longer alive, keeping the order of the rest.
    pub fn refresh(&mut self)
        ensures
            final(self)@ == alive_spec(old(self)@),
    {
        let ghost ws = self@;
        let mut kept: Vec<Window> = Vec::new();
        let mut i: usize = 0;
        while i < self.windows.len()
            invariant
                self@ == ws,
                i <= ws.len(),
                kept@ == alive_spec(ws.subrange(0, i as int)),
            decreases ws.len() - i,
        {
            let w = self.windows[i];
            proof {
                assert(ws.subrange(0, i + 1).drop_last() =~= ws.subrange(0, i as int));
            }
            if w.alive {
                kept.push(w);
            }
            i = i + 1;
        }
        assert(ws.subrange(0, ws.len() as int) =~= ws);
        self.windows = kept;
    }

    /// The drawable elements for `output` at integer `scale`, in paint order.
    /// Reads only the buffers already current.
    pub fn elements_for(&self, output: Rect, scale: u16) -> (r: Vec<RenderElement>)
        requires
            output.origin_fits_i32(),
        ensures
            r@ == elements_spec(self@, output, scale),
    {
        let ws = &self.windows;
        let mut r: Vec<RenderElement> = Vec::new();
        let mut i: usize = 0;
        while i < ws.len()
            invariant
                i <= ws@.len(),
                ws@ == self@,
                output.origin_fits_i32(),
                r@ == elements_spec(ws@.subrange(0, i as int), output, scale),
            decreases ws@.len() - i,
        {
            let w = ws[i];
            proof {
                assert(ws@.subrange(0, i + 1).drop_last() =~= ws@.subrange(0, i as int));
            }
            match w.current {
                Some(b) => {
                    let bbox = Rect { x: w.x as i64, y: w.y as i64, w: b.w as i64, h: b.h as i64 };
                    if w.alive && bbox.overlaps(&output) {
                        let sc = scale as i64;
                        let dx = w.x as i64 - output.x;
                        let dy = w.y as i64 - output.y;
                        assert(-0x1_0000_0000 <= dx <= 0x1_0000_0000);
                        assert(-0x1_0000_0000 <= dy <= 0x1_0000_0000);
                        assert(0 <= sc <= 0xffff);
                        assert(-0x1_0000_0000 * 0xffff <= dx * sc <= 0x1_0000_0000 * 0xffff) by (nonlinear_arith)
                            requires -0x1_0000_0000 <= dx <= 0x1_0000_0000, 0 <= sc <= 0xffff;
                        assert(-0x1_0000_0000 * 0xffff <= dy * sc <= 0x1_0000_0000 * 0xffff) by (nonlinear_arith)
                            requires -0x1_0000_0000 <= dy <= 0x1_0000_0000, 0 <= sc <= 0xffff;
                        assert(-0x8000_0000 * 0xffff <= (b.w as i64) * sc <= 0x8000_0000 * 0xffff) by (nonlinear_arith)
                            requires -0x8000_0000 <= b.w <= 0x8000_0000, 0 <= sc <= 0xffff;
                        assert(-0x8000_0000 * 0xffff <= (b.h as i64) * sc <= 0x8000_0000 * 0xffff) by (nonlinear_arith)
                            requires -0x8000_0000 <= b.h <= 0x8000_0000, 0 <= sc <= 0xffff;
                        r.push(RenderElement {
                            window: w.id,
                            buffer: b.id,
                            x: dx * sc,
                            y: dy * sc,
                            w: b.w as i64 * sc,
                            h: b.h as i64 * sc,
                        });
                    }
                },
                None => {},
            }
            i = i + 1;
        }
        assert(ws@.subrange(0, ws@.len() as int) =~= ws@);
        r
    }
}

/// Paint order: after `map`, the mapped window paints last (on top) when it
/// is visible, and the other windows keep their relative order beneath it.
pub proof fn lemma_map_paints_last(ws: Seq<Window>, id: u64, x: i32, y: i32, activate: bool, output: Rect, scale: u16)
    ensures
        ({
            let entry = mapped_entry(find_spec(ws, id), id, x, y, activate);
            let below = elements_spec(others_spec(ws, id, activate), output, scale);
            let all = elements_spec(map_spec(ws, id, x, y, activate), output, scale);
            &&& visible(entry, output) ==> all == below.push(project(entry, output, scale))
            &&& visible(entry, output) ==> all.last().window == id
            &&& !visible(entry, output) ==> all == below
        }),
{
    let m = map_spec(ws, id, x, y, activate);
    assert(m.drop_last() =~= others_spec(ws, id, activate));
    lemma_find_id(ws, id);
}

/// What `find_spec` returns carries the identity asked for.
pub proof fn lemma_find_id(ws: Seq<Window>, id: u64)
    ensures
        find_spec(ws, id) matches Some(w) ==> w.id == id,
    decreases ws.len(),
{
    if ws.len() > 0 {
        lemma_find_id(ws.drop_last(), id);
    }
}

/// A window with no live entry of identity `id` in `ws` has no element there.
pub proof fn lemma_dead_has_no_elements(ws: Seq<Window>, id: u64, output: Rect, scale: u16)
    requires
        forall|j: int| 0 <= j < ws.len() && ws[j].id == id ==> !ws[j].alive,
    ensures
        forall|i: int| 0 <= i < elements_spec(ws, output, scale).len() ==> elements_spec(ws, output, scale)[i].window != id,
    decreases ws.len(),
{
    if ws.len() > 0 {
        let init = ws.drop_last();
        assert forall|j: int| 0 <= j < init.len() && init[j].id == id implies !init[j].alive by {
            assert(init[j] == ws[j]);
        }
        lemma_dead_has_no_elements(init, id, output, scale);
        let r = elements_spec(init, output, scale);
        let e = elements_spec(ws, output, scale);
        assert(ws.last() == ws[ws.len() - 1]);
        assert forall|i: int| 0 <= i < e.len() implies e[i].window != id by {
            if i < r.len() {
                assert(e[i] == r[i]);
            }
        }
    }
}

/// A window with no live entry of identity `id` in `ws` is gone after a refresh.
pub proof fn lemma_dead_is_pruned(ws: Seq<Window>, id: u64)
    requires
        forall|j: int| 0 <= j < ws.len() && ws[j].id == id ==> !ws[j].alive,
    ensures
        forall|i: int| 0 <= i < alive_spec(ws).len() ==> alive_spec(ws)[i].id != id,
    decreases ws.len(),
{
    if ws.len() > 0 {
        let init = ws.drop_last();
        assert forall|j: int| 0 <= j < init.len() && init[j].id == id implies !init[j].alive by {
            assert(init[j] == ws[j]);
        }
        lemma_dead_is_pruned(init, id);
    }
}

/// Map then unmap: a window mapped and then found dead before any render
/// contributes no element, and the next refresh removes it.
pub proof fn lemma_map_then_kill(ws: Seq<Window>, id: u64, x: i32, y: i32, activate: bool, output: Rect, scale: u16)
    ensures
        ({
            let dead = update_spec(map_spec(ws, id, x, y, activate), id, WindowOp::Kill);
            &&& forall|i: int| 0 <= i < elements_spec(dead, output, scale).len()
                ==> (#[trigger] elements_spec(dead, output, scale)[i]).window != id
            &&& forall|i: int| 0 <= i < alive_spec(dead).len() ==> (#[trigger] alive_spec(dead)[i]).id != id
        }),
{
    let dead = update_spec(map_spec(ws, id, x, y, activate), id, WindowOp::Kill);
    lemma_dead_has_no_elements(dead, id, output, scale);
    lemma_dead_is_pruned(dead, id);
}

/// Refresh with no dead window leaves the space as it is; refreshing twice is
/// refreshing once.
pub proof fn lemma_refresh_idempotent(ws: Seq<Window>)
    ensures
        (forall|j: int| 0 <= j < ws.len() ==> (#[trigger] ws[j]).alive) ==> alive_spec(ws) == ws,
        alive_spec(alive_spec(ws)) == alive_spec(ws),
    decreases ws.len(),
{
    if ws.len() > 0 {
        let init = ws.drop_last();
        lemma_refresh_idempotent(init);
        if forall|j: int| 0 <= j < ws.len() ==> (#[trigger] ws[j]).alive {
            assert forall|j: int| 0 <= j < init.len() implies (#[trigger] init[j]).alive by {
                assert(init[j] == ws[j]);
            }
            assert(ws.last().alive);
            assert(init.push(ws.last()) =~= ws);
        }
        let a = alive_spec(init);
        if ws.last().alive {
            assert(a.push(ws.last()).drop_last() =~= a);
        }
    }
}

/// Fence ordering: attaching a buffer behind a fence changes no element that
/// a composite reads; only the signal of that fence makes it current.
pub proof fn lemma_fenced_commit_hidden(ws: Seq<Window>, id: u64, b: BufferRef, fence: u64, output: Rect, scale: u16)
    ensures
        elements_spec(update_spec(ws, id, WindowOp::Commit(b, Some(fence))), output, scale)
            == elements_spec(ws, output, scale),
        forall|j: int| 0 <= j < ws.len()
            ==> (#[trigger] update_spec(ws, id, WindowOp::Commit(b, Some(fence)))[j]).current == ws[j].current,
        forall|w: Window, g: u64| g != fence && w.pending == Some(PendingBuffer { buffer: b, fence })
            ==> (#[trigger] apply_op(w, WindowOp::Signal(g))).current == w.current,
    decreases ws.len(),
{
    if ws.len() > 0 {
        let u = update_spec(ws, id, WindowOp::Commit(b, Some(fence)));
        assert(u.drop_last() =~= update_spec(ws.drop_last(), id, WindowOp::Commit(b, Some(fence))));
        lemma_fenced_commit_hidden(ws.drop_last(), id, b, fence, output, scale);
    }
}

/// Updating the windows of identity `id` updates the one that `find_spec` sees.
pub proof fn lemma_find_update(ws: Seq<Window>, id: u64, op: WindowOp)
    ensures
        find_spec(update_spec(ws, id, op), id) == (match find_spec(ws, id) {
            Some(w) => Some(apply_op(w, op)),
            None => None::<Window>,
        }),
    decreases ws.len(),
{
    if ws.len() > 0 {
        let u = update_spec(ws, id, op);
        assert(u.drop_last() =~= update_spec(ws.drop_last(), id, op));
        lemma_find_update(ws.drop_last(), id, op);
    }
}

/// Buffer readiness of a live surface: an unfenced buffer becomes current at
/// its commit. A fenced one waits as pending while the current buffer stays;
/// a signal of any other fence changes nothing, and the signal of its own
/// fence makes it current.
pub proof fn lemma_commit_then_signal(ws: Seq<Window>, id: u64, b: BufferRef, fence: Option<u64>)
    requires
        find_spec(ws, id) matches Some(w) && w.alive,
    ensures
        ({
            let w = find_spec(ws, id).unwrap();
            let c = update_spec(ws, id, WindowOp::Commit(b, fence));
            &&& fence is None ==> find_spec(c, id) == Some(Window { current: Some(b), pending: None, ..w })
            &&& fence matches Some(f) ==> {
                &&& find_spec(c, id) == Some(Window { pending: Some(PendingBuffer { buffer: b, fence: f }), ..w })
                &&& forall|g: u64| g != f ==> #[trigger] find_spec(update_spec(c, id, WindowOp::Signal(g)), id) == find_spec(c, id)
                &&& find_spec(update_spec(c, id, WindowOp::Signal(f)), id) == Some(Window { current: Some(b), pending: None, ..w })
            }
        }),
{
    let c = update_spec(ws, id, WindowOp::Commit(b, fence));
    lemma_find_update(ws, id, WindowOp::Commit(b, fence));
    if let Some(f) = fence {
        assert forall|g: u64| g != f implies #[trigger] find_spec(update_spec(c, id, WindowOp::Signal(g)), id) == find_spec(c, id) by {
            lemma_find_update(c, id, WindowOp::Signal(g));
        }
        lemma_find_update(c, id, WindowOp::Signal(f));
    }
}

} // verus!

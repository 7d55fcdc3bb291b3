//! The compositor core that one event loop owns: the output, the window
//! space, the damage history and the decisions of the render path.
use vstd::prelude::*;
use crate::damage::{DamageTracker, frame_damage, frame_damage_spec, pushed_spec, repaint_spec};
use crate::geometry::Rect;
use crate::import::{BufferDesc, FormatCaps, ImportError, import_spec};
use crate::space::{
    BufferRef, RenderElement, Window, WindowOp, WindowSpace, elements_spec, find_spec, map_spec,
    others_spec, project, visible, Released, released_spec, update_spec, alive_spec,
};

verus! {

/// Refresh rate of the output, in millihertz.
pub const REFRESH_MHZ: i32 = 60_000;
/// Size that a new toplevel is configured with.
pub const TOPLEVEL_W: i32 = 800;
pub const TOPLEVEL_H: i32 = 600;
/// Bounds that a new toplevel is configured with.
pub const BOUNDS_W: i32 = 800;
pub const BOUNDS_H: i32 = 800;
/// Where a new toplevel is placed.
pub const PLACE_X: i32 = 10;
pub const PLACE_Y: i32 = 100;

/// A pixel size with a refresh rate in millihertz.
#[derive(Clone, Copy, Debug, PartialEq, Eq, Structural)]
pub struct Mode {
    pub w: i32,
    pub h: i32,
    pub refresh: i32,
}

/// The mode of an output of the given size.
pub open spec fn mode_of(w: i32, h: i32) -> Mode {
    Mode { w, h, refresh: REFRESH_MHZ }
}

/// A presentation target: its current and preferred mode and its place in
/// the global space.
#[derive(Clone, Copy, Debug, PartialEq, Eq, Structural)]
pub struct Output {
    pub mode: Mode,
    pub preferred: Mode,
    pub x: i32,
    pub y: i32,
}

impl Output {
    /// The output's rectangle in the global space.
    pub open spec fn rect_spec(self) -> Rect {
        Rect { x: self.x as i64, y: self.y as i64, w: self.mode.w as i64, h: self.mode.h as i64 }
    }

    pub fn rect(&self) -> (r: Rect)
        ensures
            r == self.rect_spec(),
            r.origin_fits_i32(),
    {
        Rect { x: self.x as i64, y: self.y as i64, w: self.mode.w as i64, h: self.mode.h as i64 }
    }
}

/// The first configure of a new toplevel: its size and its bounds.
#[derive(Clone, Copy, Debug, PartialEq, Eq, Structural)]
pub struct Configure {
    pub w: i32,
    pub h: i32,
    pub bounds_w: i32,
    pub bounds_h: i32,
}

/// What an output backend reports.
#[derive(Clone, Copy, Debug, PartialEq, Eq, Structural)]
pub enum BackendEvent {
    Resize(i32, i32),
    CloseRequested,
    /// The backend has a free slot: a frame may be rendered.
    FrameAvailable,
    InputPassthrough,
    FocusChanged(bool),
}

#[derive(Clone, Copy, Debug, PartialEq, Eq, Structural)]
pub enum LoopPhase {
    Running,
    Stopping,
    Stopped,
}

/// Why a frame was not shown.
#[derive(Clone, Copy, Debug, PartialEq, Eq, Structural)]
pub enum FrameFailure {
    AcquireFailed,
    BindFailed,
    CompositeFailed,
    PresentFailed,
    /// The output went away; the loop stops.
    OutputGone,
}

/// A frame to render: the buffer age to draw at, the size of the target, the
/// elements in paint order, the frame's own damage and the region to repaint.
#[derive(Clone, Debug, PartialEq, Eq)]
pub struct FramePlan {
    pub age: usize,
    pub target: Mode,
    pub elements: Vec<RenderElement>,
    pub damage: Vec<Rect>,
    pub repaint: Vec<Rect>,
}

/// What a backend tells the core about itself.
pub trait BackendDataExt {
    fn seat_name(&self) -> Option<String>;
}

/// The state of the compositor core.
pub struct Compositor {
    pub output: Output,
    pub space: WindowSpace,
    pub tracker: DamageTracker,
    pub caps: FormatCaps,
    pub phase: LoopPhase,
    /// A frame is to be rendered at the next turn of the loop.
    pub render_pending: bool,
    /// The next frame is drawn at age 0: buffer history was discarded.
    pub full_redraw: bool,
    /// The elements of the last frame presented.
    pub last_elements: Vec<RenderElement>,
    /// Frames lost in a row.
    pub failures: u64,
}

/// The age at which the next frame is drawn, given what the backend reports.
pub open spec fn frame_age(full_redraw: bool, reported: usize) -> usize {
    if full_redraw { 0 } else { reported }
}

impl Compositor {
    pub open spec fn wf(&self) -> bool {
        &&& self.tracker.wf()
        &&& self.tracker.output_spec() == Rect::from_size_spec(self.output.mode.w as i64, self.output.mode.h as i64)
    }

    /// A running core for an output of the given size at the origin, with no
    /// window, and a full first frame pending.
    pub fn new(w: i32, h: i32, caps: FormatCaps) -> (c: Compositor)
        ensures
            c.wf(),
            c.output == (Output { mode: mode_of(w, h), preferred: mode_of(w, h), x: 0, y: 0 }),
            c.space@ == Seq::<Window>::empty(),
            c.tracker.frames() == Seq::<Seq<Rect>>::empty(),
            c.caps == caps,
            c.phase == LoopPhase::Running,
            c.render_pending,
            c.full_redraw,
            c.last_elements@ == Seq::<RenderElement>::empty(),
            c.failures == 0,
    {
        let mode = Mode { w, h, refresh: REFRESH_MHZ };
        Compositor {
            output: Output { mode, preferred: mode, x: 0, y: 0 },
            space: WindowSpace::new(),
            tracker: DamageTracker::new(w as i64, h as i64),
            caps,
            phase: LoopPhase::Running,
            render_pending: true,
            full_redraw: true,
            last_elements: Vec::new(),
            failures: 0,
        }
    }

    pub fn is_running(&self) -> (b: bool)
        ensures
            b == (self.phase == LoopPhase::Running),
    {
        self.phase == LoopPhase::Running
    }

    /// A client asked for a new toplevel `id`: it is mapped activated on top
    /// at the default place, and the configure to send first is returned.
    pub fn new_toplevel(&mut self, id: u64) -> (c: Configure)
        ensures
            c == (Configure { w: TOPLEVEL_W, h: TOPLEVEL_H, bounds_w: BOUNDS_W, bounds_h: BOUNDS_H }),
            final(self).space@ == map_spec(old(self).space@, id, PLACE_X, PLACE_Y, true),
            final(self).output == old(self).output,
            final(self).tracker == old(self).tracker,
            final(self).phase == old(self).phase,
            final(self).render_pending == old(self).render_pending,
            final(self).full_redraw == old(self).full_redraw,
            final(self).last_elements == old(self).last_elements,
    {
        self.space.map(id, PLACE_X, PLACE_Y, true);
        Configure { w: TOPLEVEL_W, h: TOPLEVEL_H, bounds_w: BOUNDS_W, bounds_h: BOUNDS_H }
    }

    /// A client committed buffer `desc`, to be known as `buffer_id`, on surface
    /// `id`. A buffer that cannot be imported is rejected and the surface keeps
    /// its buffer; otherwise it becomes current, or waits on its fence. On
    /// success the buffer that stopped being current is returned for release.
    pub fn surface_committed(&mut self, id: u64, desc: &BufferDesc, buffer_id: u64) -> (r: Result<Released, ImportError>)
        ensures
            match import_spec(*desc, old(self).caps, buffer_id) {
                Ok(b) => {
                    &&& r == Ok::<Released, ImportError>(released_spec(find_spec(old(self).space@, id), WindowOp::Commit(b, desc.fence)))
                    &&& final(self).space@ == update_spec(old(self).space@, id, WindowOp::Commit(b, desc.fence))
                },
                Err(e) => {
                    &&& r == Err::<Released, ImportError>(e)
                    &&& final(self).space@ == old(self).space@
                },
            },
            final(self).output == old(self).output,
            final(self).tracker == old(self).tracker,
            final(self).caps == old(self).caps,
            final(self).phase == old(self).phase,
            final(self).render_pending == old(self).render_pending,
            final(self).full_redraw == old(self).full_redraw,
    {
        match self.caps.import(desc, buffer_id) {
            Ok(b) => Ok(self.space.commit_buffer(id, b, desc.fence)),
            Err(e) => Err(e),
        }
    }

    /// The fence of surface `id` signaled; see `WindowSpace::fence_signaled`.
    pub fn fence_signaled(&mut self, id: u64, fence: u64) -> (released: Released)
        ensures
            final(self).space@ == update_spec(old(self).space@, id, WindowOp::Signal(fence)),
            released == released_spec(find_spec(old(self).space@, id), WindowOp::Signal(fence)),
            final(self).output == old(self).output,
            final(self).tracker == old(self).tracker,
            final(self).phase == old(self).phase,
            final(self).render_pending == old(self).render_pending,
            final(self).full_redraw == old(self).full_redraw,
    {
        self.space.fence_signaled(id, fence)
    }

    /// Surface `id` was destroyed: its window is dead from now on.
    pub fn surface_destroyed(&mut self, id: u64)
        ensures
            final(self).space@ == update_spec(old(self).space@, id, WindowOp::Kill),
            final(self).output == old(self).output,
            final(self).tracker == old(self).tracker,
            final(self).phase == old(self).phase,
            final(self).render_pending == old(self).render_pending,
            final(self).full_redraw == old(self).full_redraw,
    {
        self.space.mark_dead(id);
    }

    /// Takes in one backend event. A resize sets the output's mode, discards
    /// the damage history and asks for a full redraw; a close request stops
    /// the loop; a free frame slot asks for a render.
    pub fn handle_event(&mut self, ev: BackendEvent)
        requires
            old(self).wf(),
        ensures
            final(self).wf(),
            final(self).space@ == old(self).space@,
            final(self).last_elements == old(self).last_elements,
            match ev {
                BackendEvent::Resize(w, h) => {
                    &&& final(self).output == (Output { mode: mode_of(w, h), preferred: mode_of(w, h), ..old(self).output })
                    &&& final(self).tracker.frames() == Seq::<Seq<Rect>>::empty()
                    &&& final(self).full_redraw
                    &&& final(self).render_pending
                    &&& final(self).phase == old(self).phase
                },
                BackendEvent::CloseRequested => {
                    &&& final(self).phase == (if old(self).phase == LoopPhase::Running { LoopPhase::Stopping } else { old(self).phase })
                    &&& final(self).output == old(self).output
                    &&& final(self).tracker == old(self).tracker
                    &&& final(self).render_pending == old(self).render_pending
                    &&& final(self).full_redraw == old(self).full_redraw
                },
                BackendEvent::FrameAvailable => {
                    &&& final(self).render_pending
                    &&& final(self).phase == old(self).phase
                    &&& final(self).output == old(self).output
                    &&& final(self).tracker == old(self).tracker
                    &&& final(self).full_redraw == old(self).full_redraw
                },
                _ => {
                    &&& final(self).phase == old(self).phase
                    &&& final(self).output == old(self).output
                    &&& final(self).tracker == old(self).tracker
                    &&& final(self).render_pending == old(self).render_pending
                    &&& final(self).full_redraw == old(self).full_redraw
                },
            },
    {
        match ev {
            BackendEvent::Resize(w, h) => {
                let mode = Mode { w, h, refresh: REFRESH_MHZ };
                self.output.mode = mode;
                self.output.preferred = mode;
                self.tracker.resize(w as i64, h as i64);
                self.full_redraw = true;
                self.render_pending = true;
            },
            BackendEvent::CloseRequested => {
                if self.phase == LoopPhase::Running {
                    self.phase = LoopPhase::Stopping;
                }
            },
            BackendEvent::FrameAvailable => {
                self.render_pending = true;
            },
            BackendEvent::InputPassthrough => {},
            BackendEvent::FocusChanged(_) => {},
        }
    }

    /// The event sources were dispatched once. A dispatch error stops the
    /// loop; otherwise dead windows are pruned from the space.
    pub fn dispatch_finished(&mut self, ok: bool)
        ensures
            ok ==> final(self).space@ == alive_spec(old(self).space@),
            ok ==> final(self).phase == old(self).phase,
            !ok ==> final(self).space@ == old(self).space@,
            !ok ==> final(self).phase == (if old(self).phase == LoopPhase::Running { LoopPhase::Stopping } else { old(self).phase }),
            final(self).output == old(self).output,
            final(self).tracker == old(self).tracker,
            final(self).render_pending == old(self).render_pending,
            final(self).full_redraw == old(self).full_redraw,
            final(self).last_elements == old(self).last_elements,
    {
        if ok {
            self.space.refresh();
        } else if self.phase == LoopPhase::Running {
            self.phase = LoopPhase::Stopping;
        }
    }

    /// Every event source has been drained: a stopping loop has stopped.
    pub fn sources_drained(&mut self)
        ensures
            final(self).phase == (if old(self).phase == LoopPhase::Stopping { LoopPhase::Stopped } else { old(self).phase }),
            final(self).space@ == old(self).space@,
            final(self).output == old(self).output,
            final(self).tracker == old(self).tracker,
            final(self).render_pending == old(self).render_pending,
            final(self).full_redraw == old(self).full_redraw,
    {
        if self.phase == LoopPhase::Stopping {
            self.phase = LoopPhase::Stopped;
        }
    }

    /// The frame to render now, if one is pending and the loop runs, given the
    /// age that the backend reports for its target buffer.
    pub fn plan_frame(&self, reported_age: usize) -> (r: Option<FramePlan>)
        requires
            self.wf(),
        ensures
            r is None <==> !(self.phase == LoopPhase::Running && self.render_pending),
            r matches Some(p) ==> {
                let age = frame_age(self.full_redraw, reported_age);
                &&& p.age == age
                &&& p.target == self.output.mode
                &&& p.elements@ == elements_spec(self.space@, self.output.rect_spec(), 1)
                &&& p.damage@ == frame_damage_spec(self.last_elements@, p.elements@)
                &&& p.repaint@ == repaint_spec(self.tracker.output_spec(), self.tracker.frames(), age as int, p.damage@)
            },
    {
        if self.phase != LoopPhase::Running || !self.render_pending {
            return None;
        }
        let age = if self.full_redraw { 0 } else { reported_age };
        let elements = self.space.elements_for(self.output.rect(), 1);
        let damage = frame_damage(&self.last_elements, &elements);
        let repaint = self.tracker.repaint_region(age, &damage);
        Some(FramePlan { age, target: self.output.mode, elements, damage, repaint })
    }

    /// Whether a frame is to be rendered now: the loop runs and one is pending.
    pub fn wants_frame(&self) -> (b: bool)
        ensures
            b == (self.phase == LoopPhase::Running && self.render_pending),
    {
        self.phase == LoopPhase::Running && self.render_pending
    }

    /// The planned frame was presented: its damage enters the history, the
    /// pending render is cleared and the failure count starts over.
    pub fn frame_presented(&mut self, plan: FramePlan)
        requires
            old(self).wf(),
        ensures
            final(self).wf(),
            final(self).tracker.frames() == pushed_spec(old(self).tracker.frames(), plan.damage@),
            final(self).tracker.output_spec() == old(self).tracker.output_spec(),
            final(self).last_elements@ == plan.elements@,
            !final(self).render_pending,
            !final(self).full_redraw,
            final(self).failures == 0,
            final(self).phase == old(self).phase,
            final(self).space@ == old(self).space@,
            final(self).output == old(self).output,
    {
        self.tracker.push_frame(plan.damage);
        self.last_elements = plan.elements;
        self.render_pending = false;
        self.full_redraw = false;
        self.failures = 0;
    }

    /// A frame was lost. The loss of the output stops the loop. Any other
    /// failure discards the damage history and forces the next frame to age
    /// 0; the render is no longer pending, so the retry waits for the backend
    /// to report a free slot.
    pub fn frame_failed(&mut self, failure: FrameFailure)
        requires
            old(self).wf(),
        ensures
            final(self).wf(),
            final(self).space@ == old(self).space@,
            final(self).output == old(self).output,
            final(self).last_elements == old(self).last_elements,
            failure == FrameFailure::OutputGone ==> {
                &&& final(self).render_pending == old(self).render_pending
                &&& final(self).phase == (if old(self).phase == LoopPhase::Running { LoopPhase::Stopping } else { old(self).phase })
                &&& final(self).tracker == old(self).tracker
                &&& final(self).full_redraw == old(self).full_redraw
                &&& final(self).failures == old(self).failures
            },
            failure != FrameFailure::OutputGone ==> {
                &&& final(self).tracker.frames() == Seq::<Seq<Rect>>::empty()
                &&& final(self).tracker.output_spec() == old(self).tracker.output_spec()
                &&& final(self).full_redraw
                &&& !final(self).render_pending
                &&& final(self).failures == (if old(self).failures == u64::MAX { u64::MAX } else { (old(self).failures + 1) as u64 })
                &&& final(self).phase == old(self).phase
            },
    {
        if failure == FrameFailure::OutputGone {
            if self.phase == LoopPhase::Running {
                self.phase = LoopPhase::Stopping;
            }
        } else {
            self.tracker.reset();
            self.full_redraw = true;
            self.render_pending = false;
            self.failures = self.failures.saturating_add(1);
        }
    }
}

/// The first frame of a new toplevel: once its first buffer, with no fence,
/// is committed on an otherwise empty space, the window paints one element,
/// that buffer at the default place, on an output at the origin that reaches
/// past that place; and a frame drawn at age 0 repaints the whole output.
pub proof fn lemma_first_toplevel_frame(id: u64, b: BufferRef, output: Output, frames: Seq<Seq<Rect>>, damage: Seq<Rect>)
    requires
        b.w > 0,
        b.h > 0,
        output.x == 0,
        output.y == 0,
        output.mode.w > PLACE_X,
        output.mode.h > PLACE_Y,
    ensures
        elements_spec(
            update_spec(map_spec(Seq::<Window>::empty(), id, PLACE_X, PLACE_Y, true), id, WindowOp::Commit(b, None)),
            output.rect_spec(),
            1,
        ) == seq![RenderElement { window: id, buffer: b.id, x: PLACE_X as i64, y: PLACE_Y as i64, w: b.w as i64, h: b.h as i64 }],
        repaint_spec(output.rect_spec(), frames, 0, damage) == seq![output.rect_spec()],
{
    let empty = Seq::<Window>::empty();
    let m = map_spec(empty, id, PLACE_X, PLACE_Y, true);
    assert(others_spec(empty, id, true) =~= empty);
    let w = Window { id, x: PLACE_X, y: PLACE_Y, alive: true, activated: true, current: None, pending: None };
    assert(m =~= seq![w]);
    let u = update_spec(m, id, WindowOp::Commit(b, None));
    let w2 = Window { current: Some(b), pending: None, ..w };
    assert(u =~= seq![w2]);
    assert(u.drop_last() =~= empty);
    assert(visible(w2, output.rect_spec()));
    reveal_with_fuel(elements_spec, 2);
    assert(elements_spec(u, output.rect_spec(), 1) =~= seq![project(w2, output.rect_spec(), 1)]);
}

} // verus!

use composto::compositor::{
    BackendEvent, Compositor, Configure, FrameFailure, LoopPhase, Mode,
};
use composto::damage::{frame_damage, DamageTracker};
use composto::focus::CompostorFocus;
use composto::geometry::Rect;
use composto::import::{probe_sync, BufferDesc, Format, FormatCaps, ImportError, Plane};
use composto::space::{BufferRef, Released, RenderElement, WindowSpace};

const XRGB: Format = Format { code: 0x3432_5258, modifier: 0 };

fn caps() -> FormatCaps {
    FormatCaps::new(vec![XRGB], 7, vec![9])
}

fn desc(w: i32, h: i32, fence: Option<u64>) -> BufferDesc {
    BufferDesc {
        format: XRGB,
        device: 7,
        width: w,
        height: h,
        planes: vec![Plane { offset: 0, stride: (w as u32) * 4 }],
        fence,
    }
}

const NONE: Released = Released { current: None, pending: None };

fn freed(current: Option<u64>, pending: Option<u64>) -> Released {
    Released { current, pending }
}

fn buf(id: u64, w: i32, h: i32) -> BufferRef {
    BufferRef { id, w, h }
}

#[test]
fn client_buffer_composited_at_default_place() {
    let mut c = Compositor::new(1280, 800, caps());
    let conf = c.new_toplevel(1);
    assert_eq!(conf, Configure { w: 800, h: 600, bounds_w: 800, bounds_h: 800 });
    assert_eq!(c.surface_committed(1, &desc(800, 600, None), 100), Ok(NONE));
    let plan = c.plan_frame(2).expect("a first frame is pending");
    assert_eq!(plan.age, 0);
    assert_eq!(
        plan.elements,
        vec![RenderElement { window: 1, buffer: 100, x: 10, y: 100, w: 800, h: 600 }]
    );
    assert_eq!(plan.repaint, vec![Rect::new(0, 0, 1280, 800)]);
    assert_eq!(plan.damage, vec![Rect::new(10, 100, 800, 600)]);
}

#[test]
fn resize_updates_mode_and_target() {
    let mut c = Compositor::new(1280, 800, caps());
    let plan = c.plan_frame(0).unwrap();
    c.frame_presented(plan);
    c.handle_event(BackendEvent::Resize(1024, 768));
    let mode = Mode { w: 1024, h: 768, refresh: 60000 };
    assert_eq!(c.output.mode, mode);
    assert_eq!(c.output.preferred, mode);
    let plan = c.plan_frame(1).unwrap();
    assert_eq!(plan.target, mode);
    assert!(plan.target.w <= 1280 && plan.target.h <= 800);
    assert_eq!(plan.age, 0);
    assert_eq!(plan.repaint, vec![Rect::new(0, 0, 1024, 768)]);
}

#[test]
fn failed_present_forces_age_zero() {
    let mut c = Compositor::new(640, 480, caps());
    c.new_toplevel(3);
    c.surface_committed(3, &desc(100, 100, None), 30).unwrap();
    let plan = c.plan_frame(0).unwrap();
    c.frame_presented(plan);
    assert_eq!(c.tracker.history_len(), 1);
    c.handle_event(BackendEvent::FrameAvailable);
    let plan = c.plan_frame(1).unwrap();
    assert_eq!(plan.age, 1);
    c.frame_failed(FrameFailure::PresentFailed);
    assert_eq!(c.tracker.history_len(), 0);
    assert!(c.full_redraw);
    assert_eq!(c.failures, 1);
    assert!(!c.render_pending);
    assert!(c.plan_frame(1).is_none());
    c.handle_event(BackendEvent::FrameAvailable);
    let plan = c.plan_frame(1).unwrap();
    assert_eq!(plan.age, 0);
    assert_eq!(plan.repaint, vec![Rect::new(0, 0, 640, 480)]);
    c.frame_presented(plan);
    assert_eq!(c.failures, 0);
    assert!(!c.full_redraw);
    assert!(!c.render_pending);
    assert!(c.plan_frame(1).is_none());
}

#[test]
fn fenced_buffer_waits_for_its_fence() {
    let mut c = Compositor::new(1280, 800, caps());
    c.new_toplevel(1);
    c.surface_committed(1, &desc(200, 100, None), 10).unwrap();
    assert_eq!(c.surface_committed(1, &desc(300, 100, Some(55)), 11), Ok(NONE));
    let plan = c.plan_frame(0).unwrap();
    assert_eq!(plan.elements[0].buffer, 10);
    assert_eq!(c.fence_signaled(1, 54), NONE);
    assert_eq!(c.plan_frame(0).unwrap().elements[0].buffer, 10);
    assert_eq!(c.fence_signaled(1, 55), freed(Some(10), None));
    let plan = c.plan_frame(0).unwrap();
    assert_eq!(plan.elements[0].buffer, 11);
    assert_eq!(plan.elements[0].w, 300);
}

#[test]
fn late_fence_of_dead_surface_is_ignored() {
    let mut c = Compositor::new(1280, 800, caps());
    c.new_toplevel(1);
    c.surface_committed(1, &desc(200, 100, Some(5)), 10).unwrap();
    c.surface_destroyed(1);
    assert_eq!(c.fence_signaled(1, 5), NONE);
    assert_eq!(c.space.find(1).unwrap().current, None);
}

#[test]
fn last_raised_paints_on_top() {
    let mut s = WindowSpace::new();
    for id in 1..=3u64 {
        s.map(id, (id as i32) * 10, 0, true);
        s.commit_buffer(id, buf(id * 100, 50, 50), None);
    }
    let out = Rect::new(0, 0, 500, 500);
    let order: Vec<u64> = s.elements_for(out, 1).iter().map(|e| e.window).collect();
    assert_eq!(order, vec![1, 2, 3]);
    s.raise(1, true);
    let order: Vec<u64> = s.elements_for(out, 1).iter().map(|e| e.window).collect();
    assert_eq!(order, vec![2, 3, 1]);
    let ws = s.windows();
    assert_eq!(ws.iter().filter(|w| w.activated).count(), 1);
    assert!(ws[2].activated && ws[2].id == 1);
    s.map(2, 0, 0, false);
    let order: Vec<u64> = s.elements_for(out, 1).iter().map(|e| e.window).collect();
    assert_eq!(order, vec![3, 1, 2]);
    s.raise(99, true);
    assert_eq!(s.len(), 3);
}

#[test]
fn refresh_without_dead_windows_changes_nothing() {
    let mut s = WindowSpace::new();
    s.map(1, 0, 0, false);
    s.map(2, 5, 5, true);
    let before = s.windows();
    s.refresh();
    assert_eq!(s.windows(), before);
    s.refresh();
    assert_eq!(s.windows(), before);
}

#[test]
fn mapped_then_dead_window_is_pruned() {
    let mut s = WindowSpace::new();
    s.map(1, 0, 0, true);
    s.commit_buffer(1, buf(9, 40, 40), None);
    s.map(2, 0, 0, true);
    s.commit_buffer(2, buf(8, 40, 40), None);
    s.mark_dead(2);
    let els = s.elements_for(Rect::new(0, 0, 100, 100), 1);
    assert_eq!(els.len(), 1);
    assert_eq!(els[0].window, 1);
    s.refresh();
    assert_eq!(s.len(), 1);
    assert!(s.find(2).is_none());
}

#[test]
fn window_without_buffer_or_off_output_draws_nothing() {
    let mut s = WindowSpace::new();
    s.map(1, 0, 0, false);
    assert!(s.elements_for(Rect::new(0, 0, 100, 100), 1).is_empty());
    s.commit_buffer(1, buf(1, 10, 10), None);
    s.map(1, 200, 200, false);
    assert!(s.elements_for(Rect::new(0, 0, 100, 100), 1).is_empty());
}

#[test]
fn elements_are_projected_and_scaled() {
    let mut s = WindowSpace::new();
    s.map(4, 30, 40, false);
    s.commit_buffer(4, buf(7, 100, 50), None);
    let els = s.elements_for(Rect::new(10, 20, 400, 400), 2);
    assert_eq!(els, vec![RenderElement { window: 4, buffer: 7, x: 40, y: 40, w: 200, h: 100 }]);
}

#[test]
fn repaint_covers_recent_damage() {
    let mut t = DamageTracker::new(1000, 1000);
    let a = Rect::new(0, 0, 10, 10);
    let b = Rect::new(50, 50, 5, 5);
    let c = Rect::new(90, 0, 3, 3);
    t.push_frame(vec![a]);
    t.push_frame(vec![b]);
    t.push_frame(vec![c]);
    let d = Rect::new(1, 2, 3, 4);
    assert_eq!(t.repaint_region(2, &vec![d]), vec![d, c, b]);
    assert_eq!(t.repaint_region(3, &vec![d]), vec![d, c, b, a]);
    assert_eq!(t.repaint_region(0, &vec![d]), vec![Rect::new(0, 0, 1000, 1000)]);
    assert_eq!(t.repaint_region(4, &vec![d]), vec![Rect::new(0, 0, 1000, 1000)]);
}

#[test]
fn damage_history_is_bounded() {
    let mut t = DamageTracker::new(10, 10);
    for i in 0..6i64 {
        t.push_frame(vec![Rect::new(i, 0, 1, 1)]);
    }
    assert_eq!(t.history_len(), 4);
    assert_eq!(t.repaint_region(1, &vec![]), vec![Rect::new(5, 0, 1, 1)]);
    t.resize(20, 20);
    assert_eq!(t.history_len(), 0);
    assert_eq!(t.output(), Rect::new(0, 0, 20, 20));
}

#[test]
fn frame_damage_marks_changed_elements() {
    let e1 = RenderElement { window: 1, buffer: 1, x: 0, y: 0, w: 10, h: 10 };
    let e2 = RenderElement { window: 2, buffer: 2, x: 20, y: 0, w: 10, h: 10 };
    let e2b = RenderElement { buffer: 3, ..e2 };
    assert_eq!(frame_damage(&vec![e1, e2], &vec![e1, e2]), vec![]);
    assert_eq!(
        frame_damage(&vec![e1, e2], &vec![e2b]),
        vec![Rect::new(20, 0, 10, 10), Rect::new(0, 0, 10, 10), Rect::new(20, 0, 10, 10)]
    );
    let r1 = Rect::new(0, 0, 10, 10);
    let r2 = Rect::new(20, 0, 10, 10);
    assert_eq!(frame_damage(&vec![e1, e2], &vec![e2, e1]), vec![r2, r1, r1, r2]);
    assert_eq!(frame_damage(&vec![e1], &vec![e1, e2]), vec![r2]);
}

#[test]
fn import_errors() {
    let c = caps();
    assert_eq!(c.import(&desc(10, 10, None), 1), Ok(buf(1, 10, 10)));
    let mut d = desc(10, 10, None);
    d.planes.clear();
    assert_eq!(c.import(&d, 1), Err(ImportError::Invalid));
    let mut d = desc(10, 10, None);
    d.planes[0].stride = 0;
    assert_eq!(c.import(&d, 1), Err(ImportError::Invalid));
    assert_eq!(c.import(&desc(0, 10, None), 1), Err(ImportError::Invalid));
    let mut d = desc(10, 10, None);
    d.planes = vec![Plane { offset: 0, stride: 4 }; 5];
    assert_eq!(c.import(&d, 1), Err(ImportError::Invalid));
    let mut d = desc(10, 10, None);
    d.format.modifier = 3;
    assert_eq!(c.import(&d, 1), Err(ImportError::UnsupportedFormat));
    let mut d = desc(10, 10, None);
    d.device = 8;
    assert_eq!(c.import(&d, 1), Err(ImportError::DeviceMismatch));
    d.device = 9;
    assert_eq!(c.import(&d, 1), Ok(buf(1, 10, 10)));
    assert_eq!(probe_sync(&desc(1, 1, Some(4))), Some(4));
}

#[test]
fn rejected_commit_keeps_current_buffer() {
    let mut c = Compositor::new(100, 100, caps());
    c.new_toplevel(1);
    c.surface_committed(1, &desc(10, 10, None), 1).unwrap();
    let mut d = desc(10, 10, None);
    d.device = 2;
    assert_eq!(c.surface_committed(1, &d, 2), Err(ImportError::DeviceMismatch));
    assert_eq!(c.space.find(1).unwrap().current, Some(buf(1, 10, 10)));
    assert_eq!(c.surface_committed(1, &desc(20, 20, None), 3), Ok(freed(Some(1), None)));
    assert_eq!(c.surface_committed(1, &desc(20, 20, Some(8)), 4), Ok(NONE));
    assert_eq!(c.surface_committed(1, &desc(20, 20, Some(9)), 5), Ok(freed(None, Some(4))));
    assert_eq!(c.surface_committed(1, &desc(20, 20, None), 6), Ok(freed(Some(3), Some(5))));
}

#[test]
fn close_and_dispatch_errors_stop_the_loop() {
    let mut c = Compositor::new(100, 100, caps());
    c.handle_event(BackendEvent::FocusChanged(false));
    c.handle_event(BackendEvent::InputPassthrough);
    assert!(c.is_running());
    c.handle_event(BackendEvent::CloseRequested);
    assert_eq!(c.phase, LoopPhase::Stopping);
    assert!(c.plan_frame(0).is_none());
    c.sources_drained();
    assert_eq!(c.phase, LoopPhase::Stopped);

    let mut c = Compositor::new(100, 100, caps());
    c.dispatch_finished(false);
    assert_eq!(c.phase, LoopPhase::Stopping);

    let mut c = Compositor::new(100, 100, caps());
    assert!(c.wants_frame());
    c.frame_failed(FrameFailure::BindFailed);
    assert!(!c.wants_frame());
    assert_eq!(c.failures, 1);
    c.handle_event(BackendEvent::FrameAvailable);
    assert!(c.wants_frame());
    assert_eq!(c.plan_frame(3).unwrap().age, 0);
    c.frame_failed(FrameFailure::OutputGone);
    assert!(!c.wants_frame());
    assert_eq!(c.phase, LoopPhase::Stopping);
}

#[test]
fn dispatch_prunes_dead_windows() {
    let mut c = Compositor::new(100, 100, caps());
    c.new_toplevel(1);
    c.new_toplevel(2);
    c.surface_destroyed(1);
    c.dispatch_finished(true);
    assert_eq!(c.space.len(), 1);
    assert!(c.is_running());
}

#[test]
fn focus_has_no_surface() {
    assert_eq!(CompostorFocus::Window(1).wl_surface(), None);
    assert_ne!(CompostorFocus::Layer(1), CompostorFocus::Popup(1));
}

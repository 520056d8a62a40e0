//! Editor gizmo handles, and the state of the pointer interaction in the editor canvas:
//! panning, dragging a handle, and the modifier keys. Points (`P`) and the snapshot of what
//! is dragged (`T`) are carried as given; the arithmetic on them is done by the caller.
use vstd::prelude::*;

verus! {

/// Gizmo handle types for different transformations.
#[derive(Debug, Clone, Copy, PartialEq, Eq, Structural)]
pub enum GizmoHandle {
    // Move handles
    MoveX,
    MoveY,
    MoveFree,
    // Scale handles - corners (diagonal)
    ScaleTopLeft,
    ScaleTopRight,
    ScaleBottomRight,
    ScaleBottomLeft,
    // Scale handles - edges (axis-aligned)
    ScaleTop,
    ScaleRight,
    ScaleBottom,
    ScaleLeft,
    // Rotate handle
    RotateRing,
    // Bezier handles
    BezierStart,
    BezierControl1,
    BezierControl2,
    BezierEnd,
    BezierMoveFree,
    // Line handles
    LineStart,
    LineEnd,
    LineMoveFree,
    // Pivot handle (for PivotRotate keyframe)
    PivotPoint,
    // Ghost handle (for ghost preview dragging)
    GhostMove,
}

/// The transformation a handle belongs to.
pub enum HandleKind {
    Move,
    Scale,
    Rotate,
    Bezier,
    Line,
    Pivot,
    GhostPreview,
}

/// The transformation each handle performs.
pub open spec fn handle_kind(h: GizmoHandle) -> HandleKind {
    match h {
        GizmoHandle::MoveX | GizmoHandle::MoveY | GizmoHandle::MoveFree => HandleKind::Move,
        GizmoHandle::ScaleTopLeft
        | GizmoHandle::ScaleTopRight
        | GizmoHandle::ScaleBottomRight
        | GizmoHandle::ScaleBottomLeft
        | GizmoHandle::ScaleTop
        | GizmoHandle::ScaleRight
        | GizmoHandle::ScaleBottom
        | GizmoHandle::ScaleLeft => HandleKind::Scale,
        GizmoHandle::RotateRing => HandleKind::Rotate,
        GizmoHandle::BezierStart
        | GizmoHandle::BezierControl1
        | GizmoHandle::BezierControl2
        | GizmoHandle::BezierEnd
        | GizmoHandle::BezierMoveFree => HandleKind::Bezier,
        GizmoHandle::LineStart | GizmoHandle::LineEnd | GizmoHandle::LineMoveFree => HandleKind::Line,
        GizmoHandle::PivotPoint => HandleKind::Pivot,
        GizmoHandle::GhostMove => HandleKind::GhostPreview,
    }
}

impl GizmoHandle {
    /// A move handle: `MoveX`, `MoveY` or `MoveFree`.
    pub fn is_move(&self) -> (r: bool)
        ensures
            r == (handle_kind(*self) is Move),
    {
        match self {
            GizmoHandle::MoveX | GizmoHandle::MoveY | GizmoHandle::MoveFree => true,
            _ => false,
        }
    }

    /// A scale handle: one of the four corners or four edges.
    pub fn is_scale(&self) -> (r: bool)
        ensures
            r == (handle_kind(*self) is Scale),
    {
        match self {
            GizmoHandle::ScaleTopLeft
            | GizmoHandle::ScaleTopRight
            | GizmoHandle::ScaleBottomRight
            | GizmoHandle::ScaleBottomLeft
            | GizmoHandle::ScaleTop
            | GizmoHandle::ScaleRight
            | GizmoHandle::ScaleBottom
            | GizmoHandle::ScaleLeft => true,
            _ => false,
        }
    }

    /// The rotate ring.
    pub fn is_rotate(&self) -> (r: bool)
        ensures
            r == (handle_kind(*self) is Rotate),
    {
        match self {
            GizmoHandle::RotateRing => true,
            _ => false,
        }
    }

    /// A bezier handle: the two end points, the two control points, or free move.
    pub fn is_bezier(&self) -> (r: bool)
        ensures
            r == (handle_kind(*self) is Bezier),
    {
        match self {
            GizmoHandle::BezierStart
            | GizmoHandle::BezierControl1
            | GizmoHandle::BezierControl2
            | GizmoHandle::BezierEnd
            | GizmoHandle::BezierMoveFree => true,
            _ => false,
        }
    }

    /// A line handle: either end point, or free move.
    pub fn is_line(&self) -> (r: bool)
        ensures
            r == (handle_kind(*self) is Line),
    {
        match self {
            GizmoHandle::LineStart | GizmoHandle::LineEnd | GizmoHandle::LineMoveFree => true,
            _ => false,
        }
    }

    /// The pivot point.
    pub fn is_pivot(&self) -> (r: bool)
        ensures
            r == (handle_kind(*self) is Pivot),
    {
        match self {
            GizmoHandle::PivotPoint => true,
            _ => false,
        }
    }

    /// The ghost preview handle.
    pub fn is_ghost(&self) -> (r: bool)
        ensures
            r == (handle_kind(*self) is GhostPreview),
    {
        match self {
            GizmoHandle::GhostMove => true,
            _ => false,
        }
    }
}

/// 1 for a predicate that holds, 0 for one that does not.
pub open spec fn flag(b: bool) -> int {
    if b {
        1
    } else {
        0
    }
}

/// Every handle belongs to exactly one of the seven transformations, so exactly one of the
/// seven predicates holds for it.
pub proof fn law_handle_kinds_partition(h: GizmoHandle)
    ensures
        flag(handle_kind(h) is Move) + flag(handle_kind(h) is Scale) + flag(
            handle_kind(h) is Rotate,
        ) + flag(handle_kind(h) is Bezier) + flag(handle_kind(h) is Line) + flag(
            handle_kind(h) is Pivot,
        ) + flag(handle_kind(h) is GhostPreview) == 1,
{
}

/// Interaction state of the editor canvas.
#[derive(Debug, Clone)]
pub struct EditorInteraction<P, T> {
    /// Last mouse position in world space
    pub mouse_world: Option<P>,
    /// Last mouse position in screen space
    pub mouse_screen: Option<P>,
    /// Whether the view is being panned
    pub is_panning: bool,
    /// Screen position where panning started
    pub pan_start_screen: Option<P>,
    /// Camera centre when panning started
    pub pan_start_camera_center: Option<P>,
    /// The handle being dragged
    pub active_handle: Option<GizmoHandle>,
    /// World position where the drag started
    pub drag_start_world: Option<P>,
    /// What the dragged object looked like when the drag started
    pub original: Option<T>,
    /// Shift key held
    pub shift_held: bool,
    /// Ctrl key held
    pub ctrl_held: bool,
    /// Alt key held
    pub alt_held: bool,
}

impl<P, T> EditorInteraction<P, T> {
    /// A drag is under way exactly when its start and its snapshot are recorded; panning
    /// likewise has both of its starting points.
    pub open spec fn consistent(&self) -> bool {
        &&& (self.active_handle is Some <==> self.drag_start_world is Some)
        &&& (self.active_handle is Some <==> self.original is Some)
        &&& (self.is_panning <==> self.pan_start_screen is Some)
        &&& (self.is_panning <==> self.pan_start_camera_center is Some)
    }

    /// Nothing under the mouse, no panning, no drag, no modifier.
    pub fn new() -> (r: Self)
        ensures
            r.consistent(),
            r.mouse_world is None,
            r.mouse_screen is None,
            !r.is_panning,
            r.active_handle is None,
            !r.shift_held && !r.ctrl_held && !r.alt_held,
    {
        EditorInteraction {
            mouse_world: None,
            mouse_screen: None,
            is_panning: false,
            pan_start_screen: None,
            pan_start_camera_center: None,
            active_handle: None,
            drag_start_world: None,
            original: None,
            shift_held: false,
            ctrl_held: false,
            alt_held: false,
        }
    }

    /// Panning starts at `screen_pos` with the camera at `camera_center`; nothing else changes.
    pub fn start_panning(&mut self, screen_pos: P, camera_center: P)
        ensures
            *final(self) == (EditorInteraction::<P, T> {
                is_panning: true,
                pan_start_screen: Some(screen_pos),
                pan_start_camera_center: Some(camera_center),
                ..*old(self)
            }),
            old(self).consistent() ==> final(self).consistent(),
    {
        self.is_panning = true;
        self.pan_start_screen = Some(screen_pos);
        self.pan_start_camera_center = Some(camera_center);
    }

    /// Panning ends; nothing else changes.
    pub fn end_panning(&mut self)
        ensures
            *final(self) == (EditorInteraction::<P, T> {
                is_panning: false,
                pan_start_screen: None,
                pan_start_camera_center: None,
                ..*old(self)
            }),
            old(self).consistent() ==> final(self).consistent(),
    {
        self.is_panning = false;
        self.pan_start_screen = None;
        self.pan_start_camera_center = None;
    }

    /// A drag of `handle` starts at `world_pos`, on an object that looked like `original`;
    /// any earlier snapshot is replaced.
    pub fn start_drag(&mut self, handle: GizmoHandle, world_pos: P, original: T)
        ensures
            *final(self) == (EditorInteraction::<P, T> {
                active_handle: Some(handle),
                drag_start_world: Some(world_pos),
                original: Some(original),
                ..*old(self)
            }),
            old(self).consistent() ==> final(self).consistent(),
    {
        self.active_handle = Some(handle);
        self.drag_start_world = Some(world_pos);
        self.original = Some(original);
    }

    /// The drag ends: handle, start and snapshot are forgotten.
    pub fn end_drag(&mut self)
        ensures
            *final(self) == (EditorInteraction::<P, T> {
                active_handle: None,
                drag_start_world: None,
                original: None,
                ..*old(self)
            }),
            old(self).consistent() ==> final(self).consistent(),
    {
        self.active_handle = None;
        self.drag_start_world = None;
        self.original = None;
    }

    /// The drag is cancelled, which ends it the same way.
    pub fn cancel_drag(&mut self)
        ensures
            *final(self) == (EditorInteraction::<P, T> {
                active_handle: None,
                drag_start_world: None,
                original: None,
                ..*old(self)
            }),
            old(self).consistent() ==> final(self).consistent(),
    {
        self.end_drag();
    }

    /// A handle is being dragged.
    pub fn is_dragging(&self) -> (r: bool)
        ensures
            r == (self.active_handle is Some),
    {
        self.active_handle.is_some()
    }

    /// The mouse moved to `screen` (`world` in world space).
    pub fn update_mouse(&mut self, screen: P, world: P)
        ensures
            *final(self) == (EditorInteraction::<P, T> {
                mouse_screen: Some(screen),
                mouse_world: Some(world),
                ..*old(self)
            }),
            old(self).consistent() ==> final(self).consistent(),
    {
        self.mouse_screen = Some(screen);
        self.mouse_world = Some(world);
    }

    /// The modifier keys now held.
    pub fn update_modifiers(&mut self, shift: bool, ctrl: bool, alt: bool)
        ensures
            *final(self) == (EditorInteraction::<P, T> {
                shift_held: shift,
                ctrl_held: ctrl,
                alt_held: alt,
                ..*old(self)
            }),
            old(self).consistent() ==> final(self).consistent(),
    {
        self.shift_held = shift;
        self.ctrl_held = ctrl;
        self.alt_held = alt;
    }

    /// The start of the drag and the mouse position now, when both are known: the two ends of
    /// the drag so far.
    pub fn drag_span(&self) -> (r: Option<(&P, &P)>)
        ensures
            match r {
                Some((a, b)) => self.drag_start_world == Some(*a) && self.mouse_world == Some(*b),
                None => self.drag_start_world is None || self.mouse_world is None,
            },
    {
        match (&self.drag_start_world, &self.mouse_world) {
            (Some(start), Some(current)) => Some((start, current)),
            _ => None,
        }
    }

    /// The start of the panning and the mouse position now, when both are known.
    pub fn pan_span(&self) -> (r: Option<(&P, &P)>)
        ensures
            match r {
                Some((a, b)) => self.pan_start_screen == Some(*a) && self.mouse_screen == Some(*b),
                None => self.pan_start_screen is None || self.mouse_screen is None,
            },
    {
        match (&self.pan_start_screen, &self.mouse_screen) {
            (Some(start), Some(current)) => Some((start, current)),
            _ => None,
        }
    }
}

} // verus!

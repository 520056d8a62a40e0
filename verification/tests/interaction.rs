use marble_client::interaction::EditorInteraction;
use marble_client::interaction::GizmoHandle;

const ALL: [GizmoHandle; 22] = [
    GizmoHandle::MoveX,
    GizmoHandle::MoveY,
    GizmoHandle::MoveFree,
    GizmoHandle::ScaleTopLeft,
    GizmoHandle::ScaleTopRight,
    GizmoHandle::ScaleBottomRight,
    GizmoHandle::ScaleBottomLeft,
    GizmoHandle::ScaleTop,
    GizmoHandle::ScaleRight,
    GizmoHandle::ScaleBottom,
    GizmoHandle::ScaleLeft,
    GizmoHandle::RotateRing,
    GizmoHandle::BezierStart,
    GizmoHandle::BezierControl1,
    GizmoHandle::BezierControl2,
    GizmoHandle::BezierEnd,
    GizmoHandle::BezierMoveFree,
    GizmoHandle::LineStart,
    GizmoHandle::LineEnd,
    GizmoHandle::LineMoveFree,
    GizmoHandle::PivotPoint,
    GizmoHandle::GhostMove,
];

#[test]
fn handle_categories() {
    assert!(GizmoHandle::MoveX.is_move());
    assert!(GizmoHandle::MoveFree.is_move());
    assert!(!GizmoHandle::MoveFree.is_bezier());
    assert!(GizmoHandle::ScaleLeft.is_scale());
    assert!(GizmoHandle::ScaleTopLeft.is_scale());
    assert!(GizmoHandle::RotateRing.is_rotate());
    assert!(GizmoHandle::BezierControl2.is_bezier());
    assert!(GizmoHandle::BezierMoveFree.is_bezier());
    assert!(!GizmoHandle::BezierMoveFree.is_move());
    assert!(GizmoHandle::LineEnd.is_line());
    assert!(GizmoHandle::PivotPoint.is_pivot());
    assert!(GizmoHandle::GhostMove.is_ghost());
    assert!(!GizmoHandle::GhostMove.is_move());
}

#[test]
fn each_handle_in_exactly_one_category() {
    for h in ALL.iter() {
        let n = [h.is_move(), h.is_scale(), h.is_rotate(), h.is_bezier(), h.is_line(), h.is_pivot(), h.is_ghost()]
            .iter()
            .filter(|b| **b)
            .count();
        assert_eq!(n, 1, "{:?}", h);
    }
}


#[test]
fn editor_interaction_drag_and_pan() {
    let mut s: EditorInteraction<(i32, i32), &str> = EditorInteraction::new();
    assert!(!s.is_dragging());
    assert!(s.drag_span().is_none());
    s.update_mouse((5, 5), (50, 50));
    s.start_drag(GizmoHandle::MoveX, (10, 20), "box");
    assert!(s.is_dragging());
    assert_eq!(s.active_handle, Some(GizmoHandle::MoveX));
    assert_eq!(s.original, Some("box"));
    assert_eq!(s.drag_span(), Some((&(10, 20), &(50, 50))));
    s.start_drag(GizmoHandle::BezierEnd, (1, 1), "curve");
    assert_eq!(s.original, Some("curve"));
    s.cancel_drag();
    assert!(!s.is_dragging());
    assert_eq!(s.original, None);
    assert_eq!(s.drag_start_world, None);

    assert!(s.pan_span().is_none());
    s.start_panning((1, 2), (3, 4));
    assert!(s.is_panning);
    assert_eq!(s.pan_span(), Some((&(1, 2), &(5, 5))));
    assert_eq!(s.pan_start_camera_center, Some((3, 4)));
    s.end_panning();
    assert!(!s.is_panning);
    assert_eq!(s.pan_start_screen, None);

    s.update_modifiers(true, false, true);
    assert!(s.shift_held && !s.ctrl_held && s.alt_held);
}

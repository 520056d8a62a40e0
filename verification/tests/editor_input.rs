use marble_client::editor_input::{
    key_commands, leave_clears_hover, move_action, press_action, wheel_action, EditorCommand,
    MoveAction, PressAction, PropertyContext, WheelAction, property_context, menu_effect,
    menu_items, ContextMenuState, MenuEffect, MenuItem,
};
use marble_client::interaction::GizmoHandle;

#[test]
fn keyboard_commands() {
    assert_eq!(key_commands("Escape", false, None), vec![EditorCommand::CancelDrag]);
    assert_eq!(key_commands("c", true, Some(3)), vec![EditorCommand::Copy(3)]);
    assert!(key_commands("c", true, None).is_empty());
    assert!(key_commands("c", false, Some(3)).is_empty());
    assert!(key_commands("C", true, Some(3)).is_empty());
    assert_eq!(key_commands("v", true, None), vec![EditorCommand::Paste]);
    assert!(key_commands("v", false, Some(1)).is_empty());
    assert_eq!(key_commands("Delete", false, Some(2)), vec![EditorCommand::Delete(2)]);
    assert_eq!(key_commands("Delete", true, Some(2)), vec![EditorCommand::Delete(2)]);
    assert!(key_commands("Delete", false, None).is_empty());
    assert!(key_commands("x", true, Some(1)).is_empty());
}

#[test]
fn wheel_actions() {
    assert_eq!(wheel_action(true, true), WheelAction::Zoom);
    assert_eq!(wheel_action(false, true), WheelAction::PanHorizontal);
    assert_eq!(wheel_action(false, false), WheelAction::PanVertical);
}

#[test]
fn press_priorities() {
    let h = Some(GizmoHandle::ScaleTop);
    assert_eq!(
        press_action(0, Some(GizmoHandle::PivotPoint), true, h, Some(1)),
        PressAction::DragPivot(GizmoHandle::PivotPoint)
    );
    assert_eq!(press_action(0, None, true, h, Some(1)), PressAction::DragGhost);
    assert_eq!(press_action(0, None, false, h, Some(1)), PressAction::DragObject(GizmoHandle::ScaleTop));
    assert_eq!(press_action(0, None, false, None, Some(1)), PressAction::Select(Some(1)));
    assert_eq!(press_action(0, None, false, None, None), PressAction::Select(None));
    assert_eq!(press_action(1, Some(GizmoHandle::PivotPoint), true, h, Some(1)), PressAction::Pan);
    assert_eq!(press_action(2, None, false, None, None), PressAction::Ignore);
}

#[test]
fn move_and_leave() {
    assert_eq!(move_action(true, true), MoveAction::Pan);
    assert_eq!(move_action(false, true), MoveAction::Drag);
    assert_eq!(move_action(false, false), MoveAction::Hover);
    assert!(leave_clears_hover(false, false));
    assert!(!leave_clears_hover(true, false));
    assert!(!leave_clears_hover(false, true));
}

#[test]
fn property_panel_context() {
    assert_eq!(property_context(true, true, true), PropertyContext::Keyframe);
    assert_eq!(property_context(true, false, true), PropertyContext::Object);
    assert_eq!(property_context(false, true, false), PropertyContext::MapMeta);
    assert_eq!(PropertyContext::Keyframe.indicator(), ("\u{1F511}", "Keyframe"));
    assert_eq!(PropertyContext::Object.indicator(), ("\u{1F4E6}", "Object"));
    assert_eq!(PropertyContext::MapMeta.indicator(), ("\u{1F5FA}", "Map"));
}

#[test]
fn context_menu() {
    let hidden: ContextMenuState<(i32, i32)> = ContextMenuState::hidden();
    assert!(!hidden.visible);
    let shown = ContextMenuState::show((10, 20), (1, 2), Some(4));
    assert!(shown.visible);
    assert_eq!(shown.world_pos, Some((1, 2)));
    assert_eq!(shown.target_index, Some(4));
    assert_eq!(
        menu_items(Some(4)),
        vec![MenuItem::Copy, MenuItem::Paste, MenuItem::MirrorX, MenuItem::MirrorY, MenuItem::Delete]
    );
    assert_eq!(menu_items(None), vec![MenuItem::Paste]);
    assert_eq!(menu_effect(MenuItem::Delete, Some(4), false), Some(MenuEffect::Delete(4)));
    assert_eq!(menu_effect(MenuItem::MirrorY, Some(4), false), Some(MenuEffect::MirrorY(4)));
    assert_eq!(menu_effect(MenuItem::Paste, Some(4), false), None);
    assert_eq!(menu_effect(MenuItem::Paste, None, true), Some(MenuEffect::Paste));
    assert_eq!(menu_effect(MenuItem::Copy, None, true), None);
}

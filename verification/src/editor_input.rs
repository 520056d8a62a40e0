//! What the editor canvas does with a key, a mouse button, the wheel and a mouse move. Hit
//! tests and geometry are done by the caller, which hands in their results.
use vstd::prelude::*;
use crate::interaction::GizmoHandle;

verus! {

/// A command from the keyboard.
#[derive(Debug, Clone, Copy, PartialEq, Eq, Structural)]
pub enum EditorCommand {
    /// Escape: cancel the drag
    CancelDrag,
    /// Ctrl+C: copy the selected object
    Copy(usize),
    /// Ctrl+V: paste at the mouse (or at the camera centre)
    Paste,
    /// Delete: delete the selected object
    Delete(usize),
}

/// The commands of a key press, in the order they are carried out.
pub open spec fn key_commands_of(key: Seq<char>, ctrl: bool, selected: Option<usize>) -> Seq<EditorCommand> {
    let esc: Seq<EditorCommand> = if key == "Escape"@ {
        seq![EditorCommand::CancelDrag]
    } else {
        Seq::empty()
    };
    let copy: Seq<EditorCommand> = if ctrl && key == "c"@ && selected is Some {
        seq![EditorCommand::Copy(selected->0)]
    } else {
        Seq::empty()
    };
    let paste: Seq<EditorCommand> = if ctrl && key == "v"@ {
        seq![EditorCommand::Paste]
    } else {
        Seq::empty()
    };
    let del: Seq<EditorCommand> = if key == "Delete"@ && selected is Some {
        seq![EditorCommand::Delete(selected->0)]
    } else {
        Seq::empty()
    };
    esc + copy + paste + del
}

/// The commands of pressing `key` (with Ctrl held or not) while `selected` is selected.
pub fn key_commands(key: &str, ctrl: bool, selected: Option<usize>) -> (r: Vec<EditorCommand>)
    ensures
        r@ == key_commands_of(key@, ctrl, selected),
{
    let k = key.to_owned();
    let mut out: Vec<EditorCommand> = Vec::new();
    let ghost esc: Seq<EditorCommand> = if key@ == "Escape"@ {
        seq![EditorCommand::CancelDrag]
    } else {
        Seq::empty()
    };
    let ghost copy: Seq<EditorCommand> = if ctrl && key@ == "c"@ && selected is Some {
        seq![EditorCommand::Copy(selected->0)]
    } else {
        Seq::empty()
    };
    let ghost paste: Seq<EditorCommand> = if ctrl && key@ == "v"@ {
        seq![EditorCommand::Paste]
    } else {
        Seq::empty()
    };
    if k == "Escape".to_owned() {
        out.push(EditorCommand::CancelDrag);
    }
    assert(out@ =~= esc);
    if ctrl && k == "c".to_owned() {
        if let Some(i) = selected {
            out.push(EditorCommand::Copy(i));
        }
    }
    assert(out@ =~= esc + copy);
    if ctrl && k == "v".to_owned() {
        out.push(EditorCommand::Paste);
    }
    assert(out@ =~= esc + copy + paste);
    if k == "Delete".to_owned() {
        if let Some(i) = selected {
            out.push(EditorCommand::Delete(i));
        }
    }
    assert(out@ =~= key_commands_of(key@, ctrl, selected));
    out
}

/// What the wheel does.
#[derive(Debug, Clone, Copy, PartialEq, Eq, Structural)]
pub enum WheelAction {
    /// Ctrl: zoom at the mouse (in when scrolling up)
    Zoom,
    /// Shift: pan sideways
    PanHorizontal,
    /// Otherwise: pan up and down
    PanVertical,
}

/// What the wheel does with the modifiers held.
pub fn wheel_action(ctrl_held: bool, shift_held: bool) -> (r: WheelAction)
    ensures
        r == if ctrl_held {
            WheelAction::Zoom
        } else if shift_held {
            WheelAction::PanHorizontal
        } else {
            WheelAction::PanVertical
        },
{
    if ctrl_held {
        WheelAction::Zoom
    } else if shift_held {
        WheelAction::PanHorizontal
    } else {
        WheelAction::PanVertical
    }
}

/// What a mouse button press starts.
#[derive(Debug, Clone, Copy, PartialEq, Eq, Structural)]
pub enum PressAction {
    /// Drag the pivot of the selected rotation keyframe
    DragPivot(GizmoHandle),
    /// Drag the ghost preview of the selected keyframe
    DragGhost,
    /// Drag a handle of the selected object
    DragObject(GizmoHandle),
    /// Select the object hit, or nothing
    Select(Option<usize>),
    /// Start panning (middle button)
    Pan,
    /// Nothing (other buttons)
    Ignore,
}

/// What pressing mouse `button` does, given what is under the mouse: the pivot handle of the
/// selected keyframe, its ghost preview, a handle of the selected object, and the object hit.
/// The pivot comes first, then the ghost, then the object's handles, then selection.
pub open spec fn press_action_of(
    button: i16,
    pivot_hit: Option<GizmoHandle>,
    ghost_hit: bool,
    gizmo_hit: Option<GizmoHandle>,
    object_hit: Option<usize>,
) -> PressAction {
    if button == 0 {
        if pivot_hit is Some {
            PressAction::DragPivot(pivot_hit->0)
        } else if ghost_hit {
            PressAction::DragGhost
        } else if gizmo_hit is Some {
            PressAction::DragObject(gizmo_hit->0)
        } else {
            PressAction::Select(object_hit)
        }
    } else if button == 1 {
        PressAction::Pan
    } else {
        PressAction::Ignore
    }
}

/// What pressing a mouse button does.
pub fn press_action(
    button: i16,
    pivot_hit: Option<GizmoHandle>,
    ghost_hit: bool,
    gizmo_hit: Option<GizmoHandle>,
    object_hit: Option<usize>,
) -> (r: PressAction)
    ensures
        r == press_action_of(button, pivot_hit, ghost_hit, gizmo_hit, object_hit),
{
    if button == 0 {
        if let Some(h) = pivot_hit {
            PressAction::DragPivot(h)
        } else if ghost_hit {
            PressAction::DragGhost
        } else if let Some(h) = gizmo_hit {
            PressAction::DragObject(h)
        } else {
            PressAction::Select(object_hit)
        }
    } else if button == 1 {
        PressAction::Pan
    } else {
        PressAction::Ignore
    }
}

/// What a mouse move does.
#[derive(Debug, Clone, Copy, PartialEq, Eq, Structural)]
pub enum MoveAction {
    /// Move the camera with the mouse
    Pan,
    /// Update the preview of the dragged object
    Drag,
    /// Update which handle is under the mouse
    Hover,
}

/// Panning takes precedence over dragging, and dragging over hovering.
pub fn move_action(is_panning: bool, is_dragging: bool) -> (r: MoveAction)
    ensures
        r == if is_panning {
            MoveAction::Pan
        } else if is_dragging {
            MoveAction::Drag
        } else {
            MoveAction::Hover
        },
{
    if is_panning {
        MoveAction::Pan
    } else if is_dragging {
        MoveAction::Drag
    } else {
        MoveAction::Hover
    }
}

/// Whether the mouse leaving the canvas clears the hovered handle: only when neither dragging
/// nor panning, which both go on outside.
pub fn leave_clears_hover(is_panning: bool, is_dragging: bool) -> (r: bool)
    ensures
        r == (!is_panning && !is_dragging),
{
    !is_panning && !is_dragging
}

/// A drag never starts from a button other than the primary one, and a press with the
/// primary button always either drags or selects (possibly nothing).
pub proof fn law_press_primary_only(
    button: i16,
    pivot_hit: Option<GizmoHandle>,
    ghost_hit: bool,
    gizmo_hit: Option<GizmoHandle>,
    object_hit: Option<usize>,
)
    ensures
        button != 0 ==> !(press_action_of(button, pivot_hit, ghost_hit, gizmo_hit, object_hit) is DragPivot)
            && !(press_action_of(button, pivot_hit, ghost_hit, gizmo_hit, object_hit) is DragGhost)
            && !(press_action_of(button, pivot_hit, ghost_hit, gizmo_hit, object_hit) is DragObject)
            && !(press_action_of(button, pivot_hit, ghost_hit, gizmo_hit, object_hit) is Select),
        button == 0 ==> !(press_action_of(button, pivot_hit, ghost_hit, gizmo_hit, object_hit) is Pan)
            && !(press_action_of(button, pivot_hit, ghost_hit, gizmo_hit, object_hit) is Ignore),
{
}

/// The tabs of the editor's object list.
#[derive(Debug, Clone, Copy, PartialEq, Eq, Structural)]
pub enum ObjectListTab {
    Objects,
    Keyframes,
}

/// What the property panel shows.
#[derive(Debug, Clone, Copy, PartialEq, Eq, Structural)]
pub enum PropertyContext {
    /// A keyframe of the open sequence is selected (highest priority)
    Keyframe,
    /// An object is selected
    Object,
    /// Nothing selected: the map's metadata
    MapMeta,
}

/// The property panel's context: a selected keyframe (of an open sequence) first, then a
/// selected object, then the map.
pub fn property_context(keyframe_selected: bool, sequence_open: bool, object_selected: bool) -> (r: PropertyContext)
    ensures
        r == if keyframe_selected && sequence_open {
            PropertyContext::Keyframe
        } else if object_selected {
            PropertyContext::Object
        } else {
            PropertyContext::MapMeta
        },
{
    if keyframe_selected && sequence_open {
        PropertyContext::Keyframe
    } else if object_selected {
        PropertyContext::Object
    } else {
        PropertyContext::MapMeta
    }
}

impl PropertyContext {
    /// The icon and label of the context, shown in the panel header.
    pub fn indicator(&self) -> (r: (&'static str, &'static str))
        ensures
            r.0@ == match *self {
                PropertyContext::Keyframe => "\u{1F511}"@,
                PropertyContext::Object => "\u{1F4E6}"@,
                PropertyContext::MapMeta => "\u{1F5FA}"@,
            },
            r.1@ == match *self {
                PropertyContext::Keyframe => "Keyframe"@,
                PropertyContext::Object => "Object"@,
                PropertyContext::MapMeta => "Map"@,
            },
    {
        match self {
            PropertyContext::Keyframe => ("\u{1F511}", "Keyframe"),
            PropertyContext::Object => ("\u{1F4E6}", "Object"),
            PropertyContext::MapMeta => ("\u{1F5FA}", "Map"),
        }
    }
}

/// State of the editor's context menu; positions (`P`) are carried as given.
#[derive(Debug, Clone)]
pub struct ContextMenuState<P> {
    /// Whether the menu is visible.
    pub visible: bool,
    /// Screen position for menu display.
    pub screen_pos: Option<P>,
    /// World position for the paste operation.
    pub world_pos: Option<P>,
    /// Object clicked (None for empty space).
    pub target_index: Option<usize>,
}

impl<P> ContextMenuState<P> {
    /// A hidden menu.
    pub fn new() -> (r: Self)
        ensures
            !r.visible,
            r.screen_pos is None,
            r.world_pos is None,
            r.target_index is None,
    {
        ContextMenuState { visible: false, screen_pos: None, world_pos: None, target_index: None }
    }

    /// The menu shown at `screen_pos` for a click at `world_pos` on object `target_index`.
    pub fn show(screen_pos: P, world_pos: P, target_index: Option<usize>) -> (r: Self)
        ensures
            r.visible,
            r.screen_pos == Some(screen_pos),
            r.world_pos == Some(world_pos),
            r.target_index == target_index,
    {
        ContextMenuState {
            visible: true,
            screen_pos: Some(screen_pos),
            world_pos: Some(world_pos),
            target_index,
        }
    }

    /// A hidden menu.
    pub fn hidden() -> (r: Self)
        ensures
            !r.visible,
            r.screen_pos is None,
            r.world_pos is None,
            r.target_index is None,
    {
        Self::new()
    }
}

/// An entry of the context menu.
#[derive(Debug, Clone, Copy, PartialEq, Eq, Structural)]
pub enum MenuItem {
    Copy,
    Paste,
    MirrorX,
    MirrorY,
    Delete,
}

/// The entries of the menu: for an object copy, paste, the two mirrors and delete; on empty
/// space only paste.
pub open spec fn menu_items_of(has_object: bool) -> Seq<MenuItem> {
    if has_object {
        seq![MenuItem::Copy, MenuItem::Paste, MenuItem::MirrorX, MenuItem::MirrorY, MenuItem::Delete]
    } else {
        seq![MenuItem::Paste]
    }
}

/// The entries of the menu for a click on an object or on empty space.
pub fn menu_items(target_index: Option<usize>) -> (r: Vec<MenuItem>)
    ensures
        r@ == menu_items_of(target_index is Some),
{
    let mut v: Vec<MenuItem> = Vec::new();
    if target_index.is_some() {
        v.push(MenuItem::Copy);
        v.push(MenuItem::Paste);
        v.push(MenuItem::MirrorX);
        v.push(MenuItem::MirrorY);
        v.push(MenuItem::Delete);
    } else {
        v.push(MenuItem::Paste);
    }
    assert(v@ =~= menu_items_of(target_index is Some));
    v
}

/// What choosing a menu entry does; the menu closes in any case.
#[derive(Debug, Clone, Copy, PartialEq, Eq, Structural)]
pub enum MenuEffect {
    Copy(usize),
    Paste,
    MirrorX(usize),
    MirrorY(usize),
    Delete(usize),
}

/// The effect of choosing `item`: the object entries act on the clicked object, paste needs
/// something to paste; otherwise nothing happens.
pub open spec fn menu_effect_of(item: MenuItem, target: Option<usize>, has_clipboard: bool) -> Option<MenuEffect> {
    match item {
        MenuItem::Paste => if has_clipboard {
            Some(MenuEffect::Paste)
        } else {
            None
        },
        MenuItem::Copy => match target {
            Some(i) => Some(MenuEffect::Copy(i)),
            None => None,
        },
        MenuItem::MirrorX => match target {
            Some(i) => Some(MenuEffect::MirrorX(i)),
            None => None,
        },
        MenuItem::MirrorY => match target {
            Some(i) => Some(MenuEffect::MirrorY(i)),
            None => None,
        },
        MenuItem::Delete => match target {
            Some(i) => Some(MenuEffect::Delete(i)),
            None => None,
        },
    }
}

/// The effect of choosing a menu entry.
pub fn menu_effect(item: MenuItem, target: Option<usize>, has_clipboard: bool) -> (r: Option<MenuEffect>)
    ensures
        r == menu_effect_of(item, target, has_clipboard),
{
    match item {
        MenuItem::Paste => if has_clipboard {
            Some(MenuEffect::Paste)
        } else {
            None
        },
        MenuItem::Copy => match target {
            Some(i) => Some(MenuEffect::Copy(i)),
            None => None,
        },
        MenuItem::MirrorX => match target {
            Some(i) => Some(MenuEffect::MirrorX(i)),
            None => None,
        },
        MenuItem::MirrorY => match target {
            Some(i) => Some(MenuEffect::MirrorY(i)),
            None => None,
        },
        MenuItem::Delete => match target {
            Some(i) => Some(MenuEffect::Delete(i)),
            None => None,
        },
    }
}

/// The menu entry whose operation an effect performs.
pub open spec fn effect_entry(e: MenuEffect) -> MenuItem {
    match e {
        MenuEffect::Copy(_) => MenuItem::Copy,
        MenuEffect::Paste => MenuItem::Paste,
        MenuEffect::MirrorX(_) => MenuItem::MirrorX,
        MenuEffect::MirrorY(_) => MenuItem::MirrorY,
        MenuEffect::Delete(_) => MenuItem::Delete,
    }
}

/// The object an effect acts on (none for paste).
pub open spec fn effect_object(e: MenuEffect) -> Option<usize> {
    match e {
        MenuEffect::Copy(i) | MenuEffect::MirrorX(i) | MenuEffect::MirrorY(i) | MenuEffect::Delete(i) => Some(i),
        MenuEffect::Paste => None,
    }
}

/// Choosing a menu entry performs that entry's own operation: an object entry acts on the
/// clicked object (and does nothing on empty space), and paste acts exactly when there is
/// something to paste.
pub proof fn law_menu_entry_acts_as_named(item: MenuItem, target: Option<usize>, has_clipboard: bool)
    ensures
        menu_effect_of(item, target, has_clipboard) matches Some(e) ==> effect_entry(e) == item,
        item != MenuItem::Paste ==> (menu_effect_of(item, target, has_clipboard) is Some <==> target is Some),
        item != MenuItem::Paste && menu_effect_of(item, target, has_clipboard) is Some ==> effect_object(
            menu_effect_of(item, target, has_clipboard)->0,
        ) == target,
        item == MenuItem::Paste ==> (menu_effect_of(item, target, has_clipboard) is Some <==> has_clipboard),
{
}

} // verus!

use bmp_editor::keybinds::{
    default_keybinds, dispatch_keydown, normalize_chord, str_eq, KeybindActions,
};
use bmp_editor::tools::ToolsTypes;

#[test]
fn normalize_prefixes_ctrl() {
    assert_eq!(normalize_chord("z", true), "ctrl+z");
    assert_eq!(normalize_chord("z", false), "z");
    assert_eq!(normalize_chord("ArrowUp", true), "ctrl+ArrowUp");
}

#[test]
fn str_eq_compares_contents() {
    assert!(str_eq("abc", "abc"));
    assert!(!str_eq("abc", "abd"));
    assert!(!str_eq("abc", "ab"));
    assert!(str_eq("", ""));
}

#[test]
fn default_binds_cover_every_action() {
    let t = default_keybinds();
    assert_eq!(t.lookup("ctrl+z"), Some(KeybindActions::Undo));
    assert_eq!(t.lookup("["), Some(KeybindActions::PreviousTool));
    assert_eq!(t.lookup("]"), Some(KeybindActions::NextTool));
    assert_eq!(t.lookup("c"), Some(KeybindActions::ToolChange(ToolsTypes::ClickFill)));
    assert_eq!(t.lookup("b"), Some(KeybindActions::ToolChange(ToolsTypes::BucketFill)));
    assert_eq!(t.lookup("i"), Some(KeybindActions::ToolChange(ToolsTypes::Invert)));
    assert_eq!(t.lookup("l"), Some(KeybindActions::ToolChange(ToolsTypes::Line)));
    assert_eq!(t.lookup("r"), Some(KeybindActions::ToolChange(ToolsTypes::Rect)));
    assert_eq!(t.lookup("e"), Some(KeybindActions::ToolChange(ToolsTypes::Ellipse)));
    assert_eq!(t.lookup("g"), Some(KeybindActions::ToolChange(ToolsTypes::Greyscale)));
    assert_eq!(t.lookup("a"), Some(KeybindActions::ToolChange(ToolsTypes::Gaussian)));
    assert_eq!(t.lookup("o"), Some(KeybindActions::ToolChange(ToolsTypes::Box)));
}

#[test]
fn unbound_chords_have_no_action() {
    let t = default_keybinds();
    assert_eq!(t.lookup("x"), None);
    assert_eq!(t.lookup("z"), None);
    assert_eq!(t.lookup("ctrl+c"), None);
    assert_eq!(t.lookup(""), None);
}

#[test]
fn dispatch_builds_the_chord_before_looking_up() {
    let t = default_keybinds();
    assert_eq!(dispatch_keydown(&t, "z", true), Some(KeybindActions::Undo));
    assert_eq!(dispatch_keydown(&t, "z", false), None);
    assert_eq!(dispatch_keydown(&t, "g", false), Some(KeybindActions::ToolChange(ToolsTypes::Greyscale)));
    assert_eq!(dispatch_keydown(&t, "g", true), None);
    assert_eq!(dispatch_keydown(&t, "[", false), Some(KeybindActions::PreviousTool));
    assert_eq!(dispatch_keydown(&t, "]", false), Some(KeybindActions::NextTool));
    assert_eq!(dispatch_keydown(&t, "Escape", false), None);
}

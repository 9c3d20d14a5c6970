use i3_companion::events::BindType;
use i3_companion::events::BindingData;
use i3_companion::events::BindingObject;
use i3_companion::keybinding::KeyBinding;

fn observed(mods: &[&str], symbol: Option<&str>, input_type: BindType) -> BindingData {
    BindingData {
        binding: BindingObject {
            event_state_mask: mods.iter().map(|m| m.to_string()).collect(),
            symbol: symbol.map(|s| s.to_string()),
            input_type,
        },
    }
}

fn configured(mods: &[&str], symbol: Option<&str>) -> KeyBinding {
    KeyBinding {
        event_state_mask: mods.iter().map(|m| m.to_string()).collect(),
        symbol: symbol.map(|s| s.to_string()),
        input_type: BindType::Keyboard,
    }
}

#[test]
fn matches_ignores_modifier_order() {
    let kb = configured(&["Mod4", "shift"], Some("o"));
    assert!(kb.matches(&observed(&["shift", "Mod4"], Some("o"), BindType::Keyboard)));
}

#[test]
fn does_not_match_smaller_modifier_set() {
    let kb = configured(&["Mod4", "shift"], Some("o"));
    assert!(!kb.matches(&observed(&["Mod4"], Some("o"), BindType::Keyboard)));
}

#[test]
fn does_not_match_larger_modifier_set() {
    let kb = configured(&["Mod4"], Some("o"));
    assert!(!kb.matches(&observed(&["Mod4", "shift"], Some("o"), BindType::Keyboard)));
}

#[test]
fn symbol_must_be_equal() {
    let kb = configured(&["Mod4"], Some("o"));
    assert!(!kb.matches(&observed(&["Mod4"], Some("i"), BindType::Keyboard)));
    assert!(!kb.matches(&observed(&["Mod4"], None, BindType::Keyboard)));
}

#[test]
fn symbolless_binding_matches_pure_modifier_chord() {
    let kb = configured(&["Mod4", "ctrl"], None);
    assert!(kb.matches(&observed(&["ctrl", "Mod4"], None, BindType::Keyboard)));
    assert!(!kb.matches(&observed(&["ctrl", "Mod4"], Some("x"), BindType::Keyboard)));
}

#[test]
fn input_class_must_be_equal() {
    let kb = configured(&["Mod4"], Some("o"));
    assert!(!kb.matches(&observed(&["Mod4"], Some("o"), BindType::Mouse)));
}

#[test]
fn empty_masks_match() {
    let kb = configured(&[], Some("o"));
    assert!(kb.matches(&observed(&[], Some("o"), BindType::Keyboard)));
}

use iced_core::keyboard::key::Named;
use iced_core::keyboard::Modifiers;
use key_bind::{
    default_bindings, key_binds, Action, Binding, Key, KeyBind, KeyBinds, Modifier, ModifierState,
};

fn binding(modifiers: Vec<Modifier>, key: Key, action: Action) -> Binding {
    Binding { chord: KeyBind::new(modifiers, key), action }
}

fn all_states() -> Vec<ModifierState> {
    let mut states = Vec::new();
    for bits in 0..16u8 {
        states.push(ModifierState {
            logo: bits & 1 != 0,
            control: bits & 2 != 0,
            alt: bits & 4 != 0,
            shift: bits & 8 != 0,
        });
    }
    states
}

fn expected_defaults() -> Vec<(Vec<Modifier>, Key, Action)> {
    let (alt, ctrl, shift) = (Modifier::Alt, Modifier::Ctrl, Modifier::Shift);
    vec![
        (vec![ctrl], Key::character("c"), Action::Copy),
        (vec![ctrl], Key::character("x"), Action::Cut),
        (vec![ctrl], Key::character("l"), Action::EditLocation),
        (vec![alt], Key::named("ArrowRight"), Action::HistoryNext),
        (vec![alt], Key::named("ArrowLeft"), Action::HistoryPrevious),
        (vec![], Key::named("ArrowDown"), Action::ItemDown),
        (vec![], Key::named("ArrowLeft"), Action::ItemLeft),
        (vec![], Key::named("ArrowRight"), Action::ItemRight),
        (vec![], Key::named("ArrowUp"), Action::ItemUp),
        (vec![shift], Key::named("ArrowDown"), Action::ItemDown),
        (vec![shift], Key::named("ArrowLeft"), Action::ItemLeft),
        (vec![shift], Key::named("ArrowRight"), Action::ItemRight),
        (vec![shift], Key::named("ArrowUp"), Action::ItemUp),
        (vec![alt], Key::named("ArrowUp"), Action::LocationUp),
        (vec![], Key::named("Delete"), Action::MoveToTrash),
        (vec![ctrl, shift], Key::character("N"), Action::NewFolder),
        (vec![], Key::named("Enter"), Action::Open),
        (vec![ctrl], Key::character("v"), Action::Paste),
        (vec![], Key::named("F2"), Action::Rename),
        (vec![ctrl], Key::character("a"), Action::SelectAll),
        (vec![ctrl], Key::character("w"), Action::TabClose),
        (vec![ctrl], Key::character("t"), Action::TabNew),
        (vec![ctrl], Key::named("Tab"), Action::TabNext),
        (vec![ctrl, shift], Key::named("Tab"), Action::TabPrev),
        (vec![ctrl], Key::character("h"), Action::ToggleShowHidden),
        (vec![ctrl], Key::character("q"), Action::WindowClose),
        (vec![ctrl], Key::character("n"), Action::WindowNew),
    ]
}

#[test]
fn new_table_is_empty() {
    let table = KeyBinds::new();
    assert_eq!(table.len(), 0);
    assert!(table.bindings().is_empty());
    assert_eq!(table.lookup_by_event(Modifiers::empty(), &Key::named("Enter")), None);
    assert_eq!(table.get(&KeyBind::new(vec![], Key::named("Enter"))), None);
}

#[test]
fn insert_binds_a_new_chord() {
    let mut table = KeyBinds::new();
    let chord = KeyBind::new(vec![Modifier::Ctrl], Key::character("c"));
    let previous = table.insert(chord, Action::Copy);
    assert_eq!(previous, None);
    assert_eq!(table.len(), 1);
    assert_eq!(table.lookup_by_event(Modifiers::CTRL, &Key::character("c")), Some(Action::Copy));
    assert_eq!(table.lookup_by_event(Modifiers::empty(), &Key::character("c")), None);
    assert_eq!(table.lookup_by_event(Modifiers::CTRL, &Key::character("x")), None);
}

#[test]
fn last_write_wins() {
    let mut table = KeyBinds::new();
    let chord = KeyBind::new(vec![Modifier::Ctrl], Key::character("n"));
    assert_eq!(table.insert(chord.clone(), Action::WindowNew), None);
    assert_eq!(table.insert(chord.clone(), Action::NewFolder), Some(Action::WindowNew));
    assert_eq!(table.len(), 1);
    assert_eq!(table.get(&chord), Some(Action::NewFolder));
    assert_eq!(
        table.lookup_by_event(Modifiers::CTRL, &Key::character("n")),
        Some(Action::NewFolder)
    );
    let actions: Vec<Action> = table.bindings().iter().map(|binding| binding.action).collect();
    assert_eq!(actions, vec![Action::NewFolder]);
}

#[test]
fn last_write_wins_whatever_the_order_of_the_modifiers() {
    let mut table = KeyBinds::new();
    table.insert(
        KeyBind::new(vec![Modifier::Ctrl, Modifier::Shift], Key::named("Tab")),
        Action::TabPrev,
    );
    let previous = table.insert(
        KeyBind::new(vec![Modifier::Shift, Modifier::Ctrl], Key::named("Tab")),
        Action::TabNext,
    );
    assert_eq!(previous, Some(Action::TabPrev));
    assert_eq!(table.len(), 1);
    assert_eq!(table.bindings()[0].action, Action::TabNext);
    assert_eq!(table.bindings()[0].chord.modifiers, vec![Modifier::Ctrl, Modifier::Shift]);
    assert_eq!(table.bindings()[0].chord.render(), "Ctrl + Shift + Tab");
}

#[test]
fn overwriting_keeps_the_place_of_the_entry() {
    let mut table = KeyBinds::new();
    table.insert(KeyBind::new(vec![], Key::named("F2")), Action::Rename);
    table.insert(KeyBind::new(vec![], Key::named("Enter")), Action::Open);
    table.insert(KeyBind::new(vec![], Key::named("Delete")), Action::MoveToTrash);
    let previous = table.insert(KeyBind::new(vec![], Key::named("Enter")), Action::EditLocation);
    assert_eq!(previous, Some(Action::Open));
    let entries: Vec<(String, Action)> = table
        .bindings()
        .iter()
        .map(|binding| (binding.chord.render(), binding.action))
        .collect();
    assert_eq!(
        entries,
        vec![
            ("F2".to_string(), Action::Rename),
            ("Enter".to_string(), Action::EditLocation),
            ("Delete".to_string(), Action::MoveToTrash),
        ]
    );
}

#[test]
fn several_chords_may_trigger_one_action() {
    let mut table = KeyBinds::new();
    table.insert(KeyBind::new(vec![], Key::named("ArrowDown")), Action::ItemDown);
    table.insert(KeyBind::new(vec![Modifier::Shift], Key::named("ArrowDown")), Action::ItemDown);
    assert_eq!(table.len(), 2);
    let arrow_down = Key::named("ArrowDown");
    assert_eq!(table.lookup_by_event(Modifiers::empty(), &arrow_down), Some(Action::ItemDown));
    assert_eq!(table.lookup_by_event(Modifiers::SHIFT, &arrow_down), Some(Action::ItemDown));
    assert_eq!(table.lookup_by_event(Modifiers::CTRL, &arrow_down), None);
}

#[test]
fn lookup_is_case_sensitive() {
    let table = key_binds();
    let held = Modifiers::CTRL | Modifiers::SHIFT;
    assert_eq!(table.lookup_by_event(held, &Key::character("N")), Some(Action::NewFolder));
    assert_eq!(table.lookup_by_event(held, &Key::character("n")), None);
    assert_eq!(
        table.lookup_by_event(Modifiers::CTRL, &Key::character("n")),
        Some(Action::WindowNew)
    );
    assert_eq!(table.lookup_by_event(Modifiers::CTRL, &Key::character("N")), None);
}

#[test]
fn lookup_by_state_and_by_event_agree() {
    let table = key_binds();
    let keys = [
        Key::character("c"),
        Key::character("N"),
        Key::character("n"),
        Key::named("ArrowUp"),
        Key::named("Tab"),
        Key::named("Home"),
        Key::Unidentified,
    ];
    for held in all_states() {
        let mut modifiers = Modifiers::empty();
        modifiers.set(Modifiers::LOGO, held.logo);
        modifiers.set(Modifiers::CTRL, held.control);
        modifiers.set(Modifiers::ALT, held.alt);
        modifiers.set(Modifiers::SHIFT, held.shift);
        for key in &keys {
            assert_eq!(table.lookup_by_state(held, key), table.lookup_by_event(modifiers, key));
        }
    }
}

#[test]
fn lookup_finds_the_entry_that_matches() {
    let table = key_binds();
    for held in all_states() {
        for (_, key, _) in expected_defaults() {
            let matching: Vec<Action> = table
                .bindings()
                .iter()
                .filter(|binding| binding.chord.matches_state(held, &key))
                .map(|binding| binding.action)
                .collect();
            assert!(matching.len() <= 1);
            assert_eq!(table.lookup_by_state(held, &key), matching.first().copied());
        }
    }
}

#[test]
fn get_finds_a_chord_whatever_the_order_of_its_modifiers() {
    let table = key_binds();
    let stored = KeyBind::new(vec![Modifier::Ctrl, Modifier::Shift], Key::named("Tab"));
    let turned = KeyBind::new(vec![Modifier::Shift, Modifier::Ctrl], Key::named("Tab"));
    assert_eq!(table.get(&stored), Some(Action::TabPrev));
    assert_eq!(table.get(&turned), Some(Action::TabPrev));
    assert_eq!(table.get(&KeyBind::new(vec![Modifier::Alt], Key::named("Tab"))), None);
}

#[test]
fn from_bindings_registers_in_turn() {
    let table = KeyBinds::from_bindings(vec![
        binding(vec![Modifier::Ctrl], Key::character("c"), Action::Copy),
        binding(vec![Modifier::Ctrl], Key::character("x"), Action::Cut),
        binding(vec![Modifier::Ctrl], Key::character("c"), Action::Paste),
    ]);
    assert_eq!(table.len(), 2);
    assert_eq!(table.bindings()[0].chord.key, Key::character("c"));
    assert_eq!(table.bindings()[0].action, Action::Paste);
    assert_eq!(table.bindings()[1].chord.key, Key::character("x"));
    assert_eq!(table.bindings()[1].action, Action::Cut);
}

#[test]
fn from_no_bindings_is_the_empty_table() {
    assert_eq!(KeyBinds::from_bindings(Vec::new()).len(), 0);
}

#[test]
fn extend_overrides_and_adds() {
    let mut table = key_binds();
    table.extend(vec![
        binding(vec![Modifier::Ctrl], Key::character("c"), Action::Cut),
        binding(vec![Modifier::Super], Key::character("e"), Action::EditLocation),
    ]);
    assert_eq!(table.len(), 28);
    assert_eq!(table.lookup_by_event(Modifiers::CTRL, &Key::character("c")), Some(Action::Cut));
    assert_eq!(
        table.lookup_by_event(Modifiers::LOGO, &Key::character("e")),
        Some(Action::EditLocation)
    );
    assert_eq!(table.bindings()[0].action, Action::Cut);
    assert_eq!(table.bindings()[27].action, Action::EditLocation);
    assert_eq!(table.lookup_by_event(Modifiers::CTRL, &Key::character("x")), Some(Action::Cut));
    assert_eq!(table.lookup_by_event(Modifiers::CTRL, &Key::character("v")), Some(Action::Paste));
}

#[test]
fn default_bindings_are_the_documented_list() {
    let list = default_bindings();
    let expected = expected_defaults();
    assert_eq!(list.len(), 27);
    assert_eq!(list.len(), expected.len());
    for (binding, (modifiers, key, action)) in list.iter().zip(expected) {
        assert_eq!(binding.chord.modifiers, modifiers);
        assert_eq!(binding.chord.key, key);
        assert_eq!(binding.action, action);
    }
}

#[test]
fn default_table_holds_each_default_binding() {
    let table = key_binds();
    let expected = expected_defaults();
    assert_eq!(table.len(), 27);
    for (binding, (modifiers, key, action)) in table.bindings().iter().zip(expected) {
        assert_eq!(binding.chord.modifiers, modifiers);
        assert_eq!(binding.chord.key, key);
        assert_eq!(binding.action, action);
    }
}

#[test]
fn default_table_answers_each_default_chord() {
    let table = key_binds();
    for (modifiers, key, action) in expected_defaults() {
        let chord = KeyBind::new(modifiers, key.clone());
        assert_eq!(table.get(&chord), Some(action));
        assert_eq!(table.lookup_by_state(chord.required(), &key), Some(action));
    }
}

#[test]
fn default_table_binds_arrows_with_and_without_shift() {
    let table = key_binds();
    for (name, action) in [
        ("ArrowDown", Action::ItemDown),
        ("ArrowLeft", Action::ItemLeft),
        ("ArrowRight", Action::ItemRight),
        ("ArrowUp", Action::ItemUp),
    ] {
        let key = Key::named(name);
        assert_eq!(table.lookup_by_event(Modifiers::empty(), &key), Some(action));
        assert_eq!(table.lookup_by_event(Modifiers::SHIFT, &key), Some(action));
        assert_eq!(table.lookup_by_event(Modifiers::CTRL, &key), None);
        assert_eq!(table.lookup_by_event(Modifiers::CTRL | Modifiers::SHIFT, &key), None);
    }
    let up = Key::named("ArrowUp");
    assert_eq!(table.lookup_by_event(Modifiers::ALT, &up), Some(Action::LocationUp));
    assert_eq!(table.lookup_by_event(Modifiers::ALT | Modifiers::SHIFT, &up), None);
}

#[test]
fn exhaustiveness() {
    let table = key_binds();
    let entries = table.bindings();
    for (i, event) in entries.iter().enumerate() {
        let held = event.chord.required();
        let key = &event.chord.key;
        for (j, entry) in entries.iter().enumerate() {
            assert_eq!(entry.chord.matches_state(held, key), i == j);
            assert_eq!(entry.chord == event.chord, i == j);
        }
    }
    for held in all_states() {
        for event in entries {
            let hits = entries
                .iter()
                .filter(|entry| entry.chord.matches_state(held, &event.chord.key))
                .count();
            assert!(hits <= 1);
        }
    }
}

#[test]
fn default_chords_name_no_modifier_twice() {
    for binding in key_binds().bindings() {
        assert!(binding.chord.is_well_formed());
    }
}

#[test]
fn default_chords_render() {
    let rendered: Vec<String> =
        key_binds().bindings().iter().map(|binding| binding.chord.render()).collect();
    assert_eq!(
        rendered,
        vec![
            "Ctrl + C",
            "Ctrl + X",
            "Ctrl + L",
            "Alt + ArrowRight",
            "Alt + ArrowLeft",
            "ArrowDown",
            "ArrowLeft",
            "ArrowRight",
            "ArrowUp",
            "Shift + ArrowDown",
            "Shift + ArrowLeft",
            "Shift + ArrowRight",
            "Shift + ArrowUp",
            "Alt + ArrowUp",
            "Delete",
            "Ctrl + Shift + N",
            "Enter",
            "Ctrl + V",
            "F2",
            "Ctrl + A",
            "Ctrl + W",
            "Ctrl + T",
            "Ctrl + Tab",
            "Ctrl + Shift + Tab",
            "Ctrl + H",
            "Ctrl + Q",
            "Ctrl + N",
        ]
    );
}

#[test]
fn binding_clone_keeps_chord_and_action() {
    let entry = binding(vec![Modifier::Alt], Key::named("ArrowUp"), Action::LocationUp);
    let copy = entry.clone();
    assert_eq!(copy.chord, entry.chord);
    assert_eq!(copy.chord.modifiers, vec![Modifier::Alt]);
    assert_eq!(copy.action, Action::LocationUp);
}

#[test]
fn named_keys_match_the_names_of_the_toolkit() {
    let table = key_binds();
    for (named, held, action) in [
        (Named::ArrowRight, Modifiers::ALT, Action::HistoryNext),
        (Named::ArrowLeft, Modifiers::ALT, Action::HistoryPrevious),
        (Named::ArrowDown, Modifiers::empty(), Action::ItemDown),
        (Named::ArrowUp, Modifiers::empty(), Action::ItemUp),
        (Named::Delete, Modifiers::empty(), Action::MoveToTrash),
        (Named::Enter, Modifiers::empty(), Action::Open),
        (Named::F2, Modifiers::empty(), Action::Rename),
        (Named::Tab, Modifiers::CTRL, Action::TabNext),
    ] {
        let key = Key::named(&format!("{:?}", named));
        assert_eq!(table.lookup_by_event(held, &key), Some(action));
    }
}

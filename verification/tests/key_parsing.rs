use map2::key_names::{key_code_to_literal, key_table_is_wf, resolve_key, str_eq_str};
use map2::key_parse::{
    key_action, key_action_with_flags, parse_key_sequence, to_key_actions, ParsedKeyAction,
};
use map2::keys::{
    Key, KeyAction, KeyActionWithMods, KeyClickActionWithMods, KeyModifierFlags, EV_KEY,
    TYPE_DOWN, TYPE_UP,
};

fn shift_flags() -> KeyModifierFlags {
    let mut f = KeyModifierFlags::new();
    f.shift();
    f
}

#[test]
fn test_key_action() {
    let (rest, action) = key_action("{a down}").unwrap();
    assert_eq!(rest, "");
    assert_eq!(
        action,
        ParsedKeyAction::KeyAction(KeyActionWithMods::new(
            Key::new(EV_KEY, 30),
            1,
            KeyModifierFlags::new()
        ))
    );

    let (rest, action) = key_action("{btn_forward down}").unwrap();
    assert_eq!(rest, "");
    assert_eq!(
        action,
        ParsedKeyAction::KeyAction(KeyActionWithMods::new(
            Key::new(EV_KEY, 277),
            1,
            KeyModifierFlags::new()
        ))
    );
}

#[test]
fn test_flags() {
    let (rest, action) = key_action_with_flags("+{a down}").unwrap();
    assert_eq!(rest, "");
    assert_eq!(
        action,
        ParsedKeyAction::KeyAction(KeyActionWithMods::new(Key::new(EV_KEY, 30), 1, shift_flags()))
    );
}

#[test]
fn key_table_is_well_formed() {
    assert!(key_table_is_wf());
}

#[test]
fn key_literal_round_trip() {
    // Every non-modifier code with a name parses back to itself.
    for code in 0u16..300 {
        if let Some(lit) = key_code_to_literal(code) {
            if [42u16, 54, 29, 97, 56, 100, 125, 126].contains(&code) {
                continue;
            }
            let (rest, action) = key_action(lit.as_str()).unwrap();
            assert_eq!(rest, "");
            assert_eq!(
                action,
                ParsedKeyAction::KeyClickAction(KeyClickActionWithMods::new_with_mods(
                    Key::new(EV_KEY, code),
                    KeyModifierFlags::new()
                ))
            );
        }
    }
}

#[test]
fn capital_letter_implies_shift() {
    let (rest, action) = key_action("A").unwrap();
    assert_eq!(rest, "");
    assert_eq!(
        action,
        ParsedKeyAction::KeyClickAction(KeyClickActionWithMods::new_with_mods(
            Key::new(EV_KEY, 30),
            shift_flags()
        ))
    );
    // The flattened click begins with LEFT_SHIFT DOWN.
    let acts = to_key_actions(vec![action]);
    assert_eq!(acts[0], KeyAction::new(Key::new(EV_KEY, 42), TYPE_DOWN));
    assert_eq!(acts[1], KeyAction::new(Key::new(EV_KEY, 30), TYPE_DOWN));
    assert_eq!(acts[2], KeyAction::new(Key::new(EV_KEY, 30), TYPE_UP));
}

#[test]
fn parse_sequence_of_clicks() {
    let parsed = parse_key_sequence("ab").unwrap();
    let acts = to_key_actions(parsed);
    assert_eq!(
        acts,
        vec![
            KeyAction::new(Key::new(EV_KEY, 30), TYPE_DOWN),
            KeyAction::new(Key::new(EV_KEY, 30), TYPE_UP),
            KeyAction::new(Key::new(EV_KEY, 48), TYPE_DOWN),
            KeyAction::new(Key::new(EV_KEY, 48), TYPE_UP),
        ]
    );
}

#[test]
fn parse_sequence_with_groups() {
    let parsed = parse_key_sequence("{KEY_B down}x").unwrap();
    let acts = to_key_actions(parsed);
    assert_eq!(
        acts,
        vec![
            KeyAction::new(Key::new(EV_KEY, 48), TYPE_DOWN),
            KeyAction::new(Key::new(EV_KEY, 45), TYPE_DOWN),
            KeyAction::new(Key::new(EV_KEY, 45), TYPE_UP),
        ]
    );
}

#[test]
fn parse_rejects_unknown_names() {
    assert!(key_action("{zzzz down}").is_err());
    assert!(parse_key_sequence("{notakey}").is_err());
}

#[test]
fn parse_state_words() {
    let (_, up) = key_action("{a up}").unwrap();
    assert_eq!(
        up,
        ParsedKeyAction::KeyAction(KeyActionWithMods::new(
            Key::new(EV_KEY, 30),
            0,
            KeyModifierFlags::new()
        ))
    );
    let (_, rep) = key_action("{a repeat}").unwrap();
    assert_eq!(
        rep,
        ParsedKeyAction::KeyAction(KeyActionWithMods::new(
            Key::new(EV_KEY, 30),
            2,
            KeyModifierFlags::new()
        ))
    );
    assert!(key_action("{a sideways}").is_err());
}

#[test]
fn resolve_accepts_prefixed_and_bare_names() {
    let chars: Vec<char> = "enter".chars().collect();
    assert_eq!(resolve_key(&chars), Some(Key::new(EV_KEY, 28)));
    let chars: Vec<char> = "KEY_ENTER".chars().collect();
    assert_eq!(resolve_key(&chars), Some(Key::new(EV_KEY, 28)));
    let chars: Vec<char> = "btn_left".chars().collect();
    assert_eq!(resolve_key(&chars), Some(Key::new(EV_KEY, 272)));
}

#[test]
fn number_to_key_literal_form() {
    let lit = key_code_to_literal(30).unwrap();
    assert!(str_eq_str(lit.as_str(), "{KEY_A}"));
    assert!(key_code_to_literal(9999).is_none());
}

use keykapp::codec::{decode_record, encode_record};
use keykapp::kapp::{kapp_eq, Kapp};
use keykapp::keyboard::KeyboardState;
use keykapp::keys::{keyswitches, Key, KeyEventKind};

fn press(k: Key) -> KeyEventKind {
    KeyEventKind::Press(k)
}

fn release(k: Key) -> KeyEventKind {
    KeyEventKind::Release(k)
}

fn atom(e: KeyEventKind) -> Kapp {
    Kapp::Atom(e)
}

#[test]
fn record_layout_is_stable() {
    // The on-disk encoding is part of the external contract: atom tag,
    // direction byte, key tag; list tag, eight length bytes, children.
    assert_eq!(encode_record(&atom(press(Key::Alt))), vec![0, 0, 0]);
    assert_eq!(encode_record(&atom(release(Key::Alt))), vec![0, 1, 0]);
    assert_eq!(encode_record(&atom(press(Key::KeyA))), vec![0, 0, 64]);
    assert_eq!(encode_record(&atom(press(Key::KeyJ))), vec![0, 0, 70]);
    assert_eq!(
        encode_record(&atom(press(Key::Unknown(258)))),
        vec![0, 0, 255, 2, 1, 0, 0]
    );
    assert_eq!(
        encode_record(&Kapp::List(vec![])),
        vec![1, 0, 0, 0, 0, 0, 0, 0, 0]
    );
    assert_eq!(
        encode_record(&Kapp::List(vec![atom(press(Key::Alt))])),
        vec![1, 1, 0, 0, 0, 0, 0, 0, 0, 0, 0, 0]
    );
}

#[test]
fn decoding_accepts_only_whole_records() {
    let bytes = encode_record(&Kapp::List(vec![atom(press(Key::KeyA))]));
    let truncated = &bytes[..bytes.len() - 1];
    assert!(decode_record(truncated).is_err());
    let ok = decode_record(bytes.as_slice()).unwrap();
    assert!(kapp_eq(&ok, &Kapp::List(vec![atom(press(Key::KeyA))])));
}

#[test]
fn kapp_equality_is_structural() {
    let a = atom(press(Key::KeyA));
    let wrapped = Kapp::List(vec![atom(press(Key::KeyA))]);
    assert!(kapp_eq(&a, &a.deep_clone()));
    assert!(!kapp_eq(&a, &wrapped));
    assert!(!kapp_eq(&a, &atom(release(Key::KeyA))));
    assert!(!kapp_eq(&wrapped, &Kapp::List(vec![])));
    let deep = Kapp::List(vec![Kapp::List(vec![a.deep_clone()]), a.deep_clone()]);
    assert!(kapp_eq(&deep, &deep.deep_clone()));
    assert!(!kapp_eq(
        &deep,
        &Kapp::List(vec![Kapp::List(vec![]), a.deep_clone()])
    ));
}

#[test]
fn keyboard_tracks_net_press_release_history() {
    let mut kbd = KeyboardState::new();
    assert!(kbd.is_idle());
    kbd.update(press(Key::KeyA));
    kbd.update(press(Key::KeyA));
    assert_eq!(kbd.pressed_count(), 1);
    kbd.update(press(Key::KeyB));
    assert_eq!(kbd.pressed_count(), 2);
    assert!(kbd.pressed_key(Key::KeyA));
    assert!(kbd.pressed_key(Key::KeyB));
    kbd.update(release(Key::KeyA));
    assert!(!kbd.pressed_key(Key::KeyA));
    assert_eq!(kbd.pressed_count(), 1);
    // Releasing a key that is not held is tolerated silently.
    kbd.update(release(Key::KeyZ));
    assert_eq!(kbd.pressed_count(), 1);
    kbd.update(release(Key::KeyB));
    assert!(kbd.is_idle());
}

#[test]
fn chord_predicates_need_all_three_keys() {
    let mut kbd = KeyboardState::new();
    kbd.update(press(Key::MetaLeft));
    kbd.update(press(Key::ControlLeft));
    assert!(!kbd.enter_command_mode());
    assert!(!kbd.enter_insert_mode());
    kbd.update(press(Key::KeyK));
    assert!(kbd.enter_command_mode());
    assert!(!kbd.enter_insert_mode());
    kbd.update(release(Key::KeyK));
    kbd.update(press(Key::KeyJ));
    assert!(kbd.enter_insert_mode());
    // Right-hand modifier variants work as well.
    let mut right = KeyboardState::new();
    right.update(press(Key::MetaRight));
    right.update(press(Key::ControlRight));
    right.update(press(Key::KeyK));
    assert!(right.enter_command_mode());
}

#[test]
fn keyswitches_are_the_eight_home_row_keys() {
    assert_eq!(
        keyswitches(),
        vec![
            Key::KeyJ,
            Key::KeyF,
            Key::KeyK,
            Key::KeyD,
            Key::KeyL,
            Key::KeyS,
            Key::SemiColon,
            Key::KeyA,
        ]
    );
}

#[test]
fn atom_counts_saturate_instead_of_wrapping() {
    // A score bump uses the kapp's atom count; both accumulate with
    // saturating addition, so a huge count cannot wrap.
    let mut t = keykapp::ngram::NgramTable::new();
    let mut seven: Vec<Kapp> = Vec::new();
    for _ in 0..7 {
        seven.push(atom(press(Key::KeyA)));
    }
    let k = Kapp::List(seven);
    assert_eq!(k.num_atoms(), 7);
    t.bump(&k);
    t.bump(&k);
    assert_eq!(t.get_score(&k), 14);
}

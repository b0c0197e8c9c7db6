use keykapp::codec::{decode_record, encode_record};
use keykapp::kapp::{kapp_eq, Kapp};
use keykapp::keys::{Key, KeyEventKind};
use keykapp::ngram::NgramTable;
use keykapp::render::{render_kapp, render_snapshot};
use keykapp::state::AppState;

fn press(k: Key) -> KeyEventKind {
    KeyEventKind::Press(k)
}

fn release(k: Key) -> KeyEventKind {
    KeyEventKind::Release(k)
}

fn atom(e: KeyEventKind) -> Kapp {
    Kapp::Atom(e)
}

fn roundtrips(k: &Kapp) {
    let bytes = encode_record(k);
    let back = decode_record(bytes.as_slice()).expect("a fresh encoding must decode");
    assert!(kapp_eq(&back, k));
}

#[test]
fn record_round_trip_atoms() {
    roundtrips(&atom(press(Key::KeyA)));
    roundtrips(&atom(release(Key::SemiColon)));
    roundtrips(&atom(press(Key::Unknown(0))));
    roundtrips(&atom(release(Key::Unknown(u32::MAX))));
}

#[test]
fn record_round_trip_lists() {
    roundtrips(&Kapp::List(vec![]));
    roundtrips(&Kapp::List(vec![atom(press(Key::KeyJ)), atom(release(Key::KeyJ))]));
    roundtrips(&Kapp::List(vec![
        Kapp::List(vec![atom(press(Key::MetaLeft))]),
        Kapp::List(vec![]),
        atom(release(Key::Unknown(1234567))),
    ]));
}

#[test]
fn encoding_distinguishes_press_and_release() {
    let p = encode_record(&atom(press(Key::KeyA)));
    let r = encode_record(&atom(release(Key::KeyA)));
    assert_ne!(p, r);
}

#[test]
fn corrupt_records_are_rejected() {
    // Empty record.
    assert!(decode_record(&[]).is_err());
    // Unknown leading tag.
    assert!(decode_record(&[9, 0, 0]).is_err());
    // Atom with an unknown key tag.
    assert!(decode_record(&[0, 0, 254]).is_err());
    // Truncated list header.
    assert!(decode_record(&[1, 2, 0, 0]).is_err());
    // List announcing more children than the bytes hold.
    assert!(decode_record(&[1, 2, 0, 0, 0, 0, 0, 0, 0]).is_err());
    // Trailing garbage after a whole kapp.
    let mut bytes = encode_record(&atom(press(Key::KeyA)));
    bytes.push(0);
    assert!(decode_record(bytes.as_slice()).is_err());
}

#[test]
fn num_atoms_counts_recursively() {
    assert_eq!(atom(press(Key::KeyA)).num_atoms(), 1);
    assert_eq!(Kapp::List(vec![]).num_atoms(), 0);
    let nested = Kapp::List(vec![
        atom(press(Key::KeyA)),
        Kapp::List(vec![atom(release(Key::KeyA)), atom(press(Key::KeyB))]),
    ]);
    assert_eq!(nested.num_atoms(), 3);
}

#[test]
fn scores_accumulate_and_never_fall() {
    let mut st = AppState::new();
    let l1 = Kapp::List(vec![atom(press(Key::KeyA))]);
    let mut last: u64 = 0;
    for _ in 0..3 {
        st.reduce(press(Key::KeyA));
        st.reduce(release(Key::KeyA));
        let s = st.ngrams.get_score(&l1);
        assert!(s >= last);
        last = s;
    }
    // The one-kapp press suffix was the tail three times, one atom each.
    assert_eq!(last, 3);
}

#[test]
fn top_orders_by_score_then_recency() {
    let mut t = NgramTable::new();
    let a = Kapp::List(vec![atom(press(Key::KeyA))]);
    let b = Kapp::List(vec![atom(press(Key::KeyB))]);
    let c = Kapp::List(vec![atom(press(Key::KeyC))]);
    // Three bumps for a, two for b, one for c.
    t.bump(&a);
    t.bump(&b);
    t.bump(&a);
    t.bump(&c);
    t.bump(&b);
    t.bump(&a);
    assert_eq!(t.get_score(&a), 3);
    assert_eq!(t.get_score(&b), 2);
    assert_eq!(t.get_score(&c), 1);
    let tops = t.top(8);
    assert_eq!(tops.len(), 3);
    assert!(kapp_eq(&tops[0], &a));
    assert!(kapp_eq(&tops[1], &b));
    assert!(kapp_eq(&tops[2], &c));
    // Only as many as asked for.
    assert_eq!(t.top(2).len(), 2);
}

#[test]
fn tie_on_score_goes_to_the_later_update() {
    let mut t = NgramTable::new();
    let a = Kapp::List(vec![atom(press(Key::KeyA))]);
    let b = Kapp::List(vec![atom(press(Key::KeyB))]);
    t.bump(&a);
    t.bump(&b);
    assert_eq!(t.get_score(&a), 1);
    assert_eq!(t.get_score(&b), 1);
    let tops = t.top(2);
    // Equal scores: the more recently updated kapp comes first.
    assert!(kapp_eq(&tops[0], &b));
    assert!(kapp_eq(&tops[1], &a));
}

#[test]
fn rendering_matches_the_fixed_format() {
    assert_eq!(render_kapp(&atom(press(Key::KeyA))), "<KeyA");
    assert_eq!(render_kapp(&atom(release(Key::KeyA))), "KeyA>");
    assert_eq!(render_kapp(&atom(press(Key::Unknown(42)))), "<Unknown(42)");
    assert_eq!(render_kapp(&Kapp::List(vec![])), "()");
    let pair = Kapp::List(vec![atom(press(Key::KeyA)), atom(release(Key::KeyA))]);
    assert_eq!(render_kapp(&pair), "(<KeyA KeyA> )");
    let nested = Kapp::List(vec![pair]);
    assert_eq!(render_kapp(&nested), "((<KeyA KeyA> ) )");
}

#[test]
fn snapshot_shows_mode_pressed_keys_and_bindings() {
    let mut st = AppState::new();
    let empty_snap = render_snapshot(&st);
    assert_eq!(
        empty_snap,
        "\n---- Keykapp ----\n- InputMode::Insert\n- Pressed Keys: \n"
    );

    st.reduce(press(Key::KeyA));
    st.reduce(release(Key::KeyA));
    let snap = render_snapshot(&st);
    assert!(snap.contains("---- Keykapp ----"));
    assert!(snap.contains("- InputMode::Insert"));
    // Three learned n-grams, bound to the first three keyswitches.
    assert!(snap.contains("KeyJ ["));
    assert!(snap.contains("KeyF ["));
    assert!(snap.contains("KeyK ["));
    assert!(snap.contains("(<KeyA KeyA> )"));

    st.reduce(press(Key::KeyB));
    let held = render_snapshot(&st);
    assert!(held.contains("- Pressed Keys: KeyB "));
}

#[test]
fn replay_rejects_a_corrupt_record() {
    let mut live = AppState::new();
    live.go_live();
    live.reduce(press(Key::KeyA));
    let mut records = live.take_records();
    records.push(vec![9, 9, 9]);
    let mut rebuilt = AppState::new();
    assert!(rebuilt.replay(&records).is_err());
}

#[test]
fn replay_determinism_full_cycle() {
    // Apply a mixed run live; persist; replay; the two states agree on
    // log and every learned score queried.
    let mut live = AppState::new();
    live.go_live();
    for e in [
        press(Key::KeyH),
        release(Key::KeyH),
        press(Key::KeyI),
        press(Key::KeyJ),
        release(Key::KeyJ),
        release(Key::KeyI),
    ] {
        live.reduce(e);
    }
    let records = live.take_records();
    let mut rebuilt = AppState::new();
    assert!(rebuilt.replay(&records).is_ok());
    assert_eq!(rebuilt.kapp_log.len(), live.kapp_log.len());
    for i in 0..live.kapp_log.len() {
        assert!(kapp_eq(&rebuilt.kapp_log[i], &live.kapp_log[i]));
        let suffix: Vec<Kapp> = live.kapp_log[i..].iter().map(|k| k.deep_clone()).collect();
        let ngram = Kapp::List(suffix);
        assert_eq!(
            rebuilt.ngrams.get_score(&ngram),
            live.ngrams.get_score(&ngram)
        );
    }
}

use keykapp::kapp::{kapp_eq, Kapp};
use keykapp::keys::{Key, KeyEventKind};
use keykapp::state::{AppState, Effect, InputMode};

fn press(k: Key) -> KeyEventKind {
    KeyEventKind::Press(k)
}

fn release(k: Key) -> KeyEventKind {
    KeyEventKind::Release(k)
}

fn atom(e: KeyEventKind) -> Kapp {
    Kapp::Atom(e)
}

#[test]
fn single_key_pass_through_learning() {
    let mut st = AppState::new();
    st.reduce(press(Key::KeyA));
    st.reduce(release(Key::KeyA));

    assert_eq!(st.kapp_log.len(), 2);
    assert!(kapp_eq(&st.kapp_log[0], &atom(press(Key::KeyA))));
    assert!(kapp_eq(&st.kapp_log[1], &atom(release(Key::KeyA))));

    let effects = st.take_effects();
    assert_eq!(
        effects,
        vec![
            Effect::Simulate(press(Key::KeyA)),
            Effect::Simulate(release(Key::KeyA)),
        ]
    );

    let l1p = Kapp::List(vec![atom(press(Key::KeyA))]);
    let l1r = Kapp::List(vec![atom(release(Key::KeyA))]);
    let l2 = Kapp::List(vec![atom(press(Key::KeyA)), atom(release(Key::KeyA))]);
    assert_eq!(st.ngrams.get_score(&l1p), 1);
    assert_eq!(st.ngrams.get_score(&l1r), 1);
    assert_eq!(st.ngrams.get_score(&l2), 2);
}

#[test]
fn enter_command_mode_and_invoke_top_binding() {
    let mut st = AppState::new();
    assert_eq!(st.input_mode, InputMode::Insert);

    st.reduce(press(Key::MetaLeft));
    st.reduce(press(Key::ControlLeft));
    assert_eq!(st.input_mode, InputMode::Insert);
    st.reduce(press(Key::KeyK));
    assert_eq!(st.input_mode, InputMode::LeavingInsertEnteringCommand);

    st.reduce(release(Key::KeyK));
    assert_eq!(st.input_mode, InputMode::LeavingInsertEnteringCommand);
    st.reduce(release(Key::ControlLeft));
    assert_eq!(st.input_mode, InputMode::LeavingInsertEnteringCommand);
    st.reduce(release(Key::MetaLeft));
    assert_eq!(st.input_mode, InputMode::Command);

    // Idle after the releases: bindings exist, KeyJ carries the top one.
    assert!(!st.keybindings.is_empty());
    assert_eq!(st.keybindings[0].0, Key::KeyJ);
    let bound = st.keybindings[0].1.deep_clone();
    let log_before = st.kapp_log.len();

    st.reduce(press(Key::KeyJ));
    assert_eq!(st.input_mode, InputMode::Command);
    assert_eq!(st.kapp_log.len(), log_before + 1);
    assert!(kapp_eq(&st.kapp_log[log_before], &bound));
    st.reduce(release(Key::KeyJ));
    assert_eq!(st.input_mode, InputMode::Command);

    st.reduce(press(Key::MetaLeft));
    st.reduce(press(Key::ControlLeft));
    assert_eq!(st.input_mode, InputMode::Command);
    st.reduce(press(Key::KeyJ));
    assert_eq!(st.input_mode, InputMode::LeavingCommandEnteringInsert);
    st.reduce(release(Key::KeyJ));
    st.reduce(release(Key::ControlLeft));
    assert_eq!(st.input_mode, InputMode::LeavingCommandEnteringInsert);
    st.reduce(release(Key::MetaLeft));
    assert_eq!(st.input_mode, InputMode::Insert);
}

#[test]
fn crash_recovery_replays_persisted_log() {
    // A live session that persists two kapps.
    let mut live = AppState::new();
    live.go_live();
    live.reduce(press(Key::KeyA));
    live.reduce(release(Key::KeyA));
    let records = live.take_records();
    assert_eq!(records.len(), 2);

    // A restart replays them with effects suppressed.
    let mut rebuilt = AppState::new();
    let res = rebuilt.replay(&records);
    assert!(res.is_ok());
    assert!(rebuilt.pending_effects.is_empty());

    assert_eq!(rebuilt.kapp_log.len(), live.kapp_log.len());
    for i in 0..live.kapp_log.len() {
        assert!(kapp_eq(&rebuilt.kapp_log[i], &live.kapp_log[i]));
    }
    let l1p = Kapp::List(vec![atom(press(Key::KeyA))]);
    let l1r = Kapp::List(vec![atom(release(Key::KeyA))]);
    let l2 = Kapp::List(vec![atom(press(Key::KeyA)), atom(release(Key::KeyA))]);
    assert_eq!(rebuilt.ngrams.get_score(&l1p), live.ngrams.get_score(&l1p));
    assert_eq!(rebuilt.ngrams.get_score(&l1r), live.ngrams.get_score(&l1r));
    assert_eq!(rebuilt.ngrams.get_score(&l2), live.ngrams.get_score(&l2));
    assert_eq!(rebuilt.ngrams.get_score(&l2), 2);
}

#[test]
fn bounded_ngram_length() {
    let mut st = AppState::new();
    for i in 0..40u32 {
        st.reduce(press(Key::Unknown(i)));
    }
    assert_eq!(st.kapp_log.len(), 40);

    // The suffix of length 32 is present...
    let mut last32: Vec<Kapp> = Vec::new();
    for i in 8..40u32 {
        last32.push(atom(press(Key::Unknown(i))));
    }
    let ngram32 = Kapp::List(last32);
    assert!(st.ngrams.get_rank(&ngram32).is_some());

    // ...and no suffix of length 33 was learned.
    let mut last33: Vec<Kapp> = Vec::new();
    for i in 7..40u32 {
        last33.push(atom(press(Key::Unknown(i))));
    }
    let ngram33 = Kapp::List(last33);
    assert!(st.ngrams.get_rank(&ngram33).is_none());
}

#[test]
fn keybinding_stability_across_holds() {
    let mut st = AppState::new();
    // Learn something while going idle, so bindings are non-empty.
    st.reduce(press(Key::KeyA));
    st.reduce(release(Key::KeyA));
    let before: Vec<(Key, Kapp)> = st
        .keybindings
        .iter()
        .map(|p| (p.0, p.1.deep_clone()))
        .collect();
    assert!(!before.is_empty());

    // The pressed set never becomes empty in this run.
    st.reduce(press(Key::KeyB));
    st.reduce(press(Key::KeyC));
    st.reduce(release(Key::KeyB));
    st.reduce(press(Key::KeyD));
    st.reduce(release(Key::KeyD));

    assert_eq!(st.keybindings.len(), before.len());
    for i in 0..before.len() {
        assert_eq!(st.keybindings[i].0, before[i].0);
        assert!(kapp_eq(&st.keybindings[i].1, &before[i].1));
    }

    // Once the run ends idle, the bindings are recomputed.
    st.reduce(release(Key::KeyC));
    assert!(st.keyboard.pressed.is_empty());
}

#[test]
fn modifier_chord_release_absorption() {
    let mut st = AppState::new();
    st.reduce(press(Key::MetaLeft));
    st.reduce(press(Key::ControlLeft));
    st.reduce(press(Key::KeyK));
    assert_eq!(st.input_mode, InputMode::LeavingInsertEnteringCommand);
    let len_before = st.kapp_log.len();

    // Releasing KeyK itself is absorbed: no kapp appended.
    st.reduce(release(Key::KeyK));
    assert_eq!(st.kapp_log.len(), len_before);
    assert_eq!(st.input_mode, InputMode::LeavingInsertEnteringCommand);

    // Releasing ControlLeft passes through the learning path.
    st.reduce(release(Key::ControlLeft));
    assert_eq!(st.kapp_log.len(), len_before + 1);
    assert!(kapp_eq(
        &st.kapp_log[len_before],
        &atom(release(Key::ControlLeft))
    ));
    assert_eq!(st.input_mode, InputMode::LeavingInsertEnteringCommand);

    // The final release crosses into command mode.
    st.reduce(release(Key::MetaLeft));
    assert_eq!(st.input_mode, InputMode::Command);
}

#[test]
fn mode_transition_is_pure() {
    // Two states agreeing on mode and pressed keys, with different logs
    // and tables, cross modes identically.
    let mut a = AppState::new();
    let mut b = AppState::new();
    b.reduce(press(Key::KeyZ));
    b.reduce(release(Key::KeyZ));
    assert_ne!(a.kapp_log.len(), b.kapp_log.len());

    let chord = [press(Key::MetaLeft), press(Key::ControlLeft), press(Key::KeyK)];
    for e in chord {
        a.reduce(e);
        b.reduce(e);
        assert_eq!(a.input_mode, b.input_mode);
    }
    assert_eq!(a.input_mode, InputMode::LeavingInsertEnteringCommand);
}

#[test]
fn idle_recomputation_zips_keyswitches_with_top() {
    let mut st = AppState::new();
    // Repeat one key so its n-grams outscore another's.
    st.reduce(press(Key::KeyA));
    st.reduce(release(Key::KeyA));
    st.reduce(press(Key::KeyA));
    st.reduce(release(Key::KeyA));
    st.reduce(press(Key::KeyB));
    st.reduce(release(Key::KeyB));

    let switches = keykapp::keys::keyswitches();
    let tops = st.ngrams.top(8);
    assert_eq!(st.keybindings.len(), tops.len());
    for i in 0..tops.len() {
        assert_eq!(st.keybindings[i].0, switches[i]);
        assert!(kapp_eq(&st.keybindings[i].1, &tops[i]));
    }
    // Ranks really are non-increasing along the bindings.
    let mut prev = u64::MAX;
    for i in 0..st.keybindings.len() {
        let score = st.ngrams.get_score(&st.keybindings[i].1);
        assert!(score <= prev);
        prev = score;
    }
}

#[test]
fn effects_drain_in_fifo_order() {
    let mut st = AppState::new();
    st.reduce(press(Key::KeyQ));
    st.reduce(press(Key::KeyW));
    let effects = st.take_effects();
    assert_eq!(
        effects,
        vec![
            Effect::Simulate(press(Key::KeyQ)),
            Effect::Simulate(press(Key::KeyW)),
        ]
    );
    assert!(st.take_effects().is_empty());
}

use vstd::prelude::*;

use crate::codec::{encode_record, lemma_record_round_trip, spec_decode_record, spec_encode};
use crate::kapp::{kapps_view, lemma_kapps_view_index, spec_atom_events, Kapp, KappV};
use crate::keyboard::{
    spec_enter_command_mode, spec_enter_insert_mode, spec_kbd_update, KeyboardState,
};
use crate::keys::{spec_keyswitches, Key, KeyEventKind};
use crate::ngram::{
    lemma_table_keys_are_windows, spec_is_top, spec_is_window, spec_ngram_update, NgramTable, Rank,
};

verus! {

/// The four input modes. `Leaving*` modes absorb the release of the chord
/// that asked for the crossing.
#[derive(Clone, Copy, PartialEq, Eq, Structural, Debug)]
pub enum InputMode {
    Insert,
    LeavingInsertEnteringCommand,
    Command,
    LeavingCommandEnteringInsert,
}

/// A deferred side effect: inject this key action into the host.
#[derive(Clone, Copy, PartialEq, Eq, Structural, Debug)]
pub enum Effect {
    Simulate(KeyEventKind),
}

/// The effects that evaluating a run of key actions enqueues, in order.
pub open spec fn spec_effects_of(es: Seq<KeyEventKind>) -> Seq<Effect> {
    es.map_values(|e: KeyEventKind| Effect::Simulate(e))
}

/// The shapes of a run of byte records.
pub open spec fn records_views(rs: Seq<Vec<u8>>) -> Seq<Seq<u8>> {
    rs.map_values(|r: Vec<u8>| r@)
}

/// Decode a run of records, oldest first; nothing if any record is bad.
pub open spec fn spec_decode_records(rs: Seq<Seq<u8>>) -> Option<Seq<KappV>>
    decreases rs.len(),
{
    if rs.len() == 0 {
        Some(Seq::empty())
    } else {
        match spec_decode_records(rs.drop_last()) {
            Some(ks) => match spec_decode_record(rs.last()) {
                Some(k) => Some(ks.push(k)),
                None => None,
            },
            None => None,
        }
    }
}

/// The log, table and stamp after one logged evaluation of `kv`.
pub open spec fn spec_logged_state(
    log: Seq<KappV>,
    t: Map<KappV, Rank>,
    ns: u64,
    kv: KappV,
) -> (Seq<KappV>, Map<KappV, Rank>, u64) {
    let log2 = log.push(kv);
    let up = spec_ngram_update(t, ns, log2);
    (log2, up.0, up.1)
}

/// The log, table and stamp after logged evaluation of a run of kapps.
pub open spec fn spec_replay_state(
    log: Seq<KappV>,
    t: Map<KappV, Rank>,
    ns: u64,
    ks: Seq<KappV>,
) -> (Seq<KappV>, Map<KappV, Rank>, u64)
    decreases ks.len(),
{
    if ks.len() == 0 {
        (log, t, ns)
    } else {
        let prev = spec_replay_state(log, t, ns, ks.drop_last());
        spec_logged_state(prev.0, prev.1, prev.2, ks.last())
    }
}

/// The shapes of the keybinding pairs.
pub open spec fn bindings_view(bs: Seq<(Key, Kapp)>) -> Seq<(Key, KappV)> {
    bs.map_values(|p: (Key, Kapp)| (p.0, p.1@))
}

/// Bindings pair the fixed keyswitches, in order, with kapps.
pub open spec fn spec_bindings_shape(b: Seq<(Key, KappV)>) -> bool {
    &&& b.len() <= 8
    &&& forall|i: int| 0 <= i < b.len() ==> (#[trigger] b[i]).0 == spec_keyswitches()[i]
}

/// The kapp bound to `k`, if any.
pub open spec fn spec_lookup(b: Seq<(Key, KappV)>, k: Key) -> Option<KappV>
    decreases b.len(),
{
    if b.len() == 0 {
        None
    } else if b[0].0 == k {
        Some(b[0].1)
    } else {
        spec_lookup(b.subrange(1, b.len() as int), k)
    }
}

/// Bindings hold the best-ranked kapps for the table, in rank order.
pub open spec fn spec_bindings_ok(b: Seq<(Key, KappV)>, t: Map<KappV, Rank>) -> bool {
    &&& spec_bindings_shape(b)
    &&& spec_is_top(t, b.map_values(|p: (Key, KappV)| p.1), 8)
}

/// Mode transitions are a pure function of the current mode, the pressed
/// set before the event is applied, and the event.
pub open spec fn spec_next_mode(m: InputMode, pressed: Set<Key>, e: KeyEventKind) -> InputMode {
    match m {
        InputMode::Insert => {
            if spec_enter_command_mode(spec_kbd_update(pressed, e)) {
                InputMode::LeavingInsertEnteringCommand
            } else {
                InputMode::Insert
            }
        },
        InputMode::LeavingInsertEnteringCommand => {
            if !spec_enter_command_mode(pressed) && pressed.len() == 1 {
                InputMode::Command
            } else {
                InputMode::LeavingInsertEnteringCommand
            }
        },
        InputMode::Command => {
            if spec_enter_insert_mode(spec_kbd_update(pressed, e)) {
                InputMode::LeavingCommandEnteringInsert
            } else {
                InputMode::Command
            }
        },
        InputMode::LeavingCommandEnteringInsert => {
            if pressed.len() == 1 {
                InputMode::Insert
            } else {
                InputMode::LeavingCommandEnteringInsert
            }
        },
    }
}

/// Mode determinism: the next mode depends on nothing but the current
/// mode, the pressed set and the incoming event.
pub proof fn lemma_mode_deterministic(
    m1: InputMode,
    p1: Set<Key>,
    m2: InputMode,
    p2: Set<Key>,
    e: KeyEventKind,
)
    requires
        m1 == m2,
        p1 == p2,
    ensures
        spec_next_mode(m1, p1, e) == spec_next_mode(m2, p2, e),
{
}

/// The kapps one reducer step evaluates and logs: at most one. No kapp is
/// emitted while a mode crossing is pending, except the modifier releases
/// that the crossing out of insert passes through.
pub open spec fn spec_emitted(
    m: InputMode,
    pressed: Set<Key>,
    b: Seq<(Key, KappV)>,
    e: KeyEventKind,
) -> Seq<KappV> {
    match m {
        InputMode::Insert => {
            if spec_enter_command_mode(spec_kbd_update(pressed, e)) {
                Seq::empty()
            } else {
                seq![KappV::Atom(e)]
            }
        },
        InputMode::LeavingInsertEnteringCommand => {
            if !spec_enter_command_mode(pressed) {
                seq![KappV::Atom(e)]
            } else {
                Seq::empty()
            }
        },
        InputMode::Command => {
            let p2 = spec_kbd_update(pressed, e);
            if spec_enter_insert_mode(p2) || spec_enter_command_mode(p2) {
                Seq::empty()
            } else if p2.len() == 1 {
                match spec_lookup(b, p2.choose()) {
                    Some(kv) => seq![kv],
                    None => Seq::empty(),
                }
            } else {
                Seq::empty()
            }
        },
        InputMode::LeavingCommandEnteringInsert => Seq::empty(),
    }
}

/// The whole in-memory state of the remapper core.
pub struct AppState {
    pub kapp_log: Vec<Kapp>,
    pub ngrams: NgramTable,
    pub keyboard: KeyboardState,
    pub input_mode: InputMode,
    pub keybindings: Vec<(Key, Kapp)>,
    pub pending_effects: Vec<Effect>,
    pub pending_records: Vec<Vec<u8>>,
    pub is_interactive: bool,
    pub persisted: Ghost<Seq<Seq<u8>>>,
}

/// Push the `Simulate` effect of every atom of `k`, in order.
#[verifier::loop_isolation(false)]
pub fn eval(k: &Kapp, effects: &mut Vec<Effect>)
    ensures
        final(effects)@ == old(effects)@ + spec_effects_of(spec_atom_events(k@)),
    decreases *k,
{
    match k {
        Kapp::Atom(e) => {
            effects.push(Effect::Simulate(*e));
            proof {
                assert(effects@ =~= old(effects)@ + spec_effects_of(spec_atom_events(k@)));
            }
        },
        Kapp::List(children) => {
            let ghost s = kapps_view(children@);
            proof {
                lemma_kapps_view_index(children@);
            }
            let mut i: usize = 0;
            while i < children.len()
                invariant
                    0 <= i <= children.len(),
                    effects@ == old(effects)@ + spec_effects_of(
                        crate::kapp::spec_atom_events_seq(s.take(i as int)),
                    ),
                decreases children.len() - i,
            {
                proof {
                    assert(decreases_to!(*k => (*k)->List_0));
                    assert((*k)->List_0 == *children);
                    assert(decreases_to!(*children => children@));
                    assert(decreases_to!(children@ => children@[i as int]));
                    assert(s.take(i as int).push(s[i as int]) =~= s.take(i + 1));
                    crate::kapp::lemma_atom_events_seq_push(s.take(i as int), s[i as int]);
                }
                eval(&children[i], effects);
                proof {
                    assert(effects@ =~= old(effects)@ + spec_effects_of(
                        crate::kapp::spec_atom_events_seq(s.take(i + 1)),
                    ));
                }
                i = i + 1;
            }
            proof {
                assert(s.take(children@.len() as int) =~= s);
                assert(effects@ =~= old(effects)@ + spec_effects_of(spec_atom_events(k@)));
            }
        },
    }
}

impl AppState {
    /// Well-formed state. While the loop is live (interactive), the records
    /// handed to the host for appending, followed by those still pending,
    /// decode back to exactly the in-memory kapp log.
    pub open spec fn inv(&self) -> bool {
        &&& self.keyboard.wf()
        &&& self.ngrams.wf()
        &&& spec_bindings_shape(bindings_view(self.keybindings@))
        &&& forall|kv: KappV| #[trigger] self.ngrams@.contains_key(kv) ==> spec_is_window(
            kv,
            kapps_view(self.kapp_log@),
        )
        &&& (self.is_interactive ==> spec_decode_records(
            self.persisted@ + records_views(self.pending_records@),
        ) == Some(kapps_view(self.kapp_log@)))
    }

    /// A fresh, empty, non-interactive state in insert mode.
    pub fn new() -> (r: AppState)
        ensures
            r.inv(),
            kapps_view(r.kapp_log@) == Seq::<KappV>::empty(),
            r.ngrams@ == Map::<KappV, Rank>::empty(),
            r.ngrams.next_seq == 0,
            r.keyboard@ == Set::<Key>::empty(),
            r.input_mode == InputMode::Insert,
            bindings_view(r.keybindings@) == Seq::<(Key, KappV)>::empty(),
            r.pending_effects@ == Seq::<Effect>::empty(),
            r.pending_records@ == Seq::<Vec<u8>>::empty(),
            !r.is_interactive,
            r.persisted@ == Seq::<Seq<u8>>::empty(),
    {
        let r = AppState {
            kapp_log: Vec::new(),
            ngrams: NgramTable::new(),
            keyboard: KeyboardState::new(),
            input_mode: InputMode::Insert,
            keybindings: Vec::new(),
            pending_effects: Vec::new(),
            pending_records: Vec::new(),
            is_interactive: false,
            persisted: Ghost(Seq::empty()),
        };
        proof {
            assert(kapps_view(r.kapp_log@) =~= Seq::<KappV>::empty());
            assert(bindings_view(r.keybindings@) =~= Seq::<(Key, KappV)>::empty());
            assert(records_views(r.pending_records@) =~= Seq::<Seq<u8>>::empty());
            assert(r.persisted@ + records_views(r.pending_records@) =~= Seq::<Seq<u8>>::empty());
        }
        r
    }

    /// Evaluate one kapp: enqueue its effects, append it to the log, let
    /// the table learn the new log tail, and, when interactive, queue the
    /// encoded record for the durable log.
    pub fn logged_eval(&mut self, kapp: &Kapp)
        requires
            old(self).inv(),
        ensures
            final(self).inv(),
            kapps_view(final(self).kapp_log@) == kapps_view(old(self).kapp_log@).push(kapp@),
            final(self).ngrams@ == spec_logged_state(
                kapps_view(old(self).kapp_log@),
                old(self).ngrams@,
                old(self).ngrams.next_seq,
                kapp@,
            ).1,
            final(self).ngrams.next_seq == spec_logged_state(
                kapps_view(old(self).kapp_log@),
                old(self).ngrams@,
                old(self).ngrams.next_seq,
                kapp@,
            ).2,
            final(self).pending_effects@ == old(self).pending_effects@ + spec_effects_of(
                spec_atom_events(kapp@),
            ),
            old(self).is_interactive ==> records_views(final(self).pending_records@)
                == records_views(old(self).pending_records@).push(spec_encode(kapp@)),
            !old(self).is_interactive ==> final(self).pending_records == old(
                self,
            ).pending_records,
            final(self).keyboard == old(self).keyboard,
            final(self).input_mode == old(self).input_mode,
            final(self).keybindings == old(self).keybindings,
            final(self).is_interactive == old(self).is_interactive,
            final(self).persisted@ == old(self).persisted@,
    {
        eval(kapp, &mut self.pending_effects);
        let kc = kapp.deep_clone();
        self.kapp_log.push(kc);
        proof {
            lemma_kapps_view_index(old(self).kapp_log@);
            lemma_kapps_view_index(self.kapp_log@);
            assert(kapps_view(self.kapp_log@) =~= kapps_view(old(self).kapp_log@).push(kapp@));
        }
        self.ngrams.update_from_log_tail(&self.kapp_log);
        proof {
            lemma_table_keys_are_windows(
                old(self).ngrams@,
                old(self).ngrams.next_seq,
                kapps_view(old(self).kapp_log@),
                kapp@,
            );
        }
        if self.is_interactive {
            let rec = encode_record(kapp);
            self.pending_records.push(rec);
            proof {
                assert(records_views(self.pending_records@) =~= records_views(
                    old(self).pending_records@,
                ).push(spec_encode(kapp@)));
                let all_old = old(self).persisted@ + records_views(old(self).pending_records@);
                let all_new = self.persisted@ + records_views(self.pending_records@);
                assert(all_new =~= all_old.push(spec_encode(kapp@)));
                assert(all_new.drop_last() =~= all_old);
                lemma_record_round_trip(kapp@);
                assert(spec_decode_records(all_new) == Some(kapps_view(self.kapp_log@)));
            }
        }
    }
}

/// Skipping binding pairs whose key differs does not change the lookup.
proof fn lemma_lookup_skip(b: Seq<(Key, KappV)>, k: Key, i: int)
    requires
        0 <= i <= b.len(),
        forall|j: int| 0 <= j < i ==> (#[trigger] b[j]).0 != k,
    ensures
        spec_lookup(b, k) == spec_lookup(b.subrange(i, b.len() as int), k),
    decreases i,
{
    if i > 0 {
        let rest = b.subrange(1, b.len() as int);
        assert(b[0].0 != k);
        assert(forall|j: int| 0 <= j < i - 1 ==> (#[trigger] rest[j]).0 != k);
        lemma_lookup_skip(rest, k, i - 1);
        assert(rest.subrange(i - 1, rest.len() as int) =~= b.subrange(i, b.len() as int));
    } else {
        assert(b.subrange(0, b.len() as int) =~= b);
    }
}

/// A key bound by any pair is one of the keyswitches.
proof fn lemma_lookup_outside(b: Seq<(Key, KappV)>, k: Key)
    requires
        forall|i: int| 0 <= i < b.len() ==> spec_keyswitches().contains((#[trigger] b[i]).0),
        !spec_keyswitches().contains(k),
    ensures
        spec_lookup(b, k) is None,
    decreases b.len(),
{
    if b.len() > 0 {
        assert(b[0].0 != k);
        let rest = b.subrange(1, b.len() as int);
        assert(forall|i: int|
            0 <= i < rest.len() ==> spec_keyswitches().contains((#[trigger] rest[i]).0));
        lemma_lookup_outside(rest, k);
    }
}

/// The one member of a one-element set is what `choose` picks.
proof fn lemma_singleton_choose(s: Set<Key>, r: Key)
    requires
        s.finite(),
        s.len() == 1,
        s.contains(r),
    ensures
        s.choose() == r,
{
    if s.choose() != r {
        assert(s.remove(r).contains(s.choose()));
        assert(s.remove(r).len() == 0);
        s.remove(r).lemma_len0_is_empty();
    }
}

/// The kapp bound to `k`, cloned out of the binding list.
fn lookup_binding(bindings: &Vec<(Key, Kapp)>, k: Key) -> (r: Option<Kapp>)
    ensures
        match r {
            Some(kapp) => spec_lookup(bindings_view(bindings@), k) == Some(kapp@),
            None => spec_lookup(bindings_view(bindings@), k) is None,
        },
{
    let ghost bv = bindings_view(bindings@);
    let mut i: usize = 0;
    while i < bindings.len()
        invariant
            0 <= i <= bindings@.len(),
            bv == bindings_view(bindings@),
            forall|j: int| 0 <= j < i ==> (#[trigger] bv[j]).0 != k,
        decreases bindings@.len() - i,
    {
        if bindings[i].0 == k {
            let kapp = bindings[i].1.deep_clone();
            proof {
                lemma_lookup_skip(bv, k, i as int);
                assert(bv.subrange(i as int, bv.len() as int)[0] == bv[i as int]);
            }
            return Some(kapp);
        }
        i = i + 1;
    }
    proof {
        lemma_lookup_skip(bv, k, bv.len() as int);
        assert(bv.subrange(bv.len() as int, bv.len() as int) =~= Seq::<(Key, KappV)>::empty());
    }
    None
}

/// Whether `k` is one of the keyswitches.
fn is_keyswitch(k: Key) -> (r: bool)
    ensures
        r == spec_keyswitches().contains(k),
{
    let switches = crate::keys::keyswitches();
    let mut i: usize = 0;
    while i < switches.len()
        invariant
            0 <= i <= switches@.len(),
            switches@ == spec_keyswitches(),
            forall|j: int| 0 <= j < i ==> switches@[j] != k,
        decreases switches@.len() - i,
    {
        if switches[i] == k {
            proof {
                assert(spec_keyswitches().contains(k));
            }
            return true;
        }
        i = i + 1;
    }
    proof {
        assert(!spec_keyswitches().contains(k));
    }
    false
}

impl AppState {
    /// Rebind the keyswitches, in order, to the best-ranked kapps.
    #[verifier::loop_isolation(false)]
    pub fn update_keybindings(&mut self)
        requires
            old(self).inv(),
        ensures
            final(self).inv(),
            spec_bindings_ok(bindings_view(final(self).keybindings@), final(self).ngrams@),
            final(self).kapp_log == old(self).kapp_log,
            final(self).ngrams == old(self).ngrams,
            final(self).keyboard == old(self).keyboard,
            final(self).input_mode == old(self).input_mode,
            final(self).pending_effects == old(self).pending_effects,
            final(self).pending_records == old(self).pending_records,
            final(self).is_interactive == old(self).is_interactive,
            final(self).persisted@ == old(self).persisted@,
    {
        let tops = self.ngrams.top(8);
        proof {
            lemma_kapps_view_index(tops@);
        }
        let switches = crate::keys::keyswitches();
        let mut bs: Vec<(Key, Kapp)> = Vec::new();
        let mut i: usize = 0;
        while i < tops.len()
            invariant
                0 <= i <= tops@.len(),
                tops@.len() <= 8,
                switches@ == spec_keyswitches(),
                bs@.len() == i,
                forall|j: int|
                    0 <= j < i ==> (#[trigger] bs@[j]).0 == spec_keyswitches()[j] && bs@[j].1@
                        == kapps_view(tops@)[j],
            decreases tops@.len() - i,
        {
            let kc = tops[i].deep_clone();
            bs.push((switches[i], kc));
            i = i + 1;
        }
        self.keybindings = bs;
        proof {
            let bv = bindings_view(self.keybindings@);
            assert(bv.len() == tops@.len());
            assert(forall|j: int| 0 <= j < bv.len() ==> (#[trigger] bv[j]).0
                == spec_keyswitches()[j] && bv[j].1 == kapps_view(tops@)[j]);
            assert(bv.map_values(|p: (Key, KappV)| p.1) =~= kapps_view(tops@));
        }
    }

    /// While no key is held, the keybindings match the table's best kapps.
    pub fn recompute_derived_data_if_needed(&mut self)
        requires
            old(self).inv(),
        ensures
            final(self).inv(),
            old(self).keyboard@.len() == 0 ==> spec_bindings_ok(
                bindings_view(final(self).keybindings@),
                final(self).ngrams@,
            ),
            old(self).keyboard@.len() != 0 ==> final(self).keybindings == old(self).keybindings,
            final(self).kapp_log == old(self).kapp_log,
            final(self).ngrams == old(self).ngrams,
            final(self).keyboard == old(self).keyboard,
            final(self).input_mode == old(self).input_mode,
            final(self).pending_effects == old(self).pending_effects,
            final(self).pending_records == old(self).pending_records,
            final(self).is_interactive == old(self).is_interactive,
            final(self).persisted@ == old(self).persisted@,
    {
        if self.keyboard.is_idle() {
            self.update_keybindings();
        }
    }

    /// One reducer step for one key event. The keyboard always tracks the
    /// event; the mode follows the pure transition function; at most one
    /// kapp is evaluated and logged, as `spec_emitted` says; and when the
    /// pressed set ends up empty, the keybindings are recomputed from the
    /// table (idle recomputation).
    #[verifier::rlimit(100)]
    pub fn reduce(&mut self, e: KeyEventKind)
        requires
            old(self).inv(),
        ensures
            final(self).inv(),
            final(self).keyboard@ == spec_kbd_update(old(self).keyboard@, e),
            final(self).input_mode == spec_next_mode(old(self).input_mode, old(self).keyboard@, e),
            kapps_view(final(self).kapp_log@) == kapps_view(old(self).kapp_log@) + spec_emitted(
                old(self).input_mode,
                old(self).keyboard@,
                bindings_view(old(self).keybindings@),
                e,
            ),
            final(self).ngrams@ == spec_replay_state(
                kapps_view(old(self).kapp_log@),
                old(self).ngrams@,
                old(self).ngrams.next_seq,
                spec_emitted(
                    old(self).input_mode,
                    old(self).keyboard@,
                    bindings_view(old(self).keybindings@),
                    e,
                ),
            ).1,
            final(self).ngrams.next_seq == spec_replay_state(
                kapps_view(old(self).kapp_log@),
                old(self).ngrams@,
                old(self).ngrams.next_seq,
                spec_emitted(
                    old(self).input_mode,
                    old(self).keyboard@,
                    bindings_view(old(self).keybindings@),
                    e,
                ),
            ).2,
            final(self).pending_effects@ == old(self).pending_effects@ + spec_effects_of(
                crate::kapp::spec_atom_events_seq(
                    spec_emitted(
                        old(self).input_mode,
                        old(self).keyboard@,
                        bindings_view(old(self).keybindings@),
                        e,
                    ),
                ),
            ),
            old(self).is_interactive ==> records_views(final(self).pending_records@)
                == records_views(old(self).pending_records@) + spec_emitted(
                old(self).input_mode,
                old(self).keyboard@,
                bindings_view(old(self).keybindings@),
                e,
            ).map_values(|kv: KappV| spec_encode(kv)),
            !old(self).is_interactive ==> final(self).pending_records == old(
                self,
            ).pending_records,
            final(self).is_interactive == old(self).is_interactive,
            final(self).persisted@ == old(self).persisted@,
            spec_kbd_update(old(self).keyboard@, e).len() == 0 ==> spec_bindings_ok(
                bindings_view(final(self).keybindings@),
                final(self).ngrams@,
            ),
            spec_kbd_update(old(self).keyboard@, e).len() != 0 ==> final(self).keybindings == old(
                self,
            ).keybindings,
    {
        let ghost emitted = spec_emitted(
            old(self).input_mode,
            old(self).keyboard@,
            bindings_view(old(self).keybindings@),
            e,
        );
        match self.input_mode {
            InputMode::Insert => {
                self.keyboard.update(e);
                if self.keyboard.enter_command_mode() {
                    self.input_mode = InputMode::LeavingInsertEnteringCommand;
                    proof {
                        assert(emitted =~= Seq::<KappV>::empty());
                    }
                } else {
                    let kapp = Kapp::from_kind(e);
                    self.logged_eval(&kapp);
                    proof {
                        assert(emitted =~= seq![KappV::Atom(e)]);
                    }
                }
            },
            InputMode::LeavingInsertEnteringCommand => {
                if !self.keyboard.enter_command_mode() {
                    let kapp = Kapp::from_kind(e);
                    self.logged_eval(&kapp);
                    if self.keyboard.pressed_count() == 1 {
                        self.input_mode = InputMode::Command;
                    }
                    proof {
                        assert(emitted =~= seq![KappV::Atom(e)]);
                    }
                } else {
                    proof {
                        assert(emitted =~= Seq::<KappV>::empty());
                    }
                }
                self.keyboard.update(e);
            },
            InputMode::LeavingCommandEnteringInsert => {
                if self.keyboard.pressed_count() == 1 {
                    self.input_mode = InputMode::Insert;
                }
                self.keyboard.update(e);
                proof {
                    assert(emitted =~= Seq::<KappV>::empty());
                }
            },
            InputMode::Command => {
                self.keyboard.update(e);
                if self.keyboard.enter_insert_mode() {
                    self.input_mode = InputMode::LeavingCommandEnteringInsert;
                    proof {
                        assert(emitted =~= Seq::<KappV>::empty());
                    }
                } else if !self.keyboard.enter_command_mode() {
                    if self.keyboard.pressed_count() == 1 {
                        let pressed_key = self.keyboard.only_pressed();
                        proof {
                            broadcast use vstd::seq_lib::seq_to_set_is_finite;

                            lemma_singleton_choose(self.keyboard@, pressed_key);
                        }
                        if is_keyswitch(pressed_key) {
                            match lookup_binding(&self.keybindings, pressed_key) {
                                Some(kapp) => {
                                    self.logged_eval(&kapp);
                                    proof {
                                        assert(emitted =~= seq![kapp@]);
                                    }
                                },
                                None => {
                                    proof {
                                        assert(emitted =~= Seq::<KappV>::empty());
                                    }
                                },
                            }
                        } else {
                            proof {
                                lemma_lookup_outside(
                                    bindings_view(old(self).keybindings@),
                                    pressed_key,
                                );
                                assert(emitted =~= Seq::<KappV>::empty());
                            }
                        }
                    } else {
                        proof {
                            assert(emitted =~= Seq::<KappV>::empty());
                        }
                    }
                } else {
                    proof {
                        assert(emitted =~= Seq::<KappV>::empty());
                    }
                }
            },
        }
        proof {
            if emitted.len() == 0 {
                assert(kapps_view(self.kapp_log@) =~= kapps_view(old(self).kapp_log@) + emitted);
                assert(crate::kapp::spec_atom_events_seq(emitted) =~= Seq::<
                    KeyEventKind,
                >::empty());
                assert(self.pending_effects@ =~= old(self).pending_effects@ + spec_effects_of(
                    crate::kapp::spec_atom_events_seq(emitted),
                ));
                if old(self).is_interactive {
                    assert(records_views(self.pending_records@) =~= records_views(
                        old(self).pending_records@,
                    ) + emitted.map_values(|kv: KappV| spec_encode(kv)));
                }
            } else {
                let kv = emitted[0];
                assert(emitted =~= seq![kv]);
                assert(emitted.drop_last() =~= Seq::<KappV>::empty());
                assert(spec_replay_state(
                    kapps_view(old(self).kapp_log@),
                    old(self).ngrams@,
                    old(self).ngrams.next_seq,
                    emitted,
                ) == spec_logged_state(
                    kapps_view(old(self).kapp_log@),
                    old(self).ngrams@,
                    old(self).ngrams.next_seq,
                    kv,
                )) by {
                    reveal_with_fuel(spec_replay_state, 2);
                    assert(emitted.last() == kv);
                }
                assert(kapps_view(self.kapp_log@) =~= kapps_view(old(self).kapp_log@) + emitted);
                assert(crate::kapp::spec_atom_events_seq(emitted) =~= spec_atom_events(kv)) by {
                    reveal_with_fuel(crate::kapp::spec_atom_events_seq, 2);
                    assert(emitted.subrange(1, emitted.len() as int) =~= Seq::<KappV>::empty());
                    assert(spec_atom_events(kv) + Seq::<KeyEventKind>::empty() =~= spec_atom_events(
                        kv,
                    ));
                }
                assert(self.pending_effects@ =~= old(self).pending_effects@ + spec_effects_of(
                    crate::kapp::spec_atom_events_seq(emitted),
                ));
                if old(self).is_interactive {
                    assert(records_views(self.pending_records@) =~= records_views(
                        old(self).pending_records@,
                    ) + emitted.map_values(|kvx: KappV| spec_encode(kvx)));
                }
            }
        }
        self.recompute_derived_data_if_needed();
    }

    /// Whether a step that just handled `e` should repaint: the event was a
    /// release and no key is held any more.
    pub fn should_rerender(&self, e: KeyEventKind) -> (r: bool)
        requires
            self.inv(),
        ensures
            r == ((e is Release) && self.keyboard@.len() == 0),
    {
        match e {
            KeyEventKind::Release(_) => self.keyboard.is_idle(),
            KeyEventKind::Press(_) => false,
        }
    }

    /// Hand out the queued effects, oldest first, leaving the queue empty.
    pub fn take_effects(&mut self) -> (r: Vec<Effect>)
        requires
            old(self).inv(),
        ensures
            final(self).inv(),
            r@ == old(self).pending_effects@,
            final(self).pending_effects@ == Seq::<Effect>::empty(),
            final(self).kapp_log == old(self).kapp_log,
            final(self).ngrams == old(self).ngrams,
            final(self).keyboard == old(self).keyboard,
            final(self).input_mode == old(self).input_mode,
            final(self).keybindings == old(self).keybindings,
            final(self).pending_records == old(self).pending_records,
            final(self).is_interactive == old(self).is_interactive,
            final(self).persisted@ == old(self).persisted@,
    {
        let mut out: Vec<Effect> = Vec::new();
        core::mem::swap(&mut out, &mut self.pending_effects);
        out
    }

    /// Hand out the queued records for the host to append to the durable
    /// log, oldest first. From here on they count as persisted.
    pub fn take_records(&mut self) -> (r: Vec<Vec<u8>>)
        requires
            old(self).inv(),
        ensures
            final(self).inv(),
            r@ == old(self).pending_records@,
            final(self).pending_records@ == Seq::<Vec<u8>>::empty(),
            final(self).persisted@ == old(self).persisted@ + records_views(
                old(self).pending_records@,
            ),
            final(self).kapp_log == old(self).kapp_log,
            final(self).ngrams == old(self).ngrams,
            final(self).keyboard == old(self).keyboard,
            final(self).input_mode == old(self).input_mode,
            final(self).keybindings == old(self).keybindings,
            final(self).pending_effects == old(self).pending_effects,
            final(self).is_interactive == old(self).is_interactive,
    {
        let mut out: Vec<Vec<u8>> = Vec::new();
        core::mem::swap(&mut out, &mut self.pending_records);
        proof {
            assert(records_views(self.pending_records@) =~= Seq::<Seq<u8>>::empty());
        }
        self.persisted = Ghost(self.persisted@ + records_views(out@));
        proof {
            if self.is_interactive {
                assert(self.persisted@ + records_views(self.pending_records@) =~= old(
                    self,
                ).persisted@ + records_views(old(self).pending_records@));
            }
        }
        out
    }

    /// Rebuild state from the records of the durable log, oldest first:
    /// each record is decoded and evaluated exactly as a live kapp, except
    /// that nothing is persisted, and at the end the effect queue is
    /// discarded, so replay re-simulates nothing (effect suppression).
    /// Fails, leaving the state non-interactive, if any record is corrupt.
    #[verifier::loop_isolation(false)]
    pub fn replay(&mut self, records: &Vec<Vec<u8>>) -> (r: Result<(), crate::codec::DecodeError>)
        requires
            old(self).inv(),
            !old(self).is_interactive,
        ensures
            final(self).inv(),
            !final(self).is_interactive,
            r is Ok ==> spec_decode_records(records_views(records@)) is Some,
            r is Err ==> spec_decode_records(records_views(records@)) is None,
            spec_decode_records(records_views(records@)) matches Some(ks) ==> {
                &&& kapps_view(final(self).kapp_log@) == spec_replay_state(
                    kapps_view(old(self).kapp_log@),
                    old(self).ngrams@,
                    old(self).ngrams.next_seq,
                    ks,
                ).0
                &&& final(self).ngrams@ == spec_replay_state(
                    kapps_view(old(self).kapp_log@),
                    old(self).ngrams@,
                    old(self).ngrams.next_seq,
                    ks,
                ).1
                &&& final(self).ngrams.next_seq == spec_replay_state(
                    kapps_view(old(self).kapp_log@),
                    old(self).ngrams@,
                    old(self).ngrams.next_seq,
                    ks,
                ).2
            },
            r is Ok ==> final(self).pending_effects@ == Seq::<Effect>::empty(),
            r is Ok ==> final(self).persisted@ == old(self).persisted@ + records_views(records@),
            final(self).keyboard == old(self).keyboard,
            final(self).input_mode == old(self).input_mode,
            final(self).keybindings == old(self).keybindings,
            final(self).pending_records == old(self).pending_records,
    {
        let ghost recvs = records_views(records@);
        let ghost log0 = kapps_view(old(self).kapp_log@);
        let ghost t0 = old(self).ngrams@;
        let ghost ns0 = old(self).ngrams.next_seq;
        let mut i: usize = 0;
        while i < records.len()
            invariant
                0 <= i <= records@.len(),
                self.inv(),
                !self.is_interactive,
                spec_decode_records(recvs.take(i as int)) matches Some(ks) && kapps_view(
                    self.kapp_log@,
                ) == spec_replay_state(log0, t0, ns0, ks).0 && self.ngrams@ == spec_replay_state(
                    log0,
                    t0,
                    ns0,
                    ks,
                ).1 && self.ngrams.next_seq == spec_replay_state(log0, t0, ns0, ks).2,
                self.keyboard == old(self).keyboard,
                self.input_mode == old(self).input_mode,
                self.keybindings == old(self).keybindings,
                self.pending_records == old(self).pending_records,
                self.persisted@ == old(self).persisted@,
            decreases records@.len() - i,
        {
            proof {
                assert(recvs.take(0) =~= Seq::<Seq<u8>>::empty());
            }
            match crate::codec::decode_record(records[i].as_slice()) {
                Ok(kapp) => {
                    proof {
                        let ks = spec_decode_records(recvs.take(i as int))->Some_0;
                        assert(recvs.take(i + 1).drop_last() =~= recvs.take(i as int));
                        assert(recvs.take(i + 1).last() == recvs[i as int]);
                        assert(spec_decode_records(recvs.take(i + 1)) == Some(ks.push(kapp@)));
                        assert(ks.push(kapp@).drop_last() =~= ks);
                    }
                    self.logged_eval(&kapp);
                },
                Err(er) => {
                    proof {
                        lemma_decode_records_prefix_none(recvs, i as int);
                    }
                    return Err(er);
                },
            }
            i = i + 1;
        }
        proof {
            assert(recvs.take(records@.len() as int) =~= recvs);
        }
        self.pending_effects.clear();
        self.persisted = Ghost(self.persisted@ + recvs);
        Ok(())
    }

    /// Start the live loop: from now on every evaluated kapp is persisted.
    /// The durable log must already agree with the in-memory one.
    pub fn go_live(&mut self)
        requires
            old(self).inv(),
            spec_decode_records(old(self).persisted@ + records_views(old(self).pending_records@))
                == Some(kapps_view(old(self).kapp_log@)),
        ensures
            final(self).inv(),
            final(self).is_interactive,
            final(self).kapp_log == old(self).kapp_log,
            final(self).ngrams == old(self).ngrams,
            final(self).keyboard == old(self).keyboard,
            final(self).input_mode == old(self).input_mode,
            final(self).keybindings == old(self).keybindings,
            final(self).pending_effects == old(self).pending_effects,
            final(self).pending_records == old(self).pending_records,
            final(self).persisted@ == old(self).persisted@,
    {
        self.is_interactive = true;
    }
}

/// If one record of a run is corrupt, the whole run fails to decode.
proof fn lemma_decode_records_prefix_none(rs: Seq<Seq<u8>>, i: int)
    requires
        0 <= i < rs.len(),
        spec_decode_record(rs[i]) is None,
    ensures
        spec_decode_records(rs) is None,
    decreases rs.len(),
{
    if rs.len() > 0 {
        if i == rs.len() - 1 {
            assert(rs.last() == rs[i]);
        } else {
            assert(rs.drop_last()[i] == rs[i]);
            lemma_decode_records_prefix_none(rs.drop_last(), i);
        }
    }
}

/// Replay determinism: the records persisted for a run of kapps decode
/// back to exactly that run. With `replay`'s contract, rebuilding from
/// them folds `spec_replay_state` over the same kapps from the same start,
/// so the rebuilt kapp log and n-gram table equal the live ones.
pub proof fn lemma_replay_determinism(ks: Seq<KappV>)
    requires
        crate::codec::spec_kapps_bounded(ks),
    ensures
        spec_decode_records(ks.map_values(|k: KappV| spec_encode(k))) == Some(ks),
    decreases ks.len(),
{
    let recs = ks.map_values(|k: KappV| spec_encode(k));
    if ks.len() > 0 {
        crate::codec::lemma_kapps_bounded_index(ks);
        crate::codec::lemma_kapps_bounded_take(ks, ks.len() - 1);
        assert(ks.drop_last() =~= ks.take(ks.len() - 1));
        lemma_replay_determinism(ks.drop_last());
        assert(recs.drop_last() =~= ks.drop_last().map_values(|k: KappV| spec_encode(k)));
        assert(recs.last() == spec_encode(ks.last()));
        lemma_record_round_trip(ks.last());
        assert(spec_decode_records(recs) == Some(ks.drop_last().push(ks.last())));
        assert(ks.drop_last().push(ks.last()) =~= ks);
    } else {
        assert(recs.len() == 0);
    }
}


} // verus!

use vstd::prelude::*;

use crate::keys::{Key, KeyEventKind};

verus! {

/// Meta (command) is held: either variant.
pub open spec fn spec_meta(s: Set<Key>) -> bool {
    s.contains(Key::MetaLeft) || s.contains(Key::MetaRight)
}

/// Control is held: either variant.
pub open spec fn spec_control(s: Set<Key>) -> bool {
    s.contains(Key::ControlLeft) || s.contains(Key::ControlRight)
}

/// Shift is held: either variant.
pub open spec fn spec_shift(s: Set<Key>) -> bool {
    s.contains(Key::ShiftLeft) || s.contains(Key::ShiftRight)
}

/// The chord that asks for command mode: meta, control and K together.
pub open spec fn spec_enter_command_mode(s: Set<Key>) -> bool {
    spec_meta(s) && spec_control(s) && s.contains(Key::KeyK)
}

/// The chord that asks for insert mode: meta, control and J together.
pub open spec fn spec_enter_insert_mode(s: Set<Key>) -> bool {
    spec_meta(s) && spec_control(s) && s.contains(Key::KeyJ)
}

/// One key event applied to the pressed set: a press adds the key, a
/// release removes it. Releasing a key that is not held changes nothing.
pub open spec fn spec_kbd_update(s: Set<Key>, e: KeyEventKind) -> Set<Key> {
    match e {
        KeyEventKind::Press(k) => s.insert(k),
        KeyEventKind::Release(k) => s.remove(k),
    }
}

/// The set of physical keys currently held down, tracked from the net
/// press/release history the reducer has seen.
pub struct KeyboardState {
    pub pressed: Vec<Key>,
}

impl View for KeyboardState {
    type V = Set<Key>;

    open spec fn view(&self) -> Set<Key> {
        self.pressed@.to_set()
    }
}

impl KeyboardState {
    /// The backing list holds each pressed key once.
    pub open spec fn wf(&self) -> bool {
        self.pressed@.no_duplicates()
    }

    /// No key held.
    pub fn new() -> (r: KeyboardState)
        ensures
            r.wf(),
            r@ == Set::<Key>::empty(),
    {
        let r = KeyboardState { pressed: Vec::new() };
        proof {
            assert(r.pressed@.to_set() =~= Set::<Key>::empty());
        }
        r
    }

    /// Whether `k` is currently held.
    pub fn pressed_key(&self, k: Key) -> (r: bool)
        ensures
            r == self@.contains(k),
    {
        let mut i: usize = 0;
        while i < self.pressed.len()
            invariant
                0 <= i <= self.pressed@.len(),
                forall|j: int| 0 <= j < i ==> self.pressed@[j] != k,
            decreases self.pressed@.len() - i,
        {
            if self.pressed[i] == k {
                proof {
                    assert(self.pressed@.contains(k));
                }
                return true;
            }
            i = i + 1;
        }
        proof {
            assert(!self.pressed@.contains(k));
        }
        false
    }

    /// How many keys are held.
    pub fn pressed_count(&self) -> (r: usize)
        requires
            self.wf(),
        ensures
            r == self@.len(),
    {
        proof {
            self.pressed@.unique_seq_to_set();
        }
        self.pressed.len()
    }

    /// No key is held.
    pub fn is_idle(&self) -> (r: bool)
        requires
            self.wf(),
        ensures
            r == (self@.len() == 0),
    {
        proof {
            self.pressed@.unique_seq_to_set();
        }
        self.pressed.len() == 0
    }

    /// The single held key, when exactly one is held.
    pub fn only_pressed(&self) -> (r: Key)
        requires
            self.wf(),
            self@.len() == 1,
        ensures
            self@.contains(r),
    {
        proof {
            self.pressed@.unique_seq_to_set();
            assert(self.pressed@.contains(self.pressed@[0]));
        }
        self.pressed[0]
    }

    /// Apply one key event to the pressed set.
    #[verifier::loop_isolation(false)]
    pub fn update(&mut self, e: KeyEventKind)
        requires
            old(self).wf(),
        ensures
            final(self).wf(),
            final(self)@ == spec_kbd_update(old(self)@, e),
    {
        match e {
            KeyEventKind::Press(k) => {
                if !self.pressed_key(k) {
                    self.pressed.push(k);
                    proof {
                        assert forall|a: Key| #[trigger] self.pressed@.contains(a) implies (old(
                            self,
                        ).pressed@.contains(a) || a == k) by {
                            let j = choose|j: int|
                                0 <= j < self.pressed@.len() && self.pressed@[j] == a;
                            if j < old(self).pressed@.len() {
                                assert(old(self).pressed@[j] == a);
                            }
                        }
                        assert forall|a: Key| old(self).pressed@.contains(a)
                            implies self.pressed@.contains(a) by {
                            let j = choose|j: int|
                                0 <= j < old(self).pressed@.len() && old(self).pressed@[j] == a;
                            assert(self.pressed@[j] == a);
                        }
                        assert(self.pressed@.contains(k)) by {
                            assert(self.pressed@[self.pressed@.len() - 1] == k);
                        }
                        assert(self@ =~= old(self)@.insert(k));
                    }
                } else {
                    proof {
                        assert(self@ =~= old(self)@.insert(k));
                    }
                }
            },
            KeyEventKind::Release(k) => {
                let mut i: usize = 0;
                let n = self.pressed.len();
                while i < n
                    invariant
                        old(self) == self,
                        n == self.pressed@.len(),
                        0 <= i <= n,
                        forall|j: int| 0 <= j < i ==> self.pressed@[j] != k,
                    decreases n - i,
                {
                    if self.pressed[i] == k {
                        let ghost before = self.pressed@;
                        self.pressed.remove(i);
                        proof {
                            let after = self.pressed@;
                            assert(after =~= before.subrange(0, i as int) + before.subrange(
                                i + 1,
                                before.len() as int,
                            ));
                            assert(before[i as int] == k);
                            assert(forall|j: int|
                                0 <= j < after.len() ==> after[j] == before[
                                    if j < i { j } else { j + 1 }
                                ]);
                            assert(after.no_duplicates()) by {
                                assert forall|x: int, y: int|
                                    0 <= x < after.len() && 0 <= y < after.len() && x != y
                                    implies after[x] != after[y] by {
                                    let bx: int = if x < i { x } else { x + 1 };
                                    let by: int = if y < i { y } else { y + 1 };
                                    assert(after[x] == before[bx]);
                                    assert(after[y] == before[by]);
                                }
                            }
                            assert forall|a: Key| #[trigger] after.contains(a) implies (
                            before.contains(a) && a != k) by {
                                let j = choose|j: int| 0 <= j < after.len() && after[j] == a;
                                let bj: int = if j < i { j } else { j + 1 };
                                assert(before[bj] == a);
                                assert(before.contains(a));
                                if a == k {
                                    assert(bj != i);
                                    assert(before[bj] == before[i as int]);
                                }
                            }
                            assert forall|a: Key| before.contains(a) && a != k
                                implies after.contains(a) by {
                                let j = choose|j: int| 0 <= j < before.len() && before[j] == a;
                                assert(j != i);
                                if j < i {
                                    assert(after[j] == a);
                                    assert(after.contains(a));
                                } else {
                                    assert(after[j - 1] == a);
                                    assert(after.contains(a));
                                }
                            }
                            assert(self@ =~= old(self)@.remove(k));
                        }
                        return ;
                    }
                    i = i + 1;
                }
                proof {
                    assert(!self.pressed@.contains(k));
                    assert(self@ =~= old(self)@.remove(k));
                }
            },
        }
    }

    /// Meta (command) is held.
    pub fn meta(&self) -> (r: bool)
        ensures
            r == spec_meta(self@),
    {
        self.pressed_key(Key::MetaLeft) || self.pressed_key(Key::MetaRight)
    }

    /// Command is an alias for meta.
    pub fn command(&self) -> (r: bool)
        ensures
            r == spec_meta(self@),
    {
        self.meta()
    }

    /// Control is held.
    pub fn control(&self) -> (r: bool)
        ensures
            r == spec_control(self@),
    {
        self.pressed_key(Key::ControlLeft) || self.pressed_key(Key::ControlRight)
    }

    /// Shift is held.
    pub fn shift(&self) -> (r: bool)
        ensures
            r == spec_shift(self@),
    {
        self.pressed_key(Key::ShiftLeft) || self.pressed_key(Key::ShiftRight)
    }

    /// The command-mode chord is held.
    pub fn enter_command_mode(&self) -> (r: bool)
        ensures
            r == spec_enter_command_mode(self@),
    {
        self.command() && self.control() && self.pressed_key(Key::KeyK)
    }

    /// The insert-mode chord is held.
    pub fn enter_insert_mode(&self) -> (r: bool)
        ensures
            r == spec_enter_insert_mode(self@),
    {
        self.command() && self.control() && self.pressed_key(Key::KeyJ)
    }
}

} // verus!

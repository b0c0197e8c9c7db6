use vstd::prelude::*;
use vstd::string::*;

use crate::kapp::{kapps_view, lemma_kapps_view_index, Kapp, KappV};
use crate::keys::{Key, KeyEventKind};
use crate::ngram::Rank;
use crate::state::{bindings_view, AppState, InputMode};

verus! {

/// Decimal digits of `n`, most significant first.
pub open spec fn spec_dec_u64(n: u64) -> Seq<char>
    decreases n,
{
    if n < 10 {
        seq![spec_digit(n)]
    } else {
        spec_dec_u64(n / 10).push(spec_digit(n % 10))
    }
}

pub open spec fn spec_digit(d: u64) -> char {
    if d == 0 {
        '0'
    } else if d == 1 {
        '1'
    } else if d == 2 {
        '2'
    } else if d == 3 {
        '3'
    } else if d == 4 {
        '4'
    } else if d == 5 {
        '5'
    } else if d == 6 {
        '6'
    } else if d == 7 {
        '7'
    } else if d == 8 {
        '8'
    } else {
        '9'
    }
}

/// Append the decimal digits of `n`.
pub fn push_dec_u64(n: u64, out: &mut String)
    ensures
        final(out)@ == old(out)@ + spec_dec_u64(n),
    decreases n,
{
    if n >= 10 {
        push_dec_u64(n / 10, out);
    }
    let d = n % 10;
    let ds: &str = if d == 0 {
        "0"
    } else if d == 1 {
        "1"
    } else if d == 2 {
        "2"
    } else if d == 3 {
        "3"
    } else if d == 4 {
        "4"
    } else if d == 5 {
        "5"
    } else if d == 6 {
        "6"
    } else if d == 7 {
        "7"
    } else if d == 8 {
        "8"
    } else {
        "9"
    };
    proof {
        reveal_strlit("0");
        reveal_strlit("1");
        reveal_strlit("2");
        reveal_strlit("3");
        reveal_strlit("4");
        reveal_strlit("5");
        reveal_strlit("6");
        reveal_strlit("7");
        reveal_strlit("8");
        reveal_strlit("9");
        assert(ds@ =~= seq![spec_digit(d)]);
    }
    out.append(ds);
    proof {
        if n < 10 {
            assert(out@ =~= old(out)@ + spec_dec_u64(n));
        } else {
            assert(out@ =~= old(out)@ + spec_dec_u64(n));
        }
    }
}

/// The printable identifier of a key, as the rendering uses it.
pub open spec fn spec_key_name(k: Key) -> Seq<char> {
    match k {
        Key::Alt => "Alt"@,
        Key::AltGr => "AltGr"@,
        Key::Backspace => "Backspace"@,
        Key::CapsLock => "CapsLock"@,
        Key::ControlLeft => "ControlLeft"@,
        Key::ControlRight => "ControlRight"@,
        Key::Delete => "Delete"@,
        Key::DownArrow => "DownArrow"@,
        Key::End => "End"@,
        Key::Escape => "Escape"@,
        Key::F1 => "F1"@,
        Key::F10 => "F10"@,
        Key::F11 => "F11"@,
        Key::F12 => "F12"@,
        Key::F2 => "F2"@,
        Key::F3 => "F3"@,
        Key::F4 => "F4"@,
        Key::F5 => "F5"@,
        Key::F6 => "F6"@,
        Key::F7 => "F7"@,
        Key::F8 => "F8"@,
        Key::F9 => "F9"@,
        Key::Home => "Home"@,
        Key::LeftArrow => "LeftArrow"@,
        Key::MetaLeft => "MetaLeft"@,
        Key::MetaRight => "MetaRight"@,
        Key::PageDown => "PageDown"@,
        Key::PageUp => "PageUp"@,
        Key::Return => "Return"@,
        Key::RightArrow => "RightArrow"@,
        Key::ShiftLeft => "ShiftLeft"@,
        Key::ShiftRight => "ShiftRight"@,
        Key::Space => "Space"@,
        Key::Tab => "Tab"@,
        Key::UpArrow => "UpArrow"@,
        Key::PrintScreen => "PrintScreen"@,
        Key::ScrollLock => "ScrollLock"@,
        Key::Pause => "Pause"@,
        Key::NumLock => "NumLock"@,
        Key::BackQuote => "BackQuote"@,
        Key::Num1 => "Num1"@,
        Key::Num2 => "Num2"@,
        Key::Num3 => "Num3"@,
        Key::Num4 => "Num4"@,
        Key::Num5 => "Num5"@,
        Key::Num6 => "Num6"@,
        Key::Num7 => "Num7"@,
        Key::Num8 => "Num8"@,
        Key::Num9 => "Num9"@,
        Key::Num0 => "Num0"@,
        Key::Minus => "Minus"@,
        Key::Equal => "Equal"@,
        Key::KeyQ => "KeyQ"@,
        Key::KeyW => "KeyW"@,
        Key::KeyE => "KeyE"@,
        Key::KeyR => "KeyR"@,
        Key::KeyT => "KeyT"@,
        Key::KeyY => "KeyY"@,
        Key::KeyU => "KeyU"@,
        Key::KeyI => "KeyI"@,
        Key::KeyO => "KeyO"@,
        Key::KeyP => "KeyP"@,
        Key::LeftBracket => "LeftBracket"@,
        Key::RightBracket => "RightBracket"@,
        Key::KeyA => "KeyA"@,
        Key::KeyS => "KeyS"@,
        Key::KeyD => "KeyD"@,
        Key::KeyF => "KeyF"@,
        Key::KeyG => "KeyG"@,
        Key::KeyH => "KeyH"@,
        Key::KeyJ => "KeyJ"@,
        Key::KeyK => "KeyK"@,
        Key::KeyL => "KeyL"@,
        Key::SemiColon => "SemiColon"@,
        Key::Quote => "Quote"@,
        Key::BackSlash => "BackSlash"@,
        Key::IntlBackslash => "IntlBackslash"@,
        Key::KeyZ => "KeyZ"@,
        Key::KeyX => "KeyX"@,
        Key::KeyC => "KeyC"@,
        Key::KeyV => "KeyV"@,
        Key::KeyB => "KeyB"@,
        Key::KeyN => "KeyN"@,
        Key::KeyM => "KeyM"@,
        Key::Comma => "Comma"@,
        Key::Dot => "Dot"@,
        Key::Slash => "Slash"@,
        Key::Insert => "Insert"@,
        Key::KpReturn => "KpReturn"@,
        Key::KpMinus => "KpMinus"@,
        Key::KpPlus => "KpPlus"@,
        Key::KpMultiply => "KpMultiply"@,
        Key::KpDivide => "KpDivide"@,
        Key::Kp0 => "Kp0"@,
        Key::Kp1 => "Kp1"@,
        Key::Kp2 => "Kp2"@,
        Key::Kp3 => "Kp3"@,
        Key::Kp4 => "Kp4"@,
        Key::Kp5 => "Kp5"@,
        Key::Kp6 => "Kp6"@,
        Key::Kp7 => "Kp7"@,
        Key::Kp8 => "Kp8"@,
        Key::Kp9 => "Kp9"@,
        Key::KpDelete => "KpDelete"@,
        Key::Function => "Function"@,
        Key::Unknown(c) => "Unknown("@ + spec_dec_u64(c as u64) + ")"@,
    }
}

/// Append the printable identifier of `k`.
pub fn push_key_name(k: &Key, out: &mut String)
    ensures
        final(out)@ == old(out)@ + spec_key_name(*k),
{
    match k {
        Key::Alt => {
            out.append("Alt");
        },
        Key::AltGr => {
            out.append("AltGr");
        },
        Key::Backspace => {
            out.append("Backspace");
        },
        Key::CapsLock => {
            out.append("CapsLock");
        },
        Key::ControlLeft => {
            out.append("ControlLeft");
        },
        Key::ControlRight => {
            out.append("ControlRight");
        },
        Key::Delete => {
            out.append("Delete");
        },
        Key::DownArrow => {
            out.append("DownArrow");
        },
        Key::End => {
            out.append("End");
        },
        Key::Escape => {
            out.append("Escape");
        },
        Key::F1 => {
            out.append("F1");
        },
        Key::F10 => {
            out.append("F10");
        },
        Key::F11 => {
            out.append("F11");
        },
        Key::F12 => {
            out.append("F12");
        },
        Key::F2 => {
            out.append("F2");
        },
        Key::F3 => {
            out.append("F3");
        },
        Key::F4 => {
            out.append("F4");
        },
        Key::F5 => {
            out.append("F5");
        },
        Key::F6 => {
            out.append("F6");
        },
        Key::F7 => {
            out.append("F7");
        },
        Key::F8 => {
            out.append("F8");
        },
        Key::F9 => {
            out.append("F9");
        },
        Key::Home => {
            out.append("Home");
        },
        Key::LeftArrow => {
            out.append("LeftArrow");
        },
        Key::MetaLeft => {
            out.append("MetaLeft");
        },
        Key::MetaRight => {
            out.append("MetaRight");
        },
        Key::PageDown => {
            out.append("PageDown");
        },
        Key::PageUp => {
            out.append("PageUp");
        },
        Key::Return => {
            out.append("Return");
        },
        Key::RightArrow => {
            out.append("RightArrow");
        },
        Key::ShiftLeft => {
            out.append("ShiftLeft");
        },
        Key::ShiftRight => {
            out.append("ShiftRight");
        },
        Key::Space => {
            out.append("Space");
        },
        Key::Tab => {
            out.append("Tab");
        },
        Key::UpArrow => {
            out.append("UpArrow");
        },
        Key::PrintScreen => {
            out.append("PrintScreen");
        },
        Key::ScrollLock => {
            out.append("ScrollLock");
        },
        Key::Pause => {
            out.append("Pause");
        },
        Key::NumLock => {
            out.append("NumLock");
        },
        Key::BackQuote => {
            out.append("BackQuote");
        },
        Key::Num1 => {
            out.append("Num1");
        },
        Key::Num2 => {
            out.append("Num2");
        },
        Key::Num3 => {
            out.append("Num3");
        },
        Key::Num4 => {
            out.append("Num4");
        },
        Key::Num5 => {
            out.append("Num5");
        },
        Key::Num6 => {
            out.append("Num6");
        },
        Key::Num7 => {
            out.append("Num7");
        },
        Key::Num8 => {
            out.append("Num8");
        },
        Key::Num9 => {
            out.append("Num9");
        },
        Key::Num0 => {
            out.append("Num0");
        },
        Key::Minus => {
            out.append("Minus");
        },
        Key::Equal => {
            out.append("Equal");
        },
        Key::KeyQ => {
            out.append("KeyQ");
        },
        Key::KeyW => {
            out.append("KeyW");
        },
        Key::KeyE => {
            out.append("KeyE");
        },
        Key::KeyR => {
            out.append("KeyR");
        },
        Key::KeyT => {
            out.append("KeyT");
        },
        Key::KeyY => {
            out.append("KeyY");
        },
        Key::KeyU => {
            out.append("KeyU");
        },
        Key::KeyI => {
            out.append("KeyI");
        },
        Key::KeyO => {
            out.append("KeyO");
        },
        Key::KeyP => {
            out.append("KeyP");
        },
        Key::LeftBracket => {
            out.append("LeftBracket");
        },
        Key::RightBracket => {
            out.append("RightBracket");
        },
        Key::KeyA => {
            out.append("KeyA");
        },
        Key::KeyS => {
            out.append("KeyS");
        },
        Key::KeyD => {
            out.append("KeyD");
        },
        Key::KeyF => {
            out.append("KeyF");
        },
        Key::KeyG => {
            out.append("KeyG");
        },
        Key::KeyH => {
            out.append("KeyH");
        },
        Key::KeyJ => {
            out.append("KeyJ");
        },
        Key::KeyK => {
            out.append("KeyK");
        },
        Key::KeyL => {
            out.append("KeyL");
        },
        Key::SemiColon => {
            out.append("SemiColon");
        },
        Key::Quote => {
            out.append("Quote");
        },
        Key::BackSlash => {
            out.append("BackSlash");
        },
        Key::IntlBackslash => {
            out.append("IntlBackslash");
        },
        Key::KeyZ => {
            out.append("KeyZ");
        },
        Key::KeyX => {
            out.append("KeyX");
        },
        Key::KeyC => {
            out.append("KeyC");
        },
        Key::KeyV => {
            out.append("KeyV");
        },
        Key::KeyB => {
            out.append("KeyB");
        },
        Key::KeyN => {
            out.append("KeyN");
        },
        Key::KeyM => {
            out.append("KeyM");
        },
        Key::Comma => {
            out.append("Comma");
        },
        Key::Dot => {
            out.append("Dot");
        },
        Key::Slash => {
            out.append("Slash");
        },
        Key::Insert => {
            out.append("Insert");
        },
        Key::KpReturn => {
            out.append("KpReturn");
        },
        Key::KpMinus => {
            out.append("KpMinus");
        },
        Key::KpPlus => {
            out.append("KpPlus");
        },
        Key::KpMultiply => {
            out.append("KpMultiply");
        },
        Key::KpDivide => {
            out.append("KpDivide");
        },
        Key::Kp0 => {
            out.append("Kp0");
        },
        Key::Kp1 => {
            out.append("Kp1");
        },
        Key::Kp2 => {
            out.append("Kp2");
        },
        Key::Kp3 => {
            out.append("Kp3");
        },
        Key::Kp4 => {
            out.append("Kp4");
        },
        Key::Kp5 => {
            out.append("Kp5");
        },
        Key::Kp6 => {
            out.append("Kp6");
        },
        Key::Kp7 => {
            out.append("Kp7");
        },
        Key::Kp8 => {
            out.append("Kp8");
        },
        Key::Kp9 => {
            out.append("Kp9");
        },
        Key::KpDelete => {
            out.append("KpDelete");
        },
        Key::Function => {
            out.append("Function");
        },
        Key::Unknown(c) => {
            out.append("Unknown(");
            push_dec_u64(*c as u64, out);
            out.append(")");
            proof {
                assert(out@ =~= old(out)@ + spec_key_name(*k));
            }
        },
    }
}

/// The rendering of a kapp: a press as `<Name`, a release as `Name>`, a
/// list as `(` then each child's rendering followed by one space, then `)`.
pub open spec fn spec_render(k: KappV) -> Seq<char>
    decreases k,
{
    match k {
        KappV::Atom(e) => match e {
            KeyEventKind::Press(key) => seq!['<'] + spec_key_name(key),
            KeyEventKind::Release(key) => spec_key_name(key) + seq!['>'],
        },
        KappV::List(ks) => seq!['('] + spec_render_seq(ks) + seq![')'],
    }
}

pub open spec fn spec_render_seq(ks: Seq<KappV>) -> Seq<char>
    decreases ks,
{
    if ks.len() == 0 {
        Seq::empty()
    } else {
        spec_render(ks[0]) + seq![' '] + spec_render_seq(ks.subrange(1, ks.len() as int))
    }
}

/// Appending one kapp appends its rendering and a space on the right.
pub proof fn lemma_render_seq_push(ks: Seq<KappV>, k: KappV)
    ensures
        spec_render_seq(ks.push(k)) == spec_render_seq(ks) + spec_render(k) + seq![' '],
    decreases ks.len(),
{
    if ks.len() == 0 {
        reveal_with_fuel(spec_render_seq, 2);
        assert(ks.push(k).subrange(1, ks.push(k).len() as int) =~= Seq::<KappV>::empty());
        assert(ks.push(k)[0] == k);
        assert(spec_render_seq(ks.push(k)) =~= spec_render_seq(ks) + spec_render(k) + seq![' ']);
    } else {
        assert(ks.push(k).subrange(1, ks.push(k).len() as int) =~= ks.subrange(
            1,
            ks.len() as int,
        ).push(k));
        assert(ks.push(k)[0] == ks[0]);
        lemma_render_seq_push(ks.subrange(1, ks.len() as int), k);
        assert(spec_render_seq(ks.push(k)) =~= spec_render_seq(ks) + spec_render(k) + seq![' ']);
    }
}

/// Append the rendering of `k`.
#[verifier::loop_isolation(false)]
pub fn push_render(k: &Kapp, out: &mut String)
    ensures
        final(out)@ == old(out)@ + spec_render(k@),
    decreases *k,
{
    proof {
        reveal_strlit("<");
        reveal_strlit(">");
        reveal_strlit("(");
        reveal_strlit(")");
        reveal_strlit(" ");
    }
    match k {
        Kapp::Atom(e) => {
            match e {
                KeyEventKind::Press(key) => {
                    out.append("<");
                    push_key_name(key, out);
                },
                KeyEventKind::Release(key) => {
                    push_key_name(key, out);
                    out.append(">");
                },
            }
            proof {
                assert(out@ =~= old(out)@ + spec_render(k@));
            }
        },
        Kapp::List(children) => {
            let ghost s = kapps_view(children@);
            proof {
                lemma_kapps_view_index(children@);
            }
            out.append("(");
            let ghost header = old(out)@ + seq!['('];
            proof {
                assert(out@ =~= header);
            }
            let mut i: usize = 0;
            while i < children.len()
                invariant
                    0 <= i <= children.len(),
                    out@ == header + spec_render_seq(s.take(i as int)),
                decreases children.len() - i,
            {
                proof {
                    assert(decreases_to!(*k => (*k)->List_0));
                    assert((*k)->List_0 == *children);
                    assert(decreases_to!(*children => children@));
                    assert(decreases_to!(children@ => children@[i as int]));
                    assert(s.take(i as int).push(s[i as int]) =~= s.take(i + 1));
                    lemma_render_seq_push(s.take(i as int), s[i as int]);
                }
                push_render(&children[i], out);
                out.append(" ");
                proof {
                    assert(out@ =~= header + spec_render_seq(s.take(i + 1)));
                }
                i = i + 1;
            }
            out.append(")");
            proof {
                assert(s.take(children@.len() as int) =~= s);
                assert(out@ =~= old(out)@ + spec_render(k@));
            }
        },
    }
}

/// The rendering of one kapp as a fresh string.
pub fn render_kapp(k: &Kapp) -> (r: String)
    ensures
        r@ == spec_render(k@),
{
    let mut out = String::new();
    push_render(k, &mut out);
    proof {
        assert(out@ =~= spec_render(k@));
    }
    out
}

/// The name of an input mode, as the snapshot prints it.
pub open spec fn spec_mode_name(m: InputMode) -> Seq<char> {
    match m {
        InputMode::Insert => "Insert"@,
        InputMode::LeavingInsertEnteringCommand => "LeavingInsertEnteringCommand"@,
        InputMode::Command => "Command"@,
        InputMode::LeavingCommandEnteringInsert => "LeavingCommandEnteringInsert"@,
    }
}

/// The pressed keys, each name followed by one space, oldest press first.
pub open spec fn spec_pressed_names(ks: Seq<Key>) -> Seq<char>
    decreases ks,
{
    if ks.len() == 0 {
        Seq::empty()
    } else {
        spec_key_name(ks[0]) + seq![' '] + spec_pressed_names(ks.subrange(1, ks.len() as int))
    }
}

proof fn lemma_pressed_names_push(ks: Seq<Key>, k: Key)
    ensures
        spec_pressed_names(ks.push(k)) == spec_pressed_names(ks) + spec_key_name(k) + seq![' '],
    decreases ks.len(),
{
    if ks.len() == 0 {
        reveal_with_fuel(spec_pressed_names, 2);
        assert(ks.push(k).subrange(1, ks.push(k).len() as int) =~= Seq::<Key>::empty());
        assert(ks.push(k)[0] == k);
        assert(spec_pressed_names(ks.push(k)) =~= spec_pressed_names(ks) + spec_key_name(k)
            + seq![' ']);
    } else {
        assert(ks.push(k).subrange(1, ks.push(k).len() as int) =~= ks.subrange(
            1,
            ks.len() as int,
        ).push(k));
        assert(ks.push(k)[0] == ks[0]);
        lemma_pressed_names_push(ks.subrange(1, ks.len() as int), k);
        assert(spec_pressed_names(ks.push(k)) =~= spec_pressed_names(ks) + spec_key_name(k)
            + seq![' ']);
    }
}

/// One keybinding line: the key, the binding's score, its rendering.
/// A binding the table does not know yet prints nothing.
pub open spec fn spec_binding_line(p: (Key, KappV), t: Map<KappV, Rank>) -> Seq<char> {
    if t.contains_key(p.1) {
        spec_key_name(p.0) + " ["@ + spec_dec_u64(t[p.1].0) + "]: "@ + spec_render(p.1) + "\n"@
    } else {
        Seq::empty()
    }
}

/// The keybinding lines, bound key order.
pub open spec fn spec_binding_lines(b: Seq<(Key, KappV)>, t: Map<KappV, Rank>) -> Seq<char>
    decreases b,
{
    if b.len() == 0 {
        Seq::empty()
    } else {
        spec_binding_line(b[0], t) + spec_binding_lines(b.subrange(1, b.len() as int), t)
    }
}

proof fn lemma_binding_lines_push(b: Seq<(Key, KappV)>, p: (Key, KappV), t: Map<KappV, Rank>)
    ensures
        spec_binding_lines(b.push(p), t) == spec_binding_lines(b, t) + spec_binding_line(p, t),
    decreases b.len(),
{
    if b.len() == 0 {
        reveal_with_fuel(spec_binding_lines, 2);
        assert(b.push(p).subrange(1, b.push(p).len() as int) =~= Seq::<(Key, KappV)>::empty());
        assert(b.push(p)[0] == p);
        assert(spec_binding_lines(b.push(p), t) =~= spec_binding_lines(b, t) + spec_binding_line(
            p,
            t,
        ));
    } else {
        assert(b.push(p).subrange(1, b.push(p).len() as int) =~= b.subrange(
            1,
            b.len() as int,
        ).push(p));
        assert(b.push(p)[0] == b[0]);
        lemma_binding_lines_push(b.subrange(1, b.len() as int), p, t);
        assert(spec_binding_lines(b.push(p), t) =~= spec_binding_lines(b, t) + spec_binding_line(
            p,
            t,
        ));
    }
}

/// The idle snapshot: a banner, the mode, the pressed keys, then one line
/// per keybinding the table knows, with its score and rendering.
pub open spec fn spec_snapshot(
    m: InputMode,
    pressed: Seq<Key>,
    b: Seq<(Key, KappV)>,
    t: Map<KappV, Rank>,
) -> Seq<char> {
    "\n---- Keykapp ----\n- InputMode::"@ + spec_mode_name(m) + "\n- Pressed Keys: "@
        + spec_pressed_names(pressed) + "\n"@ + spec_binding_lines(b, t)
}

/// The textual snapshot of the current state.
#[verifier::loop_isolation(false)]
#[verifier::rlimit(100)]
pub fn render_snapshot(st: &AppState) -> (r: String)
    requires
        st.inv(),
    ensures
        r@ == spec_snapshot(
            st.input_mode,
            st.keyboard.pressed@,
            bindings_view(st.keybindings@),
            st.ngrams@,
        ),
{
    proof {
        reveal_strlit(" [");
        reveal_strlit("]: ");
        reveal_strlit("\n");
    }
    let mut out = String::new();
    out.append("\n---- Keykapp ----\n- InputMode::");
    match st.input_mode {
        InputMode::Insert => out.append("Insert"),
        InputMode::LeavingInsertEnteringCommand => out.append("LeavingInsertEnteringCommand"),
        InputMode::Command => out.append("Command"),
        InputMode::LeavingCommandEnteringInsert => out.append("LeavingCommandEnteringInsert"),
    }
    out.append("\n- Pressed Keys: ");
    let ghost after_mode = out@;
    let mut i: usize = 0;
    while i < st.keyboard.pressed.len()
        invariant
            0 <= i <= st.keyboard.pressed@.len(),
            out@ == after_mode + spec_pressed_names(st.keyboard.pressed@.take(i as int)),
        decreases st.keyboard.pressed@.len() - i,
    {
        proof {
            reveal_strlit(" ");
            assert(st.keyboard.pressed@.take(i as int).push(st.keyboard.pressed@[i as int])
                =~= st.keyboard.pressed@.take(i + 1));
            lemma_pressed_names_push(
                st.keyboard.pressed@.take(i as int),
                st.keyboard.pressed@[i as int],
            );
        }
        push_key_name(&st.keyboard.pressed[i], &mut out);
        out.append(" ");
        proof {
            assert(out@ =~= after_mode + spec_pressed_names(st.keyboard.pressed@.take(i + 1)));
        }
        i = i + 1;
    }
    proof {
        assert(st.keyboard.pressed@.take(st.keyboard.pressed@.len() as int)
            =~= st.keyboard.pressed@);
    }
    out.append("\n");
    let ghost before_lines = out@;
    let ghost bv = bindings_view(st.keybindings@);
    let mut j: usize = 0;
    while j < st.keybindings.len()
        invariant
            0 <= j <= st.keybindings@.len(),
            bv == bindings_view(st.keybindings@),
            out@ == before_lines + spec_binding_lines(bv.take(j as int), st.ngrams@),
        decreases st.keybindings@.len() - j,
    {
        proof {
            assert(bv.take(j as int).push(bv[j as int]) =~= bv.take(j + 1));
            lemma_binding_lines_push(bv.take(j as int), bv[j as int], st.ngrams@);
        }
        match st.ngrams.get_rank(&st.keybindings[j].1) {
            Some(rank) => {
                push_key_name(&st.keybindings[j].0, &mut out);
                out.append(" [");
                push_dec_u64(rank.0, &mut out);
                out.append("]: ");
                push_render(&st.keybindings[j].1, &mut out);
                out.append("\n");
                proof {
                    reveal_strlit(" [");
                    reveal_strlit("]: ");
                    reveal_strlit("\n");
                    assert(out@ =~= before_lines + spec_binding_lines(
                        bv.take(j + 1),
                        st.ngrams@,
                    ));
                }
            },
            None => {
                proof {
                    assert(out@ =~= before_lines + spec_binding_lines(
                        bv.take(j + 1),
                        st.ngrams@,
                    ));
                }
            },
        }
        j = j + 1;
    }
    proof {
        assert(bv.take(st.keybindings@.len() as int) =~= bv);
        assert(out@ =~= spec_snapshot(
            st.input_mode,
            st.keyboard.pressed@,
            bindings_view(st.keybindings@),
            st.ngrams@,
        ));
    }
    out
}


} // verus!

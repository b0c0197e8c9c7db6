use vstd::prelude::*;

use vstd::bytes::{
    spec_u32_from_le_bytes, spec_u32_to_le_bytes, spec_u64_from_le_bytes, spec_u64_to_le_bytes,
    lemma_auto_spec_u32_to_from_le_bytes, lemma_auto_spec_u64_to_from_le_bytes, u32_from_le_bytes,
    u32_to_le_bytes, u64_from_le_bytes, u64_to_le_bytes,
};
use vstd::slice::slice_subrange;

use crate::kapp::{kapps_view, lemma_kapps_view_index, Kapp, KappV};
use crate::keys::{
    key_from_tag, key_tag, lemma_key_tag_inverse, spec_key_from_tag, spec_key_tag, Key,
    KeyEventKind, KEY_TAG_UNKNOWN,
};

verus! {

/// First byte of an encoded kapp: an atom follows.
pub const TAG_ATOM: u8 = 0;

/// First byte of an encoded kapp: a list follows, as a record count then
/// that many encoded children.
pub const TAG_LIST: u8 = 1;

/// Second byte of an encoded atom: the key went down.
pub const KIND_PRESS: u8 = 0;

/// Second byte of an encoded atom: the key came up.
pub const KIND_RELEASE: u8 = 1;

/// The bytes are not a record this codec wrote.
#[derive(Clone, Copy, PartialEq, Eq, Structural, Debug)]
pub struct DecodeError;

/// Encoding of one key: the tag byte of a named key, or the reserved tag
/// followed by the raw code in little-endian order.
pub open spec fn spec_encode_key(k: Key) -> Seq<u8> {
    match k {
        Key::Unknown(c) => seq![KEY_TAG_UNKNOWN] + spec_u32_to_le_bytes(c),
        _ => seq![spec_key_tag(k)],
    }
}

/// Encoding of one key action: a direction byte, then the key.
pub open spec fn spec_encode_kind(e: KeyEventKind) -> Seq<u8> {
    match e {
        KeyEventKind::Press(k) => seq![KIND_PRESS] + spec_encode_key(k),
        KeyEventKind::Release(k) => seq![KIND_RELEASE] + spec_encode_key(k),
    }
}

/// Self-describing binary encoding of a kapp: a tag byte, then for an atom
/// the key action, for a list the child count (8 bytes little-endian) and
/// the children's encodings in order.
pub open spec fn spec_encode(k: KappV) -> Seq<u8>
    decreases k,
{
    match k {
        KappV::Atom(e) => seq![TAG_ATOM] + spec_encode_kind(e),
        KappV::List(ks) => seq![TAG_LIST] + spec_u64_to_le_bytes(ks.len() as u64)
            + spec_encode_seq(ks),
    }
}

pub open spec fn spec_encode_seq(ks: Seq<KappV>) -> Seq<u8>
    decreases ks,
{
    if ks.len() == 0 {
        Seq::empty()
    } else {
        spec_encode(ks[0]) + spec_encode_seq(ks.subrange(1, ks.len() as int))
    }
}

/// Every list in the kapp is short enough for its length to survive the
/// 8-byte length field. Holds of every kapp an executable `Kapp` can carry.
pub open spec fn spec_kapp_bounded(k: KappV) -> bool
    decreases k,
{
    match k {
        KappV::Atom(_) => true,
        KappV::List(ks) => ks.len() <= u64::MAX && spec_kapps_bounded(ks),
    }
}

pub open spec fn spec_kapps_bounded(ks: Seq<KappV>) -> bool
    decreases ks,
{
    if ks.len() == 0 {
        true
    } else {
        spec_kapp_bounded(ks[0]) && spec_kapps_bounded(ks.subrange(1, ks.len() as int))
    }
}

/// A bounded sequence is bounded elementwise.
pub proof fn lemma_kapps_bounded_index(ks: Seq<KappV>)
    requires
        spec_kapps_bounded(ks),
    ensures
        forall|i: int| 0 <= i < ks.len() ==> spec_kapp_bounded(ks[i]),
    decreases ks.len(),
{
    if ks.len() > 0 {
        lemma_kapps_bounded_index(ks.subrange(1, ks.len() as int));
        assert forall|i: int| 0 <= i < ks.len() implies spec_kapp_bounded(ks[i]) by {
            if i > 0 {
                assert(ks.subrange(1, ks.len() as int)[i - 1] == ks[i]);
            }
        }
    }
}

/// A prefix of a bounded sequence is bounded.
pub proof fn lemma_kapps_bounded_take(ks: Seq<KappV>, n: int)
    requires
        0 <= n <= ks.len(),
        forall|i: int| 0 <= i < n ==> spec_kapp_bounded(ks[i]),
    ensures
        spec_kapps_bounded(ks.take(n)),
    decreases n,
{
    if n > 0 {
        let t = ks.take(n);
        assert(t[0] == ks[0]);
        assert(t.subrange(1, n) =~= ks.subrange(1, ks.len() as int).take(n - 1));
        lemma_kapps_bounded_take(ks.subrange(1, ks.len() as int), n - 1);
    }
}

/// An encoded kapp is never empty.
pub proof fn lemma_encode_len_pos(k: KappV)
    ensures
        spec_encode(k).len() >= 1,
{
    lemma_auto_spec_u64_to_from_le_bytes();
}

/// Appending one kapp extends the encoding on the right.
pub proof fn lemma_encode_seq_push(ks: Seq<KappV>, k: KappV)
    ensures
        spec_encode_seq(ks.push(k)) == spec_encode_seq(ks) + spec_encode(k),
    decreases ks.len(),
{
    if ks.len() == 0 {
        reveal_with_fuel(spec_encode_seq, 2);
        assert(ks.push(k).subrange(1, ks.push(k).len() as int) =~= Seq::<KappV>::empty());
        assert(ks.push(k)[0] == k);
        assert(spec_encode_seq(ks.push(k)) =~= spec_encode_seq(ks) + spec_encode(k));
    } else {
        assert(ks.push(k).subrange(1, ks.push(k).len() as int) =~= ks.subrange(
            1,
            ks.len() as int,
        ).push(k));
        assert(ks.push(k)[0] == ks[0]);
        lemma_encode_seq_push(ks.subrange(1, ks.len() as int), k);
        assert(spec_encode_seq(ks.push(k)) =~= spec_encode_seq(ks) + spec_encode(k));
    }
}

/// Append the encoding of `k` to `out`.
#[verifier::loop_isolation(false)]
pub fn encode_into(k: &Kapp, out: &mut Vec<u8>)
    ensures
        final(out)@ == old(out)@ + spec_encode(k@),
        spec_kapp_bounded(k@),
    decreases *k,
{
    match k {
        Kapp::Atom(e) => {
            out.push(TAG_ATOM);
            match e {
                KeyEventKind::Press(key) => {
                    out.push(KIND_PRESS);
                    encode_key_into(key, out);
                },
                KeyEventKind::Release(key) => {
                    out.push(KIND_RELEASE);
                    encode_key_into(key, out);
                },
            }
            proof {
                assert(out@ =~= old(out)@ + spec_encode(k@));
            }
        },
        Kapp::List(children) => {
            let ghost s = kapps_view(children@);
            proof {
                lemma_kapps_view_index(children@);
            }
            out.push(TAG_LIST);
            let n: u64 = children.len() as u64;
            let mut lenbytes = u64_to_le_bytes(n);
            out.append(&mut lenbytes);
            let ghost header = old(out)@ + seq![TAG_LIST] + spec_u64_to_le_bytes(n);
            assert(out@ =~= header);
            let mut i: usize = 0;
            while i < children.len()
                invariant
                    0 <= i <= children.len(),
                    out@ == header + spec_encode_seq(s.take(i as int)),
                    forall|j: int| 0 <= j < i ==> spec_kapp_bounded(s[j]),
                decreases children.len() - i,
            {
                proof {
                    assert(decreases_to!(*k => (*k)->List_0));
                    assert((*k)->List_0 == *children);
                    assert(decreases_to!(*children => children@));
                    assert(decreases_to!(children@ => children@[i as int]));
                    assert(s.take(i as int).push(s[i as int]) =~= s.take(i + 1));
                    lemma_encode_seq_push(s.take(i as int), s[i as int]);
                }
                encode_into(&children[i], out);
                proof {
                    assert(out@ =~= header + spec_encode_seq(s.take(i + 1)));
                }
                i = i + 1;
            }
            proof {
                assert(s.take(children@.len() as int) =~= s);
                assert(s.len() == children@.len());
                assert(out@ =~= old(out)@ + spec_encode(k@));
                lemma_kapps_bounded_take(s, s.len() as int);
                assert(s.take(s.len() as int) =~= s);
                assert(s.len() <= u64::MAX);
            }
        },
    }
}

/// Append the encoding of one key to `out`.
fn encode_key_into(k: &Key, out: &mut Vec<u8>)
    ensures
        final(out)@ == old(out)@ + spec_encode_key(*k),
{
    match k {
        Key::Unknown(c) => {
            out.push(KEY_TAG_UNKNOWN);
            let mut codebytes = u32_to_le_bytes(*c);
            out.append(&mut codebytes);
            proof {
                assert(out@ =~= old(out)@ + spec_encode_key(*k));
            }
        },
        _ => {
            out.push(key_tag(*k));
            proof {
                assert(out@ =~= old(out)@ + spec_encode_key(*k));
            }
        },
    }
}

/// The bytes of one durable record: the encoding of one kapp.
pub fn encode_record(k: &Kapp) -> (out: Vec<u8>)
    ensures
        out@ == spec_encode(k@),
        spec_kapp_bounded(k@),
{
    let mut out: Vec<u8> = Vec::new();
    encode_into(k, &mut out);
    proof {
        assert(out@ =~= spec_encode(k@));
    }
    out
}

/// Decode one key starting at `i`: a named key's tag byte, or the reserved
/// tag followed by four bytes of raw code.
pub open spec fn spec_decode_key(b: Seq<u8>, i: int) -> Option<(Key, int)> {
    if !(0 <= i && i + 1 <= b.len()) {
        None
    } else if b[i] == KEY_TAG_UNKNOWN {
        if i + 5 <= b.len() {
            Some((Key::Unknown(spec_u32_from_le_bytes(b.subrange(i + 1, i + 5))), i + 5))
        } else {
            None
        }
    } else {
        match spec_key_from_tag(b[i]) {
            Some(k) => Some((k, i + 1)),
            None => None,
        }
    }
}

/// Decode one key action starting at `i`: a direction byte, then the key.
pub open spec fn spec_decode_kind(b: Seq<u8>, i: int) -> Option<(KeyEventKind, int)> {
    if !(0 <= i && i + 1 <= b.len()) {
        None
    } else if b[i] == KIND_PRESS {
        match spec_decode_key(b, i + 1) {
            Some((k, j)) => Some((KeyEventKind::Press(k), j)),
            None => None,
        }
    } else if b[i] == KIND_RELEASE {
        match spec_decode_key(b, i + 1) {
            Some((k, j)) => Some((KeyEventKind::Release(k), j)),
            None => None,
        }
    } else {
        None
    }
}

/// Decode one kapp starting at `i`. Returns the kapp and the position one
/// past its encoding, or nothing if the bytes are malformed there.
pub open spec fn spec_decode(b: Seq<u8>, i: int) -> Option<(KappV, int)>
    decreases b.len() - i, 0int,
{
    if !(0 <= i && i + 1 <= b.len()) {
        None
    } else if b[i] == TAG_ATOM {
        match spec_decode_kind(b, i + 1) {
            Some((e, j)) => Some((KappV::Atom(e), j)),
            None => None,
        }
    } else if b[i] == TAG_LIST {
        if i + 9 <= b.len() {
            match spec_decode_seq(b, i + 9, spec_u64_from_le_bytes(b.subrange(i + 1, i + 9)) as nat) {
                Some((ks, j)) => Some((KappV::List(ks), j)),
                None => None,
            }
        } else {
            None
        }
    } else {
        None
    }
}

/// Decode `n` kapps in a row starting at `i`.
pub open spec fn spec_decode_seq(b: Seq<u8>, i: int, n: nat) -> Option<(Seq<KappV>, int)>
    decreases b.len() - i, 1int,
{
    if n == 0 {
        if 0 <= i <= b.len() {
            Some((Seq::empty(), i))
        } else {
            None
        }
    } else {
        match spec_decode(b, i) {
            Some((k, j)) => {
                if i < j <= b.len() {
                    match spec_decode_seq(b, j, (n - 1) as nat) {
                        Some((ks, end)) => Some((seq![k] + ks, end)),
                        None => None,
                    }
                } else {
                    None
                }
            },
            None => None,
        }
    }
}

/// Decoding inverts encoding: wherever the bytes hold an encoding of `k`,
/// decoding yields `k` back and stops right after it.
pub proof fn lemma_decode_encode(k: KappV, b: Seq<u8>, i: int)
    requires
        spec_kapp_bounded(k),
        0 <= i,
        i + spec_encode(k).len() <= b.len(),
        b.subrange(i, i + spec_encode(k).len()) == spec_encode(k),
    ensures
        spec_decode(b, i) == Some((k, i + spec_encode(k).len())),
    decreases k, 0int,
{
    let e = spec_encode(k);
    assert(b[i] == e[0]) by {
        assert(b.subrange(i, i + e.len())[0] == b[i]);
    }
    match k {
        KappV::Atom(ev) => {
            let ek = spec_encode_kind(ev);
            assert(e == seq![TAG_ATOM] + ek);
            assert(b[i] == TAG_ATOM);
            assert(b[i + 1] == ek[0]) by {
                assert(b.subrange(i, i + e.len())[1] == b[i + 1]);
            }
            let key = match ev {
                KeyEventKind::Press(key) => key,
                KeyEventKind::Release(key) => key,
            };
            let eky = spec_encode_key(key);
            assert(ek == seq![if ev is Press { KIND_PRESS } else { KIND_RELEASE }] + eky);
            assert(b[i + 2] == eky[0]) by {
                assert(b.subrange(i, i + e.len())[2] == b[i + 2]);
            }
            match key {
                Key::Unknown(c) => {
                    assert(b[i + 2] == KEY_TAG_UNKNOWN);
                    assert(b.subrange(i + 3, i + 7) =~= spec_u32_to_le_bytes(c)) by {
                        lemma_auto_spec_u32_to_from_le_bytes();
                        assert forall|t: int| 0 <= t < 4 implies b.subrange(i + 3, i + 7)[t]
                            == spec_u32_to_le_bytes(c)[t] by {
                            assert(b.subrange(i, i + e.len())[3 + t] == b[i + 3 + t]);
                        }
                    }
                    lemma_auto_spec_u32_to_from_le_bytes();
                    assert(spec_decode_key(b, i + 2) == Some((key, i + 7)));
                },
                _ => {
                    lemma_key_tag_inverse(key);
                    assert(b[i + 2] == spec_key_tag(key));
                    assert(spec_decode_key(b, i + 2) == Some((key, i + 3)));
                },
            }
            assert(spec_decode_kind(b, i + 1) == Some((ev, i + e.len())));
        },
        KappV::List(ks) => {
            let lb = spec_u64_to_le_bytes(ks.len() as u64);
            lemma_auto_spec_u64_to_from_le_bytes();
            assert(e == seq![TAG_LIST] + lb + spec_encode_seq(ks));
            assert(b[i] == TAG_LIST);
            assert(b.subrange(i + 1, i + 9) =~= lb) by {
                assert forall|t: int| 0 <= t < 8 implies b.subrange(i + 1, i + 9)[t] == lb[t] by {
                    assert(b.subrange(i, i + e.len())[1 + t] == b[i + 1 + t]);
                }
            }
            assert(spec_u64_from_le_bytes(b.subrange(i + 1, i + 9)) == ks.len() as u64);
            assert(ks.len() as u64 as nat == ks.len());
            let es = spec_encode_seq(ks);
            assert(b.subrange(i + 9, i + 9 + es.len()) =~= es) by {
                assert forall|t: int| 0 <= t < es.len() implies b.subrange(i + 9, i + 9 + es.len())[t]
                    == es[t] by {
                    assert(b.subrange(i, i + e.len())[9 + t] == b[i + 9 + t]);
                }
            }
            lemma_decode_encode_seq(ks, b, i + 9);
            assert(spec_decode(b, i) == Some((k, i + e.len())));
        },
    }
}

pub proof fn lemma_decode_encode_seq(ks: Seq<KappV>, b: Seq<u8>, i: int)
    requires
        spec_kapps_bounded(ks),
        0 <= i,
        i + spec_encode_seq(ks).len() <= b.len(),
        b.subrange(i, i + spec_encode_seq(ks).len()) == spec_encode_seq(ks),
    ensures
        spec_decode_seq(b, i, ks.len()) == Some((ks, i + spec_encode_seq(ks).len())),
    decreases ks, 1int,
{
    if ks.len() == 0 {
        assert(spec_decode_seq(b, i, 0) == Some((Seq::<KappV>::empty(), i)));
        assert(Seq::<KappV>::empty() =~= ks);
    } else {
        let e0 = spec_encode(ks[0]);
        let tail = ks.subrange(1, ks.len() as int);
        let erest = spec_encode_seq(tail);
        let es = spec_encode_seq(ks);
        assert(es == e0 + erest);
        assert(b.subrange(i, i + e0.len()) =~= e0) by {
            assert forall|t: int| 0 <= t < e0.len() implies b.subrange(i, i + e0.len())[t]
                == e0[t] by {
                assert(b.subrange(i, i + es.len())[t] == b[i + t]);
            }
        }
        lemma_decode_encode(ks[0], b, i);
        let j = i + e0.len();
        assert(b.subrange(j, j + erest.len()) =~= erest) by {
            assert forall|t: int| 0 <= t < erest.len() implies b.subrange(j, j + erest.len())[t]
                == erest[t] by {
                assert(b.subrange(i, i + es.len())[e0.len() + t] == b[i + e0.len() + t]);
            }
        }
        lemma_decode_encode_seq(tail, b, j);
        lemma_encode_len_pos(ks[0]);
        assert(seq![ks[0]] + tail =~= ks);
        assert(spec_decode_seq(b, i, ks.len()) == Some((ks, i + es.len())));
    }
}

/// Decode one key starting at `i`.
fn decode_key_at(bytes: &[u8], i: usize) -> (r: Result<(Key, usize), DecodeError>)
    ensures
        match r {
            Ok((k, j)) => spec_decode_key(bytes@, i as int) == Some((k, j as int)) && i < j
                <= bytes@.len(),
            Err(_) => spec_decode_key(bytes@, i as int) is None,
        },
{
    if i >= bytes.len() {
        return Err(DecodeError);
    }
    let t = bytes[i];
    if t == KEY_TAG_UNKNOWN {
        if bytes.len() - i >= 5 {
            let sub = slice_subrange(bytes, i + 1, i + 5);
            let c = u32_from_le_bytes(sub);
            Ok((Key::Unknown(c), i + 5))
        } else {
            Err(DecodeError)
        }
    } else {
        match key_from_tag(t) {
            Some(k) => Ok((k, i + 1)),
            None => Err(DecodeError),
        }
    }
}

/// Decode one key action starting at `i`.
fn decode_kind_at(bytes: &[u8], i: usize) -> (r: Result<(KeyEventKind, usize), DecodeError>)
    ensures
        match r {
            Ok((e, j)) => spec_decode_kind(bytes@, i as int) == Some((e, j as int)) && i < j
                <= bytes@.len(),
            Err(_) => spec_decode_kind(bytes@, i as int) is None,
        },
{
    if i >= bytes.len() {
        return Err(DecodeError);
    }
    let t = bytes[i];
    if t == KIND_PRESS {
        match decode_key_at(bytes, i + 1) {
            Ok((k, j)) => Ok((KeyEventKind::Press(k), j)),
            Err(e) => Err(e),
        }
    } else if t == KIND_RELEASE {
        match decode_key_at(bytes, i + 1) {
            Ok((k, j)) => Ok((KeyEventKind::Release(k), j)),
            Err(e) => Err(e),
        }
    } else {
        Err(DecodeError)
    }
}

/// Decode one kapp starting at `i`.
#[verifier::loop_isolation(false)]
pub fn decode_at(bytes: &[u8], i: usize) -> (r: Result<(Kapp, usize), DecodeError>)
    ensures
        match r {
            Ok((k, j)) => spec_decode(bytes@, i as int) == Some((k@, j as int)) && i < j
                <= bytes@.len(),
            Err(_) => spec_decode(bytes@, i as int) is None,
        },
    decreases bytes@.len() - i,
{
    if i >= bytes.len() {
        return Err(DecodeError);
    }
    let tag = bytes[i];
    if tag == TAG_ATOM {
        match decode_kind_at(bytes, i + 1) {
            Ok((e, j)) => Ok((Kapp::Atom(e), j)),
            Err(er) => Err(er),
        }
    } else if tag == TAG_LIST {
        if bytes.len() - i < 9 {
            return Err(DecodeError);
        }
        let nbytes = slice_subrange(bytes, i + 1, i + 9);
        let n: u64 = u64_from_le_bytes(nbytes);
        let ghost start: int = i + 9;
        let mut ks: Vec<Kapp> = Vec::new();
        let mut cur: usize = i + 9;
        let mut c: u64 = 0;
        proof {
            lemma_kapps_view_index(ks@);
            assert(kapps_view(ks@) =~= Seq::<KappV>::empty());
        }
        while c < n
            invariant
                i + 9 <= cur <= bytes@.len(),
                c <= n,
                ks@.len() == c,
                match spec_decode_seq(bytes@, cur as int, (n - c) as nat) {
                    Some((rest, end)) => spec_decode_seq(bytes@, start, n as nat) == Some((
                        kapps_view(ks@) + rest,
                        end,
                    )),
                    None => spec_decode_seq(bytes@, start, n as nat) is None,
                },
            decreases n - c,
        {
            match decode_at(bytes, cur) {
                Ok((k, j)) => {
                    proof {
                        let rest0 = spec_decode_seq(bytes@, j as int, (n - c - 1) as nat);
                        match rest0 {
                            Some((rest, end)) => {
                                lemma_kapps_view_index(ks@.push(k));
                                lemma_kapps_view_index(ks@);
                                assert(kapps_view(ks@.push(k)) =~= kapps_view(ks@).push(k@));
                                assert(kapps_view(ks@) + (seq![k@] + rest) =~= kapps_view(
                                    ks@.push(k),
                                ) + rest);
                            },
                            None => {},
                        }
                    }
                    ks.push(k);
                    cur = j;
                    c = c + 1;
                },
                Err(er) => {
                    return Err(er);
                },
            }
        }
        proof {
            assert(spec_decode_seq(bytes@, cur as int, 0) == Some((Seq::<KappV>::empty(), cur as int)));
            assert(kapps_view(ks@) + Seq::<KappV>::empty() =~= kapps_view(ks@));
            assert(spec_decode_seq(bytes@, start, n as nat) == Some((kapps_view(ks@), cur as int)));
        }
        Ok((Kapp::List(ks), cur))
    } else {
        Err(DecodeError)
    }
}

/// Decode a whole record: one kapp that uses every byte.
pub open spec fn spec_decode_record(r: Seq<u8>) -> Option<KappV> {
    match spec_decode(r, 0) {
        Some((k, j)) => if j == r.len() {
            Some(k)
        } else {
            None
        },
        None => None,
    }
}

/// Decode one durable record. The record must hold exactly one kapp.
pub fn decode_record(bytes: &[u8]) -> (r: Result<Kapp, DecodeError>)
    ensures
        match r {
            Ok(k) => spec_decode_record(bytes@) == Some(k@),
            Err(_) => spec_decode_record(bytes@) is None,
        },
{
    match decode_at(bytes, 0) {
        Ok((k, j)) => {
            if j == bytes.len() {
                Ok(k)
            } else {
                Err(DecodeError)
            }
        },
        Err(e) => Err(e),
    }
}

/// Round trip for one record: decoding an encoding gives the kapp back.
pub proof fn lemma_record_round_trip(k: KappV)
    requires
        spec_kapp_bounded(k),
    ensures
        spec_decode_record(spec_encode(k)) == Some(k),
{
    let e = spec_encode(k);
    assert(e.subrange(0, e.len() as int) =~= e);
    lemma_decode_encode(k, e, 0);
}


} // verus!

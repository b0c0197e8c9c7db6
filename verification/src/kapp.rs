use vstd::prelude::*;

use crate::keys::KeyEventKind;

verus! {

/// A kapp: the unit of learning and evaluation. Either a single key action
/// or an ordered composite of kapps. Lists may be empty and may nest.
pub enum Kapp {
    Atom(KeyEventKind),
    List(Vec<Kapp>),
}

/// Mathematical shape of a kapp: the same tree with the children of each
/// list as a `Seq`. Two kapps are equal exactly when their shapes are.
#[verifier::ext_equal]
pub enum KappV {
    Atom(KeyEventKind),
    List(Seq<KappV>),
}

/// The shape of one kapp.
pub open spec fn kapp_view(k: Kapp) -> KappV
    decreases k,
{
    match k {
        Kapp::Atom(e) => KappV::Atom(e),
        Kapp::List(v) => KappV::List(kapps_view(v@)),
    }
}

/// The shapes of a sequence of kapps, in order.
pub open spec fn kapps_view(s: Seq<Kapp>) -> Seq<KappV>
    decreases s,
{
    if s.len() == 0 {
        Seq::empty()
    } else {
        seq![kapp_view(s[0])] + kapps_view(s.subrange(1, s.len() as int))
    }
}

/// `kapps_view` maps elementwise.
pub proof fn lemma_kapps_view_index(s: Seq<Kapp>)
    ensures
        kapps_view(s).len() == s.len(),
        forall|i: int| 0 <= i < s.len() ==> kapps_view(s)[i] == kapp_view(s[i]),
    decreases s.len(),
{
    if s.len() > 0 {
        lemma_kapps_view_index(s.subrange(1, s.len() as int));
    }
}

impl View for Kapp {
    type V = KappV;

    open spec fn view(&self) -> KappV {
        kapp_view(*self)
    }
}

/// `u64` addition that stops at the top of the range instead of wrapping.
pub open spec fn sadd(a: u64, b: u64) -> u64 {
    if a + b > u64::MAX {
        u64::MAX
    } else {
        (a + b) as u64
    }
}

/// Number of atoms in a kapp, accumulated with saturating addition:
/// an atom counts one, a list the sum over its children.
pub open spec fn spec_atoms(k: KappV) -> u64
    decreases k,
{
    match k {
        KappV::Atom(_) => 1,
        KappV::List(ks) => spec_atoms_seq(ks),
    }
}

pub open spec fn spec_atoms_seq(ks: Seq<KappV>) -> u64
    decreases ks,
{
    if ks.len() == 0 {
        0
    } else {
        sadd(spec_atoms(ks[0]), spec_atoms_seq(ks.subrange(1, ks.len() as int)))
    }
}

/// The key actions of a kapp's atoms, in left-to-right order.
pub open spec fn spec_atom_events(k: KappV) -> Seq<KeyEventKind>
    decreases k,
{
    match k {
        KappV::Atom(e) => seq![e],
        KappV::List(ks) => spec_atom_events_seq(ks),
    }
}

pub open spec fn spec_atom_events_seq(ks: Seq<KappV>) -> Seq<KeyEventKind>
    decreases ks,
{
    if ks.len() == 0 {
        Seq::empty()
    } else {
        spec_atom_events(ks[0]) + spec_atom_events_seq(ks.subrange(1, ks.len() as int))
    }
}

/// Saturating addition is associative.
pub proof fn lemma_sadd_assoc(a: u64, b: u64, c: u64)
    ensures
        sadd(sadd(a, b), c) == sadd(a, sadd(b, c)),
{
}

/// Appending one kapp to a sequence adds its atoms on the right.
pub proof fn lemma_atoms_seq_push(ks: Seq<KappV>, k: KappV)
    ensures
        spec_atoms_seq(ks.push(k)) == sadd(spec_atoms_seq(ks), spec_atoms(k)),
    decreases ks.len(),
{
    if ks.len() == 0 {
        reveal_with_fuel(spec_atoms_seq, 2);
        assert(ks.push(k).subrange(1, ks.push(k).len() as int) =~= Seq::<KappV>::empty());
        assert(ks.push(k)[0] == k);
    } else {
        let tail = ks.subrange(1, ks.len() as int);
        assert(ks.push(k).subrange(1, ks.push(k).len() as int) =~= tail.push(k));
        assert(ks.push(k)[0] == ks[0]);
        lemma_atoms_seq_push(tail, k);
        lemma_sadd_assoc(spec_atoms(ks[0]), spec_atoms_seq(tail), spec_atoms(k));
        assert(ks.push(k).len() != 0);
        assert(spec_atoms_seq(ks.push(k)) == sadd(
            spec_atoms(ks.push(k)[0]),
            spec_atoms_seq(ks.push(k).subrange(1, ks.push(k).len() as int)),
        ));
        assert(spec_atoms_seq(ks.push(k).subrange(1, ks.push(k).len() as int)) == spec_atoms_seq(
            tail.push(k),
        ));
        assert(spec_atoms_seq(ks.push(k)) == sadd(
            spec_atoms(ks[0]),
            sadd(spec_atoms_seq(tail), spec_atoms(k)),
        ));
        assert(spec_atoms_seq(ks) == sadd(spec_atoms(ks[0]), spec_atoms_seq(tail)));
    }
}

/// Appending one kapp to a sequence appends its atom events on the right.
pub proof fn lemma_atom_events_seq_push(ks: Seq<KappV>, k: KappV)
    ensures
        spec_atom_events_seq(ks.push(k)) == spec_atom_events_seq(ks) + spec_atom_events(k),
    decreases ks.len(),
{
    if ks.len() == 0 {
        reveal_with_fuel(spec_atom_events_seq, 2);
        assert(ks.push(k).subrange(1, ks.push(k).len() as int) =~= Seq::<KappV>::empty());
        assert(ks.push(k)[0] == k);
        assert(spec_atom_events_seq(ks.push(k)) =~= spec_atom_events_seq(ks)
            + spec_atom_events(k));
    } else {
        assert(ks.push(k).subrange(1, ks.push(k).len() as int) =~= ks.subrange(
            1,
            ks.len() as int,
        ).push(k));
        assert(ks.push(k)[0] == ks[0]);
        lemma_atom_events_seq_push(ks.subrange(1, ks.len() as int), k);
        assert(spec_atom_events_seq(ks.push(k)) =~= spec_atom_events_seq(ks)
            + spec_atom_events(k));
    }
}

impl Kapp {
    /// The one atom constructor of this core: a key action.
    pub fn from_kind(e: KeyEventKind) -> (r: Kapp)
        ensures
            r@ == KappV::Atom(e),
    {
        Kapp::Atom(e)
    }

    /// Atom count of the kapp, saturating at the top of `u64`.
    #[verifier::loop_isolation(false)]
    pub fn num_atoms(&self) -> (r: u64)
        ensures
            r == spec_atoms(self@),
        decreases *self,
    {
        match self {
            Kapp::Atom(_) => 1,
            Kapp::List(children) => {
                let ghost s = kapps_view(children@);
                proof {
                    lemma_kapps_view_index(children@);
                }
                let mut sum: u64 = 0;
                let mut i: usize = 0;
                while i < children.len()
                    invariant
                        0 <= i <= children.len(),
                        s == kapps_view(children@),
                        s.len() == children@.len(),
                        forall|j: int| 0 <= j < children@.len() ==> s[j] == children@[j]@,
                        sum == spec_atoms_seq(s.take(i as int)),
                    decreases children.len() - i,
                {
                    proof {
                        assert(decreases_to!(*self => (*self)->List_0));
                        assert((*self)->List_0 == *children);
                        assert(decreases_to!(*children => children@));
                        assert(decreases_to!(children@ => children@[i as int]));
                        assert(s.take(i as int).push(s[i as int]) =~= s.take(i + 1));
                        lemma_atoms_seq_push(s.take(i as int), s[i as int]);
                    }
                    let a = children[i].num_atoms();
                    sum = sum.saturating_add(a);
                    i = i + 1;
                }
                proof {
                    assert(s.take(children@.len() as int) =~= s);
                }
                sum
            },
        }
    }

    /// A structurally equal copy.
    #[verifier::loop_isolation(false)]
    pub fn deep_clone(&self) -> (r: Kapp)
        ensures
            r@ == self@,
        decreases *self,
    {
        match self {
            Kapp::Atom(e) => Kapp::Atom(*e),
            Kapp::List(children) => {
                let ghost s = kapps_view(children@);
                proof {
                    lemma_kapps_view_index(children@);
                }
                let mut out: Vec<Kapp> = Vec::new();
                let mut i: usize = 0;
                while i < children.len()
                    invariant
                        0 <= i <= children.len(),
                        s == kapps_view(children@),
                        s.len() == children@.len(),
                        forall|j: int| 0 <= j < children@.len() ==> s[j] == children@[j]@,
                        out@.len() == i,
                        forall|j: int| 0 <= j < i ==> out@[j]@ == s[j],
                    decreases children.len() - i,
                {
                    proof {
                        assert(decreases_to!(*self => (*self)->List_0));
                        assert((*self)->List_0 == *children);
                        assert(decreases_to!(*children => children@));
                        assert(decreases_to!(children@ => children@[i as int]));
                    }
                    let c = children[i].deep_clone();
                    out.push(c);
                    i = i + 1;
                }
                let r = Kapp::List(out);
                proof {
                    lemma_kapps_view_index(out@);
                    assert(kapps_view(out@) =~= s);
                }
                r
            },
        }
    }
}

/// Structural equality of two kapps: true exactly when their shapes agree.
#[verifier::loop_isolation(false)]
pub fn kapp_eq(a: &Kapp, b: &Kapp) -> (r: bool)
    ensures
        r == (a@ == b@),
    decreases *a,
{
    match (a, b) {
        (Kapp::Atom(x), Kapp::Atom(y)) => x == y,
        (Kapp::List(u), Kapp::List(v)) => {
            let ghost su = kapps_view(u@);
            let ghost sv = kapps_view(v@);
            proof {
                lemma_kapps_view_index(u@);
                lemma_kapps_view_index(v@);
            }
            if u.len() != v.len() {
                return false;
            }
            let mut i: usize = 0;
            while i < u.len()
                invariant
                    0 <= i <= u.len(),
                    u.len() == v.len(),
                    su == kapps_view(u@),
                    sv == kapps_view(v@),
                    su.len() == u@.len(),
                    sv.len() == v@.len(),
                    forall|j: int| 0 <= j < u@.len() ==> su[j] == u@[j]@,
                    forall|j: int| 0 <= j < v@.len() ==> sv[j] == v@[j]@,
                    a@ == KappV::List(su),
                    b@ == KappV::List(sv),
                    forall|j: int| 0 <= j < i ==> su[j] == sv[j],
                decreases u.len() - i,
            {
                proof {
                    assert(decreases_to!(*a => (*a)->List_0));
                    assert((*a)->List_0 == *u);
                    assert(decreases_to!(*u => u@));
                    assert(decreases_to!(u@ => u@[i as int]));
                }
                if !kapp_eq(&u[i], &v[i]) {
                    proof {
                        assert(su[i as int] != sv[i as int]);
                    }
                    return false;
                }
                i = i + 1;
            }
            proof {
                assert(su =~= sv);
            }
            true
        },
        _ => false,
    }
}

} // verus!

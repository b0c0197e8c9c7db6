use vstd::prelude::*;

use crate::kapp::{kapp_view, kapps_view, lemma_kapps_view_index, sadd, spec_atoms, Kapp, KappV};

verus! {

/// Longest suffix of the kapp log that is learned as one n-gram.
pub const MAX_NGRAM: usize = 32;

/// Rank of one learned kapp: its score, then the stamp of its latest
/// update. `Ord` on the pair orders by score and breaks ties by recency.
pub type Rank = (u64, u64);

/// The ranking queue: a max-priority queue over intern indexes.
pub type RankQueue = priority_queue::PriorityQueue<usize, Rank>;

/// One row the ranking queue hands back: an intern index and its rank.
pub type RankRow = (usize, Rank);

#[verifier::external_type_specification]
#[verifier::external_body]
#[verifier::reject_recursive_types(I)]
#[verifier::reject_recursive_types(P)]
#[verifier::reject_recursive_types(H)]
pub struct ExPriorityQueue<I, P, H>(priority_queue::PriorityQueue<I, P, H>);

/// What the ranking queue holds: a priority for each stored item.
pub uninterp spec fn pq_contents(q: RankQueue) -> Map<usize, Rank>;

/// Priorities order first by score, then by update stamp: the later update
/// wins a tie. This is the order `Ord` gives a pair of integers.
pub open spec fn lex_ge(a: Rank, b: Rank) -> bool {
    a.0 > b.0 || (a.0 == b.0 && a.1 >= b.1)
}

/// Relies on `priority_queue::PriorityQueue::new`: a new queue is empty.
#[verifier::external_body]
fn pq_new() -> (q: RankQueue)
    ensures
        pq_contents(q).dom() == Set::<usize>::empty(),
{
    priority_queue::PriorityQueue::new()
}

/// Relies on `priority_queue::PriorityQueue::get_priority`: returns the
/// priority stored for the item, or nothing if the item is absent.
#[verifier::external_body]
fn pq_get(q: &RankQueue, k: usize) -> (r: Option<Rank>)
    ensures
        r == if pq_contents(*q).dom().contains(k) {
            Some(pq_contents(*q)[k])
        } else {
            None
        },
{
    q.get_priority(&k).copied()
}

/// Relies on `priority_queue::PriorityQueue::push`: inserts the item with
/// the given priority, or replaces the priority of the existing item.
#[verifier::external_body]
fn pq_push(q: &mut RankQueue, k: usize, p: Rank)
    ensures
        pq_contents(*final(q)) == pq_contents(*old(q)).insert(k, p),
{
    q.push(k, p);
}

/// Relies on `priority_queue::PriorityQueue::into_sorted_iter` (on a clone):
/// it pops the stored pairs greatest priority first, so it yields every
/// stored pair once, in non-increasing priority order. Between equal
/// priorities the source fixes no order.
#[verifier::external_body]
fn pq_sorted(q: &RankQueue) -> (r: Vec<RankRow>)
    ensures
        forall|x: int| 0 <= x < r@.len() ==> pq_contents(*q).contains_pair(r@[x].0, r@[x].1),
        forall|x: int, y: int| 0 <= x < y < r@.len() ==> r@[x].0 != r@[y].0,
        forall|x: int, y: int| 0 <= x < y < r@.len() ==> lex_ge(r@[x].1, r@[y].1),
        forall|k: usize|
            pq_contents(*q).dom().contains(k) ==> exists|x: int| 0 <= x < r@.len() && r@[x].0 == k,
{
    q.clone().into_sorted_iter().collect()
}

/// Reward table over n-grams: each learned kapp carries a score and the
/// stamp of its latest update. Kapps are interned in `ids`; the ranking
/// queue keys on the intern index so that its order rests on integers.
pub struct NgramTable {
    pub ids: Vec<Kapp>,
    pub pq: RankQueue,
    pub next_seq: u64,
}

impl View for NgramTable {
    type V = Map<KappV, Rank>;

    open spec fn view(&self) -> Map<KappV, Rank> {
        Map::new(
            |kv: KappV| self.contains_kapp(kv),
            |kv: KappV| pq_contents(self.pq)[self.id_of(kv)],
        )
    }
}

/// One table update: the kapp's score grows by its atom count (from zero if
/// it is new) and its stamp becomes the current one; the stamp advances.
pub open spec fn spec_bump(t: Map<KappV, Rank>, ns: u64, kv: KappV) -> (Map<KappV, Rank>, u64) {
    let p = if t.contains_key(kv) {
        t[kv].0
    } else {
        0
    };
    (t.insert(kv, (sadd(p, spec_atoms(kv)), ns)), sadd(ns, 1))
}

/// Two tables with the same keys and the same ranks are one table.
proof fn lemma_map_eq(a: Map<KappV, Rank>, b: Map<KappV, Rank>)
    requires
        forall|kv: KappV| #[trigger] a.contains_key(kv) ==> b.contains_key(kv),
        forall|kv: KappV| #[trigger] b.contains_key(kv) ==> a.contains_key(kv) && a[kv] == b[kv],
    ensures
        a == b,
{
    assert forall|kv: KappV| a.dom().contains(kv) <==> b.dom().contains(kv) by {
        assert(a.contains_key(kv) ==> b.contains_key(kv));
        assert(b.contains_key(kv) ==> a.contains_key(kv));
    }
    assert forall|kv: KappV| a.dom().contains(kv) implies a[kv] == b[kv] by {
        assert(b.contains_key(kv));
    }
    assert(a =~= b);
}

/// The table's view reads only the interned kapps and the queue.
proof fn lemma_view_same(a: NgramTable, b: NgramTable)
    requires
        a.ids == b.ids,
        a.pq == b.pq,
    ensures
        a@ == b@,
{
    assert forall|kv: KappV| a.contains_kapp(kv) implies b.contains_kapp(kv) by {
        let x = choose|x: int| 0 <= x < a.ids@.len() && a.ids@[x]@ == kv;
        assert(b.ids@[x]@ == kv);
    }
    assert forall|kv: KappV| b.contains_kapp(kv) implies a.contains_kapp(kv) by {
        let x = choose|x: int| 0 <= x < b.ids@.len() && b.ids@[x]@ == kv;
        assert(a.ids@[x]@ == kv);
    }
    assert(a@ =~= b@);
}

impl NgramTable {
    /// Some intern index holds this kapp.
    pub open spec fn contains_kapp(&self, kv: KappV) -> bool {
        exists|x: int| 0 <= x < self.ids@.len() && self.ids@[x]@ == kv
    }

    /// The intern index of this kapp.
    pub open spec fn id_of(&self, kv: KappV) -> usize {
        (choose|x: int| 0 <= x < self.ids@.len() && self.ids@[x]@ == kv) as usize
    }

    /// Interned kapps are pairwise distinct, and the queue holds exactly
    /// the intern indexes.
    pub open spec fn wf(&self) -> bool {
        &&& forall|x: int, y: int|
            0 <= x < y < self.ids@.len() ==> self.ids@[x]@ != self.ids@[y]@
        &&& pq_contents(self.pq).dom() == Set::new(|k: usize| (k as int) < self.ids@.len())
    }

    /// The table speaks of each interned kapp through its index.
    pub proof fn lemma_view_at(&self, x: int)
        requires
            self.wf(),
            0 <= x < self.ids@.len(),
        ensures
            self@.contains_key(self.ids@[x]@),
            self@[self.ids@[x]@] == pq_contents(self.pq)[x as usize],
            self.id_of(self.ids@[x]@) == x as usize,
    {
        let kv = self.ids@[x]@;
        assert(self.contains_kapp(kv));
        let y = choose|y: int| 0 <= y < self.ids@.len() && self.ids@[y]@ == kv;
        if y != x {
            assert(self.ids@[y]@ != self.ids@[x]@);
        }
        assert(pq_contents(self.pq).dom().contains(x as usize));
    }

    /// An empty table.
    pub fn new() -> (r: NgramTable)
        ensures
            r.wf(),
            r@ == Map::<KappV, Rank>::empty(),
            r.next_seq == 0,
    {
        let r = NgramTable { ids: Vec::new(), pq: pq_new(), next_seq: 0 };
        proof {
            assert(pq_contents(r.pq).dom() =~= Set::new(|k: usize| (k as int) < r.ids@.len()));
            assert(r@ =~= Map::<KappV, Rank>::empty());
        }
        r
    }

    /// The intern index holding a kapp equal to `k`, if any.
    fn find_id(&self, k: &Kapp) -> (r: Option<usize>)
        requires
            self.wf(),
        ensures
            match r {
                Some(x) => x < self.ids@.len() && self.ids@[x as int]@ == k@,
                None => !self.contains_kapp(k@),
            },
    {
        let mut i: usize = 0;
        while i < self.ids.len()
            invariant
                0 <= i <= self.ids@.len(),
                forall|j: int| 0 <= j < i ==> self.ids@[j]@ != k@,
            decreases self.ids@.len() - i,
        {
            if crate::kapp::kapp_eq(&self.ids[i], k) {
                return Some(i);
            }
            i = i + 1;
        }
        None
    }

    /// The score recorded for `k`, zero if `k` has never been learned.
    pub fn get_score(&self, k: &Kapp) -> (r: u64)
        requires
            self.wf(),
        ensures
            r == if self@.contains_key(k@) {
                self@[k@].0
            } else {
                0
            },
    {
        match self.find_id(k) {
            Some(x) => {
                proof {
                    self.lemma_view_at(x as int);
                }
                match pq_get(&self.pq, x) {
                    Some(p) => p.0,
                    None => {
                        proof {
                            assert(pq_contents(self.pq).dom().contains(x));
                        }
                        0
                    },
                }
            },
            None => 0,
        }
    }

    /// The rank recorded for `k`, if `k` has been learned.
    pub fn get_rank(&self, k: &Kapp) -> (r: Option<Rank>)
        requires
            self.wf(),
        ensures
            r == if self@.contains_key(k@) {
                Some(self@[k@])
            } else {
                None
            },
    {
        match self.find_id(k) {
            Some(x) => {
                proof {
                    self.lemma_view_at(x as int);
                }
                pq_get(&self.pq, x)
            },
            None => None,
        }
    }

    /// Add `k`'s atom count to its score (from zero if new) and stamp it.
    #[verifier::rlimit(50)]
    pub fn bump(&mut self, k: &Kapp)
        requires
            old(self).wf(),
        ensures
            final(self).wf(),
            final(self)@ == spec_bump(old(self)@, old(self).next_seq, k@).0,
            final(self).next_seq == spec_bump(old(self)@, old(self).next_seq, k@).1,
    {
        let inc = k.num_atoms();
        let prev = self.get_score(k);
        let stamp = self.next_seq;
        let newp = (prev.saturating_add(inc), stamp);
        let id: usize;
        match self.find_id(k) {
            Some(x) => {
                id = x;
                proof {
                    self.lemma_view_at(x as int);
                }
                pq_push(&mut self.pq, id, newp);
                // The executable length bounds the ghost length by the
                // machine word, which the index casts below need.
                let ids_len = self.ids.len();
                proof {
                    assert(self.ids@.len() == ids_len);
                    assert(pq_contents(self.pq).dom() =~= Set::new(
                        |q: usize| (q as int) < self.ids@.len(),
                    ));
                    assert forall|kv: KappV| #[trigger] self@.contains_key(kv) implies old(
                        self,
                    )@.insert(k@, newp).contains_key(kv) by {}
                    assert(self.ids@ == old(self).ids@);
                    assert forall|kv: KappV| #[trigger] old(self)@.insert(k@, newp).contains_key(
                        kv,
                    ) implies self@.contains_key(kv) && self@[kv] == old(self)@.insert(
                        k@,
                        newp,
                    )[kv] by {
                        if kv == k@ {
                            assert(self.ids@[x as int]@ == kv);
                            assert(self.contains_kapp(kv));
                        } else {
                            assert(old(self)@.contains_key(kv));
                            assert(old(self).contains_kapp(kv));
                            assert(self.contains_kapp(kv));
                        }
                        let y = choose|y: int| 0 <= y < self.ids@.len() && self.ids@[y]@ == kv;
                        self.lemma_view_at(y);
                        if kv == k@ {
                            assert(y == x as int);
                            assert(self@[kv] == pq_contents(self.pq)[x]);
                            assert(pq_contents(self.pq)[x] == newp);
                        } else {
                            assert(y != x as int);
                            old(self).lemma_view_at(y);
                            assert(pq_contents(self.pq)[y as usize] == pq_contents(
                                old(self).pq,
                            )[y as usize]);
                        }
                    }
                    lemma_map_eq(self@, old(self)@.insert(k@, newp));
                }
            },
            None => {
                id = self.ids.len();
                let kc = k.deep_clone();
                self.ids.push(kc);
                pq_push(&mut self.pq, id, newp);
                // The executable length bounds the ghost length by the
                // machine word, which the index casts below need.
                let ids_len = self.ids.len();
                proof {
                    assert(self.ids@.len() == ids_len);
                    assert(self.ids@[id as int]@ == k@);
                    assert forall|x: int, y: int|
                        0 <= x < y < self.ids@.len() implies self.ids@[x]@ != self.ids@[y]@ by {
                        if y < id {
                            assert(old(self).ids@[x]@ != old(self).ids@[y]@);
                        } else {
                            assert(y == id);
                            if self.ids@[x]@ == k@ {
                                assert(old(self).ids@[x]@ == k@);
                                assert(old(self).contains_kapp(k@));
                            }
                        }
                    }
                    assert(pq_contents(self.pq).dom() =~= Set::new(
                        |q: usize| (q as int) < self.ids@.len(),
                    ));
                    assert forall|kv: KappV| #[trigger] self@.contains_key(kv) implies old(
                        self,
                    )@.insert(k@, newp).contains_key(kv) by {
                        let y = choose|y: int| 0 <= y < self.ids@.len() && self.ids@[y]@ == kv;
                        if y < id {
                            assert(old(self).ids@[y]@ == kv);
                            assert(old(self).contains_kapp(kv));
                        }
                    }
                    assert forall|kv: KappV| #[trigger] old(self)@.insert(k@, newp).contains_key(
                        kv,
                    ) implies self@.contains_key(kv) && self@[kv] == old(self)@.insert(
                        k@,
                        newp,
                    )[kv] by {
                        if kv == k@ {
                            self.lemma_view_at(id as int);
                        } else {
                            let y = choose|y: int|
                                0 <= y < old(self).ids@.len() && old(self).ids@[y]@ == kv;
                            old(self).lemma_view_at(y);
                            assert(self.ids@[y]@ == kv);
                            self.lemma_view_at(y);
                        }
                    }
                    lemma_map_eq(self@, old(self)@.insert(k@, newp));
                }
            },
        }
        let ghost mid = *self;
        if self.next_seq < u64::MAX {
            self.next_seq = self.next_seq + 1;
        }
        proof {
            lemma_view_same(mid, *self);
            assert(self@ == old(self)@.insert(k@, newp));
            assert(newp == (sadd(prev, inc), stamp));
            assert(self@ == spec_bump(old(self)@, old(self).next_seq, k@).0);
            assert(self.next_seq == sadd(old(self).next_seq, 1));
        }
    }
}

/// The suffix of the log of length `l`, wrapped as a list kapp. Even a
/// single-kapp suffix is a one-element list, so table keys stay uniform.
pub open spec fn suffix_kapp(log: Seq<KappV>, l: int) -> KappV {
    KappV::List(log.subrange(log.len() - l, log.len() as int))
}

/// Table updates for the suffixes of length 1..=l, shortest first.
pub open spec fn spec_update_upto(t: Map<KappV, Rank>, ns: u64, log: Seq<KappV>, l: int) -> (
    Map<KappV, Rank>,
    u64,
)
    decreases l,
{
    if l <= 0 {
        (t, ns)
    } else {
        let prev = spec_update_upto(t, ns, log, l - 1);
        spec_bump(prev.0, prev.1, suffix_kapp(log, l))
    }
}

/// How many suffix lengths one append refreshes.
pub open spec fn spec_ngram_max(loglen: nat) -> int {
    if loglen < MAX_NGRAM as nat {
        loglen as int
    } else {
        MAX_NGRAM as int
    }
}

/// The whole table update that follows one append to the kapp log.
pub open spec fn spec_ngram_update(t: Map<KappV, Rank>, ns: u64, log: Seq<KappV>) -> (
    Map<KappV, Rank>,
    u64,
) {
    spec_update_upto(t, ns, log, spec_ngram_max(log.len()))
}

/// `picks` are the `k` best-ranked kapps of the table, best first: all
/// distinct table keys, ranks non-increasing, and nothing outside `picks`
/// outranks anything inside. Short only when the whole table is in it.
pub open spec fn spec_is_top(t: Map<KappV, Rank>, picks: Seq<KappV>, k: int) -> bool {
    &&& picks.len() <= k
    &&& (picks.len() < k ==> forall|kv: KappV| #[trigger] t.contains_key(kv) ==> picks.contains(
        kv,
    ))
    &&& forall|x: int| 0 <= x < picks.len() ==> t.contains_key(#[trigger] picks[x])
    &&& forall|x: int, y: int| 0 <= x < y < picks.len() ==> picks[x] != picks[y]
    &&& forall|x: int, y: int|
        0 <= x < y < picks.len() ==> lex_ge(t[#[trigger] picks[x]], t[#[trigger] picks[y]])
    &&& forall|x: int, kv: KappV|
        0 <= x < picks.len() && #[trigger] t.contains_key(kv) && !picks.contains(kv) ==> lex_ge(
            t[#[trigger] picks[x]],
            t[kv],
        )
}

/// Scores never fall across a log-tail update, and no entry is lost.
pub proof fn lemma_upto_monotone(t: Map<KappV, Rank>, ns: u64, log: Seq<KappV>, l: int)
    ensures
        forall|kv: KappV| #[trigger]
            t.contains_key(kv) ==> spec_update_upto(t, ns, log, l).0.contains_key(kv)
                && spec_update_upto(t, ns, log, l).0[kv].0 >= t[kv].0,
    decreases l,
{
    if l > 0 {
        lemma_upto_monotone(t, ns, log, l - 1);
    }
}

/// Monotone scores: every kapp the table knows keeps at least its score
/// when the table learns from a freshly appended log.
pub proof fn lemma_ngram_scores_monotone(t: Map<KappV, Rank>, ns: u64, log: Seq<KappV>)
    ensures
        forall|kv: KappV| #[trigger]
            t.contains_key(kv) ==> spec_ngram_update(t, ns, log).0.contains_key(kv)
                && spec_ngram_update(t, ns, log).0[kv].0 >= t[kv].0,
{
    lemma_upto_monotone(t, ns, log, spec_ngram_max(log.len()));
}

/// Suffixes of different lengths are different kapps.
proof fn lemma_suffix_distinct(log: Seq<KappV>, m: int, l: int)
    requires
        0 <= m <= log.len(),
        0 <= l <= log.len(),
        m != l,
    ensures
        suffix_kapp(log, m) != suffix_kapp(log, l),
{
    assert(suffix_kapp(log, m)->List_0.len() == m);
    assert(suffix_kapp(log, l)->List_0.len() == l);
}

proof fn lemma_upto_coverage(t: Map<KappV, Rank>, ns: u64, log: Seq<KappV>, l: int)
    requires
        l <= log.len(),
    ensures
        forall|m: int|
            1 <= m <= l ==> spec_update_upto(t, ns, log, l).0.contains_key(
                #[trigger] suffix_kapp(log, m),
            ) && spec_update_upto(t, ns, log, l).0[suffix_kapp(log, m)].0 >= spec_atoms(
                suffix_kapp(log, m),
            ),
    decreases l,
{
    if l > 0 {
        lemma_upto_coverage(t, ns, log, l - 1);
        let prev = spec_update_upto(t, ns, log, l - 1);
        assert forall|m: int|
            1 <= m <= l implies spec_update_upto(t, ns, log, l).0.contains_key(
            #[trigger] suffix_kapp(log, m),
        ) && spec_update_upto(t, ns, log, l).0[suffix_kapp(log, m)].0 >= spec_atoms(
            suffix_kapp(log, m),
        ) by {
            if m == l {
                assert(spec_update_upto(t, ns, log, l).0[suffix_kapp(log, l)].0 >= spec_atoms(
                    suffix_kapp(log, l),
                ));
            } else {
                lemma_suffix_distinct(log, m, l);
            }
        }
    }
}

/// N-gram coverage: after the table learns from a log that just grew, the
/// suffix of every length from one to `MAX_NGRAM` (or the log length if
/// shorter) is in the table, with a score at least its atom count.
pub proof fn lemma_ngram_coverage(t: Map<KappV, Rank>, ns: u64, log: Seq<KappV>)
    ensures
        forall|m: int|
            1 <= m <= spec_ngram_max(log.len()) ==> spec_ngram_update(t, ns, log).0.contains_key(
                #[trigger] suffix_kapp(log, m),
            ) && spec_ngram_update(t, ns, log).0[suffix_kapp(log, m)].0 >= spec_atoms(
                suffix_kapp(log, m),
            ),
{
    lemma_upto_coverage(t, ns, log, spec_ngram_max(log.len()));
}

impl NgramTable {
    /// After one kapp was appended to the log, refresh the score of every
    /// suffix of length 1..=MAX_NGRAM, shortest first: each suffix, wrapped
    /// as a list, gains its atom count.
    #[verifier::loop_isolation(false)]
    pub fn update_from_log_tail(&mut self, log: &Vec<Kapp>)
        requires
            old(self).wf(),
        ensures
            final(self).wf(),
            final(self)@ == spec_ngram_update(
                old(self)@,
                old(self).next_seq,
                kapps_view(log@),
            ).0,
            final(self).next_seq == spec_ngram_update(
                old(self)@,
                old(self).next_seq,
                kapps_view(log@),
            ).1,
    {
        let ghost logv = kapps_view(log@);
        proof {
            lemma_kapps_view_index(log@);
        }
        let lmax = if log.len() < MAX_NGRAM {
            log.len()
        } else {
            MAX_NGRAM
        };
        let mut l: usize = 1;
        proof {
            assert(lmax as int == spec_ngram_max(logv.len()));
        }
        while l <= lmax
            invariant
                1 <= l <= lmax + 1,
                self.wf(),
                self@ == spec_update_upto(old(self)@, old(self).next_seq, logv, l - 1).0,
                self.next_seq == spec_update_upto(old(self)@, old(self).next_seq, logv, l - 1).1,
            decreases lmax + 1 - l,
        {
            let start = log.len() - l;
            let mut children: Vec<Kapp> = Vec::new();
            let mut i: usize = start;
            while i < log.len()
                invariant
                    start <= i <= log@.len(),
                    children@.len() == i - start,
                    forall|j: int| 0 <= j < children@.len() ==> children@[j]@ == logv[start + j],
                decreases log@.len() - i,
            {
                let c = log[i].deep_clone();
                children.push(c);
                i = i + 1;
            }
            let item = Kapp::List(children);
            proof {
                lemma_kapps_view_index(children@);
                assert(kapps_view(children@) =~= logv.subrange(
                    logv.len() - l,
                    logv.len() as int,
                ));
                assert(item@ == suffix_kapp(logv, l as int));
            }
            self.bump(&item);
            l = l + 1;
        }
    }

    /// The `count` best-ranked kapps, best first: highest score wins, the
    /// most recent update wins a tie.
    #[verifier::loop_isolation(false)]
    #[verifier::rlimit(50)]
    pub fn top(&self, count: usize) -> (r: Vec<Kapp>)
        requires
            self.wf(),
        ensures
            spec_is_top(self@, kapps_view(r@), count as int),
    {
        let rows = pq_sorted(&self.pq);
        let ids_len = self.ids.len();
        let mut picks: Vec<Kapp> = Vec::new();
        let mut x: usize = 0;
        while x < rows.len() && x < count
            invariant
                0 <= x <= rows@.len(),
                x <= count,
                picks@.len() == x,
                forall|j: int|
                    0 <= j < x ==> (rows@[j].0 as int) < self.ids@.len() && picks@[j]@
                        == self.ids@[rows@[j].0 as int]@,
            decreases rows@.len() - x,
        {
            let id = rows[x].0;
            proof {
                assert(pq_contents(self.pq).contains_pair(rows@[x as int].0, rows@[x as int].1));
                assert(pq_contents(self.pq).dom().contains(id));
                assert((id as int) < self.ids@.len());
            }
            let kc = self.ids[id].deep_clone();
            picks.push(kc);
            x = x + 1;
        }
        proof {
            lemma_kapps_view_index(picks@);
            let pv = kapps_view(picks@);
            let t = self@;
            assert(picks@.len() == x);
            assert(x == rows@.len() || x == count);
            assert forall|j: int| 0 <= j < pv.len() implies t.contains_key(#[trigger] pv[j])
                && t[pv[j]] == rows@[j].1 by {
                let id = rows@[j].0;
                assert(pq_contents(self.pq).contains_pair(id, rows@[j].1));
                self.lemma_view_at(id as int);
            }
            assert forall|a: int, b: int| 0 <= a < b < pv.len() implies pv[a] != pv[b] by {
                let ida = rows@[a].0;
                let idb = rows@[b].0;
                assert(ida != idb);
                if (ida as int) < (idb as int) {
                    assert(self.ids@[ida as int]@ != self.ids@[idb as int]@);
                } else {
                    assert(self.ids@[idb as int]@ != self.ids@[ida as int]@);
                }
            }
            assert forall|a: int, b: int| 0 <= a < b < pv.len() implies lex_ge(
                t[#[trigger] pv[a]],
                t[#[trigger] pv[b]],
            ) by {
                assert(lex_ge(rows@[a].1, rows@[b].1));
            }
            if pv.len() < count {
                assert(pv.len() == rows@.len());
                assert forall|kv: KappV| #[trigger] t.contains_key(kv) implies pv.contains(
                    kv,
                ) by {
                    let y = choose|y: int| 0 <= y < self.ids@.len() && self.ids@[y]@ == kv;
                    assert(pq_contents(self.pq).dom().contains(y as usize));
                    let rx = choose|rx: int| 0 <= rx < rows@.len() && rows@[rx].0 == y as usize;
                    assert(pv[rx] == kv);
                }
            }
            assert forall|a: int, kv: KappV|
                0 <= a < pv.len() && #[trigger] t.contains_key(kv) && !pv.contains(kv)
                implies lex_ge(t[#[trigger] pv[a]], t[kv]) by {
                let y = choose|y: int| 0 <= y < self.ids@.len() && self.ids@[y]@ == kv;
                self.lemma_view_at(y);
                assert(pq_contents(self.pq).dom().contains(y as usize));
                let rx = choose|rx: int| 0 <= rx < rows@.len() && rows@[rx].0 == y as usize;
                assert(pq_contents(self.pq).contains_pair(rows@[rx].0, rows@[rx].1));
                assert(t[kv] == rows@[rx].1);
                if rx < pv.len() {
                    assert(pv[rx] == self.ids@[y]@);
                    assert(pv.contains(kv));
                }
                assert(rx >= pv.len());
                if a < rx {
                    assert(lex_ge(rows@[a].1, rows@[rx].1));
                }
            }
        }
        picks
    }
}


/// `kv` is the list over one contiguous stretch of the log, between one
/// and `MAX_NGRAM` kapps long.
pub open spec fn spec_is_window(kv: KappV, log: Seq<KappV>) -> bool {
    exists|a: int, b: int|
        0 <= a <= b <= log.len() && 1 <= b - a <= MAX_NGRAM as int && kv == KappV::List(
            #[trigger] log.subrange(a, b),
        )
}

/// A stretch of the log is still a stretch after the log grows.
proof fn lemma_windows_extend(t: Map<KappV, Rank>, log0: Seq<KappV>, x: KappV)
    requires
        forall|kv: KappV| #[trigger] t.contains_key(kv) ==> spec_is_window(kv, log0),
    ensures
        forall|kv: KappV| #[trigger] t.contains_key(kv) ==> spec_is_window(kv, log0.push(x)),
{
    assert forall|kv: KappV| #[trigger] t.contains_key(kv) implies spec_is_window(
        kv,
        log0.push(x),
    ) by {
        let (a, b) = choose|a: int, b: int|
            0 <= a <= b <= log0.len() && 1 <= b - a <= MAX_NGRAM as int && kv == KappV::List(
                log0.subrange(a, b),
            );
        assert(log0.push(x).subrange(a, b) =~= log0.subrange(a, b));
    }
}

proof fn lemma_upto_windows(t: Map<KappV, Rank>, ns: u64, log: Seq<KappV>, l: int)
    requires
        l <= log.len(),
        l <= MAX_NGRAM as int,
        forall|kv: KappV| #[trigger] t.contains_key(kv) ==> spec_is_window(kv, log),
    ensures
        forall|kv: KappV| #[trigger]
            spec_update_upto(t, ns, log, l).0.contains_key(kv) ==> spec_is_window(kv, log),
    decreases l,
{
    if l > 0 {
        lemma_upto_windows(t, ns, log, l - 1);
        assert(spec_is_window(suffix_kapp(log, l), log)) by {
            assert(1 <= log.len() - (log.len() - l) <= MAX_NGRAM as int);
        }
        assert forall|kv: KappV| #[trigger]
            spec_update_upto(t, ns, log, l).0.contains_key(kv) implies spec_is_window(
            kv,
            log,
        ) by {
            if kv != suffix_kapp(log, l) {
                assert(spec_update_upto(t, ns, log, l - 1).0.contains_key(kv));
            }
        }
    }
}

/// Every key of the table stays a contiguous stretch of the log: what the
/// update inserts are suffixes of the grown log, and what was there
/// before keeps its place after the append.
pub proof fn lemma_table_keys_are_windows(t: Map<KappV, Rank>, ns: u64, log0: Seq<KappV>, x: KappV)
    requires
        forall|kv: KappV| #[trigger] t.contains_key(kv) ==> spec_is_window(kv, log0),
    ensures
        forall|kv: KappV| #[trigger]
            spec_ngram_update(t, ns, log0.push(x)).0.contains_key(kv) ==> spec_is_window(
                kv,
                log0.push(x),
            ),
{
    lemma_windows_extend(t, log0, x);
    lemma_upto_windows(t, ns, log0.push(x), spec_ngram_max(log0.push(x).len()));
}


} // verus!

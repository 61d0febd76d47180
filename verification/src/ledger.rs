use vstd::prelude::*;

use crate::bytes::copy_bytes;
use crate::errors::ApiError;
use crate::seqs::{lemma_filter_push, lemma_filter_subset_contains};

verus! {

/// Identity of a spendable resource: the originating transaction together
/// with the index of the output that carries the value.
#[derive(Debug, Clone, Copy, PartialEq, Eq, Structural)]
pub struct Outpoint {
    pub transaction_id: u64,
    pub index: u32,
}

/// One spendable unit known to the ledger.
///
/// `is_spent` starts false and is set true exactly once, when a transaction
/// consuming the unit is accepted for submission; it is never unset.
#[derive(Debug, Clone)]
pub struct Utxo {
    pub outpoint: Outpoint,
    pub amount: u64,
    pub script_public_key: Vec<u8>,
    pub is_spent: bool,
}

/// Mathematical image of a `Utxo`.
#[verifier::ext_equal]
pub struct UtxoView {
    pub outpoint: Outpoint,
    pub amount: u64,
    pub script_public_key: Seq<u8>,
    pub is_spent: bool,
}

impl View for Utxo {
    type V = UtxoView;

    open spec fn view(&self) -> UtxoView {
        UtxoView {
            outpoint: self.outpoint,
            amount: self.amount,
            script_public_key: self.script_public_key@,
            is_spent: self.is_spent,
        }
    }
}

/// The models of a sequence of resources, in the same order.
pub open spec fn views_of(s: Seq<Utxo>) -> Seq<UtxoView> {
    Seq::new(s.len(), |i: int| s[i]@)
}

/// Sum of the amounts of the unspent resources in `s`.
pub open spec fn unspent_total(s: Seq<UtxoView>) -> int
    decreases s.len(),
{
    if s.len() == 0 {
        0
    } else {
        unspent_total(s.drop_last()) + if !s.last().is_spent {
            s.last().amount as int
        } else {
            0
        }
    }
}

/// The subsequence of `s` that is still spendable, in ledger order.
pub open spec fn available_of(s: Seq<UtxoView>) -> Seq<UtxoView> {
    s.filter(|u: UtxoView| !u.is_spent)
}

/// Whether some resource in `s` has identity `op`.
pub open spec fn has_outpoint(s: Seq<UtxoView>, op: Outpoint) -> bool {
    exists|i: int| 0 <= i < s.len() && s[i].outpoint == op
}

/// Whether some unspent resource in `s` has identity `op`.
pub open spec fn has_unspent(s: Seq<UtxoView>, op: Outpoint) -> bool {
    exists|i: int| 0 <= i < s.len() && s[i].outpoint == op && !s[i].is_spent
}

/// `s` with every resource of identity `op` marked spent.
pub open spec fn mark_spent_seq(s: Seq<UtxoView>, op: Outpoint) -> Seq<UtxoView> {
    Seq::new(
        s.len(),
        |i: int|
            if s[i].outpoint == op {
                UtxoView {
                    outpoint: s[i].outpoint,
                    amount: s[i].amount,
                    script_public_key: s[i].script_public_key,
                    is_spent: true,
                }
            } else {
                s[i]
            },
    )
}

/// The ledger transition `mark_spent` performs: the new resource sequence and
/// whether the call succeeds. It succeeds exactly when `op` names an unspent
/// resource; a failing call leaves the ledger unchanged.
pub open spec fn mark_spent_spec(s: Seq<UtxoView>, op: Outpoint) -> (Seq<UtxoView>, bool) {
    if has_unspent(s, op) {
        (mark_spent_seq(s, op), true)
    } else {
        (s, false)
    }
}

/// `s` with its identities replaced wholesale by `entries`, every entry
/// entering unspent.
pub open spec fn refreshed(s: Seq<UtxoView>) -> Seq<UtxoView> {
    Seq::new(
        s.len(),
        |i: int|
            UtxoView {
                outpoint: s[i].outpoint,
                amount: s[i].amount,
                script_public_key: s[i].script_public_key,
                is_spent: false,
            },
    )
}

/// Whether all identities in `s` are distinct.
pub open spec fn unique_outpoints(s: Seq<UtxoView>) -> bool {
    forall|i: int, j: int|
        0 <= i < j < s.len() ==> (#[trigger] s[i]).outpoint != (#[trigger] s[j]).outpoint
}

/// The resource ledger: every spendable unit the wallet knows about and
/// whether each has been consumed. Selection order is insertion order, so
/// resource selection is deterministic.
pub struct UtxoManager {
    utxos: Vec<Utxo>,
}

impl UtxoManager {
    /// The ledger as a sequence of resource models, in insertion order.
    pub closed spec fn resources(&self) -> Seq<UtxoView> {
        views_of(self.utxos@)
    }

    /// Invariant: identities are unique and the spendable value fits `u64`.
    pub open spec fn wf(&self) -> bool {
        &&& unique_outpoints(self.resources())
        &&& unspent_total(self.resources()) <= u64::MAX
    }

    pub fn new() -> (r: Self)
        ensures
            r.wf(),
            r.resources() =~= Seq::<UtxoView>::empty(),
    {
        UtxoManager { utxos: Vec::new() }
    }

    /// Atomically replaces the known resource set with `entries`, every entry
    /// entering unspent.
    ///
    /// The entries come from the external source of truth, which hands out
    /// distinct identities; the bound on the total value is a machine limit.
    pub fn update_utxos(&mut self, entries: Vec<Utxo>) -> (r: Result<(), ApiError>)
        requires
            unique_outpoints(views_of(entries@)),
            unspent_total(refreshed(views_of(entries@))) <= u64::MAX,
        ensures
            r is Ok,
            final(self).wf(),
            final(self).resources() == refreshed(views_of(entries@)),
    {
        let ghost target = refreshed(views_of(entries@));
        let mut fresh: Vec<Utxo> = Vec::new();
        let mut i: usize = 0;
        while i < entries.len()
            invariant
                i <= entries@.len(),
                views_of(fresh@) =~~= refreshed(views_of(entries@)).take(i as int),
            decreases entries@.len() - i,
        {
            let ghost before = fresh@;
            let e = &entries[i];
            let nu = Utxo {
                outpoint: e.outpoint,
                amount: e.amount,
                script_public_key: copy_bytes(&e.script_public_key),
                is_spent: false,
            };
            let ghost nuv = nu@;
            proof {
                assert(nuv =~~= refreshed(views_of(entries@))[i as int]);
                assert(before.len() == i) by {
                    assert(views_of(before).len() == refreshed(views_of(entries@)).take(
                        i as int,
                    ).len());
                }
            }
            fresh.push(nu);
            proof {
                let tgt = refreshed(views_of(entries@)).take(i + 1);
                assert(fresh@ == before.push(nu));
                assert forall|k: int| 0 <= k <= i implies views_of(fresh@)[k] == tgt[k] by {
                    if k < i {
                        assert(views_of(before)[k] == refreshed(views_of(entries@)).take(
                            i as int,
                        )[k]);
                        assert(fresh@[k] == before[k]);
                    } else {
                        assert(fresh@[k] == nu);
                        assert(views_of(fresh@)[k] == nuv);
                    }
                }
                assert(views_of(fresh@) =~~= tgt);
            }
            i = i + 1;
        }
        proof {
            assert(views_of(fresh@) =~~= target);
        }
        self.utxos = fresh;
        proof {
            assert(self.resources() =~~= target);
        }
        Ok(())
    }

    /// Every unspent resource, as a snapshot in ledger order. The first entry
    /// of the result is the resource the selection policy picks next.
    pub fn get_available_utxos(&self) -> (r: Result<Vec<Utxo>, ApiError>)
        ensures
            r is Ok,
            views_of(r->Ok_0@) == available_of(self.resources()),
    {
        let mut out: Vec<Utxo> = Vec::new();
        let mut i: usize = 0;
        while i < self.utxos.len()
            invariant
                i <= self.utxos@.len(),
                views_of(out@) =~~= available_of(self.resources().take(i as int)),
            decreases self.utxos@.len() - i,
        {
            proof {
                assert(self.resources().take(i + 1) =~~= self.resources().take(i as int).push(
                    self.resources()[i as int],
                ));
                lemma_filter_push(
                    self.resources().take(i as int),
                    self.resources()[i as int],
                    |u: UtxoView| !u.is_spent,
                );
            }
            let u = &self.utxos[i];
            if !u.is_spent {
                out.push(
                    Utxo {
                        outpoint: u.outpoint,
                        amount: u.amount,
                        script_public_key: copy_bytes(&u.script_public_key),
                        is_spent: u.is_spent,
                    },
                );
            }
            i = i + 1;
        }
        proof {
            assert(self.resources().take(self.resources().len() as int) =~= self.resources());
            assert(views_of(out@) =~~= available_of(self.resources()));
        }
        Ok(out)
    }

    /// The index of the resource carrying `op`, when one exists.
    fn find_outpoint(&self, op: &Outpoint) -> (r: Option<usize>)
        ensures
            match r {
                Some(idx) => 0 <= idx < self.resources().len() && self.resources()[
                    idx as int
                ].outpoint == *op,
                None => !has_outpoint(self.resources(), *op),
            },
    {
        let mut i: usize = 0;
        while i < self.utxos.len()
            invariant
                i <= self.resources().len(),
                forall|k: int| 0 <= k < i ==> (#[trigger] self.resources()[k]).outpoint != *op,
            decreases self.resources().len() - i,
        {
            proof {
                assert(self.resources()[i as int] == self.utxos@[i as int]@);
            }
            if self.utxos[i].outpoint == *op {
                return Some(i);
            }
            i = i + 1;
        }
        None
    }

    /// Marks the resource named `op` as consumed.
    ///
    /// Succeeds exactly when `op` names an unspent resource; marking an
    /// unknown or an already-consumed identity is an error (double-marking
    /// would hide a double spend), and leaves the ledger unchanged.
    pub fn mark_spent(&mut self, op: &Outpoint) -> (r: Result<(), ApiError>)
        requires
            old(self).wf(),
        ensures
            final(self).wf(),
            r is Ok <==> mark_spent_spec(old(self).resources(), *op).1,
            final(self).resources() == mark_spent_spec(old(self).resources(), *op).0,
            r is Err ==> r == Err::<(), ApiError>(ApiError::NotFound),
    {
        let ghost orig = self.resources();
        match self.find_outpoint(op) {
            None => {
                proof {
                    assert(!has_unspent(orig, *op));
                }
                Err(ApiError::NotFound)
            },
            Some(i) => {
                proof {
                    assert(orig[i as int] == self.utxos@[i as int]@);
                }
                if !self.utxos[i].is_spent {
                    proof {
                        assert(orig[i as int].outpoint == *op && !orig[i as int].is_spent);
                        assert(has_unspent(orig, *op));
                    }
                    self.utxos[i].is_spent = true;
                    proof {
                        assert forall|k: int| 0 <= k < orig.len() implies #[trigger] self
                            .resources()[k] == mark_spent_seq(orig, *op)[k] by {
                            assert(self.resources()[k] == self.utxos@[k]@);
                            if k != i {
                                assert(orig[k].outpoint != orig[i as int].outpoint);
                            }
                        }
                        assert(self.resources() =~~= mark_spent_seq(orig, *op));
                        lemma_mark_spent_seq_total(orig, *op);
                    }
                    Ok(())
                } else {
                    proof {
                        assert(orig[i as int].outpoint == *op && orig[i as int].is_spent);
                        assert forall|k: int|
                            0 <= k < orig.len() && (#[trigger] orig[k]).outpoint
                                == *op implies orig[k].is_spent by {
                            if k != i {
                                assert(orig[k].outpoint != orig[i as int].outpoint);
                            }
                        }
                        assert(!has_unspent(orig, *op));
                    }
                    Err(ApiError::NotFound)
                }
            },
        }
    }

    /// The value still spendable: the sum of the amounts of the unspent
    /// resources.
    pub fn get_total_balance(&self) -> (r: u64)
        requires
            self.wf(),
        ensures
            r == unspent_total(self.resources()),
    {
        let ghost all = self.resources();
        let mut sum: u64 = 0;
        let mut i: usize = 0;
        while i < self.utxos.len()
            invariant
                self.wf(),
                all == self.resources(),
                i <= all.len(),
                sum == unspent_total(all.take(i as int)),
            decreases all.len() - i,
        {
            proof {
                lemma_unspent_total_take_succ(all, i as int);
                lemma_unspent_total_take_bound(all, i + 1);
            }
            let u = &self.utxos[i];
            if !u.is_spent {
                sum = sum + u.amount;
            }
            i = i + 1;
        }
        proof {
            assert(all.take(all.len() as int) =~= all);
        }
        sum
    }

    /// Whether any resource, spent or not, carries the identity `op`.
    pub fn contains_outpoint(&self, op: &Outpoint) -> (r: bool)
        ensures
            r == has_outpoint(self.resources(), *op),
    {
        match self.find_outpoint(op) {
            Some(_) => {
                proof {
                    assert(has_outpoint(self.resources(), *op));
                }
                true
            },
            None => false,
        }
    }

    /// Admits one fresh resource into the ledger; the chaining step of the
    /// transaction pipeline inserts the submitted transaction's own output
    /// this way.
    pub fn insert_utxo(&mut self, utxo: Utxo) -> (r: Result<(), ApiError>)
        requires
            old(self).wf(),
            !utxo@.is_spent ==> unspent_total(old(self).resources()) + utxo@.amount <= u64::MAX,
        ensures
            final(self).wf(),
            r is Ok <==> !has_outpoint(old(self).resources(), utxo@.outpoint),
            r is Ok ==> final(self).resources() == old(self).resources().push(utxo@),
            r is Err ==> final(self).resources() == old(self).resources() && r == Err::<
                (),
                ApiError,
            >(ApiError::CreationDenied),
    {
        let ghost orig = self.resources();
        if self.contains_outpoint(&utxo.outpoint) {
            return Err(ApiError::CreationDenied);
        }
        proof {
            lemma_unspent_total_push(orig, utxo@);
        }
        self.utxos.push(utxo);
        proof {
            assert(self.resources() =~~= orig.push(utxo@));
        }
        Ok(())
    }
}

/// The unspent total over a prefix one longer unfolds by the element added.
pub proof fn lemma_unspent_total_take_succ(s: Seq<UtxoView>, i: int)
    requires
        0 <= i < s.len(),
    ensures
        unspent_total(s.take(i + 1)) == unspent_total(s.take(i)) + if !s[i].is_spent {
            s[i].amount as int
        } else {
            0
        },
{
    assert(s.take(i + 1).drop_last() =~= s.take(i));
    assert(s.take(i + 1).last() == s[i]);
}

/// Every prefix's unspent total is bounded by the whole sequence's.
pub proof fn lemma_unspent_total_take_bound(s: Seq<UtxoView>, n: int)
    requires
        0 <= n <= s.len(),
    ensures
        unspent_total(s.take(n)) <= unspent_total(s),
    decreases s.len(),
{
    if n == s.len() {
        assert(s.take(n) =~= s);
    } else {
        assert(s.drop_last().take(n) =~= s.take(n));
        lemma_unspent_total_take_bound(s.drop_last(), n);
    }
}

/// Appending one resource raises the unspent total by its amount when it is
/// unspent and not at all otherwise.
pub proof fn lemma_unspent_total_push(s: Seq<UtxoView>, u: UtxoView)
    ensures
        unspent_total(s.push(u)) == unspent_total(s) + if !u.is_spent {
            u.amount as int
        } else {
            0
        },
{
    assert(s.push(u).drop_last() =~= s);
    assert(s.push(u).last() == u);
}

/// The ledger after a sequence of `mark_spent` calls, one per entry of `ops`
/// in order, each applied whether or not it succeeds.
pub open spec fn mark_spent_all(s: Seq<UtxoView>, ops: Seq<Outpoint>) -> Seq<UtxoView>
    decreases ops.len(),
{
    if ops.len() == 0 {
        s
    } else {
        mark_spent_all(mark_spent_spec(s, ops[0]).0, ops.subrange(1, ops.len() as int))
    }
}

/// A `mark_spent` step never revives an identity: whatever it marks, an
/// identity with no unspent holder still has none afterwards.
pub proof fn lemma_mark_step_keeps_spent(s: Seq<UtxoView>, other: Outpoint, op: Outpoint)
    requires
        !has_unspent(s, op),
    ensures
        !has_unspent(mark_spent_spec(s, other).0, op),
{
    let t = mark_spent_spec(s, other).0;
    assert forall|i: int| 0 <= i < t.len() && t[i].outpoint == op implies #[trigger] t[i].is_spent by {
        if s[i].outpoint == other {
        } else {
            assert(t[i] == s[i]);
        }
    }
}

/// No double spend: once `mark_spent` succeeds for an identity, every later
/// `mark_spent` call on that identity errs, and no sequence of further
/// `mark_spent` calls ever makes the identity available again.
pub proof fn lemma_no_double_spend(s: Seq<UtxoView>, op: Outpoint, later: Seq<Outpoint>)
    requires
        mark_spent_spec(s, op).1,
    ensures
        ({
            let after = mark_spent_all(mark_spent_spec(s, op).0, later);
            &&& !mark_spent_spec(after, op).1
            &&& !has_unspent(after, op)
            &&& forall|i: int|
                0 <= i < available_of(after).len() ==> (#[trigger] available_of(after)[i]).outpoint
                    != op
        }),
    decreases later.len(),
{
    let marked = mark_spent_spec(s, op).0;
    assert forall|i: int|
        0 <= i < marked.len() && marked[i].outpoint == op implies #[trigger] marked[i].is_spent by {
        assert(marked[i] == mark_spent_seq(s, op)[i]);
    }
    assert(!has_unspent(marked, op));
    lemma_spent_stays_spent(marked, op, later);
    let after = mark_spent_all(marked, later);
    broadcast use vstd::seq_lib::group_filter_ensures;

    assert forall|i: int|
        0 <= i < available_of(after).len() implies (#[trigger] available_of(after)[i]).outpoint
        != op by {
        let av = available_of(after);
        assert(!av[i].is_spent);
        assert(after.contains(av[i])) by {
            assert(av.contains(av[i]));
            lemma_filter_subset_contains(after, |u: UtxoView| !u.is_spent, av[i]);
        }
        let w = choose|k: int| 0 <= k < after.len() && after[k] == av[i];
        assert(after[w].outpoint != op);
    }
}

/// An identity with no unspent holder keeps none across any sequence of
/// further `mark_spent` calls.
pub proof fn lemma_spent_stays_spent(s: Seq<UtxoView>, op: Outpoint, ops: Seq<Outpoint>)
    requires
        !has_unspent(s, op),
    ensures
        !has_unspent(mark_spent_all(s, ops), op),
    decreases ops.len(),
{
    if ops.len() > 0 {
        lemma_mark_step_keeps_spent(s, ops[0], op);
        lemma_spent_stays_spent(
            mark_spent_spec(s, ops[0]).0,
            op,
            ops.subrange(1, ops.len() as int),
        );
    }
}

/// Marking one identity spent removes exactly its holder from the
/// spendable subsequence, in place: what is available afterwards is what was
/// available before, less every entry carrying the identity.
pub proof fn lemma_available_after_mark(s: Seq<UtxoView>, op: Outpoint)
    ensures
        available_of(mark_spent_seq(s, op)) == available_of(s).filter(
            |u: UtxoView| u.outpoint != op,
        ),
    decreases s.len(),
{
    reveal(Seq::filter);
    if s.len() == 0 {
        assert(mark_spent_seq(s, op) =~= Seq::<UtxoView>::empty());
    } else {
        let dl = s.drop_last();
        lemma_available_after_mark(dl, op);
        assert(mark_spent_seq(s, op).drop_last() =~= mark_spent_seq(dl, op));
        let m = mark_spent_seq(s, op).last();
        assert(m == mark_spent_seq(s, op)[s.len() - 1]);
        if !s.last().is_spent {
            assert(available_of(s) == available_of(dl).push(s.last()));
            lemma_filter_push(available_of(dl), s.last(), |u: UtxoView| u.outpoint != op);
            if s.last().outpoint == op {
                assert(m.is_spent);
                assert(available_of(mark_spent_seq(s, op)) == available_of(
                    mark_spent_seq(dl, op),
                ));
            } else {
                assert(m == s.last());
                assert(available_of(mark_spent_seq(s, op)) == available_of(
                    mark_spent_seq(dl, op),
                ).push(s.last()));
            }
        } else {
            assert(m.is_spent);
            assert(available_of(s) == available_of(dl));
            assert(available_of(mark_spent_seq(s, op)) == available_of(mark_spent_seq(dl, op)));
        }
    }
}

/// Marking a present, unspent identity lowers the unspent total by exactly
/// its amount.
pub proof fn lemma_mark_spent_total_drop(s: Seq<UtxoView>, op: Outpoint, i: int)
    requires
        unique_outpoints(s),
        0 <= i < s.len(),
        s[i].outpoint == op,
        !s[i].is_spent,
    ensures
        unspent_total(mark_spent_seq(s, op)) == unspent_total(s) - s[i].amount,
    decreases s.len(),
{
    let dl = s.drop_last();
    assert(mark_spent_seq(s, op).drop_last() =~= mark_spent_seq(dl, op));
    if i == s.len() - 1 {
        assert forall|k: int|
            0 <= k < dl.len() implies (#[trigger] mark_spent_seq(dl, op)[k]) == dl[k] by {
            assert(dl[k] == s[k]);
            if s[k].outpoint == op {
                assert(s[k].outpoint != s[i].outpoint);
            }
        }
        assert(mark_spent_seq(dl, op) =~~= dl);
        assert(mark_spent_seq(s, op).last().is_spent);
    } else {
        assert(forall|a: int, b: int|
            0 <= a < b < dl.len() ==> (#[trigger] dl[a]).outpoint != (#[trigger] dl[b]).outpoint);
        lemma_mark_spent_total_drop(dl, op, i);
        if s.last().outpoint == op {
            assert(s[i].outpoint != s[s.len() - 1].outpoint);
        }
        assert(mark_spent_seq(s, op).last() == s.last());
    }
}

/// Marking one identity spent can only lower the unspent total.
pub proof fn lemma_mark_spent_seq_total(s: Seq<UtxoView>, op: Outpoint)
    ensures
        unspent_total(mark_spent_seq(s, op)) <= unspent_total(s),
    decreases s.len(),
{
    if s.len() > 0 {
        assert(mark_spent_seq(s, op).drop_last() =~= mark_spent_seq(s.drop_last(), op));
        lemma_mark_spent_seq_total(s.drop_last(), op);
    }
}

} // verus!

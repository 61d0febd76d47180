use vstd::prelude::*;

use crate::errors::ApiError;
use crate::ledger::{available_of, has_outpoint, has_unspent, lemma_available_after_mark,
    lemma_mark_spent_total_drop, mark_spent_seq, refreshed, unique_outpoints,
    unspent_total, views_of, Outpoint, Utxo, UtxoManager, UtxoView};
use crate::numbers::{all_digits, digits_value, parse_u32};
use crate::rate_limiter::{check_op_spec, RateLimiter, SessionLimits};
use crate::seqs::lemma_filter_push;

verus! {

/// The fixed fee subtracted from the selected resource before any change
/// output is computed.
pub const TRANSACTION_FEE: u64 = 5000;

/// What the pipeline decided for one command submission: which resource to
/// consume, what value the chained change output carries — none when the
/// remainder after the fee is not positive — and the payload the external
/// signer embeds.
#[derive(Debug)]
pub struct PlannedTransaction {
    pub consumed: Outpoint,
    pub input_amount: u64,
    pub change_amount: Option<u64>,
    pub episode_id: u32,
    pub payload: Vec<u8>,
}

/// The change value of a planned submission: the input less the fee, and no
/// output at all when that is not positive.
pub open spec fn spec_change(amount: u64) -> Option<u64> {
    if amount > TRANSACTION_FEE {
        Some((amount - TRANSACTION_FEE) as u64)
    } else {
        None
    }
}

/// The wallet that funds episode transactions: it owns the resource ledger
/// and the admission controller, selects and chains resources, and leaves
/// signing and network submission to the external node collaborator.
pub struct ServerWallet {
    pub address: String,
    utxo_manager: UtxoManager,
    rate_limiter: RateLimiter,
}

impl ServerWallet {
    /// The wallet's resource ledger.
    pub closed spec fn ledger(&self) -> UtxoManager {
        self.utxo_manager
    }

    /// The wallet's admission controller.
    pub closed spec fn limiter(&self) -> RateLimiter {
        self.rate_limiter
    }

    /// The wallet's funding address.
    pub closed spec fn spec_address(&self) -> Seq<char> {
        self.address@
    }

    pub open spec fn wf(&self) -> bool {
        &&& self.ledger().wf()
        &&& self.limiter().wf()
    }

    /// A wallet for the given funding address, with an empty ledger and the
    /// given admission quotas.
    pub fn new(address: String, limits: SessionLimits) -> (r: Self)
        ensures
            r.wf(),
            r.spec_address() == address@,
            r.ledger().resources() =~= Seq::<UtxoView>::empty(),
            r.limiter().limits() == limits,
            forall|id: Seq<char>| !r.limiter().has_session(id),
    {
        ServerWallet {
            address,
            utxo_manager: UtxoManager::new(),
            rate_limiter: RateLimiter::with_limits(limits),
        }
    }

    /// Atomically replaces the ledger with the spendable resources the
    /// external source of truth reported.
    pub fn refresh_utxos(&mut self, entries: Vec<Utxo>) -> (r: Result<(), ApiError>)
        requires
            old(self).wf(),
            unique_outpoints(views_of(entries@)),
            unspent_total(refreshed(views_of(entries@))) <= u64::MAX,
        ensures
            final(self).wf(),
            r is Ok,
            final(self).ledger().resources() == refreshed(views_of(entries@)),
            final(self).limiter() == old(self).limiter(),
            final(self).spec_address() == old(self).spec_address(),
    {
        self.utxo_manager.update_utxos(entries)
    }

    /// The wallet's spendable balance.
    pub fn get_balance(&self) -> (r: Result<u64, ApiError>)
        requires
            self.wf(),
        ensures
            r == Ok::<u64, ApiError>(unspent_total(self.ledger().resources()) as u64),
    {
        Ok(self.utxo_manager.get_total_balance())
    }

    /// Plans a command transaction on behalf of a user session: the session
    /// must pass admission control, a resource is selected first-available,
    /// the episode id must be numeric, and the fee policy fixes the change.
    /// Nothing is consumed yet; the ledger changes only when the external
    /// submission is acknowledged.
    pub fn create_episode_transaction(
        &mut self,
        episode_id: &str,
        command_payload: Vec<u8>,
        session_id: &str,
        now: u64,
    ) -> (r: Result<PlannedTransaction, ApiError>)
        requires
            old(self).wf(),
        ensures
            final(self).wf(),
            final(self).ledger() == old(self).ledger(),
            final(self).spec_address() == old(self).spec_address(),
            ({
                let step = check_op_spec(
                    old(self).limiter().effective_usage(session_id@, now),
                    old(self).limiter().limits(),
                    now,
                );
                let avail = available_of(old(self).ledger().resources());
                &&& (!step.1 ==> r == Err::<PlannedTransaction, ApiError>(ApiError::RateLimited))
                &&& (step.1 && avail.len() == 0 ==> r == Err::<PlannedTransaction, ApiError>(
                    ApiError::NoResourcesAvailable,
                ))
                &&& (step.1 && avail.len() > 0 && !(episode_id@.len() > 0 && all_digits(
                    episode_id@,
                ) && digits_value(episode_id@) <= u32::MAX) ==> r == Err::<
                    PlannedTransaction,
                    ApiError,
                >(ApiError::EncodingFailed))
                &&& (step.1 && avail.len() > 0 && episode_id@.len() > 0 && all_digits(episode_id@)
                    && digits_value(episode_id@) <= u32::MAX ==> ({
                    &&& r is Ok
                    &&& r->Ok_0.consumed == avail[0].outpoint
                    &&& r->Ok_0.input_amount == avail[0].amount
                    &&& r->Ok_0.change_amount == spec_change(avail[0].amount)
                    &&& r->Ok_0.episode_id == digits_value(episode_id@)
                    &&& r->Ok_0.payload@ == command_payload@
                }))
                // the admission step is consumed exactly once, whatever comes
                // after it: a denial leaves only pruned windows behind, a
                // success records exactly one operation
                &&& final(self).limiter().has_session(session_id@)
                &&& final(self).limiter().usage(session_id@) == step.0
            }),
            forall|other: Seq<char>|
                other != session_id@ ==> final(self).limiter().has_session(other) == old(self).limiter().has_session(other),
            forall|other: Seq<char>|
                other != session_id@ && old(self).limiter().has_session(other) ==> final(self).limiter().usage(other) == old(self).limiter().usage(other),
            final(self).limiter().wf(),
            final(self).limiter().limits() == old(self).limiter().limits(),
    {
        match self.rate_limiter.check_and_update(session_id, now) {
            Err(_) => Err(ApiError::RateLimited),
            Ok(_) => {
                let available = match self.utxo_manager.get_available_utxos() {
                    Ok(a) => a,
                    Err(e) => {
                        return Err(e);
                    },
                };
                if available.len() == 0 {
                    return Err(ApiError::NoResourcesAvailable);
                }
                proof {
                    assert(views_of(available@)[0] == available@[0]@);
                }
                let episode_id_num = match parse_u32(episode_id) {
                    None => {
                        return Err(ApiError::EncodingFailed);
                    },
                    Some(n) => n,
                };
                let selected = &available[0];
                let change: Option<u64> = if selected.amount > TRANSACTION_FEE {
                    Some(selected.amount - TRANSACTION_FEE)
                } else {
                    None
                };
                Ok(
                    PlannedTransaction {
                        consumed: selected.outpoint,
                        input_amount: selected.amount,
                        change_amount: change,
                        episode_id: episode_id_num,
                        payload: command_payload,
                    },
                )
            },
        }
    }

    /// Plans the privileged episode-initialization transaction: the same
    /// selection and fee policy, with no admission check.
    pub fn create_new_episode_transaction(
        &mut self,
        episode_id: u32,
        participants: Vec<Vec<u8>>,
    ) -> (r: Result<PlannedTransaction, ApiError>)
        requires
            old(self).wf(),
        ensures
            final(self).wf(),
            *final(self) == *old(self),
            ({
                let avail = available_of(old(self).ledger().resources());
                &&& (avail.len() == 0 ==> r == Err::<PlannedTransaction, ApiError>(
                    ApiError::NoResourcesAvailable,
                ))
                &&& (avail.len() > 0 ==> ({
                    &&& r is Ok
                    &&& r->Ok_0.consumed == avail[0].outpoint
                    &&& r->Ok_0.input_amount == avail[0].amount
                    &&& r->Ok_0.change_amount == spec_change(avail[0].amount)
                    &&& r->Ok_0.episode_id == episode_id
                    &&& r->Ok_0.payload@ == Seq::<u8>::empty()
                }))
            }),
    {
        let available = match self.utxo_manager.get_available_utxos() {
            Ok(a) => a,
            Err(e) => {
                return Err(e);
            },
        };
        if available.len() == 0 {
            return Err(ApiError::NoResourcesAvailable);
        }
        proof {
            assert(views_of(available@)[0] == available@[0]@);
        }
        let selected = &available[0];
        let change: Option<u64> = if selected.amount > TRANSACTION_FEE {
            Some(selected.amount - TRANSACTION_FEE)
        } else {
            None
        };
        // the plan itself carries no payload: the caller keeps the
        // participant keys and hands them to the external message builder
        let _ = participants;
        Ok(
            PlannedTransaction {
                consumed: selected.outpoint,
                input_amount: selected.amount,
                change_amount: change,
                episode_id,
                payload: Vec::new(),
            },
        )
    }

    /// Records an acknowledged submission in the ledger, atomically with the
    /// acknowledgment: the consumed resource is marked spent and the
    /// transaction's own single output — the input less the fee, under the
    /// acknowledged transaction's identity — enters as the one new spendable
    /// resource; no output enters when the remainder was not positive.
    ///
    /// A failed submission never reaches this point, so a retry still finds
    /// the resource selectable.
    pub fn apply_submission_success(
        &mut self,
        consumed: &Outpoint,
        new_txid: u64,
        new_script: Vec<u8>,
    ) -> (r: Result<(), ApiError>)
        requires
            old(self).wf(),
        ensures
            final(self).wf(),
            final(self).limiter() == old(self).limiter(),
            final(self).spec_address() == old(self).spec_address(),
            !has_unspent(old(self).ledger().resources(), *consumed) ==> r == Err::<(), ApiError>(
                ApiError::NotFound,
            ) && final(self).ledger() == old(self).ledger(),
            has_unspent(old(self).ledger().resources(), *consumed) ==> ({
                let s = old(self).ledger().resources();
                let marked = mark_spent_seq(s, *consumed);
                let amount = spec_consumed_amount(s, *consumed);
                let fresh = UtxoView {
                    outpoint: Outpoint { transaction_id: new_txid, index: 0 },
                    amount: (amount - TRANSACTION_FEE) as u64,
                    script_public_key: new_script@,
                    is_spent: false,
                };
                &&& (amount <= TRANSACTION_FEE ==> r is Ok && final(self).ledger().resources()
                    == marked && available_of(final(self).ledger().resources()) == available_of(
                    s,
                ).filter(|u: UtxoView| u.outpoint != *consumed))
                &&& (amount > TRANSACTION_FEE && !has_outpoint(
                    s,
                    Outpoint { transaction_id: new_txid, index: 0 },
                ) ==> r is Ok && final(self).ledger().resources() == marked.push(fresh)
                    && available_of(final(self).ledger().resources()) == available_of(s).filter(
                    |u: UtxoView| u.outpoint != *consumed,
                ).push(fresh))
                &&& (amount > TRANSACTION_FEE && has_outpoint(
                    s,
                    Outpoint { transaction_id: new_txid, index: 0 },
                ) ==> r == Err::<(), ApiError>(ApiError::CreationDenied) && final(self).ledger().resources() == marked)
            }),
    {
        let ghost s = self.utxo_manager.resources();
        let amount = match self.find_consumed_amount(consumed) {
            None => {
                proof {
                    assert(!has_unspent(s, *consumed));
                }
                return Err(ApiError::NotFound);
            },
            Some(a) => a,
        };
        let marked = self.utxo_manager.mark_spent(consumed);
        if marked.is_err() {
            return Err(ApiError::NotFound);
        }
        proof {
            lemma_available_after_mark(s, *consumed);
        }
        if amount <= TRANSACTION_FEE {
            return Ok(());
        }
        let fresh = Utxo {
            outpoint: Outpoint { transaction_id: new_txid, index: 0 },
            amount: amount - TRANSACTION_FEE,
            script_public_key: new_script,
            is_spent: false,
        };
        proof {
            let i = choose|i: int|
                0 <= i < s.len() && (#[trigger] s[i]).outpoint == *consumed && !s[i].is_spent;
            lemma_mark_spent_total_drop(s, *consumed, i);
            assert(spec_consumed_amount(s, *consumed) == s[i].amount);
            assert(unspent_total(self.utxo_manager.resources()) + fresh@.amount <= u64::MAX);
            assert(has_outpoint(self.utxo_manager.resources(), fresh@.outpoint) == has_outpoint(
                s,
                fresh@.outpoint,
            )) by {
                if has_outpoint(s, fresh@.outpoint) {
                    let k = choose|k: int|
                        0 <= k < s.len() && (#[trigger] s[k]).outpoint == fresh@.outpoint;
                    assert(mark_spent_seq(s, *consumed)[k].outpoint == fresh@.outpoint);
                }
                if has_outpoint(self.utxo_manager.resources(), fresh@.outpoint) {
                    let k = choose|k: int|
                        0 <= k < mark_spent_seq(s, *consumed).len() && (#[trigger] mark_spent_seq(
                            s,
                            *consumed,
                        )[k]).outpoint == fresh@.outpoint;
                    assert(s[k].outpoint == fresh@.outpoint);
                }
            }
        }
        let ghost fv = fresh@;
        match self.utxo_manager.insert_utxo(fresh) {
            Ok(_) => {
                proof {
                    lemma_filter_push(mark_spent_seq(s, *consumed), fv, |u: UtxoView| !u.is_spent);
                }
                Ok(())
            },
            Err(_) => Err(ApiError::CreationDenied),
        }
    }

    /// The amount of the unspent resource carrying `op`, when there is one.
    fn find_consumed_amount(&self, op: &Outpoint) -> (r: Option<u64>)
        requires
            self.wf(),
        ensures
            r is Some <==> has_unspent(self.ledger().resources(), *op),
            r is Some ==> r->0 == spec_consumed_amount(self.ledger().resources(), *op),
    {
        let available = match self.utxo_manager.get_available_utxos() {
            Ok(a) => a,
            Err(_) => {
                return None;
            },
        };
        let ghost s = self.ledger().resources();
        let ghost av = available_of(s);
        let mut i: usize = 0;
        while i < available.len()
            invariant
                self.wf(),
                s == self.ledger().resources(),
                views_of(available@) == av,
                av == available_of(s),
                i <= av.len(),
                forall|k: int| 0 <= k < i ==> (#[trigger] av[k]).outpoint != *op,
            decreases av.len() - i,
        {
            proof {
                assert(views_of(available@)[i as int] == available@[i as int]@);
            }
            if available[i].outpoint == *op {
                proof {
                    broadcast use vstd::seq_lib::group_filter_ensures;

                    assert(av[i as int] == available@[i as int]@);
                    assert(!av[i as int].is_spent);
                    assert(s.contains(av[i as int])) by {
                        assert(av.contains(av[i as int]));
                        crate::seqs::lemma_filter_subset_contains(
                            s,
                            |u: UtxoView| !u.is_spent,
                            av[i as int],
                        );
                    }
                    let w = choose|w: int| 0 <= w < s.len() && s[w] == av[i as int];
                    assert(has_unspent(s, *op));
                    lemma_consumed_amount_unique(s, *op, w);
                }
                return Some(available[i].amount);
            }
            i = i + 1;
        }
        proof {
            if has_unspent(s, *op) {
                let k = choose|k: int|
                    0 <= k < s.len() && (#[trigger] s[k]).outpoint == *op && !s[k].is_spent;
                broadcast use vstd::seq_lib::group_filter_ensures;

                assert(av.contains(s[k]));
                let j = choose|j: int| 0 <= j < av.len() && av[j] == s[k];
                assert(av[j].outpoint == *op);
            }
        }
        None
    }
}

/// The amount of the unspent resource carrying `op` (meaningful only when
/// one exists).
pub open spec fn spec_consumed_amount(s: Seq<UtxoView>, op: Outpoint) -> u64 {
    let i = choose|i: int| 0 <= i < s.len() && (#[trigger] s[i]).outpoint == op && !s[i].is_spent;
    s[i].amount
}

/// With unique identities, any unspent holder of `op` carries the consumed
/// amount.
pub proof fn lemma_consumed_amount_unique(s: Seq<UtxoView>, op: Outpoint, w: int)
    requires
        unique_outpoints(s),
        0 <= w < s.len(),
        s[w].outpoint == op,
        !s[w].is_spent,
    ensures
        spec_consumed_amount(s, op) == s[w].amount,
{
    let i = choose|i: int| 0 <= i < s.len() && (#[trigger] s[i]).outpoint == op && !s[i].is_spent;
    if i != w {
        assert(s[i].outpoint != s[w].outpoint);
    }
}

/// Resource chaining: consuming an unspent resource and admitting the
/// submission's own output leaves the spendable set exactly as before, less
/// every holder of the consumed identity, plus the one new resource — and
/// when the remainder after the fee is not positive, nothing new at all.
pub proof fn lemma_resource_chaining(s: Seq<UtxoView>, op: Outpoint, fresh: UtxoView)
    requires
        !fresh.is_spent,
    ensures
        available_of(mark_spent_seq(s, op)) == available_of(s).filter(
            |u: UtxoView| u.outpoint != op,
        ),
        available_of(mark_spent_seq(s, op).push(fresh)) == available_of(s).filter(
            |u: UtxoView| u.outpoint != op,
        ).push(fresh),
{
    lemma_available_after_mark(s, op);
    lemma_filter_push(mark_spent_seq(s, op), fresh, |u: UtxoView| !u.is_spent);
}

} // verus!

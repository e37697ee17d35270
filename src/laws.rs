use vstd::prelude::*;

use crate::contract::{
    donated, query_issued, query_resolved, withdrawal_abandoned, withdrawal_started, withdrawn,
    ContractView,
};
use crate::ledger::{amount_of, keys_distinct, lemma_record, page, sum_of, Entries};

verus! {

/// What `donor` gave in a run of calls: the amounts of the successful
/// donations (`ok[i]`) whose donor (`donors[i]`) is `donor`.
pub open spec fn donated_by(
    donor: Seq<char>,
    donors: Seq<Seq<char>>,
    amounts: Seq<nat>,
    ok: Seq<bool>,
) -> nat
    decreases amounts.len(),
{
    if amounts.len() == 0 {
        0
    } else {
        donated_by(donor, donors.drop_last(), amounts.drop_last(), ok.drop_last()) + if ok.last()
            && donors.last() == donor {
            amounts.last()
        } else {
            0
        }
    }
}

/// Donations add up: over any run of calls in which step `i` is either a
/// successful donation of `amounts[i]` by `donors[i]` (`ok[i]`) or a call
/// that leaves the ledger alone (a refused call, a registry query or
/// callback, a beneficiary change), every account's recorded total grows by
/// exactly the sum of its own donations, each counted in full, reservation
/// fee included.
pub proof fn lemma_donations_accumulate(
    states: Seq<ContractView>,
    donors: Seq<Seq<char>>,
    amounts: Seq<nat>,
    totals: Seq<nat>,
    ok: Seq<bool>,
    account: Seq<char>,
)
    requires
        states.len() == amounts.len() + 1,
        donors.len() == amounts.len(),
        totals.len() == amounts.len(),
        ok.len() == amounts.len(),
        keys_distinct(states[0].donations.entries),
        forall|i: int|
            0 <= i < amounts.len() ==> (ok[i] ==> donated(
                #[trigger] states[i],
                states[i + 1],
                donors[i],
                amounts[i],
                totals[i],
            )) && (!ok[i] ==> states[i + 1].donations == states[i].donations),
    ensures
        keys_distinct(states.last().donations.entries),
        amount_of(states.last().donations.entries, account) == amount_of(
            states[0].donations.entries,
            account,
        ) + donated_by(account, donors, amounts, ok),
    decreases amounts.len(),
{
    if amounts.len() > 0 {
        let n = amounts.len() - 1;
        let prefix = states.drop_last();
        assert forall|i: int| 0 <= i < amounts.drop_last().len() implies (ok.drop_last()[i]
            ==> donated(
            #[trigger] prefix[i],
            prefix[i + 1],
            donors.drop_last()[i],
            amounts.drop_last()[i],
            totals.drop_last()[i],
        )) && (!ok.drop_last()[i] ==> prefix[i + 1].donations == prefix[i].donations) by {
            assert(states[i] == prefix[i]);
        }
        lemma_donations_accumulate(
            prefix,
            donors.drop_last(),
            amounts.drop_last(),
            totals.drop_last(),
            ok.drop_last(),
            account,
        );
        assert(prefix.last() == states[n]);
        assert(prefix[0] == states[0]);
        if ok[n] {
            assert(donated(states[n], states[n + 1], donors[n], amounts[n], totals[n]));
            lemma_record(states[n].donations.entries, donors[n], amounts[n]);
        } else {
            assert(states[n + 1].donations == states[n].donations);
        }
    }
}

/// A page holds at most `limit` entries: the ledger's entries from position
/// `from` on, in ledger order, and none when `from` is past the end.
pub proof fn lemma_page(s: Entries, from: nat, limit: nat)
    ensures
        page(s, from as int, limit as int).len() <= limit,
        from < s.len() ==> page(s, from as int, limit as int).len() == if limit < s.len() - from {
            limit as int
        } else {
            s.len() - from
        },
        from >= s.len() ==> page(s, from as int, limit as int).len() == 0,
        forall|i: int|
            0 <= i < page(s, from as int, limit as int).len() ==> #[trigger] page(
                s,
                from as int,
                limit as int,
            )[i] == s[from + i],
{
}

/// A payout that ends with a confirmed transfer pays the whole ledger and
/// empties it: no donors are left, every account reads zero, and the ledger
/// lives under a fresh generation.
pub proof fn lemma_withdrawal_clears(
    s0: ContractView,
    s1: ContractView,
    s2: ContractView,
    caller: Seq<char>,
    amount: u128,
    account: Seq<char>,
)
    requires
        withdrawal_started(s0, s1, caller, amount),
        withdrawn(s1, s2, amount),
    ensures
        amount as nat == sum_of(s0.donations.entries),
        s2.donations.entries.len() == 0,
        amount_of(s2.donations.entries, account) == 0,
        s2.donations.generation > s0.donations.generation,
        s2.withdrawing is None,
{
}

/// A payout whose transfer fails leaves the contract exactly as it was
/// before the payout started.
pub proof fn lemma_failed_transfer_keeps_ledger(
    s0: ContractView,
    s1: ContractView,
    s2: ContractView,
    caller: Seq<char>,
    amount: u128,
)
    requires
        withdrawal_started(s0, s1, caller, amount),
        withdrawal_abandoned(s1, s2),
    ensures
        s2 == s0,
{
}

/// A successful registry callback sets the privileged account to exactly
/// the registry's answer, whatever it was before.
pub proof fn lemma_callback_overwrites(
    before: ContractView,
    after: ContractView,
    id: u64,
    owner: Seq<char>,
)
    requires
        query_resolved(before, after, id, owner),
    ensures
        after.privileged_account == owner,
{
}

/// Callbacks are not ordered by issue: of two outstanding registry queries
/// whose callbacks run in the reverse order of issue, the privileged account
/// ends up as the answer of the callback that ran last.
pub proof fn lemma_last_callback_wins(
    s0: ContractView,
    s1: ContractView,
    s2: ContractView,
    s3: ContractView,
    s4: ContractView,
    first: u64,
    second: u64,
    first_owner: Seq<char>,
    second_owner: Seq<char>,
)
    requires
        query_issued(s0, s1, first),
        query_issued(s1, s2, second),
        query_resolved(s2, s3, second, second_owner),
        query_resolved(s3, s4, first, first_owner),
    ensures
        s3.privileged_account == second_owner,
        s4.privileged_account == first_owner,
        !s4.pending.contains(first) && !s4.pending.contains(second),
{
}

} // verus!

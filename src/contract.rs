use vstd::prelude::*;

use crate::error::DonationError;
use crate::ledger::{
    above_fee, amount_of, find, keys_distinct, page, record, sum_of, Donation, Ledger, LedgerView, DEFAULT_PAGE_LIMIT,
    STORAGE_COST,
};

verus! {

/// How the host reports a registry query that produced no owner.
#[derive(Debug, PartialEq, Eq, Structural, Clone, Copy)]
pub enum PromiseFailure {
    Failed,
    NotReady,
}

/// A query "who owns token `token_id`" to send to the registry at
/// `registry`; its answer comes back through the callback under `request_id`.
pub struct OwnerQuery {
    pub request_id: u64,
    pub registry: String,
    pub token_id: String,
}

/// Mathematical state of a [`Contract`].
pub struct ContractView {
    pub beneficiary: Seq<char>,
    pub donations: LedgerView,
    pub nft_deployed_account: Seq<char>,
    pub privileged_account: Seq<char>,
    pub token_id: Seq<char>,
    /// Registry queries issued whose callback has not run yet.
    pub pending: Set<u64>,
    /// Identifier of the next registry query.
    pub next_request: u64,
    /// Amount of a payout whose transfer has not been confirmed yet.
    pub withdrawing: Option<u128>,
}

/// A successful donation of `amount` by `donor`, whose total becomes `total`.
pub open spec fn donated(
    before: ContractView,
    after: ContractView,
    donor: Seq<char>,
    amount: nat,
    total: nat,
) -> bool {
    &&& total == amount_of(before.donations.entries, donor) + amount
    &&& after == (ContractView {
        donations: LedgerView {
            entries: record(before.donations.entries, donor, amount),
            generation: before.donations.generation,
        },
        ..before
    })
}

/// A registry query `id` was issued.
pub open spec fn query_issued(before: ContractView, after: ContractView, id: u64) -> bool {
    &&& before.next_request < u64::MAX
    &&& id == before.next_request
    &&& after == (ContractView {
        pending: before.pending.insert(id),
        next_request: (id + 1) as u64,
        ..before
    })
}

/// The callback of query `id` ran with the registry's answer `owner`.
pub open spec fn query_resolved(
    before: ContractView,
    after: ContractView,
    id: u64,
    owner: Seq<char>,
) -> bool {
    &&& before.pending.contains(id)
    &&& after == (ContractView {
        privileged_account: owner,
        pending: before.pending.remove(id),
        ..before
    })
}

/// The callback of query `id` ran with a failed query.
pub open spec fn query_failed(before: ContractView, after: ContractView, id: u64) -> bool {
    &&& before.pending.contains(id)
    &&& after == (ContractView { pending: before.pending.remove(id), ..before })
}

/// `caller` started a payout of `amount`, the whole ledger; the ledger stays
/// as it is until the transfer is confirmed.
pub open spec fn withdrawal_started(
    before: ContractView,
    after: ContractView,
    caller: Seq<char>,
    amount: u128,
) -> bool {
    &&& caller == before.privileged_account
    &&& caller == before.beneficiary
    &&& before.withdrawing is None
    &&& amount as nat == sum_of(before.donations.entries)
    &&& amount > STORAGE_COST
    &&& before.donations.generation < u64::MAX
    &&& after == (ContractView { withdrawing: Some(amount), ..before })
}

/// The transfer of the payout of `amount` was confirmed, and the ledger was
/// reset under a fresh generation.
pub open spec fn withdrawn(before: ContractView, after: ContractView, amount: u128) -> bool {
    &&& before.withdrawing == Some(amount)
    &&& after == (ContractView {
        donations: LedgerView {
            entries: Seq::empty(),
            generation: (before.donations.generation + 1) as u64,
        },
        withdrawing: None,
        ..before
    })
}

/// The transfer of the payout failed: the ledger is kept as it was.
pub open spec fn withdrawal_abandoned(before: ContractView, after: ContractView) -> bool {
    &&& before.withdrawing is Some
    &&& after == (ContractView { withdrawing: None, ..before })
}

/// Donations gated by a privileged account whose identity is confirmed
/// against a token registry. Several registry queries may be outstanding at
/// once; each callback overwrites the privileged account when it runs.
pub struct Contract {
    beneficiary: String,
    donations: Ledger,
    nft_deployed_account: String,
    privileged_account: String,
    token_id: String,
    pending: Vec<u64>,
    next_request: u64,
    withdrawing: Option<u128>,
}

impl View for Contract {
    type V = ContractView;

    closed spec fn view(&self) -> ContractView {
        ContractView {
            beneficiary: self.beneficiary@,
            donations: self.donations@,
            nft_deployed_account: self.nft_deployed_account@,
            privileged_account: self.privileged_account@,
            token_id: self.token_id@,
            pending: Set::new(|id: u64| self.pending@.contains(id)),
            next_request: self.next_request,
            withdrawing: self.withdrawing,
        }
    }
}

impl Contract {
    /// The contract's invariant: a well-formed ledger, each outstanding
    /// query listed once under an identifier already handed out, and a payout
    /// in flight that is the whole ledger and can still be followed by a reset.
    pub closed spec fn wf(&self) -> bool {
        &&& self.donations.wf()
        &&& self.withdrawing matches Some(a) ==> {
            &&& a as nat == sum_of(self.donations@.entries)
            &&& a > STORAGE_COST
            &&& self.donations@.generation < u64::MAX
        }
        &&& self.pending@.no_duplicates()
        &&& forall|k: int| 0 <= k < self.pending@.len() ==> self.pending@[k] < self.next_request
    }

    /// What a well-formed contract guarantees of its ledger: no account has
    /// two entries (so the number of donors counts distinct accounts), every
    /// amount exceeds the reservation fee, and the total fits in a `u128`.
    pub proof fn lemma_ledger_valid(&self)
        requires
            self.wf(),
        ensures
            keys_distinct(self@.donations.entries),
            above_fee(self@.donations.entries),
            sum_of(self@.donations.entries) <= u128::MAX,
    {
        self.donations.lemma_valid();
    }

    /// A contract whose privileged account is, until the first registry
    /// answer, `predecessor`, the account that set it up.
    pub fn init(
        predecessor: String,
        beneficiary: String,
        nft_deployed_account: String,
        token_id: String,
    ) -> (r: Contract)
        ensures
            r.wf(),
            r@ == (ContractView {
                beneficiary: beneficiary@,
                donations: LedgerView { entries: Seq::empty(), generation: 0 },
                nft_deployed_account: nft_deployed_account@,
                privileged_account: predecessor@,
                token_id: token_id@,
                pending: Set::empty(),
                next_request: 0,
                withdrawing: None,
            }),
    {
        let r = Contract {
            beneficiary,
            donations: Ledger::new(0),
            nft_deployed_account,
            privileged_account: predecessor,
            token_id,
            pending: Vec::new(),
            next_request: 0,
            withdrawing: None,
        };
        assert(r@.pending =~= Set::empty());
        assert(r@.donations.entries =~= Seq::empty());
        r
    }

    /// Records `deposit`, attached by `donor`, and returns the donor's new
    /// total. The recorded total includes the reservation fee withheld from
    /// a first deposit, which must exceed that fee. No donation is taken
    /// while a payout waits for its transfer.
    pub fn donate(&mut self, donor: String, deposit: u128) -> (r: Result<u128, DonationError>)
        requires
            old(self).wf(),
        ensures
            final(self).wf(),
            ({
                let s = old(self)@.donations.entries;
                let first = find(s, donor@) < 0;
                let open = old(self)@.withdrawing is None;
                &&& (r == Err::<u128, DonationError>(DonationError::WithdrawalPending)) <==> !open
                &&& (r == Err::<u128, DonationError>(DonationError::ValidationError)) <==> (open
                    && first && deposit <= STORAGE_COST)
                &&& (r == Err::<u128, DonationError>(DonationError::AmountOverflow)) <==> (open
                    && !(first && deposit <= STORAGE_COST) && sum_of(s) + deposit > u128::MAX)
                &&& r is Err ==> r == Err::<u128, DonationError>(DonationError::ValidationError)
                    || r == Err::<u128, DonationError>(DonationError::AmountOverflow) || r
                    == Err::<u128, DonationError>(DonationError::WithdrawalPending)
                &&& r is Err ==> final(self)@ == old(self)@
                &&& r matches Ok(v) ==> donated(
                    old(self)@,
                    final(self)@,
                    donor@,
                    deposit as nat,
                    v as nat,
                )
            }),
    {
        if self.withdrawing.is_some() {
            return Err(DonationError::WithdrawalPending);
        }
        let r = self.donations.record_donation(donor, deposit);
        assert(self@.pending =~= old(self)@.pending);
        r
    }

    /// Issues a query for the owner of the contract's token. The privileged
    /// account changes only later, when the callback of this query runs.
    pub fn privilege_check(&mut self) -> (r: Result<OwnerQuery, DonationError>)
        requires
            old(self).wf(),
        ensures
            final(self).wf(),
            (r is Err) <==> old(self)@.next_request == u64::MAX,
            r is Err ==> r == Err::<OwnerQuery, DonationError>(DonationError::CounterExhausted)
                && final(self)@ == old(self)@,
            r matches Ok(q) ==> {
                &&& query_issued(old(self)@, final(self)@, q.request_id)
                &&& q.registry@ == old(self)@.nft_deployed_account
                &&& q.token_id@ == old(self)@.token_id
            },
    {
        if self.next_request == u64::MAX {
            return Err(DonationError::CounterExhausted);
        }
        let id = self.next_request;
        let ghost before = self.pending@;
        self.pending.push(id);
        self.next_request = id + 1;
        proof {
            assert(self.pending@ == before.push(id));
            assert forall|x: u64| #[trigger]
                self.pending@.contains(x) <==> (before.contains(x) || x == id) by {
                if self.pending@.contains(x) {
                    let k = choose|k: int| 0 <= k < self.pending@.len() && self.pending@[k] == x;
                    if k < before.len() {
                        assert(before[k] == x);
                    }
                }
                if before.contains(x) {
                    let k = choose|k: int| 0 <= k < before.len() && before[k] == x;
                    assert(self.pending@[k] == x);
                }
                if x == id {
                    assert(self.pending@[before.len() as int] == x);
                }
            }
            assert(self@.pending =~= old(self)@.pending.insert(id));
        }
        Ok(OwnerQuery {
            request_id: id,
            registry: self.nft_deployed_account.clone(),
            token_id: self.token_id.clone(),
        })
    }

    /// Runs when the registry query `request_id` is answered. Only the
    /// contract itself may call it (`caller == current_account`), once per
    /// query. An owner returned by the registry becomes the privileged
    /// account, whatever it was before; a failed query changes nothing but
    /// closing the query.
    pub fn privilege_check_callback(
        &mut self,
        caller: &String,
        current_account: &String,
        request_id: u64,
        call_result: Result<String, PromiseFailure>,
    ) -> (r: Result<(), DonationError>)
        requires
            old(self).wf(),
        ensures
            final(self).wf(),
            (r == Err::<(), DonationError>(DonationError::AccessDenied)) <==> caller@
                != current_account@,
            (r == Err::<(), DonationError>(DonationError::UnknownRequest)) <==> (caller@
                == current_account@ && !old(self)@.pending.contains(request_id)),
            (r == Err::<(), DonationError>(DonationError::AccessDenied) || r == Err::<
                (),
                DonationError,
            >(DonationError::UnknownRequest)) ==> final(self)@ == old(self)@,
            (r == Err::<(), DonationError>(DonationError::ExternalQueryError)) <==> (caller@
                == current_account@ && old(self)@.pending.contains(request_id)
                && call_result is Err),
            r == Err::<(), DonationError>(DonationError::ExternalQueryError) ==> query_failed(
                old(self)@,
                final(self)@,
                request_id,
            ),
            r is Err ==> r == Err::<(), DonationError>(DonationError::AccessDenied) || r == Err::<
                (),
                DonationError,
            >(DonationError::UnknownRequest) || r == Err::<(), DonationError>(
                DonationError::ExternalQueryError,
            ),
            r is Ok ==> call_result is Ok && query_resolved(
                old(self)@,
                final(self)@,
                request_id,
                call_result->Ok_0@,
            ),
    {
        if *caller != *current_account {
            return Err(DonationError::AccessDenied);
        }
        let mut i: usize = 0;
        while i < self.pending.len()
            invariant
                i <= self.pending@.len(),
                forall|k: int| 0 <= k < i ==> self.pending@[k] != request_id,
            ensures
                i <= self.pending@.len(),
                forall|k: int| 0 <= k < i ==> self.pending@[k] != request_id,
                i < self.pending@.len() ==> self.pending@[i as int] == request_id,
            decreases self.pending@.len() - i,
        {
            if self.pending[i] == request_id {
                break;
            }
            i = i + 1;
        }
        if i == self.pending.len() {
            return Err(DonationError::UnknownRequest);
        }
        let ghost before = self.pending@;
        self.pending.remove(i);
        proof {
            before.remove_ensures(i as int);
            assert(self.pending@ == before.remove(i as int));
            assert forall|x: u64| #[trigger]
                self.pending@.contains(x) <==> (before.contains(x) && x != request_id) by {
                if self.pending@.contains(x) {
                    let k = choose|k: int| 0 <= k < self.pending@.len() && self.pending@[k] == x;
                    if k < i {
                        assert(before[k] == x);
                        assert(k != i);
                    } else {
                        assert(before[k + 1] == x);
                    }
                }
                if before.contains(x) && x != request_id {
                    let k = choose|k: int| 0 <= k < before.len() && before[k] == x;
                    if k < i {
                        assert(self.pending@[k] == x);
                    } else {
                        assert(k != i);
                        assert(self.pending@[k - 1] == x);
                    }
                }
            }
            assert(self@.pending =~= old(self)@.pending.remove(request_id));
            assert(self.pending@.no_duplicates());
        }
        match call_result {
            Ok(owner) => {
                self.privileged_account = owner;
                Ok(())
            },
            Err(_) => Err(DonationError::ExternalQueryError),
        }
    }

    /// Starts paying the whole ledger out to the beneficiary and returns the
    /// amount the host must transfer. The caller must be both the privileged
    /// account and the beneficiary, no other payout may be waiting, and the
    /// ledger must hold more than the reservation fee. The ledger is reset
    /// only by [`Contract::withdrawal_callback`], once the transfer is
    /// confirmed.
    pub fn withdrawal(&mut self, caller: &String) -> (r: Result<u128, DonationError>)
        requires
            old(self).wf(),
        ensures
            final(self).wf(),
            ({
                let v = old(self)@;
                let allowed = caller@ == v.privileged_account && caller@ == v.beneficiary;
                let open = v.withdrawing is None;
                &&& (r == Err::<u128, DonationError>(DonationError::AccessDenied)) <==> !allowed
                &&& (r == Err::<u128, DonationError>(DonationError::WithdrawalPending)) <==> (
                allowed && !open)
                &&& (r == Err::<u128, DonationError>(DonationError::InsufficientFunds)) <==> (
                allowed && open && sum_of(v.donations.entries) <= STORAGE_COST)
                &&& (r == Err::<u128, DonationError>(DonationError::CounterExhausted)) <==> (
                allowed && open && sum_of(v.donations.entries) > STORAGE_COST
                    && v.donations.generation == u64::MAX)
                &&& r is Err ==> r == Err::<u128, DonationError>(DonationError::AccessDenied) || r
                    == Err::<u128, DonationError>(DonationError::WithdrawalPending) || r == Err::<
                    u128,
                    DonationError,
                >(DonationError::InsufficientFunds) || r == Err::<u128, DonationError>(
                    DonationError::CounterExhausted,
                )
                &&& r is Err ==> final(self)@ == v
                &&& r matches Ok(amount) ==> withdrawal_started(v, final(self)@, caller@, amount)
            }),
    {
        if *caller != self.privileged_account || *caller != self.beneficiary {
            return Err(DonationError::AccessDenied);
        }
        if self.withdrawing.is_some() {
            return Err(DonationError::WithdrawalPending);
        }
        let amount = self.donations.total();
        if amount <= STORAGE_COST {
            return Err(DonationError::InsufficientFunds);
        }
        if self.donations.generation() == u64::MAX {
            return Err(DonationError::CounterExhausted);
        }
        self.withdrawing = Some(amount);
        assert(self@.pending =~= old(self)@.pending);
        Ok(amount)
    }

    /// Runs when the host reports the payout transfer's outcome. Only the
    /// contract itself may call it (`caller == current_account`). A confirmed
    /// transfer resets the ledger under a fresh generation and returns the
    /// amount paid; a failed one keeps the ledger as it was.
    pub fn withdrawal_callback(
        &mut self,
        caller: &String,
        current_account: &String,
        transfer_ok: bool,
    ) -> (r: Result<u128, DonationError>)
        requires
            old(self).wf(),
        ensures
            final(self).wf(),
            ({
                let v = old(self)@;
                let own = caller@ == current_account@;
                &&& (r == Err::<u128, DonationError>(DonationError::AccessDenied)) <==> !own
                &&& (r == Err::<u128, DonationError>(DonationError::UnknownRequest)) <==> (own
                    && v.withdrawing is None)
                &&& (r == Err::<u128, DonationError>(DonationError::TransferFailed)) <==> (own
                    && v.withdrawing is Some && !transfer_ok)
                &&& r is Err ==> r == Err::<u128, DonationError>(DonationError::AccessDenied) || r
                    == Err::<u128, DonationError>(DonationError::UnknownRequest) || r == Err::<
                    u128,
                    DonationError,
                >(DonationError::TransferFailed)
                &&& (r == Err::<u128, DonationError>(DonationError::AccessDenied) || r == Err::<
                    u128,
                    DonationError,
                >(DonationError::UnknownRequest)) ==> final(self)@ == v
                &&& r == Err::<u128, DonationError>(DonationError::TransferFailed)
                    ==> withdrawal_abandoned(v, final(self)@)
                &&& r matches Ok(amount) ==> transfer_ok && withdrawn(v, final(self)@, amount)
            }),
    {
        if *caller != *current_account {
            return Err(DonationError::AccessDenied);
        }
        let amount = match self.withdrawing {
            Some(a) => a,
            None => {
                return Err(DonationError::UnknownRequest);
            },
        };
        self.withdrawing = None;
        if !transfer_ok {
            assert(self@.pending =~= old(self)@.pending);
            return Err(DonationError::TransferFailed);
        }
        match self.donations.reset() {
            Ok(()) => {
                assert(self@.donations.entries =~= Seq::empty());
                assert(self@.pending =~= old(self)@.pending);
                Ok(amount)
            },
            Err(e) => Err(e),
        }
    }

    /// Amount of the payout that waits for its transfer, if any.
    pub fn withdrawal_in_flight(&self) -> (r: Option<u128>)
        ensures
            r == self@.withdrawing,
    {
        self.withdrawing
    }

    /// Replaces the beneficiary; only the privileged account may.
    pub fn change_beneficiary(&mut self, caller: &String, beneficiary: String) -> (r: Result<
        (),
        DonationError,
    >)
        requires
            old(self).wf(),
        ensures
            final(self).wf(),
            (r is Err) <==> caller@ != old(self)@.privileged_account,
            r is Err ==> r == Err::<(), DonationError>(DonationError::AccessDenied) && final(self)@
                == old(self)@,
            r is Ok ==> final(self)@ == (ContractView { beneficiary: beneficiary@, ..old(self)@ }),
    {
        if *caller != self.privileged_account {
            return Err(DonationError::AccessDenied);
        }
        self.beneficiary = beneficiary;
        assert(self@.pending =~= old(self)@.pending);
        Ok(())
    }

    /// What `account_id` has donated since the last withdrawal; zero for an
    /// account that has not.
    pub fn get_donation_for_account(&self, account_id: String) -> (r: Donation)
        requires
            self.wf(),
        ensures
            r@ == (account_id@, amount_of(self@.donations.entries, account_id@)),
    {
        let total_amount = self.donations.get(&account_id);
        Donation { account_id, total_amount }
    }

    /// Number of accounts that donated since the last withdrawal.
    pub fn number_of_donors(&self) -> (r: u64)
        requires
            self.wf(),
        ensures
            r as nat == self@.donations.entries.len(),
    {
        self.donations.count()
    }

    /// At most `limit` donations (50 when not given), starting at position
    /// `from_index` (0 when not given), in the order donors first gave.
    pub fn get_donations(&self, from_index: Option<u128>, limit: Option<u64>) -> (r: Vec<Donation>)
        requires
            self.wf(),
        ensures
            r@.map_values(|d: Donation| d@) == page(
                self@.donations.entries,
                match from_index {
                    Some(f) => f as int,
                    None => 0,
                },
                match limit {
                    Some(l) => l as int,
                    None => DEFAULT_PAGE_LIMIT as int,
                },
            ),
            keys_distinct(r@.map_values(|d: Donation| d@)),
            above_fee(r@.map_values(|d: Donation| d@)),
    {
        proof {
            self.lemma_ledger_valid();
        }
        let from = match from_index {
            Some(f) => f,
            None => 0,
        };
        let limit = match limit {
            Some(l) => l,
            None => DEFAULT_PAGE_LIMIT,
        };
        self.donations.list(from, limit)
    }

    /// Rebuilds a stored contract: `None` unless no account has two entries,
    /// every amount exceeds the reservation fee, the amounts add up to at most
    /// `u128::MAX`, each outstanding query is listed once under an identifier
    /// below `next_request`, and a payout in flight is the whole ledger, above
    /// the fee, with a generation left for the reset.
    pub fn restore(
        beneficiary: String,
        entries: &Vec<Donation>,
        generation: u64,
        nft_deployed_account: String,
        privileged_account: String,
        token_id: String,
        pending: Vec<u64>,
        next_request: u64,
        withdrawing: Option<u128>,
    ) -> (r: Option<Contract>)
        ensures
            r is Some <==> {
                &&& keys_distinct(entries@.map_values(|d: Donation| d@))
                &&& above_fee(entries@.map_values(|d: Donation| d@))
                &&& sum_of(entries@.map_values(|d: Donation| d@)) <= u128::MAX
                &&& withdrawing matches Some(a) ==> {
                    &&& a as nat == sum_of(entries@.map_values(|d: Donation| d@))
                    &&& a > STORAGE_COST
                    &&& generation < u64::MAX
                }
                &&& pending@.no_duplicates()
                &&& forall|k: int| 0 <= k < pending@.len() ==> pending@[k] < next_request
            },
            r matches Some(c) ==> c.wf() && c@ == (ContractView {
                beneficiary: beneficiary@,
                donations: LedgerView {
                    entries: entries@.map_values(|d: Donation| d@),
                    generation,
                },
                nft_deployed_account: nft_deployed_account@,
                privileged_account: privileged_account@,
                token_id: token_id@,
                pending: Set::new(|id: u64| pending@.contains(id)),
                next_request,
                withdrawing,
            }),
    {
        let donations = match Ledger::from_entries(entries, generation) {
            Some(l) => l,
            None => {
                return None;
            },
        };
        match withdrawing {
            Some(a) => {
                if a != donations.total() || a <= STORAGE_COST || generation == u64::MAX {
                    return None;
                }
            },
            None => {},
        }
        let n = pending.len();
        let mut i: usize = 0;
        while i < n
            invariant
                i <= n,
                n == pending@.len(),
                forall|k: int| 0 <= k < i ==> pending@[k] < next_request,
                forall|a: int, b: int| 0 <= a < b < n && a < i ==> pending@[a] != pending@[b],
            decreases n - i,
        {
            if pending[i] >= next_request {
                return None;
            }
            let mut j: usize = i + 1;
            while j < n
                invariant
                    i < j <= n,
                    n == pending@.len(),
                    forall|b: int| i < b < j ==> pending@[i as int] != pending@[b],
                decreases n - j,
            {
                if pending[i] == pending[j] {
                    return None;
                }
                j = j + 1;
            }
            i = i + 1;
        }
        let r = Contract {
            beneficiary,
            donations,
            nft_deployed_account,
            privileged_account,
            token_id,
            pending,
            next_request,
            withdrawing,
        };
        Some(r)
    }

    /// Generation tag of the ledger's current storage namespace.
    pub fn ledger_generation(&self) -> (r: u64)
        ensures
            r == self@.donations.generation,
    {
        self.donations.generation()
    }

    /// Identifiers of the registry queries whose callback has not run yet,
    /// each once.
    pub fn pending_requests(&self) -> (r: Vec<u64>)
        requires
            self.wf(),
        ensures
            r@.no_duplicates(),
            forall|id: u64| r@.contains(id) <==> self@.pending.contains(id),
    {
        let mut out: Vec<u64> = Vec::new();
        let mut i: usize = 0;
        while i < self.pending.len()
            invariant
                i <= self.pending@.len(),
                self.pending@.no_duplicates(),
                out@ =~= self.pending@.subrange(0, i as int),
            decreases self.pending@.len() - i,
        {
            out.push(self.pending[i]);
            i = i + 1;
        }
        assert(out@ =~= self.pending@);
        out
    }

    /// Identifier that the next registry query will carry.
    pub fn next_request_id(&self) -> (r: u64)
        ensures
            r == self@.next_request,
    {
        self.next_request
    }

    pub fn get_beneficiary(&self) -> (r: String)
        ensures
            r@ == self@.beneficiary,
    {
        self.beneficiary.clone()
    }

    pub fn get_nft_deployed_account(&self) -> (r: String)
        ensures
            r@ == self@.nft_deployed_account,
    {
        self.nft_deployed_account.clone()
    }

    pub fn get_privileged_account(&self) -> (r: String)
        ensures
            r@ == self@.privileged_account,
    {
        self.privileged_account.clone()
    }

    pub fn get_token_id(&self) -> (r: String)
        ensures
            r@ == self@.token_id,
    {
        self.token_id.clone()
    }
}

} // verus!

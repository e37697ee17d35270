use vstd::prelude::*;

use crate::error::DonationError;

verus! {

/// Withheld from a donor's first deposit to pay for the storage of the
/// donor's ledger entry (one NEAR, in yoctoNEAR).
pub const STORAGE_COST: u128 = 1_000_000_000_000_000_000_000;

/// Page size of a listing when the caller gives none.
pub const DEFAULT_PAGE_LIMIT: u64 = 50;

/// One ledger entry: an account and everything it has donated since the last
/// reset.
pub struct Donation {
    pub account_id: String,
    pub total_amount: u128,
}

impl View for Donation {
    type V = (Seq<char>, nat);

    open spec fn view(&self) -> (Seq<char>, nat) {
        (self.account_id@, self.total_amount as nat)
    }
}

/// The entries of a ledger, in insertion order.
pub type Entries = Seq<(Seq<char>, nat)>;

/// Index of `account`'s entry, or -1 when it has none.
pub open spec fn find(s: Entries, account: Seq<char>) -> int
    decreases s.len(),
{
    if s.len() == 0 {
        -1
    } else if s.last().0 == account {
        s.len() - 1
    } else {
        find(s.drop_last(), account)
    }
}

/// What `account` has donated; zero for an account without an entry.
pub open spec fn amount_of(s: Entries, account: Seq<char>) -> nat {
    let i = find(s, account);
    if i >= 0 {
        s[i].1
    } else {
        0
    }
}

/// Sum of all recorded amounts.
pub open spec fn sum_of(s: Entries) -> nat
    decreases s.len(),
{
    if s.len() == 0 {
        0
    } else {
        sum_of(s.drop_last()) + s.last().1
    }
}

/// No account has two entries.
pub open spec fn keys_distinct(s: Entries) -> bool {
    forall|i: int, j: int| 0 <= i < j < s.len() ==> s[i].0 != s[j].0
}

/// Every recorded amount exceeds the reservation fee.
pub open spec fn above_fee(s: Entries) -> bool {
    forall|i: int| 0 <= i < s.len() ==> s[i].1 > STORAGE_COST
}

/// The entries after `account` donated `amount`: an existing entry grows in
/// place, a new donor is appended.
pub open spec fn record(s: Entries, account: Seq<char>, amount: nat) -> Entries {
    let i = find(s, account);
    if i >= 0 {
        s.update(i, (account, s[i].1 + amount))
    } else {
        s.push((account, amount))
    }
}

/// The page of `s` that starts at `from` and holds at most `limit` entries.
pub open spec fn page(s: Entries, from: int, limit: int) -> Entries {
    let start = if from < s.len() { from } else { s.len() as int };
    let end = if start + limit < s.len() { start + limit } else { s.len() as int };
    s.subrange(start, end)
}

/// `find` reports an index holding `account`, or -1 exactly when none does.
pub proof fn lemma_find(s: Entries, account: Seq<char>)
    ensures
        -1 <= find(s, account) < s.len(),
        find(s, account) >= 0 ==> s[find(s, account)].0 == account,
        find(s, account) == -1 <==> forall|k: int| 0 <= k < s.len() ==> s[k].0 != account,
    decreases s.len(),
{
    if s.len() > 0 && s.last().0 != account {
        lemma_find(s.drop_last(), account);
        if find(s, account) == -1 {
            assert forall|k: int| 0 <= k < s.len() implies s[k].0 != account by {
                if k < s.len() - 1 {
                    assert(s.drop_last()[k] == s[k]);
                }
            }
        } else {
            assert(s.drop_last()[find(s, account)] == s[find(s, account)]);
        }
        if forall|k: int| 0 <= k < s.len() ==> s[k].0 != account {
            assert forall|k: int| 0 <= k < s.drop_last().len() implies s.drop_last()[k].0
                != account by {
                assert(s.drop_last()[k] == s[k]);
            }
        }
    }
}

/// With distinct keys, any entry of `account` is the one `find` reports.
pub proof fn lemma_find_unique(s: Entries, account: Seq<char>, k: int)
    requires
        keys_distinct(s),
        0 <= k < s.len(),
        s[k].0 == account,
    ensures
        find(s, account) == k,
{
    lemma_find(s, account);
    let i = find(s, account);
    if i != k {
        assert(i >= 0);
        if i < k {
            assert(s[i].0 != s[k].0);
        } else {
            assert(s[k].0 != s[i].0);
        }
    }
}

/// Replacing one entry changes the sum by the difference of the amounts.
pub proof fn lemma_sum_update(s: Entries, i: int, e: (Seq<char>, nat))
    requires
        0 <= i < s.len(),
    ensures
        sum_of(s.update(i, e)) + s[i].1 == sum_of(s) + e.1,
    decreases s.len(),
{
    let t = s.update(i, e);
    if i < s.len() - 1 {
        assert(t.drop_last() =~= s.drop_last().update(i, e));
        lemma_sum_update(s.drop_last(), i, e);
    } else {
        assert(t.drop_last() =~= s.drop_last());
    }
}

/// Appending an entry adds its amount to the sum.
pub proof fn lemma_sum_push(s: Entries, e: (Seq<char>, nat))
    ensures
        sum_of(s.push(e)) == sum_of(s) + e.1,
{
    assert(s.push(e).drop_last() =~= s);
}

/// A prefix never sums to more than the whole.
pub proof fn lemma_sum_prefix_le(s: Entries, m: int)
    requires
        0 <= m <= s.len(),
    ensures
        sum_of(s.subrange(0, m)) <= sum_of(s),
    decreases s.len(),
{
    if m < s.len() {
        assert(s.subrange(0, m) =~= s.drop_last().subrange(0, m));
        lemma_sum_prefix_le(s.drop_last(), m);
    } else {
        assert(s.subrange(0, m) =~= s);
    }
}

/// No single entry exceeds the sum.
pub proof fn lemma_entry_le_sum(s: Entries, i: int)
    requires
        0 <= i < s.len(),
    ensures
        s[i].1 <= sum_of(s),
    decreases s.len(),
{
    if i < s.len() - 1 {
        lemma_entry_le_sum(s.drop_last(), i);
    }
}

/// Recording a donation adds it to the donor's amount and to the total,
/// leaves every other account as it was, and keeps keys distinct.
pub proof fn lemma_record(s: Entries, account: Seq<char>, amount: nat)
    requires
        keys_distinct(s),
    ensures
        keys_distinct(record(s, account, amount)),
        above_fee(s) && (find(s, account) >= 0 || amount > STORAGE_COST) ==> above_fee(
            record(s, account, amount),
        ),
        amount_of(record(s, account, amount), account) == amount_of(s, account) + amount,
        sum_of(record(s, account, amount)) == sum_of(s) + amount,
        forall|other: Seq<char>|
            other != account ==> amount_of(record(s, account, amount), other) == amount_of(
                s,
                other,
            ),
        find(s, account) >= 0 ==> record(s, account, amount).len() == s.len(),
        find(s, account) < 0 ==> record(s, account, amount).len() == s.len() + 1,
{
    lemma_find(s, account);
    let i = find(s, account);
    let t = record(s, account, amount);
    if i >= 0 {
        lemma_sum_update(s, i, (account, s[i].1 + amount));
        lemma_find_unique(t, account, i);
        assert forall|other: Seq<char>| other != account implies amount_of(t, other) == amount_of(
            s,
            other,
        ) by {
            lemma_find(s, other);
            lemma_find(t, other);
            let j = find(s, other);
            if j >= 0 {
                lemma_find_unique(t, other, j);
            } else {
                assert forall|k: int| 0 <= k < t.len() implies t[k].0 != other by {
                    if k != i {
                        assert(t[k] == s[k]);
                    }
                }
            }
        }
    } else {
        lemma_sum_push(s, (account, amount));
        lemma_find_unique(t, account, s.len() as int);
        assert forall|other: Seq<char>| other != account implies amount_of(t, other) == amount_of(
            s,
            other,
        ) by {
            lemma_find(s, other);
            lemma_find(t, other);
            let j = find(s, other);
            if j >= 0 {
                lemma_find_unique(t, other, j);
            } else {
                assert forall|k: int| 0 <= k < t.len() implies t[k].0 != other by {
                    if k < s.len() {
                        assert(t[k] == s[k]);
                    }
                }
            }
        }
    }
}

/// Mathematical state of a ledger.
pub struct LedgerView {
    pub entries: Entries,
    /// Tag of the storage namespace that holds the entries.
    pub generation: u64,
}

/// Donation totals per account, in insertion order, stored under a namespace
/// that is replaced, never reused, by each reset.
pub struct Ledger {
    entries: Vec<Donation>,
    total: u128,
    generation: u64,
}

impl View for Ledger {
    type V = LedgerView;

    closed spec fn view(&self) -> LedgerView {
        LedgerView { entries: self.entries@.map_values(|d: Donation| d@), generation: self.generation }
    }
}

impl Ledger {
    /// The ledger's invariant: one entry per account, each above the
    /// reservation fee, and the total fits in a `u128`.
    pub closed spec fn wf(&self) -> bool {
        &&& keys_distinct(self@.entries)
        &&& above_fee(self@.entries)
        &&& self.total as nat == sum_of(self@.entries)
    }

    /// What a well-formed ledger guarantees of its entries: no account twice,
    /// every amount above the reservation fee, and a total that fits in a
    /// `u128`.
    pub proof fn lemma_valid(&self)
        requires
            self.wf(),
        ensures
            keys_distinct(self@.entries),
            above_fee(self@.entries),
            sum_of(self@.entries) <= u128::MAX,
    {
    }

    /// An empty ledger in the namespace of `generation`.
    pub fn new(generation: u64) -> (r: Ledger)
        ensures
            r.wf(),
            r@.entries.len() == 0,
            r@.generation == generation,
    {
        let r = Ledger { entries: Vec::new(), total: 0, generation };
        assert(r@.entries =~= Seq::<(Seq<char>, nat)>::empty());
        r
    }

    /// Position of `account`'s entry, if it has one.
    fn position(&self, account: &String) -> (r: Option<usize>)
        requires
            self.wf(),
        ensures
            r is None ==> find(self@.entries, account@) == -1,
            r matches Some(i) ==> i == find(self@.entries, account@) && i < self.entries@.len(),
    {
        let ghost s = self@.entries;
        let mut i: usize = 0;
        while i < self.entries.len()
            invariant
                i <= self.entries@.len(),
                s == self@.entries,
                s.len() == self.entries@.len(),
                keys_distinct(s),
                forall|k: int| 0 <= k < i ==> s[k].0 != account@,
            decreases self.entries@.len() - i,
        {
            if self.entries[i].account_id == *account {
                proof {
                    assert(s[i as int] == self.entries@[i as int]@);
                    lemma_find_unique(s, account@, i as int);
                }
                return Some(i);
            }
            assert(s[i as int] == self.entries@[i as int]@);
            i = i + 1;
        }
        proof {
            lemma_find(s, account@);
        }
        None
    }

    /// What `account` has donated since the last reset; zero if nothing.
    pub fn get(&self, account: &String) -> (r: u128)
        requires
            self.wf(),
        ensures
            r as nat == amount_of(self@.entries, account@),
    {
        match self.position(account) {
            Some(i) => {
                assert(self@.entries[i as int] == self.entries@[i as int]@);
                self.entries[i].total_amount
            },
            None => 0,
        }
    }

    /// Sum of all entries.
    pub fn total(&self) -> (r: u128)
        requires
            self.wf(),
        ensures
            r as nat == sum_of(self@.entries),
    {
        self.total
    }

    /// Generation tag of the namespace the entries live in.
    pub fn generation(&self) -> (r: u64)
        ensures
            r == self@.generation,
    {
        self.generation
    }

    /// Number of distinct donors.
    pub fn count(&self) -> (r: u64)
        ensures
            r as nat == self@.entries.len(),
    {
        self.entries.len() as u64
    }

    /// Adds `amount` to `donor`'s entry. A first donation must exceed the
    /// reservation fee; the entry records the full amount attached.
    pub fn record_donation(&mut self, donor: String, amount: u128) -> (r: Result<u128, DonationError>)
        requires
            old(self).wf(),
        ensures
            final(self).wf(),
            ({
                let s = old(self)@.entries;
                let first = find(s, donor@) < 0;
                &&& (r == Err::<u128, DonationError>(DonationError::ValidationError)) <==> (first
                    && amount <= STORAGE_COST)
                &&& (r == Err::<u128, DonationError>(DonationError::AmountOverflow)) <==> (!(first
                    && amount <= STORAGE_COST) && sum_of(s) + amount > u128::MAX)
                &&& r is Err ==> r == Err::<u128, DonationError>(DonationError::ValidationError)
                    || r == Err::<u128, DonationError>(DonationError::AmountOverflow)
                &&& r is Err ==> final(self)@ == old(self)@
                &&& r matches Ok(v) ==> {
                    &&& v as nat == amount_of(s, donor@) + amount
                    &&& final(self)@ == (LedgerView {
                        entries: record(s, donor@, amount as nat),
                        generation: old(self)@.generation,
                    })
                }
            }),
    {
        let ghost s = self@.entries;
        proof {
            lemma_record(s, donor@, amount as nat);
        }
        let pos = self.position(&donor);
        if pos.is_none() && amount <= STORAGE_COST {
            return Err(DonationError::ValidationError);
        }
        let total = match self.total.checked_add(amount) {
            Some(t) => t,
            None => {
                return Err(DonationError::AmountOverflow);
            },
        };
        match pos {
            Some(i) => {
                proof {
                    assert(s[i as int] == self.entries@[i as int]@);
                    lemma_entry_le_sum(s, i as int);
                }
                let sum = self.entries[i].total_amount + amount;
                self.entries.set(i, Donation { account_id: donor, total_amount: sum });
                self.total = total;
                assert(self@.entries =~= record(s, donor@, amount as nat));
                Ok(sum)
            },
            None => {
                self.entries.push(Donation { account_id: donor, total_amount: amount });
                self.total = total;
                assert(self@.entries =~= record(s, donor@, amount as nat));
                Ok(amount)
            },
        }
    }

    /// At most `limit` entries, starting at position `from`, in insertion
    /// order.
    pub fn list(&self, from: u128, limit: u64) -> (r: Vec<Donation>)
        requires
            self.wf(),
        ensures
            r@.map_values(|d: Donation| d@) == page(self@.entries, from as int, limit as int),
    {
        let ghost s = self@.entries;
        let n = self.entries.len();
        let start: usize = if from < n as u128 { from as usize } else { n };
        let end: usize = if (limit as u128) < (n - start) as u128 { start + limit as usize } else { n };
        let mut out: Vec<Donation> = Vec::new();
        let mut k: usize = start;
        while k < end
            invariant
                start <= k <= end <= n,
                n == self.entries@.len(),
                s == self@.entries,
                out@.map_values(|d: Donation| d@) =~= s.subrange(start as int, k as int),
            decreases end - k,
        {
            let d = Donation {
                account_id: self.entries[k].account_id.clone(),
                total_amount: self.entries[k].total_amount,
            };
            assert(d@ == s[k as int]);
            let ghost before = out@;
            out.push(d);
            assert(out@.map_values(|d: Donation| d@) =~= before.map_values(|d: Donation| d@).push(
                s[k as int],
            ));
            assert(s.subrange(start as int, k + 1) =~= s.subrange(start as int, k as int).push(
                s[k as int],
            ));
            k = k + 1;
        }
        assert(s.subrange(start as int, end as int) =~= page(s, from as int, limit as int));
        out
    }

    /// Rebuilds a stored ledger: `None` when an account has two entries, an
    /// amount does not exceed the reservation fee, or the amounts add up past
    /// `u128::MAX`.
    pub fn from_entries(entries: &Vec<Donation>, generation: u64) -> (r: Option<Ledger>)
        ensures
            r is Some <==> keys_distinct(entries@.map_values(|d: Donation| d@)) && above_fee(
                entries@.map_values(|d: Donation| d@),
            ) && sum_of(entries@.map_values(|d: Donation| d@)) <= u128::MAX,
            r matches Some(l) ==> l.wf() && l@ == (LedgerView {
                entries: entries@.map_values(|d: Donation| d@),
                generation,
            }),
    {
        let ghost s = entries@.map_values(|d: Donation| d@);
        let mut out = Ledger::new(generation);
        let n = entries.len();
        let mut k: usize = 0;
        while k < n
            invariant
                k <= n,
                n == entries@.len(),
                s == entries@.map_values(|d: Donation| d@),
                out.wf(),
                out@.entries =~= s.subrange(0, k as int),
                out@.generation == generation,
            decreases n - k,
        {
            let ghost prefix = out@.entries;
            assert(s[k as int] == entries@[k as int]@);
            if entries[k].total_amount <= STORAGE_COST {
                return None;
            }
            match out.position(&entries[k].account_id) {
                Some(j) => {
                    proof {
                        lemma_find(prefix, s[k as int].0);
                        assert(s[j as int] == prefix[j as int]);
                    }
                    return None;
                },
                None => {},
            }
            let total = match out.total.checked_add(entries[k].total_amount) {
                Some(t) => t,
                None => {
                    proof {
                        lemma_sum_push(prefix, s[k as int]);
                        assert(s.subrange(0, k + 1) =~= prefix.push(s[k as int]));
                        lemma_sum_prefix_le(s, k + 1);
                    }
                    return None;
                },
            };
            let d = Donation {
                account_id: entries[k].account_id.clone(),
                total_amount: entries[k].total_amount,
            };
            out.entries.push(d);
            out.total = total;
            proof {
                lemma_find(prefix, s[k as int].0);
                lemma_sum_push(prefix, s[k as int]);
                assert(out@.entries =~= prefix.push(s[k as int]));
                assert(s.subrange(0, k + 1) =~= prefix.push(s[k as int]));
            }
            k = k + 1;
        }
        assert(s.subrange(0, n as int) =~= s);
        Some(out)
    }

    /// Drops every entry by moving to the next namespace generation, which
    /// no earlier ledger has used.
    pub fn reset(&mut self) -> (r: Result<(), DonationError>)
        requires
            old(self).wf(),
        ensures
            final(self).wf(),
            (r is Err) <==> old(self)@.generation == u64::MAX,
            r is Err ==> r == Err::<(), DonationError>(DonationError::CounterExhausted) && final(self)@ == old(self)@,
            r is Ok ==> final(self)@.entries.len() == 0 && final(self)@.generation == old(self)@.generation + 1,
    {
        if self.generation == u64::MAX {
            return Err(DonationError::CounterExhausted);
        }
        *self = Ledger::new(self.generation + 1);
        Ok(())
    }
}

} // verus!

use vstd::prelude::*;
use crate::account::AccountId;
use crate::account::Balance;
use crate::event::Event;
use crate::event::approved_event;
use crate::event::transferred_event;

verus! {

// ---------------------------------------------------------------------------
// The balance table: a sequence of (account, amount) entries with pairwise
// distinct accounts. An account without an entry holds zero.
// ---------------------------------------------------------------------------

/// The sum of all amounts recorded in a balance table.
pub open spec fn sum_balances(s: Seq<(AccountId, Balance)>) -> int
    decreases s.len(),
{
    if s.len() == 0 {
        0
    } else {
        sum_balances(s.drop_last()) + s.last().1
    }
}

/// The amount a balance table records for `a`: the entry holding `a`, or zero
/// when no entry does.
pub open spec fn lookup_balance(s: Seq<(AccountId, Balance)>, a: AccountId) -> Balance
    decreases s.len(),
{
    if s.len() == 0 {
        0
    } else if s.last().0 == a {
        s.last().1
    } else {
        lookup_balance(s.drop_last(), a)
    }
}

/// No two entries of the balance table name the same account.
pub open spec fn balance_keys_unique(s: Seq<(AccountId, Balance)>) -> bool {
    forall|i: int, j: int| 0 <= i < j < s.len() ==> (#[trigger] s[i]).0 != (#[trigger] s[j]).0
}

proof fn lemma_lookup_balance_absent(s: Seq<(AccountId, Balance)>, a: AccountId)
    requires
        forall|j: int| 0 <= j < s.len() ==> (#[trigger] s[j]).0 != a,
    ensures
        lookup_balance(s, a) == 0,
    decreases s.len(),
{
    if s.len() > 0 {
        assert(s.last() == s[s.len() - 1]);
        lemma_lookup_balance_absent(s.drop_last(), a);
    }
}

proof fn lemma_lookup_balance_at(s: Seq<(AccountId, Balance)>, i: int)
    requires
        balance_keys_unique(s),
        0 <= i < s.len(),
    ensures
        lookup_balance(s, s[i].0) == s[i].1,
    decreases s.len(),
{
    if i < s.len() - 1 {
        assert(balance_keys_unique(s.drop_last()));
        lemma_lookup_balance_at(s.drop_last(), i);
    }
}

proof fn lemma_sum_balances_update(s: Seq<(AccountId, Balance)>, i: int, e: (AccountId, Balance))
    requires
        0 <= i < s.len(),
    ensures
        sum_balances(s.update(i, e)) == sum_balances(s) - s[i].1 + e.1,
    decreases s.len(),
{
    let t = s.update(i, e);
    if i == s.len() - 1 {
        assert(t.drop_last() =~= s.drop_last());
    } else {
        assert(t.drop_last() =~= s.drop_last().update(i, e));
        assert(t.last() == s.last());
        lemma_sum_balances_update(s.drop_last(), i, e);
    }
}

proof fn lemma_lookup_balance_update(s: Seq<(AccountId, Balance)>, i: int, e: (AccountId, Balance))
    requires
        balance_keys_unique(s),
        0 <= i < s.len(),
        s[i].0 == e.0,
    ensures
        forall|x: AccountId|
            lookup_balance(s.update(i, e), x) == if x == e.0 {
                e.1
            } else {
                lookup_balance(s, x)
            },
    decreases s.len(),
{
    let t = s.update(i, e);
    if i == s.len() - 1 {
        assert(t.drop_last() =~= s.drop_last());
    } else {
        assert(t.drop_last() =~= s.drop_last().update(i, e));
        assert(balance_keys_unique(s.drop_last()));
        lemma_lookup_balance_update(s.drop_last(), i, e);
    }
    assert forall|x: AccountId|
        lookup_balance(t, x) == (if x == e.0 {
            e.1
        } else {
            lookup_balance(s, x)
        }) by {
        if i == s.len() - 1 {
            assert(t.last() == e);
            assert(s.last() == s[i]);
            if x != e.0 {
                assert(lookup_balance(t, x) == lookup_balance(s.drop_last(), x));
                assert(lookup_balance(s, x) == lookup_balance(s.drop_last(), x));
            }
        } else {
            assert(t.last() == s.last());
            // The last entry's account differs from `e.0`, the account at `i`.
            assert(s[i].0 == e.0);
            assert(s.last() == s[s.len() - 1]);
            assert(s.last().0 != e.0);
            if s.last().0 == x {
                assert(lookup_balance(t, x) == s.last().1);
                assert(lookup_balance(s, x) == s.last().1);
            } else {
                assert(lookup_balance(t, x) == lookup_balance(s.drop_last().update(i, e), x));
                assert(lookup_balance(s, x) == lookup_balance(s.drop_last(), x));
            }
        }
    };
}

proof fn lemma_lookup_balance_push(s: Seq<(AccountId, Balance)>, e: (AccountId, Balance))
    ensures
        forall|x: AccountId|
            lookup_balance(s.push(e), x) == if x == e.0 {
                e.1
            } else {
                lookup_balance(s, x)
            },
{
    assert(s.push(e).drop_last() =~= s);
    assert(s.push(e).last() == e);
}

proof fn lemma_sum_balances_push(s: Seq<(AccountId, Balance)>, e: (AccountId, Balance))
    ensures
        sum_balances(s.push(e)) == sum_balances(s) + e.1,
{
    assert(s.push(e).drop_last() =~= s);
    assert(s.push(e).last() == e);
}

proof fn lemma_sum_balances_nonneg(s: Seq<(AccountId, Balance)>)
    ensures
        sum_balances(s) >= 0,
    decreases s.len(),
{
    if s.len() > 0 {
        lemma_sum_balances_nonneg(s.drop_last());
    }
}

proof fn lemma_lookup_balance_le_sum(s: Seq<(AccountId, Balance)>, a: AccountId)
    ensures
        lookup_balance(s, a) <= sum_balances(s),
    decreases s.len(),
{
    if s.len() > 0 {
        if s.last().0 == a {
            lemma_sum_balances_nonneg(s.drop_last());
        } else {
            lemma_lookup_balance_le_sum(s.drop_last(), a);
        }
    }
}

// ---------------------------------------------------------------------------
// The allowance table: entries (owner, spender, amount) with pairwise
// distinct (owner, spender) pairs. A pair without an entry is allowed zero.
// ---------------------------------------------------------------------------

/// The amount an allowance table records for the pair `(owner, spender)`, or
/// zero when no entry holds that pair.
pub open spec fn lookup_allowance(
    s: Seq<(AccountId, AccountId, Balance)>,
    owner: AccountId,
    spender: AccountId,
) -> Balance
    decreases s.len(),
{
    if s.len() == 0 {
        0
    } else if s.last().0 == owner && s.last().1 == spender {
        s.last().2
    } else {
        lookup_allowance(s.drop_last(), owner, spender)
    }
}

/// No two entries of the allowance table name the same (owner, spender) pair.
pub open spec fn allowance_keys_unique(s: Seq<(AccountId, AccountId, Balance)>) -> bool {
    forall|i: int, j: int|
        0 <= i < j < s.len() ==> !((#[trigger] s[i]).0 == (#[trigger] s[j]).0 && s[i].1 == s[j].1)
}

proof fn lemma_lookup_allowance_absent(
    s: Seq<(AccountId, AccountId, Balance)>,
    owner: AccountId,
    spender: AccountId,
)
    requires
        forall|j: int| 0 <= j < s.len() ==> !((#[trigger] s[j]).0 == owner && s[j].1 == spender),
    ensures
        lookup_allowance(s, owner, spender) == 0,
    decreases s.len(),
{
    if s.len() > 0 {
        assert(s.last() == s[s.len() - 1]);
        lemma_lookup_allowance_absent(s.drop_last(), owner, spender);
    }
}

proof fn lemma_lookup_allowance_update(
    s: Seq<(AccountId, AccountId, Balance)>,
    i: int,
    e: (AccountId, AccountId, Balance),
)
    requires
        allowance_keys_unique(s),
        0 <= i < s.len(),
        s[i].0 == e.0,
        s[i].1 == e.1,
    ensures
        forall|o: AccountId, p: AccountId|
            lookup_allowance(s.update(i, e), o, p) == if o == e.0 && p == e.1 {
                e.2
            } else {
                lookup_allowance(s, o, p)
            },
    decreases s.len(),
{
    let t = s.update(i, e);
    if i == s.len() - 1 {
        assert(t.drop_last() =~= s.drop_last());
    } else {
        assert(t.drop_last() =~= s.drop_last().update(i, e));
        assert(allowance_keys_unique(s.drop_last()));
        lemma_lookup_allowance_update(s.drop_last(), i, e);
    }
    assert forall|o: AccountId, p: AccountId|
        lookup_allowance(t, o, p) == (if o == e.0 && p == e.1 {
            e.2
        } else {
            lookup_allowance(s, o, p)
        }) by {
        if i == s.len() - 1 {
            assert(t.last() == e);
            assert(s.last() == s[i]);
            if !(o == e.0 && p == e.1) {
                assert(lookup_allowance(t, o, p) == lookup_allowance(s.drop_last(), o, p));
                assert(lookup_allowance(s, o, p) == lookup_allowance(s.drop_last(), o, p));
            }
        } else {
            assert(t.last() == s.last());
            // The last entry's pair differs from `(e.0, e.1)`, the pair at `i`.
            assert(s[i].0 == e.0 && s[i].1 == e.1);
            assert(s.last() == s[s.len() - 1]);
            assert(!(s.last().0 == e.0 && s.last().1 == e.1));
            if s.last().0 == o && s.last().1 == p {
                assert(lookup_allowance(t, o, p) == s.last().2);
                assert(lookup_allowance(s, o, p) == s.last().2);
            } else {
                assert(lookup_allowance(t, o, p) == lookup_allowance(
                    s.drop_last().update(i, e),
                    o,
                    p,
                ));
                assert(lookup_allowance(s, o, p) == lookup_allowance(s.drop_last(), o, p));
            }
        }
    };
}

proof fn lemma_lookup_allowance_push(
    s: Seq<(AccountId, AccountId, Balance)>,
    e: (AccountId, AccountId, Balance),
)
    ensures
        forall|o: AccountId, p: AccountId|
            lookup_allowance(s.push(e), o, p) == if o == e.0 && p == e.1 {
                e.2
            } else {
                lookup_allowance(s, o, p)
            },
{
    assert(s.push(e).drop_last() =~= s);
    assert(s.push(e).last() == e);
}

// ---------------------------------------------------------------------------
// The ledger itself.
// ---------------------------------------------------------------------------

/// The authoritative record of balances and allowances.
///
/// The host constructs one ledger, then invokes its operations one at a time,
/// passing the authenticated caller identity into each mutating call. Events
/// recording successful mutations accumulate in an internal log that the host
/// forwards to its sink.
pub struct TokenLedger {
    total_supply: Balance,
    balances: Vec<(AccountId, Balance)>,
    allowances: Vec<(AccountId, AccountId, Balance)>,
    events: Vec<Event>,
}

impl TokenLedger {
    /// The fixed total supply, set once at construction.
    pub closed spec fn spec_total_supply(self) -> Balance {
        self.total_supply
    }

    /// The balance table's entries.
    pub closed spec fn spec_balances(self) -> Seq<(AccountId, Balance)> {
        self.balances@
    }

    /// The balance held by `a`; accounts without an entry hold zero.
    pub closed spec fn spec_balance_of(self, a: AccountId) -> Balance {
        lookup_balance(self.balances@, a)
    }

    /// The amount `spender` may still move out of `owner`'s balance; pairs
    /// without an entry are allowed zero.
    pub closed spec fn spec_allowance(self, owner: AccountId, spender: AccountId) -> Balance {
        lookup_allowance(self.allowances@, owner, spender)
    }

    /// The log of events emitted so far, oldest first.
    pub closed spec fn spec_events(self) -> Seq<Event> {
        self.events@
    }

    /// Well-formedness: both tables have pairwise distinct keys, and the
    /// balances sum exactly to the total supply. Construction establishes
    /// this and every operation preserves it, so it holds of every ledger
    /// the host can reach.
    pub closed spec fn wf(self) -> bool {
        &&& balance_keys_unique(self.balances@)
        &&& allowance_keys_unique(self.allowances@)
        &&& sum_balances(self.balances@) == self.total_supply as int
    }
}

/// Supply conservation, spelled out: a well-formed ledger's balance entries
/// sum exactly to its total supply, so no sequence of operations can create
/// or destroy value.
pub proof fn lemma_supply_equals_sum(l: TokenLedger)
    requires
        l.wf(),
    ensures
        sum_balances(l.spec_balances()) == l.spec_total_supply() as int,
{
}

// ---------------------------------------------------------------------------
// Exec helpers over the two tables.
// ---------------------------------------------------------------------------

fn lookup_balance_exec(v: &Vec<(AccountId, Balance)>, a: AccountId) -> (r: Balance)
    ensures
        r == lookup_balance(v@, a),
{
    let mut k: usize = v.len();
    proof {
        assert(v@.subrange(0, v@.len() as int) =~= v@);
    }
    while k > 0
        invariant
            k <= v@.len(),
            lookup_balance(v@, a) == lookup_balance(v@.subrange(0, k as int), a),
        decreases k,
    {
        let e = v[k - 1];
        proof {
            assert(v@.subrange(0, k as int).last() == v@[k as int - 1]);
        }
        if e.0 == a {
            return e.1;
        }
        proof {
            assert(v@.subrange(0, k as int).drop_last() =~= v@.subrange(0, k as int - 1));
        }
        k = k - 1;
    }
    0
}

fn lookup_allowance_exec(
    v: &Vec<(AccountId, AccountId, Balance)>,
    owner: AccountId,
    spender: AccountId,
) -> (r: Balance)
    ensures
        r == lookup_allowance(v@, owner, spender),
{
    let mut k: usize = v.len();
    proof {
        assert(v@.subrange(0, v@.len() as int) =~= v@);
    }
    while k > 0
        invariant
            k <= v@.len(),
            lookup_allowance(v@, owner, spender) == lookup_allowance(
                v@.subrange(0, k as int),
                owner,
                spender,
            ),
        decreases k,
    {
        let e = v[k - 1];
        proof {
            assert(v@.subrange(0, k as int).last() == v@[k as int - 1]);
        }
        if e.0 == owner && e.1 == spender {
            return e.2;
        }
        proof {
            assert(v@.subrange(0, k as int).drop_last() =~= v@.subrange(0, k as int - 1));
        }
        k = k - 1;
    }
    0
}

/// Records `amount` for `a`, replacing `a`'s entry or adding one.
fn set_balance(v: &mut Vec<(AccountId, Balance)>, a: AccountId, amount: Balance)
    requires
        balance_keys_unique(old(v)@),
    ensures
        balance_keys_unique(final(v)@),
        forall|x: AccountId|
            lookup_balance(final(v)@, x) == if x == a {
                amount
            } else {
                lookup_balance(old(v)@, x)
            },
        sum_balances(final(v)@) == sum_balances(old(v)@) - lookup_balance(old(v)@, a) + amount,
{
    let n: usize = v.len();
    let mut k: usize = 0;
    while k < n
        invariant
            v@ == old(v)@,
            n == v@.len(),
            k <= n,
            balance_keys_unique(v@),
            forall|j: int| 0 <= j < k ==> (#[trigger] v@[j]).0 != a,
        decreases n - k,
    {
        if v[k].0 == a {
            proof {
                lemma_lookup_balance_at(v@, k as int);
                lemma_sum_balances_update(v@, k as int, (a, amount));
                lemma_lookup_balance_update(v@, k as int, (a, amount));
            }
            v.set(k, (a, amount));
            proof {
                assert forall|i: int, j: int| 0 <= i < j < v@.len() implies (#[trigger] v@[i]).0
                    != (#[trigger] v@[j]).0 by {
                    assert(old(v)@[i].0 != old(v)@[j].0);
                }
            }
            return;
        }
        k = k + 1;
    }
    proof {
        lemma_lookup_balance_absent(v@, a);
        lemma_lookup_balance_push(v@, (a, amount));
        lemma_sum_balances_push(v@, (a, amount));
    }
    v.push((a, amount));
    proof {
        assert forall|i: int, j: int| 0 <= i < j < v@.len() implies (#[trigger] v@[i]).0
            != (#[trigger] v@[j]).0 by {
            if j < v@.len() - 1 {
                assert(old(v)@[i].0 != old(v)@[j].0);
            } else {
                assert(old(v)@[i].0 != a);
            }
        }
    }
}

/// Records `amount` for the pair `(owner, spender)`, replacing the pair's
/// entry or adding one.
fn set_allowance(
    v: &mut Vec<(AccountId, AccountId, Balance)>,
    owner: AccountId,
    spender: AccountId,
    amount: Balance,
)
    requires
        allowance_keys_unique(old(v)@),
    ensures
        allowance_keys_unique(final(v)@),
        forall|o: AccountId, p: AccountId|
            lookup_allowance(final(v)@, o, p) == if o == owner && p == spender {
                amount
            } else {
                lookup_allowance(old(v)@, o, p)
            },
{
    let n: usize = v.len();
    let mut k: usize = 0;
    while k < n
        invariant
            v@ == old(v)@,
            n == v@.len(),
            k <= n,
            allowance_keys_unique(v@),
            forall|j: int|
                0 <= j < k ==> !((#[trigger] v@[j]).0 == owner && v@[j].1 == spender),
        decreases n - k,
    {
        let e = v[k];
        if e.0 == owner && e.1 == spender {
            proof {
                lemma_lookup_allowance_update(v@, k as int, (owner, spender, amount));
            }
            v.set(k, (owner, spender, amount));
            proof {
                assert forall|i: int, j: int| 0 <= i < j < v@.len() implies !((#[trigger] v@[i]).0
                    == (#[trigger] v@[j]).0 && v@[i].1 == v@[j].1) by {
                    assert(!(old(v)@[i].0 == old(v)@[j].0 && old(v)@[i].1 == old(v)@[j].1));
                }
            }
            return;
        }
        k = k + 1;
    }
    proof {
        lemma_lookup_allowance_absent(v@, owner, spender);
        lemma_lookup_allowance_push(v@, (owner, spender, amount));
    }
    v.push((owner, spender, amount));
    proof {
        assert forall|i: int, j: int| 0 <= i < j < v@.len() implies !((#[trigger] v@[i]).0 == (
        #[trigger] v@[j]).0 && v@[i].1 == v@[j].1) by {
            if j < v@.len() - 1 {
                assert(!(old(v)@[i].0 == old(v)@[j].0 && old(v)@[i].1 == old(v)@[j].1));
            } else {
                assert(!(old(v)@[i].0 == owner && old(v)@[i].1 == spender));
            }
        }
    }
}

// ---------------------------------------------------------------------------
// Transition predicates: what each operation promises of the state it leaves
// behind, phrased over the ledger's spec accessors. The operations ensure
// them; the trace laws are proved from them alone.
// ---------------------------------------------------------------------------

/// Relates the states before and after one `approve(caller, spender, amount)`
/// call that returned `r`: the call always succeeds, sets that one allowance
/// to exactly `amount` (overwriting, never adding), touches nothing else, and
/// appends exactly one `Approved` event.
pub open spec fn approve_post(
    pre: TokenLedger,
    post: TokenLedger,
    caller: AccountId,
    spender: AccountId,
    amount: Balance,
    r: bool,
) -> bool {
    &&& r == true
    &&& (pre.wf() ==> post.wf())
    &&& post.spec_total_supply() == pre.spec_total_supply()
    &&& post.spec_allowance(caller, spender) == amount
    &&& forall|o: AccountId, p: AccountId|
        !(o == caller && p == spender) ==> post.spec_allowance(o, p) == pre.spec_allowance(o, p)
    &&& forall|a: AccountId| post.spec_balance_of(a) == pre.spec_balance_of(a)
    &&& post.spec_events() == pre.spec_events().push(approved_event(caller, spender, amount))
}

/// Relates the states before and after one movement of `amount` from `from`
/// to `to` that returned `r`: it succeeds exactly when `from`'s balance
/// covers `amount`; on success it moves the value (a self-transfer is
/// net-neutral) and appends exactly one `Transferred` event; on failure it
/// changes nothing and emits nothing. Allowances and the total supply are
/// never touched.
pub open spec fn transfer_post(
    pre: TokenLedger,
    post: TokenLedger,
    from: AccountId,
    to: AccountId,
    amount: Balance,
    r: bool,
) -> bool {
    &&& r == (pre.spec_balance_of(from) >= amount)
    &&& (pre.wf() ==> post.wf())
    &&& post.spec_total_supply() == pre.spec_total_supply()
    &&& forall|o: AccountId, p: AccountId| post.spec_allowance(o, p) == pre.spec_allowance(o, p)
    &&& if r {
        &&& from != to ==> post.spec_balance_of(from) == pre.spec_balance_of(from) - amount
            && post.spec_balance_of(to) == pre.spec_balance_of(to) + amount
        &&& from == to ==> post.spec_balance_of(from) == pre.spec_balance_of(from)
        &&& forall|a: AccountId|
            a != from && a != to ==> post.spec_balance_of(a) == pre.spec_balance_of(a)
        &&& post.spec_events() == pre.spec_events().push(
            transferred_event(Some(from), Some(to), amount),
        )
    } else {
        &&& forall|a: AccountId| post.spec_balance_of(a) == pre.spec_balance_of(a)
        &&& post.spec_events() == pre.spec_events()
    }
}

/// Relates the states before and after one
/// `transfer_from(caller, from, to, amount)` call that returned `r`: it
/// succeeds exactly when both `caller`'s allowance from `from` and `from`'s
/// balance cover `amount`. On success the allowance shrinks by exactly the
/// spent amount, the value moves, and exactly one `Transferred` event is
/// appended; on failure — either check — nothing changes and nothing is
/// emitted.
pub open spec fn transfer_from_post(
    pre: TokenLedger,
    post: TokenLedger,
    caller: AccountId,
    from: AccountId,
    to: AccountId,
    amount: Balance,
    r: bool,
) -> bool {
    &&& r == (pre.spec_allowance(from, caller) >= amount && pre.spec_balance_of(from) >= amount)
    &&& (pre.wf() ==> post.wf())
    &&& post.spec_total_supply() == pre.spec_total_supply()
    &&& if r {
        &&& post.spec_allowance(from, caller) == pre.spec_allowance(from, caller) - amount
        &&& forall|o: AccountId, p: AccountId|
            !(o == from && p == caller) ==> post.spec_allowance(o, p) == pre.spec_allowance(o, p)
        &&& from != to ==> post.spec_balance_of(from) == pre.spec_balance_of(from) - amount
            && post.spec_balance_of(to) == pre.spec_balance_of(to) + amount
        &&& from == to ==> post.spec_balance_of(from) == pre.spec_balance_of(from)
        &&& forall|a: AccountId|
            a != from && a != to ==> post.spec_balance_of(a) == pre.spec_balance_of(a)
        &&& post.spec_events() == pre.spec_events().push(
            transferred_event(Some(from), Some(to), amount),
        )
    } else {
        &&& forall|o: AccountId, p: AccountId| post.spec_allowance(o, p) == pre.spec_allowance(o, p)
        &&& forall|a: AccountId| post.spec_balance_of(a) == pre.spec_balance_of(a)
        &&& post.spec_events() == pre.spec_events()
    }
}

// ---------------------------------------------------------------------------
// The operations.
// ---------------------------------------------------------------------------

impl TokenLedger {
    /// Creates the ledger: `genesis_owner` holds the entire `initial_supply`
    /// (zero is legal), no allowance is set, and the log holds exactly one
    /// genesis `Transferred` event whose `from` is `None`.
    pub fn new(initial_supply: Balance, genesis_owner: AccountId) -> (l: TokenLedger)
        ensures
            l.wf(),
            l.spec_total_supply() == initial_supply,
            l.spec_balance_of(genesis_owner) == initial_supply,
            forall|a: AccountId| a != genesis_owner ==> l.spec_balance_of(a) == 0,
            forall|o: AccountId, p: AccountId| l.spec_allowance(o, p) == 0,
            l.spec_events() == seq![transferred_event(None, Some(genesis_owner), initial_supply)],
    {
        let mut balances: Vec<(AccountId, Balance)> = Vec::new();
        balances.push((genesis_owner, initial_supply));
        let mut events: Vec<Event> = Vec::new();
        events.push(
            Event::Transferred { from: None, to: Some(genesis_owner), amount: initial_supply },
        );
        let l = TokenLedger {
            total_supply: initial_supply,
            balances,
            allowances: Vec::new(),
            events,
        };
        proof {
            assert(l.balances@.drop_last() =~= Seq::<(AccountId, Balance)>::empty());
            assert(sum_balances(Seq::<(AccountId, Balance)>::empty()) == 0);
            assert(sum_balances(l.balances@) == initial_supply);
            assert forall|a: AccountId| a != genesis_owner implies l.spec_balance_of(a) == 0 by {
                assert(l.balances@.last().0 == genesis_owner);
                assert(lookup_balance(Seq::<(AccountId, Balance)>::empty(), a) == 0);
            }
            assert(l.events@ =~= seq![
                transferred_event(None, Some(genesis_owner), initial_supply),
            ]);
        }
        l
    }

    /// The immutable total supply.
    pub fn total_supply(&self) -> (r: Balance)
        ensures
            r == self.spec_total_supply(),
    {
        self.total_supply
    }

    /// `owner`'s balance; an account without an entry holds zero. Never
    /// fails.
    pub fn balance_of(&self, owner: AccountId) -> (r: Balance)
        ensures
            r == self.spec_balance_of(owner),
    {
        self.balance_of_or_zero(owner)
    }

    /// What `spender` may still move out of `owner`'s balance; a pair
    /// without an entry is allowed zero. Never fails.
    pub fn allowance(&self, owner: AccountId, spender: AccountId) -> (r: Balance)
        ensures
            r == self.spec_allowance(owner, spender),
    {
        self.allowance_of_or_zero(owner, spender)
    }

    /// Sets `spender`'s allowance from `caller` to exactly `amount`,
    /// overwriting any prior value, and records an `Approved` event. There
    /// is no failure condition: self-approval, zero amounts and re-approval
    /// over a nonzero allowance are all legal.
    pub fn approve(&mut self, caller: AccountId, spender: AccountId, amount: Balance) -> (r: bool)
        requires
            old(self).wf(),
        ensures
            final(self).wf(),
            approve_post(*old(self), *final(self), caller, spender, amount, r),
    {
        set_allowance(&mut self.allowances, caller, spender, amount);
        self.events.push(Event::Approved { owner: caller, spender, amount });
        true
    }

    /// Moves `amount` from `caller` to `to`. Returns `false` — changing
    /// nothing and emitting nothing — exactly when `caller`'s balance is
    /// below `amount`; otherwise moves the value and records a `Transferred`
    /// event.
    pub fn transfer(&mut self, caller: AccountId, to: AccountId, amount: Balance) -> (r: bool)
        requires
            old(self).wf(),
        ensures
            final(self).wf(),
            transfer_post(*old(self), *final(self), caller, to, amount, r),
    {
        self.transfer_from_to(caller, to, amount)
    }

    /// Moves `amount` out of `from` to `to` on behalf of `caller`. The
    /// allowance check and the transfer are one atomic step: if either
    /// `caller`'s allowance from `from` or `from`'s balance is below
    /// `amount`, the call returns `false` with no mutation and no event;
    /// otherwise the allowance shrinks by exactly `amount` and the value
    /// moves.
    pub fn transfer_from(
        &mut self,
        caller: AccountId,
        from: AccountId,
        to: AccountId,
        amount: Balance,
    ) -> (r: bool)
        requires
            old(self).wf(),
        ensures
            final(self).wf(),
            transfer_from_post(*old(self), *final(self), caller, from, to, amount, r),
    {
        let current_allowance = self.allowance_of_or_zero(from, caller);
        if current_allowance < amount {
            return false;
        }
        let from_balance = self.balance_of_or_zero(from);
        if from_balance < amount {
            return false;
        }
        set_allowance(&mut self.allowances, from, caller, current_allowance - amount);
        self.transfer_from_to(from, to, amount)
    }

    /// The events emitted so far, oldest first; the host forwards new ones
    /// to its sink.
    pub fn events(&self) -> (r: &Vec<Event>)
        ensures
            r@ == self.spec_events(),
    {
        &self.events
    }

    fn balance_of_or_zero(&self, owner: AccountId) -> (r: Balance)
        ensures
            r == self.spec_balance_of(owner),
    {
        lookup_balance_exec(&self.balances, owner)
    }

    fn allowance_of_or_zero(&self, owner: AccountId, spender: AccountId) -> (r: Balance)
        ensures
            r == self.spec_allowance(owner, spender),
    {
        lookup_allowance_exec(&self.allowances, owner, spender)
    }

    /// The internal transfer algorithm shared by `transfer` and
    /// `transfer_from`.
    fn transfer_from_to(&mut self, from: AccountId, to: AccountId, amount: Balance) -> (r: bool)
        requires
            old(self).wf(),
        ensures
            final(self).wf(),
            transfer_post(*old(self), *final(self), from, to, amount, r),
    {
        let from_balance = self.balance_of_or_zero(from);
        if from_balance < amount {
            return false;
        }
        set_balance(&mut self.balances, from, from_balance - amount);
        let to_balance = self.balance_of_or_zero(to);
        proof {
            // The table now sums to `total_supply - amount`, so the receiving
            // balance cannot overflow.
            assert(sum_balances(self.balances@) == old(self).total_supply - amount);
            lemma_lookup_balance_le_sum(self.balances@, to);
            assert(to_balance + amount <= old(self).total_supply);
        }
        set_balance(&mut self.balances, to, to_balance + amount);
        self.events.push(Event::Transferred { from: Some(from), to: Some(to), amount });
        true
    }
}

} // verus!

//! Ledger-wide laws, proved from the transition predicates alone: whatever
//! run of operations the host performs, the supply is conserved and the event
//! log grows by exactly one entry per successful mutation.

use vstd::prelude::*;
use crate::account::AccountId;
use crate::account::Balance;
use crate::ledger::TokenLedger;
use crate::ledger::approve_post;
use crate::ledger::transfer_from_post;
use crate::ledger::transfer_post;

verus! {

/// One mutating ledger operation together with the arguments the host passed
/// into it.
pub enum LedgerOp {
    Transfer { caller: AccountId, to: AccountId, amount: Balance },
    TransferFrom { caller: AccountId, from: AccountId, to: AccountId, amount: Balance },
    Approve { caller: AccountId, spender: AccountId, amount: Balance },
}

/// `post` arose from `pre` by the operation `op` returning `r`.
pub open spec fn op_post(pre: TokenLedger, post: TokenLedger, op: LedgerOp, r: bool) -> bool {
    match op {
        LedgerOp::Transfer { caller, to, amount } => transfer_post(pre, post, caller, to, amount, r),
        LedgerOp::TransferFrom { caller, from, to, amount } => transfer_from_post(
            pre,
            post,
            caller,
            from,
            to,
            amount,
            r,
        ),
        LedgerOp::Approve { caller, spender, amount } => approve_post(
            pre,
            post,
            caller,
            spender,
            amount,
            r,
        ),
    }
}

/// `states` is a run of the ledger: `states[i + 1]` arose from `states[i]`
/// by `ops[i]` returning `results[i]`.
pub open spec fn trace_ok(states: Seq<TokenLedger>, ops: Seq<LedgerOp>, results: Seq<bool>) -> bool {
    &&& states.len() == ops.len() + 1
    &&& results.len() == ops.len()
    &&& forall|i: int|
        0 <= i < ops.len() ==> op_post(states[i], states[i + 1], #[trigger] ops[i], results[i])
}

/// How many operations of a run reported success.
pub open spec fn count_successes(results: Seq<bool>) -> int
    decreases results.len(),
{
    if results.len() == 0 {
        0
    } else {
        count_successes(results.drop_last()) + if results.last() {
            1int
        } else {
            0int
        }
    }
}

/// Supply conservation: along any run of `transfer` / `transfer_from` /
/// `approve` calls that starts from a well-formed ledger, every state is
/// well-formed — its balances sum exactly to the total supply — and the total
/// supply never changes.
pub proof fn lemma_supply_conservation(
    states: Seq<TokenLedger>,
    ops: Seq<LedgerOp>,
    results: Seq<bool>,
)
    requires
        trace_ok(states, ops, results),
        states[0].wf(),
    ensures
        forall|i: int| 0 <= i < states.len() ==> (#[trigger] states[i]).wf(),
        forall|i: int|
            0 <= i < states.len() ==> (#[trigger] states[i]).spec_total_supply()
                == states[0].spec_total_supply(),
    decreases ops.len(),
{
    if ops.len() > 0 {
        let n = ops.len() as int;
        assert(trace_ok(states.drop_last(), ops.drop_last(), results.drop_last())) by {
            assert forall|i: int| 0 <= i < ops.drop_last().len() implies op_post(
                states.drop_last()[i],
                states.drop_last()[i + 1],
                #[trigger] ops.drop_last()[i],
                results.drop_last()[i],
            ) by {
                assert(op_post(states[i], states[i + 1], ops[i], results[i]));
            }
        }
        lemma_supply_conservation(states.drop_last(), ops.drop_last(), results.drop_last());
        assert(states.drop_last()[0] == states[0]);
        assert forall|i: int| 0 <= i < states.len() implies (#[trigger] states[i]).wf()
            && states[i].spec_total_supply() == states[0].spec_total_supply() by {
            if i < n {
                assert(states.drop_last()[i] == states[i]);
            } else {
                assert(states.drop_last()[n - 1] == states[n - 1]);
                assert(op_post(states[n - 1], states[n], ops[n - 1], results[n - 1]));
            }
        }
    }
}

/// Event count matches mutation count: along any run, each successful call
/// appends exactly one event and each failed call appends none, so the log
/// grows by exactly the number of successes.
pub proof fn lemma_event_count(states: Seq<TokenLedger>, ops: Seq<LedgerOp>, results: Seq<bool>)
    requires
        trace_ok(states, ops, results),
    ensures
        states.last().spec_events().len() == states[0].spec_events().len() + count_successes(
            results,
        ),
    decreases ops.len(),
{
    if ops.len() == 0 {
        assert(states.last() == states[0]);
    } else {
        let n = ops.len() as int;
        assert(trace_ok(states.drop_last(), ops.drop_last(), results.drop_last())) by {
            assert forall|i: int| 0 <= i < ops.drop_last().len() implies op_post(
                states.drop_last()[i],
                states.drop_last()[i + 1],
                #[trigger] ops.drop_last()[i],
                results.drop_last()[i],
            ) by {
                assert(op_post(states[i], states[i + 1], ops[i], results[i]));
            }
        }
        lemma_event_count(states.drop_last(), ops.drop_last(), results.drop_last());
        assert(states.drop_last()[0] == states[0]);
        assert(states.drop_last().last() == states[n - 1]);
        assert(op_post(states[n - 1], states[n], ops[n - 1], results[n - 1]));
    }
}

/// Approve overwrites, it does not add: after two approvals for the same
/// owner–spender pair, the allowance is exactly the second amount, whatever
/// the first was.
pub proof fn lemma_approve_overwrites(
    s0: TokenLedger,
    s1: TokenLedger,
    s2: TokenLedger,
    owner: AccountId,
    spender: AccountId,
    first: Balance,
    second: Balance,
    r1: bool,
    r2: bool,
)
    requires
        approve_post(s0, s1, owner, spender, first, r1),
        approve_post(s1, s2, owner, spender, second, r2),
    ensures
        s2.spec_allowance(owner, spender) == second,
{
}

/// Transfer-from decrements the allowance by exactly the spent amount: after
/// `owner` approves `approved` for `spender`, a transfer-from of `spent` (at
/// most the approval, covered by `owner`'s balance) succeeds and leaves
/// exactly `approved - spent` approved.
pub proof fn lemma_transfer_from_decrements_allowance(
    s0: TokenLedger,
    s1: TokenLedger,
    s2: TokenLedger,
    owner: AccountId,
    spender: AccountId,
    to: AccountId,
    approved: Balance,
    spent: Balance,
    r1: bool,
    r2: bool,
)
    requires
        approve_post(s0, s1, owner, spender, approved, r1),
        transfer_from_post(s1, s2, spender, owner, to, spent, r2),
        spent <= approved,
        spent <= s0.spec_balance_of(owner),
    ensures
        r2,
        s2.spec_allowance(owner, spender) == approved - spent,
{
}

/// An insufficient-funds transfer is rejected without side effects: it
/// returns `false` and leaves every balance, every allowance, the total
/// supply and the event log exactly as they were.
pub proof fn lemma_insufficient_funds_rejected(
    pre: TokenLedger,
    post: TokenLedger,
    caller: AccountId,
    to: AccountId,
    amount: Balance,
    r: bool,
)
    requires
        transfer_post(pre, post, caller, to, amount, r),
        pre.spec_balance_of(caller) < amount,
    ensures
        !r,
        forall|a: AccountId| post.spec_balance_of(a) == pre.spec_balance_of(a),
        forall|o: AccountId, p: AccountId| post.spec_allowance(o, p) == pre.spec_allowance(o, p),
        post.spec_total_supply() == pre.spec_total_supply(),
        post.spec_events() == pre.spec_events(),
{
}

/// An insufficient-allowance transfer-from is rejected without side effects
/// and emits no event.
pub proof fn lemma_insufficient_allowance_rejected(
    pre: TokenLedger,
    post: TokenLedger,
    caller: AccountId,
    from: AccountId,
    to: AccountId,
    amount: Balance,
    r: bool,
)
    requires
        transfer_from_post(pre, post, caller, from, to, amount, r),
        pre.spec_allowance(from, caller) < amount,
    ensures
        !r,
        forall|a: AccountId| post.spec_balance_of(a) == pre.spec_balance_of(a),
        forall|o: AccountId, p: AccountId| post.spec_allowance(o, p) == pre.spec_allowance(o, p),
        post.spec_total_supply() == pre.spec_total_supply(),
        post.spec_events() == pre.spec_events(),
{
}

/// No negative balances: every balance the ledger can report is a
/// non-negative quantity; this holds by the unsigned representation, and the
/// operations' subtractions are proved not to underflow.
pub proof fn lemma_no_negative_balance(l: TokenLedger, a: AccountId)
    ensures
        l.spec_balance_of(a) >= 0,
{
}

} // verus!

use vstd::prelude::*;
use crate::account::AccountId;
use crate::account::Balance;

verus! {

/// A notification record appended to the ledger's log after a successful
/// state change; the host forwards these to its event sink.
#[derive(Clone, Copy, PartialEq, Eq, Debug)]
pub enum Event {
    /// Value moved between accounts. `from` is `None` only for the genesis
    /// mint performed at construction.
    Transferred { from: Option<AccountId>, to: Option<AccountId>, amount: Balance },
    /// A spending limit was set by `owner` for `spender`.
    Approved { owner: AccountId, spender: AccountId, amount: Balance },
}

/// The event recording a movement of `amount` from `from` to `to`.
pub open spec fn transferred_event(
    from: Option<AccountId>,
    to: Option<AccountId>,
    amount: Balance,
) -> Event {
    Event::Transferred { from, to, amount }
}

/// The event recording that `owner` set `spender`'s allowance to `amount`.
pub open spec fn approved_event(owner: AccountId, spender: AccountId, amount: Balance) -> Event {
    Event::Approved { owner, spender, amount }
}

} // verus!

use vstd::prelude::*;

use crate::bridge::Bridge;
use crate::identity::Identity;
use crate::ledger::spec_balance;

verus! {

/// Custody exclusivity: a minted asset-instance is held by exactly one
/// account — some account's balance is 1, every balance is 0 or 1, and no two
/// distinct accounts both hold the unit. "Locked" (held by custody) and
/// "circulating" (held by anyone else) can therefore never hold at once.
pub proof fn lemma_sole_holder(m: Map<u64, Identity>, asset: u64)
    requires
        m.dom().contains(asset),
    ensures
        exists|o: Identity| spec_balance(m, asset, o) == 1,
        forall|o: Identity|
            spec_balance(m, asset, o) == 0 || spec_balance(m, asset, o) == 1,
        forall|o1: Identity, o2: Identity|
            spec_balance(m, asset, o1) == 1 && spec_balance(m, asset, o2) == 1 ==> o1 == o2,
{
    assert(spec_balance(m, asset, m[asset]) == 1);
}

/// The same, stated of a whole deployment: every asset-instance a
/// well-formed bridge has minted is either circulating with exactly one
/// external owner or locked in custody, never both, never neither.
pub proof fn lemma_bridge_sole_holder(b: Bridge, asset: u64)
    requires
        b.wf(),
        b.ledger.holders().dom().contains(asset),
    ensures
        exists|o: Identity| b.spec_balance_of(asset, o) == 1,
        forall|o: Identity| b.spec_balance_of(asset, o) == 0 || b.spec_balance_of(asset, o) == 1,
        forall|o1: Identity, o2: Identity|
            b.spec_balance_of(asset, o1) == 1 && b.spec_balance_of(asset, o2) == 1 ==> o1 == o2,
{
    lemma_sole_holder(b.ledger.holders(), asset);
    assert(b.spec_balance_of(asset, b.ledger.holders()[asset]) == 1);
}

/// Outbound lock effect: after the holder map is updated to put `asset` into
/// custody, the original holder's balance for it is 0, custody's is 1, no
/// other account's balance for that asset changes, and balances for every
/// other asset are untouched.
pub proof fn lemma_outbound_exclusivity(
    m: Map<u64, Identity>,
    asset: u64,
    holder: Identity,
    custody: Identity,
)
    requires
        m.dom().contains(asset),
        m[asset] == holder,
        holder != custody,
    ensures
        spec_balance(m.insert(asset, custody), asset, holder) == 0,
        spec_balance(m.insert(asset, custody), asset, custody) == 1,
        forall|o: Identity|
            o != holder && o != custody ==> spec_balance(m.insert(asset, custody), asset, o)
                == spec_balance(m, asset, o),
        forall|a: u64, o: Identity|
            a != asset ==> spec_balance(m.insert(asset, custody), a, o) == spec_balance(m, a, o),
{
}

} // verus!

use vstd::pervasive::VecAdditionalExecFns;
use vstd::prelude::*;

use crate::errors::LedgerError;
use crate::identity::Identity;

verus! {

/// One minted asset-instance: a non-fungible unit of supply one, together
/// with the account that currently holds that one unit.
pub struct AssetRecord {
    pub asset: u64,
    pub holder: Identity,
}

/// The token ledger model. Because every asset-instance has supply one, the
/// ledger keeps exactly one record per minted asset; an account's balance is 1
/// when it is that record's holder and 0 otherwise.
pub struct TokenLedger {
    pub records: Vec<AssetRecord>,
}

/// Balance of `owner` for `asset` under the holder map `m`, with supply-one
/// semantics: 1 for the holder of a minted asset, 0 for everyone else and for
/// assets never minted.
pub open spec fn spec_balance(m: Map<u64, Identity>, asset: u64, owner: Identity) -> u64 {
    if m.dom().contains(asset) && m[asset] == owner {
        1u64
    } else {
        0u64
    }
}

impl TokenLedger {
    /// Well-formed: one record per asset key.
    pub open spec fn wf(&self) -> bool {
        forall|i: int, j: int|
            0 <= i < j < self.records@.len() ==> self.records@[i].asset != self.records@[j].asset
    }

    /// The ledger's contents as a map from minted asset key to its holder.
    pub open spec fn holders(&self) -> Map<u64, Identity> {
        Map::new(
            |a: u64| exists|i: int| 0 <= i < self.records@.len() && self.records@[i].asset == a,
            |a: u64|
                self.records@[choose|i: int|
                    0 <= i < self.records@.len() && self.records@[i].asset == a].holder,
        )
    }

    pub fn new() -> (r: TokenLedger)
        ensures
            r.wf(),
            r.records@.len() == 0,
            r.holders() =~= Map::<u64, Identity>::empty(),
    {
        let r = TokenLedger { records: Vec::new() };
        proof {
            assert forall|a: u64| !r.holders().dom().contains(a) by {}
            assert(r.holders() =~= Map::<u64, Identity>::empty());
        }
        r
    }

    /// Index of the record for `asset`, if that asset was minted.
    fn find_asset(&self, asset: u64) -> (r: Option<usize>)
        ensures
            match r {
                Some(i) => i < self.records@.len() && self.records@[i as int].asset == asset,
                None => forall|i: int|
                    0 <= i < self.records@.len() ==> self.records@[i].asset != asset,
            },
    {
        let mut i: usize = 0;
        while i < self.records.len()
            invariant
                i <= self.records@.len(),
                forall|j: int| 0 <= j < i ==> self.records@[j].asset != asset,
            decreases self.records@.len() - i,
        {
            if self.records[i].asset == asset {
                return Some(i);
            }
            i += 1;
        }
        None
    }

    /// Current balance of `owner` for `asset`.
    pub fn balance_of(&self, asset: u64, owner: Identity) -> (r: u64)
        requires
            self.wf(),
        ensures
            r == spec_balance(self.holders(), asset, owner),
    {
        match self.find_asset(asset) {
            Some(i) => {
                proof {
                    lemma_holders_entry(*self, i as int);
                }
                if self.records[i].holder == owner {
                    1
                } else {
                    0
                }
            },
            None => {
                proof {
                    lemma_holders_absent(*self, asset);
                }
                0
            },
        }
    }

    /// Mint the single unit of a fresh asset-instance to `owner`. Fails, and
    /// changes nothing, when the asset key already exists.
    pub fn mint(&mut self, asset: u64, owner: Identity) -> (r: Result<(), LedgerError>)
        requires
            old(self).wf(),
        ensures
            final(self).wf(),
            match r {
                Ok(()) => !old(self).holders().dom().contains(asset) && final(self).holders()
                    == old(self).holders().insert(asset, owner),
                Err(e) => e == LedgerError::AssetAlreadyExists
                    && old(self).holders().dom().contains(asset) && *final(self) == *old(self),
            },
    {
        match self.find_asset(asset) {
            Some(i) => {
                proof {
                    lemma_holders_entry(*self, i as int);
                }
                Err(LedgerError::AssetAlreadyExists)
            },
            None => {
                proof {
                    lemma_holders_absent(*self, asset);
                }
                let ghost pre = *self;
                self.records.push(AssetRecord { asset, holder: owner });
                proof {
                    lemma_holders_push(pre, *self, asset, owner);
                }
                Ok(())
            },
        }
    }

    /// Move the single unit of `asset` from `from` to `to`. Fails, and
    /// changes nothing, when `from` does not hold the unit.
    pub fn transfer(&mut self, asset: u64, from: Identity, to: Identity) -> (r: Result<
        (),
        LedgerError,
    >)
        requires
            old(self).wf(),
        ensures
            final(self).wf(),
            match r {
                Ok(()) => spec_balance(old(self).holders(), asset, from) == 1
                    && final(self).holders() == old(self).holders().insert(asset, to),
                Err(e) => e == LedgerError::InsufficientBalance
                    && spec_balance(old(self).holders(), asset, from) == 0
                    && *final(self) == *old(self),
            },
    {
        match self.find_asset(asset) {
            Some(i) => {
                proof {
                    lemma_holders_entry(*self, i as int);
                }
                if self.records[i].holder == from {
                    let ghost pre = *self;
                    self.records.set(i, AssetRecord { asset, holder: to });
                    proof {
                        lemma_holders_update(pre, *self, i as int, to);
                    }
                    Ok(())
                } else {
                    Err(LedgerError::InsufficientBalance)
                }
            },
            None => {
                proof {
                    lemma_holders_absent(*self, asset);
                }
                Err(LedgerError::InsufficientBalance)
            },
        }
    }
}

/// A record's asset key is in the holder map, mapped to that record's holder.
pub proof fn lemma_holders_entry(l: TokenLedger, i: int)
    requires
        l.wf(),
        0 <= i < l.records@.len(),
    ensures
        l.holders().dom().contains(l.records@[i].asset),
        l.holders()[l.records@[i].asset] == l.records@[i].holder,
{
    let a = l.records@[i].asset;
    assert(exists|j: int| 0 <= j < l.records@.len() && l.records@[j].asset == a) by {
        assert(0 <= i < l.records@.len() && l.records@[i].asset == a);
    }
    let j = choose|j: int| 0 <= j < l.records@.len() && l.records@[j].asset == a;
    assert(j == i);
}

/// An asset key matched by no record is not in the holder map.
pub proof fn lemma_holders_absent(l: TokenLedger, a: u64)
    requires
        forall|i: int| 0 <= i < l.records@.len() ==> l.records@[i].asset != a,
    ensures
        !l.holders().dom().contains(a),
{
}

/// Appending a record for a fresh asset key inserts that key into the holder
/// map and touches nothing else.
proof fn lemma_holders_push(pre: TokenLedger, post: TokenLedger, asset: u64, owner: Identity)
    requires
        pre.wf(),
        forall|i: int| 0 <= i < pre.records@.len() ==> pre.records@[i].asset != asset,
        post.records@ == pre.records@.push(AssetRecord { asset, holder: owner }),
    ensures
        post.wf(),
        post.holders() == pre.holders().insert(asset, owner),
{
    assert(post.wf());
    let n = pre.records@.len() as int;
    assert(post.records@[n] == AssetRecord { asset, holder: owner });
    assert forall|a: u64|
        post.holders().dom().contains(a) == pre.holders().insert(asset, owner).dom().contains(
            a,
        ) by {
        if a == asset {
            lemma_holders_entry(post, n);
        } else {
            if pre.holders().dom().contains(a) {
                let i = choose|i: int| 0 <= i < pre.records@.len() && pre.records@[i].asset == a;
                assert(post.records@[i].asset == a);
            }
            if post.holders().dom().contains(a) {
                let i = choose|i: int| 0 <= i < post.records@.len() && post.records@[i].asset == a;
                assert(i < n);
                assert(pre.records@[i].asset == a);
            }
        }
    }
    assert forall|a: u64|
        post.holders().dom().contains(a) implies post.holders()[a] == pre.holders().insert(
        asset,
        owner,
    )[a] by {
        if a == asset {
            lemma_holders_entry(post, n);
        } else {
            let i = choose|i: int| 0 <= i < post.records@.len() && post.records@[i].asset == a;
            assert(i < n);
            assert(pre.records@[i].asset == a);
            lemma_holders_entry(post, i);
            lemma_holders_entry(pre, i);
        }
    }
    assert(post.holders() =~= pre.holders().insert(asset, owner));
}

/// Replacing the holder at one record updates exactly that asset's entry in
/// the holder map.
proof fn lemma_holders_update(pre: TokenLedger, post: TokenLedger, i: int, to: Identity)
    requires
        pre.wf(),
        0 <= i < pre.records@.len(),
        post.records@ == pre.records@.update(
            i,
            AssetRecord { asset: pre.records@[i].asset, holder: to },
        ),
    ensures
        post.wf(),
        post.holders() == pre.holders().insert(pre.records@[i].asset, to),
{
    let asset = pre.records@[i].asset;
    assert(forall|j: int|
        0 <= j < post.records@.len() ==> post.records@[j].asset == pre.records@[j].asset);
    assert(post.wf());
    assert forall|a: u64|
        post.holders().dom().contains(a) == pre.holders().insert(asset, to).dom().contains(a) by {
        if pre.holders().dom().contains(a) {
            let k = choose|k: int| 0 <= k < pre.records@.len() && pre.records@[k].asset == a;
            assert(post.records@[k].asset == a);
        }
        if post.holders().dom().contains(a) {
            let k = choose|k: int| 0 <= k < post.records@.len() && post.records@[k].asset == a;
            assert(pre.records@[k].asset == a);
        }
    }
    assert forall|a: u64|
        post.holders().dom().contains(a) implies post.holders()[a] == pre.holders().insert(
        asset,
        to,
    )[a] by {
        let k = choose|k: int| 0 <= k < post.records@.len() && post.records@[k].asset == a;
        lemma_holders_entry(post, k);
        if a == asset {
            assert(k == i) by {
                if k != i {
                    assert(pre.records@[k].asset == a);
                }
            }
            assert(post.records@[i].holder == to);
        } else {
            assert(k != i);
            assert(pre.records@[k].asset == a);
            lemma_holders_entry(pre, k);
            assert(post.records@[k].holder == pre.records@[k].holder);
        }
    }
    assert(post.holders() =~= pre.holders().insert(asset, to));
}

} // verus!

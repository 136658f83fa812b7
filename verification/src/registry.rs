use vstd::prelude::*;

use crate::errors::RegistryError;
use crate::identity::Identity;

verus! {

/// Descriptive data of one asset-instance, at the specification level.
pub struct MetadataView {
    pub name: Seq<u8>,
    pub symbol: Seq<u8>,
    pub uri: Seq<u8>,
    pub is_mutable: bool,
    pub collection_size: u64,
    pub mint_authority: Identity,
    pub update_authority: Identity,
}

/// Descriptive data registered for one asset-instance.
pub struct MetadataRecord {
    pub asset: u64,
    pub name: Vec<u8>,
    pub symbol: Vec<u8>,
    pub uri: Vec<u8>,
    pub is_mutable: bool,
    pub collection_size: u64,
    pub mint_authority: Identity,
    pub update_authority: Identity,
}

impl View for MetadataRecord {
    type V = MetadataView;

    open spec fn view(&self) -> MetadataView {
        MetadataView {
            name: self.name@,
            symbol: self.symbol@,
            uri: self.uri@,
            is_mutable: self.is_mutable,
            collection_size: self.collection_size,
            mint_authority: self.mint_authority,
            update_authority: self.update_authority,
        }
    }
}

/// The metadata registry model: one record per registered asset key.
pub struct MetadataRegistry {
    pub records: Vec<MetadataRecord>,
}

impl MetadataRegistry {
    /// Well-formed: one record per asset key.
    pub open spec fn wf(&self) -> bool {
        forall|i: int, j: int|
            0 <= i < j < self.records@.len() ==> self.records@[i].asset != self.records@[j].asset
    }

    /// The registry's contents as a map from asset key to its metadata.
    pub open spec fn table(&self) -> Map<u64, MetadataView> {
        Map::new(
            |a: u64| exists|i: int| 0 <= i < self.records@.len() && self.records@[i].asset == a,
            |a: u64|
                self.records@[choose|i: int|
                    0 <= i < self.records@.len() && self.records@[i].asset == a]@,
        )
    }

    pub fn new() -> (r: MetadataRegistry)
        ensures
            r.wf(),
            r.records@.len() == 0,
            r.table() =~= Map::<u64, MetadataView>::empty(),
    {
        let r = MetadataRegistry { records: Vec::new() };
        proof {
            assert forall|a: u64| !r.table().dom().contains(a) by {}
            assert(r.table() =~= Map::<u64, MetadataView>::empty());
        }
        r
    }

    /// Index of the record for `asset`, if metadata was registered for it.
    fn find_asset(&self, asset: u64) -> (r: Option<usize>)
        ensures
            match r {
                Some(i) => i < self.records@.len() && self.records@[i as int].asset == asset,
                None => forall|i: int|
                    0 <= i < self.records@.len() ==> self.records@[i].asset != asset,
            },
    {
        let mut i: usize = 0;
        while i < self.records.len()
            invariant
                i <= self.records@.len(),
                forall|j: int| 0 <= j < i ==> self.records@[j].asset != asset,
            decreases self.records@.len() - i,
        {
            if self.records[i].asset == asset {
                return Some(i);
            }
            i += 1;
        }
        None
    }

    /// The registered metadata for `asset`, if any.
    pub fn lookup(&self, asset: u64) -> (r: Option<&MetadataRecord>)
        requires
            self.wf(),
        ensures
            match r {
                Some(m) => self.table().dom().contains(asset) && self.table()[asset] == m@
                    && m.asset == asset,
                None => !self.table().dom().contains(asset),
            },
    {
        match self.find_asset(asset) {
            Some(i) => {
                proof {
                    lemma_table_entry(*self, i as int);
                }
                Some(&self.records[i])
            },
            None => {
                proof {
                    lemma_table_absent(*self, asset);
                }
                None
            },
        }
    }

    /// Register metadata for a fresh asset key. Fails, and changes nothing,
    /// when the key was already registered.
    pub fn register(&mut self, record: MetadataRecord) -> (r: Result<(), RegistryError>)
        requires
            old(self).wf(),
        ensures
            final(self).wf(),
            match r {
                Ok(()) => !old(self).table().dom().contains(record.asset) && final(self).table()
                    == old(self).table().insert(record.asset, record@),
                Err(e) => e == RegistryError::DuplicateAsset
                    && old(self).table().dom().contains(record.asset)
                    && *final(self) == *old(self),
            },
    {
        match self.find_asset(record.asset) {
            Some(i) => {
                proof {
                    lemma_table_entry(*self, i as int);
                }
                Err(RegistryError::DuplicateAsset)
            },
            None => {
                proof {
                    lemma_table_absent(*self, record.asset);
                }
                let ghost pre = *self;
                let ghost rec_view = record@;
                let ghost asset = record.asset;
                self.records.push(record);
                proof {
                    lemma_table_push(pre, *self, asset, rec_view);
                }
                Ok(())
            },
        }
    }
}

/// A record's asset key is in the table, mapped to that record's metadata.
pub proof fn lemma_table_entry(reg: MetadataRegistry, i: int)
    requires
        reg.wf(),
        0 <= i < reg.records@.len(),
    ensures
        reg.table().dom().contains(reg.records@[i].asset),
        reg.table()[reg.records@[i].asset] == reg.records@[i]@,
{
    let a = reg.records@[i].asset;
    assert(exists|j: int| 0 <= j < reg.records@.len() && reg.records@[j].asset == a) by {
        assert(0 <= i < reg.records@.len() && reg.records@[i].asset == a);
    }
    let j = choose|j: int| 0 <= j < reg.records@.len() && reg.records@[j].asset == a;
    assert(j == i);
}

/// An asset key matched by no record is not in the table.
pub proof fn lemma_table_absent(reg: MetadataRegistry, a: u64)
    requires
        forall|i: int| 0 <= i < reg.records@.len() ==> reg.records@[i].asset != a,
    ensures
        !reg.table().dom().contains(a),
{
}

/// Appending a record for a fresh asset key inserts that key into the table
/// and touches nothing else.
proof fn lemma_table_push(
    pre: MetadataRegistry,
    post: MetadataRegistry,
    asset: u64,
    data: MetadataView,
)
    requires
        pre.wf(),
        forall|i: int| 0 <= i < pre.records@.len() ==> pre.records@[i].asset != asset,
        post.records@.len() == pre.records@.len() + 1,
        post.records@ == pre.records@.push(post.records@.last()),
        post.records@.last().asset == asset,
        post.records@.last()@ == data,
    ensures
        post.wf(),
        post.table() == pre.table().insert(asset, data),
{
    assert(post.wf());
    let n = pre.records@.len() as int;
    assert forall|a: u64|
        post.table().dom().contains(a) == pre.table().insert(asset, data).dom().contains(a) by {
        if a == asset {
            lemma_table_entry(post, n);
        } else {
            if pre.table().dom().contains(a) {
                let i = choose|i: int| 0 <= i < pre.records@.len() && pre.records@[i].asset == a;
                assert(post.records@[i].asset == a);
            }
            if post.table().dom().contains(a) {
                let i = choose|i: int| 0 <= i < post.records@.len() && post.records@[i].asset == a;
                assert(i < n);
                assert(pre.records@[i].asset == a);
            }
        }
    }
    assert forall|a: u64|
        post.table().dom().contains(a) implies post.table()[a] == pre.table().insert(
        asset,
        data,
    )[a] by {
        if a == asset {
            lemma_table_entry(post, n);
        } else {
            let i = choose|i: int| 0 <= i < post.records@.len() && post.records@[i].asset == a;
            assert(i < n);
            assert(pre.records@[i].asset == a);
            lemma_table_entry(post, i);
            lemma_table_entry(pre, i);
        }
    }
    assert(post.table() =~= pre.table().insert(asset, data));
}

} // verus!

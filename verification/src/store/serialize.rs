//! The transaction store: the registry of assets (one per symbol) and the
//! log of transactions, deduplicated by external identifier.
//!
//! Writing the store to disk (JSON) is left to the caller, which reads it
//! through [`TxStore::assets`] and [`TxStore::transactions`].
use vstd::prelude::*;

use crate::schema::{
    copy_opt, opt_view, transactions_view, Asset, AssetIdentifiers, AssetKind, AssetView,
    Transaction, TransactionView,
};
use crate::text::contains_text;

verus! {

/// Abstract value of a [`TxStore`].
pub struct TxStoreView<N> {
    /// The registered asset of each symbol.
    pub assets: Map<Seq<char>, AssetView>,
    /// The stored transactions, in the order they were added.
    pub transactions: Seq<TransactionView<N>>,
    /// External identifiers of the stored transactions.
    pub known_external_ids: Set<Seq<char>>,
}

/// The invariant of a store: the known identifiers are exactly those of
/// the stored transactions, no two stored transactions share an external
/// identifier, and every stored transaction's symbol is registered.
pub open spec fn store_wf<N>(s: TxStoreView<N>) -> bool {
    &&& forall|id: Seq<char>|
        #[trigger] s.known_external_ids.contains(id) <==> exists|i: int|
            0 <= i < s.transactions.len() && s.transactions[i].external_id == Some(id)
    &&& forall|i: int, j: int|
        0 <= i < j < s.transactions.len() && (#[trigger] s.transactions[i].external_id) is Some
            ==> s.transactions[i].external_id != #[trigger] s.transactions[j].external_id
    &&& forall|i: int|
        0 <= i < s.transactions.len() ==> s.assets.contains_key(
            (#[trigger] s.transactions[i]).asset.symbol,
        )
    &&& forall|k: Seq<char>| #[trigger] s.assets.contains_key(k) ==> s.assets[k].symbol == k
}

/// The registry after looking up `a.symbol`: an asset already registered
/// for the symbol stays; otherwise `a` is registered.
pub open spec fn register<N>(s: TxStoreView<N>, a: AssetView) -> Map<Seq<char>, AssetView> {
    if s.assets.contains_key(a.symbol) {
        s.assets
    } else {
        s.assets.insert(a.symbol, a)
    }
}

/// `tx` has an external identifier that `s` already knows.
pub open spec fn is_known_in<N>(s: TxStoreView<N>, tx: TransactionView<N>) -> bool {
    tx.external_id matches Some(id) && s.known_external_ids.contains(id)
}

/// Adding one transaction: skipped when its external identifier is
/// already known; otherwise its asset is registered (or the registered
/// one reused), it is appended carrying the registered asset, and its
/// identifier becomes known.
pub open spec fn add_one<N>(s: TxStoreView<N>, tx: TransactionView<N>) -> TxStoreView<N> {
    if is_known_in(s, tx) {
        s
    } else {
        let assets = register(s, tx.asset);
        TxStoreView {
            assets: assets,
            transactions: s.transactions.push(tx.with_asset(assets[tx.asset.symbol])),
            known_external_ids: match tx.external_id {
                Some(id) => s.known_external_ids.insert(id),
                None => s.known_external_ids,
            },
        }
    }
}

/// Adding a batch: one transaction after the other, in order.
pub open spec fn add_all<N>(s: TxStoreView<N>, txs: Seq<TransactionView<N>>) -> TxStoreView<N>
    decreases txs.len(),
{
    if txs.len() == 0 {
        s
    } else {
        add_one(add_all(s, txs.drop_last()), txs.last())
    }
}

/// The invariant survives any change of the registry that keeps every
/// registered symbol registered.
pub proof fn lemma_wf_registry_grows<N>(old: TxStoreView<N>, new: TxStoreView<N>)
    requires
        store_wf(old),
        new.transactions == old.transactions,
        new.known_external_ids == old.known_external_ids,
        forall|k: Seq<char>| old.assets.contains_key(k) ==> new.assets.contains_key(k),
        forall|k: Seq<char>| #[trigger] new.assets.contains_key(k) ==> new.assets[k].symbol == k,
    ensures
        store_wf(new),
{
    assert forall|id: Seq<char>| #[trigger] new.known_external_ids.contains(id) <==> exists|i: int|
        0 <= i < new.transactions.len() && new.transactions[i].external_id == Some(id) by {
        assert(old.known_external_ids.contains(id) <==> exists|i: int|
            0 <= i < old.transactions.len() && old.transactions[i].external_id == Some(id));
    }
    assert forall|i: int| 0 <= i < new.transactions.len() implies new.assets.contains_key(
        (#[trigger] new.transactions[i]).asset.symbol,
    ) by {
        assert(old.assets.contains_key(old.transactions[i].asset.symbol));
    }
}

/// Adding a transaction keeps the invariant of the store.
pub proof fn lemma_add_one_keeps_wf<N>(s: TxStoreView<N>, tx: TransactionView<N>)
    requires
        store_wf(s),
    ensures
        store_wf(add_one(s, tx)),
{
    if is_known_in(s, tx) {
    } else {
        let n = add_one(s, tx);
        let len = s.transactions.len() as int;
        assert(n.transactions[len] == tx.with_asset(register(s, tx.asset)[tx.asset.symbol]));
        assert forall|id: Seq<char>| #[trigger] n.known_external_ids.contains(id) <==> exists|i: int|
            0 <= i < n.transactions.len() && n.transactions[i].external_id == Some(id) by {
            if s.known_external_ids.contains(id) {
                let i = choose|i: int|
                    0 <= i < s.transactions.len() && s.transactions[i].external_id == Some(id);
                assert(n.transactions[i] == s.transactions[i]);
            }
            if exists|i: int| 0 <= i < n.transactions.len() && n.transactions[i].external_id == Some(id) {
                let i = choose|i: int|
                    0 <= i < n.transactions.len() && n.transactions[i].external_id == Some(id);
                if i < len {
                    assert(n.transactions[i] == s.transactions[i]);
                }
            }
        }
        assert forall|i: int, j: int|
            0 <= i < j < n.transactions.len() && (#[trigger] n.transactions[i].external_id) is Some
                implies n.transactions[i].external_id != #[trigger] n.transactions[j].external_id by {
            assert(n.transactions[i] == s.transactions[i]);
            if j < len {
                assert(n.transactions[j] == s.transactions[j]);
            } else {
                let id = n.transactions[i].external_id->Some_0;
                assert(s.known_external_ids.contains(id));
            }
        }
        assert forall|i: int| 0 <= i < n.transactions.len() implies n.assets.contains_key(
            (#[trigger] n.transactions[i]).asset.symbol,
        ) by {
            if i < len {
                assert(n.transactions[i] == s.transactions[i]);
                assert(s.assets.contains_key(s.transactions[i].asset.symbol));
            }
        }
    }
}

/// Registry of assets and log of transactions.
pub struct TxStore<N> {
    assets: Vec<Asset>,
    transactions: Vec<Transaction<N>>,
    known_external_ids: Vec<String>,
}

pub open spec fn assets_map(v: Seq<Asset>) -> Map<Seq<char>, AssetView> {
    Map::new(
        |s: Seq<char>| exists|i: int| 0 <= i < v.len() && v[i].symbol@ == s,
        |s: Seq<char>| v[choose|i: int| 0 <= i < v.len() && v[i].symbol@ == s]@,
    )
}

pub open spec fn ids_set(v: Seq<String>) -> Set<Seq<char>> {
    Set::new(|s: Seq<char>| exists|i: int| 0 <= i < v.len() && v[i]@ == s)
}

pub open spec fn distinct_symbols(v: Seq<Asset>) -> bool {
    forall|i: int, j: int| 0 <= i < j < v.len() ==> #[trigger] v[i].symbol@ != #[trigger] v[j].symbol@
}

proof fn lemma_assets_map_at(v: Seq<Asset>, i: int)
    requires
        distinct_symbols(v),
        0 <= i < v.len(),
    ensures
        assets_map(v).contains_key(v[i].symbol@),
        assets_map(v)[v[i].symbol@] == v[i]@,
{
    let s = v[i].symbol@;
    let c = choose|c: int| 0 <= c < v.len() && v[c].symbol@ == s;
    if c < i {
    } else if c > i {
    }
}

impl<N> View for TxStore<N> {
    type V = TxStoreView<N>;

    closed spec fn view(&self) -> TxStoreView<N> {
        TxStoreView {
            assets: assets_map(self.assets@),
            transactions: transactions_view(self.transactions@),
            known_external_ids: ids_set(self.known_external_ids@),
        }
    }
}

/// Position of the asset registered for `symbol`, if any.
fn find_asset(assets: &Vec<Asset>, symbol: &str) -> (r: Option<usize>)
    ensures
        match r {
            Some(i) => i < assets@.len() && assets@[i as int].symbol@ == symbol@,
            None => forall|i: int| 0 <= i < assets@.len() ==> assets@[i].symbol@ != symbol@,
        },
{
    let target = symbol.to_owned();
    let mut i: usize = 0;
    while i < assets.len()
        invariant
            target@ == symbol@,
            i <= assets@.len(),
            forall|j: int| 0 <= j < i ==> assets@[j].symbol@ != symbol@,
        decreases assets@.len() - i,
    {
        if assets[i].symbol == target {
            return Some(i);
        }
        i = i + 1;
    }
    None
}

impl<N> TxStore<N> {
    /// Well-formedness: distinct registered symbols and [`store_wf`].
    #[verifier::type_invariant]
    closed spec fn wf(self) -> bool {
        &&& distinct_symbols(self.assets@)
        &&& store_wf(self@)
    }

    /// An empty store.
    pub fn new() -> (r: TxStore<N>)
        ensures
            store_wf(r@),
            r@.assets == Map::<Seq<char>, AssetView>::empty(),
            r@.transactions == Seq::<TransactionView<N>>::empty(),
            r@.known_external_ids == Set::<Seq<char>>::empty(),
    {
        let r = TxStore { assets: Vec::new(), transactions: Vec::new(), known_external_ids: Vec::new() };
        assert(r@.assets =~= Map::<Seq<char>, AssetView>::empty());
        assert(r@.transactions =~= Seq::<TransactionView<N>>::empty());
        assert(r@.known_external_ids =~= Set::<Seq<char>>::empty());
        r
    }

    /// The stored transactions, in the order they were added.
    pub fn transactions(&self) -> (r: &Vec<Transaction<N>>)
        ensures
            transactions_view(r@) == self@.transactions,
    {
        &self.transactions
    }

    /// The registered assets, one per symbol.
    pub fn assets(&self) -> (r: &Vec<Asset>)
        ensures
            distinct_symbols(r@),
            assets_map(r@) == self@.assets,
    {
        proof {
            use_type_invariant(self);
        }
        &self.assets
    }

    /// The asset registered for `symbol`.
    pub fn asset(&self, symbol: &str) -> (r: Option<&Asset>)
        ensures
            match r {
                Some(a) => self@.assets.contains_key(symbol@) && a@ == self@.assets[symbol@],
                None => !self@.assets.contains_key(symbol@),
            },
    {
        proof {
            use_type_invariant(self);
        }
        match find_asset(&self.assets, symbol) {
            Some(i) => {
                proof {
                    lemma_assets_map_at(self.assets@, i as int);
                }
                Some(&self.assets[i])
            },
            None => None,
        }
    }

    /// Whether a transaction with external identifier `id` is stored.
    pub fn is_known(&self, id: &str) -> (r: bool)
        ensures
            r == self@.known_external_ids.contains(id@),
    {
        contains_text(self.known_external_ids.as_slice(), id)
    }

    /// The asset registered for `symbol`; when there is none, an asset
    /// with the given fields is registered and returned. An existing
    /// registration is never changed.
    pub fn find_or_create_asset(
        &mut self,
        symbol: &str,
        name: &str,
        kind: AssetKind,
        ref_currency: &str,
        identifiers: AssetIdentifiers,
    ) -> (r: Asset)
        ensures
            store_wf(final(self)@),
            final(self)@.transactions == old(self)@.transactions,
            final(self)@.known_external_ids == old(self)@.known_external_ids,
            old(self)@.assets.contains_key(symbol@) ==> r@ == old(self)@.assets[symbol@]
                && final(self)@.assets == old(self)@.assets,
            !old(self)@.assets.contains_key(symbol@) ==> r@ == (AssetView {
                symbol: symbol@,
                name: name@,
                kind: kind,
                ref_currency: ref_currency@,
                identifiers: identifiers@,
            }) && final(self)@.assets == old(self)@.assets.insert(symbol@, r@),
    {
        proof {
            use_type_invariant(&*self);
        }
        let ghost old_view = self@;
        match find_asset(&self.assets, symbol) {
            Some(i) => {
                proof {
                    lemma_assets_map_at(self.assets@, i as int);
                }
                self.assets[i].copy()
            },
            None => {
                let asset = Asset {
                    symbol: symbol.to_owned(),
                    name: name.to_owned(),
                    kind,
                    ref_currency: ref_currency.to_owned(),
                    identifiers,
                };
                let r = asset.copy();
                let mut store = TxStore::new();
                std::mem::swap(self, &mut store);
                let TxStore { mut assets, transactions, known_external_ids } = store;
                let ghost old_assets = assets@;
                assets.push(asset);
                proof {
                    let nv = assets@;
                    let n = old_assets.len() as int;
                    assert forall|a: int, b: int| 0 <= a < b < nv.len() implies #[trigger] nv[a].symbol@
                        != #[trigger] nv[b].symbol@ by {
                        assert(nv[a] == old_assets[a]);
                        if b < n {
                            assert(nv[b] == old_assets[b]);
                        }
                    }
                    let target = assets_map(old_assets).insert(symbol@, r@);
                    assert forall|s: Seq<char>| #[trigger] assets_map(nv).contains_key(s)
                        == target.contains_key(s) by {
                        if assets_map(nv).contains_key(s) {
                            let c = choose|c: int| 0 <= c < nv.len() && nv[c].symbol@ == s;
                            if c < n {
                                assert(nv[c] == old_assets[c]);
                            }
                        }
                        if target.contains_key(s) && s != symbol@ {
                            let c = choose|c: int| 0 <= c < old_assets.len() && old_assets[c].symbol@ == s;
                            assert(nv[c] == old_assets[c]);
                        }
                        if s == symbol@ {
                            assert(nv[n].symbol@ == s);
                        }
                    }
                    assert forall|s: Seq<char>| assets_map(nv).contains_key(s) implies #[trigger] assets_map(
                        nv,
                    )[s] == target[s] by {
                        let c = choose|c: int| 0 <= c < nv.len() && nv[c].symbol@ == s;
                        lemma_assets_map_at(nv, c);
                        if c < n {
                            assert(nv[c] == old_assets[c]);
                            lemma_assets_map_at(old_assets, c);
                        }
                    }
                    assert(assets_map(nv) =~= target);
                    lemma_wf_registry_grows(
                        old_view,
                        TxStoreView {
                            assets: assets_map(nv),
                            transactions: transactions_view(transactions@),
                            known_external_ids: ids_set(known_external_ids@),
                        },
                    );
                }
                *self = TxStore { assets, transactions, known_external_ids };
                r
            },
        }
    }

    /// Adds `new_transactions` in order (see [`add_one`]): a transaction
    /// whose external identifier is already known, stored before or
    /// earlier in the same batch, is skipped; the others are appended with
    /// the asset registered for their symbol. Returns how many were
    /// appended.
    pub fn add_transactions(&mut self, new_transactions: Vec<Transaction<N>>) -> (r: usize)
        ensures
            store_wf(final(self)@),
            final(self)@ == add_all(old(self)@, transactions_view(new_transactions@)),
            r == final(self)@.transactions.len() - old(self)@.transactions.len(),
    {
        let ghost start = self@;
        let ghost all = transactions_view(new_transactions@);
        let total: usize = new_transactions.len();
        proof {
            assert(all.take(all.len() as int) =~= all);
        }
        let mut added: usize = 0;
        proof {
            use_type_invariant(&*self);
        }
        for tx in it: new_transactions
            invariant
                store_wf(self@),
                it.seq() == new_transactions@,
                all == transactions_view(new_transactions@),
                all.len() == new_transactions@.len(),
                all.len() <= usize::MAX,
                all.take(all.len() as int) == all,
                self@ == add_all(start, all.take(it.index() as int)),
                added as int == self@.transactions.len() - start.transactions.len(),
                added <= it.index(),
        {
            let ghost prev = self@;
            let ghost k = it.index() as int;
            proof {
                assert(all.take(k + 1).drop_last() =~= all.take(k));
                assert(all.take(k + 1).last() == tx@);
                lemma_add_one_keeps_wf(prev, tx@);
            }
            let known = match &tx.external_id {
                Some(id) => self.is_known(id.as_str()),
                None => false,
            };
            if !known {
                let local = self.find_or_create_asset(
                    tx.asset.symbol.as_str(),
                    tx.asset.name.as_str(),
                    tx.asset.kind,
                    tx.asset.ref_currency.as_str(),
                    tx.asset.identifiers.copy(),
                );
                let ghost mid = self@;
                let ext = copy_opt(&tx.external_id);
                let mut stored = tx;
                stored.asset = local;
                proof {
                    assert(mid.assets == register(prev, tx@.asset));
                    assert(stored@ == tx@.with_asset(mid.assets[tx@.asset.symbol]));
                }
                let mut store = TxStore::new();
                std::mem::swap(self, &mut store);
                proof {
                    use_type_invariant(&store);
                }
                let TxStore { assets, mut transactions, mut known_external_ids } = store;
                let ghost kv0 = known_external_ids@;
                transactions.push(stored);
                match ext {
                    Some(id) => {
                        known_external_ids.push(id);
                    },
                    None => {},
                }
                proof {
                    let target = add_one(prev, tx@);
                    let nv = TxStoreView {
                        assets: assets_map(assets@),
                        transactions: transactions_view(transactions@),
                        known_external_ids: ids_set(known_external_ids@),
                    };
                    assert(nv.transactions =~= target.transactions);
                    assert(nv.known_external_ids =~= target.known_external_ids) by {
                        let v = known_external_ids@;
                        assert forall|id: Seq<char>| #[trigger] nv.known_external_ids.contains(id)
                            == target.known_external_ids.contains(id) by {
                            if nv.known_external_ids.contains(id) {
                                let c = choose|c: int| 0 <= c < v.len() && v[c]@ == id;
                                if c < kv0.len() {
                                    assert(v[c] == kv0[c]);
                                }
                            }
                            if prev.known_external_ids.contains(id) {
                                let c = choose|c: int| 0 <= c < kv0.len() && kv0[c]@ == id;
                                assert(v[c] == kv0[c]);
                            }
                            if tx@.external_id == Some(id) {
                                assert(v[kv0.len() as int]@ == id);
                            }
                        }
                    }
                    assert(nv == target);
                }
                *self = TxStore { assets, transactions, known_external_ids };
                added = added + 1;
            }
        }
        added
    }

    /// Sets the ticker of the asset registered for `symbol`; `false` (and
    /// no change) when no asset is registered for it. Transactions keep
    /// the copy of the asset they were stored with.
    pub fn set_ticker(&mut self, symbol: &str, ticker: String) -> (r: bool)
        ensures
            store_wf(final(self)@),
            r == old(self)@.assets.contains_key(symbol@),
            final(self)@.transactions == old(self)@.transactions,
            final(self)@.known_external_ids == old(self)@.known_external_ids,
            !r ==> final(self)@.assets == old(self)@.assets,
            r ==> final(self)@.assets == old(self)@.assets.insert(
                symbol@,
                AssetView {
                    identifiers: crate::schema::AssetIdentifiersView {
                        isin: old(self)@.assets[symbol@].identifiers.isin,
                        ticker: Some(ticker@),
                    },
                    ..old(self)@.assets[symbol@]
                },
            ),
    {
        proof {
            use_type_invariant(&*self);
        }
        let ghost old_view = self@;
        match find_asset(&self.assets, symbol) {
            Some(i) => {
                let ghost old_assets = self.assets@;
                proof {
                    lemma_assets_map_at(old_assets, i as int);
                }
                let a = &self.assets[i];
                let updated = Asset {
                    symbol: a.symbol.clone(),
                    name: a.name.clone(),
                    kind: a.kind,
                    ref_currency: a.ref_currency.clone(),
                    identifiers: AssetIdentifiers { isin: copy_opt(&a.identifiers.isin), ticker: Some(ticker) },
                };
                let mut store = TxStore::new();
                std::mem::swap(self, &mut store);
                let TxStore { mut assets, transactions, known_external_ids } = store;
                assets.set(i, updated);
                proof {
                    let nv = assets@;
                    assert forall|a: int, b: int| 0 <= a < b < nv.len() implies #[trigger] nv[a].symbol@
                        != #[trigger] nv[b].symbol@ by {
                        assert(nv[a].symbol@ == old_assets[a].symbol@);
                        assert(nv[b].symbol@ == old_assets[b].symbol@);
                    }
                    let target = assets_map(old_assets).insert(symbol@, nv[i as int]@);
                    assert forall|s: Seq<char>| #[trigger] assets_map(nv).contains_key(s)
                        == target.contains_key(s) by {
                        if assets_map(nv).contains_key(s) {
                            let c = choose|c: int| 0 <= c < nv.len() && nv[c].symbol@ == s;
                            assert(old_assets[c].symbol@ == s);
                        }
                        if target.contains_key(s) {
                            if s == symbol@ {
                                assert(nv[i as int].symbol@ == s);
                            } else {
                                let c = choose|c: int| 0 <= c < old_assets.len() && old_assets[c].symbol@ == s;
                                assert(nv[c].symbol@ == s);
                            }
                        }
                    }
                    assert forall|s: Seq<char>| assets_map(nv).contains_key(s) implies #[trigger] assets_map(
                        nv,
                    )[s] == target[s] by {
                        let c = choose|c: int| 0 <= c < nv.len() && nv[c].symbol@ == s;
                        lemma_assets_map_at(nv, c);
                        if c != i {
                            assert(nv[c] == old_assets[c]);
                            lemma_assets_map_at(old_assets, c);
                        }
                    }
                    assert(assets_map(nv) =~= target);
                    lemma_wf_registry_grows(
                        old_view,
                        TxStoreView {
                            assets: assets_map(nv),
                            transactions: transactions_view(transactions@),
                            known_external_ids: ids_set(known_external_ids@),
                        },
                    );
                }
                *self = TxStore { assets, transactions, known_external_ids };
                true
            },
            None => false,
        }
    }
}

} // verus!

verus! {

/// Adding a batch keeps the invariant of the store: known identifiers
/// are those of the stored transactions, stored transactions never share
/// an external identifier, and every stored symbol is registered.
pub proof fn lemma_add_all_keeps_wf<N>(s: TxStoreView<N>, txs: Seq<TransactionView<N>>)
    requires
        store_wf(s),
    ensures
        store_wf(add_all(s, txs)),
    decreases txs.len(),
{
    if txs.len() > 0 {
        lemma_add_all_keeps_wf(s, txs.drop_last());
        lemma_add_one_keeps_wf(add_all(s, txs.drop_last()), txs.last());
    }
}

/// A registration is never changed by adding transactions: the first
/// asset registered for a symbol stays, and known identifiers stay known.
pub proof fn lemma_add_all_keeps_registrations<N>(s: TxStoreView<N>, txs: Seq<TransactionView<N>>)
    ensures
        forall|k: Seq<char>|
            #[trigger] s.assets.contains_key(k) ==> add_all(s, txs).assets.contains_key(k)
                && add_all(s, txs).assets[k] == s.assets[k],
        forall|id: Seq<char>|
            #[trigger] s.known_external_ids.contains(id) ==> add_all(s, txs).known_external_ids.contains(id),
        s.transactions.is_prefix_of(add_all(s, txs).transactions),
    decreases txs.len(),
{
    if txs.len() > 0 {
        lemma_add_all_keeps_registrations(s, txs.drop_last());
        let p = add_all(s, txs.drop_last());
        assert(p.transactions.is_prefix_of(add_one(p, txs.last()).transactions));
    }
}

/// After a batch is added, the external identifier of each of its
/// transactions is known.
pub proof fn lemma_add_all_knows_batch<N>(s: TxStoreView<N>, txs: Seq<TransactionView<N>>)
    ensures
        forall|i: int|
            0 <= i < txs.len() && (#[trigger] txs[i]).external_id is Some ==> add_all(
                s,
                txs,
            ).known_external_ids.contains(txs[i].external_id->Some_0),
    decreases txs.len(),
{
    if txs.len() > 0 {
        let init = txs.drop_last();
        lemma_add_all_knows_batch(s, init);
        let p = add_all(s, init);
        assert forall|i: int| 0 <= i < txs.len() && (#[trigger] txs[i]).external_id is Some implies add_all(
            s,
            txs,
        ).known_external_ids.contains(txs[i].external_id->Some_0) by {
            if i < txs.len() - 1 {
                assert(init[i] == txs[i]);
                assert(p.known_external_ids.contains(init[i].external_id->Some_0));
            }
        }
    }
}

/// Adding transactions whose identifiers are all known changes nothing.
pub proof fn lemma_add_all_known_is_noop<N>(s: TxStoreView<N>, txs: Seq<TransactionView<N>>)
    requires
        forall|i: int|
            0 <= i < txs.len() ==> is_known_in(s, #[trigger] txs[i]),
    ensures
        add_all(s, txs) == s,
    decreases txs.len(),
{
    if txs.len() > 0 {
        let init = txs.drop_last();
        assert forall|i: int| 0 <= i < init.len() implies is_known_in(s, #[trigger] init[i]) by {
            assert(init[i] == txs[i]);
        }
        lemma_add_all_known_is_noop(s, init);
        assert(txs[txs.len() - 1] == txs.last());
    }
}

/// Importing the same batch twice is importing it once, when every
/// transaction of the batch has an external identifier: the second import
/// adds nothing.
pub proof fn lemma_reimport_adds_nothing<N>(s: TxStoreView<N>, txs: Seq<TransactionView<N>>)
    requires
        forall|i: int| 0 <= i < txs.len() ==> (#[trigger] txs[i]).external_id is Some,
    ensures
        add_all(add_all(s, txs), txs) == add_all(s, txs),
{
    let t = add_all(s, txs);
    lemma_add_all_knows_batch(s, txs);
    assert forall|i: int| 0 <= i < txs.len() implies is_known_in(t, #[trigger] txs[i]) by {
        assert(txs[i].external_id is Some);
    }
    lemma_add_all_known_is_noop(t, txs);
}

/// Every transaction appended by [`add_one`] carries the asset registered
/// for its symbol.
pub proof fn lemma_appended_carries_registered_asset<N>(s: TxStoreView<N>, tx: TransactionView<N>)
    requires
        !is_known_in(s, tx),
    ensures
        add_one(s, tx).transactions.len() == s.transactions.len() + 1,
        add_one(s, tx).transactions.last().asset == add_one(s, tx).assets[tx.asset.symbol],
        add_one(s, tx).assets.contains_key(tx.asset.symbol),
        s.assets.contains_key(tx.asset.symbol) ==> add_one(s, tx).transactions.last().asset
            == s.assets[tx.asset.symbol],
{
}

} // verus!

//! The part of the index state that the BRC-20 and swap rules read and write,
//! table by table, with the lookups and updates the rules use.

use vstd::prelude::*;
use crate::address::{UtxoAddress, OwnerView, SatPoint};
use crate::entry::{
    BRC20TickerInfo, TickerInfoView, BRC20Balance, BalanceView, BRC20TransferAsset, TransferAssetView,
    BRC20ModuleInfo, ModuleInfoView, BRC20ModuleAddressTokenBalanceKey, BRC20ModuleTokenBalance,
    TokenBalanceView, BRC20ModulePoolPair, BRC20ModuleSwapPoolPairBalanceKey, BRC20ModuleSwapPoolPairBalance,
    PoolView, BRC20ModuleAddressLPTokenBalanceKey, BRC20ModuleLPTokenBalance, LpView, AddressTickerKey,
    AddressTickerSatPointKey,
};
use crate::operation::{Commit, CommitView, Withdraw, WithdrawView};
use crate::table::Table;
use crate::ticker::{BRC20Ticker, BRC20LowerCaseTicker, unicode_lowercase};

verus! {

/// The state as the contracts see it: one map per table.
pub ghost struct StateView {
    /// Ticker descriptions by lowercase name.
    pub ticker_infos: Map<Seq<char>, TickerInfoView>,
    /// Balances by holder and lowercase ticker name.
    pub balances: Map<(OwnerView, Seq<char>), BalanceView>,
    /// Transferable inscriptions by location.
    pub transfer_assets: Map<SatPoint, TransferAssetView>,
    /// Which holder and ticker each transferable inscription belongs to.
    pub asset_index: Map<(OwnerView, Seq<char>, SatPoint), ()>,
    /// Swap modules by id.
    pub module_infos: Map<Seq<char>, ModuleInfoView>,
    /// Module balances by holder, module id and lowercase ticker name.
    pub module_balances: Map<(OwnerView, Seq<char>, Seq<char>), TokenBalanceView>,
    /// Pools by module id and pool pair.
    pub pools: Map<(Seq<char>, Seq<u8>), PoolView>,
    /// Liquidity shares by module id, holder and pool pair.
    pub lp_balances: Map<(Seq<char>, OwnerView, Seq<u8>), LpView>,
    /// Commits inscribed and not yet applied, by inscription id.
    pub commits: Map<Seq<char>, CommitView>,
    /// Withdrawals inscribed and not yet moved, by location.
    pub withdraws: Map<SatPoint, WithdrawView>,
}

/// The tables the rules work on.
pub struct SwapState {
    ticker_infos: Table<BRC20LowerCaseTicker, BRC20TickerInfo>,
    balances: Table<AddressTickerKey, BRC20Balance>,
    transfer_assets: Table<SatPoint, BRC20TransferAsset>,
    asset_index: Table<AddressTickerSatPointKey, ()>,
    module_infos: Table<String, BRC20ModuleInfo>,
    module_balances: Table<BRC20ModuleAddressTokenBalanceKey, BRC20ModuleTokenBalance>,
    pools: Table<BRC20ModuleSwapPoolPairBalanceKey, BRC20ModuleSwapPoolPairBalance>,
    lp_balances: Table<BRC20ModuleAddressLPTokenBalanceKey, BRC20ModuleLPTokenBalance>,
    commits: Table<String, Commit>,
    withdraws: Table<SatPoint, Withdraw>,
}

impl View for SwapState {
    type V = StateView;

    closed spec fn view(&self) -> StateView {
        StateView {
            ticker_infos: self.ticker_infos@,
            balances: self.balances@,
            transfer_assets: self.transfer_assets@,
            asset_index: self.asset_index@,
            module_infos: self.module_infos@,
            module_balances: self.module_balances@,
            pools: self.pools@,
            lp_balances: self.lp_balances@,
            commits: self.commits@,
            withdraws: self.withdraws@,
        }
    }
}

/// Every ticker description has at most 18 decimal places.
pub open spec fn decimals_ok(m: Map<Seq<char>, TickerInfoView>) -> bool {
    forall|k: Seq<char>| #[trigger] m.contains_key(k) ==> m[k].decimals <= 18
}

/// The key of a ticker: its name in lowercase.
pub open spec fn tkey(t: Seq<char>) -> Seq<char> {
    unicode_lowercase(t)
}

impl SwapState {
    /// Every table holds each key at most once.
    pub closed spec fn wf(&self) -> bool {
        &&& self.ticker_infos.wf()
        &&& decimals_ok(self.ticker_infos@)
        &&& self.balances.wf()
        &&& self.transfer_assets.wf()
        &&& self.asset_index.wf()
        &&& self.module_infos.wf()
        &&& self.module_balances.wf()
        &&& self.pools.wf()
        &&& self.lp_balances.wf()
        &&& self.commits.wf()
        &&& self.withdraws.wf()
    }

    /// Every ticker description has at most 18 decimal places.
    pub proof fn lemma_decimals(&self)
        requires
            self.wf(),
        ensures
            decimals_ok(self@.ticker_infos),
    {
    }

    /// Empty tables.
    pub fn new() -> (r: SwapState)
        ensures
            r.wf(),
            r@.ticker_infos == Map::<Seq<char>, TickerInfoView>::empty(),
            r@.balances == Map::<(OwnerView, Seq<char>), BalanceView>::empty(),
            r@.transfer_assets == Map::<SatPoint, TransferAssetView>::empty(),
            r@.asset_index == Map::<(OwnerView, Seq<char>, SatPoint), ()>::empty(),
            r@.module_infos == Map::<Seq<char>, ModuleInfoView>::empty(),
            r@.module_balances == Map::<(OwnerView, Seq<char>, Seq<char>), TokenBalanceView>::empty(),
            r@.pools == Map::<(Seq<char>, Seq<u8>), PoolView>::empty(),
            r@.lp_balances == Map::<(Seq<char>, OwnerView, Seq<u8>), LpView>::empty(),
            r@.commits == Map::<Seq<char>, CommitView>::empty(),
            r@.withdraws == Map::<SatPoint, WithdrawView>::empty(),
    {
        SwapState {
            ticker_infos: Table::new(),
            balances: Table::new(),
            transfer_assets: Table::new(),
            asset_index: Table::new(),
            module_infos: Table::new(),
            module_balances: Table::new(),
            pools: Table::new(),
            lp_balances: Table::new(),
            commits: Table::new(),
            withdraws: Table::new(),
        }
    }

    /// The description of a ticker (looked up by its lowercase name).
    pub fn load_brc20_ticker_info(&self, ticker: &BRC20Ticker) -> (r: Option<BRC20TickerInfo>)
        requires
            self.wf(),
        ensures
            match r {
                Some(i) => self@.ticker_infos.contains_key(tkey(ticker@)) && i@ == self@.ticker_infos[tkey(ticker@)],
                None => !self@.ticker_infos.contains_key(tkey(ticker@)),
            },
            decimals_ok(self@.ticker_infos),
    {
        let k = ticker.to_lowercase();
        match self.ticker_infos.get(&k) {
            Some(i) => Some(i.copy()),
            None => None,
        }
    }

    /// Records the description of a ticker (of at most 18 decimal places).
    pub fn update_brc20_ticker_info(&mut self, ticker: &BRC20Ticker, info: BRC20TickerInfo)
        requires
            old(self).wf(),
            info.decimals <= 18,
        ensures
            final(self).wf(),
            final(self)@ == (StateView {
                ticker_infos: old(self)@.ticker_infos.insert(tkey(ticker@), info@),
                ..old(self)@
            }),
    {
        let k = ticker.to_lowercase();
        self.ticker_infos.insert(k, info);
    }

    /// A holder's balance of a ticker.
    pub fn load_brc20_balance(&self, address: &UtxoAddress, ticker: &BRC20Ticker) -> (r: Option<BRC20Balance>)
        requires
            self.wf(),
        ensures
            match r {
                Some(b) => self@.balances.contains_key((address@, tkey(ticker@)))
                    && b@ == self@.balances[(address@, tkey(ticker@))],
                None => !self@.balances.contains_key((address@, tkey(ticker@))),
            },
    {
        let k = AddressTickerKey::new(address, ticker);
        match self.balances.get(&k) {
            Some(b) => Some(b.copy()),
            None => None,
        }
    }

    /// Records a holder's balance of a ticker.
    pub fn update_brc20_balance(&mut self, address: &UtxoAddress, ticker: &BRC20Ticker, balance: BRC20Balance)
        requires
            old(self).wf(),
        ensures
            final(self).wf(),
            final(self)@ == (StateView {
                balances: old(self)@.balances.insert((address@, tkey(ticker@)), balance@),
                ..old(self)@
            }),
    {
        let k = AddressTickerKey::new(address, ticker);
        self.balances.insert(k, balance);
    }

    /// The transferable inscription at a location.
    pub fn load_brc20_transferring_asset(&self, satpoint: SatPoint) -> (r: Option<BRC20TransferAsset>)
        requires
            self.wf(),
        ensures
            match r {
                Some(a) => self@.transfer_assets.contains_key(satpoint) && a@ == self@.transfer_assets[satpoint],
                None => !self@.transfer_assets.contains_key(satpoint),
            },
    {
        match self.transfer_assets.get(&satpoint) {
            Some(a) => Some(BRC20TransferAsset {
                ticker: a.ticker.copy(),
                amount: a.amount,
                owner: a.owner.copy(),
                sequence_number: a.sequence_number,
                inscription_number: a.inscription_number,
                inscription_id: a.inscription_id,
            }),
            None => None,
        }
    }

    /// Forgets the transferable inscription at a location, and its index entry.
    pub fn remove_brc20_transferring_asset(&mut self, satpoint: SatPoint)
        requires
            old(self).wf(),
        ensures
            final(self).wf(),
            old(self)@.transfer_assets.contains_key(satpoint) ==> final(self)@ == (StateView {
                transfer_assets: old(self)@.transfer_assets.remove(satpoint),
                asset_index: old(self)@.asset_index.remove((
                    old(self)@.transfer_assets[satpoint].owner,
                    tkey(old(self)@.transfer_assets[satpoint].ticker),
                    satpoint,
                )),
                ..old(self)@
            }),
            !old(self)@.transfer_assets.contains_key(satpoint) ==> final(self)@ == old(self)@,
    {
        let found = match self.transfer_assets.get(&satpoint) {
            Some(a) => Some(AddressTickerSatPointKey {
                address: a.owner.copy(),
                ticker: a.ticker.to_lowercase(),
                satpoint,
            }),
            None => None,
        };
        match found {
            Some(k) => {
                self.transfer_assets.remove(&satpoint);
                self.asset_index.remove(&k);
            },
            None => {},
        }
    }

    /// Records a transferable inscription of a holder at a location.
    pub fn insert_brc20_transferring_asset(
        &mut self,
        address: &UtxoAddress,
        ticker: &BRC20Ticker,
        satpoint: SatPoint,
        asset: BRC20TransferAsset,
    )
        requires
            old(self).wf(),
        ensures
            final(self).wf(),
            final(self)@ == (StateView {
                transfer_assets: old(self)@.transfer_assets.insert(satpoint, asset@),
                asset_index: old(self)@.asset_index.insert((address@, tkey(ticker@), satpoint), ()),
                ..old(self)@
            }),
    {
        self.transfer_assets.insert(satpoint, asset);
        let k = AddressTickerSatPointKey { address: address.copy(), ticker: ticker.to_lowercase(), satpoint };
        self.asset_index.insert(k, ());
    }

    /// A module with this id has been deployed.
    pub fn is_module_already_deployed(&self, module_id: &String) -> (r: bool)
        requires
            self.wf(),
        ensures
            r == self@.module_infos.contains_key(module_id@),
    {
        self.module_infos.contains(module_id)
    }

    /// Records a module.
    pub fn insert_brc20_module_info(&mut self, module_id: &String, module_info: BRC20ModuleInfo)
        requires
            old(self).wf(),
        ensures
            final(self).wf(),
            final(self)@ == (StateView {
                module_infos: old(self)@.module_infos.insert(module_id@, module_info@),
                ..old(self)@
            }),
    {
        self.module_infos.insert(module_id.clone(), module_info);
    }

    /// A module.
    pub fn load_brc20_module_info(&self, module_id: &String) -> (r: Option<BRC20ModuleInfo>)
        requires
            self.wf(),
        ensures
            match r {
                Some(m) => self@.module_infos.contains_key(module_id@) && m@ == self@.module_infos[module_id@],
                None => !self@.module_infos.contains_key(module_id@),
            },
    {
        match self.module_infos.get(module_id) {
            Some(m) => Some(m.copy()),
            None => None,
        }
    }

    /// A holder's balances of a ticker in a module.
    pub fn load_brc20_module_address_token_balance(
        &self,
        address: &UtxoAddress,
        module_id: &String,
        ticker: &BRC20Ticker,
    ) -> (r: Option<BRC20ModuleTokenBalance>)
        requires
            self.wf(),
        ensures
            match r {
                Some(b) => self@.module_balances.contains_key((address@, module_id@, tkey(ticker@)))
                    && b@ == self@.module_balances[(address@, module_id@, tkey(ticker@))],
                None => !self@.module_balances.contains_key((address@, module_id@, tkey(ticker@))),
            },
    {
        let k = BRC20ModuleAddressTokenBalanceKey::new(address, module_id, ticker);
        match self.module_balances.get(&k) {
            Some(b) => Some(b.copy()),
            None => None,
        }
    }

    /// Records a holder's balances of a ticker in a module.
    pub fn update_brc20_module_address_token_balance(
        &mut self,
        address: &UtxoAddress,
        module_id: &String,
        ticker: &BRC20Ticker,
        balance: BRC20ModuleTokenBalance,
    )
        requires
            old(self).wf(),
        ensures
            final(self).wf(),
            final(self)@ == (StateView {
                module_balances: old(self)@.module_balances.insert((address@, module_id@, tkey(ticker@)), balance@),
                ..old(self)@
            }),
    {
        let k = BRC20ModuleAddressTokenBalanceKey::new(address, module_id, ticker);
        self.module_balances.insert(k, balance);
    }

    /// A module's pool.
    pub fn load_brc20_module_swap_poolpair_balance(
        &self,
        module_id: &String,
        pool_pair: &BRC20ModulePoolPair,
    ) -> (r: Option<BRC20ModuleSwapPoolPairBalance>)
        requires
            self.wf(),
        ensures
            match r {
                Some(p) => self@.pools.contains_key((module_id@, pool_pair@)) && p@ == self@.pools[(module_id@, pool_pair@)],
                None => !self@.pools.contains_key((module_id@, pool_pair@)),
            },
    {
        let k = BRC20ModuleSwapPoolPairBalanceKey::new(module_id, pool_pair);
        match self.pools.get(&k) {
            Some(p) => Some(p.copy()),
            None => None,
        }
    }

    /// Records a module's pool.
    pub fn update_brc20_module_swap_poolpair_balance(
        &mut self,
        module_id: &String,
        pool_pair: &BRC20ModulePoolPair,
        balance: BRC20ModuleSwapPoolPairBalance,
    )
        requires
            old(self).wf(),
        ensures
            final(self).wf(),
            final(self)@ == (StateView {
                pools: old(self)@.pools.insert((module_id@, pool_pair@), balance@),
                ..old(self)@
            }),
    {
        let k = BRC20ModuleSwapPoolPairBalanceKey::new(module_id, pool_pair);
        self.pools.insert(k, balance);
    }

    /// An inscribed commit not yet applied.
    pub fn load_commit_info(&self, inscription_id: &String) -> (r: Option<Commit>)
        requires
            self.wf(),
        ensures
            match r {
                Some(c) => self@.commits.contains_key(inscription_id@) && c@ == self@.commits[inscription_id@],
                None => !self@.commits.contains_key(inscription_id@),
            },
    {
        match self.commits.get(inscription_id) {
            Some(c) => Some(copy_commit(c)),
            None => None,
        }
    }

    /// Records an inscribed commit.
    pub fn update_commit_info(&mut self, inscription_id: &String, commit: Commit)
        requires
            old(self).wf(),
        ensures
            final(self).wf(),
            final(self)@ == (StateView {
                commits: old(self)@.commits.insert(inscription_id@, commit@),
                ..old(self)@
            }),
    {
        self.commits.insert(inscription_id.clone(), commit);
    }

    /// Forgets an inscribed commit.
    pub fn delete_commit_info(&mut self, inscription_id: &String)
        requires
            old(self).wf(),
        ensures
            final(self).wf(),
            final(self)@ == (StateView { commits: old(self)@.commits.remove(inscription_id@), ..old(self)@ }),
    {
        self.commits.remove(inscription_id);
    }

    /// Records an inscribed withdrawal at its location.
    pub fn insert_brc20_module_withdraw(&mut self, satpoint: SatPoint, withdraw: Withdraw)
        requires
            old(self).wf(),
        ensures
            final(self).wf(),
            final(self)@ == (StateView {
                withdraws: old(self)@.withdraws.insert(satpoint, withdraw@),
                ..old(self)@
            }),
    {
        self.withdraws.insert(satpoint, withdraw);
    }

    /// The inscribed withdrawal at a location.
    pub fn load_brc20_module_inscribe_withdraw(&self, satpoint: SatPoint) -> (r: Option<Withdraw>)
        requires
            self.wf(),
        ensures
            match r {
                Some(w) => self@.withdraws.contains_key(satpoint) && w@ == self@.withdraws[satpoint],
                None => !self@.withdraws.contains_key(satpoint),
            },
    {
        match self.withdraws.get(&satpoint) {
            Some(w) => Some(w.copy()),
            None => None,
        }
    }

    /// Forgets the inscribed withdrawal at a location.
    pub fn remove_brc20_module_inscribe_withdraw(&mut self, satpoint: SatPoint)
        requires
            old(self).wf(),
        ensures
            final(self).wf(),
            final(self)@ == (StateView { withdraws: old(self)@.withdraws.remove(satpoint), ..old(self)@ }),
    {
        self.withdraws.remove(&satpoint);
    }

    /// A holder's shares of a module's pool.
    pub fn load_brc20_module_address_lp_token_balance(
        &self,
        lp_key: &BRC20ModuleAddressLPTokenBalanceKey,
    ) -> (r: Option<BRC20ModuleLPTokenBalance>)
        requires
            self.wf(),
        ensures
            match r {
                Some(b) => self@.lp_balances.contains_key(lp_key@) && b@ == self@.lp_balances[lp_key@],
                None => !self@.lp_balances.contains_key(lp_key@),
            },
    {
        match self.lp_balances.get(lp_key) {
            Some(b) => Some(b.copy()),
            None => None,
        }
    }

    /// Records a holder's shares of a module's pool.
    pub fn update_brc20_module_address_lp_token_balance(
        &mut self,
        lp_key: &BRC20ModuleAddressLPTokenBalanceKey,
        balance: BRC20ModuleLPTokenBalance,
    )
        requires
            old(self).wf(),
        ensures
            final(self).wf(),
            final(self)@ == (StateView {
                lp_balances: old(self)@.lp_balances.insert(lp_key@, balance@),
                ..old(self)@
            }),
    {
        let k = BRC20ModuleAddressLPTokenBalanceKey {
            module_id: lp_key.module_id.clone(),
            address: lp_key.address.copy(),
            pool_pair: lp_key.pool_pair.copy(),
        };
        self.lp_balances.insert(k, balance);
    }

    /// The ticker descriptions, for storing.
    pub fn ticker_info_items(&self) -> (r: &[(BRC20LowerCaseTicker, BRC20TickerInfo)])
        requires
            self.wf(),
        ensures
            r@.len() == self@.ticker_infos.len(),
            forall|i: int| 0 <= i < r@.len() ==> self@.ticker_infos.contains_key(#[trigger] r@[i].0@)
                && self@.ticker_infos[r@[i].0@] == r@[i].1@,
    {
        self.ticker_infos.items()
    }

    /// The balances, for storing.
    pub fn balance_items(&self) -> (r: &[(AddressTickerKey, BRC20Balance)])
        requires
            self.wf(),
        ensures
            r@.len() == self@.balances.len(),
            forall|i: int| 0 <= i < r@.len() ==> self@.balances.contains_key(#[trigger] r@[i].0@)
                && self@.balances[r@[i].0@] == r@[i].1@,
    {
        self.balances.items()
    }

    /// The transferable inscriptions, for storing.
    pub fn transfer_asset_items(&self) -> (r: &[(SatPoint, BRC20TransferAsset)])
        requires
            self.wf(),
        ensures
            r@.len() == self@.transfer_assets.len(),
            forall|i: int| 0 <= i < r@.len() ==> self@.transfer_assets.contains_key(#[trigger] r@[i].0@)
                && self@.transfer_assets[r@[i].0@] == r@[i].1@,
    {
        self.transfer_assets.items()
    }

    /// The modules, for storing.
    pub fn module_info_items(&self) -> (r: &[(String, BRC20ModuleInfo)])
        requires
            self.wf(),
        ensures
            r@.len() == self@.module_infos.len(),
            forall|i: int| 0 <= i < r@.len() ==> self@.module_infos.contains_key(#[trigger] r@[i].0@)
                && self@.module_infos[r@[i].0@] == r@[i].1@,
    {
        self.module_infos.items()
    }

    /// The module balances, for storing.
    pub fn module_balance_items(&self) -> (r: &[(BRC20ModuleAddressTokenBalanceKey, BRC20ModuleTokenBalance)])
        requires
            self.wf(),
        ensures
            r@.len() == self@.module_balances.len(),
            forall|i: int| 0 <= i < r@.len() ==> self@.module_balances.contains_key(#[trigger] r@[i].0@)
                && self@.module_balances[r@[i].0@] == r@[i].1@,
    {
        self.module_balances.items()
    }

    /// The pools, for storing.
    pub fn pool_items(&self) -> (r: &[(BRC20ModuleSwapPoolPairBalanceKey, BRC20ModuleSwapPoolPairBalance)])
        requires
            self.wf(),
        ensures
            r@.len() == self@.pools.len(),
            forall|i: int| 0 <= i < r@.len() ==> self@.pools.contains_key(#[trigger] r@[i].0@)
                && self@.pools[r@[i].0@] == r@[i].1@,
    {
        self.pools.items()
    }

    /// The liquidity shares, for storing.
    pub fn lp_balance_items(&self) -> (r: &[(BRC20ModuleAddressLPTokenBalanceKey, BRC20ModuleLPTokenBalance)])
        requires
            self.wf(),
        ensures
            r@.len() == self@.lp_balances.len(),
            forall|i: int| 0 <= i < r@.len() ==> self@.lp_balances.contains_key(#[trigger] r@[i].0@)
                && self@.lp_balances[r@[i].0@] == r@[i].1@,
    {
        self.lp_balances.items()
    }

    /// The pending commits, for storing.
    pub fn commit_items(&self) -> (r: &[(String, Commit)])
        requires
            self.wf(),
        ensures
            r@.len() == self@.commits.len(),
            forall|i: int| 0 <= i < r@.len() ==> self@.commits.contains_key(#[trigger] r@[i].0@)
                && self@.commits[r@[i].0@] == r@[i].1@,
    {
        self.commits.items()
    }

    /// The pending withdrawals, for storing.
    pub fn withdraw_items(&self) -> (r: &[(SatPoint, Withdraw)])
        requires
            self.wf(),
        ensures
            r@.len() == self@.withdraws.len(),
            forall|i: int| 0 <= i < r@.len() ==> self@.withdraws.contains_key(#[trigger] r@[i].0@)
                && self@.withdraws[r@[i].0@] == r@[i].1@,
    {
        self.withdraws.items()
    }
}

/// A copy of an optional string.
fn copy_opt_string(o: &Option<String>) -> (r: Option<String>)
    ensures
        crate::operation::opt_str(r) == crate::operation::opt_str(*o),
{
    match o {
        Some(s) => Some(s.clone()),
        None => None,
    }
}

/// A copy of a list of strings.
fn copy_strings(v: &Vec<String>) -> (r: Vec<String>)
    ensures
        crate::operation::texts(r@) == crate::operation::texts(v@),
{
    let mut out: Vec<String> = Vec::new();
    let mut i: usize = 0;
    while i < v.len()
        invariant
            i <= v@.len(),
            out@.len() == i,
            forall|j: int| 0 <= j < i ==> #[trigger] out@[j]@ == v@[j]@,
        decreases v.len() - i,
    {
        out.push(v[i].clone());
        i = i + 1;
    }
    assert(crate::operation::texts(out@) =~= crate::operation::texts(v@));
    out
}

/// A copy of a function call.
fn copy_call(f: &crate::operation::SwapFunctionData) -> (r: crate::operation::SwapFunctionData)
    ensures
        r@ == f@,
{
    crate::operation::SwapFunctionData {
        address: copy_opt_string(&f.address),
        function: copy_opt_string(&f.function),
        params: match &f.params {
            Some(v) => Some(copy_strings(v)),
            None => None,
        },
        timestamp: f.timestamp,
        signature: copy_opt_string(&f.signature),
    }
}

/// A copy of a commit.
pub fn copy_commit(c: &Commit) -> (r: Commit)
    ensures
        r@ == c@,
{
    let data = match &c.data {
        Some(v) => {
            let mut out: Vec<crate::operation::SwapFunctionData> = Vec::new();
            let mut i: usize = 0;
            while i < v.len()
                invariant
                    i <= v@.len(),
                    out@.len() == i,
                    forall|j: int| 0 <= j < i ==> #[trigger] out@[j]@ == v@[j]@,
                decreases v.len() - i,
            {
                out.push(copy_call(&v[i]));
                i = i + 1;
            }
            assert(out@.map_values(|f: crate::operation::SwapFunctionData| f@)
                =~= v@.map_values(|f: crate::operation::SwapFunctionData| f@));
            Some(out)
        },
        None => None,
    };
    Commit {
        module: copy_opt_string(&c.module),
        parent: copy_opt_string(&c.parent),
        gas_price: copy_opt_string(&c.gas_price),
        data,
    }
}

} // verus!

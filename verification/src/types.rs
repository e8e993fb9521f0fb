use std::collections::BTreeMap;
use vstd::prelude::*;

use crate::address::Address;

verus! {

/// Minimum distance from the chain tip that the node must keep unpruned.
pub const MINIMUM_PRUNING_DISTANCE: u64 = 10064;

/// The pruning interval, in blocks, of a configuration that sets none.
pub const DEFAULT_BLOCK_INTERVAL: usize = 5;

/// How much of a segment's data is pruned.
#[derive(Clone, Copy, Debug, PartialEq, Eq, Structural, Hash)]
pub enum PruneMode {
    /// Prune all data.
    Full,
    /// Keep the data of the last `n + 1` blocks.
    Distance(u64),
    /// Prune the data of the blocks before the given block number.
    Before(u64),
}

/// Per-address prune modes for receipts that carry logs of those addresses.
#[derive(Debug, PartialEq, Eq)]
pub struct ReceiptsLogPruneConfig(pub BTreeMap<(u128, u32), PruneMode>);

impl View for ReceiptsLogPruneConfig {
    type V = Map<(u128, u32), PruneMode>;

    open spec fn view(&self) -> Map<(u128, u32), PruneMode> {
        self.0@
    }
}

impl ReceiptsLogPruneConfig {
    /// An empty filter.
    pub fn new() -> (res: Self)
        ensures
            res@ == Map::<(u128, u32), PruneMode>::empty(),
    {
        ReceiptsLogPruneConfig(BTreeMap::new())
    }

    /// Sets the prune mode of `address`, replacing any earlier one.
    pub fn insert(&mut self, address: Address, mode: PruneMode)
        ensures
            final(self)@ == old(self)@.insert(address@, mode),
    {
        broadcast use vstd::laws_cmp::group_laws_cmp, vstd::std_specs::btree::group_btree_axioms;
        self.0.insert((address.high, address.low), mode);
    }

    /// The prune mode of `address`, if it has one.
    pub fn get(&self, address: &Address) -> (res: Option<PruneMode>)
        ensures
            match res {
                Some(m) => self@.contains_key(address@) && self@[address@] == m,
                None => !self@.contains_key(address@),
            },
    {
        broadcast use vstd::laws_cmp::group_laws_cmp, vstd::std_specs::btree::group_btree_axioms;
        let key = (address.high, address.low);
        match self.0.get(&key) {
            Some(m) => Some(*m),
            None => None,
        }
    }

    /// Whether no address has a prune mode.
    pub fn is_empty(&self) -> (res: bool)
        ensures
            res == (self@.len() == 0),
    {
        broadcast use vstd::laws_cmp::group_laws_cmp, vstd::std_specs::btree::group_btree_axioms;
        let res = self.0.is_empty();
        proof {
            if !res {
                let k = self@.dom().choose();
                assert(self@.dom().contains(k));
            }
        }
        res
    }

    /// The number of addresses with a prune mode.
    pub fn len(&self) -> (res: usize)
        ensures
            res == self@.len(),
    {
        broadcast use vstd::laws_cmp::group_laws_cmp, vstd::std_specs::btree::group_btree_axioms;
        self.0.len()
    }
}

impl Default for ReceiptsLogPruneConfig {
    /// An empty filter.
    fn default() -> (res: Self)
        ensures
            res@ == Map::<(u128, u32), PruneMode>::empty(),
    {
        ReceiptsLogPruneConfig::new()
    }
}

impl Clone for ReceiptsLogPruneConfig {
    fn clone(&self) -> (res: Self)
        ensures
            res@ == self@,
    {
        ReceiptsLogPruneConfig(self.0.clone())
    }
}

/// The prune mode of each segment of node data; `None` keeps it all.
#[derive(Clone, Debug, PartialEq, Eq)]
pub struct PruneModes {
    /// Sender recovery data.
    pub sender_recovery: Option<PruneMode>,
    /// Transaction lookup data.
    pub transaction_lookup: Option<PruneMode>,
    /// Receipts.
    pub receipts: Option<PruneMode>,
    /// Account history.
    pub account_history: Option<PruneMode>,
    /// Storage history.
    pub storage_history: Option<PruneMode>,
    /// Block bodies.
    pub bodies_history: Option<PruneMode>,
    /// Receipts kept or pruned by the addresses of their logs.
    pub receipts_log_filter: ReceiptsLogPruneConfig,
}

/// [`PruneModes`] with the receipts log filter as a map.
pub struct PruneModesView {
    pub sender_recovery: Option<PruneMode>,
    pub transaction_lookup: Option<PruneMode>,
    pub receipts: Option<PruneMode>,
    pub account_history: Option<PruneMode>,
    pub storage_history: Option<PruneMode>,
    pub bodies_history: Option<PruneMode>,
    pub receipts_log_filter: Map<(u128, u32), PruneMode>,
}

impl View for PruneModes {
    type V = PruneModesView;

    open spec fn view(&self) -> PruneModesView {
        PruneModesView {
            sender_recovery: self.sender_recovery,
            transaction_lookup: self.transaction_lookup,
            receipts: self.receipts,
            account_history: self.account_history,
            storage_history: self.storage_history,
            bodies_history: self.bodies_history,
            receipts_log_filter: self.receipts_log_filter@,
        }
    }
}

/// The view of a [`PruneModes`] that prunes nothing.
pub open spec fn no_prune_modes() -> PruneModesView {
    PruneModesView {
        sender_recovery: None,
        transaction_lookup: None,
        receipts: None,
        account_history: None,
        storage_history: None,
        bodies_history: None,
        receipts_log_filter: Map::empty(),
    }
}

impl PruneModes {
    /// Prune modes that prune nothing.
    pub fn none() -> (res: Self)
        ensures
            res@ == no_prune_modes(),
    {
        PruneModes {
            sender_recovery: None,
            transaction_lookup: None,
            receipts: None,
            account_history: None,
            storage_history: None,
            bodies_history: None,
            receipts_log_filter: ReceiptsLogPruneConfig::new(),
        }
    }
}

impl Default for PruneModes {
    fn default() -> (res: Self)
        ensures
            res@ == no_prune_modes(),
    {
        PruneModes::none()
    }
}

/// How often pruning runs and what it prunes.
#[derive(Clone, Debug, PartialEq, Eq)]
pub struct PruneConfig {
    /// The minimum interval, in blocks, between two pruning runs.
    pub block_interval: usize,
    /// The prune mode of each segment.
    pub segments: PruneModes,
}

/// [`PruneConfig`] with its segments by their view.
pub struct PruneConfigView {
    pub block_interval: usize,
    pub segments: PruneModesView,
}

impl View for PruneConfig {
    type V = PruneConfigView;

    open spec fn view(&self) -> PruneConfigView {
        PruneConfigView { block_interval: self.block_interval, segments: self.segments@ }
    }
}

impl Default for PruneConfig {
    /// The default interval and no pruning.
    fn default() -> (res: Self)
        ensures
            res@ == (PruneConfigView {
                block_interval: DEFAULT_BLOCK_INTERVAL,
                segments: no_prune_modes(),
            }),
    {
        PruneConfig { block_interval: DEFAULT_BLOCK_INTERVAL, segments: PruneModes::none() }
    }
}

} // verus!

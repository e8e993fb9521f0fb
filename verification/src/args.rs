use vstd::prelude::*;

use crate::types::{
    PruneConfig, PruneConfigView, PruneMode, PruneModes, PruneModesView, ReceiptsLogPruneConfig,
    DEFAULT_BLOCK_INTERVAL, MINIMUM_PRUNING_DISTANCE,
};

verus! {

/// Parameters for pruning and full node.
#[derive(Clone, Debug, PartialEq, Eq)]
pub struct PruningArgs {
    /// Run full node. Only the most recent [`MINIMUM_PRUNING_DISTANCE`] block
    /// states are stored.
    pub full: bool,
    /// Minimum pruning interval measured in blocks.
    pub block_interval: Option<u64>,
    /// Prunes all sender recovery data.
    pub sender_recovery_full: bool,
    /// Prune sender recovery data before the `head-N` block number. In other
    /// words, keep last N + 1 blocks.
    pub sender_recovery_distance: Option<u64>,
    /// Prune sender recovery data before the specified block number. The
    /// specified block number is not pruned.
    pub sender_recovery_before: Option<u64>,
    /// Prunes all transaction lookup data.
    pub transaction_lookup_full: bool,
    /// Prune transaction lookup data before the `head-N` block number. In
    /// other words, keep last N + 1 blocks.
    pub transaction_lookup_distance: Option<u64>,
    /// Prune transaction lookup data before the specified block number. The
    /// specified block number is not pruned.
    pub transaction_lookup_before: Option<u64>,
    /// Prunes all receipt data.
    pub receipts_full: bool,
    /// Prune receipts before the merge block.
    pub receipts_pre_merge: bool,
    /// Prune receipts before the `head-N` block number. In other words, keep
    /// last N + 1 blocks.
    pub receipts_distance: Option<u64>,
    /// Prune receipts before the specified block number. The specified block
    /// number is not pruned.
    pub receipts_before: Option<u64>,
    /// Configure receipts log filter. Format:
    /// <`address`>:<`prune_mode`>[,<`address`>:<`prune_mode`>...] Where
    /// <`prune_mode`> can be 'full', 'distance:<`blocks`>', or
    /// 'before:<`block_number`>'
    pub receipts_log_filter: Option<ReceiptsLogPruneConfig>,
    /// Prunes all account history.
    pub account_history_full: bool,
    /// Prune account before the `head-N` block number. In other words, keep
    /// last N + 1 blocks.
    pub account_history_distance: Option<u64>,
    /// Prune account history before the specified block number. The
    /// specified block number is not pruned.
    pub account_history_before: Option<u64>,
    /// Prunes all storage history data.
    pub storage_history_full: bool,
    /// Prune storage history before the `head-N` block number. In other
    /// words, keep last N + 1 blocks.
    pub storage_history_distance: Option<u64>,
    /// Prune storage history before the specified block number. The
    /// specified block number is not pruned.
    pub storage_history_before: Option<u64>,
    /// Prune bodies before the merge block.
    pub bodies_pre_merge: bool,
    /// Prune bodies before the `head-N` block number. In other words, keep
    /// last N + 1 blocks.
    pub bodies_distance: Option<u64>,
    /// Prune storage history before the specified block number. The
    /// specified block number is not pruned.
    pub bodies_before: Option<u64>,
}

/// The prune mode that a segment's three flags ask for: prune all if `full`
/// is set, else keep the last `distance + 1` blocks if a distance is given,
/// else prune before the given block, else nothing.
pub open spec fn segment_mode(full: bool, distance: Option<u64>, before: Option<u64>) -> Option<
    PruneMode,
> {
    if full {
        Some(PruneMode::Full)
    } else if distance is Some {
        Some(PruneMode::Distance(distance->0))
    } else if before is Some {
        Some(PruneMode::Before(before->0))
    } else {
        None
    }
}

/// Pruning before the merge: before the block at which the Paris hardfork
/// activates, where the chain knows that block.
pub open spec fn pre_merge_mode(paris_block: Option<u64>) -> Option<PruneMode> {
    match paris_block {
        Some(b) => Some(PruneMode::Before(b)),
        None => None,
    }
}

/// `explicit` where it is set, else `fallback`.
pub open spec fn or_else(explicit: Option<PruneMode>, fallback: Option<PruneMode>) -> Option<
    PruneMode,
> {
    if explicit is Some {
        explicit
    } else {
        fallback
    }
}

/// The full-node default of the receipts, account history and storage
/// history segments.
pub open spec fn full_node_distance(full: bool) -> Option<PruneMode> {
    if full {
        Some(PruneMode::Distance(MINIMUM_PRUNING_DISTANCE))
    } else {
        None
    }
}

impl PruningArgs {
    /// The receipts prune mode that the flags ask for.
    pub open spec fn spec_receipts_mode(&self, paris_block: Option<u64>) -> Option<PruneMode> {
        if self.receipts_pre_merge {
            pre_merge_mode(paris_block)
        } else {
            segment_mode(self.receipts_full, self.receipts_distance, self.receipts_before)
        }
    }

    /// The bodies prune mode that the flags ask for: before the merge, or
    /// keep the last `distance + 1` blocks.
    pub open spec fn spec_bodies_mode(&self, paris_block: Option<u64>) -> Option<PruneMode> {
        if self.bodies_pre_merge {
            pre_merge_mode(paris_block)
        } else {
            segment_mode(false, self.bodies_distance, None)
        }
    }

    /// The storage history prune mode that the flags ask for: the storage
    /// history flags, else `bodies_before`, which prunes storage history
    /// before the given block.
    pub open spec fn spec_storage_history_mode(&self) -> Option<PruneMode> {
        or_else(
            segment_mode(
                self.storage_history_full,
                self.storage_history_distance,
                self.storage_history_before,
            ),
            match self.bodies_before {
                Some(b) => Some(PruneMode::Before(b)),
                None => None,
            },
        )
    }

    /// Whether a non-empty receipts log filter is given; it then replaces
    /// the receipts segment's own mode.
    pub open spec fn log_filter_applies(&self) -> bool {
        self.receipts_log_filter is Some && self.receipts_log_filter->0@.len() > 0
    }

    /// The prune configuration that the arguments ask for: the default
    /// configuration, or the full-node defaults under `full`, with every
    /// segment flag that is set taking precedence.
    pub open spec fn spec_prune_config(&self, paris_block: Option<u64>) -> PruneConfigView {
        let applies = self.log_filter_applies();
        PruneConfigView {
            block_interval: match self.block_interval {
                Some(b) => b as usize,
                None => DEFAULT_BLOCK_INTERVAL,
            },
            segments: PruneModesView {
                sender_recovery: or_else(
                    segment_mode(
                        self.sender_recovery_full,
                        self.sender_recovery_distance,
                        self.sender_recovery_before,
                    ),
                    if self.full {
                        Some(PruneMode::Full)
                    } else {
                        None
                    },
                ),
                transaction_lookup: segment_mode(
                    self.transaction_lookup_full,
                    self.transaction_lookup_distance,
                    self.transaction_lookup_before,
                ),
                receipts: if applies {
                    None
                } else {
                    or_else(self.spec_receipts_mode(paris_block), full_node_distance(self.full))
                },
                account_history: or_else(
                    segment_mode(
                        self.account_history_full,
                        self.account_history_distance,
                        self.account_history_before,
                    ),
                    full_node_distance(self.full),
                ),
                storage_history: or_else(
                    self.spec_storage_history_mode(),
                    full_node_distance(self.full),
                ),
                bodies_history: self.spec_bodies_mode(paris_block),
                receipts_log_filter: if applies {
                    self.receipts_log_filter->0@
                } else {
                    Map::empty()
                },
            },
        }
    }

    /// Returns pruning configuration. `paris_block` is the block at which
    /// the chain activates the Paris hardfork (the merge), where the chain
    /// knows it; the pre-merge flags prune before that block.
    pub fn prune_config(&self, paris_block: Option<u64>) -> (res: Option<PruneConfig>)
        ensures
            res is Some,
            res->0@ == self.spec_prune_config(paris_block),
    {
        // Initialise with a default prune configuration.
        let mut config = PruneConfig::default();

        // If --full is set, use full node defaults.
        if self.full {
            config = PruneConfig {
                block_interval: config.block_interval,
                segments: PruneModes {
                    sender_recovery: Some(PruneMode::Full),
                    transaction_lookup: None,
                    receipts: Some(PruneMode::Distance(MINIMUM_PRUNING_DISTANCE)),
                    account_history: Some(PruneMode::Distance(MINIMUM_PRUNING_DISTANCE)),
                    storage_history: Some(PruneMode::Distance(MINIMUM_PRUNING_DISTANCE)),
                    bodies_history: None,
                    receipts_log_filter: ReceiptsLogPruneConfig::new(),
                },
            }
        }

        // Override with any explicitly set prune.* flags.
        if let Some(block_interval) = self.block_interval {
            config.block_interval = block_interval as usize;
        }
        if let Some(mode) = self.sender_recovery_prune_mode() {
            config.segments.sender_recovery = Some(mode);
        }
        if let Some(mode) = self.transaction_lookup_prune_mode() {
            config.segments.transaction_lookup = Some(mode);
        }
        if let Some(mode) = self.receipts_prune_mode(paris_block) {
            config.segments.receipts = Some(mode);
        }
        if let Some(mode) = self.account_history_prune_mode() {
            config.segments.account_history = Some(mode);
        }
        if let Some(mode) = self.bodies_prune_mode(paris_block) {
            config.segments.bodies_history = Some(mode);
        }
        if let Some(mode) = self.storage_history_prune_mode() {
            config.segments.storage_history = Some(mode);
        } else if let Some(block_number) = self.bodies_before {
            // `bodies_before` prunes storage history before that block.
            config.segments.storage_history = Some(PruneMode::Before(block_number));
        }
        if let Some(receipt_logs) = &self.receipts_log_filter {
            if !receipt_logs.is_empty() {
                config.segments.receipts_log_filter = receipt_logs.clone();
                // The receipts segment's own mode is dropped: it would take
                // precedence over the logs filter.
                config.segments.receipts = None;
            }
        }
        Some(config)
    }

    fn bodies_prune_mode(&self, paris_block: Option<u64>) -> (res: Option<PruneMode>)
        ensures
            res == self.spec_bodies_mode(paris_block),
    {
        if self.bodies_pre_merge {
            match paris_block {
                Some(b) => Some(PruneMode::Before(b)),
                None => None,
            }
        } else if let Some(distance) = self.bodies_distance {
            Some(PruneMode::Distance(distance))
        } else {
            None
        }
    }

    fn sender_recovery_prune_mode(&self) -> (res: Option<PruneMode>)
        ensures
            res == segment_mode(
                self.sender_recovery_full,
                self.sender_recovery_distance,
                self.sender_recovery_before,
            ),
    {
        if self.sender_recovery_full {
            Some(PruneMode::Full)
        } else if let Some(distance) = self.sender_recovery_distance {
            Some(PruneMode::Distance(distance))
        } else if let Some(block_number) = self.sender_recovery_before {
            Some(PruneMode::Before(block_number))
        } else {
            None
        }
    }

    fn transaction_lookup_prune_mode(&self) -> (res: Option<PruneMode>)
        ensures
            res == segment_mode(
                self.transaction_lookup_full,
                self.transaction_lookup_distance,
                self.transaction_lookup_before,
            ),
    {
        if self.transaction_lookup_full {
            Some(PruneMode::Full)
        } else if let Some(distance) = self.transaction_lookup_distance {
            Some(PruneMode::Distance(distance))
        } else if let Some(block_number) = self.transaction_lookup_before {
            Some(PruneMode::Before(block_number))
        } else {
            None
        }
    }

    fn receipts_prune_mode(&self, paris_block: Option<u64>) -> (res: Option<PruneMode>)
        ensures
            res == self.spec_receipts_mode(paris_block),
    {
        if self.receipts_pre_merge {
            match paris_block {
                Some(b) => Some(PruneMode::Before(b)),
                None => None,
            }
        } else if self.receipts_full {
            Some(PruneMode::Full)
        } else if let Some(distance) = self.receipts_distance {
            Some(PruneMode::Distance(distance))
        } else {
            match self.receipts_before {
                Some(b) => Some(PruneMode::Before(b)),
                None => None,
            }
        }
    }

    fn account_history_prune_mode(&self) -> (res: Option<PruneMode>)
        ensures
            res == segment_mode(
                self.account_history_full,
                self.account_history_distance,
                self.account_history_before,
            ),
    {
        if self.account_history_full {
            Some(PruneMode::Full)
        } else if let Some(distance) = self.account_history_distance {
            Some(PruneMode::Distance(distance))
        } else if let Some(block_number) = self.account_history_before {
            Some(PruneMode::Before(block_number))
        } else {
            None
        }
    }

    fn storage_history_prune_mode(&self) -> (res: Option<PruneMode>)
        ensures
            res == segment_mode(
                self.storage_history_full,
                self.storage_history_distance,
                self.storage_history_before,
            ),
    {
        if self.storage_history_full {
            Some(PruneMode::Full)
        } else if let Some(distance) = self.storage_history_distance {
            Some(PruneMode::Distance(distance))
        } else if let Some(block_number) = self.storage_history_before {
            Some(PruneMode::Before(block_number))
        } else {
            None
        }
    }
}

impl Default for PruningArgs {
    /// No flag set.
    fn default() -> (res: Self)
        ensures
            res == PruningArgs::spec_none(),
    {
        PruningArgs {
            full: false,
            block_interval: None,
            sender_recovery_full: false,
            sender_recovery_distance: None,
            sender_recovery_before: None,
            transaction_lookup_full: false,
            transaction_lookup_distance: None,
            transaction_lookup_before: None,
            receipts_full: false,
            receipts_pre_merge: false,
            receipts_distance: None,
            receipts_before: None,
            receipts_log_filter: None,
            account_history_full: false,
            account_history_distance: None,
            account_history_before: None,
            storage_history_full: false,
            storage_history_distance: None,
            storage_history_before: None,
            bodies_pre_merge: false,
            bodies_distance: None,
            bodies_before: None,
        }
    }
}

impl PruningArgs {
    /// The arguments with no flag set.
    pub open spec fn spec_none() -> PruningArgs {
        PruningArgs {
            full: false,
            block_interval: None,
            sender_recovery_full: false,
            sender_recovery_distance: None,
            sender_recovery_before: None,
            transaction_lookup_full: false,
            transaction_lookup_distance: None,
            transaction_lookup_before: None,
            receipts_full: false,
            receipts_pre_merge: false,
            receipts_distance: None,
            receipts_before: None,
            receipts_log_filter: None,
            account_history_full: false,
            account_history_distance: None,
            account_history_before: None,
            storage_history_full: false,
            storage_history_distance: None,
            storage_history_before: None,
            bodies_pre_merge: false,
            bodies_distance: None,
            bodies_before: None,
        }
    }
}

} // verus!

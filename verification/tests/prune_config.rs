use pruning_args::args::PruningArgs;
use pruning_args::receipts_log::parse_receipts_log_filter;
use pruning_args::types::{
    PruneConfig, PruneMode, PruneModes, ReceiptsLogPruneConfig, DEFAULT_BLOCK_INTERVAL,
    MINIMUM_PRUNING_DISTANCE,
};

const PARIS: u64 = 15537394;

#[test]
fn no_flags_give_the_default_config() {
    let args = PruningArgs::default();
    assert_eq!(args.prune_config(Some(PARIS)), Some(PruneConfig::default()));
    assert_eq!(args.prune_config(None), Some(PruneConfig::default()));
    let config = PruneConfig::default();
    assert_eq!(config.block_interval, DEFAULT_BLOCK_INTERVAL);
    assert_eq!(config.segments, PruneModes::none());
}

#[test]
fn full_node_defaults() {
    let args = PruningArgs { full: true, ..Default::default() };
    let config = args.prune_config(None).unwrap();
    assert_eq!(config.block_interval, DEFAULT_BLOCK_INTERVAL);
    assert_eq!(config.segments.sender_recovery, Some(PruneMode::Full));
    assert_eq!(config.segments.transaction_lookup, None);
    assert_eq!(config.segments.receipts, Some(PruneMode::Distance(MINIMUM_PRUNING_DISTANCE)));
    assert_eq!(config.segments.account_history, Some(PruneMode::Distance(MINIMUM_PRUNING_DISTANCE)));
    assert_eq!(config.segments.storage_history, Some(PruneMode::Distance(MINIMUM_PRUNING_DISTANCE)));
    assert_eq!(config.segments.bodies_history, None);
    assert_eq!(config.segments.receipts_log_filter, ReceiptsLogPruneConfig::new());
    assert_eq!(MINIMUM_PRUNING_DISTANCE, 10064);
}

#[test]
fn explicit_flags_override_full_node_defaults() {
    let args = PruningArgs {
        full: true,
        block_interval: Some(9),
        sender_recovery_distance: Some(100),
        transaction_lookup_before: Some(42),
        receipts_full: true,
        account_history_before: Some(7),
        storage_history_full: true,
        bodies_distance: Some(3),
        ..Default::default()
    };
    let config = args.prune_config(None).unwrap();
    assert_eq!(config.block_interval, 9);
    assert_eq!(config.segments.sender_recovery, Some(PruneMode::Distance(100)));
    assert_eq!(config.segments.transaction_lookup, Some(PruneMode::Before(42)));
    assert_eq!(config.segments.receipts, Some(PruneMode::Full));
    assert_eq!(config.segments.account_history, Some(PruneMode::Before(7)));
    assert_eq!(config.segments.storage_history, Some(PruneMode::Full));
    assert_eq!(config.segments.bodies_history, Some(PruneMode::Distance(3)));
}

#[test]
fn full_wins_over_distance_and_distance_over_before() {
    let args = PruningArgs {
        sender_recovery_full: true,
        sender_recovery_distance: Some(1),
        sender_recovery_before: Some(2),
        account_history_distance: Some(3),
        account_history_before: Some(4),
        receipts_pre_merge: true,
        receipts_full: true,
        bodies_pre_merge: true,
        bodies_distance: Some(5),
        ..Default::default()
    };
    let config = args.prune_config(Some(PARIS)).unwrap();
    assert_eq!(config.segments.sender_recovery, Some(PruneMode::Full));
    assert_eq!(config.segments.account_history, Some(PruneMode::Distance(3)));
    assert_eq!(config.segments.receipts, Some(PruneMode::Before(PARIS)));
    assert_eq!(config.segments.bodies_history, Some(PruneMode::Before(PARIS)));
}

#[test]
fn pre_merge_without_a_known_merge_block_sets_nothing() {
    let args = PruningArgs {
        full: true,
        receipts_pre_merge: true,
        receipts_distance: Some(10),
        bodies_pre_merge: true,
        bodies_before: Some(11),
        ..Default::default()
    };
    let config = args.prune_config(None).unwrap();
    assert_eq!(config.segments.receipts, Some(PruneMode::Distance(MINIMUM_PRUNING_DISTANCE)));
    assert_eq!(config.segments.bodies_history, None);
    assert_eq!(config.segments.storage_history, Some(PruneMode::Before(11)));
}

#[test]
fn bodies_before_prunes_storage_history() {
    let args = PruningArgs { bodies_before: Some(100), ..Default::default() };
    let config = args.prune_config(Some(PARIS)).unwrap();
    assert_eq!(config.segments.storage_history, Some(PruneMode::Before(100)));
    assert_eq!(config.segments.bodies_history, None);

    // The storage history flags of their own take precedence.
    let args = PruningArgs {
        bodies_before: Some(100),
        storage_history_distance: Some(5),
        bodies_distance: Some(8),
        ..Default::default()
    };
    let config = args.prune_config(Some(PARIS)).unwrap();
    assert_eq!(config.segments.storage_history, Some(PruneMode::Distance(5)));
    assert_eq!(config.segments.bodies_history, Some(PruneMode::Distance(8)));
}

#[test]
fn log_filter_replaces_the_receipts_mode() {
    let filter =
        parse_receipts_log_filter("0x0000000000000000000000000000000000000003:before:5000000").unwrap();
    let args = PruningArgs {
        full: true,
        receipts_distance: Some(100),
        receipts_log_filter: Some(filter.clone()),
        ..Default::default()
    };
    let config = args.prune_config(None).unwrap();
    assert_eq!(config.segments.receipts, None);
    assert_eq!(config.segments.receipts_log_filter, filter);
}

#[test]
fn empty_log_filter_is_ignored() {
    let args = PruningArgs {
        receipts_distance: Some(100),
        receipts_log_filter: Some(ReceiptsLogPruneConfig::new()),
        ..Default::default()
    };
    let config = args.prune_config(None).unwrap();
    assert_eq!(config.segments.receipts, Some(PruneMode::Distance(100)));
    assert!(config.segments.receipts_log_filter.is_empty());
}

#[test]
fn full_only_fills_unset_segments() {
    let base = PruningArgs {
        sender_recovery_before: Some(5),
        storage_history_distance: Some(6),
        ..Default::default()
    };
    let off = PruningArgs { full: false, ..base.clone() }.prune_config(None).unwrap();
    let on = PruningArgs { full: true, ..base }.prune_config(None).unwrap();
    assert_eq!(on.segments.sender_recovery, off.segments.sender_recovery);
    assert_eq!(on.segments.storage_history, off.segments.storage_history);
    assert_eq!(off.segments.account_history, None);
    assert_eq!(on.segments.account_history, Some(PruneMode::Distance(MINIMUM_PRUNING_DISTANCE)));
    assert_eq!(on.block_interval, off.block_interval);
}

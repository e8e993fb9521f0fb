use pruning_args::address::Address;
use pruning_args::args::PruningArgs;
use pruning_args::decimal::IntErrorKind;
use pruning_args::receipts_log::{parse_receipts_log_filter, ReceiptsLogError};
use pruning_args::types::{PruneMode, ReceiptsLogPruneConfig};

fn addr(s: &str) -> Address {
    Address::parse_hex(s).unwrap()
}

#[test]
fn pruning_args_sanity_check() {
    let args = PruningArgs {
        receipts_log_filter: Some(
            parse_receipts_log_filter("0x0000000000000000000000000000000000000003:before:5000000")
                .unwrap(),
        ),
        ..Default::default()
    };
    let mut config = ReceiptsLogPruneConfig::default();
    config.insert(addr("0x0000000000000000000000000000000000000003"), PruneMode::Before(5000000));
    assert_eq!(args.receipts_log_filter, Some(config));
}

#[test]
fn test_parse_receipts_log_filter() {
    let filter1 = "0x0000000000000000000000000000000000000001:full";
    let filter2 = "0x0000000000000000000000000000000000000002:distance:1000";
    let filter3 = "0x0000000000000000000000000000000000000003:before:5000000";
    let filters = [filter1, filter2, filter3].join(",");

    // Args can be parsed.
    let result = parse_receipts_log_filter(&filters);
    assert!(result.is_ok());
    let config = result.unwrap();
    assert_eq!(config.len(), 3);

    // Check that the args were parsed correctly.
    let addr1 = addr("0x0000000000000000000000000000000000000001");
    let addr2 = addr("0x0000000000000000000000000000000000000002");
    let addr3 = addr("0x0000000000000000000000000000000000000003");

    assert_eq!(config.get(&addr1), Some(PruneMode::Full));
    assert_eq!(config.get(&addr2), Some(PruneMode::Distance(1000)));
    assert_eq!(config.get(&addr3), Some(PruneMode::Before(5000000)));
}

#[test]
fn test_parse_receipts_log_filter_invalid_filter_format() {
    let result = parse_receipts_log_filter("invalid_format");
    assert!(matches!(result, Err(ReceiptsLogError::InvalidFilterFormat(_))));
}

#[test]
fn test_parse_receipts_log_filter_invalid_address() {
    let result = parse_receipts_log_filter("invalid_address:full");
    assert!(matches!(result, Err(ReceiptsLogError::InvalidAddress(_))));
}

#[test]
fn test_parse_receipts_log_filter_invalid_prune_mode() {
    let result =
        parse_receipts_log_filter("0x0000000000000000000000000000000000000000:invalid_mode");
    assert!(matches!(result, Err(ReceiptsLogError::InvalidPruneMode(_))));
}

#[test]
fn test_parse_receipts_log_filter_invalid_distance() {
    let result = parse_receipts_log_filter(
        "0x0000000000000000000000000000000000000000:distance:invalid_distance",
    );
    assert!(matches!(result, Err(ReceiptsLogError::InvalidDistance(_))));
}

#[test]
fn test_parse_receipts_log_filter_invalid_block_number() {
    let result = parse_receipts_log_filter(
        "0x0000000000000000000000000000000000000000:before:invalid_block",
    );
    assert!(matches!(result, Err(ReceiptsLogError::InvalidBlockNumber(_))));
}

#[test]
fn error_values_hold_the_offending_text() {
    assert_eq!(
        parse_receipts_log_filter("invalid_format"),
        Err(ReceiptsLogError::InvalidFilterFormat("invalid_format".to_string()))
    );
    assert_eq!(
        parse_receipts_log_filter("0x12:full"),
        Err(ReceiptsLogError::InvalidAddress("0x12".to_string()))
    );
    assert_eq!(
        parse_receipts_log_filter("0x0000000000000000000000000000000000000000:fully"),
        Err(ReceiptsLogError::InvalidPruneMode("fully".to_string()))
    );
    match parse_receipts_log_filter("0x0000000000000000000000000000000000000000:distance:") {
        Err(ReceiptsLogError::InvalidDistance(e)) => assert_eq!(e.kind(), IntErrorKind::Empty),
        other => panic!("unexpected {:?}", other),
    }
    match parse_receipts_log_filter(
        "0x0000000000000000000000000000000000000000:before:18446744073709551616",
    ) {
        Err(ReceiptsLogError::InvalidBlockNumber(e)) => {
            assert_eq!(e.kind(), IntErrorKind::PosOverflow)
        }
        other => panic!("unexpected {:?}", other),
    }
}

#[test]
fn mode_missing_its_number_is_a_format_error() {
    let value = "0x0000000000000000000000000000000000000000:distance";
    assert_eq!(
        parse_receipts_log_filter(value),
        Err(ReceiptsLogError::InvalidFilterFormat(value.to_string()))
    );
    let value = "0x0000000000000000000000000000000000000000:before";
    assert_eq!(
        parse_receipts_log_filter(value),
        Err(ReceiptsLogError::InvalidFilterFormat(value.to_string()))
    );
}

#[test]
fn only_the_three_mode_words_are_prune_modes() {
    assert_eq!(
        parse_receipts_log_filter("0x0000000000000000000000000000000000000000:distancefoo:5"),
        Err(ReceiptsLogError::InvalidPruneMode("distancefoo".to_string()))
    );
    assert_eq!(
        parse_receipts_log_filter("0x0000000000000000000000000000000000000000:beforehand:9"),
        Err(ReceiptsLogError::InvalidPruneMode("beforehand".to_string()))
    );
    assert_eq!(
        parse_receipts_log_filter("0x0000000000000000000000000000000000000000:Full"),
        Err(ReceiptsLogError::InvalidPruneMode("Full".to_string()))
    );
}

#[test]
fn extra_parts_are_a_format_error() {
    for value in [
        "0x0000000000000000000000000000000000000001:full:1",
        "0x0000000000000000000000000000000000000001:distance:7:extra",
        "0x0000000000000000000000000000000000000001:before:7:",
    ] {
        assert_eq!(
            parse_receipts_log_filter(value),
            Err(ReceiptsLogError::InvalidFilterFormat(value.to_string()))
        );
    }
}

#[test]
fn later_filter_for_an_address_wins() {
    let config = parse_receipts_log_filter(
        "0x0000000000000000000000000000000000000001:full,0x0000000000000000000000000000000000000002:full,0x0000000000000000000000000000000000000001:before:10",
    )
    .unwrap();
    assert_eq!(config.len(), 2);
    assert_eq!(config.get(&addr("0x0000000000000000000000000000000000000001")), Some(PruneMode::Before(10)));
    assert_eq!(config.get(&addr("0x0000000000000000000000000000000000000002")), Some(PruneMode::Full));
}

#[test]
fn first_failing_filter_decides_the_error() {
    assert_eq!(
        parse_receipts_log_filter("bad:full,also_bad"),
        Err(ReceiptsLogError::InvalidAddress("bad".to_string()))
    );
    assert_eq!(
        parse_receipts_log_filter("also_bad,bad:full"),
        Err(ReceiptsLogError::InvalidFilterFormat("also_bad".to_string()))
    );
}

#[test]
fn empty_filters_are_format_errors() {
    assert_eq!(
        parse_receipts_log_filter(""),
        Err(ReceiptsLogError::InvalidFilterFormat(String::new()))
    );
    assert_eq!(
        parse_receipts_log_filter("0x0000000000000000000000000000000000000001:full,"),
        Err(ReceiptsLogError::InvalidFilterFormat(String::new()))
    );
}

#[test]
fn addresses_parse_with_either_prefix_and_case() {
    let lower = addr("0xabcdefabcdefabcdefabcdefabcdefabcdefabcd");
    assert_eq!(addr("0XABCDEFABCDEFABCDEFABCDEFABCDEFABCDEFABCD"), lower);
    assert_eq!(addr("abcdefABCDEFabcdefabcdefabcdefabcdefabcd"), lower);
    assert_eq!(lower.high, 0xabcdefabcdefabcdefabcdefabcdefab);
    assert_eq!(lower.low, 0xcdefabcd);
    let first = addr("0x0100000000000000000000000000000000000000");
    assert_eq!(first.high, 1u128 << 120);
    assert_eq!(first.low, 0);
    assert_eq!(addr("0x0000000000000000000000000000000000000001"), Address { high: 0, low: 1 });
    assert_eq!(Address::parse_hex("0x000000000000000000000000000000000000001"), None);
    assert_eq!(Address::parse_hex("0x00000000000000000000000000000000000000001"), None);
    assert_eq!(Address::parse_hex("0x000000000000000000000000000000000000000g"), None);
    assert_eq!(Address::parse_hex("0x0x00000000000000000000000000000000000000"), None);
    assert_eq!(Address::parse_hex(""), None);
}

#[test]
fn address_from_bytes_reads_big_endian() {
    let mut bytes = [0u8; 20];
    for (i, b) in bytes.iter_mut().enumerate() {
        *b = i as u8 + 1;
    }
    let a = Address::from_bytes(bytes);
    assert_eq!(a.high, 0x0102030405060708090a0b0c0d0e0f10);
    assert_eq!(a.low, 0x11121314);
}

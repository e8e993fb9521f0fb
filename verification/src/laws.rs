use vstd::prelude::*;

use crate::address::{
    hex_number, is_hex_digit, lemma_parse_address_is_hex_number, spec_parse_address,
    strip_hex_prefix,
};
use crate::args::{full_node_distance, segment_mode, PruningArgs};
use crate::decimal::{decimal, is_decimal_digit, lemma_decimal_digits, lemma_parse_decimal_roundtrip};
use crate::receipts_log::{
    before_word, distance_word, full_word, parse_filters, spec_parse_filter,
    spec_parse_receipts_log_filter, ReceiptsLogErrorView,
};
use crate::text::{lemma_split_append_piece, lemma_split_without_sep, split_at_char};
use crate::types::{no_prune_modes, PruneMode, DEFAULT_BLOCK_INTERVAL, MINIMUM_PRUNING_DISTANCE};

verus! {

/// A configuration never has both a receipts prune mode and a non-empty
/// receipts log filter: the filter, when given, replaces the mode.
pub proof fn lemma_receipts_mode_excludes_log_filter(args: PruningArgs, paris_block: Option<u64>)
    ensures
        args.spec_prune_config(paris_block).segments.receipts is Some
            ==> args.spec_prune_config(paris_block).segments.receipts_log_filter.len() == 0,
{
}

/// Arguments with no flag set ask for the default configuration, whatever
/// the chain.
pub proof fn lemma_no_flags_default_config(paris_block: Option<u64>)
    ensures
        PruningArgs::spec_none().spec_prune_config(paris_block).block_interval
            == DEFAULT_BLOCK_INTERVAL,
        PruningArgs::spec_none().spec_prune_config(paris_block).segments == no_prune_modes(),
{
    assert(PruningArgs::spec_none().spec_prune_config(paris_block).segments == no_prune_modes());
}

/// `full` only fills in the sender recovery, receipts, account history and
/// storage history segments that no flag of their own sets: with and
/// without it, every other part of the configuration is the same, a segment
/// whose flags ask for a mode gets that mode, and an unset one gets the
/// full-node default.
pub proof fn lemma_full_fills_only_unset_segments(args: PruningArgs, paris_block: Option<u64>)
    ensures
        ({
            let on = PruningArgs { full: true, ..args }.spec_prune_config(paris_block);
            let off = PruningArgs { full: false, ..args }.spec_prune_config(paris_block);
            &&& on.block_interval == off.block_interval
            &&& on.segments.transaction_lookup == off.segments.transaction_lookup
            &&& on.segments.bodies_history == off.segments.bodies_history
            &&& on.segments.receipts_log_filter == off.segments.receipts_log_filter
            &&& off.segments.sender_recovery is Some ==> on.segments.sender_recovery
                == off.segments.sender_recovery
            &&& off.segments.sender_recovery is None ==> on.segments.sender_recovery == Some(
                PruneMode::Full,
            )
            &&& off.segments.account_history is Some ==> on.segments.account_history
                == off.segments.account_history
            &&& off.segments.account_history is None ==> on.segments.account_history
                == full_node_distance(true)
            &&& off.segments.storage_history is Some ==> on.segments.storage_history
                == off.segments.storage_history
            &&& off.segments.storage_history is None ==> on.segments.storage_history
                == full_node_distance(true)
            &&& off.segments.receipts is Some ==> on.segments.receipts == off.segments.receipts
            &&& (off.segments.receipts is None && !args.log_filter_applies())
                ==> on.segments.receipts == full_node_distance(true)
        }),
{
}

/// The bodies segment is never pruned in full: its flags ask only for a
/// distance or for pruning before the merge.
pub proof fn lemma_bodies_never_full(args: PruningArgs, paris_block: Option<u64>)
    ensures
        args.spec_prune_config(paris_block).segments.bodies_history != Some(PruneMode::Full),
{
}

/// `bodies_before` prunes storage history before its block, where no
/// storage history flag of its own is set, and leaves the bodies segment to
/// the other bodies flags.
pub proof fn lemma_bodies_before_prunes_storage_history(args: PruningArgs, paris_block: Option<u64>)
    requires
        (args.bodies_before is Some),
        !args.storage_history_full,
        (args.storage_history_distance is None),
        (args.storage_history_before is None),
    ensures
        args.spec_prune_config(paris_block).segments.storage_history == Some(
            PruneMode::Before(args.bodies_before->0),
        ),
        ({
            let without = PruningArgs { bodies_before: None, ..args };
            args.spec_prune_config(paris_block).segments.bodies_history
                == without.spec_prune_config(paris_block).segments.bodies_history
        }),
{
}

/// Within one segment, `full` wins over a distance, and a distance over a
/// block number.
pub proof fn lemma_segment_precedence(full: bool, distance: Option<u64>, before: Option<u64>)
    ensures
        full ==> segment_mode(full, distance, before) == Some(PruneMode::Full),
        !full && distance is Some ==> segment_mode(full, distance, before) == Some(
            PruneMode::Distance(distance->0),
        ),
        segment_mode(full, distance, before) is None <==> (!full && distance is None
            && before is None),
{
}

/// The filters parse exactly when each of them does.
pub proof fn lemma_parse_filters_ok_iff_each_ok(filters: Seq<Seq<char>>)
    ensures
        parse_filters(filters) is Ok <==> forall|i: int|
            0 <= i < filters.len() ==> #[trigger] spec_parse_filter(filters[i]) is Ok,
    decreases filters.len(),
{
    if filters.len() > 0 {
        let prev = filters.drop_last();
        lemma_parse_filters_ok_iff_each_ok(prev);
        if parse_filters(filters) is Ok {
            assert forall|i: int| 0 <= i < filters.len() implies #[trigger] spec_parse_filter(
                filters[i],
            ) is Ok by {
                if i < filters.len() - 1 {
                    assert(prev[i] == filters[i]);
                }
            }
        } else {
            if parse_filters(prev) is Err {
                let i = choose|i: int| 0 <= i < prev.len() && !(#[trigger] spec_parse_filter(prev[i]) is Ok);
                assert(filters[i] == prev[i]);
            } else {
                assert(!(spec_parse_filter(filters[filters.len() - 1]) is Ok));
            }
        }
    }
}

/// Where the filters parse, the map names exactly the addresses that some
/// filter names, and gives each the mode of the last filter that names it.
pub proof fn lemma_parse_filters_last_wins(filters: Seq<Seq<char>>)
    requires
        parse_filters(filters) is Ok,
    ensures
        forall|a: (u128, u32)|
            #![trigger parse_filters(filters)->Ok_0.contains_key(a)]
            parse_filters(filters)->Ok_0.contains_key(a) <==> exists|i: int|
                0 <= i < filters.len() && (#[trigger] spec_parse_filter(filters[i]))->Ok_0.0 == a,
        forall|a: (u128, u32)|
            #![trigger parse_filters(filters)->Ok_0[a]]
            parse_filters(filters)->Ok_0.contains_key(a) ==> exists|i: int|
                0 <= i < filters.len() && spec_parse_filter(filters[i])->Ok_0 == (
                    a,
                    parse_filters(filters)->Ok_0[a],
                ) && forall|j: int|
                    i < j < filters.len() ==> (#[trigger] spec_parse_filter(filters[j]))->Ok_0.0
                        != a,
    decreases filters.len(),
{
    lemma_parse_filters_ok_iff_each_ok(filters);
    if filters.len() > 0 {
        let prev = filters.drop_last();
        let n = filters.len() - 1;
        lemma_parse_filters_ok_iff_each_ok(prev);
        assert forall|i: int| 0 <= i < prev.len() implies #[trigger] spec_parse_filter(prev[i]) is Ok by {
            assert(prev[i] == filters[i]);
            assert(spec_parse_filter(filters[i]) is Ok);
        }
        lemma_parse_filters_last_wins(prev);
        let m = parse_filters(filters)->Ok_0;
        let pm = parse_filters(prev)->Ok_0;
        let (last_a, last_mode) = spec_parse_filter(filters[n])->Ok_0;
        assert(m == pm.insert(last_a, last_mode));
        assert forall|a: (u128, u32)| #[trigger] m.contains_key(a) <==> exists|i: int|
            0 <= i < filters.len() && (#[trigger] spec_parse_filter(filters[i]))->Ok_0.0 == a by {
            if m.contains_key(a) {
                if a == last_a {
                    assert(spec_parse_filter(filters[n])->Ok_0.0 == a);
                } else {
                    assert(pm.contains_key(a));
                    let i = choose|i: int|
                        0 <= i < prev.len() && (#[trigger] spec_parse_filter(prev[i]))->Ok_0.0 == a;
                    assert(filters[i] == prev[i]);
                }
            }
            if exists|i: int|
                0 <= i < filters.len() && (#[trigger] spec_parse_filter(filters[i]))->Ok_0.0 == a {
                let i = choose|i: int|
                    0 <= i < filters.len() && (#[trigger] spec_parse_filter(filters[i]))->Ok_0.0
                        == a;
                if i < n {
                    assert(filters[i] == prev[i]);
                    assert(pm.contains_key(a));
                }
            }
        }
        assert forall|a: (u128, u32)| #[trigger] m.contains_key(a) implies exists|i: int|
            0 <= i < filters.len() && spec_parse_filter(filters[i])->Ok_0 == (a, m[a]) && forall|
                j: int,
            | i < j < filters.len() ==> (#[trigger] spec_parse_filter(filters[j]))->Ok_0.0 != a by {
            if a == last_a {
                assert(spec_parse_filter(filters[n])->Ok_0 == (a, m[a]));
            } else {
                assert(pm.contains_key(a));
                assert(pm[a] == m[a]);
                let i = choose|i: int|
                    0 <= i < prev.len() && spec_parse_filter(prev[i])->Ok_0 == (a, pm[a]) && forall|
                        j: int,
                    | i < j < prev.len() ==> (#[trigger] spec_parse_filter(prev[j]))->Ok_0.0 != a;
                assert(filters[i] == prev[i]);
                assert forall|j: int| i < j < filters.len() implies (#[trigger] spec_parse_filter(
                    filters[j],
                ))->Ok_0.0 != a by {
                    if j < n {
                        assert(filters[j] == prev[j]);
                    }
                }
            }
        }
    }
}

/// How a prune mode is written in a filter: `full`, `distance:<blocks>` or
/// `before:<block_number>`, the number in decimal.
pub open spec fn mode_text(m: PruneMode) -> Seq<char> {
    match m {
        PruneMode::Full => full_word(),
        PruneMode::Distance(n) => distance_word().push(':') + decimal(n as nat),
        PruneMode::Before(n) => before_word().push(':') + decimal(n as nat),
    }
}

proof fn lemma_mode_text_split(m: PruneMode)
    ensures
        forall|i: int| 0 <= i < mode_text(m).len() ==> #[trigger] mode_text(m)[i] != ',',
        ({
            let parts = split_at_char(mode_text(m), ':');
            match m {
                PruneMode::Full => parts == seq![full_word()],
                PruneMode::Distance(n) => parts == seq![distance_word(), decimal(n as nat)],
                PruneMode::Before(n) => parts == seq![before_word(), decimal(n as nat)],
            }
        }),
{
    match m {
        PruneMode::Full => {
            lemma_split_without_sep(full_word(), ':');
        },
        PruneMode::Distance(n) => {
            lemma_decimal_digits(n as nat);
            let d = decimal(n as nat);
            assert forall|i: int| 0 <= i < d.len() implies d[i] != ':' by {
                assert(is_decimal_digit(d[i]));
            }
            lemma_split_without_sep(distance_word(), ':');
            lemma_split_append_piece(distance_word(), ':', d);
            assert forall|i: int| 0 <= i < mode_text(m).len() implies #[trigger] mode_text(m)[i]
                != ',' by {
                if i > 8 {
                    assert(mode_text(m)[i] == d[i - 9]);
                    assert(is_decimal_digit(d[i - 9]));
                }
            }
        },
        PruneMode::Before(n) => {
            lemma_decimal_digits(n as nat);
            let d = decimal(n as nat);
            assert forall|i: int| 0 <= i < d.len() implies d[i] != ':' by {
                assert(is_decimal_digit(d[i]));
            }
            lemma_split_without_sep(before_word(), ':');
            lemma_split_append_piece(before_word(), ':', d);
            assert forall|i: int| 0 <= i < mode_text(m).len() implies #[trigger] mode_text(m)[i]
                != ',' by {
                if i > 6 {
                    assert(mode_text(m)[i] == d[i - 7]);
                    assert(is_decimal_digit(d[i - 7]));
                }
            }
        },
    }
}

/// A filter made of any address string, `:`, and any prune mode written as
/// the syntax has it, parses, and keys exactly that mode by the number the
/// address's forty hexadecimal digits denote (high word: the first
/// thirty-two digits; low word: the last eight; letters of either case).
/// As a whole receipts log filter value, it gives the map with that one
/// entry.
pub proof fn lemma_filter_keys_mode_by_address(a: Seq<char>, m: PruneMode)
    requires
        strip_hex_prefix(a).len() == 40,
        forall|i: int| 0 <= i < 40 ==> #[trigger] is_hex_digit(strip_hex_prefix(a)[i]),
    ensures
        ({
            let t = strip_hex_prefix(a);
            let key = (hex_number(t.take(32)) as u128, hex_number(t.skip(32)) as u32);
            &&& key.0 == hex_number(t.take(32))
            &&& key.1 == hex_number(t.skip(32))
            &&& spec_parse_filter(a.push(':') + mode_text(m)) == Ok::<_, ReceiptsLogErrorView>(
                (key, m),
            )
            &&& spec_parse_receipts_log_filter(a.push(':') + mode_text(m)) == Ok::<
                _,
                ReceiptsLogErrorView,
            >(Map::<(u128, u32), PruneMode>::empty().insert(key, m))
        }),
{
    lemma_parse_address_is_hex_number(a);
    let t = strip_hex_prefix(a);
    assert forall|i: int| 0 <= i < a.len() implies a[i] != ':' && a[i] != ',' by {
        if t != a {
            if i >= 2 {
                assert(a[i] == t[i - 2]);
                assert(is_hex_digit(t[i - 2]));
            }
        } else {
            assert(is_hex_digit(t[i]));
        }
    }
    let text = mode_text(m);
    lemma_mode_text_split(m);
    let f = a.push(':') + text;
    lemma_split_without_sep(a, ':');
    // Split the filter at its first `:`, the one after the address.
    let tparts = split_at_char(text, ':');
    assert(split_at_char(f, ':') == seq![a] + tparts) by {
        match m {
            PruneMode::Full => {
                lemma_split_append_piece(a, ':', full_word());
            },
            PruneMode::Distance(n) => {
                let d = decimal(n as nat);
                lemma_decimal_digits(n as nat);
                assert forall|i: int| 0 <= i < d.len() implies d[i] != ':' by {
                    assert(is_decimal_digit(d[i]));
                }
                lemma_split_append_piece(a, ':', distance_word());
                assert(f == (a.push(':') + distance_word()).push(':') + d);
                lemma_split_append_piece(a.push(':') + distance_word(), ':', d);
            },
            PruneMode::Before(n) => {
                let d = decimal(n as nat);
                lemma_decimal_digits(n as nat);
                assert forall|i: int| 0 <= i < d.len() implies d[i] != ':' by {
                    assert(is_decimal_digit(d[i]));
                }
                lemma_split_append_piece(a, ':', before_word());
                assert(f == (a.push(':') + before_word()).push(':') + d);
                lemma_split_append_piece(a.push(':') + before_word(), ':', d);
            },
        }
    }
    match m {
        PruneMode::Distance(n) => {
            lemma_parse_decimal_roundtrip(n);
        },
        PruneMode::Before(n) => {
            lemma_parse_decimal_roundtrip(n);
        },
        PruneMode::Full => {},
    }
    assert(spec_parse_filter(f) == Ok::<_, ReceiptsLogErrorView>((spec_parse_address(a)->0, m)));
    assert forall|i: int| 0 <= i < f.len() implies f[i] != ',' by {
        if i < a.len() {
            assert(f[i] == a[i]);
        } else if i > a.len() {
            assert(f[i] == text[i - a.len() - 1]);
        }
    }
    lemma_split_without_sep(f, ',');
    let fs = seq![f];
    assert(fs.drop_last() == Seq::<Seq<char>>::empty());
    assert(fs.last() == f);
    assert(parse_filters(Seq::<Seq<char>>::empty()) == Ok::<_, ReceiptsLogErrorView>(
        Map::<(u128, u32), PruneMode>::empty(),
    ));
    let k = spec_parse_address(a)->0;
    assert(k.0 == hex_number(t.take(32)));
    assert(k.1 == hex_number(t.skip(32)));
    let key = (hex_number(t.take(32)) as u128, hex_number(t.skip(32)) as u32);
    assert(key.0 == k.0);
    assert(key.1 == k.1);
    assert(key == k);
    assert(parse_filters(fs) == Ok::<_, ReceiptsLogErrorView>(
        Map::<(u128, u32), PruneMode>::empty().insert(k, m),
    ));
}

/// The address part of a filter is refused exactly when it is no address,
/// and the refusal names that part; every other failure is of another kind.
pub proof fn lemma_invalid_address_iff_no_address(f: Seq<char>)
    requires
        split_at_char(f, ':').len() >= 2,
    ensures
        (spec_parse_filter(f) is Err && spec_parse_filter(f)->Err_0 is InvalidAddress)
            <==> spec_parse_address(split_at_char(f, ':')[0]) is None,
        spec_parse_address(split_at_char(f, ':')[0]) is None ==> spec_parse_filter(f)
            == Err::<((u128, u32), PruneMode), _>(
            ReceiptsLogErrorView::InvalidAddress(split_at_char(f, ':')[0]),
        ),
{
}

/// Each segment's own flags decide its mode, whatever `full` says: a
/// segment's `full` flag prunes it in full; otherwise its distance keeps
/// that many blocks and more; otherwise its block number prunes before that
/// block. With none of them and without `full`, the segment is not pruned.
/// For receipts this holds when neither the pre-merge flag nor a non-empty
/// log filter is given; for storage history, `bodies_before` stands after
/// its own three flags.
pub proof fn lemma_own_flags_decide_segment(args: PruningArgs, paris_block: Option<u64>)
    ensures
        ({
            let c = args.spec_prune_config(paris_block).segments;
            &&& args.sender_recovery_full ==> c.sender_recovery == Some(PruneMode::Full)
            &&& (!args.sender_recovery_full && args.sender_recovery_distance is Some)
                ==> c.sender_recovery == Some(PruneMode::Distance(args.sender_recovery_distance->0))
            &&& (!args.sender_recovery_full && args.sender_recovery_distance is None
                && args.sender_recovery_before is Some) ==> c.sender_recovery == Some(
                PruneMode::Before(args.sender_recovery_before->0),
            )
            &&& (!args.full && !args.sender_recovery_full && args.sender_recovery_distance is None
                && args.sender_recovery_before is None) ==> c.sender_recovery is None
            &&& args.transaction_lookup_full ==> c.transaction_lookup == Some(PruneMode::Full)
            &&& (!args.transaction_lookup_full && args.transaction_lookup_distance is Some)
                ==> c.transaction_lookup == Some(
                PruneMode::Distance(args.transaction_lookup_distance->0),
            )
            &&& (!args.transaction_lookup_full && args.transaction_lookup_distance is None
                && args.transaction_lookup_before is Some) ==> c.transaction_lookup == Some(
                PruneMode::Before(args.transaction_lookup_before->0),
            )
            &&& (!args.transaction_lookup_full && args.transaction_lookup_distance is None
                && args.transaction_lookup_before is None) ==> c.transaction_lookup is None
            &&& args.account_history_full ==> c.account_history == Some(PruneMode::Full)
            &&& (!args.account_history_full && args.account_history_distance is Some)
                ==> c.account_history == Some(PruneMode::Distance(args.account_history_distance->0))
            &&& (!args.account_history_full && args.account_history_distance is None
                && args.account_history_before is Some) ==> c.account_history == Some(
                PruneMode::Before(args.account_history_before->0),
            )
            &&& (!args.full && !args.account_history_full && args.account_history_distance is None
                && args.account_history_before is None) ==> c.account_history is None
            &&& args.storage_history_full ==> c.storage_history == Some(PruneMode::Full)
            &&& (!args.storage_history_full && args.storage_history_distance is Some)
                ==> c.storage_history == Some(PruneMode::Distance(args.storage_history_distance->0))
            &&& (!args.storage_history_full && args.storage_history_distance is None
                && args.storage_history_before is Some) ==> c.storage_history == Some(
                PruneMode::Before(args.storage_history_before->0),
            )
            &&& (!args.full && !args.storage_history_full && args.storage_history_distance is None
                && args.storage_history_before is None && args.bodies_before is None)
                ==> c.storage_history is None
            &&& (!args.receipts_pre_merge && !args.log_filter_applies()) ==> {
                &&& args.receipts_full ==> c.receipts == Some(PruneMode::Full)
                &&& (!args.receipts_full && args.receipts_distance is Some) ==> c.receipts
                    == Some(PruneMode::Distance(args.receipts_distance->0))
                &&& (!args.receipts_full && args.receipts_distance is None
                    && args.receipts_before is Some) ==> c.receipts == Some(
                    PruneMode::Before(args.receipts_before->0),
                )
                &&& (!args.full && !args.receipts_full && args.receipts_distance is None
                    && args.receipts_before is None) ==> c.receipts is None
            }
            &&& (args.receipts_pre_merge && !args.log_filter_applies() && paris_block is Some)
                ==> c.receipts == Some(PruneMode::Before(paris_block->0))
            &&& (args.bodies_pre_merge && paris_block is Some) ==> c.bodies_history == Some(
                PruneMode::Before(paris_block->0),
            )
            &&& (!args.bodies_pre_merge && args.bodies_distance is Some) ==> c.bodies_history
                == Some(PruneMode::Distance(args.bodies_distance->0))
        }),
{
}

/// `full` alone asks for the full-node configuration: all sender recovery
/// data pruned, and receipts, account history and storage history kept for
/// the last `MINIMUM_PRUNING_DISTANCE` blocks.
pub proof fn lemma_full_node_defaults(paris_block: Option<u64>)
    ensures
        ({
            let c = PruningArgs { full: true, ..PruningArgs::spec_none() }.spec_prune_config(
                paris_block,
            );
            &&& c.block_interval == DEFAULT_BLOCK_INTERVAL
            &&& c.segments.sender_recovery == Some(PruneMode::Full)
            &&& c.segments.transaction_lookup is None
            &&& c.segments.receipts == Some(PruneMode::Distance(MINIMUM_PRUNING_DISTANCE))
            &&& c.segments.account_history == Some(PruneMode::Distance(MINIMUM_PRUNING_DISTANCE))
            &&& c.segments.storage_history == Some(PruneMode::Distance(MINIMUM_PRUNING_DISTANCE))
            &&& c.segments.bodies_history is None
            &&& c.segments.receipts_log_filter.len() == 0
        }),
{
}

/// A given block interval is the configuration's, and a non-empty log
/// filter is taken as given.
pub proof fn lemma_interval_and_filter_taken_as_given(args: PruningArgs, paris_block: Option<u64>)
    ensures
        args.block_interval is Some ==> args.spec_prune_config(paris_block).block_interval
            == args.block_interval->0 as usize,
        args.log_filter_applies() ==> args.spec_prune_config(
            paris_block,
        ).segments.receipts_log_filter == args.receipts_log_filter->0@,
{
}

} // verus!

use vstd::prelude::*;

use crate::address::{spec_parse_address, Address};
use crate::decimal::{parse_u64, spec_parse_u64, IntErrorKind, ParseIntError};
use crate::text::{split_at_char, split_str, str_eq, views_of};
use crate::types::{PruneMode, ReceiptsLogPruneConfig};

verus! {

/// Why a receipts log filter is refused.
#[derive(Clone, Debug, PartialEq, Eq)]
pub enum ReceiptsLogError {
    /// A filter is not `<address>:<prune_mode>`; holds the filter.
    InvalidFilterFormat(String),
    /// The address part is no address; holds that part.
    InvalidAddress(String),
    /// The prune mode part is no prune mode; holds that part.
    InvalidPruneMode(String),
    /// The distance of `distance:<blocks>` is no `u64`.
    InvalidDistance(ParseIntError),
    /// The block number of `before:<block_number>` is no `u64`.
    InvalidBlockNumber(ParseIntError),
}

/// A [`ReceiptsLogError`] with its strings as character sequences.
pub enum ReceiptsLogErrorView {
    InvalidFilterFormat(Seq<char>),
    InvalidAddress(Seq<char>),
    InvalidPruneMode(Seq<char>),
    InvalidDistance(IntErrorKind),
    InvalidBlockNumber(IntErrorKind),
}

impl View for ReceiptsLogError {
    type V = ReceiptsLogErrorView;

    open spec fn view(&self) -> ReceiptsLogErrorView {
        match self {
            ReceiptsLogError::InvalidFilterFormat(s) => ReceiptsLogErrorView::InvalidFilterFormat(s@),
            ReceiptsLogError::InvalidAddress(s) => ReceiptsLogErrorView::InvalidAddress(s@),
            ReceiptsLogError::InvalidPruneMode(s) => ReceiptsLogErrorView::InvalidPruneMode(s@),
            ReceiptsLogError::InvalidDistance(e) => ReceiptsLogErrorView::InvalidDistance(e.kind),
            ReceiptsLogError::InvalidBlockNumber(e) => ReceiptsLogErrorView::InvalidBlockNumber(
                e.kind,
            ),
        }
    }
}

/// The prune mode word `full`.
pub open spec fn full_word() -> Seq<char> {
    seq!['f', 'u', 'l', 'l']
}

/// The prune mode word that asks for a distance.
pub open spec fn distance_word() -> Seq<char> {
    seq!['d', 'i', 's', 't', 'a', 'n', 'c', 'e']
}

/// The prune mode word that asks for a block number.
pub open spec fn before_word() -> Seq<char> {
    seq!['b', 'e', 'f', 'o', 'r', 'e']
}

/// What one filter denotes. The filter is split at every `:`; it must be
/// `<address>:full`, `<address>:distance:<blocks>` or
/// `<address>:before:<block_number>`. Fewer than two parts is a format
/// error; then the first part must be an address; then the second part must
/// be one of the three mode words, else it is an invalid prune mode; then
/// the number of parts must be the one that word asks for (two for `full`,
/// three for the others), else it is a format error; last, the third part
/// must be a decimal `u64`.
pub open spec fn spec_parse_filter(filter: Seq<char>) -> Result<
    ((u128, u32), PruneMode),
    ReceiptsLogErrorView,
> {
    let parts = split_at_char(filter, ':');
    if parts.len() < 2 {
        Err(ReceiptsLogErrorView::InvalidFilterFormat(filter))
    } else {
        match spec_parse_address(parts[0]) {
            None => Err(ReceiptsLogErrorView::InvalidAddress(parts[0])),
            Some(address) => if parts[1] == full_word() {
                if parts.len() != 2 {
                    Err(ReceiptsLogErrorView::InvalidFilterFormat(filter))
                } else {
                    Ok((address, PruneMode::Full))
                }
            } else if parts[1] == distance_word() {
                if parts.len() != 3 {
                    Err(ReceiptsLogErrorView::InvalidFilterFormat(filter))
                } else {
                    match spec_parse_u64(parts[2]) {
                        Ok(d) => Ok((address, PruneMode::Distance(d))),
                        Err(k) => Err(ReceiptsLogErrorView::InvalidDistance(k)),
                    }
                }
            } else if parts[1] == before_word() {
                if parts.len() != 3 {
                    Err(ReceiptsLogErrorView::InvalidFilterFormat(filter))
                } else {
                    match spec_parse_u64(parts[2]) {
                        Ok(b) => Ok((address, PruneMode::Before(b))),
                        Err(k) => Err(ReceiptsLogErrorView::InvalidBlockNumber(k)),
                    }
                }
            } else {
                Err(ReceiptsLogErrorView::InvalidPruneMode(parts[1]))
            },
        }
    }
}

/// The filters read in order into a map from address to prune mode, a later
/// filter for an address replacing an earlier one; the first filter that
/// fails decides the error.
pub open spec fn parse_filters(filters: Seq<Seq<char>>) -> Result<
    Map<(u128, u32), PruneMode>,
    ReceiptsLogErrorView,
>
    decreases filters.len(),
{
    if filters.len() == 0 {
        Ok(Map::empty())
    } else {
        match parse_filters(filters.drop_last()) {
            Err(e) => Err(e),
            Ok(m) => match spec_parse_filter(filters.last()) {
                Err(e) => Err(e),
                Ok((address, mode)) => Ok(m.insert(address, mode)),
            },
        }
    }
}

/// What a receipts log filter value denotes: its `,`-separated filters read
/// by [`parse_filters`].
pub open spec fn spec_parse_receipts_log_filter(value: Seq<char>) -> Result<
    Map<(u128, u32), PruneMode>,
    ReceiptsLogErrorView,
> {
    parse_filters(split_at_char(value, ','))
}

proof fn lemma_parse_filters_error_persists(filters: Seq<Seq<char>>, k: int)
    requires
        0 <= k <= filters.len(),
        parse_filters(filters.take(k)) is Err,
    ensures
        parse_filters(filters) == parse_filters(filters.take(k)),
    decreases filters.len(),
{
    if k < filters.len() {
        assert(filters.drop_last().take(k) == filters.take(k));
        lemma_parse_filters_error_persists(filters.drop_last(), k);
    } else {
        assert(filters.take(k) == filters);
    }
}

fn parse_filter(filter: &str) -> (res: Result<(Address, PruneMode), ReceiptsLogError>)
    ensures
        match res {
            Ok((a, m)) => spec_parse_filter(filter@) == Ok::<_, ReceiptsLogErrorView>((a@, m)),
            Err(e) => spec_parse_filter(filter@) == Err::<((u128, u32), PruneMode), _>(e@),
        },
{
    let parts = split_str(filter, ':');
    let ghost views = views_of(parts@);
    assert(views.len() == parts@.len());
    if parts.len() < 2 {
        return Err(ReceiptsLogError::InvalidFilterFormat(filter.to_owned()));
    }
    assert(views[0] == parts@[0]@ && views[1] == parts@[1]@);
    let address = match Address::parse_hex(parts[0]) {
        Some(a) => a,
        None => {
            return Err(ReceiptsLogError::InvalidAddress(parts[0].to_owned()));
        },
    };
    proof {
        reveal_strlit("full");
        reveal_strlit("distance");
        reveal_strlit("before");
        assert("full"@ == full_word());
        assert("distance"@ == distance_word());
        assert("before"@ == before_word());
    }
    let mode = if str_eq(parts[1], "full") {
        if parts.len() != 2 {
            return Err(ReceiptsLogError::InvalidFilterFormat(filter.to_owned()));
        }
        PruneMode::Full
    } else if str_eq(parts[1], "distance") {
        if parts.len() != 3 {
            return Err(ReceiptsLogError::InvalidFilterFormat(filter.to_owned()));
        }
        assert(views[2] == parts@[2]@);
        match parse_u64(parts[2]) {
            Ok(d) => PruneMode::Distance(d),
            Err(e) => {
                return Err(ReceiptsLogError::InvalidDistance(e));
            },
        }
    } else if str_eq(parts[1], "before") {
        if parts.len() != 3 {
            return Err(ReceiptsLogError::InvalidFilterFormat(filter.to_owned()));
        }
        assert(views[2] == parts@[2]@);
        match parse_u64(parts[2]) {
            Ok(b) => PruneMode::Before(b),
            Err(e) => {
                return Err(ReceiptsLogError::InvalidBlockNumber(e));
            },
        }
    } else {
        return Err(ReceiptsLogError::InvalidPruneMode(parts[1].to_owned()));
    };
    Ok((address, mode))
}

/// Parses `,`-separated receipts log filters, each
/// `<address>:<prune_mode>` where the prune mode is `full`,
/// `distance:<blocks>` or `before:<block_number>`, into a map from address
/// to prune mode; a later filter for an address replaces an earlier one.
pub fn parse_receipts_log_filter(value: &str) -> (res: Result<ReceiptsLogPruneConfig, ReceiptsLogError>)
    ensures
        match res {
            Ok(config) => spec_parse_receipts_log_filter(value@) == Ok::<_, ReceiptsLogErrorView>(
                config@,
            ),
            Err(e) => spec_parse_receipts_log_filter(value@) == Err::<
                Map<(u128, u32), PruneMode>,
                _,
            >(e@),
        },
{
    let mut config = ReceiptsLogPruneConfig::new();
    let filters = split_str(value, ',');
    let ghost views = views_of(filters@);
    assert(views.take(0) == Seq::<Seq<char>>::empty());
    let mut i: usize = 0;
    while i < filters.len()
        invariant
            views == views_of(filters@),
            views == split_at_char(value@, ','),
            i <= filters@.len(),
            parse_filters(views.take(i as int)) == Ok::<_, ReceiptsLogErrorView>(config@),
        decreases filters@.len() - i,
    {
        assert(views.take(i + 1).drop_last() == views.take(i as int));
        assert(views.take(i + 1).last() == filters@[i as int]@);
        match parse_filter(filters[i]) {
            Ok((address, mode)) => {
                config.insert(address, mode);
            },
            Err(e) => {
                proof {
                    lemma_parse_filters_error_persists(views, i + 1);
                }
                return Err(e);
            },
        }
        i = i + 1;
    }
    assert(views.take(filters@.len() as int) == views);
    Ok(config)
}

} // verus!

//! Running aggregates over the cells of a column, kept by the
//! `streaming-stats` crate.
//!
//! Nothing in this file is proved: each item states what the crate does,
//! and the statistics are proved from these statements.

use stats::{Frequencies, MinMax, OnlineStats};
use vstd::multiset::Multiset;
use vstd::prelude::*;

verus! {

/// `stats::OnlineStats`: the state of a running mean and deviation. Of
/// the two nothing is known here, only how many samples were taken in.
#[verifier::external_type_specification]
#[verifier::external_body]
pub struct ExOnlineStats(OnlineStats);

/// `stats::Frequencies`: a table that counts how often each sample was
/// added.
#[verifier::external_type_specification]
#[verifier::external_body]
#[verifier::reject_recursive_types(T)]
pub struct ExFrequencies<T>(Frequencies<T>);

/// `stats::MinMax`: a tracker of the least and the greatest sample.
#[verifier::external_type_specification]
#[verifier::external_body]
#[verifier::reject_recursive_types(T)]
pub struct ExMinMax<T>(MinMax<T>);

/// The integers that were added to a frequency table, each as often as it
/// was added.
pub uninterp spec fn integer_samples(table: Frequencies<i64>) -> Multiset<i64>;

/// The texts that were added to a frequency table, each as often as it was
/// added.
pub uninterp spec fn text_samples(table: Frequencies<String>) -> Multiset<Seq<char>>;

/// The integers that were added to a tracker of the least and the greatest.
pub uninterp spec fn extreme_samples(tracker: MinMax<i64>) -> Multiset<i64>;

/// How many samples were added to the state of a running mean and
/// deviation.
pub uninterp spec fn online_size(state: OnlineStats) -> nat;

/// `ranking` lists every distinct sample once, with the number of times it
/// occurs, those that occur most often first. Among samples that occur
/// equally often the order is open.
pub open spec fn ranks<T>(samples: Multiset<T>, ranking: Seq<(T, u64)>) -> bool {
    &&& ranking.len() == samples.dom().len()
    &&& forall|i: int|
        0 <= i < ranking.len() ==> (#[trigger] ranking[i]).1 > 0 && samples.count(ranking[i].0)
            == ranking[i].1
    &&& forall|i: int, j: int|
        0 <= i < j < ranking.len() ==> (#[trigger] ranking[i]).0 != (#[trigger] ranking[j]).0
    &&& forall|i: int, j: int|
        0 <= i < j < ranking.len() ==> (#[trigger] ranking[i]).1 >= (#[trigger] ranking[j]).1
}

/// `found` is the least of `samples`, or nothing where there is no sample.
pub open spec fn is_least(samples: Multiset<i64>, found: Option<i64>) -> bool {
    match found {
        Some(least) => samples.count(least) > 0 && forall|v: i64|
            samples.count(v) > 0 ==> least <= v,
        None => samples.len() == 0,
    }
}

/// `found` is the greatest of `samples`, or nothing where there is no
/// sample.
pub open spec fn is_greatest(samples: Multiset<i64>, found: Option<i64>) -> bool {
    match found {
        Some(greatest) => samples.count(greatest) > 0 && forall|v: i64|
            samples.count(v) > 0 ==> v <= greatest,
        None => samples.len() == 0,
    }
}

/// The texts of a ranking of strings.
pub open spec fn ranking_view(ranking: Seq<(String, u64)>) -> Seq<(Seq<char>, u64)> {
    ranking.map_values(|entry: (String, u64)| (entry.0@, entry.1))
}

/// `stats::Frequencies::new`: a table without samples.
#[verifier::external_body]
pub(crate) fn new_integer_frequencies() -> (table: Frequencies<i64>)
    ensures
        integer_samples(table) == Multiset::<i64>::empty(),
{
    Frequencies::new()
}

/// `stats::Frequencies::add`: one more occurrence of `value`. The count of
/// a value is a `u64`.
#[verifier::external_body]
pub(crate) fn add_integer(table: &mut Frequencies<i64>, value: i64)
    requires
        integer_samples(*old(table)).len() < u64::MAX,
    ensures
        integer_samples(*final(table)) == integer_samples(*old(table)).insert(value),
{
    table.add(value)
}

/// `stats::Frequencies::cardinality`: the number of distinct samples.
#[verifier::external_body]
pub(crate) fn integer_cardinality(table: &Frequencies<i64>) -> (n: u64)
    ensures
        n == integer_samples(*table).dom().len(),
{
    table.cardinality()
}

/// `stats::Frequencies::most_frequent`: the distinct samples with their
/// counts, by descending count.
#[verifier::external_body]
pub(crate) fn most_frequent_integers(table: &Frequencies<i64>) -> (ranking: Vec<(i64, u64)>)
    ensures
        ranks(integer_samples(*table), ranking@),
{
    table.most_frequent().into_iter().map(|(value, count)| (*value, count)).collect()
}

/// `stats::Frequencies::new`: a table without samples.
#[verifier::external_body]
pub(crate) fn new_text_frequencies() -> (table: Frequencies<String>)
    ensures
        text_samples(table) == Multiset::<Seq<char>>::empty(),
{
    Frequencies::new()
}

/// `stats::Frequencies::add`: one more occurrence of `value`. The count of
/// a value is a `u64`.
#[verifier::external_body]
pub(crate) fn add_text(table: &mut Frequencies<String>, value: String)
    requires
        text_samples(*old(table)).len() < u64::MAX,
    ensures
        text_samples(*final(table)) == text_samples(*old(table)).insert(value@),
{
    table.add(value)
}

/// `stats::Frequencies::cardinality`: the number of distinct samples.
#[verifier::external_body]
pub(crate) fn text_cardinality(table: &Frequencies<String>) -> (n: u64)
    ensures
        n == text_samples(*table).dom().len(),
{
    table.cardinality()
}

/// `stats::Frequencies::most_frequent`: the distinct samples with their
/// counts, by descending count.
#[verifier::external_body]
pub(crate) fn most_frequent_texts(table: &Frequencies<String>) -> (ranking: Vec<(String, u64)>)
    ensures
        ranks(text_samples(*table), ranking_view(ranking@)),
{
    table.most_frequent().into_iter().map(|(value, count)| (value.clone(), count)).collect()
}

/// `stats::MinMax::new`: a tracker without samples.
#[verifier::external_body]
pub(crate) fn new_min_max() -> (tracker: MinMax<i64>)
    ensures
        extreme_samples(tracker) == Multiset::<i64>::empty(),
{
    MinMax::new()
}

/// `stats::MinMax::add`: one more sample. The number of samples is a
/// `u64`.
#[verifier::external_body]
pub(crate) fn add_extreme(tracker: &mut MinMax<i64>, value: i64)
    requires
        extreme_samples(*old(tracker)).len() < u64::MAX,
    ensures
        extreme_samples(*final(tracker)) == extreme_samples(*old(tracker)).insert(value),
{
    tracker.add(value)
}

/// `stats::MinMax::min`: the least sample, or nothing where there is none.
#[verifier::external_body]
pub(crate) fn minimum(tracker: &MinMax<i64>) -> (found: Option<i64>)
    ensures
        is_least(extreme_samples(*tracker), found),
{
    tracker.min().copied()
}

/// `stats::MinMax::max`: the greatest sample, or nothing where there is
/// none.
#[verifier::external_body]
pub(crate) fn maximum(tracker: &MinMax<i64>) -> (found: Option<i64>)
    ensures
        is_greatest(extreme_samples(*tracker), found),
{
    tracker.max().copied()
}

/// `stats::OnlineStats::new`: the state before any sample.
#[verifier::external_body]
pub(crate) fn new_online_stats() -> (state: OnlineStats)
    ensures
        online_size(state) == 0,
{
    OnlineStats::new()
}

/// `stats::OnlineStats::add` with an integer sample. The number of samples
/// is a `u64`. Nothing is said of the mean and the deviation.
#[verifier::external_body]
pub(crate) fn add_to_online_stats(state: &mut OnlineStats, value: i64)
    requires
        online_size(*old(state)) < u64::MAX,
    ensures
        online_size(*final(state)) == online_size(*old(state)) + 1,
{
    state.add(value)
}

} // verus!

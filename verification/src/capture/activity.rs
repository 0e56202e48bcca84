//! Per-interface traffic counters, read from the text that the system's
//! interface statistics command prints.

use vstd::prelude::*;
use crate::capture::interface_detection::InterfaceDetector;
use crate::capture::routing_table::{CommandOutcome, Outcome};
use crate::name_map::NameMap;
use crate::numeral::{parse_u64, parsed_u64};
use crate::text::{lines, lines_of, slice_texts, split_whitespace, texts, words_of};

verus! {

/// The interface and its count of bytes sent that a line of statistics
/// reports: the first and the seventh of at least eight columns, where the
/// seventh is a number.
pub open spec fn stats_of_line(line: Seq<char>) -> Option<(Seq<char>, u64)> {
    let columns = words_of(line);
    if columns.len() >= 8 {
        match parsed_u64(columns[6]) {
            Some(bytes) => Some((columns[0], bytes)),
            None => None,
        }
    } else {
        None
    }
}

/// The counters that a sequence of lines reports. Where an interface is
/// reported more than once, the last report stands.
pub open spec fn activity_of_lines(all: Seq<Seq<char>>) -> Map<Seq<char>, u64>
    decreases all.len(),
{
    if all.len() == 0 {
        Map::empty()
    } else {
        let earlier = activity_of_lines(all.drop_last());
        match stats_of_line(all.last()) {
            Some((name, bytes)) => earlier.insert(name, bytes),
            None => earlier,
        }
    }
}

/// The interfaces that a sequence of lines reports, each once, in order
/// of first appearance.
pub open spec fn reported_names(all: Seq<Seq<char>>) -> Seq<Seq<char>>
    decreases all.len(),
{
    if all.len() == 0 {
        Seq::empty()
    } else {
        let earlier = reported_names(all.drop_last());
        match stats_of_line(all.last()) {
            Some((name, _)) => if activity_of_lines(all.drop_last()).contains_key(name) {
                earlier
            } else {
                earlier.push(name)
            },
            None => earlier,
        }
    }
}

/// The interfaces that a run of the statistics command reports, in order.
pub open spec fn reported_interfaces(outcome: Outcome) -> Seq<Seq<char>> {
    match outcome {
        Outcome::Completed(printed) => reported_names(lines_of(printed)),
        _ => Seq::empty(),
    }
}

/// The counters that a run of the statistics command gives: none unless it
/// ran to success.
pub open spec fn interface_activity(outcome: Outcome) -> Map<Seq<char>, u64> {
    match outcome {
        Outcome::Completed(printed) => activity_of_lines(lines_of(printed)),
        _ => Map::empty(),
    }
}

impl InterfaceDetector {
    /// Reads the per-interface counts of bytes sent. A command that did not
    /// run or failed, and lines of another shape, give no entry.
    pub fn get_interface_activity(outcome: &CommandOutcome) -> (activity: NameMap<u64>)
        ensures
            activity@ == interface_activity(outcome@),
            activity.names() == reported_interfaces(outcome@),
    {
        let mut activity: NameMap<u64> = NameMap::new();
        match outcome {
            CommandOutcome::Completed(printed) => {
                let all = lines(printed.as_str());
                let ghost every = lines_of(printed@);
                let mut i: usize = 0;
                assert(every.take(0) =~= Seq::<Seq<char>>::empty());
                while i < all.len()
                    invariant
                        i <= all.len(),
                        slice_texts(all@) == every,
                        activity@ == activity_of_lines(every.take(i as int)),
                        activity.names() == reported_names(every.take(i as int)),
                    decreases all.len() - i,
                {
                    proof {
                        let longer = every.take(i + 1);
                        assert(longer.drop_last() =~= every.take(i as int));
                        assert(longer.last() == all@[i as int]@);
                    }
                    match Self::parse_interface_stats_line(all[i]) {
                        Some((name, bytes)) => {
                            activity.insert(name, bytes);
                        },
                        None => {},
                    }
                    i += 1;
                }
                assert(every.take(i as int) =~= every);
            },
            _ => {},
        }
        activity
    }

    /// Reads one line of interface statistics.
    pub fn parse_interface_stats_line(line: &str) -> (stats: Option<(String, u64)>)
        ensures
            match stats {
                Some((name, bytes)) => stats_of_line(line@) == Some((name@, bytes)),
                None => stats_of_line(line@) is None,
            },
    {
        let parts = split_whitespace(line);
        if parts.len() >= 8 {
            assert(texts(parts@)[0] == parts@[0]@);
            assert(texts(parts@)[6] == parts@[6]@);
            match parse_u64(parts[6].as_str()) {
                Some(bytes) => {
                    return Some((parts[0].clone(), bytes));
                },
                None => {},
            }
        }
        None
    }
}

} // verus!

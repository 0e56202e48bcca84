//! The host's routing table, read from the text that `netstat` prints.
//!
//! The caller runs the command and hands over what came of it as a
//! [`CommandOutcome`]; reading the table is a function of that value.

use vstd::prelude::*;
use vstd::string::StringExecFns;
use crate::capture::interface_detection::{
    DetectionFailure, InterfaceDetectionError, InterfaceDetector,
};
use crate::text::{
    has_prefix, is_solid, lemma_words_are_solid, lines, lines_of, slice_texts, split_whitespace,
    starts_with, texts, trim, trimmed, words_of,
};

verus! {

/// One row of the routing table.
#[derive(Debug, Clone)]
pub struct RouteInfo {
    pub destination: String,
    pub gateway: String,
    pub interface: String,
    pub flags: String,
}

/// Mathematical content of a [`RouteInfo`].
pub struct Route {
    pub destination: Seq<char>,
    pub gateway: Seq<char>,
    pub interface: Seq<char>,
    pub flags: Seq<char>,
}

impl View for RouteInfo {
    type V = Route;

    open spec fn view(&self) -> Route {
        Route {
            destination: self.destination@,
            gateway: self.gateway@,
            interface: self.interface@,
            flags: self.flags@,
        }
    }
}

impl Route {
    /// A row names where it leads and through which interface.
    pub open spec fn well_formed(self) -> bool {
        self.destination.len() > 0 && self.interface.len() > 0
    }
}

/// The rows held by a sequence of entries.
pub open spec fn route_views(routes: Seq<RouteInfo>) -> Seq<Route> {
    routes.map_values(|r: RouteInfo| r@)
}

/// What came of running a system command.
#[derive(Debug, Clone)]
pub enum CommandOutcome {
    /// The command could not be started; the system's reason.
    NotRun(String),
    /// The command ran and reported failure.
    Failed,
    /// The command ran to success; what it printed.
    Completed(String),
}

/// Mathematical content of a [`CommandOutcome`].
pub enum Outcome {
    NotRun(Seq<char>),
    Failed,
    Completed(Seq<char>),
}

impl View for CommandOutcome {
    type V = Outcome;

    open spec fn view(&self) -> Outcome {
        match self {
            CommandOutcome::NotRun(reason) => Outcome::NotRun(reason@),
            CommandOutcome::Failed => Outcome::Failed,
            CommandOutcome::Completed(printed) => Outcome::Completed(printed@),
        }
    }
}

/// Whether a line, once trimmed, opens the table by naming its columns.
pub open spec fn is_header_line(line: Seq<char>) -> bool {
    has_prefix(trimmed(line), "Destination"@)
}

/// Whether a line of the table's body describes a route: it is no header
/// and holds at least four columns.
pub open spec fn is_route_line(line: Seq<char>) -> bool {
    !is_header_line(line) && words_of(trimmed(line)).len() >= 4
}

/// The row that a route line describes: destination, gateway, flags and
/// interface, in that order of columns.
pub open spec fn route_of_line(line: Seq<char>) -> Route {
    let columns = words_of(trimmed(line));
    Route {
        destination: columns[0],
        gateway: columns[1],
        flags: columns[2],
        interface: columns[3],
    }
}

/// The test that a line describes a route.
pub open spec fn route_line_test() -> spec_fn(Seq<char>) -> bool {
    |line: Seq<char>| is_route_line(line)
}

/// The reading of a route line as a row.
pub open spec fn route_line_reader() -> spec_fn(Seq<char>) -> Route {
    |line: Seq<char>| route_of_line(line)
}

/// The lines that follow the first header line; none where no line is a
/// header.
pub open spec fn table_body(all: Seq<Seq<char>>) -> Seq<Seq<char>>
    decreases all.len(),
{
    if all.len() == 0 {
        all
    } else if is_header_line(all.first()) {
        all.drop_first()
    } else {
        table_body(all.drop_first())
    }
}

/// The lines of the printed routing table `printed` that describe routes.
pub open spec fn route_lines(printed: Seq<char>) -> Seq<Seq<char>> {
    table_body(lines_of(printed)).filter(route_line_test())
}

/// The rows that the printed routing table `printed` holds.
pub open spec fn routes_in(printed: Seq<char>) -> Seq<Route> {
    route_lines(printed).map_values(route_line_reader())
}

/// The outcome of reading `printed` as a routing table: its rows, or a
/// parse failure where it holds none.
pub open spec fn parsed_table(printed: Seq<char>) -> Result<Seq<Route>, DetectionFailure> {
    if routes_in(printed).len() == 0 {
        Err(DetectionFailure::RoutingTableParse)
    } else {
        Ok(routes_in(printed))
    }
}

/// The routing table that a run of the routing query gives.
pub open spec fn routing_table(outcome: Outcome) -> Result<Seq<Route>, DetectionFailure> {
    match outcome {
        Outcome::NotRun(reason) => Err(
            DetectionFailure::CommandFailed("netstat failed: "@ + reason),
        ),
        Outcome::Failed => Err(DetectionFailure::CommandFailed("netstat command failed"@)),
        Outcome::Completed(printed) => parsed_table(printed),
    }
}

impl InterfaceDetector {
    /// Turns the outcome of the routing query into the routing table.
    pub fn get_routing_table(outcome: &CommandOutcome) -> (table: Result<
        Vec<RouteInfo>,
        InterfaceDetectionError,
    >)
        ensures
            match table {
                Ok(routes) => routing_table(outcome@) == Ok::<Seq<Route>, DetectionFailure>(
                    route_views(routes@),
                ),
                Err(e) => routing_table(outcome@) == Err::<Seq<Route>, DetectionFailure>(e@),
            },
            table matches Ok(routes) ==> routes@.len() > 0 && forall|i: int|
                0 <= i < routes@.len() ==> (#[trigger] routes@[i])@.well_formed(),
    {
        match outcome {
            CommandOutcome::NotRun(reason) => Err(
                InterfaceDetectionError::CommandFailed(
                    String::from_str("netstat failed: ").concat(reason.as_str()),
                ),
            ),
            CommandOutcome::Failed => Err(
                InterfaceDetectionError::CommandFailed(String::from_str("netstat command failed")),
            ),
            CommandOutcome::Completed(printed) => Self::parse_macos_routing_table(
                printed.as_str(),
            ),
        }
    }

    /// Reads the rows of a printed routing table. Lines up to and including
    /// the first header line are passed over; of the rest, each line with at
    /// least four columns gives a row.
    pub fn parse_macos_routing_table(output: &str) -> (table: Result<
        Vec<RouteInfo>,
        InterfaceDetectionError,
    >)
        ensures
            match table {
                Ok(routes) => parsed_table(output@) == Ok::<Seq<Route>, DetectionFailure>(
                    route_views(routes@),
                ),
                Err(e) => parsed_table(output@) == Err::<Seq<Route>, DetectionFailure>(e@),
            },
            table matches Ok(routes) ==> routes@.len() > 0 && forall|i: int|
                0 <= i < routes@.len() ==> (#[trigger] routes@[i])@.well_formed(),
    {
        let all = lines(output);
        let ghost every = lines_of(output@);
        let mut routes: Vec<RouteInfo> = Vec::new();
        let mut parsing_routes = false;
        let ghost mut body_start: int = 0;
        let mut i: usize = 0;
        assert(every.skip(0) =~= every);
        while i < all.len()
            invariant
                i <= all.len(),
                slice_texts(all@) == every,
                !parsing_routes ==> routes@.len() == 0 && table_body(every) == table_body(
                    every.skip(i as int),
                ),
                parsing_routes ==> {
                    &&& 0 <= body_start <= i
                    &&& table_body(every) == every.skip(body_start)
                    &&& route_views(routes@) == every.subrange(body_start, i as int).filter(
                        route_line_test(),
                    ).map_values(route_line_reader())
                },
            decreases all.len() - i,
        {
            let line = trim(all[i]);
            let ghost raw = every[i as int];
            assert(raw == all@[i as int]@);
            let ghost tail = every.skip(i as int);
            assert(tail.first() == raw);
            assert(tail.drop_first() =~= every.skip(i + 1));
            let ghost seen = every.subrange(body_start, i as int);
            proof {
                if parsing_routes {
                    assert(every.subrange(body_start, i + 1) =~= seen.push(raw));
                    seen.lemma_filter_push(raw, route_line_test());
                    seen.filter(route_line_test()).lemma_push_map_commute(
                        route_line_reader(),
                        raw,
                    );
                }
            }
            if starts_with(line, "Destination") {
                if !parsing_routes {
                    parsing_routes = true;
                    proof {
                        body_start = i + 1;
                        let none = every.subrange(body_start, i + 1);
                        assert(none =~= Seq::<Seq<char>>::empty());
                        assert(none.filter(route_line_test()) =~= Seq::<Seq<char>>::empty());
                        assert(route_views(routes@) =~= none.filter(
                            route_line_test(),
                        ).map_values(route_line_reader()));
                    }
                }
            } else if parsing_routes {
                let parts = split_whitespace(line);
                if parts.len() >= 4 {
                    let route = RouteInfo {
                        destination: parts[0].clone(),
                        gateway: parts[1].clone(),
                        flags: parts[2].clone(),
                        interface: parts[3].clone(),
                    };
                    proof {
                        let columns = words_of(trimmed(raw));
                        assert(columns[0] == texts(parts@)[0]);
                        assert(columns[1] == texts(parts@)[1]);
                        assert(columns[2] == texts(parts@)[2]);
                        assert(columns[3] == texts(parts@)[3]);
                        assert(route@ == route_of_line(raw));
                        assert(route_views(routes@.push(route)) =~= route_views(routes@).push(
                            route@,
                        ));
                    }
                    routes.push(route);
                }
            }
            i += 1;
        }
        proof {
            if parsing_routes {
                assert(every.subrange(body_start, i as int) =~= every.skip(body_start));
            } else {
                let none = every.skip(i as int);
                assert(none.len() == 0);
                assert(table_body(every) =~= Seq::<Seq<char>>::empty());
                assert(table_body(every).filter(route_line_test()) =~= Seq::<Seq<char>>::empty());
                assert(routes_in(output@) =~= Seq::<Route>::empty());
            }
            assert(routes_in(output@) == route_views(routes@));
            lemma_rows_are_well_formed(output@);
            assert forall|i: int| 0 <= i < routes@.len() implies (#[trigger] routes@[i])@.well_formed() by {
                assert(route_views(routes@)[i] == routes@[i]@);
            }
        }
        if routes.len() == 0 {
            return Err(InterfaceDetectionError::RoutingTableParse);
        }
        Ok(routes)
    }
}

/// Every row read from a printed table names its destination and its
/// interface.
pub proof fn lemma_rows_are_well_formed(printed: Seq<char>)
    ensures
        forall|i: int|
            0 <= i < routes_in(printed).len() ==> (#[trigger] routes_in(printed)[i]).well_formed(),
{
    let kept = table_body(lines_of(printed)).filter(route_line_test());
    assert forall|i: int| 0 <= i < routes_in(printed).len() implies (#[trigger] routes_in(
        printed,
    )[i]).well_formed() by {
        let line = kept[i];
        table_body(lines_of(printed)).lemma_filter_pred(route_line_test(), i);
        assert(is_route_line(line));
        assert(routes_in(printed)[i] == route_of_line(line));
        let columns = words_of(trimmed(line));
        lemma_words_are_solid(trimmed(line));
        assert(is_solid(columns[0]));
        assert(is_solid(columns[3]));
    }
}

} // verus!

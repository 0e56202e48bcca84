//! Choosing a network interface from the host's routing table.

use vstd::prelude::*;
use vstd::string::StringExecFns;
use crate::capture::routing_table::{
    route_lines, route_of_line, route_views, routes_in, routing_table, CommandOutcome, Outcome,
    Route, RouteInfo,
};
use crate::search::{first_index, lemma_first_index_is, lemma_first_index_none};
use crate::numeral::is_digit;
use crate::text::{
    chars_of, chars_share_prefix, contains, has_infix, has_prefix, holds_name, same_text,
    span_before, starts_with, texts, trimmed, words_of, lemma_span_before_bound,
    lemma_span_before_is,
};

verus! {

/// Why an interface could not be determined.
#[derive(Debug)]
pub enum InterfaceDetectionError {
    CommandFailed(String),
    RoutingTableParse,
    NoDefaultRoute,
    InterfaceNotFound(String),
}

/// Mathematical content of an [`InterfaceDetectionError`].
pub enum DetectionFailure {
    CommandFailed(Seq<char>),
    RoutingTableParse,
    NoDefaultRoute,
    InterfaceNotFound(Seq<char>),
}

impl View for InterfaceDetectionError {
    type V = DetectionFailure;

    open spec fn view(&self) -> DetectionFailure {
        match self {
            InterfaceDetectionError::CommandFailed(m) => DetectionFailure::CommandFailed(m@),
            InterfaceDetectionError::RoutingTableParse => DetectionFailure::RoutingTableParse,
            InterfaceDetectionError::NoDefaultRoute => DetectionFailure::NoDefaultRoute,
            InterfaceDetectionError::InterfaceNotFound(n) => DetectionFailure::InterfaceNotFound(
                n@,
            ),
        }
    }
}

/// The sentence that describes a failure.
pub open spec fn failure_text(failure: DetectionFailure) -> Seq<char> {
    match failure {
        DetectionFailure::CommandFailed(m) => "Failed to execute command: "@ + m,
        DetectionFailure::RoutingTableParse => "Failed to parse routing table"@,
        DetectionFailure::NoDefaultRoute => "No default route found"@,
        DetectionFailure::InterfaceNotFound(n) => "Interface not found: "@ + n,
    }
}

impl InterfaceDetectionError {
    /// The sentence that describes this error.
    pub fn message(&self) -> (text: String)
        ensures
            text@ == failure_text(self@),
    {
        match self {
            InterfaceDetectionError::CommandFailed(m) => {
                String::from_str("Failed to execute command: ").concat(m.as_str())
            },
            InterfaceDetectionError::RoutingTableParse => String::from_str(
                "Failed to parse routing table",
            ),
            InterfaceDetectionError::NoDefaultRoute => String::from_str("No default route found"),
            InterfaceDetectionError::InterfaceNotFound(n) => {
                String::from_str("Interface not found: ").concat(n.as_str())
            },
        }
    }
}

/// Whether a destination stands for the default route.
pub open spec fn is_default_destination(destination: Seq<char>) -> bool {
    ||| destination == "default"@
    ||| destination == "0.0.0.0"@
    ||| has_prefix(destination, "0.0.0.0/0"@)
}

/// The test that a row stands for the default route.
pub open spec fn default_route_test() -> spec_fn(Route) -> bool {
    |route: Route| is_default_destination(route.destination)
}

/// The interface of the first default route among `routes`.
pub open spec fn default_interface(routes: Seq<Route>) -> Option<Seq<char>> {
    match first_index(routes, default_route_test()) {
        Some(i) => Some(routes[i].interface),
        None => None,
    }
}

/// What the default-interface lookup gives for a run of the routing query.
pub open spec fn default_interface_of(outcome: Outcome) -> Result<Seq<char>, DetectionFailure> {
    match routing_table(outcome) {
        Err(failure) => Err(failure),
        Ok(routes) => match default_interface(routes) {
            Some(name) => Ok(name),
            None => Err(DetectionFailure::NoDefaultRoute),
        },
    }
}

/// Whether an interface name marks a loopback interface.
pub open spec fn is_loopback_name(name: Seq<char>) -> bool {
    has_infix(name, "lo"@) || has_infix(name, "loopback"@)
}

/// Whether a destination lies on the local host.
pub open spec fn is_local_destination(destination: Seq<char>) -> bool {
    has_prefix(destination, "127."@) || has_prefix(destination, "::1"@)
}

/// Whether a row shows its interface to carry traffic that leaves the host.
pub open spec fn is_active_route(route: Route) -> bool {
    !is_loopback_name(route.interface) && !is_local_destination(route.destination)
}

/// The interfaces of the active rows, each once, in order of first
/// appearance.
pub open spec fn active_interfaces(routes: Seq<Route>) -> Seq<Seq<char>>
    decreases routes.len(),
{
    if routes.len() == 0 {
        Seq::empty()
    } else {
        let earlier = active_interfaces(routes.drop_last());
        let route = routes.last();
        if is_active_route(route) && !earlier.contains(route.interface) {
            earlier.push(route.interface)
        } else {
            earlier
        }
    }
}

/// What the enumeration of active interfaces gives for a run of the
/// routing query.
pub open spec fn active_interfaces_of(outcome: Outcome) -> Result<
    Seq<Seq<char>>,
    DetectionFailure,
> {
    match routing_table(outcome) {
        Err(failure) => Err(failure),
        Ok(routes) => Ok(active_interfaces(routes)),
    }
}

/// Whether `address` looks like an IP literal: it holds a digit and a dot.
pub open spec fn looks_like_ip(address: Seq<char>) -> bool {
    &&& exists|k: int| 0 <= k < address.len() && is_digit(#[trigger] address[k])
    &&& address.contains('.')
}

/// What a destination must begin with to fall under the route destination
/// `route_destination`, which is in CIDR form: the part before the first
/// slash, without its last three characters.
pub open spec fn network_prefix(route_destination: Seq<char>) -> Seq<char> {
    let network = span_before(route_destination, '/') as int;
    let kept = if network >= 3 {
        network - 3
    } else {
        0
    };
    route_destination.take(kept)
}

/// Whether a row with destination `route_destination` applies to traffic
/// for `destination`: the two are the same text, or the row's destination
/// is in CIDR form and `destination` begins with its network prefix. The
/// default route is no match; it is what remains where no row matches.
pub open spec fn route_matches(destination: Seq<char>, route_destination: Seq<char>) -> bool {
    ||| destination == route_destination
    ||| (route_destination.contains('/') && has_prefix(
        destination,
        network_prefix(route_destination),
    ))
}

/// The test that a row applies to traffic for `destination`.
pub open spec fn matching_route_test(destination: Seq<char>) -> spec_fn(Route) -> bool {
    |route: Route| route_matches(destination, route.destination)
}

/// The interface predicted for traffic to `destination`: that of the first
/// matching row where the destination looks like an IP literal and a row
/// matches, else that of the default route.
pub open spec fn predicted_interface(routes: Seq<Route>, destination: Seq<char>) -> Option<
    Seq<char>,
> {
    if looks_like_ip(destination) {
        match first_index(routes, matching_route_test(destination)) {
            Some(i) => Some(routes[i].interface),
            None => default_interface(routes),
        }
    } else {
        default_interface(routes)
    }
}

/// What the prediction gives for a run of the routing query.
pub open spec fn predicted_interface_of(outcome: Outcome, destination: Seq<char>) -> Result<
    Seq<char>,
    DetectionFailure,
> {
    match routing_table(outcome) {
        Err(failure) => Err(failure),
        Ok(routes) => match predicted_interface(routes, destination) {
            Some(name) => Ok(name),
            None => Err(DetectionFailure::NoDefaultRoute),
        },
    }
}

/// Namespace of the interface-selection rules.
pub struct InterfaceDetector;

impl InterfaceDetector {
    /// Finds the interface that the default route uses: that of the first
    /// row whose destination is `default`, `0.0.0.0` or begins with
    /// `0.0.0.0/0`.
    pub fn get_default_interface(outcome: &CommandOutcome) -> (found: Result<
        String,
        InterfaceDetectionError,
    >)
        ensures
            match found {
                Ok(name) => default_interface_of(outcome@) == Ok::<Seq<char>, DetectionFailure>(
                    name@,
                ),
                Err(e) => default_interface_of(outcome@) == Err::<Seq<char>, DetectionFailure>(
                    e@,
                ),
            },
    {
        let routes = match Self::get_routing_table(outcome) {
            Ok(routes) => routes,
            Err(e) => {
                return Err(e);
            },
        };
        let ghost rows = route_views(routes@);
        let mut i: usize = 0;
        while i < routes.len()
            invariant
                i <= routes.len(),
                rows == route_views(routes@),
                routing_table(outcome@) == Ok::<Seq<Route>, DetectionFailure>(rows),
                forall|j: int| 0 <= j < i ==> !default_route_test()(#[trigger] rows[j]),
            decreases routes.len() - i,
        {
            assert(rows[i as int] == routes@[i as int]@);
            if Self::is_default_destination(routes[i].destination.as_str()) {
                let name = routes[i].interface.clone();
                proof {
                    lemma_first_index_is(rows, default_route_test(), i as int);
                    assert(name@ == rows[i as int].interface);
                    assert(default_interface(rows) == Some(name@));
                }
                return Ok(name);
            }
            i += 1;
        }
        proof {
            lemma_first_index_none(rows, default_route_test());
        }
        Err(InterfaceDetectionError::NoDefaultRoute)
    }

    /// Tells whether `destination` stands for the default route.
    pub fn is_default_destination(destination: &str) -> (r: bool)
        ensures
            r == is_default_destination(destination@),
    {
        same_text(destination, "default") || same_text(destination, "0.0.0.0") || starts_with(
            destination,
            "0.0.0.0/0",
        )
    }

    /// Tells whether `name` marks a loopback interface.
    pub fn is_loopback_name(name: &str) -> (r: bool)
        ensures
            r == is_loopback_name(name@),
    {
        contains(name, "lo") || contains(name, "loopback")
    }

    /// Tells whether `route` shows its interface to carry traffic that
    /// leaves the host.
    pub fn is_active_route(route: &RouteInfo) -> (r: bool)
        ensures
            r == is_active_route(route@),
    {
        !Self::is_loopback_name(route.interface.as_str()) && !starts_with(
            route.destination.as_str(),
            "127.",
        ) && !starts_with(route.destination.as_str(), "::1")
    }

    /// Lists the interfaces that carry traffic leaving the host: those of
    /// all rows but loopback and local ones, each interface once.
    pub fn get_active_interfaces(outcome: &CommandOutcome) -> (found: Result<
        Vec<String>,
        InterfaceDetectionError,
    >)
        ensures
            match found {
                Ok(names) => active_interfaces_of(outcome@) == Ok::<
                    Seq<Seq<char>>,
                    DetectionFailure,
                >(texts(names@)),
                Err(e) => active_interfaces_of(outcome@) == Err::<
                    Seq<Seq<char>>,
                    DetectionFailure,
                >(e@),
            },
    {
        let routes = match Self::get_routing_table(outcome) {
            Ok(routes) => routes,
            Err(e) => {
                return Err(e);
            },
        };
        let ghost rows = route_views(routes@);
        let mut names: Vec<String> = Vec::new();
        let mut i: usize = 0;
        assert(rows.take(0) =~= Seq::<Route>::empty());
        assert(texts(names@) =~= Seq::<Seq<char>>::empty());
        while i < routes.len()
            invariant
                i <= routes.len(),
                rows == route_views(routes@),
                texts(names@) == active_interfaces(rows.take(i as int)),
            decreases routes.len() - i,
        {
            proof {
                let longer = rows.take(i + 1);
                assert(longer.drop_last() =~= rows.take(i as int));
                assert(longer.last() == routes@[i as int]@);
            }
            if Self::is_active_route(&routes[i]) && !holds_name(
                &names,
                routes[i].interface.as_str(),
            ) {
                let name = routes[i].interface.clone();
                assert(texts(names@.push(name)) =~= texts(names@).push(name@));
                names.push(name);
            }
            i += 1;
        }
        assert(rows.take(i as int) =~= rows);
        Ok(names)
    }

    /// Predicts the interface that traffic to `destination` will use.
    pub fn predict_interface_for_destination(outcome: &CommandOutcome, destination: &str) -> (found:
        Result<String, InterfaceDetectionError>)
        ensures
            match found {
                Ok(name) => predicted_interface_of(outcome@, destination@) == Ok::<
                    Seq<char>,
                    DetectionFailure,
                >(name@),
                Err(e) => predicted_interface_of(outcome@, destination@) == Err::<
                    Seq<char>,
                    DetectionFailure,
                >(e@),
            },
    {
        let routes = match Self::get_routing_table(outcome) {
            Ok(routes) => routes,
            Err(e) => {
                return Err(e);
            },
        };
        let ghost rows = route_views(routes@);
        let ghost test = matching_route_test(destination@);
        if Self::is_ip_address(destination) {
            let mut i: usize = 0;
            while i < routes.len()
                invariant
                    i <= routes.len(),
                    rows == route_views(routes@),
                    test == matching_route_test(destination@),
                    looks_like_ip(destination@),
                    routing_table(outcome@) == Ok::<Seq<Route>, DetectionFailure>(rows),
                    forall|j: int| 0 <= j < i ==> !test(#[trigger] rows[j]),
                decreases routes.len() - i,
            {
                assert(rows[i as int] == routes@[i as int]@);
                if Self::matches_route(destination, routes[i].destination.as_str()) {
                    let name = routes[i].interface.clone();
                    proof {
                        lemma_first_index_is(rows, test, i as int);
                        assert(predicted_interface(rows, destination@) == Some(name@));
                    }
                    return Ok(name);
                }
                i += 1;
            }
            proof {
                lemma_first_index_none(rows, test);
            }
        }
        Self::get_default_interface(outcome)
    }

    /// Tells whether `addr` looks like an IP literal.
    pub fn is_ip_address(addr: &str) -> (r: bool)
        ensures
            r == looks_like_ip(addr@),
    {
        let chars = chars_of(addr);
        let mut digit = false;
        let mut dot = false;
        let mut i: usize = 0;
        while i < chars.len()
            invariant
                i <= chars.len(),
                digit == exists|k: int| 0 <= k < i && is_digit(#[trigger] chars@[k]),
                dot == chars@.take(i as int).contains('.'),
            decreases chars.len() - i,
        {
            let c = chars[i];
            proof {
                let seen = chars@.take(i as int);
                let longer = chars@.take(i + 1);
                assert(longer =~= seen.push(c));
                if longer.contains('.') {
                    let k = choose|k: int| 0 <= k < longer.len() && longer[k] == '.';
                    if k < i {
                        assert(seen[k] == '.');
                    }
                }
                if seen.contains('.') {
                    let k = choose|k: int| 0 <= k < seen.len() && seen[k] == '.';
                    assert(longer[k] == '.');
                }
                if c == '.' {
                    assert(longer[i as int] == '.');
                }
            }
            if '0' <= c && c <= '9' {
                digit = true;
            }
            if c == '.' {
                dot = true;
            }
            i += 1;
        }
        assert(chars@.take(i as int) =~= chars@);
        digit && dot
    }

    /// Tells whether a row with destination `route_dest` applies to traffic
    /// for `destination`.
    pub fn matches_route(destination: &str, route_dest: &str) -> (r: bool)
        ensures
            r == route_matches(destination@, route_dest@),
    {
        if same_text(destination, route_dest) {
            return true;
        }
        let route_chars = chars_of(route_dest);
        let mut slash: usize = 0;
        while slash < route_chars.len() && route_chars[slash] != '/'
            invariant
                slash <= route_chars.len(),
                forall|k: int| 0 <= k < slash ==> #[trigger] route_chars@[k] != '/',
            decreases route_chars.len() - slash,
        {
            slash += 1;
        }
        proof {
            lemma_span_before_is(route_chars@, '/', slash as int);
            lemma_span_before_bound(route_chars@, '/');
        }
        if slash == route_chars.len() {
            return false;
        }
        let kept: usize = if slash >= 3 {
            slash - 3
        } else {
            0
        };
        let chars = chars_of(destination);
        chars_share_prefix(&chars, &route_chars, kept)
    }
}

/// Where a line of the printed table describes a route to `default`, and
/// no route line before it describes a default route, the lookup gives the
/// interface that the line names in its fourth column.
pub proof fn lemma_default_line_is_found(printed: Seq<char>, k: int)
    requires
        0 <= k < route_lines(printed).len(),
        words_of(trimmed(route_lines(printed)[k]))[0] == "default"@,
        forall|j: int|
            0 <= j < k ==> !is_default_destination(
                words_of(trimmed(#[trigger] route_lines(printed)[j]))[0],
            ),
    ensures
        default_interface_of(Outcome::Completed(printed)) == Ok::<Seq<char>, DetectionFailure>(
            words_of(trimmed(route_lines(printed)[k]))[3],
        ),
{
    let routes = routes_in(printed);
    assert forall|j: int| 0 <= j < k implies !is_default_destination(
        #[trigger] routes[j].destination,
    ) by {
        assert(routes[j] == route_of_line(route_lines(printed)[j]));
    }
    assert(routes[k] == route_of_line(route_lines(printed)[k]));
    lemma_first_default_row_wins(Outcome::Completed(printed), routes, k);
}

/// The lookup gives the interface of the first row that stands for the
/// default route, whatever form its destination has.
pub proof fn lemma_first_default_row_wins(outcome: Outcome, routes: Seq<Route>, i: int)
    requires
        routing_table(outcome) == Ok::<Seq<Route>, DetectionFailure>(routes),
        0 <= i < routes.len(),
        is_default_destination(routes[i].destination),
        forall|j: int| 0 <= j < i ==> !is_default_destination(#[trigger] routes[j].destination),
    ensures
        default_interface_of(outcome) == Ok::<Seq<char>, DetectionFailure>(routes[i].interface),
{
    assert forall|j: int| 0 <= j < i implies !default_route_test()(#[trigger] routes[j]) by {
        assert(!is_default_destination(routes[j].destination));
    }
    lemma_first_index_is(routes, default_route_test(), i);
}

/// A table none of whose rows stands for the default route has no default
/// interface: the lookup fails with `NoDefaultRoute`.
pub proof fn lemma_no_default_row(outcome: Outcome, routes: Seq<Route>)
    requires
        routing_table(outcome) == Ok::<Seq<Route>, DetectionFailure>(routes),
        forall|j: int|
            0 <= j < routes.len() ==> !is_default_destination(#[trigger] routes[j].destination),
    ensures
        default_interface_of(outcome) == Err::<Seq<char>, DetectionFailure>(
            DetectionFailure::NoDefaultRoute,
        ),
{
    assert forall|j: int| 0 <= j < routes.len() implies !default_route_test()(
        #[trigger] routes[j],
    ) by {
        assert(!is_default_destination(routes[j].destination));
    }
    lemma_first_index_none(routes, default_route_test());
}

/// The active interfaces are exactly the interfaces of the active rows,
/// each listed once.
pub proof fn lemma_active_interfaces(routes: Seq<Route>)
    ensures
        active_interfaces(routes).no_duplicates(),
        forall|name: Seq<char>|
            active_interfaces(routes).contains(name) <==> exists|i: int|
                0 <= i < routes.len() && (#[trigger] routes[i]).interface == name
                    && is_active_route(routes[i]),
    decreases routes.len(),
{
    let listed = active_interfaces(routes);
    if routes.len() == 0 {
    } else {
        let earlier_rows = routes.drop_last();
        let earlier = active_interfaces(earlier_rows);
        let route = routes.last();
        lemma_active_interfaces(earlier_rows);
        assert forall|name: Seq<char>| listed.contains(name) <==> exists|i: int|
            0 <= i < routes.len() && (#[trigger] routes[i]).interface == name && is_active_route(
                routes[i],
            ) by {
            if listed.contains(name) {
                if earlier.contains(name) {
                    let i = choose|i: int|
                        0 <= i < earlier_rows.len() && (#[trigger] earlier_rows[i]).interface
                            == name && is_active_route(earlier_rows[i]);
                    assert(routes[i] == earlier_rows[i]);
                } else {
                    let k = choose|k: int| 0 <= k < listed.len() && listed[k] == name;
                    if k < earlier.len() {
                        assert(earlier[k] == name);
                    }
                    assert(routes[routes.len() - 1].interface == name);
                }
            }
            if exists|i: int|
                0 <= i < routes.len() && (#[trigger] routes[i]).interface == name
                    && is_active_route(routes[i]) {
                let i = choose|i: int|
                    0 <= i < routes.len() && (#[trigger] routes[i]).interface == name
                        && is_active_route(routes[i]);
                if i < earlier_rows.len() {
                    assert(earlier_rows[i] == routes[i]);
                    assert(earlier.contains(name));
                    let k = choose|k: int| 0 <= k < earlier.len() && earlier[k] == name;
                    assert(listed[k] == name);
                } else {
                    if earlier.contains(name) {
                        let k = choose|k: int| 0 <= k < earlier.len() && earlier[k] == name;
                        assert(listed[k] == name);
                    } else {
                        assert(listed[earlier.len() as int] == name);
                    }
                }
            }
        }
    }
}

/// No active interface is a loopback, and each has a row whose destination
/// is not local.
pub proof fn lemma_active_interfaces_leave_the_host(routes: Seq<Route>, k: int)
    requires
        0 <= k < active_interfaces(routes).len(),
    ensures
        !has_infix(active_interfaces(routes)[k], "lo"@),
        !has_infix(active_interfaces(routes)[k], "loopback"@),
        exists|i: int|
            0 <= i < routes.len() && (#[trigger] routes[i]).interface == active_interfaces(
                routes,
            )[k] && !has_prefix(routes[i].destination, "127."@) && !has_prefix(
                routes[i].destination,
                "::1"@,
            ),
{
    lemma_active_interfaces(routes);
    let name = active_interfaces(routes)[k];
    assert(active_interfaces(routes).contains(name));
    let i = choose|i: int|
        0 <= i < routes.len() && (#[trigger] routes[i]).interface == name && is_active_route(
            routes[i],
        );
    assert(routes[i].interface == name);
}

/// A row to `default` matches no destination but the word itself: the
/// default route is taken only where no row matches.
pub proof fn lemma_default_row_is_no_match(destination: Seq<char>)
    requires
        destination != "default"@,
    ensures
        !route_matches(destination, "default"@),
{
    reveal_strlit("default");
    let word = "default"@;
    if word.contains('/') {
        let k = choose|k: int| 0 <= k < word.len() && word[k] == '/';
        assert(word[k] != '/');
    }
}

/// For a destination that looks like an IP literal, the first row that
/// matches it gives the interface, whatever default route the table holds
/// and wherever it stands.
pub proof fn lemma_matching_row_wins(routes: Seq<Route>, destination: Seq<char>, i: int)
    requires
        looks_like_ip(destination),
        0 <= i < routes.len(),
        route_matches(destination, routes[i].destination),
        forall|j: int| 0 <= j < i ==> !route_matches(destination, (#[trigger] routes[j]).destination),
    ensures
        predicted_interface(routes, destination) == Some(routes[i].interface),
{
    let test = matching_route_test(destination);
    assert forall|j: int| 0 <= j < i implies !test(#[trigger] routes[j]) by {
        assert(!route_matches(destination, routes[j].destination));
    }
    lemma_first_index_is(routes, test, i);
}

/// Where no row matches, or the destination does not look like an IP
/// literal, the prediction is the default interface.
pub proof fn lemma_prediction_falls_back(routes: Seq<Route>, destination: Seq<char>)
    requires
        !looks_like_ip(destination) || forall|j: int|
            0 <= j < routes.len() ==> !route_matches(
                destination,
                (#[trigger] routes[j]).destination,
            ),
    ensures
        predicted_interface(routes, destination) == default_interface(routes),
{
    if looks_like_ip(destination) {
        let test = matching_route_test(destination);
        assert forall|j: int| 0 <= j < routes.len() implies !test(#[trigger] routes[j]) by {
            assert(!route_matches(destination, routes[j].destination));
        }
        lemma_first_index_none(routes, test);
    }
}

} // verus!

use vstd::prelude::*;

use crate::vals::{port_of, SocketAddr};

verus! {

/// A STUN server to probe.
pub struct StunServer {
    pub hostname: String,
    pub port: u16,
}

/// A span of time, as seconds and the nanoseconds beyond them.
#[derive(Debug, Clone, Copy, PartialEq, Eq, Structural)]
pub struct Span {
    pub secs: u64,
    pub nanos: u32,
}

/// How one socket of a server answered a binding request.
pub enum StunSocketResponse {
    HealthyResponse { rtt: Span },
    InvalidMappingResponse { expected: SocketAddr, actual: SocketAddr, rtt: Span },
    Timeout { deadline: Span },
    UnexpectedError { err: String },
}

impl StunSocketResponse {
    pub fn is_ok(&self) -> (r: bool)
        ensures
            r == (self is HealthyResponse),
    {
        match &self {
            StunSocketResponse::HealthyResponse { .. } => true,
            _ => false,
        }
    }
}

/// The probe of one resolved socket address of a server.
pub struct StunSocketTestResult {
    pub socket: SocketAddr,
    pub result: StunSocketResponse,
}

impl StunSocketTestResult {
    pub fn is_ok(&self) -> (r: bool)
        ensures
            r == (self.result is HealthyResponse),
    {
        self.result.is_ok()
    }
}

/// The error text of a query that ran out of time. (stunclient 0.4.2 words
/// its timeout error "Time out while reading socket"; the prober compares
/// with this text.)
pub const TIMEOUT_MESSAGE: &'static str = "Timed out waiting for STUN server reply";

/// What probing `socket` comes to, given the external address the server
/// reported (or the error text of a failed query), the local address the
/// query was sent from, the round-trip time and the deadline.
pub open spec fn socket_outcome(
    reply: Result<SocketAddr, String>,
    local: SocketAddr,
    rtt: Span,
    deadline: Span,
) -> StunSocketResponse {
    match reply {
        Ok(actual) => if port_of(actual) == port_of(local) {
            StunSocketResponse::HealthyResponse { rtt }
        } else {
            StunSocketResponse::InvalidMappingResponse { expected: local, actual, rtt }
        },
        Err(err) => if err@ == TIMEOUT_MESSAGE@ {
            StunSocketResponse::Timeout { deadline }
        } else {
            StunSocketResponse::UnexpectedError { err }
        },
    }
}

/// Judges one probe: a reply is healthy when the reported port is the local
/// port, a failure is a timeout when its text is [`TIMEOUT_MESSAGE`].
pub fn socket_test_result(
    socket: SocketAddr,
    reply: Result<SocketAddr, String>,
    local: SocketAddr,
    rtt: Span,
    deadline: Span,
) -> (r: StunSocketTestResult)
    ensures
        r.socket == socket,
        r.result == socket_outcome(reply, local, rtt, deadline),
{
    let result = match reply {
        Ok(actual) => if actual.port() == local.port() {
            StunSocketResponse::HealthyResponse { rtt }
        } else {
            StunSocketResponse::InvalidMappingResponse { expected: local, actual, rtt }
        },
        Err(err) => {
            let timeout_text = TIMEOUT_MESSAGE.to_owned();
            if err == timeout_text {
                StunSocketResponse::Timeout { deadline }
            } else {
                StunSocketResponse::UnexpectedError { err }
            }
        },
    };
    StunSocketTestResult { socket, result }
}

/// Every socket answered healthily.
pub open spec fn all_healthy(tests: Seq<StunSocketTestResult>) -> bool {
    forall|i: int| 0 <= i < tests.len() ==> (#[trigger] tests[i]).result is HealthyResponse
}

/// Every socket answered healthily or timed out.
pub open spec fn all_healthy_or_timeout(tests: Seq<StunSocketTestResult>) -> bool {
    forall|i: int|
        0 <= i < tests.len() ==> {
            let r = (#[trigger] tests[i]).result;
            r is HealthyResponse || r is Timeout
        }
}

/// Every socket timed out.
pub open spec fn all_timeout(tests: Seq<StunSocketTestResult>) -> bool {
    forall|i: int| 0 <= i < tests.len() ==> (#[trigger] tests[i]).result is Timeout
}

/// The probes of all resolved socket addresses of one server.
pub struct StunServerTestResult {
    pub server: StunServer,
    pub socket_tests: Vec<StunSocketTestResult>,
}

impl StunServerTestResult {
    /// The host name resolved to at least one address.
    pub fn is_resolvable(&self) -> (r: bool)
        ensures
            r == (self.socket_tests@.len() > 0),
    {
        self.socket_tests.len() > 0
    }

    pub fn is_healthy(&self) -> (r: bool)
        ensures
            r == (self.socket_tests@.len() > 0 && all_healthy(self.socket_tests@)),
    {
        if !self.is_resolvable() {
            return false;
        }
        let n = self.socket_tests.len();
        for i in 0..n
            invariant
                n == self.socket_tests@.len(),
                all_healthy(self.socket_tests@.take(i as int)),
        {
            if !self.socket_tests[i].is_ok() {
                return false;
            }
            proof {
                assert forall|j: int| 0 <= j < i + 1 implies (#[trigger] self.socket_tests@.take(
                    i + 1,
                )[j]).result is HealthyResponse by {
                    if j < i {
                        assert(self.socket_tests@.take(i as int)[j] == self.socket_tests@[j]);
                    }
                }
            }
        }
        proof {
            assert(self.socket_tests@.take(n as int) =~= self.socket_tests@);
        }
        true
    }

    pub fn is_partial_timeout(&self) -> (r: bool)
        ensures
            r == (self.socket_tests@.len() > 0 && all_healthy_or_timeout(self.socket_tests@)),
    {
        if !self.is_resolvable() {
            return false;
        }
        let n = self.socket_tests.len();
        for i in 0..n
            invariant
                n == self.socket_tests@.len(),
                all_healthy_or_timeout(self.socket_tests@.take(i as int)),
        {
            let ok = match self.socket_tests[i].result {
                StunSocketResponse::HealthyResponse { .. } => true,
                StunSocketResponse::Timeout { .. } => true,
                _ => false,
            };
            if !ok {
                return false;
            }
            proof {
                assert forall|j: int| 0 <= j < i + 1 implies {
                    let r = (#[trigger] self.socket_tests@.take(i + 1)[j]).result;
                    r is HealthyResponse || r is Timeout
                } by {
                    if j < i {
                        assert(self.socket_tests@.take(i as int)[j] == self.socket_tests@[j]);
                    }
                }
            }
        }
        proof {
            assert(self.socket_tests@.take(n as int) =~= self.socket_tests@);
        }
        true
    }

    pub fn is_timeout(&self) -> (r: bool)
        ensures
            r == (self.socket_tests@.len() > 0 && all_timeout(self.socket_tests@)),
    {
        if !self.is_resolvable() {
            return false;
        }
        let n = self.socket_tests.len();
        for i in 0..n
            invariant
                n == self.socket_tests@.len(),
                all_timeout(self.socket_tests@.take(i as int)),
        {
            let timed_out = match self.socket_tests[i].result {
                StunSocketResponse::Timeout { .. } => true,
                _ => false,
            };
            if !timed_out {
                return false;
            }
            proof {
                assert forall|j: int| 0 <= j < i + 1 implies (#[trigger] self.socket_tests@.take(
                    i + 1,
                )[j]).result is Timeout by {
                    if j < i {
                        assert(self.socket_tests@.take(i as int)[j] == self.socket_tests@[j]);
                    }
                }
            }
        }
        proof {
            assert(self.socket_tests@.take(n as int) =~= self.socket_tests@);
        }
        true
    }
}


/// The verdict on one server, in the order the checks are made.
#[derive(Debug, Clone, Copy, PartialEq, Eq, Structural)]
pub enum ServerStatus {
    Healthy,
    NotResolvable,
    PartialTimeout,
    Timeout,
    Unexpected,
}

/// The verdict on a server whose sockets answered as `tests` say.
pub open spec fn status_of(tests: Seq<StunSocketTestResult>) -> ServerStatus {
    if tests.len() > 0 && all_healthy(tests) {
        ServerStatus::Healthy
    } else if tests.len() == 0 {
        ServerStatus::NotResolvable
    } else if all_healthy_or_timeout(tests) {
        ServerStatus::PartialTimeout
    } else if all_timeout(tests) {
        ServerStatus::Timeout
    } else {
        ServerStatus::Unexpected
    }
}

/// Judges a server: healthy, unresolvable, timing out on some sockets, timing
/// out on all, or behaving unexpectedly, whichever comes first.
pub fn server_status(result: &StunServerTestResult) -> (r: ServerStatus)
    ensures
        r == status_of(result.socket_tests@),
{
    if result.is_healthy() {
        ServerStatus::Healthy
    } else if !result.is_resolvable() {
        ServerStatus::NotResolvable
    } else if result.is_partial_timeout() {
        ServerStatus::PartialTimeout
    } else if result.is_timeout() {
        ServerStatus::Timeout
    } else {
        ServerStatus::Unexpected
    }
}

/// The three socket predicates say what their names say, position by position.
pub proof fn lemma_socket_predicates_meaning(tests: Seq<StunSocketTestResult>)
    ensures
        all_healthy(tests) <==> forall|i: int|
            0 <= i < tests.len() ==> (#[trigger] tests[i].result) is HealthyResponse,
        all_healthy_or_timeout(tests) <==> forall|i: int|
            0 <= i < tests.len() ==> ((#[trigger] tests[i].result) is HealthyResponse
                || tests[i].result is Timeout),
        all_timeout(tests) <==> forall|i: int|
            0 <= i < tests.len() ==> (#[trigger] tests[i].result) is Timeout,
{
    assert(all_healthy(tests) <==> forall|i: int|
        0 <= i < tests.len() ==> (#[trigger] tests[i].result) is HealthyResponse) by {
        if forall|i: int| 0 <= i < tests.len() ==> (#[trigger] tests[i].result) is HealthyResponse {
            assert forall|i: int| 0 <= i < tests.len() implies (#[trigger] tests[i]).result is HealthyResponse by {
                assert(tests[i].result is HealthyResponse);
            }
        }
    }
    assert(all_healthy_or_timeout(tests) <==> forall|i: int|
        0 <= i < tests.len() ==> ((#[trigger] tests[i].result) is HealthyResponse
            || tests[i].result is Timeout)) by {
        if forall|i: int| 0 <= i < tests.len() ==> ((#[trigger] tests[i].result) is HealthyResponse
            || tests[i].result is Timeout) {
            assert forall|i: int| 0 <= i < tests.len() implies {
                let r = (#[trigger] tests[i]).result;
                r is HealthyResponse || r is Timeout
            } by {
                assert(tests[i].result is HealthyResponse || tests[i].result is Timeout);
            }
        }
    }
    assert(all_timeout(tests) <==> forall|i: int|
        0 <= i < tests.len() ==> (#[trigger] tests[i].result) is Timeout) by {
        if forall|i: int| 0 <= i < tests.len() ==> (#[trigger] tests[i].result) is Timeout {
            assert forall|i: int| 0 <= i < tests.len() implies (#[trigger] tests[i]).result is Timeout by {
                assert(tests[i].result is Timeout);
            }
        }
    }
}

/// A probe that got a reply is healthy exactly when the reported port is the
/// port the query went out from; otherwise it is an invalid mapping that
/// keeps the local address, the reported address and the round-trip time. A
/// failed probe is a timeout exactly when its text is [`TIMEOUT_MESSAGE`] and
/// otherwise keeps its text as an unexpected error.
pub proof fn lemma_probe_meaning(reply: Result<SocketAddr, String>, local: SocketAddr, rtt: Span, deadline: Span)
    ensures
        reply matches Ok(actual) ==> {
            &&& (socket_outcome(reply, local, rtt, deadline) is HealthyResponse <==> port_of(actual) == port_of(local))
            &&& (port_of(actual) == port_of(local) ==> socket_outcome(reply, local, rtt, deadline) == StunSocketResponse::HealthyResponse { rtt })
            &&& (port_of(actual) != port_of(local) ==> socket_outcome(reply, local, rtt, deadline) == StunSocketResponse::InvalidMappingResponse { expected: local, actual, rtt })
        },
        reply matches Err(err) ==> {
            &&& (socket_outcome(reply, local, rtt, deadline) is Timeout <==> err@ == TIMEOUT_MESSAGE@)
            &&& (err@ == TIMEOUT_MESSAGE@ ==> socket_outcome(reply, local, rtt, deadline) == StunSocketResponse::Timeout { deadline })
            &&& (err@ != TIMEOUT_MESSAGE@ ==> socket_outcome(reply, local, rtt, deadline) == StunSocketResponse::UnexpectedError { err })
        },
{
}

/// The verdict on a server, said outright: healthy when it resolved and every
/// socket answered healthily; unresolvable when it resolved to nothing;
/// partial timeout when it resolved, some socket did not answer healthily,
/// and every socket answered healthily or timed out; unexpected when some
/// socket neither answered healthily nor timed out.
pub proof fn lemma_status_meaning(tests: Seq<StunSocketTestResult>)
    ensures
        status_of(tests) == ServerStatus::Healthy <==> tests.len() > 0 && forall|i: int|
            0 <= i < tests.len() ==> (#[trigger] tests[i].result) is HealthyResponse,
        status_of(tests) == ServerStatus::NotResolvable <==> tests.len() == 0,
        status_of(tests) == ServerStatus::PartialTimeout <==> {
            &&& tests.len() > 0
            &&& exists|i: int| 0 <= i < tests.len() && !((#[trigger] tests[i].result) is HealthyResponse)
            &&& forall|i: int| 0 <= i < tests.len() ==> ((#[trigger] tests[i].result) is HealthyResponse
                || tests[i].result is Timeout)
        },
        status_of(tests) == ServerStatus::Unexpected <==> exists|i: int|
            0 <= i < tests.len() && !((#[trigger] tests[i].result) is HealthyResponse)
                && !(tests[i].result is Timeout),
        status_of(tests) != ServerStatus::Timeout,
{
    lemma_socket_predicates_meaning(tests);
    lemma_timeout_verdict_shadowed(tests);
}

/// A server whose sockets all time out already counts as timing out on some
/// sockets, which is checked first, so the `Timeout` verdict is never given.
pub proof fn lemma_timeout_verdict_shadowed(tests: Seq<StunSocketTestResult>)
    ensures
        status_of(tests) != ServerStatus::Timeout,
{
    if tests.len() > 0 && all_timeout(tests) {
        assert(all_healthy_or_timeout(tests));
    }
}

/// How many of `results` have verdict `status`.
pub open spec fn count_status(results: Seq<StunServerTestResult>, status: ServerStatus) -> nat
    decreases results.len(),
{
    if results.len() == 0 {
        0
    } else {
        count_status(results.drop_last(), status) + if status_of(results.last().socket_tests@)
            == status {
            1nat
        } else {
            0nat
        }
    }
}

/// Each server falls under one status: the five counts sum to the number
/// of servers.
pub proof fn lemma_status_counts_partition(results: Seq<StunServerTestResult>)
    ensures
        count_status(results, ServerStatus::Healthy) + count_status(results, ServerStatus::NotResolvable)
            + count_status(results, ServerStatus::PartialTimeout) + count_status(
            results,
            ServerStatus::Timeout,
        ) + count_status(results, ServerStatus::Unexpected) == results.len(),
    decreases results.len(),
{
    if results.len() > 0 {
        lemma_status_counts_partition(results.drop_last());
    }
}

/// The tally of a probing run.
#[derive(Debug, Clone, Copy, PartialEq, Eq, Structural)]
pub struct StatusSummary {
    pub tested: usize,
    pub healthy: usize,
    pub dns_unresolved: usize,
    pub partial_timeout: usize,
    pub timeout: usize,
    pub unexpected_err: usize,
}

/// Tallies the verdicts of a probing run over `candidate_hosts_count` hosts.
pub fn summarize(candidate_hosts_count: usize, results: &Vec<StunServerTestResult>) -> (r:
    StatusSummary)
    ensures
        r.tested == candidate_hosts_count,
        r.healthy == count_status(results@, ServerStatus::Healthy),
        r.dns_unresolved == count_status(results@, ServerStatus::NotResolvable),
        r.partial_timeout == count_status(results@, ServerStatus::PartialTimeout),
        r.timeout == count_status(results@, ServerStatus::Timeout),
        r.unexpected_err == count_status(results@, ServerStatus::Unexpected),
{
    let mut healthy: usize = 0;
    let mut dns_unresolved: usize = 0;
    let mut partial_timeout: usize = 0;
    let mut timeout: usize = 0;
    let mut unexpected_err: usize = 0;
    let n = results.len();
    for i in 0..n
        invariant
            n == results@.len(),
            healthy == count_status(results@.take(i as int), ServerStatus::Healthy),
            dns_unresolved == count_status(results@.take(i as int), ServerStatus::NotResolvable),
            partial_timeout == count_status(results@.take(i as int), ServerStatus::PartialTimeout),
            timeout == count_status(results@.take(i as int), ServerStatus::Timeout),
            unexpected_err == count_status(results@.take(i as int), ServerStatus::Unexpected),
            healthy + dns_unresolved + partial_timeout + timeout + unexpected_err == i,
    {
        let status = server_status(&results[i]);
        proof {
            assert(results@.take(i + 1).drop_last() =~= results@.take(i as int));
            assert(results@.take(i + 1).last() == results@[i as int]);
        }
        match status {
            ServerStatus::Healthy => healthy = healthy + 1,
            ServerStatus::NotResolvable => dns_unresolved = dns_unresolved + 1,
            ServerStatus::PartialTimeout => partial_timeout = partial_timeout + 1,
            ServerStatus::Timeout => timeout = timeout + 1,
            ServerStatus::Unexpected => unexpected_err = unexpected_err + 1,
        }
    }
    proof {
        assert(results@.take(n as int) =~= results@);
    }
    StatusSummary { tested: candidate_hosts_count, healthy, dns_unresolved, partial_timeout, timeout, unexpected_err }
}

} // verus!

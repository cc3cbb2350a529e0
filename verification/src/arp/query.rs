//! Resolution of IPv4 addresses to hardware addresses by ARP.
//!
//! A query is a small state machine. Starting it yields what to do on the
//! wire; every captured frame and the deadline are then handed to it as
//! events, and it says when the query is over. The machine itself never
//! waits, so a query is over as soon as its deadline is reported, whatever
//! has answered by then.

pub mod correlation;
pub mod query_listener;
pub mod query_result;
pub mod query_sender;

use crate::address::{Ipv4Addr, MacAddr};
use crate::arp::network_location::NetworkLocation;
use crate::arp::query::correlation::{all_resolved, distinct, lemma_distinct, observe, query_frame};
use crate::arp::query::query_listener::read_announcement;
use crate::arp::query::query_result::ArpQueryResult;
use crate::arp::query::query_sender::{distinct_addresses, ArpQuerySenderImpl};
use vstd::prelude::*;

verus! {

/// Time a query waits for answers unless told otherwise, in milliseconds.
pub const DEFAULT_QUERY_DEADLINE_MS: u64 = 1000;

/// Where a query stands.
#[derive(Clone, Copy, Debug, PartialEq, Eq, Structural)]
pub enum QueryPhase {
    /// No query has been started.
    Idle,
    /// Requests are out and answers are awaited.
    Listening,
    /// Every address has answered, or the deadline has passed.
    Finished,
}

/// One thing to do on the wire when a query starts.
#[derive(Debug)]
pub enum QueryAction {
    /// Register with the capture stream, so that no answer is missed.
    Subscribe,
    /// Submit this frame for transmission.
    Send(Vec<u8>),
    /// Report the deadline after this many milliseconds.
    ArmDeadline(u64),
}

/// A `QueryAction` with its frame as a byte sequence.
pub enum QueryActionView {
    Subscribe,
    Send(Seq<u8>),
    ArmDeadline(u64),
}

impl View for QueryAction {
    type V = QueryActionView;

    open spec fn view(&self) -> QueryActionView {
        match *self {
            QueryAction::Subscribe => QueryActionView::Subscribe,
            QueryAction::Send(frame) => QueryActionView::Send(frame@),
            QueryAction::ArmDeadline(ms) => QueryActionView::ArmDeadline(ms),
        }
    }
}

/// The actions of a list, each by its view.
pub open spec fn actions_view(actions: Seq<QueryAction>) -> Seq<QueryActionView> {
    actions.map_values(|a: QueryAction| a@)
}

/// What starting a query for `targets` asks for: nothing when there is no
/// target; else subscribe first, then send one request per target in
/// order, then arm the deadline.
pub open spec fn query_plan(local: NetworkLocation, targets: Seq<Ipv4Addr>, deadline_ms: u64) -> Seq<
    QueryActionView,
> {
    if targets.len() == 0 {
        Seq::empty()
    } else {
        seq![QueryActionView::Subscribe] + Seq::new(
            targets.len(),
            |i: int| QueryActionView::Send(query_frame(local, targets[i])),
        ) + seq![QueryActionView::ArmDeadline(deadline_ms)]
    }
}

/// The index of `ip` in `addresses`, if it occurs.
fn position_of(addresses: &Vec<Ipv4Addr>, ip: Ipv4Addr) -> (r: Option<usize>)
    ensures
        r matches Some(i) ==> i < addresses@.len() && addresses@[i as int] == ip,
        r is None ==> !addresses@.contains(ip),
{
    let mut i: usize = 0;
    while i < addresses.len()
        invariant
            i <= addresses@.len(),
            forall|j: int| 0 <= j < i ==> addresses@[j] != ip,
        decreases addresses@.len() - i,
    {
        if addresses[i] == ip {
            return Some(i);
        }
        i += 1;
    }
    None
}

/// A copy of `addresses`.
fn copy_of(addresses: &Vec<Ipv4Addr>) -> (r: Vec<Ipv4Addr>)
    ensures
        r@ == addresses@,
{
    let mut out: Vec<Ipv4Addr> = Vec::new();
    let mut i: usize = 0;
    while i < addresses.len()
        invariant
            i <= addresses@.len(),
            out@ == addresses@.subrange(0, i as int),
        decreases addresses@.len() - i,
    {
        out.push(addresses[i]);
        proof {
            assert(out@ =~= addresses@.subrange(0, i + 1));
        }
        i += 1;
    }
    proof {
        assert(addresses@.subrange(0, addresses@.len() as int) =~= addresses@);
    }
    out
}

/// Issues ARP requests for a set of addresses and correlates the answers.
pub struct ArpQueryExecutorImpl {
    current_location: NetworkLocation,
    deadline_ms: u64,
    targets: Vec<Ipv4Addr>,
    pending: Vec<Ipv4Addr>,
    resolved: ArpQueryResult,
    phase: QueryPhase,
}

impl ArpQueryExecutorImpl {
    /// The location the requests are sent from.
    pub closed spec fn location(&self) -> NetworkLocation {
        self.current_location
    }

    /// The time budget of a query, in milliseconds.
    pub closed spec fn deadline(&self) -> u64 {
        self.deadline_ms
    }

    /// The addresses of the current query, each once.
    pub closed spec fn targets(&self) -> Seq<Ipv4Addr> {
        self.targets@
    }

    /// The answers so far.
    pub closed spec fn resolved(&self) -> Map<Ipv4Addr, MacAddr> {
        self.resolved@
    }

    /// Where the query stands.
    pub closed spec fn phase(&self) -> QueryPhase {
        self.phase
    }

    /// The addresses still waited for are exactly the targets without an
    /// answer; only targets have answers; a query that listens waits for
    /// something.
    pub closed spec fn wf(&self) -> bool {
        &&& self.targets@.no_duplicates()
        &&& self.pending@.no_duplicates()
        &&& forall|ip: Ipv4Addr|
            #![trigger self.pending@.contains(ip)]
            self.pending@.contains(ip) <==> self.targets@.contains(ip)
                && !self.resolved@.contains_key(ip)
        &&& forall|ip: Ipv4Addr| #[trigger]
            self.resolved@.contains_key(ip) ==> self.targets@.contains(ip)
        &&& self.phase is Idle ==> self.targets@.len() == 0
        &&& self.phase is Listening ==> self.pending@.len() > 0
    }

    /// Under `wf`, nothing is waited for exactly when every target has an
    /// answer.
    proof fn lemma_pending_empty(&self)
        requires
            self.wf(),
        ensures
            self.pending@.len() == 0 <==> all_resolved(self.resolved@, self.targets@),
    {
        if self.pending@.len() == 0 {
            assert forall|i: int| 0 <= i < self.targets@.len() implies self.resolved@.contains_key(
                #[trigger] self.targets@[i],
            ) by {
                let ip = self.targets@[i];
                assert(self.targets@.contains(ip));
                assert(!self.pending@.contains(ip));
            }
        } else {
            let ip = self.pending@[0];
            assert(self.pending@.contains(ip));
            let i = choose|i: int| 0 <= i < self.targets@.len() && self.targets@[i] == ip;
            assert(!self.resolved@.contains_key(self.targets@[i]));
        }
    }

    /// An executor at `location` with the default deadline and no query.
    pub fn new(location: NetworkLocation) -> (r: ArpQueryExecutorImpl)
        ensures
            r.wf(),
            r.location() == location,
            r.deadline() == DEFAULT_QUERY_DEADLINE_MS,
            r.targets() == Seq::<Ipv4Addr>::empty(),
            r.resolved() == Map::<Ipv4Addr, MacAddr>::empty(),
            r.phase() == QueryPhase::Idle,
    {
        ArpQueryExecutorImpl::with_deadline(location, DEFAULT_QUERY_DEADLINE_MS)
    }

    /// An executor at `location` whose queries wait `deadline_ms`.
    pub fn with_deadline(location: NetworkLocation, deadline_ms: u64) -> (r: ArpQueryExecutorImpl)
        ensures
            r.wf(),
            r.location() == location,
            r.deadline() == deadline_ms,
            r.targets() == Seq::<Ipv4Addr>::empty(),
            r.resolved() == Map::<Ipv4Addr, MacAddr>::empty(),
            r.phase() == QueryPhase::Idle,
    {
        ArpQueryExecutorImpl {
            current_location: location,
            deadline_ms,
            targets: Vec::new(),
            pending: Vec::new(),
            resolved: ArpQueryResult::new(),
            phase: QueryPhase::Idle,
        }
    }

    /// Starts a query for `all_ips`, dropping whatever query there was.
    ///
    /// The addresses are taken once each, in order of first occurrence.
    /// With no address the query is over at once and nothing is to be
    /// done; else the query listens, and the actions are to subscribe to
    /// the capture stream, then to send one request per address, then to
    /// arm the deadline.
    pub fn query_multiple(&mut self, all_ips: Vec<Ipv4Addr>) -> (actions: Vec<QueryAction>)
        ensures
            final(self).wf(),
            final(self).location() == old(self).location(),
            final(self).deadline() == old(self).deadline(),
            final(self).targets() == distinct(all_ips@),
            final(self).resolved() == Map::<Ipv4Addr, MacAddr>::empty(),
            final(self).phase() == if all_ips@.len() == 0 {
                QueryPhase::Finished
            } else {
                QueryPhase::Listening
            },
            actions_view(actions@) == query_plan(
                old(self).location(),
                distinct(all_ips@),
                old(self).deadline(),
            ),
            actions@.len() == if all_ips@.len() == 0 {
                0
            } else {
                distinct(all_ips@).len() + 2
            },
            forall|i: int|
                0 <= i < distinct(all_ips@).len() ==> (#[trigger] actions@[i + 1])@
                    == QueryActionView::Send(
                    query_frame(old(self).location(), distinct(all_ips@)[i]),
                ),
    {
        let targets = distinct_addresses(&all_ips);
        proof {
            lemma_distinct(all_ips@);
            if all_ips@.len() > 0 {
                assert(all_ips@.contains(all_ips@[0]));
                assert(distinct(all_ips@).contains(all_ips@[0]));
            }
        }
        let mut actions: Vec<QueryAction> = Vec::new();
        if targets.len() == 0 {
            self.targets = targets;
            self.pending = Vec::new();
            self.resolved = ArpQueryResult::new();
            self.phase = QueryPhase::Finished;
            proof {
                assert(actions_view(actions@) =~= query_plan(
                    old(self).location(),
                    distinct(all_ips@),
                    old(self).deadline(),
                ));
            }
            return actions;
        }
        let sender = ArpQuerySenderImpl::new(self.current_location);
        actions.push(QueryAction::Subscribe);
        let mut i: usize = 0;
        while i < targets.len()
            invariant
                i <= targets@.len(),
                sender.location() == self.current_location,
                actions@.len() == i + 1,
                actions@[0]@ == QueryActionView::Subscribe,
                forall|j: int|
                    0 <= j < i ==> (#[trigger] actions@[j + 1])@ == QueryActionView::Send(
                        query_frame(self.current_location, targets@[j]),
                    ),
            decreases targets@.len() - i,
        {
            actions.push(QueryAction::Send(sender.make_query_packet(targets[i])));
            i += 1;
        }
        actions.push(QueryAction::ArmDeadline(self.deadline_ms));
        let pending = copy_of(&targets);
        proof {
            let plan = query_plan(self.current_location, targets@, self.deadline_ms);
            assert(actions_view(actions@).len() == plan.len());
            assert forall|k: int| 0 <= k < plan.len() implies actions_view(actions@)[k]
                == plan[k] by {
                if 1 <= k <= targets@.len() {
                    assert(actions@[(k - 1) + 1]@ == QueryActionView::Send(
                        query_frame(self.current_location, targets@[k - 1]),
                    ));
                }
            }
            assert(actions_view(actions@) =~= plan);
        }
        self.targets = targets;
        self.pending = pending;
        self.resolved = ArpQueryResult::new();
        self.phase = QueryPhase::Listening;
        actions
    }

    /// Starts a query for the single address `ipv4`.
    pub fn query(&mut self, ipv4: Ipv4Addr) -> (actions: Vec<QueryAction>)
        ensures
            final(self).wf(),
            final(self).location() == old(self).location(),
            final(self).deadline() == old(self).deadline(),
            final(self).targets() == seq![ipv4],
            final(self).resolved() == Map::<Ipv4Addr, MacAddr>::empty(),
            final(self).phase() == QueryPhase::Listening,
            actions_view(actions@) == query_plan(
                old(self).location(),
                seq![ipv4],
                old(self).deadline(),
            ),
    {
        let mut all_ips: Vec<Ipv4Addr> = Vec::new();
        all_ips.push(ipv4);
        proof {
            let s = all_ips@;
            assert(s.drop_last() =~= Seq::<Ipv4Addr>::empty());
            assert(distinct(s.drop_last()) =~= Seq::<Ipv4Addr>::empty());
            assert(distinct(s) =~= seq![ipv4]);
        }
        self.query_multiple(all_ips)
    }

    /// Takes one captured frame into the query and says whether the query
    /// is over.
    ///
    /// While the query listens, the first answer for an address that is
    /// waited for is recorded, and the query is over once every address has
    /// one. Outside a listening query the frame is ignored.
    pub fn on_frame(&mut self, frame: &[u8]) -> (finished: bool)
        requires
            old(self).wf(),
        ensures
            final(self).wf(),
            final(self).location() == old(self).location(),
            final(self).deadline() == old(self).deadline(),
            final(self).targets() == old(self).targets(),
            final(self).resolved() == if old(self).phase() is Listening {
                observe(old(self).resolved(), old(self).targets(), frame@)
            } else {
                old(self).resolved()
            },
            final(self).phase() == if old(self).phase() is Listening && all_resolved(
                final(self).resolved(),
                old(self).targets(),
            ) {
                QueryPhase::Finished
            } else {
                old(self).phase()
            },
            finished == (final(self).phase() is Finished),
    {
        if self.phase != QueryPhase::Listening {
            return self.phase == QueryPhase::Finished;
        }
        proof {
            self.lemma_pending_empty();
        }
        match read_announcement(frame) {
            Some((ip, mac)) => {
                match position_of(&self.pending, ip) {
                    Some(i) => {
                        let ghost before = self.pending@;
                        assert(before.contains(ip));
                        self.pending.remove(i);
                        self.resolved.insert(ip, mac);
                        if self.pending.len() == 0 {
                            self.phase = QueryPhase::Finished;
                        }
                        proof {
                            let after = self.pending@;
                            assert(after == before.remove(i as int));
                            assert forall|x: Ipv4Addr| after.contains(x) <==> before.contains(x)
                                && x != ip by {
                                if after.contains(x) {
                                    let j = choose|j: int| 0 <= j < after.len() && after[j] == x;
                                    if j < i {
                                        assert(before[j] == x);
                                    } else {
                                        assert(before[j + 1] == x);
                                    }
                                }
                                if before.contains(x) && x != ip {
                                    let j = choose|j: int| 0 <= j < before.len() && before[j] == x;
                                    if j < i {
                                        assert(after[j] == x);
                                    } else {
                                        assert(after[j - 1] == x);
                                    }
                                }
                            }
                            assert(after.no_duplicates());
                            assert(self.wf());
                            self.lemma_pending_empty();
                        }
                    },
                    None => {},
                }
            },
            None => {},
        }
        self.phase == QueryPhase::Finished
    }

    /// Reports that the deadline has passed: a listening query is over,
    /// with the answers it has.
    pub fn on_deadline(&mut self)
        requires
            old(self).wf(),
        ensures
            final(self).wf(),
            final(self).location() == old(self).location(),
            final(self).deadline() == old(self).deadline(),
            final(self).targets() == old(self).targets(),
            final(self).resolved() == old(self).resolved(),
            final(self).phase() == if old(self).phase() is Listening {
                QueryPhase::Finished
            } else {
                old(self).phase()
            },
    {
        if self.phase == QueryPhase::Listening {
            self.phase = QueryPhase::Finished;
        }
    }

    /// Where the query stands.
    pub fn current_phase(&self) -> (r: QueryPhase)
        ensures
            r == self.phase(),
    {
        self.phase
    }

    /// Whether the query is over.
    pub fn is_finished(&self) -> (r: bool)
        ensures
            r == (self.phase() is Finished),
    {
        self.phase == QueryPhase::Finished
    }

    /// Time budget of a query, in milliseconds.
    pub fn deadline_ms(&self) -> (r: u64)
        ensures
            r == self.deadline(),
    {
        self.deadline_ms
    }

    /// The answers so far.
    pub fn result(&self) -> (r: &ArpQueryResult)
        ensures
            r@ == self.resolved(),
    {
        &self.resolved
    }

    /// The hardware address that answered for `ipv4`, or the broadcast
    /// address when none has.
    pub fn answer(&self, ipv4: Ipv4Addr) -> (r: MacAddr)
        ensures
            r == if self.resolved().contains_key(ipv4) {
                self.resolved()[ipv4]
            } else {
                MacAddr::spec_broadcast()
            },
    {
        match self.resolved.get(ipv4) {
            Some(mac) => mac,
            None => MacAddr::broadcast(),
        }
    }

    /// The hardware address that answered for `ipv4`, if one has.
    pub fn answer_checked(&self, ipv4: Ipv4Addr) -> (r: Option<MacAddr>)
        ensures
            r == if self.resolved().contains_key(ipv4) {
                Some(self.resolved()[ipv4])
            } else {
                None::<MacAddr>
            },
    {
        self.resolved.get(ipv4)
    }
}

} // verus!

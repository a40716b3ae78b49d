//! Outbound delivery: which hosts to try for a domain, and which addresses
//! to connect from and to.

use crate::net::IpAddr;
use crate::text::{debug_quoted, quoted, str_eq};
use rand::seq::SliceRandom;
use rand::Rng;
use vstd::prelude::*;
use vstd::string::StringExecFns;

verus! {

/// An MX record: the hosts that accept mail at one preference.
#[derive(Debug, Clone, PartialEq, Eq)]
pub struct MX {
    pub exchanges: Vec<String>,
    pub preference: u16,
}

/// A host to deliver to.
#[derive(Debug, Clone, Copy, PartialEq, Eq)]
pub enum NextHop<'x> {
    /// A host named by an MX record, or the domain itself.
    MX(&'x str),
}

/// Which address families to look up, and which to prefer.
#[derive(Debug, Clone, Copy, PartialEq, Eq)]
pub enum IpLookupStrategy {
    Ipv4Only,
    Ipv6Only,
    Ipv4thenIpv6,
    Ipv6thenIpv4,
}

/// A failed DNS lookup.
#[derive(Debug, Clone, PartialEq, Eq)]
pub enum DnsError {
    /// The name has no such record.
    RecordNotFound(String),
    /// Any other failure.
    Other(String),
}

/// The addresses to connect to and, where configured, from.
#[derive(Debug, Clone, PartialEq, Eq)]
pub struct IpLookupResult {
    pub source_ipv4: Option<IpAddr>,
    pub source_ipv6: Option<IpAddr>,
    pub remote_ips: Vec<IpAddr>,
}

/// What went wrong with a delivery attempt.
#[derive(Debug, Clone, PartialEq, Eq)]
pub struct ErrorDetails {
    pub entity: String,
    pub details: String,
}

/// Why a delivery attempt failed.
#[derive(Debug, Clone, PartialEq, Eq)]
pub enum DeliveryError {
    DnsError(String),
    ConnectionError(ErrorDetails),
}

/// How far a delivery has come.
#[derive(Debug, Clone, PartialEq, Eq)]
pub enum Status<T, E> {
    Scheduled,
    Completed(T),
    TemporaryFailure(E),
    PermanentFailure(E),
}

impl<'x> NextHop<'x> {
    /// The name of the host.
    pub open spec fn host(&self) -> Seq<char> {
        match self {
            NextHop::MX(host) => host@,
        }
    }
}

impl DnsError {
    /// The text of the failure.
    pub open spec fn text(&self) -> Seq<char> {
        match self {
            DnsError::RecordNotFound(text) => text@,
            DnsError::Other(text) => text@,
        }
    }
}

impl IpLookupStrategy {
    /// IPv4 addresses are looked up.
    pub open spec fn has_ipv4(self) -> bool {
        !(self is Ipv6Only)
    }

    /// IPv6 addresses are looked up.
    pub open spec fn has_ipv6(self) -> bool {
        !(self is Ipv4Only)
    }

    /// IPv4 addresses come before IPv6 addresses.
    pub open spec fn v4_first(self) -> bool {
        self is Ipv4thenIpv6
    }

    /// Whether IPv4 addresses are looked up.
    pub fn wants_ipv4(self) -> (yes: bool)
        ensures
            yes == self.has_ipv4(),
    {
        !matches!(self, IpLookupStrategy::Ipv6Only)
    }

    /// Whether IPv6 addresses are looked up.
    pub fn wants_ipv6(self) -> (yes: bool)
        ensures
            yes == self.has_ipv6(),
    {
        !matches!(self, IpLookupStrategy::Ipv4Only)
    }
}

/// The names of the hosts of `hops`.
pub open spec fn hosts_of(hops: Seq<NextHop>) -> Seq<Seq<char>> {
    hops.map_values(|hop: NextHop| hop.host())
}

/// The names of the exchanges of `mx`.
pub open spec fn exchange_names(mx: MX) -> Seq<Seq<char>> {
    mx.exchanges@.map_values(|host: String| host@)
}

/// The names of the exchanges of `mx`, taken in the given order.
pub open spec fn arranged(mx: MX, order: Seq<usize>) -> Seq<Seq<char>> {
    order.map_values(|j: usize| mx.exchanges@[j as int]@)
}

/// `order` lists each of the numbers below `n` once.
pub open spec fn is_order(order: Seq<usize>, n: nat) -> bool {
    &&& order.len() == n
    &&& order.no_duplicates()
    &&& forall|j: int| 0 <= j < n ==> #[trigger] order[j] < n
}

/// `orders` holds an order for the exchanges of every record that has more
/// than one.
pub open spec fn orders_fit(mxs: Seq<MX>, orders: Seq<Seq<usize>>) -> bool {
    &&& orders.len() == mxs.len()
    &&& forall|i: int|
        0 <= i < mxs.len() && mxs[i].exchanges.len() > 1 ==> is_order(
            #[trigger] orders[i],
            mxs[i].exchanges.len() as nat,
        )
}

/// A null MX: the domain accepts no mail.
pub open spec fn is_null_mx(mx: MX) -> bool {
    mx.exchanges.len() == 1 && mx.preference == 0 && mx.exchanges@[0]@ == seq!['.']
}

/// The hosts to try, given that `taken` were gathered from the records
/// before the `i`-th. The exchanges of a record with several are taken in
/// the order drawn for it; a null MX means that there is no host at all;
/// and, unless `max_mx` is zero, the list is full with `max_mx` hosts.
pub open spec fn hops_from(
    mxs: Seq<MX>,
    orders: Seq<Seq<usize>>,
    max_mx: usize,
    i: int,
    taken: Seq<Seq<char>>,
) -> Option<Seq<Seq<char>>>
    decreases mxs.len() - i,
{
    if i < 0 || i >= mxs.len() {
        Some(taken)
    } else {
        let hosts = if mxs[i].exchanges.len() > 1 {
            arranged(mxs[i], orders[i])
        } else {
            exchange_names(mxs[i])
        };
        if is_null_mx(mxs[i]) {
            None
        } else if max_mx > 0 && taken.len() + hosts.len() >= max_mx {
            Some(taken + hosts.take(max_mx - taken.len()))
        } else {
            hops_from(mxs, orders, max_mx, i + 1, taken + hosts)
        }
    }
}

/// The hosts to try for `domain`: those of its MX records, or, where it
/// has none, the domain itself.
pub open spec fn next_hops(
    mxs: Seq<MX>,
    domain: Seq<char>,
    max_mx: usize,
    orders: Seq<Seq<usize>>,
) -> Option<Seq<Seq<char>>> {
    if mxs.len() == 0 {
        Some(seq![domain])
    } else {
        hops_from(mxs, orders, max_mx, 0, Seq::empty())
    }
}

/// The orders as sequences.
pub open spec fn orders_view(orders: Seq<Vec<usize>>) -> Seq<Seq<usize>> {
    orders.map_values(|order: Vec<usize>| order@)
}

/// `SliceRandom::shuffle` with the thread's generator: the same items in
/// an order drawn at random.
#[verifier::external_body]
fn shuffle(order: &mut Vec<usize>)
    ensures
        final(order)@.to_multiset() == old(order)@.to_multiset(),
{
    order.shuffle(&mut rand::thread_rng());
}

/// `Rng::gen_range` with the thread's generator: a number below `len`
/// drawn at random.
#[verifier::external_body]
fn random_index(len: usize) -> (i: usize)
    requires
        len > 0,
    ensures
        i < len,
{
    rand::thread_rng().gen_range(0..len)
}

/// The hosts to try for `domain`, the exchanges of each record with more
/// than one taken in the order that `orders` gives for it.
pub fn remote_hosts_in_order<'x>(
    mxs: &'x Vec<MX>,
    domain: &'x str,
    max_mx: usize,
    orders: &Vec<Vec<usize>>,
) -> (hops: Option<Vec<NextHop<'x>>>)
    requires
        orders_fit(mxs@, orders_view(orders@)),
    ensures
        match hops {
            Some(list) => next_hops(mxs@, domain@, max_mx, orders_view(orders@)) == Some(
                hosts_of(list@),
            ),
            None => next_hops(mxs@, domain@, max_mx, orders_view(orders@)) is None,
        },
{
    let mut remote_hosts: Vec<NextHop<'x>> = Vec::new();
    if mxs.len() == 0 {
        remote_hosts.push(NextHop::MX(domain));
        assert(hosts_of(remote_hosts@) =~= seq![domain@]);
        return Some(remote_hosts);
    }
    let ghost all = orders_view(orders@);
    let ghost goal = hops_from(mxs@, all, max_mx, 0, Seq::empty());
    assert(hosts_of(remote_hosts@) =~= Seq::<Seq<char>>::empty());
    let mut i: usize = 0;
    while i < mxs.len()
        invariant
            i <= mxs.len(),
            all == orders_view(orders@),
            orders_fit(mxs@, all),
            max_mx == 0 || remote_hosts.len() < max_mx,
            goal == next_hops(mxs@, domain@, max_mx, all),
            goal == hops_from(mxs@, all, max_mx, i as int, hosts_of(remote_hosts@)),
        decreases mxs.len() - i,
    {
        let mx = &mxs[i];
        let ghost taken = hosts_of(remote_hosts@);
        if mx.exchanges.len() > 1 {
            let order = &orders[i];
            let ghost hosts = arranged(*mx, order@);
            assert(all[i as int] == order@);
            assert(is_order(order@, mx.exchanges.len() as nat));
            assert(!is_null_mx(*mx));
            let mut j: usize = 0;
            while j < order.len()
                invariant
                    j <= order.len(),
                    i < mxs.len(),
                    *mx == mxs@[i as int],
                    order@ == all[i as int],
                    all == orders_view(orders@),
                    !is_null_mx(*mx),
                    mx.exchanges.len() > 1,
                    taken.len() < max_mx || max_mx == 0,
                    goal == next_hops(mxs@, domain@, max_mx, all),
                    goal == hops_from(mxs@, all, max_mx, i as int, taken),
                    order.len() == mx.exchanges.len(),
                    forall|k: int| 0 <= k < order.len() ==> #[trigger] order@[k] < order.len(),
                    hosts == arranged(*mx, order@),
                    hosts.len() == order.len(),
                    max_mx == 0 || remote_hosts.len() < max_mx,
                    hosts_of(remote_hosts@) == taken + hosts.take(j as int),
                decreases order.len() - j,
            {
                let ghost before = remote_hosts@;
                remote_hosts.push(NextHop::MX(mx.exchanges[order[j]].as_str()));
                proof {
                    assert(hosts_of(remote_hosts@) =~= hosts_of(before).push(hosts[j as int]));
                    assert(hosts.take(j + 1) =~= hosts.take(j as int).push(hosts[j as int]));
                    assert(hosts_of(remote_hosts@) =~= taken + hosts.take(j + 1));
                }
                if remote_hosts.len() == max_mx {
                    assert(taken.len() + hosts.len() >= max_mx);
                    assert(max_mx - taken.len() == j + 1);
                    return Some(remote_hosts);
                }
                j += 1;
            }
            assert(hosts.take(j as int) =~= hosts);
        } else if mx.exchanges.len() == 1 {
            let remote_host = mx.exchanges[0].as_str();
            let ghost hosts = exchange_names(*mx);
            proof {
                reveal_strlit(".");
                assert("."@ =~= seq!['.']);
            }
            if mx.preference == 0 && str_eq(remote_host, ".") {
                return None;
            }
            let ghost before = remote_hosts@;
            remote_hosts.push(NextHop::MX(remote_host));
            proof {
                assert(hosts =~= seq![remote_host@]);
                assert(hosts_of(remote_hosts@) =~= hosts_of(before).push(remote_host@));
                assert(hosts_of(remote_hosts@) =~= taken + hosts);
            }
            if remote_hosts.len() == max_mx {
                assert(hosts.take(max_mx - taken.len()) =~= hosts);
                return Some(remote_hosts);
            }
        } else {
            assert(exchange_names(*mx) =~= Seq::<Seq<char>>::empty());
            assert(taken + exchange_names(*mx) =~= taken);
        }
        i += 1;
    }
    Some(remote_hosts)
}

/// What turns into the list of hosts to deliver to.
pub trait ToNextHop {
    /// The hosts to try for `domain`, at most `max_mx` of them unless
    /// `max_mx` is zero; `None` where the domain accepts no mail.
    fn to_remote_hosts<'x, 'y: 'x>(&'x self, domain: &'y str, max_mx: usize) -> Option<
        Vec<NextHop<'x>>,
    >;
}

/// The numbers below `n`, in rising order.
pub open spec fn rising(n: nat) -> Seq<usize> {
    Seq::new(n, |j: int| j as usize)
}

/// Whatever order the numbers below `n` are put in, each is still listed
/// once.
proof fn lemma_rearranged(order: Seq<usize>, n: nat)
    requires
        n <= usize::MAX,
        order.to_multiset() == rising(n).to_multiset(),
    ensures
        is_order(order, n),
{
    let id = rising(n);
    order.to_multiset_ensures();
    id.to_multiset_ensures();
    assert(id.no_duplicates());
    id.lemma_multiset_has_no_duplicates();
    order.lemma_multiset_has_no_duplicates_conv();
    assert forall|j: int| 0 <= j < n implies #[trigger] order[j] < n by {
        assert(order.contains(order[j]));
        assert(order.to_multiset().count(order[j]) > 0);
        assert(id.to_multiset().count(order[j]) > 0);
        assert(id.contains(order[j]));
        let k = choose|k: int| 0 <= k < id.len() && id[k] == order[j];
        assert(id[k] == k as usize);
    }
}

/// Draws an order for the exchanges of every record that has more than
/// one.
fn draw_orders(mxs: &Vec<MX>) -> (orders: Vec<Vec<usize>>)
    ensures
        orders_fit(mxs@, orders_view(orders@)),
{
    let mut orders: Vec<Vec<usize>> = Vec::new();
    let mut i: usize = 0;
    while i < mxs.len()
        invariant
            i <= mxs.len(),
            orders.len() == i,
            forall|k: int|
                0 <= k < i && mxs[k].exchanges.len() > 1 ==> is_order(
                    (#[trigger] orders@[k])@,
                    mxs[k].exchanges.len() as nat,
                ),
        decreases mxs.len() - i,
    {
        let n = mxs[i].exchanges.len();
        let mut order: Vec<usize> = Vec::new();
        if n > 1 {
            let mut j: usize = 0;
            while j < n
                invariant
                    j <= n,
                    order@ == rising(j as nat),
                decreases n - j,
            {
                order.push(j);
                assert(order@ =~= rising((j + 1) as nat));
                j += 1;
            }
            shuffle(&mut order);
            proof {
                lemma_rearranged(order@, n as nat);
            }
        }
        orders.push(order);
        i += 1;
    }
    proof {
        let all = orders_view(orders@);
        assert forall|k: int| 0 <= k < mxs.len() && mxs[k].exchanges.len() > 1 implies is_order(
            #[trigger] all[k],
            mxs[k].exchanges.len() as nat,
        ) by {
            assert(all[k] == orders@[k]@);
        }
    }
    orders
}

impl ToNextHop for Vec<MX> {
    /// The hosts of the records in the order of the records; the exchanges
    /// of a record with several are taken in an order drawn at random.
    fn to_remote_hosts<'x, 'y: 'x>(&'x self, domain: &'y str, max_mx: usize) -> (hops: Option<
        Vec<NextHop<'x>>,
    >)
        ensures
            exists|orders: Seq<Seq<usize>>| #[trigger]
                orders_fit(self@, orders) && match hops {
                    Some(list) => next_hops(self@, domain@, max_mx, orders) == Some(hosts_of(list@)),
                    None => next_hops(self@, domain@, max_mx, orders) is None,
                },
    {
        let orders = draw_orders(self);
        let hops = remote_hosts_in_order(self, domain, max_mx, &orders);
        assert(orders_fit(self@, orders_view(orders@)));
        hops
    }
}

/// The addresses found, in the order that `strategy` prefers, cut to
/// `max_results`.
pub open spec fn merged(
    strategy: IpLookupStrategy,
    ipv4: Seq<IpAddr>,
    ipv6: Seq<IpAddr>,
    max_results: usize,
) -> Seq<IpAddr> {
    let all = if !strategy.has_ipv6() {
        ipv4
    } else if strategy.v4_first() {
        ipv4 + ipv6
    } else {
        ipv6 + ipv4
    };
    if all.len() > max_results {
        all.take(max_results as int)
    } else {
        all
    }
}

/// The IPv4 addresses that count: none where the family is not looked up,
/// or where its lookup failed and IPv6 is looked up as well.
pub open spec fn ipv4_found<E>(strategy: IpLookupStrategy, ipv4: Result<Vec<IpAddr>, E>) -> Seq<
    IpAddr,
> {
    match ipv4 {
        Ok(addrs) if strategy.has_ipv4() => addrs@,
        _ => Seq::empty(),
    }
}

/// What the lookups of a name come to under `strategy`. A failed IPv4
/// lookup is an error only where IPv6 is not looked up; a failed IPv6
/// lookup is an error only where there is no IPv4 address either.
pub open spec fn ip_lookup_result<E>(
    strategy: IpLookupStrategy,
    ipv4: Result<Vec<IpAddr>, E>,
    ipv6: Result<Vec<IpAddr>, E>,
    max_results: usize,
) -> Result<Seq<IpAddr>, E> {
    if strategy.has_ipv4() && !strategy.has_ipv6() && ipv4 is Err {
        Err(ipv4->Err_0)
    } else if strategy.has_ipv6() && ipv6 is Err && ipv4_found(strategy, ipv4).len() == 0 {
        Err(ipv6->Err_0)
    } else {
        Ok(
            merged(
                strategy,
                ipv4_found(strategy, ipv4),
                match ipv6 {
                    Ok(addrs) => addrs@,
                    Err(_) => Seq::empty(),
                },
                max_results,
            ),
        )
    }
}

/// Appends the addresses of `from` to `to` until `to` holds `max_results`.
fn extend_up_to(to: &mut Vec<IpAddr>, from: &Vec<IpAddr>, max_results: usize)
    requires
        old(to).len() <= max_results,
    ensures
        final(to)@ == if old(to).len() + from.len() > max_results {
            (old(to)@ + from@).take(max_results as int)
        } else {
            old(to)@ + from@
        },
{
    let mut i: usize = 0;
    while i < from.len() && to.len() < max_results
        invariant
            i <= from.len(),
            to.len() <= max_results,
            to@ == old(to)@ + from@.take(i as int),
        decreases from.len() - i,
    {
        to.push(from[i]);
        assert(to@ =~= old(to)@ + from@.take(i + 1));
        i += 1;
    }
    proof {
        if old(to).len() + from.len() > max_results {
            assert(to@ =~= (old(to)@ + from@).take(max_results as int));
        } else {
            assert(from@.take(i as int) =~= from@);
        }
    }
}

/// Puts the addresses found for a name together. `ipv4` and `ipv6` are
/// what the lookups of the two families came to; that of a family which
/// `strategy` does not look up is not read.
pub fn ip_lookup<E>(
    strategy: IpLookupStrategy,
    ipv4: Result<Vec<IpAddr>, E>,
    ipv6: Result<Vec<IpAddr>, E>,
    max_results: usize,
) -> (found: Result<Vec<IpAddr>, E>)
    ensures
        match found {
            Ok(addrs) => ip_lookup_result(strategy, ipv4, ipv6, max_results) == Ok::<Seq<IpAddr>, E>(
                addrs@,
            ),
            Err(err) => ip_lookup_result(strategy, ipv4, ipv6, max_results) == Err::<Seq<IpAddr>, E>(
                err,
            ),
        },
{
    let has_ipv4 = strategy.wants_ipv4();
    let has_ipv6 = strategy.wants_ipv6();
    let v4_first = matches!(strategy, IpLookupStrategy::Ipv4thenIpv6);
    let ipv4_addrs: Vec<IpAddr> = if has_ipv4 {
        match ipv4 {
            Ok(addrs) => addrs,
            Err(err) => {
                if has_ipv6 {
                    Vec::new()
                } else {
                    return Err(err);
                }
            },
        }
    } else {
        Vec::new()
    };
    assert(ipv4_addrs@ =~= ipv4_found(strategy, ipv4));
    let mut found: Vec<IpAddr> = Vec::new();
    if has_ipv6 {
        let ipv6_addrs: Vec<IpAddr> = match ipv6 {
            Ok(addrs) => addrs,
            Err(err) => {
                if ipv4_addrs.len() > 0 {
                    Vec::new()
                } else {
                    return Err(err);
                }
            },
        };
        if v4_first {
            extend_up_to(&mut found, &ipv4_addrs, max_results);
            extend_up_to(&mut found, &ipv6_addrs, max_results);
            assert(found@ =~= merged(strategy, ipv4_addrs@, ipv6_addrs@, max_results));
        } else {
            extend_up_to(&mut found, &ipv6_addrs, max_results);
            extend_up_to(&mut found, &ipv4_addrs, max_results);
            assert(found@ =~= merged(strategy, ipv4_addrs@, ipv6_addrs@, max_results));
        }
    } else {
        extend_up_to(&mut found, &ipv4_addrs, max_results);
        assert(found@ =~= merged(strategy, ipv4_addrs@, Seq::empty(), max_results));
    }
    Ok(found)
}

/// The address to connect from: none where none is configured, the one
/// where one is, and the `pick`-th where there are several.
pub open spec fn source_of(source_ips: Seq<IpAddr>, pick: usize) -> Option<IpAddr> {
    if source_ips.len() == 0 {
        None
    } else if source_ips.len() == 1 {
        Some(source_ips[0])
    } else {
        Some(source_ips[pick as int])
    }
}

/// `result` is what the lookup of a host's addresses comes to for the
/// delivery. A name without records fails for good; any other failure of
/// the lookup, and a lookup that found no address, may pass; addresses
/// found are handed on together with the addresses to connect from.
pub open spec fn resolved(
    hostname: Seq<char>,
    mx_key: Seq<char>,
    lookup: Result<Vec<IpAddr>, DnsError>,
    source_ipv4: Seq<IpAddr>,
    source_ipv6: Seq<IpAddr>,
    pick_ipv4: usize,
    pick_ipv6: usize,
    result: Result<IpLookupResult, Status<(), DeliveryError>>,
) -> bool {
    match lookup {
        Err(DnsError::RecordNotFound(_)) => result matches Err(
            Status::PermanentFailure(DeliveryError::ConnectionError(failure)),
        ) && failure.entity@ == hostname && failure.details@ == "record not found for MX"@,
        Err(DnsError::Other(text)) => result matches Err(
            Status::TemporaryFailure(DeliveryError::ConnectionError(failure)),
        ) && failure.entity@ == hostname && failure.details@ == "lookup error: "@ + text@,
        Ok(remote_ips) => if remote_ips.len() > 0 {
            result matches Ok(found) && found.remote_ips@ == remote_ips@ && found.source_ipv4
                == source_of(source_ipv4, pick_ipv4) && found.source_ipv6 == source_of(
                source_ipv6,
                pick_ipv6,
            )
        } else {
            result matches Err(Status::TemporaryFailure(DeliveryError::DnsError(message)))
                && message@ == "No IP addresses found for "@ + quoted(mx_key) + "."@
        },
    }
}

/// The failure of a delivery for want of an address; `key` is the
/// envelope's MX key in quotes.
pub fn no_addresses_found(key: &str) -> (failure: Status<(), DeliveryError>)
    ensures
        failure matches Status::TemporaryFailure(DeliveryError::DnsError(message)) && message@
            == "No IP addresses found for "@ + key@ + "."@,
{
    let mut message = String::from_str("No IP addresses found for ");
    message.append(key);
    message.append(".");
    Status::TemporaryFailure(DeliveryError::DnsError(message))
}

/// The address to connect from, the `pick`-th where several are
/// configured.
fn choose_source(source_ips: &Vec<IpAddr>, pick: usize) -> (source: Option<IpAddr>)
    requires
        source_ips.len() > 1 ==> pick < source_ips.len(),
    ensures
        source == source_of(source_ips@, pick),
{
    if source_ips.len() == 0 {
        None
    } else if source_ips.len() == 1 {
        Some(source_ips[0])
    } else {
        Some(source_ips[pick])
    }
}

/// Turns the lookup of a host's addresses into the addresses to use.
/// `hostname` names the host in failures, `mx_key` is the envelope's MX
/// key, and `pick_ipv4` and `pick_ipv6` choose among several configured
/// source addresses.
pub fn resolve_host_with(
    hostname: &str,
    mx_key: &str,
    lookup: Result<Vec<IpAddr>, DnsError>,
    source_ipv4: &Vec<IpAddr>,
    source_ipv6: &Vec<IpAddr>,
    pick_ipv4: usize,
    pick_ipv6: usize,
) -> (result: Result<IpLookupResult, Status<(), DeliveryError>>)
    requires
        source_ipv4.len() > 1 ==> pick_ipv4 < source_ipv4.len(),
        source_ipv6.len() > 1 ==> pick_ipv6 < source_ipv6.len(),
    ensures
        resolved(
            hostname@,
            mx_key@,
            lookup,
            source_ipv4@,
            source_ipv6@,
            pick_ipv4,
            pick_ipv6,
            result,
        ),
{
    match lookup {
        Err(DnsError::RecordNotFound(_)) => Err(
            Status::PermanentFailure(
                DeliveryError::ConnectionError(
                    ErrorDetails {
                        entity: hostname.to_owned(),
                        details: String::from_str("record not found for MX"),
                    },
                ),
            ),
        ),
        Err(DnsError::Other(text)) => {
            let mut details = String::from_str("lookup error: ");
            details.append(text.as_str());
            Err(
                Status::TemporaryFailure(
                    DeliveryError::ConnectionError(
                        ErrorDetails { entity: hostname.to_owned(), details },
                    ),
                ),
            )
        },
        Ok(remote_ips) => {
            if remote_ips.len() > 0 {
                Ok(
                    IpLookupResult {
                        source_ipv4: choose_source(source_ipv4, pick_ipv4),
                        source_ipv6: choose_source(source_ipv6, pick_ipv6),
                        remote_ips,
                    },
                )
            } else {
                Err(no_addresses_found(debug_quoted(mx_key).as_str()))
            }
        },
    }
}

/// A number to choose a source address by: drawn at random from the
/// places of the addresses where there are several to choose from, and
/// zero where there is no choice to make.
fn draw_pick(source_ips: &Vec<IpAddr>) -> (pick: usize)
    ensures
        source_ips.len() > 1 ==> pick < source_ips.len(),
        source_ips.len() <= 1 ==> pick == 0,
{
    if source_ips.len() > 1 {
        random_index(source_ips.len())
    } else {
        0
    }
}

/// Turns the lookup of a host's addresses into the addresses to use;
/// where several source addresses are configured, one is drawn at random.
pub fn resolve_host(
    hostname: &str,
    mx_key: &str,
    lookup: Result<Vec<IpAddr>, DnsError>,
    source_ipv4: &Vec<IpAddr>,
    source_ipv6: &Vec<IpAddr>,
) -> (result: Result<IpLookupResult, Status<(), DeliveryError>>)
    ensures
        exists|pick_ipv4: usize, pick_ipv6: usize|
            (source_ipv4.len() > 1 ==> pick_ipv4 < source_ipv4.len()) && (source_ipv6.len() > 1
                ==> pick_ipv6 < source_ipv6.len()) && #[trigger] resolved(
                hostname@,
                mx_key@,
                lookup,
                source_ipv4@,
                source_ipv6@,
                pick_ipv4,
                pick_ipv6,
                result,
            ),
{
    let pick_ipv4 = draw_pick(source_ipv4);
    let pick_ipv6 = draw_pick(source_ipv6);
    resolve_host_with(hostname, mx_key, lookup, source_ipv4, source_ipv6, pick_ipv4, pick_ipv6)
}

} // verus!

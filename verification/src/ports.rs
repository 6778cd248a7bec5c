//! Host-port allocation: a randomised, wrapping scan of a fixed range that
//! skips every port some listening socket already holds.

use rand::RngCore;
use std::collections::HashSet;
use vstd::prelude::*;

verus! {

broadcast use vstd::std_specs::hash::group_hash_axioms;

/// The half-open range `[start, end)` that host ports are drawn from.
#[derive(Clone, Copy, Debug, PartialEq, Eq, Structural)]
pub struct PortRange {
    pub start: u16,
    pub end: u16,
}

/// One forwarded port: traffic to `host` on the host side reaches `logical`
/// inside the job's namespace.
#[derive(Clone, Copy, Debug, PartialEq, Eq, Structural)]
pub struct PortMapping {
    pub logical: u16,
    pub host: u16,
}

/// Why an allocation produced no mapping.
#[derive(Clone, Copy, Debug, PartialEq, Eq, Structural)]
pub enum AllocError {
    /// The range holds fewer free ports than were requested.
    InsufficientPorts,
}

impl PortRange {
    /// Number of ports in the range; an inverted range is empty.
    pub open spec fn size(self) -> nat {
        if self.start < self.end {
            (self.end - self.start) as nat
        } else {
            0
        }
    }

    /// Whether `port` lies in the range.
    pub open spec fn has(self, port: u16) -> bool {
        self.start <= port < self.end
    }

    /// The ports of the range as a set.
    pub open spec fn ports(self) -> Set<u16> {
        Set::new(|p: u16| self.has(p))
    }

    /// Number of ports in the range.
    pub fn len(&self) -> (n: u16)
        ensures
            n == self.size(),
    {
        if self.start < self.end {
            self.end - self.start
        } else {
            0
        }
    }

    /// Whether `port` lies in the range.
    pub fn contains(&self, port: u16) -> (b: bool)
        ensures
            b == self.has(port),
    {
        self.start <= port && port < self.end
    }
}

/// The `i`-th port visited by a scan that begins at `first` and wraps from the
/// end of the range back to its start.
pub open spec fn scan_port(range: PortRange, first: u16, i: int) -> u16 {
    if first + i < range.end {
        (first + i) as u16
    } else {
        (range.start + (first + i - range.end)) as u16
    }
}

/// Every port of the range, in the order a scan from `first` visits them.
pub open spec fn scan_order(range: PortRange, first: u16) -> Seq<u16> {
    Seq::new(range.size(), |i: int| scan_port(range, first, i))
}

/// The test a port passes when no listening socket holds it.
pub open spec fn unused(used: Set<u16>) -> spec_fn(u16) -> bool {
    |p: u16| !used.contains(p)
}

/// The ports of the range that are not in `used`, in scan order from `first`.
pub open spec fn free_in_order(range: PortRange, first: u16, used: Set<u16>) -> Seq<u16> {
    scan_order(range, first).filter(unused(used))
}

/// The ports of the range that are not in `used`.
pub open spec fn free_ports(range: PortRange, used: Set<u16>) -> Set<u16> {
    range.ports().difference(used)
}

/// Pairs the requested logical ports, in order, with the leading host ports.
pub open spec fn pair_up(requested: Seq<u16>, hosts: Seq<u16>) -> Seq<PortMapping> {
    Seq::new(requested.len(), |i: int| PortMapping { logical: requested[i], host: hosts[i] })
}

/// The outcome of an allocation whose scan begins at `first`: all requested
/// ports are mapped, or none is.
pub open spec fn allocation(
    range: PortRange,
    first: u16,
    used: Set<u16>,
    requested: Seq<u16>,
) -> Result<Seq<PortMapping>, AllocError> {
    let free = free_in_order(range, first, used);
    if requested.len() <= free.len() {
        Ok(pair_up(requested, free))
    } else {
        Err(AllocError::InsufficientPorts)
    }
}

/// The outcome of an allocation for a raw random word: nothing requested
/// gives the empty mapping, an empty range gives nothing, and otherwise the
/// scan begins at the port the word selects.
pub open spec fn allocation_for(
    range: PortRange,
    word: u32,
    used: Set<u16>,
    requested: Seq<u16>,
) -> Result<Seq<PortMapping>, AllocError> {
    if requested.len() == 0 {
        Ok(Seq::empty())
    } else if range.size() == 0 {
        Err(AllocError::InsufficientPorts)
    } else {
        allocation(range, first_port(range, word), used, requested)
    }
}

/// The scan's first port for a raw random word: the word is reduced modulo
/// the size of the range and added to its start.
pub open spec fn first_port(range: PortRange, word: u32) -> u16 {
    (range.start + (word as int) % (range.size() as int)) as u16
}

/// The host ports of a mapping, in order.
pub open spec fn mapping_hosts(m: Seq<PortMapping>) -> Seq<u16> {
    Seq::new(m.len(), |i: int| m[i].host)
}

/// The logical ports of a mapping, in order.
pub open spec fn mapping_logicals(m: Seq<PortMapping>) -> Seq<u16> {
    Seq::new(m.len(), |i: int| m[i].logical)
}

/// A scan visits every port of the range exactly once.
pub proof fn lemma_scan_order(range: PortRange, first: u16)
    requires
        range.has(first),
    ensures
        scan_order(range, first).no_duplicates(),
        scan_order(range, first).to_set() == range.ports(),
        scan_order(range, first).len() == range.size(),
{
    let order = scan_order(range, first);
    assert forall|p: u16| range.has(p) implies order.contains(p) by {
        let i: int = if p >= first {
            p - first
        } else {
            range.end - first + (p - range.start)
        };
        assert(order[i] == p);
    }
    assert(order.to_set() =~= range.ports());
}

/// The free ports in scan order are exactly the free ports of the range, each
/// once, whatever port the scan begins at.
pub proof fn lemma_free_in_order(range: PortRange, first: u16, used: Set<u16>)
    requires
        range.has(first),
    ensures
        free_in_order(range, first, used).no_duplicates(),
        free_in_order(range, first, used).to_set() == free_ports(range, used),
        free_in_order(range, first, used).len() == free_ports(range, used).len(),
        free_ports(range, used).finite(),
{
    let order = scan_order(range, first);
    let pred = unused(used);
    let free = order.filter(pred);
    lemma_scan_order(range, first);
    lemma_filter_keeps_distinct(order, pred);
    assert forall|p: u16| free_ports(range, used).contains(p) implies free.contains(p) by {
        assert(order.to_set().contains(p));
        assert(order.contains(p));
        let i = choose|i: int| 0 <= i < order.len() && order[i] == p;
        order.lemma_filter_contains(pred, i);
    }
    assert forall|p: u16| free.contains(p) implies free_ports(range, used).contains(p) by {
        let j = choose|j: int| 0 <= j < free.len() && free[j] == p;
        order.lemma_filter_pred(pred, j);
        order.lemma_filter_contains_rev(pred, p);
        assert(order.to_set().contains(p));
    }
    assert(free.to_set() =~= free_ports(range, used));
    free.unique_seq_to_set();
}

/// Filtering a sequence without repeats leaves a sequence without repeats.
pub proof fn lemma_filter_keeps_distinct(s: Seq<u16>, pred: spec_fn(u16) -> bool)
    requires
        s.no_duplicates(),
    ensures
        s.filter(pred).no_duplicates(),
    decreases s.len(),
{
    reveal(Seq::filter);
    if s.len() > 0 {
        let head = s.drop_last();
        lemma_filter_keeps_distinct(head, pred);
        if pred(s.last()) {
            let f = head.filter(pred);
            assert forall|i: int| 0 <= i < f.len() implies f[i] != s.last() by {
                head.lemma_filter_contains_rev(pred, f[i]);
                let k = choose|k: int| 0 <= k < head.len() && head[k] == f[i];
                assert(s[k] == f[i]);
            }
        }
    }
}

/// The free ports of a range number its size less the used ports within it.
pub proof fn lemma_free_count(range: PortRange, used: Set<u16>)
    ensures
        range.ports().finite(),
        range.ports().len() == range.size(),
        used.intersect(range.ports()).finite(),
        free_ports(range, used).finite(),
        free_ports(range, used).len() == range.size() - used.intersect(range.ports()).len(),
{
    let ports = range.ports();
    if range.size() == 0 {
        assert(ports =~= Set::<u16>::empty());
        assert(used.intersect(ports) =~= Set::<u16>::empty());
        assert(free_ports(range, used) =~= Set::<u16>::empty());
    } else {
        lemma_scan_order(range, range.start);
        scan_order(range, range.start).unique_seq_to_set();
        vstd::seq_lib::seq_to_set_is_finite(scan_order(range, range.start));
        let inside = used.intersect(ports);
        vstd::set_lib::lemma_len_intersect(ports, used);
        assert(inside =~= ports.intersect(used));
        assert(ports.intersect(inside) =~= inside);
        assert(ports.difference(inside) =~= free_ports(range, used));
        vstd::set_lib::lemma_set_difference_len(ports, inside);
    }
}

/// Whenever the requested count does not exceed the size of the range less
/// the number of used ports, the range holds enough free ports.
pub proof fn law_room_suffices(range: PortRange, used: Set<u16>, count: nat)
    requires
        used.finite(),
        count <= range.size() - used.len(),
    ensures
        count <= free_ports(range, used).len(),
{
    lemma_free_count(range, used);
    vstd::set_lib::lemma_len_intersect(used, range.ports());
}

/// Whenever the requested count exceeds the size of the range less the number
/// of used ports that lie within it, the range holds too few free ports.
pub proof fn law_room_lacking(range: PortRange, used: Set<u16>, count: nat)
    requires
        count > range.size() - used.intersect(range.ports()).len(),
    ensures
        count > free_ports(range, used).len(),
{
    lemma_free_count(range, used);
}

/// An allocation is all or nothing, and which of the two does not depend on
/// where the scan begins: it succeeds exactly when the range holds at least
/// as many free ports as were requested.
pub proof fn law_all_or_nothing(
    range: PortRange,
    first: u16,
    used: Set<u16>,
    requested: Seq<u16>,
)
    requires
        range.has(first),
    ensures
        allocation(range, first, used, requested) is Ok <==> requested.len() <= free_ports(
            range,
            used,
        ).len(),
        allocation(range, first, used, requested) matches Ok(m) ==> m.len() == requested.len(),
{
    lemma_free_in_order(range, first, used);
}

/// A successful allocation maps every requested logical port, in order, to a
/// host port of the range that no listening socket holds, and no host port is
/// handed out twice.
pub proof fn law_mapping_shape(
    range: PortRange,
    first: u16,
    used: Set<u16>,
    requested: Seq<u16>,
)
    requires
        range.has(first),
        requested.len() <= free_ports(range, used).len(),
    ensures
        allocation(range, first, used, requested) matches Ok(m) && {
            &&& m.len() == requested.len()
            &&& mapping_logicals(m) == requested
            &&& mapping_hosts(m).no_duplicates()
            &&& forall|i: int|
                0 <= i < m.len() ==> range.has(#[trigger] m[i].host) && !used.contains(m[i].host)
        },
{
    lemma_free_in_order(range, first, used);
    let free = free_in_order(range, first, used);
    let m = pair_up(requested, free);
    assert(mapping_logicals(m) =~= requested);
    assert forall|i: int| 0 <= i < m.len() implies range.has(#[trigger] m[i].host)
        && !used.contains(m[i].host) by {
        assert(free.to_set().contains(free[i]));
    }
}

/// Whether an allocation succeeds does not depend on the random word: it
/// does exactly when the range holds at least as many free ports as were
/// requested.
pub proof fn law_word_is_immaterial(
    range: PortRange,
    word: u32,
    used: Set<u16>,
    requested: Seq<u16>,
)
    ensures
        allocation_for(range, word, used, requested) is Ok <==> requested.len() <= free_ports(
            range,
            used,
        ).len(),
        allocation_for(range, word, used, requested) matches Ok(m) ==> m.len() == requested.len(),
        range.size() > 0 ==> range.has(first_port(range, word)),
{
    if range.size() == 0 {
        assert(free_ports(range, used) =~= Set::<u16>::empty());
    } else {
        lemma_free_in_order(range, first_port(range, word), used);
    }
}

/// The mathematical form of an allocation's outcome.
pub open spec fn outcome_view(r: Result<Vec<PortMapping>, AllocError>) -> Result<
    Seq<PortMapping>,
    AllocError,
> {
    match r {
        Ok(m) => Ok(m@),
        Err(e) => Err(e),
    }
}

/// Draws one word from the calling thread's generator, by
/// `rand::thread_rng().next_u32()`. Nothing is claimed of the word: every
/// caller is verified for each value it may take.
#[verifier::external_body]
pub(crate) fn random_word() -> u32 {
    rand::thread_rng().next_u32()
}

/// Scans the range from `first`, wrapping at its end, and pairs the requested
/// logical ports with the first free host ports met. Either every requested
/// port is mapped or the allocation fails as a whole.
pub fn allocate_from(
    range: PortRange,
    first: u16,
    used: &HashSet<u16>,
    requested: &Vec<u16>,
) -> (r: Result<Vec<PortMapping>, AllocError>)
    requires
        range.has(first),
    ensures
        outcome_view(r) == allocation(range, first, used@, requested@),
{
    let n = requested.len();
    let size = range.len();
    let ghost order = scan_order(range, first);
    let ghost pred = unused(used@);
    let mut hosts: Vec<u16> = Vec::new();
    let mut i: u16 = 0;
    assert(order.take(0).filter(pred) =~= Seq::<u16>::empty()) by {
        reveal(Seq::filter);
    }
    while i < size && hosts.len() < n
        invariant
            range.has(first),
            size == range.size(),
            order == scan_order(range, first),
            pred == unused(used@),
            i <= size,
            hosts@ == order.take(i as int).filter(pred),
            hosts.len() <= n,
            n == requested.len(),
        decreases size - i,
    {
        let p: u16 = if i < range.end - first {
            first + i
        } else {
            range.start + (i - (range.end - first))
        };
        assert(p == order[i as int]);
        proof {
            order.lemma_take_succ_push(i as int);
            order.take(i as int).lemma_filter_push(p, pred);
        }
        if !used.contains(&p) {
            hosts.push(p);
        }
        i += 1;
    }
    proof {
        assert(order =~= order.take(i as int) + order.skip(i as int));
        Seq::filter_distributes_over_add(order.take(i as int), order.skip(i as int), pred);
        if i == size {
            assert(order.take(i as int) =~= order);
        }
    }
    if hosts.len() < n {
        return Err(AllocError::InsufficientPorts);
    }
    let mut mapped: Vec<PortMapping> = Vec::new();
    let mut j: usize = 0;
    while j < n
        invariant
            j <= n,
            n == requested.len(),
            n == hosts.len(),
            mapped.len() == j,
            forall|k: int|
                0 <= k < j ==> mapped[k] == (PortMapping { logical: requested[k], host: hosts[k] }),
        decreases n - j,
    {
        mapped.push(PortMapping { logical: requested[j], host: hosts[j] });
        j += 1;
    }
    assert(mapped@ =~= pair_up(requested@, free_in_order(range, first, used@)));
    Ok(mapped)
}

/// The allocation for a given random word. With nothing requested the result
/// is the empty mapping and no port is looked at; otherwise the scan begins
/// at the port the word selects.
pub fn allocate_with(
    range: PortRange,
    word: u32,
    used: &HashSet<u16>,
    requested: &Vec<u16>,
) -> (r: Result<Vec<PortMapping>, AllocError>)
    ensures
        outcome_view(r) == allocation_for(range, word, used@, requested@),
{
    if requested.len() == 0 {
        let mapped: Vec<PortMapping> = Vec::new();
        assert(mapped@ =~= Seq::<PortMapping>::empty());
        return Ok(mapped);
    }
    let size = range.len();
    if size == 0 {
        return Err(AllocError::InsufficientPorts);
    }
    let offset: u16 = (word % (size as u32)) as u16;
    let first: u16 = range.start + offset;
    allocate_from(range, first, used, requested)
}

/// Maps each requested logical port to a free host port of the range, the
/// scan beginning at a random port of the range. It succeeds exactly when
/// the range holds enough ports outside `used`, whatever the random choice.
pub fn allocate(range: PortRange, used: &HashSet<u16>, requested: &Vec<u16>) -> (r: Result<
    Vec<PortMapping>,
    AllocError,
>)
    ensures
        r is Ok <==> requested@.len() <= free_ports(range, used@).len(),
        requested@.len() == 0 ==> outcome_view(r) == Ok::<Seq<PortMapping>, AllocError>(
            Seq::empty(),
        ),
        r is Ok && requested@.len() > 0 ==> exists|first: u16|
            range.has(first) && outcome_view(r) == #[trigger] allocation(
                range,
                first,
                used@,
                requested@,
            ),
{
    let word = random_word();
    let r = allocate_with(range, word, used, requested);
    proof {
        if requested@.len() > 0 {
            if range.size() == 0 {
                assert(free_ports(range, used@) =~= Set::<u16>::empty());
            } else {
                let first = first_port(range, word);
                lemma_free_in_order(range, first, used@);
            }
        }
    }
    r
}

/// The set of the ports in `ports`.
pub fn port_set(ports: &Vec<u16>) -> (set: HashSet<u16>)
    ensures
        set@ == ports@.to_set(),
{
    let mut set: HashSet<u16> = HashSet::new();
    let mut i: usize = 0;
    assert(ports@.take(0).to_set() =~= Set::<u16>::empty());
    while i < ports.len()
        invariant
            i <= ports.len(),
            set@ == ports@.take(i as int).to_set(),
        decreases ports.len() - i,
    {
        set.insert(ports[i]);
        proof {
            assert(ports@.take(i + 1) =~= ports@.take(i as int).push(ports@[i as int]));
            ports@.take(i as int).lemma_push_to_set_commute(ports@[i as int]);
        }
        i += 1;
    }
    assert(ports@.take(i as int) =~= ports@);
    set
}

} // verus!

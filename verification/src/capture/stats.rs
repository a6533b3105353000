//! Per-window traffic statistics: packet and byte counts, protocol counts,
//! and how many packets each source address and destination port saw.

use std::collections::HashMap;
use std::time::Instant;
use vstd::prelude::*;
use crate::capture::ranking::{
    select_top, max_count, spec_is_ranking, spec_is_top_count, lemma_selection_ranks,
    lemma_max_count_tops,
};
use crate::tables::{NameCounts, spec_bump, spec_count_of, spec_lists_map, lemma_bump_count};
use crate::clock;
use vstd::std_specs::hash::spec_hash_map_iter;
use vstd::std_specs::iter::IteratorSpec;

verus! {

broadcast use vstd::std_specs::hash::group_hash_axioms;

/// Length of a statistics window in nanoseconds (one second).
pub const WINDOW_NANOS: u128 = 1_000_000_000;

/// What `str::to_uppercase` returns for a string: the Unicode uppercase
/// mapping of each character, concatenated.
pub uninterp spec fn spec_uppercase(s: Seq<char>) -> Seq<char>;

/// Every character of `s` is ASCII.
pub open spec fn spec_is_ascii(s: Seq<char>) -> bool {
    forall|i: int| 0 <= i < s.len() ==> (#[trigger] s[i] as u32) < 128
}

/// The uppercase of an ASCII character: `a` to `z` become `A` to `Z`;
/// every other ASCII character has no other case and stays as it is.
pub open spec fn spec_ascii_upper(c: char) -> char {
    if 'a' <= c && c <= 'z' {
        ((c as u32) - 32) as char
    } else {
        c
    }
}

/// Each character of `s` in ASCII uppercase.
pub open spec fn spec_ascii_uppercase(s: Seq<char>) -> Seq<char> {
    s.map_values(|c: char| spec_ascii_upper(c))
}

/// Calls `str::to_uppercase`; the result is named by `spec_uppercase`.
/// For ASCII input the documented mapping is stated: ASCII letters become
/// their ASCII capitals and the other characters stay as they are.
#[verifier::external_body]
fn to_uppercase(s: &str) -> (r: String)
    ensures
        r@ == spec_uppercase(s@),
        spec_is_ascii(s@) ==> r@ == spec_ascii_uppercase(s@),
{
    s.to_uppercase()
}

/// The protocol counters that a packet can count toward.
#[derive(Debug, Clone, Copy, PartialEq, Eq, Structural)]
pub enum ProtocolClass {
    Tcp,
    Udp,
    Icmp,
    Other,
}

/// The counter that an uppercased protocol name counts toward.
pub open spec fn spec_protocol_class(upper: Seq<char>) -> ProtocolClass {
    if upper == "TCP"@ {
        ProtocolClass::Tcp
    } else if upper == "UDP"@ {
        ProtocolClass::Udp
    } else if upper == "ICMP"@ {
        ProtocolClass::Icmp
    } else {
        ProtocolClass::Other
    }
}

/// The counter that an (already uppercased) protocol name counts toward.
pub fn protocol_class(upper: &str) -> (c: ProtocolClass)
    ensures
        c == spec_protocol_class(upper@),
{
    let u = upper.to_owned();
    if u == "TCP".to_owned() {
        ProtocolClass::Tcp
    } else if u == "UDP".to_owned() {
        ProtocolClass::Udp
    } else if u == "ICMP".to_owned() {
        ProtocolClass::Icmp
    } else {
        ProtocolClass::Other
    }
}

/// Counts one packet to `port` in a port table whose counts are all below
/// `bound`.
fn bump_port(ports: &mut HashMap<u16, u64>, port: u16, bound: u64)
    requires
        forall|p: u16| #[trigger] old(ports)@.contains_key(p) ==> old(ports)@[p] < bound,
        bound > 0,
    ensures
        forall|p: u16| #[trigger] final(ports)@.contains_key(p) ==> final(ports)@[p] <= bound,
        final(ports)@ == spec_bump(old(ports)@, port),
{
    let c = match ports.get(&port) {
        Some(c) => *c,
        None => 0,
    };
    ports.insert(port, c + 1);
}

/// `a + b` for a byte count `a` and a packet size `b`.
fn add_size(a: u64, b: usize) -> (r: u64)
    requires
        a + b <= u64::MAX,
    ensures
        r == a + b,
{
    a + b as u64
}

/// A window is due for a report once it has lasted one second.
pub fn window_elapsed(elapsed_nanos: u128) -> (due: bool)
    ensures
        due == (elapsed_nanos >= WINDOW_NANOS),
{
    elapsed_nanos >= WINDOW_NANOS
}

/// A window that started at clock reading `start` is due for a report at
/// reading `now` once it has lasted one second.
pub open spec fn spec_window_due(now: u128, start: u128) -> bool {
    now - start >= WINDOW_NANOS
}

#[derive(Debug)]
pub struct TrafficStats {
    pub packet_count: u64,
    pub byte_count: u64,
    pub tcp_packets: u64,
    pub udp_packets: u64,
    pub icmp_packets: u64,
    source_ips: NameCounts,
    destination_ports: HashMap<u16, u64>,
    clock_origin: Instant,
    window_start: u128,
    clock_reading: u128,
}

impl TrafficStats {
    /// Packets counted in this window (the field `packet_count`).
    pub closed spec fn spec_packet_count(&self) -> u64 {
        self.packet_count
    }

    /// Bytes counted in this window (the field `byte_count`).
    pub closed spec fn spec_byte_count(&self) -> u64 {
        self.byte_count
    }

    /// TCP packets counted in this window (the field `tcp_packets`).
    pub closed spec fn spec_tcp_packets(&self) -> u64 {
        self.tcp_packets
    }

    /// UDP packets counted in this window (the field `udp_packets`).
    pub closed spec fn spec_udp_packets(&self) -> u64 {
        self.udp_packets
    }

    /// ICMP packets counted in this window (the field `icmp_packets`).
    pub closed spec fn spec_icmp_packets(&self) -> u64 {
        self.icmp_packets
    }

    /// The latest time read from the clock, in nanoseconds since these
    /// statistics were created (0 before the first reading). Readings never
    /// go back.
    pub closed spec fn spec_clock(&self) -> u128 {
        self.clock_reading
    }

    /// The clock reading at which the current window started.
    pub closed spec fn spec_window_start(&self) -> u128 {
        self.window_start
    }

    /// Packets per source address in this window.
    pub closed spec fn spec_source_counts(&self) -> Map<Seq<char>, u64> {
        self.source_ips.spec_map()
    }

    /// Packets per destination port in this window.
    pub closed spec fn spec_port_counts(&self) -> Map<u16, u64> {
        self.destination_ports@
    }

    /// The tables are consistent and no count exceeds the packet count.
    pub closed spec fn wf(&self) -> bool {
        &&& self.source_ips.wf()
        &&& forall|k: Seq<char>| #[trigger]
            self.source_ips.spec_map().contains_key(k) ==> self.source_ips.spec_map()[k]
                <= self.packet_count
        &&& forall|p: u16| #[trigger]
            self.destination_ports@.contains_key(p) ==> self.destination_ports@[p]
                <= self.packet_count
        &&& self.tcp_packets + self.udp_packets + self.icmp_packets <= self.packet_count
        &&& self.window_start <= self.clock_reading
    }

    /// In a well-formed window no source or port has counted more packets
    /// than the window has, and the protocol counters together count no
    /// more than that either.
    pub proof fn lemma_counts_bounded(&self)
        requires
            self.wf(),
        ensures
            forall|k: Seq<char>| #[trigger]
                self.spec_source_counts().contains_key(k) ==> self.spec_source_counts()[k]
                    <= self.spec_packet_count(),
            forall|p: u16| #[trigger]
                self.spec_port_counts().contains_key(p) ==> self.spec_port_counts()[p]
                    <= self.spec_packet_count(),
            self.spec_tcp_packets() + self.spec_udp_packets() + self.spec_icmp_packets()
                <= self.spec_packet_count(),
    {
    }

    /// The tables hold finitely many keys.
    pub proof fn lemma_tables_finite(&self)
        requires
            self.wf(),
        ensures
            self.spec_source_counts().dom().finite(),
            self.spec_port_counts().dom().finite(),
    {
        self.source_ips.lemma_finite();
    }

    /// An empty window starting now.
    pub fn new() -> (s: Self)
        ensures
            s.wf(),
            s.spec_packet_count() == 0,
            s.spec_byte_count() == 0,
            s.spec_tcp_packets() == 0,
            s.spec_udp_packets() == 0,
            s.spec_icmp_packets() == 0,
            s.spec_source_counts() == Map::<Seq<char>, u64>::empty(),
            s.spec_port_counts() == Map::<u16, u64>::empty(),
            s.spec_clock() == 0,
            s.spec_window_start() == 0,
    {
        let s = TrafficStats {
            packet_count: 0,
            byte_count: 0,
            tcp_packets: 0,
            udp_packets: 0,
            icmp_packets: 0,
            source_ips: NameCounts::new(),
            destination_ports: HashMap::new(),
            clock_origin: clock::instant_now(),
            window_start: 0,
            clock_reading: 0,
        };
        s
    }

    /// Counts one packet of `packet_size` bytes.
    pub fn record_packet(
        &mut self,
        source_ip: Option<&str>,
        destination_port: Option<u16>,
        protocol: &str,
        packet_size: usize,
    )
        requires
            old(self).wf(),
            old(self).spec_packet_count() < u64::MAX,
            old(self).spec_byte_count() + packet_size <= u64::MAX,
        ensures
            final(self).wf(),
            final(self).spec_packet_count() == old(self).spec_packet_count() + 1,
            final(self).spec_byte_count() == old(self).spec_byte_count() + packet_size,
            final(self).spec_clock() == old(self).spec_clock(),
            final(self).spec_window_start() == old(self).spec_window_start(),
            forall|k: Seq<char>| #[trigger]
                spec_count_of(final(self).spec_source_counts(), k) == spec_count_of(
                    old(self).spec_source_counts(),
                    k,
                ) + if source_ip matches Some(ip) && ip@ == k {
                    1int
                } else {
                    0int
                },
            forall|p: u16| #[trigger]
                spec_count_of(final(self).spec_port_counts(), p) == spec_count_of(
                    old(self).spec_port_counts(),
                    p,
                ) + if destination_port == Some(p) {
                    1int
                } else {
                    0int
                },
            spec_is_ascii(protocol@) ==> spec_uppercase(protocol@) == spec_ascii_uppercase(
                protocol@,
            ),
            final(self).spec_tcp_packets() == old(self).spec_tcp_packets() + if spec_protocol_class(
                spec_uppercase(protocol@),
            ) == ProtocolClass::Tcp {
                1int
            } else {
                0int
            },
            final(self).spec_udp_packets() == old(self).spec_udp_packets() + if spec_protocol_class(
                spec_uppercase(protocol@),
            ) == ProtocolClass::Udp {
                1int
            } else {
                0int
            },
            final(self).spec_icmp_packets() == old(self).spec_icmp_packets() + if spec_protocol_class(
                spec_uppercase(protocol@),
            ) == ProtocolClass::Icmp {
                1int
            } else {
                0int
            },
            final(self).spec_source_counts() == match source_ip {
                Some(ip) => spec_bump(old(self).spec_source_counts(), ip@),
                None => old(self).spec_source_counts(),
            },
            final(self).spec_port_counts() == match destination_port {
                Some(port) => spec_bump(old(self).spec_port_counts(), port),
                None => old(self).spec_port_counts(),
            },
    {
        self.packet_count = self.packet_count + 1;
        self.byte_count = add_size(self.byte_count, packet_size);
        let upper = to_uppercase(protocol);
        match protocol_class(upper.as_str()) {
            ProtocolClass::Tcp => {
                self.tcp_packets = self.tcp_packets + 1;
            },
            ProtocolClass::Udp => {
                self.udp_packets = self.udp_packets + 1;
            },
            ProtocolClass::Icmp => {
                self.icmp_packets = self.icmp_packets + 1;
            },
            ProtocolClass::Other => {},
        }
        if let Some(ip) = source_ip {
            self.source_ips.bump(ip, self.packet_count);
        }
        let ghost sources = old(self).spec_source_counts();
        let ghost ports = old(self).spec_port_counts();
        if let Some(ip) = source_ip {
            assert forall|k: Seq<char>| #[trigger]
                spec_count_of(spec_bump(sources, ip@), k) == spec_count_of(sources, k) + if ip@
                    == k {
                    1int
                } else {
                    0int
                } by {
                lemma_bump_count(sources, ip@, k);
            }
        }
        if let Some(port) = destination_port {
            bump_port(&mut self.destination_ports, port, self.packet_count);
            assert forall|q: u16| #[trigger]
                spec_count_of(spec_bump(ports, port), q) == spec_count_of(ports, q) + if port
                    == q {
                    1int
                } else {
                    0int
                } by {
                lemma_bump_count(ports, port, q);
            }
        }
    }

    /// Reads the clock: nanoseconds since these statistics were created,
    /// never less than the latest recorded reading. Nothing more is claimed
    /// of the value: it depends on the clock.
    fn read_clock(&self) -> (t: u128)
        ensures
            t >= self.clock_reading,
    {
        let reading = clock::nanos_since(&self.clock_origin);
        if reading < self.clock_reading {
            self.clock_reading
        } else {
            reading
        }
    }

    /// The window has lasted at least one second: the clock is read (never
    /// going back from the latest reading) and the time since the window's
    /// start is held against `WINDOW_NANOS`. The reading itself depends on
    /// the clock.
    pub fn should_report(&self) -> (due: bool)
        ensures
            exists|t: u128|
                t >= self.spec_clock() && due == #[trigger] spec_window_due(t, self.spec_window_start()),
    {
        let t = self.read_clock();
        let elapsed = if t >= self.window_start {
            t - self.window_start
        } else {
            0
        };
        let due = window_elapsed(elapsed);
        assert(due == spec_window_due(t, self.spec_window_start()));
        due
    }

    pub fn packets_per_second(&self) -> (n: u64)
        ensures
            n == self.spec_packet_count(),
    {
        self.packet_count
    }

    pub fn bytes_per_second(&self) -> (n: u64)
        ensures
            n == self.spec_byte_count(),
    {
        self.byte_count
    }

    /// The port table as entries, in the map's iteration order.
    fn port_entry_list(&self) -> (e: Vec<(u16, u64)>)
        ensures
            spec_lists_map(e@, self.spec_port_counts()),
    {
        let mut e: Vec<(u16, u64)> = Vec::new();
        let ghost m = self.destination_ports@;
        let ghost v = spec_hash_map_iter(&self.destination_ports).remaining();
        for (port, count) in it: self.destination_ports.iter()
            invariant
                it.seq() == v,
                e@.len() == it.index(),
                forall|t: int|
                    0 <= t < it.index() ==> #[trigger] e@[t] == (*v[t].0, *v[t].1),
        {
            e.push((*port, *count));
        }
        proof {
            assert(e@.len() == v.len());
            assert(v.len() == m.dom().len());
            assert forall|i: int| 0 <= i < e@.len() implies #[trigger] m.contains_key(e@[i].0)
                && m[e@[i].0] == e@[i].1 by {
                assert(m.contains_key(*v[i].0));
            }
            assert forall|k: u16| #[trigger] m.contains_key(k) implies exists|i: int|
                0 <= i < e@.len() && e@[i].0 == k by {
                assert(v.contains((&k, &m[k])));
                let i = choose|i: int| 0 <= i < v.len() && v[i] == (&k, &m[k]);
                assert(e@[i].0 == k);
            }
            assert forall|i: int, j: int| 0 <= i < j < e@.len() implies e@[i].0 != e@[j].0 by {
                if e@[i].0 == e@[j].0 {
                    assert(m.contains_key(*v[i].0));
                    assert(m.contains_key(*v[j].0));
                    assert(v[i] == v[j]);
                }
            }
        }
        e
    }

    /// Up to `limit` source addresses with their packet counts, busiest
    /// first.
    pub fn top_source_ips(&self, limit: usize) -> (r: Vec<(&str, u64)>)
        requires
            self.wf(),
        ensures
            spec_is_ranking(
                self.spec_source_counts(),
                limit as nat,
                r@.map_values(|p: (&str, u64)| (p.0@, p.1)),
            ),
    {
        self.source_ips.top(limit)
    }

    /// Up to `limit` destination ports with their packet counts, busiest
    /// first.
    pub fn top_destination_ports(&self, limit: usize) -> (r: Vec<(u16, u64)>)
        ensures
            spec_is_ranking(self.spec_port_counts(), limit as nat, r@),
    {
        let e = self.port_entry_list();
        let (r, Ghost(order)) = select_top(&e, limit);
        proof {
            lemma_selection_ranks(self.spec_port_counts(), e@, limit as nat, r@, order);
        }
        r
    }

    /// The packet count of the busiest source address (0 when none).
    pub fn top_source_count(&self) -> (c: u64)
        requires
            self.wf(),
        ensures
            spec_is_top_count(self.spec_source_counts(), c),
    {
        self.source_ips.top_count()
    }

    /// The packet count of the busiest destination port (0 when none).
    pub fn top_destination_port_count(&self) -> (c: u64)
        ensures
            spec_is_top_count(self.spec_port_counts(), c),
    {
        let e = self.port_entry_list();
        let c = max_count(&e);
        proof {
            lemma_max_count_tops(self.spec_port_counts(), e@, c);
        }
        c
    }

    /// Starts a new, empty window at a fresh clock reading.
    pub fn reset_window(&mut self)
        ensures
            final(self).wf(),
            old(self).spec_clock() <= final(self).spec_clock(),
            final(self).spec_window_start() == final(self).spec_clock(),
            final(self).spec_packet_count() == 0,
            final(self).spec_byte_count() == 0,
            final(self).spec_tcp_packets() == 0,
            final(self).spec_udp_packets() == 0,
            final(self).spec_icmp_packets() == 0,
            final(self).spec_source_counts() == Map::<Seq<char>, u64>::empty(),
            final(self).spec_port_counts() == Map::<u16, u64>::empty(),
    {
        self.packet_count = 0;
        self.byte_count = 0;
        self.tcp_packets = 0;
        self.udp_packets = 0;
        self.icmp_packets = 0;
        self.source_ips.clear();
        self.destination_ports.clear();
        let t = self.read_clock();
        self.clock_reading = t;
        self.window_start = t;
    }
}

} // verus!

//! Fake-IP DNS shim: every A-record query is answered with a
//! sequentially allocated address from a private block, and the
//! bidirectional mapping lets a later TCP flow to that address be
//! correlated back to the queried name.  The block is finite; once it
//! is exhausted, allocation fails and the query goes unanswered rather
//! than handing out a reused address.

use vstd::prelude::*;

use crate::text::{spec_string_bytes, spec_dec_digits, bytes_eq, dec_u64, ascii_to_string,
    append_bytes, lemma_dec_digit_range, spec_ascii_chars};

verus! {

/// First fake address handed out: 10.0.1.1.
pub const FAKE_IP_FIRST: u32 = 0x0A000101;

/// One past the last address the shim will allocate: 10.0.1.255 is
/// never handed out, so the block is 10.0.1.1 through 10.0.1.254.
pub const FAKE_IP_LIMIT: u32 = 0x0A0001FF;

/// One fake-IP allocation: the address and the name it stands for.
pub struct DnsMapping {
    pub ip: u32,
    pub name: String,
}

/// An A-record query, reduced to what the answer depends on.
pub struct DnsQuery {
    pub id: u16,
    pub qclass: u16,
    pub qtype: u16,
    pub name: String,
}

/// The positive answer: the queried name resolved to a fake address,
/// with a short TTL.
pub struct DnsAnswer {
    pub id: u16,
    pub name: String,
    pub ttl_secs: u32,
    pub ip: u32,
}

/// The `IN` DNS class code.
pub const DNS_CLASS_IN: u16 = 1;

/// The `A` record type code.
pub const DNS_TYPE_A: u16 = 1;

/// The shim's state: the allocations made so far and the next free
/// address.
pub struct DnsServer {
    pub entries: Vec<DnsMapping>,
    pub next_fake_ip: u32,
}

// ---------------------------------------------------------------------
// Specification
// ---------------------------------------------------------------------

/// The address already allocated to a name, if any.
pub open spec fn spec_ip_for_name(entries: Seq<DnsMapping>, name: Seq<u8>) -> Option<u32>
    decreases entries.len(),
{
    if entries.len() == 0 {
        None
    } else if spec_string_bytes(entries[0].name@) == name {
        Some(entries[0].ip)
    } else {
        spec_ip_for_name(entries.drop_first(), name)
    }
}

/// The name an address was allocated to, if any.
pub open spec fn spec_name_for_ip(entries: Seq<DnsMapping>, ip: u32) -> Option<Seq<char>>
    decreases entries.len(),
{
    if entries.len() == 0 {
        None
    } else if entries[0].ip == ip {
        Some(entries[0].name@)
    } else {
        spec_name_for_ip(entries.drop_first(), ip)
    }
}

impl DnsServer {
    /// The map is a bijection over the allocated block: addresses come
    /// from the block below the allocation cursor, and no address or
    /// name appears twice.
    pub open spec fn wf(&self) -> bool {
        &&& FAKE_IP_FIRST <= self.next_fake_ip <= FAKE_IP_LIMIT
        &&& forall|i: int|
            0 <= i < self.entries@.len() ==> FAKE_IP_FIRST <= (
            #[trigger] self.entries@[i]).ip < self.next_fake_ip
        &&& forall|i: int, j: int|
            0 <= i < j < self.entries@.len() ==> (#[trigger] self.entries@[i]).ip != (
            #[trigger] self.entries@[j]).ip
        &&& forall|i: int, j: int|
            0 <= i < j < self.entries@.len() ==> spec_string_bytes(
                (#[trigger] self.entries@[i]).name@,
            ) != spec_string_bytes((#[trigger] self.entries@[j]).name@)
    }

    pub fn new() -> (s: DnsServer)
        ensures
            s.wf(),
            s.entries@.len() == 0,
            s.next_fake_ip == FAKE_IP_FIRST,
    {
        DnsServer { entries: Vec::new(), next_fake_ip: FAKE_IP_FIRST }
    }

    /// Answer one query.  Only `IN`-class `A` queries are answered: a
    /// known name resolves to its existing address and changes
    /// nothing; an unknown name gets the next free address, recorded
    /// in both directions; an exhausted block answers nothing.
    #[verifier::loop_isolation(false)]
    pub fn build_response(&mut self, query: &DnsQuery) -> (r: Option<DnsAnswer>)
        requires
            old(self).wf(),
        ensures
            final(self).wf(),
            (query.qclass != DNS_CLASS_IN || query.qtype != DNS_TYPE_A) ==> r is None
                && *final(self) == *old(self),
            query.qclass == DNS_CLASS_IN && query.qtype == DNS_TYPE_A ==> match spec_ip_for_name(
                old(self).entries@,
                spec_string_bytes(query.name@),
            ) {
                Some(ip) => (r matches Some(a) && a.id == query.id && a.name@ == query.name@
                    && a.ttl_secs == 60 && a.ip == ip) && *final(self) == *old(self),
                None => {
                    if old(self).next_fake_ip < FAKE_IP_LIMIT {
                        &&& (r matches Some(a) && a.id == query.id && a.name@ == query.name@
                            && a.ttl_secs == 60 && a.ip == old(self).next_fake_ip)
                        &&& final(self).next_fake_ip == old(self).next_fake_ip + 1
                        &&& final(self).entries@.len() == old(self).entries@.len() + 1
                        &&& final(self).entries@.take(old(self).entries@.len() as int) == old(
                            self,
                        ).entries@
                        &&& final(self).entries@.last().ip == old(self).next_fake_ip
                        &&& final(self).entries@.last().name@ == query.name@
                    } else {
                        r is None && *final(self) == *old(self)
                    }
                },
            },
    {
        if query.qclass != DNS_CLASS_IN || query.qtype != DNS_TYPE_A {
            return None;
        }
        let nb: &[u8] = query.name.as_str().as_bytes();
        let mut i: usize = 0;
        while i < self.entries.len()
            invariant
                0 <= i <= self.entries@.len(),
                forall|j: int|
                    0 <= j < i ==> spec_string_bytes(
                        (#[trigger] self.entries@[j]).name@,
                    ) != nb@,
            decreases self.entries@.len() - i,
        {
            let entry = &self.entries[i];
            if bytes_eq(entry.name.as_str().as_bytes(), nb) {
                proof {
                    lemma_ip_for_name_at(self.entries@, nb@, i as int);
                }
                return Some(
                    DnsAnswer {
                        id: query.id,
                        name: clone_name(&query.name),
                        ttl_secs: 60,
                        ip: entry.ip,
                    },
                );
            }
            i = i + 1;
        }
        proof {
            lemma_ip_for_name_none(self.entries@, nb@);
        }
        if self.next_fake_ip >= FAKE_IP_LIMIT {
            return None;
        }
        let ip = self.next_fake_ip;
        self.next_fake_ip = ip + 1;
        self.entries.push(DnsMapping { ip, name: clone_name(&query.name) });
        proof {
            assert(self.entries@.take(old(self).entries@.len() as int) =~= old(self).entries@);
        }
        Some(DnsAnswer { id: query.id, name: clone_name(&query.name), ttl_secs: 60, ip })
    }

    /// The name a fake address was handed out for, if any.
    #[verifier::loop_isolation(false)]
    pub fn get_domain_by_ip(&self, ip: u32) -> (r: Option<String>)
        ensures
            match spec_name_for_ip(self.entries@, ip) {
                Some(name) => r matches Some(s) && s@ == name,
                None => r is None,
            },
    {
        let mut i: usize = 0;
        while i < self.entries.len()
            invariant
                0 <= i <= self.entries@.len(),
                forall|j: int| 0 <= j < i ==> (#[trigger] self.entries@[j]).ip != ip,
            decreases self.entries@.len() - i,
        {
            let entry = &self.entries[i];
            if entry.ip == ip {
                proof {
                    lemma_name_for_ip_at(self.entries@, ip, i as int);
                }
                return Some(clone_name(&entry.name));
            }
            i = i + 1;
        }
        proof {
            lemma_name_for_ip_none(self.entries@, ip);
        }
        None
    }
}

fn clone_name(s: &String) -> (r: String)
    ensures
        r@ == s@,
{
    s.clone()
}

proof fn lemma_ip_for_name_at(entries: Seq<DnsMapping>, name: Seq<u8>, i: int)
    requires
        0 <= i < entries.len(),
        forall|j: int| 0 <= j < i ==> spec_string_bytes((#[trigger] entries[j]).name@) != name,
        spec_string_bytes(entries[i].name@) == name,
    ensures
        spec_ip_for_name(entries, name) == Some(entries[i].ip),
    decreases i,
{
    if i > 0 {
        lemma_ip_for_name_at(entries.drop_first(), name, i - 1);
    }
}

proof fn lemma_ip_for_name_none(entries: Seq<DnsMapping>, name: Seq<u8>)
    requires
        forall|j: int|
            0 <= j < entries.len() ==> spec_string_bytes((#[trigger] entries[j]).name@) != name,
    ensures
        spec_ip_for_name(entries, name) is None,
    decreases entries.len(),
{
    if entries.len() > 0 {
        lemma_ip_for_name_none(entries.drop_first(), name);
    }
}

proof fn lemma_name_for_ip_at(entries: Seq<DnsMapping>, ip: u32, i: int)
    requires
        0 <= i < entries.len(),
        forall|j: int| 0 <= j < i ==> (#[trigger] entries[j]).ip != ip,
        entries[i].ip == ip,
    ensures
        spec_name_for_ip(entries, ip) == Some(entries[i].name@),
    decreases i,
{
    if i > 0 {
        lemma_name_for_ip_at(entries.drop_first(), ip, i - 1);
    }
}

proof fn lemma_name_for_ip_none(entries: Seq<DnsMapping>, ip: u32)
    requires
        forall|j: int| 0 <= j < entries.len() ==> (#[trigger] entries[j]).ip != ip,
    ensures
        spec_name_for_ip(entries, ip) is None,
    decreases entries.len(),
{
    if entries.len() > 0 {
        lemma_name_for_ip_none(entries.drop_first(), ip);
    }
}

// ---------------------------------------------------------------------
// Address rendering
// ---------------------------------------------------------------------

/// Dotted-decimal rendering of an IPv4 address.
pub open spec fn spec_ip_bytes(ip: u32) -> Seq<u8> {
    spec_dec_digits((ip / 0x1000000) as nat) + seq![46u8] + spec_dec_digits(
        ((ip / 0x10000) % 256) as nat,
    ) + seq![46u8] + spec_dec_digits(((ip / 0x100) % 256) as nat) + seq![46u8] + spec_dec_digits(
        (ip % 256) as nat,
    )
}

/// Render an IPv4 address as dotted decimal, for display when an
/// intercepted flow's address was never issued by the shim.
pub fn ip_string(ip: u32) -> (r: String)
    ensures
        r@ == spec_ascii_chars(spec_ip_bytes(ip)),
{
    let mut v = dec_u64((ip / 0x1000000) as u64);
    v.push(46);
    let o2 = dec_u64(((ip / 0x10000) % 256) as u64);
    append_bytes(&mut v, o2.as_slice());
    v.push(46);
    let o3 = dec_u64(((ip / 0x100) % 256) as u64);
    append_bytes(&mut v, o3.as_slice());
    v.push(46);
    let o4 = dec_u64((ip % 256) as u64);
    append_bytes(&mut v, o4.as_slice());
    proof {
        assert(v@ =~= spec_ip_bytes(ip));
        lemma_dec_digit_range((ip / 0x1000000) as nat);
        lemma_dec_digit_range(((ip / 0x10000) % 256) as nat);
        lemma_dec_digit_range(((ip / 0x100) % 256) as nat);
        lemma_dec_digit_range((ip % 256) as nat);
    }
    ascii_to_string(v)
}

} // verus!

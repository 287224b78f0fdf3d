//! The event table built from configuration: topic hashes to event names,
//! and the per-chain allowlist of paymaster contracts.
use vstd::prelude::*;
use crate::config::{ChainConfig, Config, ContractConfig, EventConfig};
use crate::listener::BlockWindow;
use crate::numeric::{all_digits, digit_value, has_hex_prefix};

verus! {

/// Hex digits of a text, after one optional `0x`.
pub open spec fn hex_body(s: Seq<char>) -> Seq<char> {
    if has_hex_prefix(s) {
        s.skip(2)
    } else {
        s
    }
}

/// The `n` bytes written in hex by a text (`0x` optional), if it holds
/// exactly `2 * n` hex digits.
pub open spec fn hex_bytes_of(s: Seq<char>, n: nat) -> Option<Seq<u8>> {
    let b = hex_body(s);
    if b.len() == 2 * n && all_digits(b, 16) {
        Some(Seq::new(n, |i: int| (digit_value(b[2 * i]) * 16 + digit_value(b[2 * i + 1])) as u8))
    } else {
        None
    }
}

/// A 20-byte address written in hex.
pub open spec fn address_of(s: Seq<char>) -> Option<Seq<u8>> {
    hex_bytes_of(s, 20)
}

/// A 32-byte topic hash written in hex.
pub open spec fn topic_of(s: Seq<char>) -> Option<Seq<u8>> {
    hex_bytes_of(s, 32)
}

fn hex_digit(c: char) -> (r: Option<u8>)
    ensures
        r is Some <==> digit_value(c) < 16,
        r is Some ==> r->0 == digit_value(c),
{
    if '0' <= c && c <= '9' {
        Some(((c as u32) - ('0' as u32)) as u8)
    } else if 'a' <= c && c <= 'f' {
        Some(((c as u32) - ('a' as u32) + 10) as u8)
    } else if 'A' <= c && c <= 'F' {
        Some(((c as u32) - ('A' as u32) + 10) as u8)
    } else {
        None
    }
}

/// Reads `n` bytes written in hex, with an optional `0x`.
pub fn parse_hex_bytes(s: &str, n: usize) -> (r: Option<Vec<u8>>)
    ensures
        r is Some <==> hex_bytes_of(s@, n as nat) is Some,
        r is Some ==> r->0@ == hex_bytes_of(s@, n as nat)->0,
{
    let len = s.unicode_len();
    let start: usize = if len >= 2 && s.get_char(0) == '0' && s.get_char(1) == 'x' {
        2
    } else {
        0
    };
    let ghost b = hex_body(s@);
    proof {
        assert(b =~= s@.skip(start as int));
    }
    if n > usize::MAX / 2 || len - start != 2 * n {
        return None;
    }
    let mut out: Vec<u8> = Vec::new();
    let mut i: usize = 0;
    while i < n
        invariant
            i <= n,
            start + 2 * n == len,
            len == s@.len(),
            b == s@.skip(start as int),
            out@.len() == i,
            forall|j: int| 0 <= j < 2 * i ==> #[trigger] digit_value(b[j]) < 16,
            forall|j: int|
                0 <= j < i ==> #[trigger] out@[j] == (digit_value(b[2 * j]) * 16 + digit_value(
                    b[2 * j + 1],
                )) as u8,
        decreases n - i,
    {
        let hi = hex_digit(s.get_char(start + 2 * i));
        let lo = hex_digit(s.get_char(start + 2 * i + 1));
        assert(b[2 * i] == s@[start + 2 * i]);
        assert(b[2 * i + 1] == s@[start + 2 * i + 1]);
        match (hi, lo) {
            (Some(h), Some(l)) => {
                out.push(h * 16 + l);
            },
            _ => {
                return None;
            },
        }
        i = i + 1;
    }
    proof {
        assert(all_digits(b, 16));
        assert(out@ =~= hex_bytes_of(s@, n as nat)->0);
    }
    Some(out)
}

/// Compares two byte strings.
pub fn bytes_eq(a: &Vec<u8>, b: &Vec<u8>) -> (r: bool)
    ensures
        r == (a@ == b@),
{
    if a.len() != b.len() {
        return false;
    }
    let mut i: usize = 0;
    while i < a.len()
        invariant
            a@.len() == b@.len(),
            i <= a@.len(),
            forall|j: int| 0 <= j < i ==> a@[j] == b@[j],
        decreases a@.len() - i,
    {
        if a[i] != b[i] {
            return false;
        }
        i = i + 1;
    }
    proof {
        assert(a@ =~= b@);
    }
    true
}

/// Events of a list of contracts, in order.
pub open spec fn contract_events(cs: Seq<ContractConfig>) -> Seq<EventConfig>
    decreases cs.len(),
{
    if cs.len() == 0 {
        Seq::empty()
    } else {
        contract_events(cs.drop_last()) + cs.last().events@
    }
}

/// Events of every contract of every chain, in order.
pub open spec fn chain_events(chains: Seq<(String, ChainConfig)>) -> Seq<EventConfig>
    decreases chains.len(),
{
    if chains.len() == 0 {
        Seq::empty()
    } else {
        chain_events(chains.drop_last()) + contract_events(chains.last().1.contracts@)
    }
}

/// One row of the event table.
#[derive(Debug, Clone)]
pub struct EventEntry {
    pub signature: Vec<u8>,
    pub name: String,
    pub params: Vec<String>,
}

/// Rows `entries` are the events `evs`, one for one, with decoded hashes.
pub open spec fn entries_match(entries: Seq<EventEntry>, evs: Seq<EventConfig>) -> bool {
    &&& entries.len() == evs.len()
    &&& forall|i: int|
        0 <= i < evs.len() ==> topic_of(#[trigger] evs[i].signature@) == Some(entries[i].signature@)
            && entries[i].name@ == evs[i].name@
}

/// Every event's hash is readable.
pub open spec fn all_topics_ok(evs: Seq<EventConfig>) -> bool {
    forall|i: int| 0 <= i < evs.len() ==> (topic_of(#[trigger] evs[i].signature@) is Some)
}

/// Table from topic hash to event name; a later row wins over an earlier
/// one with the same hash.
#[derive(Debug, Clone)]
pub struct EventRegistry {
    pub entries: Vec<EventEntry>,
}

/// Name of the last row whose hash is `topic`.
pub open spec fn registry_lookup(entries: Seq<EventEntry>, topic: Seq<u8>) -> Option<Seq<char>>
    decreases entries.len(),
{
    if entries.len() == 0 {
        None
    } else if entries.last().signature@ == topic {
        Some(entries.last().name@)
    } else {
        registry_lookup(entries.drop_last(), topic)
    }
}

/// A configured value that cannot be read.
#[derive(Debug, Clone)]
pub enum ConfigError {
    /// An event hash that is not 32 bytes of hex.
    InvalidSignature { text: String },
    /// A contract address that is not 20 bytes of hex.
    InvalidAddress { text: String },
}

proof fn lemma_all_topics_ok_append(a: Seq<EventConfig>, b: Seq<EventConfig>)
    ensures
        all_topics_ok(a + b) <==> all_topics_ok(a) && all_topics_ok(b),
{
    if all_topics_ok(a + b) {
        assert forall|i: int| 0 <= i < b.len() implies (topic_of(#[trigger] b[i].signature@) is Some) by {
            assert((a + b)[a.len() + i] == b[i]);
        }
        assert forall|i: int| 0 <= i < a.len() implies (topic_of(#[trigger] a[i].signature@) is Some) by {
            assert((a + b)[i] == a[i]);
        }
    }
    if all_topics_ok(a) && all_topics_ok(b) {
        assert forall|i: int| 0 <= i < (a + b).len() implies (topic_of(
            #[trigger] (a + b)[i].signature@,
        ) is Some) by {
            if i < a.len() {
                assert((a + b)[i] == a[i]);
            } else {
                assert((a + b)[i] == b[i - a.len()]);
            }
        }
    }
}

/// Appends the rows of `evs` to `entries`.
fn add_events(entries: &mut Vec<EventEntry>, evs: &Vec<EventConfig>) -> (r: Result<(), ConfigError>)
    ensures
        r is Ok <==> all_topics_ok(evs@),
        r is Ok ==> final(entries)@.len() >= old(entries)@.len()
            && final(entries)@.take(old(entries)@.len() as int) == old(entries)@
            && entries_match(final(entries)@.skip(old(entries)@.len() as int), evs@),
{
    let ghost base = entries@;
    let mut i: usize = 0;
    proof {
        assert(entries@ =~= base + Seq::<EventEntry>::empty());
    }
    while i < evs.len()
        invariant
            i <= evs@.len(),
            entries@.len() == base.len() + i,
            entries@.take(base.len() as int) == base,
            entries_match(entries@.skip(base.len() as int), evs@.take(i as int)),
            all_topics_ok(evs@.take(i as int)),
        decreases evs@.len() - i,
    {
        let ev = &evs[i];
        match parse_hex_bytes(ev.signature.as_str(), 32) {
            None => {
                assert(topic_of(evs@[i as int].signature@) is None);
                return Err(ConfigError::InvalidSignature { text: ev.signature.clone() });
            },
            Some(sig) => {
                let ghost old_entries = entries@;
                entries.push(EventEntry { signature: sig, name: ev.name.clone(), params: ev.params.clone() });
                proof {
                    let done = entries@.skip(base.len() as int);
                    let evs_i = evs@.take(i + 1);
                    assert(done =~= old_entries.skip(base.len() as int).push(entries@.last()));
                    assert(evs_i =~= evs@.take(i as int).push(evs@[i as int]));
                    assert(entries@.take(base.len() as int) =~= base);
                    assert forall|j: int| 0 <= j < evs_i.len() implies topic_of(#[trigger] evs_i[j].signature@) == Some(done[j].signature@)
                        && done[j].name@ == evs_i[j].name@ by {
                        if j < i {
                            assert(evs_i[j] == evs@.take(i as int)[j]);
                            assert(done[j] == old_entries.skip(base.len() as int)[j]);
                        }
                    }
                    assert forall|j: int| 0 <= j < evs_i.len() implies (topic_of(#[trigger] evs_i[j].signature@) is Some) by {
                        if j < i {
                            assert(evs_i[j] == evs@.take(i as int)[j]);
                        }
                    }
                }
            },
        }
        i = i + 1;
    }
    proof {
        assert(evs@.take(i as int) =~= evs@);
    }
    Ok(())
}

proof fn lemma_entries_match_append(
    ea: Seq<EventEntry>,
    a: Seq<EventConfig>,
    eb: Seq<EventEntry>,
    b: Seq<EventConfig>,
)
    requires
        entries_match(ea, a),
        entries_match(eb, b),
    ensures
        entries_match(ea + eb, a + b),
{
    assert forall|i: int| 0 <= i < (a + b).len() implies topic_of(#[trigger] (a + b)[i].signature@)
        == Some((ea + eb)[i].signature@) && (ea + eb)[i].name@ == (a + b)[i].name@ by {
        if i < a.len() {
            assert((a + b)[i] == a[i]);
            assert((ea + eb)[i] == ea[i]);
        } else {
            assert((a + b)[i] == b[i - a.len()]);
            assert((ea + eb)[i] == eb[i - a.len()]);
        }
    }
}

/// Appends the rows of every event of `contracts`.
fn add_contracts(entries: &mut Vec<EventEntry>, contracts: &Vec<ContractConfig>) -> (r: Result<
    (),
    ConfigError,
>)
    ensures
        r is Ok <==> all_topics_ok(contract_events(contracts@)),
        r is Ok ==> final(entries)@.len() >= old(entries)@.len()
            && final(entries)@.take(old(entries)@.len() as int) == old(entries)@
            && entries_match(final(entries)@.skip(old(entries)@.len() as int), contract_events(contracts@)),
{
    let ghost base = entries@;
    let mut k: usize = 0;
    proof {
        assert(contracts@.take(0) =~= Seq::<ContractConfig>::empty());
        assert(entries@.skip(base.len() as int) =~= Seq::<EventEntry>::empty());
        assert(entries@.take(base.len() as int) =~= base);
    }
    while k < contracts.len()
        invariant
            k <= contracts@.len(),
            base.len() <= entries@.len(),
            entries@.take(base.len() as int) == base,
            entries_match(entries@.skip(base.len() as int), contract_events(contracts@.take(k as int))),
            all_topics_ok(contract_events(contracts@.take(k as int))),
        decreases contracts@.len() - k,
    {
        let ghost before = entries@;
        let res = add_events(entries, &contracts[k].events);
        let ghost evs = contracts@[k as int].events@;
        proof {
            assert(contracts@.take(k + 1).drop_last() =~= contracts@.take(k as int));
            assert(contracts@.take(k + 1).last() == contracts@[k as int]);
            lemma_all_topics_ok_append(contract_events(contracts@.take(k as int)), evs);
        }
        match res {
            Err(e) => {
                proof {
                    lemma_prefix_topics(contracts@, k as int + 1);
                }
                return Err(e);
            },
            Ok(()) => {
                proof {
                    let prev = before.skip(base.len() as int);
                    let added = entries@.skip(before.len() as int);
                    lemma_entries_match_append(prev, contract_events(contracts@.take(k as int)), added, evs);
                    assert(entries@.take(before.len() as int) == before);
                    assert(entries@.skip(base.len() as int) =~= prev + added);
                    assert(entries@.take(base.len() as int) =~= before.take(base.len() as int));
                }
            },
        }
        k = k + 1;
    }
    proof {
        assert(contracts@.take(k as int) =~= contracts@);
    }
    Ok(())
}

/// A failing prefix makes the whole list fail.
proof fn lemma_prefix_topics(cs: Seq<ContractConfig>, k: int)
    requires
        0 <= k <= cs.len(),
        !all_topics_ok(contract_events(cs.take(k))),
    ensures
        !all_topics_ok(contract_events(cs)),
    decreases cs.len() - k,
{
    if k < cs.len() {
        assert(cs.take(k + 1).drop_last() =~= cs.take(k));
        lemma_all_topics_ok_append(contract_events(cs.take(k)), cs.take(k + 1).last().events@);
        lemma_prefix_topics(cs, k + 1);
    } else {
        assert(cs.take(k) =~= cs);
    }
}

/// A failing prefix makes the whole list fail.
proof fn lemma_prefix_chain_topics(cs: Seq<(String, ChainConfig)>, k: int)
    requires
        0 <= k <= cs.len(),
        !all_topics_ok(chain_events(cs.take(k))),
    ensures
        !all_topics_ok(chain_events(cs)),
    decreases cs.len() - k,
{
    if k < cs.len() {
        assert(cs.take(k + 1).drop_last() =~= cs.take(k));
        lemma_all_topics_ok_append(
            chain_events(cs.take(k)),
            contract_events(cs.take(k + 1).last().1.contracts@),
        );
        lemma_prefix_chain_topics(cs, k + 1);
    } else {
        assert(cs.take(k) =~= cs);
    }
}

impl EventRegistry {
    /// Builds the table from every event of every contract of every chain.
    /// Fails on the first event hash that is not 32 bytes of hex.
    pub fn from_config(config: &Config) -> (r: Result<EventRegistry, ConfigError>)
        ensures
            r is Ok <==> all_topics_ok(chain_events(config.chains@)),
            r matches Ok(reg) ==> entries_match(reg.entries@, chain_events(config.chains@)),
    {
        let chains = &config.chains;
        let mut entries: Vec<EventEntry> = Vec::new();
        let mut k: usize = 0;
        proof {
            assert(chains@.take(0) =~= Seq::<(String, ChainConfig)>::empty());
        }
        while k < chains.len()
            invariant
                chains@ == config.chains@,
                k <= chains@.len(),
                entries_match(entries@, chain_events(chains@.take(k as int))),
                all_topics_ok(chain_events(chains@.take(k as int))),
            decreases chains@.len() - k,
        {
            let ghost before = entries@;
            let res = add_contracts(&mut entries, &chains[k].1.contracts);
            let ghost evs = contract_events(chains@[k as int].1.contracts@);
            proof {
                assert(chains@.take(k + 1).drop_last() =~= chains@.take(k as int));
                assert(chains@.take(k + 1).last() == chains@[k as int]);
                lemma_all_topics_ok_append(chain_events(chains@.take(k as int)), evs);
            }
            match res {
                Err(e) => {
                    proof {
                        assert(chain_events(chains@.take(k + 1)) == chain_events(chains@.take(k as int)) + evs);
                        lemma_prefix_chain_topics(chains@, k + 1);
                    }
                    return Err(e);
                },
                Ok(()) => {
                    proof {
                        let added = entries@.skip(before.len() as int);
                        lemma_entries_match_append(before, chain_events(chains@.take(k as int)), added, evs);
                        assert(entries@.take(before.len() as int) == before);
                        assert(entries@ =~= before + added);
                    }
                },
            }
            k = k + 1;
        }
        proof {
            assert(chains@.take(k as int) =~= chains@);
        }
        Ok(EventRegistry { entries })
    }

    /// Name of the event whose hash is `topic0`.
    pub fn lookup(&self, topic0: &Vec<u8>) -> (r: Option<String>)
        ensures
            r matches Some(n) ==> registry_lookup(self.entries@, topic0@) == Some(n@),
            r is None ==> registry_lookup(self.entries@, topic0@) is None,
    {
        let mut i = self.entries.len();
        proof {
            assert(self.entries@.take(i as int) =~= self.entries@);
        }
        while i > 0
            invariant
                i <= self.entries@.len(),
                registry_lookup(self.entries@, topic0@) == registry_lookup(self.entries@.take(i as int), topic0@),
            decreases i,
        {
            let e = &self.entries[i - 1];
            proof {
                assert(self.entries@.take(i as int).drop_last() =~= self.entries@.take(i - 1));
            }
            if bytes_eq(&e.signature, topic0) {
                return Some(e.name.clone());
            }
            i = i - 1;
        }
        None
    }
}

/// Chain `chain` lists a contract whose address reads as `addr`.
pub open spec fn chain_allows(chain: ChainConfig, chain_id: u32, addr: Seq<u8>) -> bool {
    &&& chain.chain_id == chain_id
    &&& exists|j: int|
        0 <= j < chain.contracts@.len() && address_of(#[trigger] chain.contracts@[j].address@) == Some(
            addr,
        )
}

/// Some configured chain allows `addr` on `chain_id`.
pub open spec fn config_allows(chains: Seq<(String, ChainConfig)>, chain_id: u32, addr: Seq<u8>) -> bool {
    exists|i: int| 0 <= i < chains.len() && chain_allows(#[trigger] chains[i].1, chain_id, addr)
}

/// Paymaster contracts allowed on each chain, as (chain id, address) pairs.
#[derive(Debug, Clone)]
pub struct AllowList {
    pub entries: Vec<(u32, Vec<u8>)>,
}

/// Some pair of `entries` is (`chain_id`, `addr`).
pub open spec fn allow_contains(entries: Seq<(u32, Vec<u8>)>, chain_id: u32, addr: Seq<u8>) -> bool {
    exists|i: int| 0 <= i < entries.len() && (#[trigger] entries[i]).0 == chain_id && entries[i].1@ == addr
}

proof fn lemma_allow_push(entries: Seq<(u32, Vec<u8>)>, e: (u32, Vec<u8>), chain_id: u32, addr: Seq<u8>)
    ensures
        allow_contains(entries.push(e), chain_id, addr) <==> (allow_contains(entries, chain_id, addr) || (e.0
            == chain_id && e.1@ == addr)),
{
    let p = entries.push(e);
    if allow_contains(p, chain_id, addr) {
        let i = choose|i: int| 0 <= i < p.len() && (#[trigger] p[i]).0 == chain_id && p[i].1@ == addr;
        if i < entries.len() {
            assert(entries[i] == p[i]);
        }
    }
    if allow_contains(entries, chain_id, addr) {
        let i = choose|i: int| 0 <= i < entries.len() && (#[trigger] entries[i]).0 == chain_id && entries[i].1@ == addr;
        assert(p[i] == entries[i]);
    }
    if e.0 == chain_id && e.1@ == addr {
        assert(p[entries.len() as int] == e);
    }
}

/// Adds the readable addresses of `chain`'s contracts; unreadable ones are skipped.
fn add_chain_addresses(entries: &mut Vec<(u32, Vec<u8>)>, chain: &ChainConfig)
    ensures
        forall|c: u32, a: Seq<u8>|
            #[trigger] allow_contains(final(entries)@, c, a) <==> (allow_contains(old(entries)@, c, a)
                || chain_allows(*chain, c, a)),
{
    let contracts = &chain.contracts;
    let mut j: usize = 0;
    while j < contracts.len()
        invariant
            contracts@ == chain.contracts@,
            j <= contracts@.len(),
            forall|c: u32, a: Seq<u8>|
                #[trigger] allow_contains(entries@, c, a) <==> (allow_contains(old(entries)@, c, a) || (c
                    == chain.chain_id && exists|jj: int|
                    0 <= jj < j && address_of(#[trigger] contracts@[jj].address@) == Some(a))),
        decreases contracts@.len() - j,
    {
        let ghost before = entries@;
        match parse_hex_bytes(contracts[j].address.as_str(), 20) {
            Some(addr) => {
                let ghost av = addr@;
                entries.push((chain.chain_id, addr));
                proof {
                    assert forall|c: u32, a: Seq<u8>| #[trigger] allow_contains(entries@, c, a) <==> (
                    allow_contains(old(entries)@, c, a) || (c == chain.chain_id && exists|jj: int|
                        0 <= jj < j + 1 && address_of(#[trigger] contracts@[jj].address@) == Some(a))) by {
                        lemma_allow_push(before, (chain.chain_id, addr), c, a);
                        if c == chain.chain_id && a == av {
                            assert(address_of(contracts@[j as int].address@) == Some(a));
                        }
                        if c == chain.chain_id && exists|jj: int|
                            0 <= jj < j + 1 && address_of(#[trigger] contracts@[jj].address@) == Some(a) {
                            let jj = choose|jj: int|
                                0 <= jj < j + 1 && address_of(#[trigger] contracts@[jj].address@) == Some(a);
                            if jj == j {
                                assert(a == av);
                            }
                        }
                    }
                }
            },
            None => {
                proof {
                    assert forall|c: u32, a: Seq<u8>| #[trigger] allow_contains(entries@, c, a) <==> (
                    allow_contains(old(entries)@, c, a) || (c == chain.chain_id && exists|jj: int|
                        0 <= jj < j + 1 && address_of(#[trigger] contracts@[jj].address@) == Some(a))) by {
                        if c == chain.chain_id && exists|jj: int|
                            0 <= jj < j + 1 && address_of(#[trigger] contracts@[jj].address@) == Some(a) {
                            let jj = choose|jj: int|
                                0 <= jj < j + 1 && address_of(#[trigger] contracts@[jj].address@) == Some(a);
                            assert(jj != j);
                        }
                    }
                }
            },
        }
        j = j + 1;
    }
}

impl AllowList {
    /// The allowlist of the configuration: every readable contract address,
    /// under its chain's id.
    pub fn from_config(config: &Config) -> (r: AllowList)
        ensures
            forall|c: u32, a: Seq<u8>|
                #[trigger] allow_contains(r.entries@, c, a) <==> config_allows(config.chains@, c, a),
    {
        let chains = &config.chains;
        let mut entries: Vec<(u32, Vec<u8>)> = Vec::new();
        let mut k: usize = 0;
        while k < chains.len()
            invariant
                chains@ == config.chains@,
                k <= chains@.len(),
                forall|c: u32, a: Seq<u8>|
                    #[trigger] allow_contains(entries@, c, a) <==> config_allows(chains@.take(k as int), c, a),
            decreases chains@.len() - k,
        {
            let ghost before = entries@;
            add_chain_addresses(&mut entries, &chains[k].1);
            proof {
                let t = chains@.take(k + 1);
                assert forall|c: u32, a: Seq<u8>| #[trigger] allow_contains(entries@, c, a) <==> config_allows(t, c, a) by {
                    if config_allows(t, c, a) {
                        let i = choose|i: int| 0 <= i < t.len() && chain_allows(#[trigger] t[i].1, c, a);
                        if i < k {
                            assert(chains@.take(k as int)[i] == t[i]);
                        }
                    }
                    if config_allows(chains@.take(k as int), c, a) {
                        let i = choose|i: int| 0 <= i < k && chain_allows(#[trigger] chains@.take(k as int)[i].1, c, a);
                        assert(chains@.take(k as int)[i] == t[i]);
                    }
                    if chain_allows(chains@[k as int].1, c, a) {
                        assert(t[k as int] == chains@[k as int]);
                    }
                }
            }
            k = k + 1;
        }
        proof {
            assert(chains@.take(k as int) =~= chains@);
        }
        AllowList { entries }
    }

    /// The paymaster `addr` is allowed on `chain_id`.
    pub fn is_allowed(&self, chain_id: u32, addr: &Vec<u8>) -> (r: bool)
        ensures
            r == allow_contains(self.entries@, chain_id, addr@),
    {
        let mut i: usize = 0;
        while i < self.entries.len()
            invariant
                i <= self.entries@.len(),
                forall|j: int| 0 <= j < i ==> !((#[trigger] self.entries@[j]).0 == chain_id && self.entries@[j].1@ == addr@),
            decreases self.entries@.len() - i,
        {
            let e = &self.entries[i];
            if e.0 == chain_id && bytes_eq(&e.1, addr) {
                return true;
            }
            i = i + 1;
        }
        false
    }
}

/// The log query of one polling pass.
#[derive(Debug, Clone)]
pub struct LogFilter {
    pub addresses: Vec<Vec<u8>>,
    pub topics: Vec<EventEntry>,
    pub window: BlockWindow,
}

/// Every contract address is readable.
pub open spec fn all_addresses_ok(cs: Seq<ContractConfig>) -> bool {
    forall|i: int| 0 <= i < cs.len() ==> (address_of(#[trigger] cs[i].address@) is Some)
}

/// Builds the log query of a chain over `window`: every contract address
/// and every event hash of the chain. Fails on an unreadable address or
/// hash.
pub fn build_log_filter(chain: &ChainConfig, window: BlockWindow) -> (r: Result<LogFilter, ConfigError>)
    ensures
        r is Ok <==> all_addresses_ok(chain.contracts@) && all_topics_ok(contract_events(chain.contracts@)),
        r matches Ok(f) ==> {
            &&& f.window == window
            &&& f.addresses@.len() == chain.contracts@.len()
            &&& forall|i: int|
                0 <= i < f.addresses@.len() ==> address_of(#[trigger] chain.contracts@[i].address@) == Some(
                    f.addresses@[i]@,
                )
            &&& entries_match(f.topics@, contract_events(chain.contracts@))
        },
{
    let contracts = &chain.contracts;
    let mut addresses: Vec<Vec<u8>> = Vec::new();
    let mut i: usize = 0;
    while i < contracts.len()
        invariant
            contracts@ == chain.contracts@,
            i <= contracts@.len(),
            addresses@.len() == i,
            forall|j: int|
                0 <= j < i ==> address_of(#[trigger] contracts@[j].address@) == Some(addresses@[j]@),
        decreases contracts@.len() - i,
    {
        match parse_hex_bytes(contracts[i].address.as_str(), 20) {
            Some(a) => {
                addresses.push(a);
            },
            None => {
                assert(!all_addresses_ok(chain.contracts@));
                return Err(ConfigError::InvalidAddress { text: contracts[i].address.clone() });
            },
        }
        i = i + 1;
    }
    let mut topics: Vec<EventEntry> = Vec::new();
    let res = add_contracts(&mut topics, contracts);
    proof {
        assert(topics@.skip(0) =~= topics@);
    }
    match res {
        Err(e) => Err(e),
        Ok(()) => Ok(LogFilter { addresses, topics, window }),
    }
}

} // verus!

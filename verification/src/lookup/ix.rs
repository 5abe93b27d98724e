//! Internet Exchange detection by peering-LAN prefixes from PeeringDB.

use crate::addr::{IpAddr, Ipv4Addr, Ipv6Addr};
use crate::lookup::cache::{cached, distinct_ips, fresh, store, with_entry, CacheEntry};
use crate::lookup::display::{sanitize_display, sanitize_opt, sanitized, sanitized_opt};
use crate::lookup::trie::{
    addr_bits, addr_bits_spec, addr_len_spec, leading_bits, PrefixTrie,
};
use crate::text::{copy_of, copy_opt, opt_text};
use ipnetwork::IpNetwork;
use std::collections::HashMap;
use vstd::prelude::*;

verus! {

/// Maximum concurrent lookups.
pub const MAX_CONCURRENT_LOOKUPS: usize = 10;

/// Backoff period after a load failure, in seconds.
pub const LOAD_FAILURE_BACKOFF_SECS: u64 = 300;

/// How long the result for an address is used, in nanoseconds.
pub const IP_CACHE_TTL_NANOS: u64 = 3_600_000_000_000;

/// Version of the cache format.
pub const CACHE_VERSION: u32 = 1;

/// Age at which cached data expires, in seconds.
pub const MAX_AGE_SECS: u64 = 86_400;

/// How many prefixes a table can hold.
pub const MAX_PREFIXES: usize = 33_000_000;

/// An Internet Exchange.
#[derive(Debug, Clone)]
pub struct IxInfo {
    pub name: String,
    pub city: Option<String>,
    pub country: Option<String>,
}

/// The texts of an [`IxInfo`].
pub struct IxText {
    pub name: Seq<char>,
    pub city: Option<Seq<char>>,
    pub country: Option<Seq<char>>,
}

impl View for IxInfo {
    type V = IxText;

    open spec fn view(&self) -> IxText {
        IxText { name: self.name@, city: opt_text(self.city), country: opt_text(self.country) }
    }
}

impl IxInfo {
    /// A copy.
    pub fn copy(&self) -> (r: IxInfo)
        ensures
            r@ == self@,
    {
        IxInfo {
            name: copy_of(self.name.as_str()),
            city: copy_opt(&self.city),
            country: copy_opt(&self.country),
        }
    }
}

/// An optional exchange by its texts.
pub open spec fn opt_ix(ix: Option<IxInfo>) -> Option<IxText> {
    match ix {
        Some(i) => Some(i@),
        None => None,
    }
}

/// A copy of an optional exchange.
pub fn copy_opt_ix(ix: &Option<IxInfo>) -> (r: Option<IxInfo>)
    ensures
        opt_ix(r) == opt_ix(*ix),
{
    match ix {
        Some(i) => Some(i.copy()),
        None => None,
    }
}

/// A network: an address of it and how many leading bits count.
#[derive(Clone, Copy, Debug, PartialEq, Eq, Structural)]
pub struct Network {
    pub addr: IpAddr,
    pub prefix: u8,
}

impl Network {
    /// Whether the prefix fits the address.
    pub open spec fn wf(self) -> bool {
        self.prefix <= addr_len_spec(self.addr)
    }

    /// The bits that count.
    pub open spec fn bits(self) -> Seq<bool> {
        leading_bits(addr_bits_spec(self.addr), self.prefix as nat)
    }

    /// Whether an address lies in the network.
    pub open spec fn has(self, ip: IpAddr) -> bool {
        &&& (self.addr is V6) == (ip is V6)
        &&& leading_bits(addr_bits_spec(ip), self.prefix as nat) == self.bits()
    }
}

/// What `IpNetwork::from_str` makes of a text, by its network address and
/// prefix length.
pub uninterp spec fn parsed_network(text: Seq<char>) -> Option<Network>;

/// `IpNetwork::from_str`, read by `network` and `prefix`: the network that a
/// text denotes, if it denotes one; a prefix is never longer than the
/// addresses of its family.
#[verifier::external_body]
fn parse_network(text: &str) -> (r: Option<Network>)
    ensures
        r == parsed_network(text@),
        r is Some ==> r->0.wf(),
{
    match text.parse::<IpNetwork>() {
        Ok(IpNetwork::V4(n)) => Some(
            Network {
                addr: IpAddr::V4(Ipv4Addr { bits: u32::from(n.network()) }),
                prefix: n.prefix(),
            },
        ),
        Ok(IpNetwork::V6(n)) => Some(
            Network {
                addr: IpAddr::V6(Ipv6Addr { bits: u128::from(n.network()) }),
                prefix: n.prefix(),
            },
        ),
        Err(_) => None,
    }
}

/// The place of the first network of a family with exactly these bits.
pub open spec fn first_with_bits(networks: Seq<Network>, v6: bool, bits: Seq<bool>) -> Option<u32>
    decreases networks.len(),
{
    if networks.len() == 0 {
        None
    } else {
        match first_with_bits(networks.drop_last(), v6, bits) {
            Some(i) => Some(i),
            None => if (networks.last().addr is V6) == v6 && networks.last().bits() == bits {
                Some((networks.len() - 1) as u32)
            } else {
                None
            },
        }
    }
}

/// The place of the network that an address is matched to: the first one of
/// those with the longest prefix of at most `len` bits.
pub open spec fn best_network(networks: Seq<Network>, ip: IpAddr, len: nat) -> Option<u32>
    decreases len,
{
    let here = first_with_bits(networks, ip is V6, leading_bits(addr_bits_spec(ip), len));
    if here is Some || len == 0 {
        here
    } else {
        best_network(networks, ip, (len - 1) as nat)
    }
}

/// In-memory prefix table: one trie per family, and the exchanges that they
/// refer to.
pub struct PrefixTable {
    v4: PrefixTrie,
    v6: PrefixTrie,
    infos: Vec<IxInfo>,
    networks: Ghost<Seq<Network>>,
}

impl PrefixTable {
    /// The inserted networks, in order.
    pub closed spec fn networks(self) -> Seq<Network> {
        self.networks@
    }

    /// The exchanges of the inserted networks, in order.
    pub closed spec fn infos(self) -> Seq<IxInfo> {
        self.infos@
    }

    /// Whether the tries hold exactly the inserted networks.
    pub closed spec fn wf(self) -> bool {
        &&& self.v4.wf()
        &&& self.v6.wf()
        &&& self.networks@.len() == self.infos@.len()
        &&& self.infos@.len() <= MAX_PREFIXES
        &&& self.v4.node_count() <= 1 + 128 * self.infos@.len()
        &&& self.v6.node_count() <= 1 + 128 * self.infos@.len()
        &&& forall|p: Seq<bool>| #[trigger]
            self.v4.at(p) == first_with_bits(self.networks@, false, p)
        &&& forall|p: Seq<bool>| #[trigger]
            self.v6.at(p) == first_with_bits(self.networks@, true, p)
    }

    /// An empty table.
    pub fn new() -> (r: PrefixTable)
        ensures
            r.wf(),
            r.networks().len() == 0,
            r.infos().len() == 0,
    {
        PrefixTable {
            v4: PrefixTrie::new(),
            v6: PrefixTrie::new(),
            infos: Vec::new(),
            networks: Ghost(Seq::empty()),
        }
    }

    /// Inserts a network with its exchange.
    pub fn insert(&mut self, network: &Network, info: IxInfo)
        requires
            old(self).wf(),
            network.wf(),
            old(self).infos().len() < MAX_PREFIXES,
        ensures
            final(self).wf(),
            final(self).networks() == old(self).networks().push(*network),
            final(self).infos() == old(self).infos().push(info),
    {
        let info_idx: u32 = self.infos.len() as u32;
        self.infos.push(info);
        let (bits, _) = addr_bits(network.addr);
        let ghost before = self.networks@;
        proof {
            assert(before.push(*network).drop_last() =~= before);
        }
        match network.addr {
            IpAddr::V4(_) => self.v4.insert(bits, network.prefix, info_idx),
            IpAddr::V6(_) => self.v6.insert(bits, network.prefix, info_idx),
        }
        self.networks = Ghost(before.push(*network));
    }

    /// Longest-prefix match for an address.
    pub fn lookup(&self, ip: IpAddr) -> (r: Option<&IxInfo>)
        requires
            self.wf(),
        ensures
            match best_network(self.networks(), ip, addr_len_spec(ip) as nat) {
                Some(i) => i < self.infos().len() && r == Some(&self.infos()[i as int]),
                None => r is None,
            },
    {
        let (bits, addr_len) = addr_bits(ip);
        let found: Option<u32> = match ip {
            IpAddr::V4(_) => self.v4.lookup(bits, addr_len),
            IpAddr::V6(_) => self.v6.lookup(bits, addr_len),
        };
        proof {
            self.lemma_match(ip, addr_len as nat);
            lemma_best_in_range(self.networks@, ip, addr_len as nat);
        }
        match found {
            Some(i) => Some(&self.infos[i as usize]),
            None => None,
        }
    }

    /// The tries match as the list of networks does.
    proof fn lemma_match(self, ip: IpAddr, len: nat)
        requires
            self.wf(),
        ensures
            (if ip is V6 {
                self.v6.longest_match(addr_bits_spec(ip), len)
            } else {
                self.v4.longest_match(addr_bits_spec(ip), len)
            }) == best_network(self.networks@, ip, len),
        decreases len,
    {
        if len > 0 {
            self.lemma_match(ip, (len - 1) as nat);
        }
    }

    /// Number of inserted prefixes.
    pub fn len(&self) -> (r: usize)
        requires
            self.wf(),
        ensures
            r == self.networks().len(),
    {
        self.infos.len()
    }
}

/// A first network with given bits is a place in the list that has them, and
/// no earlier place does.
proof fn lemma_first_with_bits(networks: Seq<Network>, v6: bool, bits: Seq<bool>)
    requires
        networks.len() <= u32::MAX,
    ensures
        match first_with_bits(networks, v6, bits) {
            Some(i) => i < networks.len() && (networks[i as int].addr is V6) == v6
                && networks[i as int].bits() == bits && forall|j: int|
                0 <= j < i ==> !((#[trigger] networks[j]).addr is V6 == v6 && networks[j].bits()
                    == bits),
            None => forall|j: int|
                0 <= j < networks.len() ==> !((#[trigger] networks[j]).addr is V6 == v6
                    && networks[j].bits() == bits),
        },
    decreases networks.len(),
{
    if networks.len() > 0 {
        let init = networks.drop_last();
        lemma_first_with_bits(init, v6, bits);
        assert forall|j: int| 0 <= j < init.len() implies #[trigger] init[j] == networks[j] by {}
        match first_with_bits(init, v6, bits) {
            Some(i) => {
                assert(init[i as int] == networks[i as int]);
                assert forall|j: int| 0 <= j < i implies !((#[trigger] networks[j]).addr is V6 == v6
                    && networks[j].bits() == bits) by {
                    assert(init[j] == networks[j]);
                }
            },
            None => {
                assert forall|j: int| 0 <= j < init.len() implies !((
                #[trigger] networks[j]).addr is V6 == v6 && networks[j].bits() == bits) by {
                    assert(init[j] == networks[j]);
                }
            },
        }
    }
}

/// A match is a place in the list.
proof fn lemma_best_in_range(networks: Seq<Network>, ip: IpAddr, len: nat)
    requires
        networks.len() <= u32::MAX,
    ensures
        best_network(networks, ip, len) matches Some(i) ==> i < networks.len(),
    decreases len,
{
    lemma_first_with_bits(networks, ip is V6, leading_bits(addr_bits_spec(ip), len));
    if len > 0 {
        lemma_best_in_range(networks, ip, (len - 1) as nat);
    }
}

/// Bits of different lengths differ.
proof fn lemma_bits_by_length(ip: IpAddr, network: Network, len: nat)
    ensures
        network.bits() == leading_bits(addr_bits_spec(ip), len) ==> network.prefix == len,
{
    assert(network.bits().len() == network.prefix);
    assert(leading_bits(addr_bits_spec(ip), len).len() == len);
}

/// What a lookup of an address with at most `len` bits finds is the network
/// that holds the address, has the longest prefix of those that do, and was
/// inserted first of those with that prefix. It finds none only if no network
/// holds the address.
pub proof fn law_longest_prefix_match(networks: Seq<Network>, ip: IpAddr, len: nat)
    requires
        networks.len() <= u32::MAX,
    ensures
        match best_network(networks, ip, len) {
            Some(i) => i < networks.len() && networks[i as int].has(ip) && networks[i as int].prefix
                <= len && forall|j: int|
                0 <= j < networks.len() && (#[trigger] networks[j]).has(ip) && networks[j].prefix
                    <= len ==> networks[j].prefix < networks[i as int].prefix
                    || networks[j].prefix == networks[i as int].prefix && i <= j,
            None => forall|j: int|
                0 <= j < networks.len() && (#[trigger] networks[j]).prefix <= len
                    ==> !networks[j].has(ip),
        },
    decreases len,
{
    let bits = leading_bits(addr_bits_spec(ip), len);
    lemma_first_with_bits(networks, ip is V6, bits);
    if len > 0 {
        law_longest_prefix_match(networks, ip, (len - 1) as nat);
    }
    match first_with_bits(networks, ip is V6, bits) {
        Some(i) => {
            lemma_bits_by_length(ip, networks[i as int], len);
            assert forall|j: int|
                0 <= j < networks.len() && (#[trigger] networks[j]).has(ip) && networks[j].prefix
                    <= len implies networks[j].prefix < networks[i as int].prefix
                || networks[j].prefix == networks[i as int].prefix && i <= j by {}
        },
        None => {
            assert forall|j: int|
                0 <= j < networks.len() && (#[trigger] networks[j]).has(
                    ip,
                ) implies networks[j].prefix != len by {}
        },
    }
}

/// An IX record.
pub struct PdbIx {
    pub id: u32,
    pub name: String,
    pub city: Option<String>,
    pub country: Option<String>,
}

/// An IX LAN record.
#[derive(Clone, Copy)]
pub struct PdbIxlan {
    pub id: u32,
    pub ix_id: u32,
}

/// An IX prefix record.
pub struct PdbIxpfx {
    pub ixlan_id: u32,
    pub prefix: String,
}

/// A cached prefix and its exchange.
#[derive(Debug, Clone)]
pub struct PrefixCacheEntry {
    pub prefix: String,
    pub ix_name: String,
    pub ix_city: Option<String>,
    pub ix_country: Option<String>,
}

/// The texts of a [`PrefixCacheEntry`].
pub struct PrefixText {
    pub prefix: Seq<char>,
    pub ix: IxText,
}

impl View for PrefixCacheEntry {
    type V = PrefixText;

    open spec fn view(&self) -> PrefixText {
        PrefixText {
            prefix: self.prefix@,
            ix: IxText {
                name: self.ix_name@,
                city: opt_text(self.ix_city),
                country: opt_text(self.ix_country),
            },
        }
    }
}

/// An exchange without control characters in its texts.
pub open spec fn clean_ix(ix: IxText) -> IxText {
    IxText {
        name: sanitized(ix.name),
        city: sanitized_opt(ix.city),
        country: sanitized_opt(ix.country),
    }
}

/// Cached prefixes, as they are kept on disk.
pub struct IxCache {
    pub version: u32,
    /// Unix time of the fetch, in seconds.
    pub fetched_at: u64,
    pub prefixes: Vec<PrefixCacheEntry>,
}

impl IxCache {
    /// Whether the data is older than a day.
    pub fn is_expired(&self, now: u64) -> (r: bool)
        requires
            now >= self.fetched_at,
        ensures
            r == (now - self.fetched_at > MAX_AGE_SECS),
    {
        now - self.fetched_at > MAX_AGE_SECS
    }

    /// Whether the data is in the format that this version reads.
    pub fn is_readable(&self) -> (r: bool)
        ensures
            r == (self.version == CACHE_VERSION),
    {
        self.version == CACHE_VERSION
    }
}

/// The exchange that a LAN belongs to, by the last record of the LAN.
pub open spec fn ix_of_lan(lans: Seq<PdbIxlan>, id: u32) -> Option<u32>
    decreases lans.len(),
{
    if lans.len() == 0 {
        None
    } else if lans.last().id == id {
        Some(lans.last().ix_id)
    } else {
        ix_of_lan(lans.drop_last(), id)
    }
}

/// The place of the last record of an exchange.
pub open spec fn ix_place(ixs: Seq<PdbIx>, id: u32) -> Option<usize>
    decreases ixs.len(),
{
    if ixs.len() == 0 {
        None
    } else if ixs.last().id == id {
        Some((ixs.len() - 1) as usize)
    } else {
        ix_place(ixs.drop_last(), id)
    }
}

/// A found place is in the list.
proof fn lemma_ix_place(ixs: Seq<PdbIx>, id: u32)
    requires
        ixs.len() <= usize::MAX,
    ensures
        ix_place(ixs, id) matches Some(i) ==> i < ixs.len(),
    decreases ixs.len(),
{
    if ixs.len() > 0 {
        lemma_ix_place(ixs.drop_last(), id);
    }
}

/// What a prefix record gives: the prefix with the exchange of its LAN, if
/// both are known.
pub open spec fn joined_prefix(
    ixs: Seq<PdbIx>,
    lans: Seq<PdbIxlan>,
    record: PdbIxpfx,
) -> Option<PrefixText> {
    match ix_of_lan(lans, record.ixlan_id) {
        Some(ix_id) => match ix_place(ixs, ix_id) {
            Some(i) => {
                let ix = ixs[i as int];
                Some(
                    PrefixText {
                        prefix: record.prefix@,
                        ix: clean_ix(
                            IxText {
                                name: ix.name@,
                                city: opt_text(ix.city),
                                country: opt_text(ix.country),
                            },
                        ),
                    },
                )
            },
            None => None,
        },
        None => None,
    }
}

/// What prefix records give, in their order.
pub open spec fn joined_prefixes(
    ixs: Seq<PdbIx>,
    lans: Seq<PdbIxlan>,
    records: Seq<PdbIxpfx>,
) -> Seq<PrefixText>
    decreases records.len(),
{
    if records.len() == 0 {
        Seq::empty()
    } else {
        let before = joined_prefixes(ixs, lans, records.drop_last());
        match joined_prefix(ixs, lans, records.last()) {
            Some(p) => before.push(p),
            None => before,
        }
    }
}

/// Cache entries by their texts.
pub open spec fn prefix_texts(entries: Seq<PrefixCacheEntry>) -> Seq<PrefixText> {
    Seq::new(entries.len(), |i: int| entries[i]@)
}

/// The exchange of each LAN.
fn index_lans(lans: &Vec<PdbIxlan>) -> (r: HashMap<u32, u32>)
    ensures
        forall|id: u32| #[trigger]
            r@.contains_key(id) <==> ix_of_lan(lans@, id) is Some,
        forall|id: u32| #[trigger]
            r@.contains_key(id) ==> r@[id] == ix_of_lan(lans@, id)->0,
{
    broadcast use vstd::std_specs::hash::group_hash_axioms;

    let mut map: HashMap<u32, u32> = HashMap::new();
    let mut i: usize = 0;
    while i < lans.len()
        invariant
            i <= lans.len(),
            forall|id: u32| #[trigger]
                map@.contains_key(id) <==> ix_of_lan(lans@.take(i as int), id) is Some,
            forall|id: u32| #[trigger]
                map@.contains_key(id) ==> map@[id] == ix_of_lan(lans@.take(i as int), id)->0,
        decreases lans.len() - i,
    {
        assert(lans@.take(i + 1).drop_last() =~= lans@.take(i as int));
        map.insert(lans[i].id, lans[i].ix_id);
        i = i + 1;
    }
    assert(lans@.take(lans@.len() as int) =~= lans@);
    map
}

/// The place of each exchange.
fn index_ixs(ixs: &Vec<PdbIx>) -> (r: HashMap<u32, usize>)
    ensures
        forall|id: u32| #[trigger] r@.contains_key(id) <==> ix_place(ixs@, id) is Some,
        forall|id: u32| #[trigger] r@.contains_key(id) ==> r@[id] == ix_place(ixs@, id)->0,
{
    broadcast use vstd::std_specs::hash::group_hash_axioms;

    let mut map: HashMap<u32, usize> = HashMap::new();
    let mut i: usize = 0;
    while i < ixs.len()
        invariant
            i <= ixs.len(),
            forall|id: u32| #[trigger]
                map@.contains_key(id) <==> ix_place(ixs@.take(i as int), id) is Some,
            forall|id: u32| #[trigger]
                map@.contains_key(id) ==> map@[id] == ix_place(ixs@.take(i as int), id)->0,
        decreases ixs.len() - i,
    {
        assert(ixs@.take(i + 1).drop_last() =~= ixs@.take(i as int));
        map.insert(ixs[i].id, i);
        i = i + 1;
    }
    assert(ixs@.take(ixs@.len() as int) =~= ixs@);
    map
}

/// Joins the three kinds of records into a cache fetched at `now`.
pub fn build_cache(
    ixs: &Vec<PdbIx>,
    lans: &Vec<PdbIxlan>,
    records: &Vec<PdbIxpfx>,
    now: u64,
) -> (r: IxCache)
    ensures
        r.version == CACHE_VERSION,
        r.fetched_at == now,
        prefix_texts(r.prefixes@) == joined_prefixes(ixs@, lans@, records@),
{
    broadcast use vstd::std_specs::hash::group_hash_axioms;

    let ix_of: HashMap<u32, u32> = index_lans(lans);
    let place_of: HashMap<u32, usize> = index_ixs(ixs);
    let mut prefixes: Vec<PrefixCacheEntry> = Vec::new();
    let mut i: usize = 0;
    while i < records.len()
        invariant
            i <= records.len(),
            forall|id: u32| #[trigger]
                ix_of@.contains_key(id) <==> ix_of_lan(lans@, id) is Some,
            forall|id: u32| #[trigger]
                ix_of@.contains_key(id) ==> ix_of@[id] == ix_of_lan(lans@, id)->0,
            forall|id: u32| #[trigger]
                place_of@.contains_key(id) <==> ix_place(ixs@, id) is Some,
            forall|id: u32| #[trigger]
                place_of@.contains_key(id) ==> place_of@[id] == ix_place(ixs@, id)->0,
            prefix_texts(prefixes@) =~= joined_prefixes(ixs@, lans@, records@.take(i as int)),
        decreases records.len() - i,
    {
        let record: &PdbIxpfx = &records[i];
        proof {
            assert(records@.take(i + 1).drop_last() =~= records@.take(i as int));
        }
        if let Some(ix_id) = ix_of.get(&record.ixlan_id) {
            if let Some(place) = place_of.get(ix_id) {
                proof {
                    assert(ixs.len() <= usize::MAX);
                    lemma_ix_place(ixs@, *ix_id);
                }
                let ix: &PdbIx = &ixs[*place];
                let entry = PrefixCacheEntry {
                    prefix: copy_of(record.prefix.as_str()),
                    ix_name: sanitize_display(ix.name.as_str()),
                    ix_city: sanitize_opt(&ix.city),
                    ix_country: sanitize_opt(&ix.country),
                };
                proof {
                    assert(Some(entry@) == joined_prefix(ixs@, lans@, *record));
                }
                prefixes.push(entry);
            }
        }
        i = i + 1;
    }
    assert(records@.take(records@.len() as int) =~= records@);
    IxCache { version: CACHE_VERSION, fetched_at: now, prefixes }
}

/// The networks of the cache entries that denote one, in their order.
pub open spec fn cache_networks(entries: Seq<PrefixCacheEntry>) -> Seq<Network>
    decreases entries.len(),
{
    if entries.len() == 0 {
        Seq::empty()
    } else {
        let before = cache_networks(entries.drop_last());
        match parsed_network(entries.last().prefix@) {
            Some(n) => before.push(n),
            None => before,
        }
    }
}

/// The exchanges of the cache entries that denote a network, in their order.
pub open spec fn cache_exchanges(entries: Seq<PrefixCacheEntry>) -> Seq<IxText>
    decreases entries.len(),
{
    if entries.len() == 0 {
        Seq::empty()
    } else {
        let before = cache_exchanges(entries.drop_last());
        match parsed_network(entries.last().prefix@) {
            Some(_) => before.push(clean_ix(entries.last()@.ix)),
            None => before,
        }
    }
}

/// Exchanges by their texts.
pub open spec fn ix_texts(infos: Seq<IxInfo>) -> Seq<IxText> {
    Seq::new(infos.len(), |i: int| infos[i]@)
}

/// Fills a table from cache entries; entries whose prefix is no network are
/// passed over.
pub fn populate_from_cache(cache: &IxCache) -> (r: PrefixTable)
    requires
        cache.prefixes@.len() <= MAX_PREFIXES,
    ensures
        r.wf(),
        r.networks() == cache_networks(cache.prefixes@),
        ix_texts(r.infos()) == cache_exchanges(cache.prefixes@),
{
    let mut table: PrefixTable = PrefixTable::new();
    let mut i: usize = 0;
    while i < cache.prefixes.len()
        invariant
            i <= cache.prefixes@.len() <= MAX_PREFIXES,
            table.wf(),
            table.infos().len() <= i,
            table.networks() =~= cache_networks(cache.prefixes@.take(i as int)),
            ix_texts(table.infos()) =~= cache_exchanges(cache.prefixes@.take(i as int)),
        decreases cache.prefixes.len() - i,
    {
        let entry: &PrefixCacheEntry = &cache.prefixes[i];
        proof {
            assert(cache.prefixes@.take(i + 1).drop_last() =~= cache.prefixes@.take(i as int));
        }
        if let Some(network) = parse_network(entry.prefix.as_str()) {
            let info = IxInfo {
                name: sanitize_display(entry.ix_name.as_str()),
                city: sanitize_opt(&entry.ix_city),
                country: sanitize_opt(&entry.ix_country),
            };
            let ghost before = table.infos();
            table.insert(&network, info);
            assert(ix_texts(table.infos()) =~= ix_texts(before).push(info@));
        }
        i = i + 1;
    }
    assert(cache.prefixes@.take(cache.prefixes@.len() as int) =~= cache.prefixes@);
    table
}

/// Status of the cached data, for display in the settings.
#[derive(Debug, Clone, Copy, PartialEq, Eq, Structural)]
pub struct CacheStatus {
    /// Whether data has been loaded.
    pub loaded: bool,
    /// Number of prefixes.
    pub prefix_count: usize,
    /// Unix time of the fetch, in seconds.
    pub fetched_at: Option<u64>,
    /// Whether the data is past its age limit.
    pub expired: bool,
    /// Whether a refresh is going on.
    pub refreshing: bool,
}

/// What to do next for an address.
pub enum LookupStep {
    /// The answer is known.
    Answer(Option<IxInfo>),
    /// Data has to be loaded first.
    Load,
    /// The loaded data can be searched.
    Search,
}

/// State of the exchange lookup. A time of zero means never; cache times are
/// monotonic nanoseconds, all others Unix seconds.
pub struct IxState {
    pub prefixes: PrefixTable,
    pub loaded: bool,
    pub last_failure: u64,
    pub ip_cache: Vec<CacheEntry<Option<IxInfo>>>,
    pub cache_fetched_at: u64,
    pub refreshing: bool,
}

impl IxState {
    /// Whether the table and the per-address cache are consistent.
    pub open spec fn wf(self) -> bool {
        self.prefixes.wf() && distinct_ips(self.ip_cache@)
    }

    /// Nothing loaded, nothing known.
    pub fn new() -> (r: IxState)
        ensures
            r.wf(),
            !r.loaded,
            r.last_failure == 0,
            r.ip_cache@.len() == 0,
            r.cache_fetched_at == 0,
            !r.refreshing,
            r.prefixes.networks().len() == 0,
            r.prefixes.infos().len() == 0,
    {
        IxState {
            prefixes: PrefixTable::new(),
            loaded: false,
            last_failure: 0,
            ip_cache: Vec::new(),
            cache_fetched_at: 0,
            refreshing: false,
        }
    }

    /// Whether a failed load is too recent to try again.
    pub open spec fn in_backoff(self, now: u64) -> bool {
        self.last_failure > 0 && now - self.last_failure < LOAD_FAILURE_BACKOFF_SECS
    }

    /// Whether the per-address cache has a usable result for an address.
    pub open spec fn has_cached(self, ip: IpAddr, clock: u64) -> bool {
        exists|i: int|
            0 <= i < self.ip_cache@.len() && (#[trigger] self.ip_cache@[i]).ip == ip && fresh(
                self.ip_cache@[i],
                clock,
                IP_CACHE_TTL_NANOS,
            )
    }

    /// Decides what to do for an address: a fresh cached result is the
    /// answer; unloaded data is loaded unless a load has failed recently, in
    /// which case there is no answer.
    pub fn lookup_step(&self, ip: IpAddr, clock: u64, now: u64) -> (r: LookupStep)
        requires
            self.wf(),
            now >= self.last_failure,
        ensures
            self.has_cached(ip, clock) ==> (r matches LookupStep::Answer(answer) && exists|i: int|
                0 <= i < self.ip_cache@.len() && (#[trigger] self.ip_cache@[i]).ip == ip && fresh(
                    self.ip_cache@[i],
                    clock,
                    IP_CACHE_TTL_NANOS,
                ) && opt_ix(self.ip_cache@[i].value) == opt_ix(answer)),
            !self.has_cached(ip, clock) && self.loaded ==> r is Search,
            !self.has_cached(ip, clock) && !self.loaded && self.in_backoff(now) ==> r
                == LookupStep::Answer(None),
            !self.has_cached(ip, clock) && !self.loaded && !self.in_backoff(now) ==> r is Load,
    {
        match cached(&self.ip_cache, ip, clock, IP_CACHE_TTL_NANOS) {
            Some(value) => {
                return LookupStep::Answer(copy_opt_ix(value));
            },
            None => {},
        }
        if self.loaded {
            LookupStep::Search
        } else if self.last_failure > 0 && now - self.last_failure < LOAD_FAILURE_BACKOFF_SECS {
            LookupStep::Answer(None)
        } else {
            LookupStep::Load
        }
    }

    /// Searches the loaded data and remembers the result.
    pub fn search(&mut self, ip: IpAddr, clock: u64) -> (r: Option<IxInfo>)
        requires
            old(self).wf(),
        ensures
            final(self).wf(),
            final(self).prefixes == old(self).prefixes,
            final(self).loaded == old(self).loaded,
            final(self).last_failure == old(self).last_failure,
            final(self).cache_fetched_at == old(self).cache_fetched_at,
            final(self).refreshing == old(self).refreshing,
            exists|entry: CacheEntry<Option<IxInfo>>|
                entry.ip == ip && entry.cached_at == clock && opt_ix(entry.value) == opt_ix(r)
                    && final(self).ip_cache@ == #[trigger] with_entry(old(self).ip_cache@, entry),
            match best_network(old(self).prefixes.networks(), ip, addr_len_spec(ip) as nat) {
                Some(i) => opt_ix(r) == Some(old(self).prefixes.infos()[i as int]@),
                None => r is None,
            },
    {
        let found: Option<IxInfo> = match self.prefixes.lookup(ip) {
            Some(info) => Some(info.copy()),
            None => None,
        };
        let value: Option<IxInfo> = copy_opt_ix(&found);
        let entry = CacheEntry { ip, value, cached_at: clock };
        assert(opt_ix(entry.value) == opt_ix(found));
        store(&mut self.ip_cache, entry);
        found
    }

    /// Takes in loaded data.
    pub fn data_loaded(&mut self, cache: &IxCache)
        requires
            old(self).wf(),
            cache.prefixes@.len() <= MAX_PREFIXES,
        ensures
            final(self).wf(),
            final(self).loaded,
            final(self).cache_fetched_at == cache.fetched_at,
            final(self).prefixes.networks() == cache_networks(cache.prefixes@),
            ix_texts(final(self).prefixes.infos()) == cache_exchanges(cache.prefixes@),
            final(self).last_failure == old(self).last_failure,
            final(self).ip_cache == old(self).ip_cache,
            final(self).refreshing == old(self).refreshing,
    {
        self.prefixes = populate_from_cache(cache);
        self.cache_fetched_at = cache.fetched_at;
        self.loaded = true;
    }

    /// Notes that loading failed.
    pub fn load_failed(&mut self, now: u64)
        requires
            old(self).wf(),
        ensures
            *final(self) == (IxState { last_failure: now, ..*old(self) }),
    {
        self.last_failure = now;
    }

    /// Starts a refresh; false if one is going on already.
    pub fn begin_refresh(&mut self) -> (r: bool)
        requires
            old(self).wf(),
        ensures
            r == !old(self).refreshing,
            *final(self) == (IxState { refreshing: true, ..*old(self) }),
    {
        let idle: bool = !self.refreshing;
        self.refreshing = true;
        idle
    }

    /// Ends a refresh with fresh data: results for addresses are forgotten so
    /// that lookups use the new data. Whether the first load has happened
    /// stays as it was.
    pub fn refresh_done(&mut self, cache: &IxCache)
        requires
            old(self).wf(),
            cache.prefixes@.len() <= MAX_PREFIXES,
        ensures
            final(self).wf(),
            !final(self).refreshing,
            final(self).ip_cache@.len() == 0,
            final(self).loaded == old(self).loaded,
            final(self).last_failure == old(self).last_failure,
            final(self).cache_fetched_at == cache.fetched_at,
            final(self).prefixes.networks() == cache_networks(cache.prefixes@),
            ix_texts(final(self).prefixes.infos()) == cache_exchanges(cache.prefixes@),
    {
        self.prefixes = populate_from_cache(cache);
        self.cache_fetched_at = cache.fetched_at;
        self.ip_cache.clear();
        self.refreshing = false;
    }

    /// Ends a refresh that failed at `now`.
    pub fn refresh_failed(&mut self, now: u64)
        requires
            old(self).wf(),
        ensures
            *final(self) == (IxState { refreshing: false, last_failure: now, ..*old(self) }),
    {
        self.refreshing = false;
        self.last_failure = now;
    }

    /// Number of loaded prefixes.
    pub fn prefix_count(&self) -> (r: usize)
        requires
            self.wf(),
        ensures
            r == self.prefixes.networks().len(),
    {
        self.prefixes.len()
    }

    /// The status for display.
    pub fn get_cache_status(&self, now: u64) -> (r: CacheStatus)
        requires
            self.wf(),
            now >= self.cache_fetched_at,
        ensures
            r.loaded == self.loaded,
            r.prefix_count == self.prefixes.networks().len(),
            r.fetched_at == (if self.cache_fetched_at > 0 {
                Some(self.cache_fetched_at)
            } else {
                None
            }),
            r.expired == (self.cache_fetched_at > 0 && now - self.cache_fetched_at > MAX_AGE_SECS),
            r.refreshing == self.refreshing,
    {
        CacheStatus {
            loaded: self.loaded,
            prefix_count: self.prefixes.len(),
            fetched_at: if self.cache_fetched_at > 0 {
                Some(self.cache_fetched_at)
            } else {
                None
            },
            expired: self.cache_fetched_at > 0 && now - self.cache_fetched_at > MAX_AGE_SECS,
            refreshing: self.refreshing,
        }
    }
}

/// Where data is to be loaded from.
#[derive(Clone, Copy, Debug, PartialEq, Eq, Structural)]
pub enum LoadFrom {
    /// The cache on disk is there and young enough.
    Disk,
    /// It has to be fetched.
    Fetch,
}

/// Chooses where to load from; `disk` is the cache on disk if it could be
/// read.
pub fn choose_source(disk: &Option<IxCache>, now: u64) -> (r: LoadFrom)
    requires
        disk matches Some(cache) ==> (cache.version == CACHE_VERSION ==> now >= cache.fetched_at),
    ensures
        r == (if disk matches Some(cache) && cache.version == CACHE_VERSION && now
            - cache.fetched_at <= MAX_AGE_SECS {
            LoadFrom::Disk
        } else {
            LoadFrom::Fetch
        }),
{
    match disk {
        Some(cache) => if cache.is_readable() && !cache.is_expired(now) {
            LoadFrom::Disk
        } else {
            LoadFrom::Fetch
        },
        None => LoadFrom::Fetch,
    }
}

/// Chooses what to load after a fetch: the fetched data, else a stale cache
/// on disk, else nothing.
pub fn after_fetch(fetched: Option<IxCache>, disk: Option<IxCache>) -> (r: Option<IxCache>)
    ensures
        r == (match fetched {
            Some(cache) => Some(cache),
            None => match disk {
                Some(cache) => if cache.version == CACHE_VERSION {
                    Some(cache)
                } else {
                    None
                },
                None => None,
            },
        }),
{
    match fetched {
        Some(cache) => Some(cache),
        None => match disk {
            Some(cache) => if cache.is_readable() {
                Some(cache)
            } else {
                None
            },
            None => None,
        },
    }
}

/// The API key to use: one from the environment takes precedence over the
/// stored one.
pub fn effective_api_key(environment: Option<String>, stored: &Option<String>) -> (r: Option<String>)
    ensures
        opt_text(r) == (if environment is Some {
            opt_text(environment)
        } else {
            opt_text(*stored)
        }),
{
    match environment {
        Some(key) => Some(key),
        None => copy_opt(stored),
    }
}

/// Whether an address lies in a network: of its family, and the same number
/// without the bits behind the prefix.
pub open spec fn covers(network: Network, ip: IpAddr) -> bool {
    match (network.addr, ip) {
        (IpAddr::V4(a), IpAddr::V4(b)) => network.prefix == 0 || a.bits >> ((32
            - network.prefix) as u32) == b.bits >> ((32 - network.prefix) as u32),
        (IpAddr::V6(a), IpAddr::V6(b)) => network.prefix == 0 || a.bits >> ((128
            - network.prefix) as u128) == b.bits >> ((128 - network.prefix) as u128),
        _ => false,
    }
}

/// A network has the addresses that lie in it.
pub proof fn law_network_covers_addresses(network: Network, ip: IpAddr)
    requires
        network.wf(),
    ensures
        network.has(ip) <==> covers(network, ip),
{
    let n = network.prefix as nat;
    let x = addr_bits_spec(network.addr);
    let y = addr_bits_spec(ip);
    if n == 0 {
        assert(leading_bits(x, 0) =~= leading_bits(y, 0));
    } else {
        crate::lookup::trie::lemma_leading_bits(x, y, n);
        let k = (128 - n) as u128;
        if let (IpAddr::V4(a), IpAddr::V4(b)) = (network.addr, ip) {
            let (p, q) = (a.bits, b.bits);
            let m = (32 - n) as u32;
            assert(x == p * 0x1_0000_0000_0000_0000_0000_0000u128);
            assert(y == q * 0x1_0000_0000_0000_0000_0000_0000u128);
            assert(x >> k == y >> k <==> p >> m == q >> m) by (bit_vector)
                requires
                    x == p * 0x1_0000_0000_0000_0000_0000_0000u128,
                    y == q * 0x1_0000_0000_0000_0000_0000_0000u128,
                    m < 32,
                    k == 96 + m,
            ;
        }
    }
}

/// An address is found in the smallest of the networks it lies in, the one
/// that came first where two are the same; it is found in none only if it
/// lies in none.
pub proof fn law_smallest_network_found(table: &PrefixTable, ip: IpAddr, r: Option<&IxInfo>)
    requires
        call_ensures(PrefixTable::lookup, (table, ip), r),
        table.wf(),
        table.networks().len() <= u32::MAX,
        forall|i: int| 0 <= i < table.networks().len() ==> (#[trigger] table.networks()[i]).wf(),
    ensures
        match r {
            Some(info) => exists|i: int|
                0 <= i < table.networks().len() && 0 <= i < table.infos().len() && covers(
                    #[trigger] table.networks()[i],
                    ip,
                ) && table.infos()[i] == *info && forall|j: int|
                    0 <= j < table.networks().len() && covers(#[trigger] table.networks()[j], ip)
                        ==> table.networks()[j].prefix < table.networks()[i].prefix || (
                    table.networks()[j].prefix == table.networks()[i].prefix && i <= j),
            None => forall|j: int|
                0 <= j < table.networks().len() ==> !covers(#[trigger] table.networks()[j], ip),
        },
{
    let networks = table.networks();
    let len = addr_len_spec(ip) as nat;
    law_longest_prefix_match(networks, ip, len);
    assert forall|j: int| 0 <= j < networks.len() implies #[trigger] networks[j].has(ip) == covers(
        networks[j],
        ip,
    ) && (networks[j].has(ip) ==> networks[j].prefix <= len) by {
        law_network_covers_addresses(networks[j], ip);
    }
    if let Some(i) = best_network(networks, ip, len) {
        assert(covers(networks[i as int], ip));
    }
}

/// A prefix is that of the exchange whose peering LAN it is.
pub proof fn law_prefix_of_its_exchange(
    ixs: &Vec<PdbIx>,
    lans: &Vec<PdbIxlan>,
    records: &Vec<PdbIxpfx>,
    now: u64,
    r: IxCache,
    i: int,
    j: int,
    k: int,
)
    requires
        call_ensures(build_cache, (ixs, lans, records, now), r),
        0 <= i < records@.len(),
        0 <= j < lans@.len(),
        0 <= k < ixs@.len(),
        ixs@.len() <= usize::MAX,
        lans@[j].id == records@[i].ixlan_id,
        ixs@[k].id == lans@[j].ix_id,
        forall|m: int| 0 <= m < lans@.len() && m != j ==> (#[trigger] lans@[m]).id != lans@[j].id,
        forall|m: int| 0 <= m < ixs@.len() && m != k ==> (#[trigger] ixs@[m]).id != ixs@[k].id,
    ensures
        r.version == 1,
        r.fetched_at == now,
        exists|e: int|
            0 <= e < r.prefixes@.len() && (#[trigger] r.prefixes@[e]).prefix@ == records@[i].prefix@
                && r.prefixes@[e].ix_name@ == sanitized(ixs@[k].name@) && opt_text(
                r.prefixes@[e].ix_city,
            ) == sanitized_opt(opt_text(ixs@[k].city)) && opt_text(r.prefixes@[e].ix_country)
                == sanitized_opt(opt_text(ixs@[k].country)),
{
    lemma_lan_found(lans@, j);
    lemma_ix_found(ixs@, k);
    let p = joined_prefix(ixs@, lans@, records@[i])->0;
    lemma_joined_holds(ixs@, lans@, records@, i);
    let all = prefix_texts(r.prefixes@);
    let e = choose|e: int| 0 <= e < all.len() && all[e] == p;
    assert(r.prefixes@[e]@ == p);
}

/// A LAN with an identifier of its own is found by it.
proof fn lemma_lan_found(lans: Seq<PdbIxlan>, j: int)
    requires
        0 <= j < lans.len(),
        forall|m: int| 0 <= m < lans.len() && m != j ==> (#[trigger] lans[m]).id != lans[j].id,
    ensures
        ix_of_lan(lans, lans[j].id) == Some(lans[j].ix_id),
    decreases lans.len(),
{
    if j < lans.len() - 1 {
        let front = lans.drop_last();
        assert(lans[lans.len() - 1].id != lans[j].id);
        assert forall|m: int| 0 <= m < front.len() && m != j implies (#[trigger] front[m]).id
            != front[j].id by {
            assert(lans[m].id != lans[j].id);
        }
        lemma_lan_found(front, j);
    }
}

/// An exchange with an identifier of its own is found by it.
proof fn lemma_ix_found(ixs: Seq<PdbIx>, k: int)
    requires
        0 <= k < ixs.len() <= usize::MAX,
        forall|m: int| 0 <= m < ixs.len() && m != k ==> (#[trigger] ixs[m]).id != ixs[k].id,
    ensures
        ix_place(ixs, ixs[k].id) matches Some(place) && place == k,
    decreases ixs.len(),
{
    if k < ixs.len() - 1 {
        let front = ixs.drop_last();
        assert(ixs[ixs.len() - 1].id != ixs[k].id);
        assert forall|m: int| 0 <= m < front.len() && m != k implies (#[trigger] front[m]).id
            != front[k].id by {
            assert(ixs[m].id != ixs[k].id);
        }
        lemma_ix_found(front, k);
    }
}

/// What a record is joined to is among what all are joined to.
proof fn lemma_joined_holds(
    ixs: Seq<PdbIx>,
    lans: Seq<PdbIxlan>,
    records: Seq<PdbIxpfx>,
    i: int,
)
    requires
        0 <= i < records.len(),
        joined_prefix(ixs, lans, records[i]) is Some,
    ensures
        joined_prefixes(ixs, lans, records).contains(joined_prefix(ixs, lans, records[i])->0),
    decreases records.len(),
{
    let p = joined_prefix(ixs, lans, records[i])->0;
    let before = joined_prefixes(ixs, lans, records.drop_last());
    let all = joined_prefixes(ixs, lans, records);
    if i == records.len() - 1 {
        assert(all[before.len() as int] == p);
    } else {
        assert(records.drop_last()[i] == records[i]);
        lemma_joined_holds(ixs, lans, records.drop_last(), i);
        let e = choose|e: int| 0 <= e < before.len() && before[e] == p;
        assert(all[e] == p);
    }
}

/// Each network in the table is known by what the same entry of the cache
/// says of it.
pub proof fn law_networks_keep_their_exchange(cache: &IxCache, r: PrefixTable, e: int)
    requires
        call_ensures(populate_from_cache, (cache,), r),
        0 <= e < cache.prefixes@.len(),
        parsed_network(cache.prefixes@[e].prefix@) is Some,
    ensures
        r.networks().len() == r.infos().len(),
        exists|i: int|
            0 <= i < r.networks().len() && #[trigger] r.networks()[i] == parsed_network(
                cache.prefixes@[e].prefix@,
            )->0 && r.infos()[i].name@ == sanitized(cache.prefixes@[e].ix_name@) && opt_text(
                r.infos()[i].city,
            ) == sanitized_opt(opt_text(cache.prefixes@[e].ix_city)) && opt_text(
                r.infos()[i].country,
            ) == sanitized_opt(opt_text(cache.prefixes@[e].ix_country)),
{
    let i = lemma_paired(cache.prefixes@, e);
    let texts = ix_texts(r.infos());
    assert(texts.len() == r.infos().len());
    assert(texts[i] == r.infos()[i]@);
}

/// Networks and exchanges stand at the same places.
proof fn lemma_paired(entries: Seq<PrefixCacheEntry>, e: int) -> (i: int)
    requires
        0 <= e < entries.len(),
        parsed_network(entries[e].prefix@) is Some,
    ensures
        cache_networks(entries).len() == cache_exchanges(entries).len(),
        0 <= i < cache_networks(entries).len(),
        cache_networks(entries)[i] == parsed_network(entries[e].prefix@)->0,
        cache_exchanges(entries)[i] == clean_ix(entries[e]@.ix),
    decreases entries.len(),
{
    let front = entries.drop_last();
    lemma_paired_len(front);
    if e == entries.len() - 1 {
        cache_networks(front).len() as int
    } else {
        assert(front[e] == entries[e]);
        lemma_paired(front, e)
    }
}

/// There are as many networks as exchanges.
proof fn lemma_paired_len(entries: Seq<PrefixCacheEntry>)
    ensures
        cache_networks(entries).len() == cache_exchanges(entries).len(),
    decreases entries.len(),
{
    if entries.len() > 0 {
        lemma_paired_len(entries.drop_last());
    }
}

/// What was fetched is good for a day, and only in the form that is written
/// today; then it is read from disk, else fetched, and what is on disk serves
/// where fetching fails.
pub proof fn law_fetched_data_last_a_day(
    cache: &IxCache,
    now: u64,
    expired: bool,
    readable: bool,
    disk: &Option<IxCache>,
    source: LoadFrom,
)
    requires
        call_ensures(IxCache::is_expired, (cache, now), expired),
        call_ensures(IxCache::is_readable, (cache,), readable),
        call_ensures(choose_source, (disk, now), source),
        *disk == Some(*cache),
        cache.fetched_at <= now,
    ensures
        expired <==> now > cache.fetched_at + 86_400,
        readable <==> cache.version == 1,
        (source is Disk) <==> readable && !expired,
{
}

/// Without anything on disk data are fetched.
pub proof fn law_nothing_on_disk_is_fetched(
    disk: &Option<IxCache>,
    now: u64,
    source: LoadFrom,
    fetched: Option<IxCache>,
    kept: Option<IxCache>,
    r: Option<IxCache>,
)
    requires
        call_ensures(choose_source, (disk, now), source),
        call_ensures(after_fetch, (fetched, kept), r),
        *disk is None,
    ensures
        source is Fetch,
        fetched is Some ==> r == fetched,
        fetched is None ==> (match kept {
            Some(cache) => if cache.version == 1 {
                r == kept
            } else {
                r is None
            },
            None => r is None,
        }),
{
}

/// After a failure to load, nothing is tried for five minutes; a key in the
/// environment goes before one that is stored.
pub proof fn law_failures_are_waited_out(
    state: &IxState,
    ip: IpAddr,
    clock: u64,
    now: u64,
    r: LookupStep,
    environment: Option<String>,
    stored: &Option<String>,
    key: Option<String>,
)
    requires
        call_ensures(IxState::lookup_step, (state, ip, clock, now), r),
        call_ensures(effective_api_key, (environment, stored), key),
        state.ip_cache@.len() == 0,
        state.last_failure <= now,
    ensures
        state.loaded ==> (r is Search),
        !state.loaded && state.last_failure == 0 ==> (r is Load),
        !state.loaded && state.last_failure > 0 && now < state.last_failure + 300 ==> (
        r matches LookupStep::Answer(answer) && answer is None),
        !state.loaded && now >= state.last_failure + 300 ==> (r is Load),
        environment is Some ==> opt_text(key) == opt_text(environment),
        environment is None ==> opt_text(key) == opt_text(*stored),
{
}

/// What a search finds is answered from the cache for an hour.
pub proof fn law_found_exchange_remembered(
    searching: &mut IxState,
    state: &IxState,
    ip: IpAddr,
    clock: u64,
    later: u64,
    now: u64,
    found: Option<IxInfo>,
    r: LookupStep,
)
    requires
        call_ensures(IxState::search, (searching, ip, clock), found),
        old(searching).wf(),
        *state == *final(searching),
        call_ensures(IxState::lookup_step, (state, ip, later, now), r),
        clock <= later < clock + 3_600_000_000_000,
    ensures
        r matches LookupStep::Answer(answer) && opt_ix(answer) == opt_ix(found),
{
    let entry = choose|entry: CacheEntry<Option<IxInfo>>|
        entry.ip == ip && entry.cached_at == clock && opt_ix(entry.value) == opt_ix(found)
            && state.ip_cache@ == #[trigger] with_entry(old(searching).ip_cache@, entry);
    crate::lookup::cache::law_stored_is_cached(old(searching).ip_cache@, entry);
    let i = choose|i: int| 0 <= i < state.ip_cache@.len() && state.ip_cache@[i] == entry;
    assert(fresh(state.ip_cache@[i], later, IP_CACHE_TTL_NANOS));
    assert(state.has_cached(ip, later));
    let answer = r->Answer_0;
    let j = choose|j: int|
        0 <= j < state.ip_cache@.len() && (#[trigger] state.ip_cache@[j]).ip == ip && fresh(
            state.ip_cache@[j],
            later,
            IP_CACHE_TTL_NANOS,
        ) && opt_ix(state.ip_cache@[j].value) == opt_ix(answer);
    assert(state.ip_cache@.contains(state.ip_cache@[j]));
}

/// A refresh is begun once at a time. Done, it replaces the data and forgets
/// what was answered from the old; failed, it keeps the data.
pub proof fn law_refresh_replaces_data(
    beginning: &mut IxState,
    done: &mut IxState,
    failed: &mut IxState,
    cache: &IxCache,
    now: u64,
    begun: bool,
)
    requires
        call_ensures(IxState::begin_refresh, (beginning,), begun),
        call_ensures(IxState::refresh_done, (done, cache), ()),
        call_ensures(IxState::refresh_failed, (failed, now), ()),
    ensures
        begun <==> !old(beginning).refreshing,
        final(beginning).refreshing,
        !final(done).refreshing && !final(failed).refreshing,
        final(done).ip_cache@.len() == 0,
        final(done).cache_fetched_at == cache.fetched_at,
        final(failed).prefixes == old(failed).prefixes && final(failed).ip_cache == old(
            failed).ip_cache && final(failed).last_failure == now,
{
}

/// The state of the data is told as it is.
pub proof fn law_status_of_data(state: &IxState, now: u64, r: CacheStatus, count: usize)
    requires
        call_ensures(IxState::get_cache_status, (state, now), r),
        call_ensures(IxState::prefix_count, (state,), count),
        state.cache_fetched_at <= now,
    ensures
        r.loaded == state.loaded && r.refreshing == state.refreshing,
        r.prefix_count == count && count == state.prefixes.networks().len(),
        r.fetched_at is None <==> state.cache_fetched_at == 0,
        r.fetched_at matches Some(t) ==> t == state.cache_fetched_at,
        r.expired <==> state.cache_fetched_at > 0 && now > state.cache_fetched_at + 86_400,
{
}

/// What was loaded is what is searched from then on; a failure to load is
/// remembered and changes nothing else.
pub proof fn law_loaded_data_searched(
    loading: &mut IxState,
    failing: &mut IxState,
    cache: &IxCache,
    now: u64,
    r: PrefixTable,
)
    requires
        call_ensures(IxState::data_loaded, (loading, cache), ()),
        call_ensures(IxState::load_failed, (failing, now), ()),
        call_ensures(populate_from_cache, (cache,), r),
    ensures
        final(loading).loaded,
        final(loading).prefixes.networks() == r.networks(),
        ix_texts(final(loading).prefixes.infos()) == ix_texts(r.infos()),
        final(loading).cache_fetched_at == cache.fetched_at,
        final(failing).last_failure == now,
        final(failing).loaded == old(failing).loaded && final(failing).prefixes == old(
            failing).prefixes,
{
}

} // verus!

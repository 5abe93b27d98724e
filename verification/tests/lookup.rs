//! Lookup caches, exchange prefixes, autonomous systems and names.

use ttl::addr::{IpAddr, Ipv4Addr, Ipv6Addr};
use ttl::lookup::asn::{
    asn_info, build_name_query, build_origin_query, parse_as_name, parse_origin, readable_chunks,
};
use ttl::lookup::batch::{collect_batch, Candidate};
use ttl::lookup::cache::{
    cached, prune_cache, remember, store, CacheEntry, ENRICHMENT_CACHE_CAP,
};
use ttl::lookup::display::sanitize_display;
use ttl::lookup::geo::{geo_info, GeoInfo};
use ttl::lookup::ix::{
    after_fetch, build_cache, choose_source, effective_api_key, populate_from_cache, IxCache,
    IxInfo, IxState, LoadFrom, LookupStep, Network, PdbIx, PdbIxlan, PdbIxpfx, PrefixCacheEntry,
    PrefixTable, CACHE_VERSION, LOAD_FAILURE_BACKOFF_SECS, MAX_AGE_SECS,
};
use ttl::lookup::rdns::host_name;
use ttl::lookup::trie::PrefixTrie;

const SECOND: u64 = 1_000_000_000;

fn make_ip(n: u8) -> IpAddr {
    IpAddr::V4(Ipv4Addr::new(10, 0, 0, n))
}

fn entry(ip: IpAddr, cached_at: u64) -> CacheEntry<u8> {
    CacheEntry {
        ip,
        value: 0,
        cached_at,
    }
}

fn contains_key(entries: &Vec<CacheEntry<u8>>, ip: &IpAddr) -> bool {
    entries.iter().any(|e| e.ip == *ip)
}

#[test]
fn test_prune_removes_expired_entries() {
    let mut cache: Vec<CacheEntry<u8>> = Vec::new();
    let now = 10_000 * SECOND;

    // Entry well past TTL.
    cache.push(entry(make_ip(1), now - 7200 * SECOND));
    // Entry within TTL.
    cache.push(entry(make_ip(2), now));

    prune_cache(&mut cache, now, 3600 * SECOND);

    assert!(
        !contains_key(&cache, &make_ip(1)),
        "expired entry should be evicted"
    );
    assert!(contains_key(&cache, &make_ip(2)), "fresh entry should remain");
    assert_eq!(cache.len(), 1);
}

#[test]
fn test_prune_keeps_all_when_under_and_fresh() {
    let mut cache: Vec<CacheEntry<u8>> = Vec::new();
    let now = 10_000 * SECOND;

    for n in 1..=100 {
        cache.push(entry(make_ip(n), now));
    }

    prune_cache(&mut cache, now, 3600 * SECOND);

    assert_eq!(
        cache.len(),
        100,
        "all entries should remain when under cap and fresh"
    );
}

#[test]
fn test_prune_phase2_evicts_oldest() {
    let mut cache: Vec<CacheEntry<u8>> = Vec::new();
    let now = 10_000 * SECOND;

    for n in 0..(ENRICHMENT_CACHE_CAP + 3) {
        let ip = match n {
            _ if n < 254 => IpAddr::V4(Ipv4Addr::new(10, 0, 0, (n + 1) as u8)),
            _ if n < 508 => IpAddr::V4(Ipv4Addr::new(10, 0, 1, (n - 253) as u8)),
            _ if n < 762 => IpAddr::V4(Ipv4Addr::new(10, 0, 2, (n - 507) as u8)),
            _ if n < 1016 => IpAddr::V4(Ipv4Addr::new(10, 0, 3, (n - 761) as u8)),
            _ if n < 5025 => {
                IpAddr::V6(Ipv6Addr::new(0x2001, 0, 0, 0, 0, 0, 0, (n - 1015) as u16))
            }
            _ => IpAddr::V6(Ipv6Addr::new(0x2001, 0, 0, 0, 0, 0, 1, (n - 5024) as u16)),
        };
        // The oldest entry (n=0) has the largest age.
        let entry_age = (ENRICHMENT_CACHE_CAP + 3 - n) as u64;
        cache.push(entry(ip, now - entry_age));
    }

    assert_eq!(cache.len(), ENRICHMENT_CACHE_CAP + 3);

    prune_cache(&mut cache, now, 3600 * SECOND);

    assert_eq!(cache.len(), ENRICHMENT_CACHE_CAP, "should shrink to cap");

    let evicted_ips = [
        IpAddr::V4(Ipv4Addr::new(10, 0, 0, 1)),
        IpAddr::V4(Ipv4Addr::new(10, 0, 0, 2)),
        IpAddr::V4(Ipv4Addr::new(10, 0, 0, 3)),
    ];
    for ip in &evicted_ips {
        assert!(
            !contains_key(&cache, ip),
            "oldest entry {:?} should be evicted",
            ip
        );
    }
    assert!(contains_key(&cache, &IpAddr::V4(Ipv4Addr::new(10, 0, 0, 4))));
}

#[test]
fn test_prune_empty_cache_is_noop() {
    let mut cache: Vec<CacheEntry<u8>> = Vec::new();
    prune_cache(&mut cache, 10_000 * SECOND, 3600 * SECOND);
    assert_eq!(cache.len(), 0);
}

#[test]
fn stored_values_are_found_while_fresh() {
    let mut cache: Vec<CacheEntry<u8>> = Vec::new();
    store(&mut cache, CacheEntry { ip: make_ip(1), value: 5, cached_at: 100 });
    store(&mut cache, CacheEntry { ip: make_ip(1), value: 6, cached_at: 200 });
    assert_eq!(cache.len(), 1);
    assert_eq!(cached(&cache, make_ip(1), 250, 100), Some(&6));
    assert_eq!(cached(&cache, make_ip(1), 300, 100), None);
    assert_eq!(cached(&cache, make_ip(2), 250, 100), None);
}

/// A network, written as its address and prefix length.
fn net4(a: u8, b: u8, c: u8, d: u8, prefix: u8) -> Network {
    Network {
        addr: IpAddr::V4(Ipv4Addr::new(a, b, c, d)),
        prefix,
    }
}

fn v6(segments: [u16; 8]) -> IpAddr {
    IpAddr::V6(Ipv6Addr::new(
        segments[0],
        segments[1],
        segments[2],
        segments[3],
        segments[4],
        segments[5],
        segments[6],
        segments[7],
    ))
}

fn net6(segments: [u16; 8], prefix: u8) -> Network {
    Network {
        addr: v6(segments),
        prefix,
    }
}

fn table_with(entries: &[(Network, &str)]) -> PrefixTable {
    let mut table = PrefixTable::new();
    for (prefix, name) in entries {
        table.insert(
            prefix,
            IxInfo {
                name: name.to_string(),
                city: None,
                country: None,
            },
        );
    }
    table
}

/// Looks an address up and gives the name of the exchange.
fn lookup_name(table: &PrefixTable, ip: IpAddr) -> Option<String> {
    table.lookup(ip).map(|info| info.name.clone())
}

fn ip4(a: u8, b: u8, c: u8, d: u8) -> IpAddr {
    IpAddr::V4(Ipv4Addr::new(a, b, c, d))
}

#[test]
fn test_trie_ipv4_match() {
    let table = table_with(&[(net4(206, 223, 115, 0, 24), "Equinix Ashburn")]);

    assert_eq!(
        lookup_name(&table, ip4(206, 223, 115, 100)),
        Some("Equinix Ashburn".to_string())
    );
    assert_eq!(lookup_name(&table, ip4(206, 223, 116, 100)), None);
    assert_eq!(lookup_name(&table, ip4(8, 8, 8, 8)), None);
}

#[test]
fn test_trie_ipv6_match() {
    let table = table_with(&[(
        net6([0x2001, 0x7f8, 0, 0, 0, 0, 0, 0], 32),
        "DE-CIX Frankfurt",
    )]);

    assert_eq!(
        lookup_name(&table, v6([0x2001, 0x7f8, 0, 0, 0, 0, 0, 1])),
        Some("DE-CIX Frankfurt".to_string())
    );
    assert_eq!(
        lookup_name(&table, v6([0x2001, 0x7f8, 0xffff, 0, 0, 0, 0, 1])),
        Some("DE-CIX Frankfurt".to_string())
    );
    assert_eq!(lookup_name(&table, v6([0x2001, 0x7f9, 0, 0, 0, 0, 0, 1])), None);
    assert_eq!(lookup_name(&table, v6([0x2606, 0x4700, 0, 0, 0, 0, 0, 1])), None);
}

#[test]
fn test_trie_family_separation() {
    // An IPv4 prefix must not match IPv6 addresses and vice versa
    let table = table_with(&[
        (net4(10, 0, 0, 0, 8), "V4 IX"),
        (net6([0x2001, 0xdb8, 0, 0, 0, 0, 0, 0], 32), "V6 IX"),
    ]);

    assert_eq!(lookup_name(&table, ip4(10, 1, 2, 3)), Some("V4 IX".to_string()));
    assert_eq!(
        lookup_name(&table, v6([0x2001, 0xdb8, 0, 0, 0, 0, 0, 1])),
        Some("V6 IX".to_string())
    );
    // IPv4-mapped IPv6 address is an IPv6 lookup; should not hit the v4 trie
    assert_eq!(
        lookup_name(&table, v6([0, 0, 0, 0, 0, 0xffff, 0x0a01, 0x0203])),
        None
    );
}

#[test]
fn test_trie_host_prefix_edge_cases() {
    // /32 and /128 prefixes match exactly one address
    let table = table_with(&[
        (net4(192, 0, 2, 1, 32), "V4 Host"),
        (net6([0x2001, 0xdb8, 0, 0, 0, 0, 0, 1], 128), "V6 Host"),
    ]);

    assert_eq!(
        lookup_name(&table, ip4(192, 0, 2, 1)),
        Some("V4 Host".to_string())
    );
    assert_eq!(lookup_name(&table, ip4(192, 0, 2, 2)), None);
    assert_eq!(
        lookup_name(&table, v6([0x2001, 0xdb8, 0, 0, 0, 0, 0, 1])),
        Some("V6 Host".to_string())
    );
    assert_eq!(lookup_name(&table, v6([0x2001, 0xdb8, 0, 0, 0, 0, 0, 2])), None);
}

#[test]
fn test_trie_empty() {
    let table = PrefixTable::new();
    assert_eq!(table.len(), 0);
    assert_eq!(lookup_name(&table, ip4(192, 0, 2, 1)), None);
    assert_eq!(lookup_name(&table, v6([0x2001, 0xdb8, 0, 0, 0, 0, 0, 1])), None);
}

#[test]
fn test_ix_cache_expiry() {
    let now: u64 = 1_800_000_000;

    // Fresh cache
    let fresh = IxCache {
        version: CACHE_VERSION,
        fetched_at: now,
        prefixes: vec![],
    };
    assert!(!fresh.is_expired(now));

    // Expired cache (25 hours old)
    let old = IxCache {
        version: CACHE_VERSION,
        fetched_at: now - 25 * 60 * 60,
        prefixes: vec![],
    };
    assert!(old.is_expired(now));
}

#[test]
fn test_trie_longest_prefix_match() {
    // Nested prefixes: lookup must return the most specific match
    let table = table_with(&[
        (net4(10, 0, 0, 0, 8), "Wide"),
        (net4(10, 0, 0, 0, 24), "Narrow"),
        (net4(10, 0, 0, 0, 16), "Medium"),
    ]);
    assert_eq!(table.len(), 3);

    assert_eq!(lookup_name(&table, ip4(10, 0, 0, 50)), Some("Narrow".to_string()));
    assert_eq!(lookup_name(&table, ip4(10, 0, 5, 50)), Some("Medium".to_string()));
    assert_eq!(lookup_name(&table, ip4(10, 5, 0, 50)), Some("Wide".to_string()));
    assert_eq!(lookup_name(&table, ip4(11, 0, 0, 50)), None);
}

#[test]
fn test_trie_overlapping_v6_prefixes() {
    let table = table_with(&[
        (net6([0x2001, 0xdb8, 0, 0, 0, 0, 0, 0], 32), "Wide"),
        (net6([0x2001, 0xdb8, 1, 0, 0, 0, 0, 0], 48), "Narrow"),
    ]);

    assert_eq!(
        lookup_name(&table, v6([0x2001, 0xdb8, 1, 0, 0, 0, 0, 1])),
        Some("Narrow".to_string())
    );
    assert_eq!(
        lookup_name(&table, v6([0x2001, 0xdb8, 2, 0, 0, 0, 0, 1])),
        Some("Wide".to_string())
    );
}

#[test]
fn test_backoff_period_check() {
    // Test that backoff period logic works correctly
    let now: u64 = 1_800_000_000;

    // Simulate a recent failure (should be in backoff)
    let recent_failure = now - 60; // 1 minute ago
    assert!(now - recent_failure < LOAD_FAILURE_BACKOFF_SECS);
    let mut state = IxState::new();
    state.load_failed(recent_failure);
    assert!(matches!(
        state.lookup_step(ip4(10, 0, 0, 1), 0, now),
        LookupStep::Answer(None)
    ));

    // Simulate an old failure (backoff should have expired)
    let old_failure = now - 400; // 6+ minutes ago
    assert!(now - old_failure >= LOAD_FAILURE_BACKOFF_SECS);
    state.load_failed(old_failure);
    assert!(matches!(
        state.lookup_step(ip4(10, 0, 0, 1), 0, now),
        LookupStep::Load
    ));
}

#[test]
fn test_lookup_returns_none_during_backoff() {
    let mut state = IxState::new();
    let now: u64 = 1_800_000_000;
    state.load_failed(now);

    let ip = ip4(206, 223, 115, 100);
    assert!(matches!(state.lookup_step(ip, 0, now), LookupStep::Answer(None)));
    assert!(!state.loaded);
}

#[test]
fn test_oncecell_empty_after_failure() {
    let state = IxState::new();
    assert!(!state.loaded);
    assert_eq!(state.last_failure, 0);
}

fn one_prefix(prefix: &str, name: &str) -> IxCache {
    IxCache {
        version: CACHE_VERSION,
        fetched_at: 1_800_000_000,
        prefixes: vec![PrefixCacheEntry {
            prefix: prefix.to_string(),
            ix_name: name.to_string(),
            ix_city: Some("Test City".to_string()),
            ix_country: Some("US".to_string()),
        }],
    }
}

#[test]
fn test_lookup_with_preloaded_data() {
    let mut state = IxState::new();
    state.data_loaded(&one_prefix("206.223.115.0/24", "Test IX"));

    let ip = ip4(206, 223, 115, 100);
    assert!(matches!(state.lookup_step(ip, 0, 1_800_000_001), LookupStep::Search));
    let result = state.search(ip, 0);
    assert!(result.is_some());
    let ix_info = result.unwrap();
    assert_eq!(ix_info.name, "Test IX");
    assert_eq!(ix_info.city, Some("Test City".to_string()));

    // Lookup for non-matching IP should return None
    let result2 = state.search(ip4(8, 8, 8, 8), 0);
    assert!(result2.is_none());
}

#[test]
fn test_ip_cache_prevents_repeated_prefix_search() {
    let mut state = IxState::new();
    state.data_loaded(&one_prefix("206.223.115.0/24", "Cached IX"));
    let ip = ip4(206, 223, 115, 50);

    let result1 = state.search(ip, 1_000);
    assert!(result1.is_some());
    assert!(state.ip_cache.iter().any(|e| e.ip == ip));

    match state.lookup_step(ip, 2_000, 1_800_000_001) {
        LookupStep::Answer(Some(info)) => assert_eq!(info.name, "Cached IX"),
        _ => panic!("the second lookup is answered from the cache"),
    }
}

#[test]
fn prefixes_are_read_as_networks() {
    // The host bits of a prefix do not count, and what is no prefix is left out.
    let mut cache = one_prefix("206.223.115.77/24", "First");
    cache.prefixes.push(PrefixCacheEntry {
        prefix: "nonsense".to_string(),
        ix_name: "Second".to_string(),
        ix_city: None,
        ix_country: None,
    });
    cache.prefixes.push(PrefixCacheEntry {
        prefix: "2001:7f8::/32".to_string(),
        ix_name: "Third".to_string(),
        ix_city: None,
        ix_country: None,
    });
    let table = populate_from_cache(&cache);
    assert_eq!(table.len(), 2);
    assert_eq!(lookup_name(&table, ip4(206, 223, 115, 1)), Some("First".to_string()));
    assert_eq!(
        lookup_name(&table, v6([0x2001, 0x7f8, 9, 0, 0, 0, 0, 1])),
        Some("Third".to_string())
    );
}

#[test]
fn exchange_records_are_joined() {
    let ixs = vec![PdbIx {
        id: 7,
        name: "DE-CIX".to_string(),
        city: Some("Frankfurt".to_string()),
        country: Some("DE".to_string()),
    }];
    let lans = vec![PdbIxlan { id: 70, ix_id: 7 }, PdbIxlan { id: 80, ix_id: 8 }];
    let records = vec![
        PdbIxpfx { ixlan_id: 70, prefix: "80.81.192.0/21".to_string() },
        PdbIxpfx { ixlan_id: 80, prefix: "10.0.0.0/8".to_string() },
        PdbIxpfx { ixlan_id: 90, prefix: "11.0.0.0/8".to_string() },
    ];
    let cache = build_cache(&ixs, &lans, &records, 99);
    assert_eq!(cache.version, CACHE_VERSION);
    assert_eq!(cache.fetched_at, 99);
    assert_eq!(cache.prefixes.len(), 1);
    assert_eq!(cache.prefixes[0].prefix, "80.81.192.0/21");
    assert_eq!(cache.prefixes[0].ix_name, "DE-CIX");
}

#[test]
fn exchange_data_has_a_source() {
    let now: u64 = 1_800_000_000;
    let disk = Some(one_prefix("10.0.0.0/8", "Disk"));
    assert_eq!(choose_source(&disk, now + MAX_AGE_SECS), LoadFrom::Disk);
    assert_eq!(choose_source(&disk, now + MAX_AGE_SECS + 1), LoadFrom::Fetch);
    assert_eq!(choose_source(&None, now), LoadFrom::Fetch);
    let fetched = Some(one_prefix("10.0.0.0/8", "Fetched"));
    let used = after_fetch(fetched, disk).unwrap();
    assert_eq!(used.prefixes[0].ix_name, "Fetched");
    let stale = after_fetch(None, Some(one_prefix("10.0.0.0/8", "Disk"))).unwrap();
    assert_eq!(stale.prefixes[0].ix_name, "Disk");
    assert!(after_fetch(None, None).is_none());
    assert_eq!(
        effective_api_key(Some("env".to_string()), &Some("stored".to_string())),
        Some("env".to_string())
    );
    assert_eq!(
        effective_api_key(None, &Some("stored".to_string())),
        Some("stored".to_string())
    );
}

#[test]
fn a_refresh_runs_once() {
    let mut state = IxState::new();
    assert!(state.begin_refresh());
    assert!(!state.begin_refresh());
    state.refresh_done(&one_prefix("10.0.0.0/8", "New"));
    let status = state.get_cache_status(1_800_000_000);
    // A refresh does not stand for the first load.
    assert!(!status.loaded && !status.refreshing && !status.expired);
    assert_eq!(status.prefix_count, 1);
    assert_eq!(status.fetched_at, Some(1_800_000_000));
    assert!(state.begin_refresh());
    state.refresh_failed(1_800_000_050);
    assert_eq!(state.last_failure, 1_800_000_050);
    assert_eq!(state.prefix_count(), 1);
}

#[test]
fn test_ipv4_reverse_format() {
    let query = build_origin_query(ip4(8, 8, 8, 8));
    assert_eq!(query, "8.8.8.8.origin.asn.cymru.com");
    assert_eq!(
        build_origin_query(ip4(1, 2, 3, 4)),
        "4.3.2.1.origin.asn.cymru.com"
    );
}

#[test]
fn test_ipv6_reverse_format() {
    let query = build_origin_query(v6([0x2001, 0x4860, 0x4860, 0, 0, 0, 0, 0x8888]));
    let nibble_str = query.strip_suffix(".origin6.asn.cymru.com").unwrap();

    // 2001:4860:4860:0000:0000:0000:0000:8888 reversed nibbles
    assert!(nibble_str.ends_with(".1.0.0.2"));
    assert!(nibble_str.starts_with("8.8.8.8."));
    assert_eq!(nibble_str.len(), 63);
}

#[test]
fn test_parse_cymru_response() {
    let txt = "15169 | 8.8.8.8 | 8.8.8.0/24 | US | arin | 1992-12-01";
    let (asn_number, prefix) = parse_origin(&vec![txt.to_string()]).unwrap();
    assert_eq!(asn_number, 15169);
    assert_eq!(prefix, Some("8.8.8.0/24".to_string()));
}

#[test]
fn test_parse_cymru_name_response() {
    let txt = "15169 | US | arin | 2000-03-30 | GOOGLE, US";
    let name = parse_as_name(&vec![txt.to_string()]);
    assert_eq!(name, Some("GOOGLE, US".to_string()));
}

#[test]
fn origin_records_that_do_not_parse() {
    assert_eq!(parse_origin(&vec!["".to_string()]), None);
    assert_eq!(parse_origin(&vec!["none | x".to_string()]), None);
    assert_eq!(parse_origin(&vec!["4294967296 | x".to_string()]), None);
    assert_eq!(parse_as_name(&vec!["15169 | US".to_string()]), None);
    assert_eq!(build_name_query(15169), "AS15169.asn.cymru.com");
    let info = asn_info(15169, None, Some("GOOGLE".to_string()));
    assert_eq!((info.number, info.name), (15169, "GOOGLE".to_string()));
}

#[test]
fn test_geo_info_construction() {
    let geo = GeoInfo {
        city: Some("Mountain View".to_string()),
        region: Some("California".to_string()),
        country: "US".to_string(),
        latitude: Some(37.386),
        longitude: Some(-122.0838),
    };

    assert_eq!(geo.country, "US");
    assert_eq!(geo.city, Some("Mountain View".to_string()));
}

#[test]
fn a_place_needs_a_country() {
    assert!(geo_info::<i32>(None, Some("Paris".to_string()), vec![], None, None).is_none());
    let geo = geo_info(
        Some("FR".to_string()),
        Some("Paris".to_string()),
        vec![Some("IDF".to_string()), Some("X".to_string())],
        Some(48),
        Some(2),
    )
    .unwrap();
    assert_eq!(geo.country, "FR");
    assert_eq!(geo.city, Some("Paris".to_string()));
    assert_eq!(geo.region, Some("IDF".to_string()));
    assert_eq!(geo.latitude, Some(48));
}

#[test]
fn control_characters_are_dropped() {
    assert_eq!(sanitize_display("a\u{1b}[31mb\nc\u{9f}"), "a[31mbc");
    let once = sanitize_display("x\ty");
    assert_eq!(sanitize_display(&once), once);
}

#[test]
fn host_names_lose_the_final_dot() {
    assert_eq!(host_name("router.example.net."), "router.example.net");
    assert_eq!(host_name("router"), "router");
}

#[test]
fn batches_are_distinct_and_bounded() {
    let seen = vec![
        Candidate { ip: make_ip(1), missing: true },
        Candidate { ip: make_ip(2), missing: false },
        Candidate { ip: make_ip(1), missing: true },
        Candidate { ip: make_ip(3), missing: true },
        Candidate { ip: make_ip(4), missing: true },
    ];
    assert_eq!(collect_batch(&seen, 2), vec![make_ip(1), make_ip(3)]);
    assert_eq!(collect_batch(&seen, 10).len(), 3);
}

#[test]
fn a_new_entry_drives_out_the_old_ones() {
    let mut cache: Vec<CacheEntry<u8>> = vec![entry(make_ip(1), 0), entry(make_ip(2), 9_000 * SECOND)];
    let now = 10_000 * SECOND;
    remember(&mut cache, entry(make_ip(3), now), now, 3600 * SECOND);
    assert!(!contains_key(&cache, &make_ip(1)));
    assert!(contains_key(&cache, &make_ip(2)));
    assert!(contains_key(&cache, &make_ip(3)));
    assert_eq!(cache.len(), 2);
}

#[test]
fn the_longest_insertion_wins() {
    let bits = |top: u128| top << 120;
    let mut trie = PrefixTrie::new();
    assert_eq!(trie.lookup(bits(10), 32), None);
    trie.insert(bits(0xFF), 0, 7);
    trie.insert(bits(10) | 0xABCD, 8, 1);
    trie.insert(bits(10), 8, 2);
    trie.insert(bits(10), 4, 3);
    assert_eq!(trie.lookup(bits(10), 32), Some(1));
    assert_eq!(trie.lookup(bits(10), 7), Some(3));
    assert_eq!(trie.lookup(bits(11), 32), Some(3));
    assert_eq!(trie.lookup(bits(200), 32), Some(7));
    assert_eq!(trie.lookup(bits(10), 0), Some(7));
}

#[test]
fn chunks_that_are_no_text_are_passed_over() {
    let chunks = vec![b"15169 | 8.8".to_vec(), vec![0xFF, 0xFE], b".8.8 | 8.8.8.0/24".to_vec()];
    let texts = readable_chunks(&chunks);
    assert_eq!(texts, vec!["15169 | 8.8", ".8.8 | 8.8.8.0/24"]);
    assert_eq!(parse_origin(&texts), Some((15169, Some("8.8.8.0/24".to_string()))));
    assert_eq!(readable_chunks(&vec!["\u{e9}".as_bytes().to_vec()]), vec!["\u{e9}"]);
}

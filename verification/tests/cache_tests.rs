use maxminddb_polars::cache::{
    changed_ns, check_generation, check_resolved_path, check_unchanged, identity_eq,
    parse_cache_max_bytes, parse_usize_text, signed_bits, strip_verbatim_prefix, CacheLimitSetting,
    DatabaseIdentity, NumberError, ReaderCache, SnapshotError, CACHE_MAX_BYTES_ENV,
    DEFAULT_CACHE_MAX_BYTES,
};

fn identity(path: &str, size: u64) -> DatabaseIdentity {
    DatabaseIdentity {
        canonical_path: path.to_owned(),
        size,
        modified_ns: 1,
        changed_ns: 2,
        volume_id: 3,
        file_id: 4,
        file_id_high: 0,
    }
}

fn text(s: &str) -> CacheLimitSetting {
    CacheLimitSetting::Text(s.to_owned())
}

#[test]
fn bounds_cached_reader_bytes_without_dropping_the_newest_reader() {
    let city_identity = identity("/data/GeoIP2-City-Test.mmdb", 20_000);
    let asn_identity = identity("/data/GeoLite2-ASN-Test.mmdb", 12_000);
    let mut cache: ReaderCache<u32> = ReaderCache::new();

    cache.insert(city_identity.clone(), 1, 0);
    assert!(cache.contains(&city_identity));

    cache.insert(asn_identity.clone(), 2, asn_identity.size as usize);
    assert!(!cache.contains(&city_identity));
    assert!(cache.contains(&asn_identity));
    assert_eq!(cache.bytes(), asn_identity.size as usize);
}

#[test]
fn reuses_reader_for_the_same_generation() {
    let id = identity("/data/a.mmdb", 10);
    let mut cache: ReaderCache<&str> = ReaderCache::new();
    cache.insert(id.clone(), "first", 1_000);
    assert_eq!(cache.get(&id), Some(&"first"));
    assert_eq!(cache.get(&identity("/data/a.mmdb", 11)), None);
    assert_eq!(cache.len(), 1);
}

#[test]
fn keeps_replaced_file_generations_isolated() {
    let old = identity("/data/db.mmdb", 10);
    let mut new = identity("/data/db.mmdb", 10);
    new.file_id = 99;
    let mut cache: ReaderCache<u8> = ReaderCache::new();
    cache.insert(old.clone(), 1, 1_000);
    cache.insert(new.clone(), 2, 1_000);
    assert_eq!(cache.get(&old), Some(&1));
    assert_eq!(cache.get(&new), Some(&2));
    assert_eq!(cache.bytes(), 20);
}

#[test]
fn eviction_drops_the_oldest_first() {
    let a = identity("/a", 10);
    let b = identity("/b", 10);
    let c = identity("/c", 10);
    let mut cache: ReaderCache<char> = ReaderCache::new();
    cache.insert(a.clone(), 'a', 25);
    cache.insert(b.clone(), 'b', 25);
    cache.insert(c.clone(), 'c', 25);
    assert!(!cache.contains(&a));
    assert!(cache.contains(&b));
    assert!(cache.contains(&c));
    assert_eq!(cache.bytes(), 20);
    assert_eq!(cache.len(), 2);
}

#[test]
fn a_lone_snapshot_larger_than_the_limit_stays() {
    let big = identity("/big", 1_000);
    let mut cache: ReaderCache<()> = ReaderCache::new();
    cache.insert(big.clone(), (), 10);
    assert!(cache.contains(&big));
    assert_eq!(cache.bytes(), 1_000);
}

#[test]
fn parses_the_cache_limit_contract() {
    assert_eq!(
        parse_cache_max_bytes(&CacheLimitSetting::Unset).unwrap(),
        DEFAULT_CACHE_MAX_BYTES
    );
    assert_eq!(parse_cache_max_bytes(&text("0")).unwrap(), 0);
    assert_eq!(parse_cache_max_bytes(&text("1048576")).unwrap(), 1_048_576);
    for value in ["-1", "not-a-number"] {
        assert!(parse_cache_max_bytes(&text(value))
            .unwrap_err()
            .contains("must be a non-negative integer number of bytes"));
    }
}

#[test]
fn cache_limit_errors_say_why() {
    assert_eq!(DEFAULT_CACHE_MAX_BYTES, 512 * 1024 * 1024);
    assert_eq!(CACHE_MAX_BYTES_ENV, "MAXMINDDB_POLARS_CACHE_MAX_BYTES");
    assert_eq!(
        parse_cache_max_bytes(&CacheLimitSetting::NotUnicode).unwrap_err(),
        "MAXMINDDB_POLARS_CACHE_MAX_BYTES must be valid UTF-8"
    );
    assert_eq!(
        parse_cache_max_bytes(&text("")).unwrap_err(),
        "MAXMINDDB_POLARS_CACHE_MAX_BYTES must be a non-negative integer number of bytes: \
         cannot parse integer from empty string"
    );
    assert_eq!(
        parse_cache_max_bytes(&text("99999999999999999999999")).unwrap_err(),
        "MAXMINDDB_POLARS_CACHE_MAX_BYTES must be a non-negative integer number of bytes: \
         number too large to fit in target type"
    );
}

#[test]
fn numbers_parse_as_std_does() {
    for s in ["0", "7", "+12", "000123", "18446744073709551615", "", "+", "-", "-0", "1 ", "1_0", "18446744073709551616"] {
        let ours = parse_usize_text(s);
        let std = s.parse::<u64>();
        match (ours, std) {
            (Ok(a), Ok(b)) => assert_eq!(a as u64, b, "{s}"),
            (Err(e), Err(_)) => assert!(matches!(e, NumberError::Empty | NumberError::InvalidDigit | NumberError::TooLarge)),
            (a, b) => panic!("{s}: {a:?} vs {b:?}"),
        }
    }
    assert_eq!(parse_usize_text(""), Err(NumberError::Empty));
    assert_eq!(parse_usize_text("+"), Err(NumberError::InvalidDigit));
    assert_eq!(parse_usize_text("12a"), Err(NumberError::InvalidDigit));
}

#[test]
fn rejects_an_identity_that_does_not_match_the_file() {
    let current = identity("/data/db.mmdb", 10);
    let mut expected = current.clone();
    expected.size += 1;
    let error = check_generation(&expected, &current).unwrap_err();
    assert!(error.message().contains("changed after expression construction"));
    assert_eq!(check_generation(&current, &current.clone()), Ok(()));
}

#[test]
fn snapshot_errors_name_the_file() {
    let id = identity("/data/db.mmdb", 10);
    assert_eq!(check_resolved_path(&id, "/data/db.mmdb"), Ok(()));
    let error = check_resolved_path(&id, "/data/other.mmdb").unwrap_err();
    assert_eq!(
        error.message(),
        "MMDB path identity changed from \"/data/db.mmdb\" to \"/data/other.mmdb\"; reconstruct the expression"
    );
    let mut after = id.clone();
    after.size = 11;
    let error = check_unchanged(&id, &id.clone(), &after).unwrap_err();
    assert_eq!(
        error,
        SnapshotError::ChangedWhileReading { path: "/data/db.mmdb".to_owned() }
    );
    assert_eq!(
        error.message(),
        "MMDB file \"/data/db.mmdb\" changed while it was being read; reconstruct the expression"
    );
    assert_eq!(check_unchanged(&id, &after, &after.clone()), Ok(()));
}

#[test]
fn identities_compare_every_field() {
    let a = identity("/x", 1);
    let mut b = a.clone();
    assert!(identity_eq(&a, &b));
    b.file_id_high = 1;
    assert!(!identity_eq(&a, &b));
    assert_eq!(a.duplicate(), a);
}

#[test]
fn change_times_combine_seconds_and_nanoseconds() {
    assert_eq!(changed_ns(2, 5), Some(2_000_000_005));
    assert_eq!(changed_ns(-1, 0), Some(-1_000_000_000));
    assert_eq!(changed_ns(i64::MAX, 0), None);
    assert_eq!(changed_ns(i64::MIN / 1_000_000_000 - 1, 0), None);
}

#[test]
fn unsigned_bits_read_as_signed() {
    assert_eq!(signed_bits(5), 5);
    assert_eq!(signed_bits(u64::MAX), -1);
    assert_eq!(signed_bits(1 << 63), i64::MIN);
    assert_eq!(signed_bits(i64::MAX as u64), i64::MAX);
}

#[test]
fn verbatim_prefixes_are_stripped() {
    assert_eq!(strip_verbatim_prefix(r"\\?\UNC\server\share\db.mmdb"), r"\\server\share\db.mmdb");
    assert_eq!(strip_verbatim_prefix(r"\\?\C:\data\db.mmdb"), r"C:\data\db.mmdb");
    assert_eq!(strip_verbatim_prefix("/data/db.mmdb"), "/data/db.mmdb");
}

#[test]
fn distinguishes_same_size_and_mtime_replacements() {
    let old_identity = identity("/data/database.mmdb", 4096);
    let mut new_identity = old_identity.clone();
    new_identity.file_id = 77;
    new_identity.changed_ns = 3;
    assert_eq!(old_identity.size, new_identity.size);
    assert_eq!(old_identity.modified_ns, new_identity.modified_ns);
    assert!(!identity_eq(&old_identity, &new_identity));
    assert!(check_generation(&old_identity, &new_identity).is_err());
    let mut cache: ReaderCache<&str> = ReaderCache::new();
    cache.insert(old_identity.clone(), "GeoIP2-City", usize::MAX);
    assert_eq!(cache.get(&new_identity), None);
    assert_eq!(cache.get(&old_identity), Some(&"GeoIP2-City"));
}

#[test]
fn eviction_drops_the_shortest_oldest_prefix() {
    let a = identity("/a", 30);
    let b = identity("/b", 5);
    let c = identity("/c", 5);
    let d = identity("/d", 20);
    let mut cache: ReaderCache<char> = ReaderCache::new();
    cache.insert(a.clone(), 'a', 100);
    cache.insert(b.clone(), 'b', 100);
    cache.insert(c.clone(), 'c', 100);
    assert_eq!(cache.bytes(), 40);
    // 60 bytes: dropping `a` alone (30 left) is the shortest prefix within 35.
    cache.insert(d.clone(), 'd', 35);
    assert!(!cache.contains(&a));
    assert_eq!(cache.get(&b), Some(&'b'));
    assert_eq!(cache.get(&c), Some(&'c'));
    assert_eq!(cache.get(&d), Some(&'d'));
    assert_eq!(cache.bytes(), 30);
    assert_eq!(cache.len(), 3);
}

use maxminddb_polars::lookup::{
    deduplicate_offsets, default_strict, invalid_ip, scalar_chunks, use_parallel_scalar, ChunkSpan,
    LookupError, PARALLEL_SCALAR_MAX_CHUNK_ROWS, PARALLEL_SCALAR_MIN_ROWS,
};

fn span(array: usize, start: usize, end: usize) -> ChunkSpan {
    ChunkSpan { array, start, end }
}

#[test]
fn deduplicates_records_before_decoding() {
    let deduplicated = deduplicate_offsets(&vec![Some(7), Some(7)]);
    assert_eq!(deduplicated.first_rows, vec![0]);
    assert_eq!(deduplicated.rows, vec![Some(0), Some(0)]);
}

#[test]
fn distinct_records_get_positions_in_order_of_first_occurrence() {
    let deduplicated = deduplicate_offsets(&vec![Some(40), None, Some(12), Some(40), Some(5), Some(12)]);
    assert_eq!(deduplicated.first_rows, vec![0, 2, 4]);
    assert_eq!(
        deduplicated.rows,
        vec![Some(0), None, Some(1), Some(0), Some(2), Some(1)]
    );
    let empty = deduplicate_offsets(&Vec::new());
    assert!(empty.first_rows.is_empty());
    assert!(empty.rows.is_empty());
}

#[test]
fn parallel_scalar_chunks_match_deduplicated_lookup() {
    let chunks = scalar_chunks(&vec![8200]);
    assert_eq!(chunks.len(), 5);
    assert!(chunks.iter().all(|c| c.end - c.start <= PARALLEL_SCALAR_MAX_CHUNK_ROWS));
    assert_eq!(chunks[0], span(0, 0, 2048));
    assert_eq!(chunks[4], span(0, 8192, 8200));
}

#[test]
fn parallel_scalar_dispatch_preserves_unequal_input_chunks() {
    let chunks = scalar_chunks(&vec![4097, 0, 14]);
    assert_eq!(
        chunks,
        vec![span(0, 0, 2048), span(0, 2048, 4096), span(0, 4096, 4097), span(2, 0, 14)]
    );
    let total: usize = chunks.iter().map(|c| c.end - c.start).sum();
    assert_eq!(total, 4111);
}

#[test]
fn scalar_dispatch_respects_row_and_worker_thresholds() {
    assert!(!use_parallel_scalar(PARALLEL_SCALAR_MIN_ROWS - 1, 8));
    assert!(!use_parallel_scalar(PARALLEL_SCALAR_MIN_ROWS, 2));
    assert!(use_parallel_scalar(PARALLEL_SCALAR_MIN_ROWS, 3));
    assert!(use_parallel_scalar(8200, 16));
}

#[test]
fn strict_invalid_ips_error_and_non_strict_ips_become_null() {
    assert!(default_strict());
    let error = invalid_ip("not-an-ip", "GeoIP2-City", "invalid IP address syntax", true).unwrap_err();
    assert!(error.message().contains("invalid IP address"));
    assert_eq!(
        error.message(),
        "invalid IP address \"not-an-ip\" for MMDB \"GeoIP2-City\": invalid IP address syntax"
    );
    assert_eq!(invalid_ip("not-an-ip", "GeoIP2-City", "bad", false), Ok(()));
}

#[test]
fn lookup_errors_name_the_database() {
    let failed = LookupError::LookupFailed {
        ip: "1.1.1.1".to_owned(),
        database: "City".to_owned(),
        reason: "corrupt".to_owned(),
    };
    assert_eq!(failed.message(), "MMDB lookup failed for 1.1.1.1 in \"City\": corrupt");
    let decode = LookupError::DecodeFailed { database: "City".to_owned(), reason: "bad".to_owned() };
    assert_eq!(decode.message(), "could not decode MMDB value at path in \"City\": bad");
    let record = LookupError::RecordDecodeFailed { database: "City".to_owned(), reason: "bad".to_owned() };
    assert_eq!(record.message(), "could not decode MMDB record in \"City\": bad");
    let panicked = LookupError::ParserPanicked { database: "City".to_owned() };
    assert_eq!(
        panicked.message(),
        "MMDB parser panicked while reading \"City\"; the database may be corrupt"
    );
}

#[test]
fn parallel_runs_visit_the_serial_rows_in_order() {
    let lengths = vec![5000usize, 0, 3, 2048, 2049];
    let mut serial = Vec::new();
    for (array, &len) in lengths.iter().enumerate() {
        for row in 0..len {
            serial.push((array, row));
        }
    }
    let mut parallel = Vec::new();
    for chunk in scalar_chunks(&lengths) {
        for row in chunk.start..chunk.end {
            parallel.push((chunk.array, row));
        }
    }
    assert_eq!(parallel, serial);
    assert_eq!(scalar_chunks(&lengths).len(), 3 + 0 + 1 + 1 + 2);
}

#[test]
fn decoding_distinct_records_once_matches_decoding_every_row() {
    let offsets = vec![Some(5usize), None, Some(7), Some(5), Some(9), Some(7)];
    let decode = |offset: usize| offset * 10 + 1;
    let deduplicated = deduplicate_offsets(&offsets);
    let unique: Vec<Option<usize>> =
        deduplicated.first_rows.iter().map(|&row| offsets[row].map(decode)).collect();
    let gathered = maxminddb_polars::column::gather_scalars(&unique, &deduplicated.rows);
    let direct: Vec<Option<usize>> = offsets.iter().map(|offset| offset.map(decode)).collect();
    assert_eq!(gathered, direct);
    assert_eq!(unique.len(), 3);
}

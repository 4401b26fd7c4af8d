use cursor_cleaner::domain::{human_bytes, ArchiveFilter, Impact, SchemaProbe, SchemaState};

/// The formatting rule of the original program, with floating point.
fn reference(bytes: u64) -> String {
    let units = ["B", "KiB", "MiB", "GiB", "TiB"];
    let mut value = bytes as f64;
    let mut unit = 0;
    while value >= 1024.0 && unit < units.len() - 1 {
        value /= 1024.0;
        unit += 1;
    }
    if unit == 0 {
        format!("{bytes} B")
    } else {
        format!("{value:.1} {}", units[unit])
    }
}

#[test]
fn human_bytes_exact_values() {
    assert_eq!(human_bytes(0), "0 B");
    assert_eq!(human_bytes(1023), "1023 B");
    assert_eq!(human_bytes(1024), "1.0 KiB");
    assert_eq!(human_bytes(1536), "1.5 KiB");
    assert_eq!(human_bytes(1280), "1.2 KiB");
    assert_eq!(human_bytes(1024 * 1024), "1.0 MiB");
    assert_eq!(human_bytes(u64::MAX), "16777216.0 TiB");
}

#[test]
fn human_bytes_matches_floating_point_formatting() {
    let mut samples: Vec<u64> = Vec::new();
    for k in 0..64u32 {
        let p = 1u64 << k;
        samples.extend([p, p.wrapping_sub(1), p + 1, p / 2 * 3, p / 4 * 5]);
    }
    for step in [1u64, 7, 51, 103, 997, 1_000_003] {
        let mut v = 0u64;
        for _ in 0..2000 {
            samples.push(v);
            v = v.wrapping_add(step.wrapping_mul(v / 3 + 1));
        }
    }
    for a in 0..1100u64 {
        samples.push(a * 1024 / 10 + 1024);
        samples.push(a * 1024 * 1024 / 20 + 1024 * 1024);
        samples.push((a << 40) + (1 << 39));
    }
    samples.extend([u64::MAX, u64::MAX - 1, 9_007_199_254_740_993, 18_014_398_509_481_985]);
    for b in samples {
        assert_eq!(human_bytes(b), reference(b), "bytes = {b}");
    }
}

#[test]
fn archive_filter_cycles_through_three_states() {
    assert_eq!(ArchiveFilter::All.next(), ArchiveFilter::Active);
    assert_eq!(ArchiveFilter::Active.next(), ArchiveFilter::Archived);
    assert_eq!(ArchiveFilter::Archived.next(), ArchiveFilter::All);
    assert_eq!(ArchiveFilter::All.label(), "全部");
}

#[test]
fn probe_supported_only_for_verified_layout() {
    let probe = |state| SchemaProbe { state, search_version: None, state_version: None, diagnostics: Vec::new() };
    assert!(probe(SchemaState::Supported).supported());
    assert!(!probe(SchemaState::Unsupported).supported());
    assert!(!probe(SchemaState::Missing).supported());
}

#[test]
fn empty_impact_counts_nothing() {
    let i = Impact::empty();
    assert_eq!(i.conversations + i.state_rows + i.transcript_dirs + i.unknown_keys, 0);
    assert_eq!(i.transcript_bytes, 0);
}

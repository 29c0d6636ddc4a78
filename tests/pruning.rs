use monero_p2p::pruning::{DecompressedPruningSeed, PruningError, PruningSeed};

fn pruned(log_stripes: u32, stripe: u32) -> PruningSeed {
    PruningSeed::Pruned(DecompressedPruningSeed { log_stripes, stripe })
}

#[test]
fn round_trip_every_valid_seed() {
    let mut count: u32 = 2;
    while count <= 128 {
        for index in 1..=count {
            let seed = PruningSeed::validate(count, index).unwrap();
            let packed = seed.compress();
            assert_eq!(PruningSeed::decompress(packed), Ok(seed));
        }
        count *= 2;
    }
    assert_eq!(PruningSeed::decompress(PruningSeed::NotPruned.compress()), Ok(PruningSeed::NotPruned));
}

#[test]
fn compress_packs_log_and_stripe() {
    assert_eq!(pruned(3, 1).compress(), 384);
    assert_eq!(pruned(3, 8).compress(), 391);
    assert_eq!(PruningSeed::NotPruned.compress(), 0);
    assert_eq!(PruningSeed::decompress(385), Ok(pruned(3, 2)));
}

#[test]
fn validate_rejects_bad_counts_and_indices() {
    assert_eq!(PruningSeed::validate(8, 3), Ok(pruned(3, 3)));
    assert_eq!(PruningSeed::validate(6, 1), Err(PruningError::LogStripesOutOfRange));
    assert_eq!(PruningSeed::validate(1, 1), Err(PruningError::LogStripesOutOfRange));
    assert_eq!(PruningSeed::validate(256, 1), Err(PruningError::LogStripesOutOfRange));
    assert_eq!(PruningSeed::validate(8, 0), Err(PruningError::StripeOutOfRange));
    assert_eq!(PruningSeed::validate(8, 9), Err(PruningError::StripeOutOfRange));
}

#[test]
fn decompress_rejects_invalid_encodings() {
    assert_eq!(PruningSeed::decompress(0), Ok(PruningSeed::NotPruned));
    assert_eq!(PruningSeed::decompress(1024), Err(PruningError::UnusedBitsSet));
    assert_eq!(PruningSeed::decompress(5), Err(PruningError::LogStripesOutOfRange));
    // log 3 allows stripes 1..=8, so a stored stripe - 1 of 8 is out of range
    assert_eq!(PruningSeed::decompress(384 + 8), Err(PruningError::StripeOutOfRange));
}

#[test]
fn p2p_rules_allow_only_eight_stripes() {
    assert_eq!(PruningSeed::decompress_p2p_rules(384), Ok(pruned(3, 1)));
    assert_eq!(PruningSeed::decompress_p2p_rules(256), Err(PruningError::LogStripesOutOfRange));
    assert_eq!(PruningSeed::decompress(256), Ok(pruned(2, 1)));
    assert_eq!(PruningSeed::decompress_p2p_rules(0), Ok(PruningSeed::NotPruned));
}

#[test]
fn unpruned_covers_every_height() {
    for h in [0u64, 1, 4096, 1_000_000, u64::MAX] {
        assert!(PruningSeed::NotPruned.covers(h));
        assert!(PruningSeed::NotPruned.has_full_block(h, 0));
    }
}

#[test]
fn pruned_covers_own_stripe_only() {
    let seed = pruned(3, 2);
    assert!(!seed.covers(0));
    assert!(seed.covers(4096));
    assert!(seed.covers(8191));
    assert!(!seed.covers(8192));
    // the always-kept window at the top of the height range
    assert!(seed.covers(500_000_000 - 5500));
    assert!(seed.covers(u64::MAX));
}

#[test]
fn pruned_coverage_is_periodic() {
    let seed = pruned(3, 5);
    let period = 4096 * 8;
    for h in [0u64, 100, 4096 * 4, 4096 * 4 + 17, 30_000, 123_456] {
        assert_eq!(seed.covers(h), seed.covers(h + period));
        assert_eq!(seed.covers(h), seed.covers(h + 3 * period));
    }
}

#[test]
fn recent_window_is_always_kept() {
    let seed = pruned(3, 1);
    // block 4096 is in stripe 2, but within 5500 blocks of the tip
    assert!(seed.has_full_block(4096, 9000));
    assert!(!seed.has_full_block(4096, 9597));
    assert!(seed.has_full_block(4096, 9596));
}

#[test]
fn validity_check_matches_rules() {
    assert!(PruningSeed::NotPruned.is_valid());
    assert!(pruned(3, 8).is_valid());
    assert!(!pruned(3, 9).is_valid());
    assert!(!pruned(3, 0).is_valid());
    assert!(!pruned(0, 1).is_valid());
    assert!(!pruned(8, 1).is_valid());
}

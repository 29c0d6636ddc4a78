//! Pruning seeds: which heights of the chain a peer keeps in full.
use vstd::prelude::*;
use vstd::arithmetic::div_mod::lemma_mod_multiples_vanish;

verus! {

/// Number of consecutive blocks that make up one stripe of an epoch.
pub const PRUNING_STRIPE_SIZE: u64 = 4096;

/// Number of most recent blocks that every peer keeps, whatever its stripe.
pub const PRUNING_TIP_BLOCKS: u64 = 5500;

/// The height used as chain length when a seed is asked about a height alone.
pub const MAX_BLOCK_HEIGHT: u64 = 500000000;

/// The base-two logarithm of the stripe count that the peer-to-peer rules allow.
pub const P2P_LOG_STRIPES: u32 = 3;

/// Largest base-two logarithm of a stripe count that the encoding can carry.
pub const MAX_LOG_STRIPES: u32 = 7;

/// The packed encoding keeps the stripe (minus one) below this factor and the
/// logarithm of the stripe count above it.
pub const LOG_STRIPES_FACTOR: u32 = 128;

/// Every valid packed seed is below this bound.
pub const SEED_BOUND: u32 = 1024;

/// Why a pruning seed was refused.
#[derive(Debug, Clone, Copy, PartialEq, Eq, Structural)]
pub enum PruningError {
    /// The stripe count is not a power of two in the supported range.
    LogStripesOutOfRange,
    /// The stripe index is zero or larger than the stripe count.
    StripeOutOfRange,
    /// The packed form sets bits that no seed uses.
    UnusedBitsSet,
}

/// A pruned seed: the peer keeps stripe `stripe` of `2^log_stripes` stripes.
#[derive(Debug, Clone, Copy, PartialEq, Eq, Structural)]
pub struct DecompressedPruningSeed {
    pub log_stripes: u32,
    pub stripe: u32,
}

/// Which part of the chain a peer keeps.
#[derive(Debug, Clone, Copy, PartialEq, Eq, Structural)]
pub enum PruningSeed {
    /// The peer keeps every block.
    NotPruned,
    /// The peer keeps the recent blocks and one stripe of the older ones.
    Pruned(DecompressedPruningSeed),
}

pub open spec fn pow2(n: nat) -> nat
    decreases n,
{
    if n == 0 { 1 } else { 2 * pow2((n - 1) as nat) }
}

impl DecompressedPruningSeed {
    /// The stripe count `2^log_stripes`.
    pub open spec fn stripe_count_spec(self) -> nat {
        pow2(self.log_stripes as nat)
    }

    /// A pruned seed is valid when its stripe count is a power of two from 2
    /// to 128 and its stripe lies in `[1, stripe_count]`.
    pub open spec fn valid(self) -> bool {
        &&& 1 <= self.log_stripes <= MAX_LOG_STRIPES
        &&& 1 <= self.stripe <= self.stripe_count_spec()
    }

    /// The stripe that the block at `height` belongs to, in `[1, stripe_count]`.
    pub open spec fn block_stripe(self, height: int) -> int {
        (height / PRUNING_STRIPE_SIZE as int) % (self.stripe_count_spec() as int) + 1
    }

    pub open spec fn has_full_block_spec(self, height: int, blockchain_height: int) -> bool {
        height + PRUNING_TIP_BLOCKS >= blockchain_height
            || self.block_stripe(height) == self.stripe as int
    }
}

impl PruningSeed {
    pub open spec fn valid(self) -> bool {
        match self {
            PruningSeed::NotPruned => true,
            PruningSeed::Pruned(d) => d.valid(),
        }
    }

    /// Whether a peer with this seed keeps the block at `height` in full on a
    /// chain of `blockchain_height` blocks: the recent window is always kept,
    /// older blocks only in the peer's own stripe.
    pub open spec fn has_full_block_spec(self, height: int, blockchain_height: int) -> bool {
        match self {
            PruningSeed::NotPruned => true,
            PruningSeed::Pruned(d) => d.has_full_block_spec(height, blockchain_height),
        }
    }

    /// Whether the seed covers `height`, with no knowledge of the chain's length.
    pub open spec fn covers_spec(self, height: int) -> bool {
        self.has_full_block_spec(height, MAX_BLOCK_HEIGHT as int)
    }

    /// The packed form: 0 for an unpruned seed, else
    /// `log_stripes * 128 + (stripe - 1)`.
    pub open spec fn compress_spec(self) -> int {
        match self {
            PruningSeed::NotPruned => 0,
            PruningSeed::Pruned(d) => d.log_stripes * LOG_STRIPES_FACTOR + (d.stripe - 1),
        }
    }

    /// The seed that a packed value stands for, whether or not it is valid.
    pub open spec fn unpack(seed: u32) -> PruningSeed {
        if seed == 0 {
            PruningSeed::NotPruned
        } else {
            PruningSeed::Pruned(DecompressedPruningSeed {
                log_stripes: (seed / LOG_STRIPES_FACTOR) as u32,
                stripe: (seed % LOG_STRIPES_FACTOR + 1) as u32,
            })
        }
    }

    /// The result of decompressing a packed value, with the error that comes first.
    pub open spec fn decompress_spec(seed: u32) -> Result<PruningSeed, PruningError> {
        if seed >= SEED_BOUND {
            Err(PruningError::UnusedBitsSet)
        } else if seed == 0 {
            Ok(PruningSeed::NotPruned)
        } else if seed / LOG_STRIPES_FACTOR == 0 {
            Err(PruningError::LogStripesOutOfRange)
        } else if !Self::unpack(seed).valid() {
            Err(PruningError::StripeOutOfRange)
        } else {
            Ok(Self::unpack(seed))
        }
    }

    /// As `decompress_spec`, and a pruned seed must also have the stripe count
    /// that the peer-to-peer rules allow.
    pub open spec fn decompress_p2p_spec(seed: u32) -> Result<PruningSeed, PruningError> {
        match Self::decompress_spec(seed) {
            Ok(PruningSeed::Pruned(d)) => if d.log_stripes == P2P_LOG_STRIPES {
                Ok(PruningSeed::Pruned(d))
            } else {
                Err(PruningError::LogStripesOutOfRange)
            },
            r => r,
        }
    }
}


impl PruningSeed {
    /// Builds a pruned seed from a stripe count and a stripe index.
    pub fn validate(stripe_count: u32, stripe_index: u32) -> (r: Result<PruningSeed, PruningError>)
        ensures
            match r {
                Ok(seed) => {
                    &&& seed.valid()
                    &&& seed matches PruningSeed::Pruned(d)
                    &&& d.stripe_count_spec() == stripe_count
                    &&& d.stripe == stripe_index
                },
                Err(PruningError::LogStripesOutOfRange) => !exists|l: nat|
                    1 <= l <= MAX_LOG_STRIPES && #[trigger] pow2(l) == stripe_count,
                Err(PruningError::StripeOutOfRange) => {
                    &&& exists|l: nat| 1 <= l <= MAX_LOG_STRIPES && #[trigger] pow2(l) == stripe_count
                    &&& (stripe_index == 0 || stripe_index > stripe_count)
                },
                Err(PruningError::UnusedBitsSet) => false,
            },
            r is Ok <==> (exists|l: nat| 1 <= l <= MAX_LOG_STRIPES && #[trigger] pow2(l) == stripe_count)
                && 1 <= stripe_index <= stripe_count,
    {
        let mut log: u32 = 1;
        while log <= MAX_LOG_STRIPES
            invariant
                1 <= log <= MAX_LOG_STRIPES + 1,
                forall|l: nat| 1 <= l < log ==> #[trigger] pow2(l) != stripe_count,
            decreases MAX_LOG_STRIPES + 1 - log,
        {
            let count = stripe_count_of(log);
            if count == stripe_count {
                if stripe_index == 0 || stripe_index > stripe_count {
                    return Err(PruningError::StripeOutOfRange);
                }
                return Ok(PruningSeed::Pruned(DecompressedPruningSeed { log_stripes: log, stripe: stripe_index }));
            }
            log = log + 1;
        }
        Err(PruningError::LogStripesOutOfRange)
    }

    /// Whether the seed is valid: unpruned, or a stripe count that is a power
    /// of two from 2 to 128 with a stripe in range.
    pub fn is_valid(&self) -> (r: bool)
        ensures
            r == self.valid(),
    {
        match self {
            PruningSeed::NotPruned => true,
            PruningSeed::Pruned(d) => {
                if d.log_stripes < 1 || d.log_stripes > MAX_LOG_STRIPES {
                    return false;
                }
                let count = stripe_count_of(d.log_stripes);
                1 <= d.stripe && d.stripe <= count
            },
        }
    }

    /// The packed form of the seed.
    pub fn compress(&self) -> (r: u32)
        requires
            self.valid(),
        ensures
            r as int == self.compress_spec(),
            r < SEED_BOUND,
    {
        match self {
            PruningSeed::NotPruned => 0,
            PruningSeed::Pruned(d) => {
                proof {
                    lemma_pow2_le_128(d.log_stripes as nat);
                }
                d.log_stripes * LOG_STRIPES_FACTOR + (d.stripe - 1)
            },
        }
    }

    /// Reads a packed seed; any stripe count the encoding can carry is accepted.
    pub fn decompress(seed: u32) -> (r: Result<PruningSeed, PruningError>)
        ensures
            r == Self::decompress_spec(seed),
            r matches Ok(s) ==> s.valid(),
    {
        if seed >= SEED_BOUND {
            return Err(PruningError::UnusedBitsSet);
        }
        if seed == 0 {
            return Ok(PruningSeed::NotPruned);
        }
        let log = seed / LOG_STRIPES_FACTOR;
        if log == 0 {
            return Err(PruningError::LogStripesOutOfRange);
        }
        let stripe = seed % LOG_STRIPES_FACTOR + 1;
        let count = stripe_count_of(log);
        if stripe > count {
            return Err(PruningError::StripeOutOfRange);
        }
        Ok(PruningSeed::Pruned(DecompressedPruningSeed { log_stripes: log, stripe }))
    }

    /// Reads a packed seed under the peer-to-peer rules, which allow only the
    /// canonical stripe count of 8.
    pub fn decompress_p2p_rules(seed: u32) -> (r: Result<PruningSeed, PruningError>)
        ensures
            r == Self::decompress_p2p_spec(seed),
            r matches Ok(s) ==> s.valid(),
    {
        match Self::decompress(seed) {
            Ok(PruningSeed::Pruned(d)) => {
                if d.log_stripes == P2P_LOG_STRIPES {
                    Ok(PruningSeed::Pruned(d))
                } else {
                    Err(PruningError::LogStripesOutOfRange)
                }
            },
            r => r,
        }
    }

    /// Whether a peer with this seed keeps the block at `height` in full, on a
    /// chain of `blockchain_height` blocks.
    pub fn has_full_block(&self, height: u64, blockchain_height: u64) -> (r: bool)
        requires
            self.valid(),
        ensures
            r == self.has_full_block_spec(height as int, blockchain_height as int),
    {
        match self {
            PruningSeed::NotPruned => true,
            PruningSeed::Pruned(d) => {
                if blockchain_height <= PRUNING_TIP_BLOCKS || height >= blockchain_height - PRUNING_TIP_BLOCKS {
                    return true;
                }
                proof {
                    lemma_pow2_le_128(d.log_stripes as nat);
                }
                let count = stripe_count_of(d.log_stripes) as u64;
                (height / PRUNING_STRIPE_SIZE) % count + 1 == d.stripe as u64
            },
        }
    }

    /// Whether the seed covers `height`, whatever the length of the chain.
    pub fn covers(&self, height: u64) -> (r: bool)
        requires
            self.valid(),
        ensures
            r == self.covers_spec(height as int),
    {
        self.has_full_block(height, MAX_BLOCK_HEIGHT)
    }
}

/// Compressing a valid seed and decompressing it again gives the seed back.
pub proof fn lemma_decompress_compress(seed: PruningSeed)
    requires
        seed.valid(),
    ensures
        0 <= seed.compress_spec() < SEED_BOUND,
        PruningSeed::decompress_spec(seed.compress_spec() as u32) == Ok::<PruningSeed, PruningError>(seed),
{
    match seed {
        PruningSeed::NotPruned => {},
        PruningSeed::Pruned(d) => {
            lemma_pow2_le_128(d.log_stripes as nat);
            let c = seed.compress_spec();
            assert(c / 128 == d.log_stripes && c % 128 == d.stripe - 1) by (nonlinear_arith)
                requires
                    c == d.log_stripes * 128 + (d.stripe - 1),
                    1 <= d.stripe <= 128,
            ;
            assert(PruningSeed::unpack(c as u32) == seed);
        },
    }
}

/// Decompressing a packed seed that is accepted and compressing the result
/// gives the packed value back.
pub proof fn lemma_compress_decompress(seed: u32)
    requires
        PruningSeed::decompress_spec(seed) is Ok,
    ensures
        PruningSeed::decompress_spec(seed) matches Ok(s) && s.valid() && s.compress_spec() == seed,
{
    if seed != 0 {
        let l = seed / 128;
        let m = seed % 128;
        assert(seed == l * 128 + m) by (nonlinear_arith)
            requires
                l == seed / 128,
                m == seed % 128,
        ;
    }
}

/// An unpruned seed covers every height, on a chain of any length.
pub proof fn lemma_not_pruned_covers_all(height: int, blockchain_height: int)
    ensures
        PruningSeed::NotPruned.covers_spec(height),
        PruningSeed::NotPruned.has_full_block_spec(height, blockchain_height),
{
}

/// Outside the recent window, coverage by a pruned seed repeats every
/// `PRUNING_STRIPE_SIZE * stripe_count` heights.
pub proof fn lemma_covers_periodic(seed: PruningSeed, height: int, k: int)
    requires
        seed.valid(),
        height >= 0,
        k >= 0,
        seed matches PruningSeed::Pruned(d)
            && height + k * PRUNING_STRIPE_SIZE * d.stripe_count_spec() + PRUNING_TIP_BLOCKS < MAX_BLOCK_HEIGHT,
    ensures
        seed matches PruningSeed::Pruned(d)
            && seed.covers_spec(height) == seed.covers_spec(
                height + k * PRUNING_STRIPE_SIZE * d.stripe_count_spec(),
            ),
{
    let d = seed->Pruned_0;
    let n = d.stripe_count_spec() as int;
    lemma_pow2_le_128(d.log_stripes as nat);
    let q = height / 4096;
    let h2 = height + k * 4096 * n;
    assert(h2 / 4096 == q + k * n) by (nonlinear_arith)
        requires
            h2 == height + k * 4096 * n,
            q == height / 4096,
            height >= 0,
            k >= 0,
    ;
    assert((q + k * n) % n == q % n) by {
        lemma_mod_multiples_vanish(k, q, n);
        assert(k * n + q == q + k * n) by (nonlinear_arith);
    }
}

/// Computes `2^log` for a logarithm in the supported range.
pub fn stripe_count_of(log: u32) -> (r: u32)
    requires
        log <= MAX_LOG_STRIPES,
    ensures
        r as nat == pow2(log as nat),
{
    let mut r: u32 = 1;
    let mut i: u32 = 0;
    while i < log
        invariant
            i <= log <= MAX_LOG_STRIPES,
            r as nat == pow2(i as nat),
            r <= 128,
        decreases log - i,
    {
        proof {
            lemma_pow2_le_128(i as nat + 1);
        }
        r = r * 2;
        i = i + 1;
    }
    r
}

proof fn lemma_pow2_le_128(n: nat)
    requires
        n <= 7,
    ensures
        pow2(n) <= 128,
        pow2(n) >= 1,
{
    reveal_with_fuel(pow2, 8);
}

} // verus!

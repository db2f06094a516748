//! Where a fused mixture-of-experts kernel's routed demand comes from.
//!
//! A grouped matrix product is billed by the rows of the busiest rank and by how
//! many of its expert groups are non-empty. Every demand source therefore comes
//! down to one folded histogram of rows per expert for a given token count.

use crate::sweep::{chained, Axis};
use vstd::prelude::*;

verus! {

/// The seed that every demand source folds at, so that a profiled shape is reproducible.
pub const FOLD_SEED: u64 = 0xF01D_5EED;

/// A recorded corpus of token routes, bound to one verify width and layer range.
#[derive(Clone, Debug, PartialEq, Eq, Hash)]
pub struct TokenCorpusConfig {
    pub data_file: String,
    pub checksum_fnv1a64: u64,
    pub num_experts: usize,
    pub group_size: u32,
    pub seed: u64,
    pub first_layer: usize,
    pub end_layer: usize,
    pub sampling_candidates: u32,
}

/// A source of routed demand.
#[derive(Clone, Debug, PartialEq, Eq, Hash)]
pub enum ExpertDemand {
    /// Resample a per-layer share of tokens per expert, in parts per million.
    Popularity { layerwise_global_ppm: Vec<Vec<u32>> },
    /// Sample recorded routes in contiguous groups of the verify width.
    Corpus(TokenCorpusConfig),
}

/// The first `count` multiples of `size`.
pub open spec fn multiples(size: nat, count: nat) -> Seq<u32> {
    Seq::new(count, |i: int| (size * (i + 1)) as u32)
}

impl ExpertDemand {
    /// A source over the given shares, one list per modelled layer.
    pub fn popularity(layerwise_ppm: Vec<Vec<u32>>) -> (r: Self)
        ensures
            r == (ExpertDemand::Popularity { layerwise_global_ppm: layerwise_ppm }),
            r.seed() == FOLD_SEED,
    {
        ExpertDemand::Popularity { layerwise_global_ppm: layerwise_ppm }
    }

    /// A source at one layer's resolution, over the layer-summed shares.
    pub fn popularity_summed(ppm: Vec<u32>) -> (r: Self)
        ensures
            r matches ExpertDemand::Popularity { layerwise_global_ppm: layers } && layers@
                == seq![ppm],
            r.seed() == FOLD_SEED,
    {
        ExpertDemand::Popularity { layerwise_global_ppm: vec![ppm] }
    }

    /// A source over a recorded corpus, bound to the seed that all sources share.
    pub fn corpus(config: TokenCorpusConfig) -> (r: Self)
        ensures
            r == ExpertDemand::Corpus((TokenCorpusConfig { seed: FOLD_SEED, ..config })),
            r.seed() == FOLD_SEED,
    {
        let mut bound: TokenCorpusConfig = config;
        bound.seed = FOLD_SEED;
        ExpertDemand::Corpus(bound)
    }

    /// The seed that the source is sampled at.
    pub open spec fn seed(&self) -> u64 {
        match *self {
            ExpertDemand::Popularity { .. } => FOLD_SEED,
            ExpertDemand::Corpus(config) => config.seed,
        }
    }

    /// The seed that the source is sampled at.
    pub fn fold_seed(&self) -> (r: u64)
        ensures
            r == self.seed(),
    {
        match self {
            ExpertDemand::Popularity { .. } => FOLD_SEED,
            ExpertDemand::Corpus(config) => config.seed,
        }
    }

    /// Over how many experts the source makes histograms.
    pub open spec fn experts(&self) -> nat {
        match *self {
            ExpertDemand::Popularity { layerwise_global_ppm } => {
                if layerwise_global_ppm@.len() == 0 {
                    0
                } else {
                    layerwise_global_ppm@[0]@.len()
                }
            },
            ExpertDemand::Corpus(config) => config.num_experts as nat,
        }
    }

    /// Over how many experts the source makes histograms.
    pub fn num_experts(&self) -> (r: usize)
        ensures
            r == self.experts(),
    {
        match self {
            ExpertDemand::Popularity { layerwise_global_ppm } => {
                if layerwise_global_ppm.len() == 0 {
                    0
                } else {
                    layerwise_global_ppm[0].len()
                }
            },
            ExpertDemand::Corpus(config) => config.num_experts,
        }
    }

    /// The sweep points that the source asks for besides a kernel's own: a corpus
    /// adds the first eight multiples of its verify width.
    pub open spec fn axis(&self, base: Seq<u32>) -> Seq<u32> {
        match *self {
            ExpertDemand::Popularity { .. } => base,
            ExpertDemand::Corpus(config) => chained(base, multiples(config.group_size as nat, 8)),
        }
    }

    /// Whether every sweep point of the source is in range.
    pub open spec fn axis_fits(&self) -> bool {
        match *self {
            ExpertDemand::Popularity { .. } => true,
            ExpertDemand::Corpus(config) => config.group_size * 8 <= u32::MAX,
        }
    }

    /// Whether the extended axis fits 32-bit token counts.
    pub fn has_axis(&self) -> (r: bool)
        ensures
            r == self.axis_fits(),
    {
        match self {
            ExpertDemand::Popularity { .. } => true,
            ExpertDemand::Corpus(config) => config.group_size <= u32::MAX / 8,
        }
    }

    /// A kernel's token axis extended by the shapes that the source makes reachable.
    pub fn token_axis(&self, base: Vec<u32>) -> (r: Vec<u32>)
        requires
            self.axis_fits(),
        ensures
            r@ == self.axis(base@),
    {
        match self {
            ExpertDemand::Popularity { .. } => base,
            ExpertDemand::Corpus(config) => {
                let size: u32 = config.group_size;
                let mut more: Vec<u32> = Vec::new();
                let mut i: u32 = 1;
                while i <= 8
                    invariant
                        1 <= i <= 9,
                        size * 8 <= u32::MAX,
                        more@.len() == i - 1,
                        forall|j: int| 0 <= j < more@.len() ==> more@[j] == (size * (j + 1)) as u32,
                    decreases 9 - i,
                {
                    assert(size * i <= size * 8) by (nonlinear_arith)
                        requires
                            i <= 8,
                    ;
                    more.push(size * i);
                    i += 1;
                }
                assert(more@ =~= multiples(size as nat, 8));
                Axis::chain(base, &more)
            },
        }
    }
}

/// The folded histogram of one sampled batch.
#[derive(Clone, Debug, PartialEq, Eq)]
pub struct Fold {
    pub top_k: u32,
    pub num_tokens: u32,
    pub experts_per_rank: usize,
    /// Rows per expert, the busiest rank first.
    pub counts: Vec<u32>,
}

/// A demand source with its histograms resolved for every shape of a sweep.
#[derive(Clone, Debug, PartialEq, Eq)]
pub struct PreparedDemand {
    folds: Vec<Fold>,
}

/// `counts` with its first `offset` entries moved to the end.
pub open spec fn rotated(counts: Seq<u32>, offset: int) -> Seq<u32> {
    counts.skip(offset) + counts.take(offset)
}

/// Sum of all counts.
pub open spec fn total(counts: Seq<u32>) -> int
    decreases counts.len(),
{
    if counts.len() == 0 {
        0
    } else {
        total(counts.drop_last()) + counts.last()
    }
}

pub proof fn total_not_negative(counts: Seq<u32>)
    ensures
        total(counts) >= 0,
    decreases counts.len(),
{
    if counts.len() > 0 {
        total_not_negative(counts.drop_last());
    }
}

/// The sum of counts is no more than as many of the largest would make.
pub proof fn total_in_range(counts: Seq<u32>)
    ensures
        0 <= total(counts) <= counts.len() * u32::MAX,
    decreases counts.len(),
{
    if counts.len() > 0 {
        total_in_range(counts.drop_last());
    }
}

/// The sum of two lists of counts one after the other.
pub proof fn total_of_joined(a: Seq<u32>, b: Seq<u32>)
    ensures
        total(a + b) == total(a) + total(b),
    decreases b.len(),
{
    if b.len() == 0 {
        assert(a + b =~= a);
    } else {
        total_of_joined(a, b.drop_last());
        assert((a + b).drop_last() =~= a + b.drop_last());
    }
}

/// Rotating keeps every routed row, and puts the chosen rank's experts first.
pub proof fn rotation_keeps_rows(counts: Seq<u32>, offset: int)
    requires
        0 <= offset <= counts.len(),
    ensures
        rotated(counts, offset).len() == counts.len(),
        total(rotated(counts, offset)) == total(counts),
        rotated(counts, offset).to_multiset() == counts.to_multiset(),
        forall|i: int|
            0 <= i < counts.len() - offset ==> #[trigger] rotated(counts, offset)[i] == counts[offset
                + i],
{
    broadcast use vstd::seq_lib::group_to_multiset_ensures;

    let head = counts.take(offset);
    let tail = counts.skip(offset);
    assert(head + tail =~= counts);
    total_of_joined(tail, head);
    total_of_joined(head, tail);
    vstd::seq_lib::lemma_multiset_commutative(head, tail);
    vstd::seq_lib::lemma_multiset_commutative(tail, head);
    assert(rotated(counts, offset).to_multiset() =~= counts.to_multiset());
}

impl PreparedDemand {
    /// The histogram resolved for a shape: that of the first matching entry.
    pub closed spec fn fold_of(
        &self,
        top_k: u32,
        num_tokens: u32,
        experts_per_rank: usize,
    ) -> Option<Seq<u32>> {
        first_match(self.folds@, top_k, num_tokens, experts_per_rank)
    }

    /// A source with the given histograms resolved.
    pub fn prepare(folds: Vec<Fold>) -> (r: Self)
        ensures
            forall|k: u32, n: u32, e: usize| #[trigger]
                r.fold_of(k, n, e) == first_match(folds@, k, n, e),
    {
        PreparedDemand { folds }
    }

    /// The complete folded histogram for a shape, if it was resolved.
    pub fn sample_and_fold(
        &self,
        top_k: u32,
        num_tokens: u32,
        experts_per_rank: usize,
    ) -> (r: Option<&Vec<u32>>)
        ensures
            match r {
                Some(counts) => self.fold_of(top_k, num_tokens, experts_per_rank) == Some(counts@),
                None => self.fold_of(top_k, num_tokens, experts_per_rank) is None,
            },
    {
        let mut i: usize = 0;
        assert(self.folds@.skip(0) =~= self.folds@);
        while i < self.folds.len()
            invariant
                i <= self.folds@.len(),
                first_match(self.folds@, top_k, num_tokens, experts_per_rank) == first_match(
                    self.folds@.skip(i as int),
                    top_k,
                    num_tokens,
                    experts_per_rank,
                ),
            decreases self.folds@.len() - i,
        {
            let fold = &self.folds[i];
            assert(self.folds@.skip(i as int)[0] == *fold);
            assert(self.folds@.skip(i as int).drop_first() =~= self.folds@.skip(i + 1));
            if fold.top_k == top_k && fold.num_tokens == num_tokens && fold.experts_per_rank
                == experts_per_rank {
                return Some(&fold.counts);
            }
            i += 1;
        }
        None
    }

    /// The rows per expert that a profiler receives: the folded histogram rotated
    /// so that the experts of rank `folded_rank_position` come first.
    pub fn per_expert_batches(
        &self,
        top_k: u32,
        num_tokens: u32,
        num_experts: usize,
        num_local_experts: usize,
        folded_rank_position: u32,
    ) -> (r: Option<Vec<u32>>)
        requires
            num_local_experts > 0,
            num_experts as int % num_local_experts as int == 0,
            folded_rank_position * num_local_experts + num_local_experts <= num_experts,
            self.fold_of(top_k, num_tokens, num_local_experts) matches Some(counts)
                ==> counts.len() == num_experts,
        ensures
            match self.fold_of(top_k, num_tokens, num_local_experts) {
                Some(counts) => r is Some && r->0@ == rotated(
                    counts,
                    folded_rank_position * num_local_experts,
                ),
                None => r is None,
            },
    {
        let counts = match self.sample_and_fold(top_k, num_tokens, num_local_experts) {
            Some(counts) => counts,
            None => {
                return None;
            },
        };
        proof {
            assert(folded_rank_position <= usize::MAX) by (nonlinear_arith)
                requires
                    folded_rank_position * num_local_experts <= num_experts,
                    num_local_experts > 0,
            ;
        }
        let offset: usize = folded_rank_position as usize * num_local_experts;
        let mut out: Vec<u32> = Vec::new();
        let mut i: usize = offset;
        while i < counts.len()
            invariant
                offset <= i <= counts@.len(),
                out@ == counts@.subrange(offset as int, i as int),
            decreases counts@.len() - i,
        {
            out.push(counts[i]);
            i += 1;
            assert(out@ =~= counts@.subrange(offset as int, i as int));
        }
        assert(out@ =~= counts@.skip(offset as int) + counts@.take(0));
        let mut j: usize = 0;
        while j < offset
            invariant
                j <= offset <= counts@.len(),
                out@ == counts@.skip(offset as int) + counts@.take(j as int),
            decreases offset - j,
        {
            out.push(counts[j]);
            j += 1;
            assert(out@ =~= counts@.skip(offset as int) + counts@.take(j as int));
        }
        Some(out)
    }
}

/// The counts of the first entry for a shape.
pub open spec fn first_match(
    folds: Seq<Fold>,
    top_k: u32,
    num_tokens: u32,
    experts_per_rank: usize,
) -> Option<Seq<u32>>
    decreases folds.len(),
{
    if folds.len() == 0 {
        None
    } else if folds[0].top_k == top_k && folds[0].num_tokens == num_tokens
        && folds[0].experts_per_rank == experts_per_rank {
        Some(folds[0].counts@)
    } else {
        first_match(folds.drop_first(), top_k, num_tokens, experts_per_rank)
    }
}

/// Whether a histogram was resolved for a shape.
pub open spec fn is_for(fold: Fold, top_k: u32, num_tokens: u32, experts_per_rank: usize) -> bool {
    fold.top_k == top_k && fold.num_tokens == num_tokens && fold.experts_per_rank
        == experts_per_rank
}

/// A lookup finds the first histogram that was resolved for the shape, and nothing only
/// where none was.
pub proof fn first_match_finds(
    folds: Seq<Fold>,
    top_k: u32,
    num_tokens: u32,
    experts_per_rank: usize,
)
    ensures
        match first_match(folds, top_k, num_tokens, experts_per_rank) {
            Some(counts) => exists|i: int|
                0 <= i < folds.len() && #[trigger] is_for(
                    folds[i],
                    top_k,
                    num_tokens,
                    experts_per_rank,
                ) && counts == folds[i].counts@ && forall|j: int|
                    0 <= j < i ==> !#[trigger] is_for(
                        folds[j],
                        top_k,
                        num_tokens,
                        experts_per_rank,
                    ),
            None => forall|j: int|
                0 <= j < folds.len() ==> !#[trigger] is_for(
                    folds[j],
                    top_k,
                    num_tokens,
                    experts_per_rank,
                ),
        },
    decreases folds.len(),
{
    if folds.len() > 0 {
        if is_for(folds[0], top_k, num_tokens, experts_per_rank) {
        } else {
            let rest = folds.drop_first();
            first_match_finds(rest, top_k, num_tokens, experts_per_rank);
            if first_match(folds, top_k, num_tokens, experts_per_rank) is Some {
                let i = choose|i: int|
                    0 <= i < rest.len() && #[trigger] is_for(
                        rest[i],
                        top_k,
                        num_tokens,
                        experts_per_rank,
                    ) && first_match(rest, top_k, num_tokens, experts_per_rank)->0
                        == rest[i].counts@ && forall|j: int|
                        0 <= j < i ==> !#[trigger] is_for(
                            rest[j],
                            top_k,
                            num_tokens,
                            experts_per_rank,
                        );
                assert(rest[i] == folds[i + 1]);
                assert(is_for(folds[i + 1], top_k, num_tokens, experts_per_rank));
                assert forall|j: int| 0 <= j < i + 1 implies !#[trigger] is_for(
                    folds[j],
                    top_k,
                    num_tokens,
                    experts_per_rank,
                ) by {
                    if j > 0 {
                        assert(rest[j - 1] == folds[j]);
                    }
                }
            } else {
                assert forall|j: int| 0 <= j < folds.len() implies !#[trigger] is_for(
                    folds[j],
                    top_k,
                    num_tokens,
                    experts_per_rank,
                ) by {
                    if j > 0 {
                        assert(rest[j - 1] == folds[j]);
                    }
                }
            }
        }
    }
}

} // verus!

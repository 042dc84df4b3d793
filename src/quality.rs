//! Per-genome quality records and the checks run before any pair is evaluated.
use vstd::prelude::*;

verus! {

/// Basis points that stand for a whole genome (100.00 %).
pub const FULL_BASIS_POINTS: u16 = 10000;

/// Quality of one assembly, in hundredths of a percent (basis points),
/// the precision at which CheckM reports it.
#[derive(Clone, Copy, Debug, PartialEq, Eq, Structural)]
pub struct GenomeQuality {
    /// Estimated share of the expected genome content that is present.
    pub completeness_bp: u16,
    /// Estimated share of foreign content; may exceed 100 %.
    pub contamination_bp: u32,
}

impl GenomeQuality {
    pub fn new(completeness_bp: u16, contamination_bp: u32) -> (r: GenomeQuality)
        ensures
            r.completeness_bp == completeness_bp,
            r.contamination_bp == contamination_bp,
    {
        GenomeQuality { completeness_bp, contamination_bp }
    }
}

/// Why a run cannot go on.
#[derive(Clone, Copy, Debug, PartialEq, Eq, Structural)]
pub enum ConfigError {
    /// The genome list, the sketches and the quality records differ in length.
    LengthMismatch { genomes: usize, sketches: usize, qualities: usize },
    /// The genome at `index` has a completeness of zero, which the correction divides by.
    ZeroCompleteness { index: usize },
    /// The sketches of the two genomes could not be compared.
    IncompatibleSketches { first: usize, second: usize },
}

/// The inputs may be evaluated: the three lengths agree and no completeness is zero.
pub open spec fn inputs_valid(genomes: nat, sketches: nat, qualities: Seq<GenomeQuality>) -> bool {
    &&& genomes == sketches
    &&& sketches == qualities.len()
    &&& forall|k: int| 0 <= k < qualities.len() ==> #[trigger] qualities[k].completeness_bp != 0
}

/// `e` is the error that invalid inputs are reported with: a length mismatch
/// first, else the first genome whose completeness is zero.
pub open spec fn inputs_error(
    genomes: nat,
    sketches: nat,
    qualities: Seq<GenomeQuality>,
    e: ConfigError,
) -> bool {
    match e {
        ConfigError::LengthMismatch { genomes: g, sketches: s, qualities: q } => {
            &&& g == genomes
            &&& s == sketches
            &&& q == qualities.len()
            &&& !(genomes == sketches && sketches == qualities.len())
        },
        ConfigError::ZeroCompleteness { index } => {
            &&& genomes == sketches
            &&& sketches == qualities.len()
            &&& index < qualities.len()
            &&& qualities[index as int].completeness_bp == 0
            &&& forall|m: int| 0 <= m < index ==> #[trigger] qualities[m].completeness_bp != 0
        },
        ConfigError::IncompatibleSketches { .. } => false,
    }
}

/// Checks the configuration of a run before any pair is evaluated.
pub fn check_inputs(genomes: usize, sketches: usize, qualities: &Vec<GenomeQuality>) -> (r: Result<
    (),
    ConfigError,
>)
    ensures
        r is Ok <==> inputs_valid(genomes as nat, sketches as nat, qualities@),
        r matches Err(e) ==> inputs_error(genomes as nat, sketches as nat, qualities@, e),
{
    if genomes != sketches || sketches != qualities.len() {
        return Err(
            ConfigError::LengthMismatch { genomes, sketches, qualities: qualities.len() },
        );
    }
    let mut k: usize = 0;
    while k < qualities.len()
        invariant
            genomes == sketches,
            sketches == qualities.len(),
            k <= qualities.len(),
            forall|m: int| 0 <= m < k ==> #[trigger] qualities@[m].completeness_bp != 0,
        decreases qualities.len() - k,
    {
        if qualities[k].completeness_bp == 0 {
            return Err(ConfigError::ZeroCompleteness { index: k });
        }
        k += 1;
    }
    Ok(())
}

} // verus!

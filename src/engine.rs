//! The all-pairs evaluation: each pair of genomes is compared once through
//! its sketches, and the raw overlap is corrected for both genomes' quality.
use vstd::prelude::*;

use finch::serialization::{Sketch, SketchDistance};
use finch::sketch_schemes::SketchParams;

use crate::correction::{
    corrected_jaccard, corrected_jaccard_spec, survival_ratio, survival_ratio_spec, Fraction,
};
use crate::pairs::{all_pairs_spec, pairs_before, row_pairs_spec};
use crate::quality::{check_inputs, inputs_error, inputs_valid, ConfigError, GenomeQuality};

verus! {

#[verifier::external_type_specification]
#[verifier::external_body]
pub struct ExSketch(Sketch);

#[verifier::external_type_specification]
#[verifier::external_body]
pub struct ExSketchDistance(SketchDistance);

/// Whether finch judges the parameters of two sketches compatible.
pub uninterp spec fn compatible_of(a: Sketch, b: Sketch) -> bool;

/// Whether a sketch was built with scaled parameters.
pub uninterp spec fn scaled_of(s: Sketch) -> bool;

/// The hash values of a sketch, in the order in which it holds them.
pub uninterp spec fn hashes_of(s: Sketch) -> Seq<u64>;

/// The length of the sequence that a sketch was built from.
pub uninterp spec fn seq_length_of(s: Sketch) -> u64;

/// The shared and the total hash counts of a comparison of two sketches.
pub uninterp spec fn counts_of(a: Sketch, b: Sketch) -> (u64, u64);

/// Hashes in non-decreasing order, as the comparison's merge expects them.
pub open spec fn sorted_hashes(h: Seq<u64>) -> bool {
    forall|k: int| 0 < k < h.len() ==> h[k - 1] <= #[trigger] h[k]
}

/// Two sketches can be compared: their parameters are compatible, not both
/// are scaled, and each holds its hashes in order.
pub open spec fn comparable(a: Sketch, b: Sketch) -> bool {
    &&& compatible_of(a, b)
    &&& !(scaled_of(a) && scaled_of(b))
    &&& sorted_hashes(hashes_of(a))
    &&& sorted_hashes(hashes_of(b))
}

/// Every pair of sketches in `s` can be compared.
pub open spec fn all_comparable(s: Seq<Sketch>) -> bool {
    forall|a: int, b: int| 0 <= a < b < s.len() ==> #[trigger] comparable(s[a], s[b])
}

/// What a sketch comparison reports: the shared and the total hash counts,
/// and finch's own record, which also carries the Mash distance.
pub struct RawDistance {
    pub common_hashes: u64,
    pub total_hashes: u64,
    pub detail: SketchDistance,
}

/// Relies on `finch::distance::distance` in its default mode (`old_mode`
/// false), which returns `Ok` on every path. It merges the two hash lists:
/// every shared hash is counted once in `common_hashes` and once among the
/// `total_hashes` of the union, so the first never exceeds the second, and
/// swapping the sketches swaps the roles in the merge but not the counts.
/// It divides by a scale only where both sketches are scaled, and asserts
/// (in debug builds) that the hashes are sorted: both are left out here.
#[verifier::external_body]
fn compare_sketches(a: &Sketch, b: &Sketch) -> (r: Result<RawDistance, &'static str>)
    requires
        !(scaled_of(*a) && scaled_of(*b)),
        sorted_hashes(hashes_of(*a)),
        sorted_hashes(hashes_of(*b)),
    ensures
        r is Ok,
        r matches Ok(d) ==> d.common_hashes <= d.total_hashes,
        r matches Ok(d) ==> (d.common_hashes, d.total_hashes) == counts_of(*a, *b),
        r matches Ok(d) ==> (d.common_hashes, d.total_hashes) == counts_of(*b, *a),
{
    match finch::distance::distance(a, b, false) {
        Ok(d) => Ok(
            RawDistance { common_hashes: d.common_hashes, total_hashes: d.total_hashes, detail: d },
        ),
        Err(e) => Err(e),
    }
}

/// Relies on `finch::sketch_schemes::SketchParams::check_compatibility`:
/// true when the two sketches agree in k-mer length, hash type, hash width and
/// hash seed, so that their hashes can be compared.
#[verifier::external_body]
fn sketches_compatible(a: &Sketch, b: &Sketch) -> (r: bool)
    ensures
        r == compatible_of(*a, *b),
{
    a.sketch_params.check_compatibility(&b.sketch_params).is_none()
}

/// Relies on the `Scaled` variant of finch's `SketchParams`.
#[verifier::external_body]
fn is_scaled(s: &Sketch) -> (r: bool)
    ensures
        r == scaled_of(*s),
{
    match s.sketch_params {
        SketchParams::Scaled { .. } => true,
        _ => false,
    }
}

/// Relies on the `hashes` field of finch's `Sketch`, each entry's `hash`.
#[verifier::external_body]
fn sketch_hashes(s: &Sketch) -> (r: Vec<u64>)
    ensures
        r@ == hashes_of(*s),
{
    s.hashes.iter().map(|k| k.hash).collect()
}

/// Relies on the `seq_length` field of finch's `Sketch`: the length of the
/// sequence that was sketched.
#[verifier::external_body]
fn sketch_length(s: &Sketch) -> (r: u64)
    ensures
        r == seq_length_of(*s),
{
    s.seq_length
}

fn hashes_sorted(h: &Vec<u64>) -> (r: bool)
    ensures
        r == sorted_hashes(h@),
{
    let mut k: usize = 1;
    while k < h.len()
        invariant
            1 <= k,
            forall|m: int| 0 < m < k && m < h.len() ==> h@[m - 1] <= #[trigger] h@[m],
        decreases h.len() - k,
    {
        if h[k - 1] > h[k] {
            return false;
        }
        k += 1;
    }
    true
}

fn sketch_sorted(s: &Sketch) -> (r: bool)
    ensures
        r == sorted_hashes(hashes_of(*s)),
{
    hashes_sorted(&sketch_hashes(s))
}

/// Checks, before any pair is evaluated, that every pair of sketches can be
/// compared; the first pair that cannot, in evaluation order, is reported.
pub fn check_sketches(sketches: &Vec<Sketch>) -> (r: Result<(), ConfigError>)
    ensures
        r is Ok <==> all_comparable(sketches@),
        r matches Err(e) ==> e matches ConfigError::IncompatibleSketches { first, second } && first
            < second < sketches.len() && !comparable(sketches@[first as int], sketches@[second as int]),
{
    let n = sketches.len();
    let mut sorted: Vec<bool> = Vec::new();
    let mut k: usize = 0;
    while k < n
        invariant
            k <= n,
            n == sketches.len(),
            sorted.len() == k,
            forall|m: int| 0 <= m < k ==> #[trigger] sorted@[m] == sorted_hashes(hashes_of(sketches@[m])),
        decreases n - k,
    {
        sorted.push(sketch_sorted(&sketches[k]));
        k += 1;
    }
    let mut a: usize = 0;
    while a < n
        invariant
            a <= n,
            n == sketches.len(),
            sorted.len() == n,
            forall|m: int| 0 <= m < n ==> #[trigger] sorted@[m] == sorted_hashes(hashes_of(sketches@[m])),
            forall|x: int, y: int| 0 <= x < a && x < y < n ==> #[trigger] comparable(sketches@[x], sketches@[y]),
        decreases n - a,
    {
        let mut b: usize = a + 1;
        while b < n
            invariant
                a < n,
                a < b <= n,
                n == sketches.len(),
                sorted.len() == n,
                forall|m: int| 0 <= m < n ==> #[trigger] sorted@[m] == sorted_hashes(hashes_of(sketches@[m])),
                forall|x: int, y: int| 0 <= x < a && x < y < n ==> #[trigger] comparable(sketches@[x], sketches@[y]),
                forall|y: int| a < y < b ==> #[trigger] comparable(sketches@[a as int], sketches@[y]),
            decreases n - b,
        {
            let ok = sketches_compatible(&sketches[a], &sketches[b]) && !(is_scaled(&sketches[a])
                && is_scaled(&sketches[b])) && sorted[a] && sorted[b];
            if !ok {
                assert(!comparable(sketches@[a as int], sketches@[b as int]));
                return Err(ConfigError::IncompatibleSketches { first: a, second: b });
            }
            b += 1;
        }
        a += 1;
    }
    Ok(())
}

/// One evaluated pair of genomes `first < second`.
pub struct PairRecord {
    pub first: usize,
    pub second: usize,
    pub first_length: u64,
    pub second_length: u64,
    pub first_quality: GenomeQuality,
    pub second_quality: GenomeQuality,
    pub common_hashes: u64,
    pub total_hashes: u64,
    /// The overlap corrected for the completeness of both genomes.
    pub corrected: Fraction,
    /// `2J / (1 + J)` of the corrected overlap `J`.
    pub survival: Fraction,
    /// finch's comparison of the two sketches.
    pub raw: SketchDistance,
}

impl PairRecord {
    /// The record describes the pair `(i, j)` of genomes with the given
    /// sketches and quality records, and its corrected values follow from the
    /// comparison's hash counts, which do not depend on the order of the two.
    pub open spec fn describes(
        &self,
        i: int,
        j: int,
        sketches: Seq<Sketch>,
        qualities: Seq<GenomeQuality>,
    ) -> bool {
        &&& self.first == i
        &&& self.second == j
        &&& self.first_length == seq_length_of(sketches[i])
        &&& self.second_length == seq_length_of(sketches[j])
        &&& self.first_quality == qualities[i]
        &&& self.second_quality == qualities[j]
        &&& (self.common_hashes, self.total_hashes) == counts_of(sketches[i], sketches[j])
        &&& (self.common_hashes, self.total_hashes) == counts_of(sketches[j], sketches[i])
        &&& self.common_hashes <= self.total_hashes
        &&& self.corrected == corrected_jaccard_spec(
            self.common_hashes,
            self.total_hashes,
            qualities[i],
            qualities[j],
        )
        &&& self.survival == survival_ratio_spec(self.corrected)
    }
}

/// The records stand for the pairs of `pairs`, in the same order.
pub open spec fn records_match(
    records: Seq<PairRecord>,
    pairs: Seq<(int, int)>,
    sketches: Seq<Sketch>,
    qualities: Seq<GenomeQuality>,
) -> bool {
    &&& records.len() == pairs.len()
    &&& forall|t: int|
        0 <= t < records.len() ==> #[trigger] records[t].describes(
            pairs[t].0,
            pairs[t].1,
            sketches,
            qualities,
        )
}

/// Evaluating genomes A and B gives the same counts, the same corrected
/// overlap and the same survival ratio as evaluating B and A.
pub proof fn lemma_pair_symmetric(
    ab: PairRecord,
    ba: PairRecord,
    a: Sketch,
    b: Sketch,
    qa: GenomeQuality,
    qb: GenomeQuality,
)
    requires
        ab.describes(0, 1, seq![a, b], seq![qa, qb]),
        ba.describes(0, 1, seq![b, a], seq![qb, qa]),
    ensures
        ab.common_hashes == ba.common_hashes,
        ab.total_hashes == ba.total_hashes,
        ab.corrected == ba.corrected,
        ab.survival == ba.survival,
{
    assert(seq![a, b][0] == a && seq![a, b][1] == b);
    assert(seq![b, a][0] == b && seq![b, a][1] == a);
    assert(seq![qa, qb][0] == qa && seq![qb, qa][0] == qb);
    assert(seq![qa, qb][1] == qb && seq![qb, qa][1] == qa);
    crate::correction::lemma_corrected_symmetric(ab.common_hashes, ab.total_hashes, qa, qb);
}

fn pair_comparable(a: &Sketch, b: &Sketch) -> (r: bool)
    ensures
        r == comparable(*a, *b),
{
    sketches_compatible(a, b) && !(is_scaled(a) && is_scaled(b)) && sketch_sorted(a)
        && sketch_sorted(b)
}

/// Compares genomes `i` and `j` and corrects their overlap for quality.
/// Sketches that cannot be compared are an error, not a pair.
pub fn evaluate_pair(
    i: usize,
    j: usize,
    sketches: &Vec<Sketch>,
    qualities: &Vec<GenomeQuality>,
) -> (r: Result<PairRecord, ConfigError>)
    requires
        i < j < sketches.len(),
        sketches.len() == qualities.len(),
        qualities@[i as int].completeness_bp != 0,
        qualities@[j as int].completeness_bp != 0,
    ensures
        r is Ok <==> comparable(sketches@[i as int], sketches@[j as int]),
        r matches Ok(rec) ==> rec.describes(i as int, j as int, sketches@, qualities@),
        r matches Err(e) ==> e == (ConfigError::IncompatibleSketches { first: i, second: j }),
{
    if !pair_comparable(&sketches[i], &sketches[j]) {
        return Err(ConfigError::IncompatibleSketches { first: i, second: j });
    }
    let d = compare_sketches(&sketches[i], &sketches[j]).unwrap();
    let qa = qualities[i];
    let qb = qualities[j];
    let corrected = corrected_jaccard(d.common_hashes, d.total_hashes, &qa, &qb);
    let survival = survival_ratio(corrected);
    Ok(
        PairRecord {
            first: i,
            second: j,
            first_length: sketch_length(&sketches[i]),
            second_length: sketch_length(&sketches[j]),
            first_quality: qa,
            second_quality: qb,
            common_hashes: d.common_hashes,
            total_hashes: d.total_hashes,
            corrected,
            survival,
            raw: d.detail,
        },
    )
}

/// Evaluates row `i`: genome `i` against every later genome, in increasing
/// order of the second genome. Rows are independent of one another and may be
/// evaluated in any order or at the same time.
pub fn evaluate_row(i: usize, sketches: &Vec<Sketch>, qualities: &Vec<GenomeQuality>) -> (r: Result<
    Vec<PairRecord>,
    ConfigError,
>)
    requires
        i < sketches.len(),
        sketches.len() == qualities.len(),
        forall|k: int| i <= k < qualities.len() ==> #[trigger] qualities@[k].completeness_bp != 0,
    ensures
        r matches Ok(rows) ==> records_match(
            rows@,
            row_pairs_spec(i as int, sketches.len() as int),
            sketches@,
            qualities@,
        ),
        (forall|j: int|
            i < j < sketches.len() ==> comparable(sketches@[i as int], #[trigger] sketches@[j]))
            ==> r is Ok,
        r matches Err(e) ==> e matches ConfigError::IncompatibleSketches { first, second } && first == i
            && i < second < sketches.len() && !comparable(
            sketches@[i as int],
            sketches@[second as int],
        ),
{
    let n = sketches.len();
    let mut rows: Vec<PairRecord> = Vec::new();
    let mut j: usize = i + 1;
    while j < n
        invariant
            i < j <= n,
            n == sketches.len(),
            n == qualities.len(),
            forall|k: int| i <= k < qualities.len() ==> #[trigger] qualities@[k].completeness_bp != 0,
            rows.len() == j - i - 1,
            forall|t: int|
                0 <= t < rows.len() ==> #[trigger] rows@[t].describes(
                    i as int,
                    i + 1 + t,
                    sketches@,
                    qualities@,
                ),
        decreases n - j,
    {
        let rec = match evaluate_pair(i, j, sketches, qualities) {
            Ok(rec) => rec,
            Err(e) => return Err(e),
        };
        rows.push(rec);
        j += 1;
    }
    let ghost pairs = row_pairs_spec(i as int, n as int);
    assert forall|t: int| 0 <= t < rows.len() implies #[trigger] rows@[t].describes(
        pairs[t].0,
        pairs[t].1,
        sketches@,
        qualities@,
    ) by {
        assert(pairs[t] == (i as int, i + 1 + t));
    }
    Ok(rows)
}

/// Checks the configuration, then evaluates every pair of genomes `i < j`,
/// row after row. Any failure ends the run without records.
pub fn evaluate_all(genomes: usize, sketches: &Vec<Sketch>, qualities: &Vec<GenomeQuality>) -> (r:
    Result<Vec<PairRecord>, ConfigError>)
    ensures
        r is Ok ==> inputs_valid(genomes as nat, sketches.len() as nat, qualities@),
        r matches Ok(records) ==> records_match(
            records@,
            all_pairs_spec(genomes as nat),
            sketches@,
            qualities@,
        ),
        inputs_valid(genomes as nat, sketches.len() as nat, qualities@) && all_comparable(sketches@)
            ==> r is Ok,
        !inputs_valid(genomes as nat, sketches.len() as nat, qualities@) ==> (r matches Err(e)
            && inputs_error(genomes as nat, sketches.len() as nat, qualities@, e)),
        r matches Err(e) ==> inputs_error(genomes as nat, sketches.len() as nat, qualities@, e) || (
        e matches ConfigError::IncompatibleSketches { first, second } && first < second < genomes
            && !comparable(sketches@[first as int], sketches@[second as int])),
{
    if let Err(e) = check_inputs(genomes, sketches.len(), qualities) {
        return Err(e);
    }
    let n = genomes;
    let mut records: Vec<PairRecord> = Vec::new();
    let mut i: usize = 0;
    while i < n
        invariant
            i <= n,
            n == genomes,
            n == sketches.len(),
            n == qualities.len(),
            inputs_valid(n as nat, n as nat, qualities@),
            records_match(records@, pairs_before(i as nat, n as int), sketches@, qualities@),
        decreases n - i,
    {
        let mut row = match evaluate_row(i, sketches, qualities) {
            Ok(row) => row,
            Err(e) => return Err(e),
        };
        let ghost before = records@;
        let ghost prev = pairs_before(i as nat, n as int);
        let ghost rp = row_pairs_spec(i as int, n as int);
        records.append(&mut row);
        assert(pairs_before((i + 1) as nat, n as int) == prev + rp);
        assert forall|t: int| 0 <= t < records.len() implies #[trigger] records@[t].describes(
            (prev + rp)[t].0,
            (prev + rp)[t].1,
            sketches@,
            qualities@,
        ) by {
            if t < before.len() {
                assert(records@[t] == before[t]);
                assert((prev + rp)[t] == prev[t]);
            } else {
                assert((prev + rp)[t] == rp[t - prev.len()]);
            }
        }
        i += 1;
    }
    Ok(records)
}

} // verus!

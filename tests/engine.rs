use finch::filtering::FilterParams;
use finch::serialization::Sketch;
use finch::sketch_schemes::{KmerCount, SketchParams};
use metani::correction::Fraction;
use metani::engine::{check_sketches, evaluate_all, evaluate_pair, evaluate_row};
use metani::quality::{ConfigError, GenomeQuality};

fn sketch(name: &str, hashes: &[u64], seq_length: u64) -> Sketch {
    sketch_k(name, hashes, seq_length, 21)
}

fn sketch_k(name: &str, hashes: &[u64], seq_length: u64, kmer_length: u8) -> Sketch {
    Sketch {
        name: name.to_string(),
        seq_length,
        num_valid_kmers: hashes.len() as u64,
        comment: String::new(),
        hashes: hashes
            .iter()
            .map(|h| KmerCount { hash: *h, kmer: vec![], count: 1, extra_count: 0, label: None })
            .collect(),
        filter_params: FilterParams::default(),
        sketch_params: SketchParams::Mash {
            kmers_to_sketch: 1000,
            final_size: 1000,
            no_strict: true,
            kmer_length,
            hash_seed: 0,
        },
    }
}

fn full(n: usize) -> Vec<GenomeQuality> {
    vec![GenomeQuality::new(10000, 0); n]
}

fn genomes(n: usize) -> Vec<Sketch> {
    (0..n).map(|i| sketch(&format!("g{}", i), &[1, 2, 3, 4 + i as u64], 100 + i as u64)).collect()
}

#[test]
fn pair_counts_shared_and_total_hashes() {
    let s = vec![sketch("a", &[1, 2, 3], 1000), sketch("b", &[2, 3, 4], 2000)];
    let q = vec![GenomeQuality::new(10000, 50), GenomeQuality::new(10000, 0)];
    let rec = evaluate_pair(0, 1, &s, &q).unwrap();
    assert_eq!((rec.first, rec.second), (0, 1));
    assert_eq!(rec.common_hashes, 2);
    assert_eq!(rec.total_hashes, 3);
    assert_eq!(rec.first_length, 1000);
    assert_eq!(rec.second_length, 2000);
    assert_eq!(rec.first_quality, q[0]);
    assert_eq!(rec.corrected, Fraction { num: 200_000_000, den: 300_000_000 });
    assert_eq!(rec.survival, Fraction { num: 400_000_000, den: 500_000_000 });
    assert!(rec.raw.mash_distance > 0.0);
}

#[test]
fn identical_genomes_are_fully_similar() {
    let s = vec![sketch("a", &[5, 9, 11, 20], 10), sketch("b", &[5, 9, 11, 20], 10)];
    let rec = evaluate_pair(0, 1, &s, &full(2)).unwrap();
    assert_eq!(rec.corrected, Fraction { num: 1, den: 1 });
    assert_eq!(rec.survival.num, rec.survival.den);
    assert_eq!(rec.raw.mash_distance, 0.0);
}

#[test]
fn disjoint_genomes_share_nothing() {
    let s = vec![sketch("a", &[1, 3, 5], 10), sketch("b", &[2, 4, 6], 10)];
    let rec = evaluate_pair(0, 1, &s, &full(2)).unwrap();
    assert_eq!(rec.common_hashes, 0);
    assert_eq!(rec.corrected.num, 0);
    assert_eq!(rec.survival.num, 0);
}

#[test]
fn raw_counts_do_not_depend_on_order() {
    let s = vec![sketch("a", &[1, 2, 3, 7, 9], 10), sketch("b", &[2, 3, 4, 9], 10)];
    let q = vec![GenomeQuality::new(8000, 0), GenomeQuality::new(6000, 0)];
    let rev_s = vec![s[1].clone(), s[0].clone()];
    let rev_q = vec![q[1], q[0]];
    let ab = evaluate_pair(0, 1, &s, &q).unwrap();
    let ba = evaluate_pair(0, 1, &rev_s, &rev_q).unwrap();
    assert_eq!(ab.common_hashes, ba.common_hashes);
    assert_eq!(ab.total_hashes, ba.total_hashes);
    assert_eq!(ab.corrected, ba.corrected);
    assert_eq!(ab.survival, ba.survival);
    assert_eq!(ab.raw.mash_distance, ba.raw.mash_distance);
}

#[test]
fn three_genomes_give_three_rows_in_order() {
    let recs = evaluate_all(3, &genomes(3), &full(3)).unwrap();
    let pairs: Vec<(usize, usize)> = recs.iter().map(|r| (r.first, r.second)).collect();
    assert_eq!(pairs, vec![(0, 1), (0, 2), (1, 2)]);
}

#[test]
fn pair_count_is_n_choose_two() {
    for n in 0..7usize {
        let recs = evaluate_all(n, &genomes(n), &full(n)).unwrap();
        assert_eq!(recs.len(), n * n.saturating_sub(1) / 2);
    }
}

#[test]
fn fewer_than_two_genomes_give_no_rows() {
    assert_eq!(evaluate_all(0, &genomes(0), &full(0)).unwrap().len(), 0);
    assert_eq!(evaluate_all(1, &genomes(1), &full(1)).unwrap().len(), 0);
}

#[test]
fn row_second_index_increases() {
    let s = genomes(5);
    let row = evaluate_row(1, &s, &full(5)).unwrap();
    let seconds: Vec<usize> = row.iter().map(|r| r.second).collect();
    assert_eq!(seconds, vec![2, 3, 4]);
    assert!(row.iter().all(|r| r.first == 1));
    assert!(evaluate_row(4, &s, &full(5)).unwrap().is_empty());
}

#[test]
fn zero_completeness_aborts_the_run() {
    let mut q = full(4);
    q[2] = GenomeQuality::new(0, 10);
    q[3] = GenomeQuality::new(0, 0);
    match evaluate_all(4, &genomes(4), &q) {
        Err(e) => assert_eq!(e, ConfigError::ZeroCompleteness { index: 2 }),
        Ok(_) => panic!("a genome without completeness was evaluated"),
    }
}

#[test]
fn mismatched_lengths_abort_the_run() {
    match evaluate_all(3, &genomes(3), &full(2)) {
        Err(e) => assert_eq!(e, ConfigError::LengthMismatch { genomes: 3, sketches: 3, qualities: 2 }),
        Ok(_) => panic!("mismatched inputs were evaluated"),
    }
    match evaluate_all(2, &genomes(3), &full(3)) {
        Err(e) => assert_eq!(e, ConfigError::LengthMismatch { genomes: 2, sketches: 3, qualities: 3 }),
        Ok(_) => panic!("mismatched inputs were evaluated"),
    }
}

#[test]
fn mismatched_kmer_lengths_are_refused() {
    let s = vec![sketch("a", &[1, 2, 3], 10), sketch("b", &[1, 2], 10), sketch_k("c", &[1, 2, 3], 10, 15)];
    match evaluate_pair(1, 2, &s, &full(3)) {
        Err(e) => assert_eq!(e, ConfigError::IncompatibleSketches { first: 1, second: 2 }),
        Ok(_) => panic!("sketches of different k were compared"),
    }
    match evaluate_all(3, &s, &full(3)) {
        Err(e) => assert_eq!(e, ConfigError::IncompatibleSketches { first: 0, second: 2 }),
        Ok(_) => panic!("sketches of different k were compared"),
    }
}

fn scaled(name: &str, hashes: &[u64], scale: f64) -> Sketch {
    let mut s = sketch(name, hashes, 10);
    s.sketch_params = SketchParams::Scaled { kmers_to_sketch: 1000, kmer_length: 21, scale, hash_seed: 0 };
    s
}

#[test]
fn unsorted_hashes_are_refused() {
    let s = vec![sketch("a", &[1, 2, 3], 10), sketch("b", &[3, 1, 2], 10)];
    match evaluate_pair(0, 1, &s, &full(2)) {
        Err(e) => assert_eq!(e, ConfigError::IncompatibleSketches { first: 0, second: 1 }),
        Ok(_) => panic!("unsorted hashes were compared"),
    }
    assert_eq!(check_sketches(&s), Err(ConfigError::IncompatibleSketches { first: 0, second: 1 }));
}

#[test]
fn two_scaled_sketches_are_refused() {
    let s = vec![scaled("a", &[1, 2, 3], 2.0), scaled("b", &[1, 2], 2.0), sketch("c", &[1, 2], 10)];
    assert_eq!(check_sketches(&s), Err(ConfigError::IncompatibleSketches { first: 0, second: 1 }));
    assert!(evaluate_pair(0, 2, &s, &full(3)).is_ok());
    assert!(evaluate_pair(1, 2, &s, &full(3)).is_ok());
}

#[test]
fn compatible_sketches_pass_the_check() {
    assert_eq!(check_sketches(&genomes(4)), Ok(()));
    assert_eq!(check_sketches(&genomes(0)), Ok(()));
    let s = vec![sketch("a", &[1, 2, 3], 10), sketch("b", &[1, 2], 10), sketch_k("c", &[1, 2, 3], 10, 15)];
    assert_eq!(check_sketches(&s), Err(ConfigError::IncompatibleSketches { first: 0, second: 2 }));
}

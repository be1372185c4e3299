use mqe_engine::canonical::canonicalize;
use mqe_engine::commitment::create_q_proof;
use mqe_engine::hex::encode_commitment;
use mqe_engine::pipeline::{
    advance, outcome, start_search, verify_zero_error, Event, ProofError, Stage,
};
use mqe_engine::services::{Optimizer, QRNG};

const SEED: &str = "ACTUAL_QUANTUM_SEED_FROM_API_12345";

fn labels(items: &[&str]) -> Vec<String> {
    items.iter().map(|s| s.to_string()).collect()
}

fn is_commitment_format(s: &str) -> bool {
    s.len() == 66
        && s.starts_with("0x")
        && s[2..].chars().all(|c| c.is_ascii_digit() || ('a'..='f').contains(&c))
}

#[test]
fn example_path_canonical_bytes() {
    let path = labels(&["PATH_OPTIMAL_1", "PATH_OPTIMAL_2"]);
    let bytes = canonicalize(&path, &SEED.to_string());
    assert_eq!(
        bytes,
        "PATH_OPTIMAL_1->PATH_OPTIMAL_2ACTUAL_QUANTUM_SEED_FROM_API_12345".as_bytes()
    );
}

#[test]
fn example_path_commitment() {
    let path = labels(&["PATH_OPTIMAL_1", "PATH_OPTIMAL_2"]);
    assert_eq!(
        create_q_proof(path, SEED.to_string()),
        "0x9d0f52817a373bdcf854c6dd8ba3a2cff71574ffe43cc2f6848a0c2457b6b489"
    );
}

#[test]
fn pipeline_with_fixed_services() {
    let r = verify_zero_error(labels(&["latency", "cost"]));
    assert_eq!(
        r,
        Ok(String::from("0x9d0f52817a373bdcf854c6dd8ba3a2cff71574ffe43cc2f6848a0c2457b6b489"))
    );
}

#[test]
fn empty_path_encodes_seed_alone() {
    let bytes = canonicalize(&Vec::new(), &SEED.to_string());
    assert_eq!(bytes, SEED.as_bytes());
    let c = create_q_proof(Vec::new(), SEED.to_string());
    assert_eq!(c, "0x06f44b4b78314baeae3ddd70f666392e90c7ccdcdad889e324e3ddd9dad08136");
    assert!(is_commitment_format(&c));
}

#[test]
fn known_keccak_digests() {
    assert_eq!(
        create_q_proof(Vec::new(), String::new()),
        "0xc5d2460186f7233c927e7db2dcc703c0e500b653ca82273b7bfad8045d85a470"
    );
    assert_eq!(
        create_q_proof(Vec::new(), String::from("abc")),
        "0x4e03657aea45a94fc7d47ba826c8d667c0d1e6e33a64a036ec44f58fa12d6c45"
    );
}

#[test]
fn single_label_has_no_delimiter() {
    let bytes = canonicalize(&labels(&["A"]), &String::from("s"));
    assert_eq!(bytes, b"As".to_vec());
}

#[test]
fn three_labels_joined_in_order() {
    let bytes = canonicalize(&labels(&["a", "b", "c"]), &String::from("x"));
    assert_eq!(bytes, b"a->b->cx".to_vec());
}

#[test]
fn non_ascii_labels_encode_as_utf8() {
    let bytes = canonicalize(&labels(&["경로", "é"]), &String::from("씨앗"));
    assert_eq!(bytes, "경로->é씨앗".as_bytes());
}

#[test]
fn repeated_commitments_are_identical() {
    let path = labels(&["P1", "P2", "P3"]);
    let a = create_q_proof(path.clone(), String::from("seed"));
    let b = create_q_proof(path, String::from("seed"));
    assert_eq!(a, b);
}

#[test]
fn commitments_have_fixed_format() {
    let cases: Vec<(Vec<String>, String)> = vec![
        (Vec::new(), String::from("s")),
        (labels(&["x"]), String::from("seed")),
        (labels(&["PATH_OPTIMAL_1", "PATH_OPTIMAL_2"]), SEED.to_string()),
        (labels(&["", "", ""]), String::from("z")),
    ];
    for (path, seed) in cases {
        let c = create_q_proof(path, seed);
        assert!(is_commitment_format(&c), "{}", c);
    }
}

#[test]
fn changes_to_path_or_seed_change_commitment() {
    let base = create_q_proof(labels(&["A", "B"]), String::from("seed"));
    let changed_label = create_q_proof(labels(&["A", "C"]), String::from("seed"));
    let swapped = create_q_proof(labels(&["B", "A"]), String::from("seed"));
    let changed_seed = create_q_proof(labels(&["A", "B"]), String::from("seee"));
    assert_ne!(base, changed_label);
    assert_ne!(base, swapped);
    assert_ne!(base, changed_seed);
}

#[test]
fn encode_commitment_renders_lowercase_pairs() {
    assert_eq!(encode_commitment(&vec![0x00, 0xff, 0x0a, 0xb7]), "0x00ff0ab7");
    assert_eq!(encode_commitment(&Vec::new()), "0x");
}

#[test]
fn empty_entropy_fails_the_run() {
    let next = advance(Stage::AcquireEntropy, Event::EntropyReady { seed: String::new() });
    assert!(matches!(next, Stage::Failed { error: ProofError::EntropyUnavailable }));
    assert_eq!(outcome(next), Err(ProofError::EntropyUnavailable));
}

#[test]
fn entropy_moves_run_to_optimization() {
    let next = advance(Stage::AcquireEntropy, Event::EntropyReady { seed: String::from("s") });
    match next {
        Stage::RunOptimization { seed } => assert_eq!(seed, "s"),
        _ => panic!("expected the optimization stage"),
    }
}

#[test]
fn search_failure_is_forwarded() {
    let next = advance(
        Stage::RunOptimization { seed: String::from("s") },
        Event::SearchFinished { outcome: Err(String::from("no path below threshold")) },
    );
    assert_eq!(
        outcome(next),
        Err(ProofError::OptimizationFailed(String::from("no path below threshold")))
    );
}

#[test]
fn search_success_commits_to_path_and_seed() {
    let next = advance(
        Stage::RunOptimization { seed: SEED.to_string() },
        Event::SearchFinished { outcome: Ok(labels(&["PATH_OPTIMAL_1", "PATH_OPTIMAL_2"])) },
    );
    assert_eq!(
        outcome(next),
        Ok(String::from("0x9d0f52817a373bdcf854c6dd8ba3a2cff71574ffe43cc2f6848a0c2457b6b489"))
    );
}

#[test]
fn empty_path_from_search_still_commits() {
    let next = advance(
        Stage::RunOptimization { seed: SEED.to_string() },
        Event::SearchFinished { outcome: Ok(Vec::new()) },
    );
    assert_eq!(
        outcome(next),
        Ok(String::from("0x06f44b4b78314baeae3ddd70f666392e90c7ccdcdad889e324e3ddd9dad08136"))
    );
}

#[test]
fn fixed_entropy_token() {
    assert_eq!(QRNG::get_true_entropy(), SEED);
}

#[test]
fn optimizer_keeps_features_and_seed() {
    let optimizer = Optimizer::new(labels(&["f1", "f2"]), SEED.to_string());
    assert_eq!(optimizer.features, labels(&["f1", "f2"]));
    assert_eq!(optimizer.seed, SEED);
}

#[test]
fn search_gets_caller_features_and_held_seed() {
    let waiting = Stage::RunOptimization { seed: String::from("held") };
    let optimizer = start_search(&waiting, labels(&["f"]));
    assert_eq!(optimizer.features, labels(&["f"]));
    assert_eq!(optimizer.seed, "held");
}

#[test]
fn reordered_labels_change_canonical_bytes() {
    let seed = String::from("s");
    let a = canonicalize(&labels(&["x", "y", "z"]), &seed);
    let b = canonicalize(&labels(&["z", "x", "y"]), &seed);
    assert_ne!(a, b);
}

#[test]
fn fixed_search_path() {
    let mut optimizer = Optimizer::new(labels(&["f"]), SEED.to_string());
    assert_eq!(
        optimizer.find_zero_error_path(),
        Ok(labels(&["PATH_OPTIMAL_1", "PATH_OPTIMAL_2"]))
    );
}

//! The proof-generation pipeline: acquire entropy, run the search, then
//! commit to the path found and the seed.

use vstd::prelude::*;
use crate::canonical::labels;
use crate::commitment::{commitment_of, create_q_proof};
use crate::hex::is_commitment_format;
use crate::services::{fixed_entropy, fixed_path, Optimizer, QRNG};

verus! {

/// Why a run ended without a commitment.
#[derive(Debug, PartialEq, Eq)]
pub enum ProofError {
    /// The entropy provider gave an empty seed.
    EntropyUnavailable,
    /// The search reported failure; its reason is kept as it came.
    OptimizationFailed(String),
}

/// Where a run stands.
pub enum Stage {
    /// Waiting for a seed from the entropy provider.
    AcquireEntropy,
    /// Holding a non-empty seed, waiting for the search to finish.
    RunOptimization { seed: String },
    /// Finished with a commitment.
    Done { commitment: String },
    /// Finished with an error.
    Failed { error: ProofError },
}

/// What an outside collaborator handed back.
pub enum Event {
    /// The entropy provider answered with this token.
    EntropyReady { seed: String },
    /// The search finished with a path or a reason for failing.
    SearchFinished { outcome: Result<Vec<String>, String> },
}

/// A run takes a seed while acquiring entropy and a search outcome while
/// optimizing; a finished run takes nothing more.
pub open spec fn accepts(stage: Stage, event: Event) -> bool {
    ||| stage is AcquireEntropy && event is EntropyReady
    ||| stage is RunOptimization && event is SearchFinished
}

/// Whether a run has finished.
pub open spec fn is_finished(stage: Stage) -> bool {
    stage is Done || stage is Failed
}

/// A finished run accepts no event: in particular, once entropy is found
/// missing, no search outcome is ever taken in.
pub proof fn lemma_finished_accepts_nothing(stage: Stage, event: Event)
    requires
        is_finished(stage),
    ensures
        !accepts(stage, event),
{
}

/// Moves a run one stage on. An empty seed fails the run at once with
/// `EntropyUnavailable`; a failed search fails it with the reason forwarded
/// unchanged; a path found completes it with the commitment to that path and
/// the seed held.
pub fn advance(stage: Stage, event: Event) -> (next: Stage)
    requires
        accepts(stage, event),
        stage is RunOptimization ==> stage->seed@.len() > 0,
    ensures
        stage is AcquireEntropy && event->seed@.len() == 0 ==> next == (Stage::Failed {
            error: ProofError::EntropyUnavailable,
        }),
        stage is AcquireEntropy && event->seed@.len() > 0 ==> next == (Stage::RunOptimization {
            seed: event->seed,
        }),
        stage is RunOptimization && event->outcome is Err ==> next == (Stage::Failed {
            error: ProofError::OptimizationFailed(event->outcome->Err_0),
        }),
        stage is RunOptimization && event->outcome is Ok ==> next is Done,
        stage is RunOptimization && event->outcome is Ok ==> next->commitment@ == commitment_of(
            labels(event->outcome->Ok_0@),
            stage->seed@,
        ),
        stage is RunOptimization && event->outcome is Ok ==> is_commitment_format(
            next->commitment@,
        ),
{
    match stage {
        Stage::AcquireEntropy => match event {
            Event::EntropyReady { seed } => {
                if seed.as_str().is_empty() {
                    Stage::Failed { error: ProofError::EntropyUnavailable }
                } else {
                    Stage::RunOptimization { seed }
                }
            },
            Event::SearchFinished { .. } => Stage::AcquireEntropy,
        },
        Stage::RunOptimization { seed } => match event {
            Event::SearchFinished { outcome } => match outcome {
                Ok(path) => Stage::Done { commitment: create_q_proof(path, seed) },
                Err(reason) => Stage::Failed { error: ProofError::OptimizationFailed(reason) },
            },
            Event::EntropyReady { .. } => Stage::RunOptimization { seed },
        },
        finished => finished,
    }
}

/// What a finished run hands its caller: the commitment, or the error.
pub fn outcome(stage: Stage) -> (r: Result<String, ProofError>)
    requires
        is_finished(stage),
    ensures
        stage is Done ==> r == Ok::<String, ProofError>(stage->commitment),
        stage is Failed ==> r == Err::<String, ProofError>(stage->error),
{
    match stage {
        Stage::Done { commitment } => Ok(commitment),
        Stage::Failed { error } => Err(error),
        _ => Err(ProofError::EntropyUnavailable),
    }
}

/// The search that a run waiting on the optimization engine asks for: over
/// the caller's features, seeded by the seed the run holds.
pub fn start_search(stage: &Stage, features: Vec<String>) -> (r: Optimizer)
    requires
        stage is RunOptimization,
    ensures
        labels(r.features@) == labels(features@),
        r.seed@ == stage->seed@,
{
    match stage {
        Stage::RunOptimization { seed } => Optimizer::new(features, seed.clone()),
        _ => Optimizer::new(features, String::new()),
    }
}

/// Runs the pipeline over a validated feature set with the fixed entropy
/// provider and search engine: acquire a seed, search over the features
/// with it (see `start_search`), and commit to the path found and that seed.
pub fn verify_zero_error(features: Vec<String>) -> (r: Result<String, ProofError>)
    ensures
        r is Ok,
        r->Ok_0@ == commitment_of(fixed_path(), fixed_entropy()),
        is_commitment_format(r->Ok_0@),
{
    let seed = QRNG::get_true_entropy();
    proof {
        reveal_strlit("ACTUAL_QUANTUM_SEED_FROM_API_12345");
    }
    let stage = advance(Stage::AcquireEntropy, Event::EntropyReady { seed });
    let stage = match stage {
        Stage::RunOptimization { seed } => {
            let waiting = Stage::RunOptimization { seed };
            let mut optimizer = start_search(&waiting, features);
            let found = optimizer.find_zero_error_path();
            advance(waiting, Event::SearchFinished { outcome: found })
        },
        other => other,
    };
    outcome(stage)
}

} // verus!

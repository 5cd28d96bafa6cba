//! The upstream client's retry policy: which statuses and transport errors
//! are retried on the *same* credential, the exponential backoff between
//! attempts, and the decision taken after each attempt.
//!
//! The policy is a pure function from the attempt number and the attempt's
//! outcome to an action; the unverified rim performs the actual send, sleep
//! and deadline handling and feeds every outcome back through [`client_step`].

use crate::config::UpstreamConfig;
use crate::error::{ProxyError, TransportErrorKind};
use vstd::arithmetic::power2::pow2;
use vstd::prelude::*;

verus! {

/// The transport-retry set: statuses retried on the same credential.
pub open spec fn spec_retry_status(status: u16) -> bool {
    status == 429 || status == 418 || status == 502 || status == 503 || status == 504
}

/// The rotate set: statuses that make the engine move to the next credential.
pub open spec fn spec_rotate_status(status: u16) -> bool {
    status == 429 || status == 418 || status == 502 || status == 400
}

/// Transport error classes retried on the same credential.
pub open spec fn spec_retry_error(kind: TransportErrorKind) -> bool {
    kind is Connect || kind is TimedOut || kind is RequestBuild
}

/// Whether `status` indicates a temporary condition worth retrying on the
/// same credential.
pub fn should_retry_status(status: u16) -> (r: bool)
    ensures
        r == spec_retry_status(status),
{
    status == 429 || status == 418 || status == 502 || status == 503 || status == 504
}

/// Whether the upstream response status should trigger a key rotation.
pub fn should_rotate_key(status: u16) -> (r: bool)
    ensures
        r == spec_rotate_status(status),
{
    status == 429 || status == 418 || status == 502 || status == 400
}

/// Whether a transport error of this class is worth retrying on the same
/// credential.
pub fn should_retry_error(kind: &TransportErrorKind) -> (r: bool)
    ensures
        r == spec_retry_error(*kind),
{
    match kind {
        TransportErrorKind::Connect => true,
        TransportErrorKind::TimedOut => true,
        TransportErrorKind::RequestBuild => true,
        TransportErrorKind::Other => false,
    }
}

/// The wait before retry number `attempt + 1`: the initial backoff doubled
/// per attempt, clamped to the configured ceiling.
pub open spec fn spec_backoff(initial: u64, max_backoff: u64, attempt: u32) -> int {
    let raw = initial * pow2(attempt as nat);
    if raw <= max_backoff {
        raw as int
    } else {
        max_backoff as int
    }
}

pub fn backoff_ms(initial: u64, max_backoff: u64, attempt: u32) -> (r: u64)
    ensures
        r == spec_backoff(initial, max_backoff, attempt),
{
    if initial == 0 {
        return 0;
    }
    if attempt >= 64 {
        proof {
            vstd::arithmetic::power2::lemma2_to64();
            vstd::arithmetic::power2::lemma2_to64_rest();
            if attempt > 64 {
                vstd::arithmetic::power2::lemma_pow2_strictly_increases(64, attempt as nat);
            }
            assert(pow2(attempt as nat) >= pow2(64));
            assert(initial * pow2(attempt as nat) >= pow2(64)) by (nonlinear_arith)
                requires
                    initial >= 1,
                    pow2(attempt as nat) >= pow2(64),
            ;
        }
        return max_backoff;
    }
    let factor: u64 = 1u64 << attempt;
    proof {
        vstd::bits::lemma_u64_pow2_no_overflow(attempt as nat);
        vstd::bits::lemma_u64_shl_is_mul(1u64, attempt as u64);
    }
    match initial.checked_mul(factor) {
        Some(raw) => {
            if raw <= max_backoff {
                raw
            } else {
                max_backoff
            }
        },
        None => max_backoff,
    }
}

/// The outcome of a single upstream attempt, as the unverified transport
/// reports it: a response with its status, a transport error with its class
/// and text, or the per-attempt deadline elapsing.
#[derive(Debug)]
pub enum AttemptOutcome {
    Response { status: u16 },
    TransportError { kind: TransportErrorKind, detail: String },
    DeadlineExceeded,
}

/// What the client does after an attempt: hand the response to the engine,
/// sleep and try the same credential again, or give up with an error.
#[derive(Debug)]
pub enum ClientAction {
    Deliver { status: u16 },
    Sleep { wait_ms: u64 },
    GiveUp { error: ProxyError },
}

/// Whether the client retries after this outcome at attempt `attempt`.
pub open spec fn spec_attempt_retried(outcome: AttemptOutcome, attempt: nat, max: nat) -> bool {
    attempt < max && match outcome {
        AttemptOutcome::Response { status } => spec_retry_status(status),
        AttemptOutcome::TransportError { kind, .. } => spec_retry_error(kind),
        AttemptOutcome::DeadlineExceeded => true,
    }
}

/// What the client's retry loop does from attempt number `attempt` on: how
/// many further attempts it makes, and what it ends with.
pub open spec fn spec_client_run(
    outcomes: Seq<AttemptOutcome>,
    attempt: nat,
    max: nat,
) -> (nat, Result<u16, ProxyError>)
    decreases max + 1 - attempt,
{
    if attempt > max || attempt >= outcomes.len() {
        (0, Err(ProxyError::AllRetriesExhausted))
    } else if spec_attempt_retried(outcomes[attempt as int], attempt, max) {
        let rec = spec_client_run(outcomes, attempt + 1, max);
        ((rec.0 + 1) as nat, rec.1)
    } else {
        match outcomes[attempt as int] {
            AttemptOutcome::Response { status } => (1, Ok(status)),
            AttemptOutcome::TransportError { kind, detail } => (
                1,
                Err(ProxyError::UpstreamFailed { kind, detail }),
            ),
            AttemptOutcome::DeadlineExceeded => (1, Err(ProxyError::Timeout)),
        }
    }
}

/// The client's retry loop over a prerecorded sequence of outcomes, one per
/// attempt on the same credential: how many attempts were made, and the
/// result. The sequence must cover the worst case of `max_retries + 1`
/// attempts; later entries are unused.
pub fn run_client(config: &UpstreamConfig, outcomes: Vec<AttemptOutcome>) -> (r: (u64, Result<
    u16,
    ProxyError,
>))
    requires
        outcomes@.len() > config.max_retries as nat,
    ensures
        r.0 as nat == spec_client_run(outcomes@, 0, config.max_retries as nat).0,
        r.1 == spec_client_run(outcomes@, 0, config.max_retries as nat).1,
{
    let ghost full = outcomes@;
    let ghost max = config.max_retries as nat;
    let mut rem = outcomes;
    let mut attempt: u32 = 0;
    proof {
        assert(full.skip(0) =~= full);
    }
    loop
        invariant
            full == outcomes@,
            full.len() > max,
            max == config.max_retries as nat,
            attempt as nat <= max,
            rem@ == full.skip(attempt as int),
            spec_client_run(full, 0, max).0 == attempt as nat + spec_client_run(
                full,
                attempt as nat,
                max,
            ).0,
            spec_client_run(full, 0, max).1 == spec_client_run(full, attempt as nat, max).1,
        decreases max + 1 - attempt,
    {
        let ghost a = attempt as nat;
        proof {
            assert(rem@[0] == full[a as int]);
        }
        let outcome = rem.remove(0);
        let ghost gout = outcome;
        let action = client_step(config, attempt, outcome);
        proof {
            assert(rem@ =~= full.skip(a as int + 1)) by {
                assert(rem@ =~= full.skip(a as int).remove(0));
            }
            if spec_attempt_retried(gout, a, max) {
                let rec = spec_client_run(full, a + 1, max);
                assert(spec_client_run(full, a, max).0 == rec.0 + 1);
                assert(spec_client_run(full, a, max).1 == rec.1);
            }
        }
        match action {
            ClientAction::Deliver { status } => {
                return (attempt as u64 + 1, Ok(status));
            },
            ClientAction::Sleep { .. } => {},
            ClientAction::GiveUp { error } => {
                return (attempt as u64 + 1, Err(error));
            },
        }
        attempt = attempt + 1;
    }
}

/// The client returns the *first* non-retried response: after `retried`
/// attempts whose outcomes are all retried, an attempt that yields any
/// response outside the transport-retry set ends the loop with exactly that
/// response.
pub proof fn lemma_first_non_retryable_response(
    outcomes: Seq<AttemptOutcome>,
    retried: nat,
    terminal: u16,
    max: nat,
)
    requires
        retried <= max,
        retried < outcomes.len(),
        forall|i: int|
            0 <= i < retried ==> spec_attempt_retried(#[trigger] outcomes[i], i as nat, max),
        outcomes[retried as int] == (AttemptOutcome::Response { status: terminal }),
        !spec_retry_status(terminal),
    ensures
        spec_client_run(outcomes, 0, max).0 == retried + 1,
        spec_client_run(outcomes, 0, max).1 == Ok::<u16, ProxyError>(terminal),
{
    lemma_client_run_from(outcomes, 0, retried, terminal, max);
}

proof fn lemma_client_run_from(
    outcomes: Seq<AttemptOutcome>,
    a: nat,
    retried: nat,
    terminal: u16,
    max: nat,
)
    requires
        a <= retried <= max,
        retried < outcomes.len(),
        forall|i: int|
            a <= i < retried ==> spec_attempt_retried(#[trigger] outcomes[i], i as nat, max),
        outcomes[retried as int] == (AttemptOutcome::Response { status: terminal }),
        !spec_retry_status(terminal),
    ensures
        spec_client_run(outcomes, a, max).0 == retried + 1 - a,
        spec_client_run(outcomes, a, max).1 == Ok::<u16, ProxyError>(terminal),
    decreases retried - a,
{
    if a < retried {
        lemma_client_run_from(outcomes, a + 1, retried, terminal, max);
    }
}

/// When every attempt exceeds the per-attempt deadline, the client makes
/// `max + 1` attempts and ends with `Timeout`.
pub proof fn lemma_all_timeouts(outcomes: Seq<AttemptOutcome>, max: nat)
    requires
        outcomes.len() > max,
        forall|i: int| 0 <= i <= max ==> #[trigger] outcomes[i] is DeadlineExceeded,
    ensures
        spec_client_run(outcomes, 0, max).0 == max + 1,
        spec_client_run(outcomes, 0, max).1 == Err::<u16, ProxyError>(ProxyError::Timeout),
{
    lemma_all_timeouts_from(outcomes, 0, max);
}

proof fn lemma_all_timeouts_from(outcomes: Seq<AttemptOutcome>, a: nat, max: nat)
    requires
        a <= max,
        outcomes.len() > max,
        forall|i: int| a <= i <= max ==> #[trigger] outcomes[i] is DeadlineExceeded,
    ensures
        spec_client_run(outcomes, a, max).0 == max + 1 - a,
        spec_client_run(outcomes, a, max).1 == Err::<u16, ProxyError>(ProxyError::Timeout),
    decreases max - a,
{
    if a < max {
        lemma_all_timeouts_from(outcomes, a + 1, max);
    }
}

/// One step of the client's retry loop. A retryable status or transport
/// condition is retried, with backoff, while attempts remain; the first
/// non-retryable response is delivered; exhausted retries give up with the
/// error the last attempt produced.
pub fn client_step(config: &UpstreamConfig, attempt: u32, outcome: AttemptOutcome) -> (r:
    ClientAction)
    ensures
        outcome matches AttemptOutcome::Response { status } ==> if spec_retry_status(status)
            && attempt < config.max_retries {
            r == (ClientAction::Sleep {
                wait_ms: spec_backoff(
                    config.retry_initial_backoff_ms,
                    config.retry_max_backoff_ms,
                    attempt,
                ) as u64,
            })
        } else {
            r == (ClientAction::Deliver { status })
        },
        outcome matches AttemptOutcome::TransportError { kind, detail } ==> if spec_retry_error(
            kind,
        ) && attempt < config.max_retries {
            r == (ClientAction::Sleep {
                wait_ms: spec_backoff(
                    config.retry_initial_backoff_ms,
                    config.retry_max_backoff_ms,
                    attempt,
                ) as u64,
            })
        } else {
            r == (ClientAction::GiveUp { error: ProxyError::UpstreamFailed { kind, detail } })
        },
        outcome is DeadlineExceeded ==> if attempt < config.max_retries {
            r == (ClientAction::Sleep {
                wait_ms: spec_backoff(
                    config.retry_initial_backoff_ms,
                    config.retry_max_backoff_ms,
                    attempt,
                ) as u64,
            })
        } else {
            r == (ClientAction::GiveUp { error: ProxyError::Timeout })
        },
{
    match outcome {
        AttemptOutcome::Response { status } => {
            if should_retry_status(status) && attempt < config.max_retries {
                ClientAction::Sleep {
                    wait_ms: backoff_ms(
                        config.retry_initial_backoff_ms,
                        config.retry_max_backoff_ms,
                        attempt,
                    ),
                }
            } else {
                ClientAction::Deliver { status }
            }
        },
        AttemptOutcome::TransportError { kind, detail } => {
            if should_retry_error(&kind) && attempt < config.max_retries {
                ClientAction::Sleep {
                    wait_ms: backoff_ms(
                        config.retry_initial_backoff_ms,
                        config.retry_max_backoff_ms,
                        attempt,
                    ),
                }
            } else {
                ClientAction::GiveUp { error: ProxyError::UpstreamFailed { kind, detail } }
            }
        },
        AttemptOutcome::DeadlineExceeded => {
            if attempt < config.max_retries {
                ClientAction::Sleep {
                    wait_ms: backoff_ms(
                        config.retry_initial_backoff_ms,
                        config.retry_max_backoff_ms,
                        attempt,
                    ),
                }
            } else {
                ClientAction::GiveUp { error: ProxyError::Timeout }
            }
        },
    }
}

} // verus!

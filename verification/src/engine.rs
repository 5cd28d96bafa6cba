//! The proxy engine: routing-model extraction from the request body, the
//! per-request attempt state, and the rotate-and-retry decision taken after
//! each upstream call.
//!
//! The engine's attempt loop alternates outside work (the upstream send)
//! with decisions. The decisions live here as verified functions; the
//! unverified rim performs each send and feeds the outcome back through
//! [`note_outcome`]. [`run_engine`] is the loop itself over a prerecorded
//! sequence of outcomes, and the rotation bound is proved of it.

use crate::dispatch::HttpMethod;
use crate::error::ProxyError;
use crate::pool::{spec_matching, KeyPool};
use crate::upstream::spec_rotate_status;
use vstd::prelude::*;

verus! {

/// The string `model` field of the request body, when the body parses as
/// JSON and carries one.
pub uninterp spec fn json_model_field(body: Seq<u8>) -> Option<Seq<char>>;

/// Relies on serde_json::from_slice, serde_json::Value::get and
/// serde_json::Value::as_str: the parse and the field lookup depend on the
/// bytes alone.
#[verifier::external_body]
fn read_model_field(body: &[u8]) -> (r: Option<String>)
    ensures
        r is Some <==> json_model_field(body@) is Some,
        r matches Some(s) ==> json_model_field(body@) == Some(s@),
{
    let value: serde_json::Value = match serde_json::from_slice(body) {
        Ok(v) => v,
        Err(_) => return None,
    };
    value.get("model").and_then(|m| m.as_str()).map(|s| s.to_owned())
}

/// The model a request is routed by: the body's `model` field for a
/// non-empty POST, the sentinel `"others"` otherwise; `None` when a POST
/// body fails to parse.
pub open spec fn spec_routing_model(method: HttpMethod, body: Seq<u8>) -> Option<Seq<char>> {
    if method is Post && body.len() > 0 {
        json_model_field(body)
    } else {
        Some("others"@)
    }
}

/// The state of one logical request's attempt loop.
#[derive(Debug)]
pub struct AttemptState {
    /// Rotations observed so far.
    pub attempts_used: u64,
    /// Whether the next selection must use the pool-wide cursor instead of
    /// the model-matched subset.
    pub use_next: bool,
    /// The failure observed last, kept for the exhaustion report.
    pub last_error: Option<ProxyError>,
}

impl AttemptState {
    pub fn new() -> (r: Self)
        ensures
            r.attempts_used == 0,
            !r.use_next,
            r.last_error is None,
    {
        AttemptState { attempts_used: 0, use_next: false, last_error: None }
    }
}

/// The outcome of one upstream forward, as the client reports it to the
/// engine: a response with its status, or a client-level error.
#[derive(Debug)]
pub enum ForwardOutcome {
    Delivered { status: u16 },
    Failed { error: ProxyError },
}

/// The engine's decision after one forward: return the response, rotate to
/// the next credential and retry, or give up with an error.
#[derive(Debug)]
pub enum EngineAction {
    Respond { status: u16 },
    RetryNext,
    Fail { error: ProxyError },
}

/// One step of the engine's attempt loop. A response outside the rotate set
/// is the result; a rotate-worthy response or a client error is recorded and
/// retried on the next credential while attempts remain.
pub fn note_outcome(state: &mut AttemptState, outcome: ForwardOutcome, max_retries: u32) -> (r:
    EngineAction)
    requires
        old(state).attempts_used <= max_retries as u64,
    ensures
        outcome matches ForwardOutcome::Delivered { status } ==> if !spec_rotate_status(status) {
            r == (EngineAction::Respond { status }) && *final(state) == *old(state)
        } else {
            &&& final(state).attempts_used == old(state).attempts_used + 1
            &&& final(state).use_next
            &&& final(state).last_error == Some(ProxyError::UpstreamHttpError { status })
            &&& r == if old(state).attempts_used + 1 <= max_retries as u64 {
                EngineAction::RetryNext
            } else {
                (EngineAction::Fail { error: ProxyError::UpstreamHttpError { status } })
            }
        },
        outcome matches ForwardOutcome::Failed { error } ==> {
            &&& final(state).attempts_used == old(state).attempts_used + 1
            &&& final(state).use_next
            &&& if old(state).attempts_used + 1 <= max_retries as u64 {
                final(state).last_error == Some(error) && r == EngineAction::RetryNext
            } else {
                final(state).last_error == old(state).last_error && r == (EngineAction::Fail {
                    error,
                })
            }
        },
{
    match outcome {
        ForwardOutcome::Delivered { status } => {
            if !crate::upstream::should_rotate_key(status) {
                EngineAction::Respond { status }
            } else {
                state.attempts_used = state.attempts_used + 1;
                state.use_next = true;
                state.last_error = Some(ProxyError::UpstreamHttpError { status });
                if state.attempts_used <= max_retries as u64 {
                    EngineAction::RetryNext
                } else {
                    EngineAction::Fail { error: ProxyError::UpstreamHttpError { status } }
                }
            }
        },
        ForwardOutcome::Failed { error } => {
            state.attempts_used = state.attempts_used + 1;
            state.use_next = true;
            if state.attempts_used <= max_retries as u64 {
                state.last_error = Some(error);
                EngineAction::RetryNext
            } else {
                EngineAction::Fail { error }
            }
        },
    }
}

/// What the attempt loop does from attempt `a` on, given the loop's recorded
/// last failure: the number of further upstream calls, and the final result.
pub open spec fn spec_run_from(
    outcomes: Seq<ForwardOutcome>,
    a: nat,
    last: Option<ProxyError>,
    max: nat,
) -> (nat, Result<u16, ProxyError>)
    decreases max + 1 - a,
{
    if a > max || a >= outcomes.len() {
        (
            0,
            Err(
                match last {
                    Some(e) => e,
                    None => ProxyError::AllRetriesExhausted,
                },
            ),
        )
    } else {
        match outcomes[a as int] {
            ForwardOutcome::Delivered { status } => {
                if !spec_rotate_status(status) {
                    (1, Ok(status))
                } else {
                    let rec = spec_run_from(
                        outcomes,
                        a + 1,
                        Some(ProxyError::UpstreamHttpError { status }),
                        max,
                    );
                    ((rec.0 + 1) as nat, rec.1)
                }
            },
            ForwardOutcome::Failed { error } => {
                let rec = spec_run_from(outcomes, a + 1, Some(error), max);
                ((rec.0 + 1) as nat, rec.1)
            },
        }
    }
}

/// The engine's attempt loop over a prerecorded sequence of outcomes, one
/// per upstream call it makes: returns how many calls were made and the
/// final result. The sequence must cover the worst case of
/// `max_retries + 1` attempts; later entries are unused.
pub fn run_engine(outcomes: Vec<ForwardOutcome>, max_retries: u32) -> (r: (u64, Result<
    u16,
    ProxyError,
>))
    requires
        outcomes@.len() > max_retries as nat,
    ensures
        r.0 as nat == spec_run_from(outcomes@, 0, None::<ProxyError>, max_retries as nat).0,
        r.1 == spec_run_from(outcomes@, 0, None::<ProxyError>, max_retries as nat).1,
{
    let ghost full = outcomes@;
    let ghost max = max_retries as nat;
    let mut rem = outcomes;
    let mut state = AttemptState::new();
    let mut calls: u64 = 0;
    proof {
        assert(full.skip(0) =~= full);
    }
    loop
        invariant
            full == outcomes@,
            full.len() > max,
            max == max_retries as nat,
            state.attempts_used as nat <= max,
            calls == state.attempts_used,
            rem@ == full.skip(state.attempts_used as int),
            spec_run_from(full, 0, None::<ProxyError>, max).0 == state.attempts_used as nat
                + spec_run_from(full, state.attempts_used as nat, state.last_error, max).0,
            spec_run_from(full, 0, None::<ProxyError>, max).1 == spec_run_from(
                full,
                state.attempts_used as nat,
                state.last_error,
                max,
            ).1,
        decreases max + 1 - state.attempts_used,
    {
        let ghost a = state.attempts_used as nat;
        let ghost lasts = state.last_error;
        proof {
            assert(rem@.len() == full.len() - a);
            assert(rem@[0] == full[a as int]);
        }
        let outcome = rem.remove(0);
        let ghost gout = outcome;
        calls = calls + 1;
        let action = note_outcome(&mut state, outcome, max_retries);
        proof {
            assert(rem@ =~= full.skip(a as int + 1)) by {
                assert(rem@ =~= full.skip(a as int).remove(0));
            }
            let tail = spec_run_from(full, a, lasts, max);
            match gout {
                ForwardOutcome::Delivered { status } => {
                    if !spec_rotate_status(status) {
                        assert(tail.0 == 1 && tail.1 == Ok::<u16, ProxyError>(status));
                    } else {
                        let rec = spec_run_from(
                            full,
                            a + 1,
                            Some(ProxyError::UpstreamHttpError { status }),
                            max,
                        );
                        assert(tail.0 == rec.0 + 1 && tail.1 == rec.1);
                        if a + 1 > max {
                            assert(rec.0 == 0 && rec.1 == Err::<u16, ProxyError>(
                                ProxyError::UpstreamHttpError { status },
                            ));
                        }
                    }
                },
                ForwardOutcome::Failed { error } => {
                    let rec = spec_run_from(full, a + 1, Some(error), max);
                    assert(tail.0 == rec.0 + 1 && tail.1 == rec.1);
                    if a + 1 > max {
                        assert(rec.0 == 0 && rec.1 == Err::<u16, ProxyError>(error));
                    }
                },
            }
        }
        match action {
            EngineAction::Respond { status } => {
                return (calls, Ok(status));
            },
            EngineAction::RetryNext => {},
            EngineAction::Fail { error } => {
                return (calls, Err(error));
            },
        }
    }
}

/// For a single logical request that observes `rotations` rotate-worthy
/// responses followed by one terminal response, the engine performs exactly
/// `rotations + 1` upstream calls and returns that terminal response.
pub proof fn lemma_rotation_bound(
    outcomes: Seq<ForwardOutcome>,
    rotations: nat,
    terminal: u16,
    max: nat,
)
    requires
        rotations <= max,
        rotations < outcomes.len(),
        forall|i: int|
            0 <= i < rotations ==> ((#[trigger] outcomes[i]) matches ForwardOutcome::Delivered {
                status,
            } && spec_rotate_status(status)),
        outcomes[rotations as int] == (ForwardOutcome::Delivered { status: terminal }),
        !spec_rotate_status(terminal),
    ensures
        spec_run_from(outcomes, 0, None::<ProxyError>, max).0 == rotations + 1,
        spec_run_from(outcomes, 0, None::<ProxyError>, max).1 == Ok::<u16, ProxyError>(terminal),
{
    lemma_rotation_from(outcomes, 0, None, rotations, terminal, max);
}

proof fn lemma_rotation_from(
    outcomes: Seq<ForwardOutcome>,
    a: nat,
    last: Option<ProxyError>,
    rotations: nat,
    terminal: u16,
    max: nat,
)
    requires
        a <= rotations <= max,
        rotations < outcomes.len(),
        forall|i: int|
            a <= i < rotations ==> ((#[trigger] outcomes[i]) matches ForwardOutcome::Delivered {
                status,
            } && spec_rotate_status(status)),
        outcomes[rotations as int] == (ForwardOutcome::Delivered { status: terminal }),
        !spec_rotate_status(terminal),
    ensures
        spec_run_from(outcomes, a, last, max).0 == rotations + 1 - a,
        spec_run_from(outcomes, a, last, max).1 == Ok::<u16, ProxyError>(terminal),
    decreases rotations - a,
{
    if a < rotations {
        let status = outcomes[a as int]->Delivered_status;
        lemma_rotation_from(
            outcomes,
            a + 1,
            Some(ProxyError::UpstreamHttpError { status }),
            rotations,
            terminal,
            max,
        );
    }
}

/// The orchestrator: the credential pool and the rotate budget.
pub struct ProxyEngine {
    key_pool: KeyPool,
    max_retries: u32,
}

impl ProxyEngine {
    pub closed spec fn spec_pool(self) -> KeyPool {
        self.key_pool
    }

    pub closed spec fn spec_max_retries(self) -> u32 {
        self.max_retries
    }

    pub fn new(key_pool: KeyPool, max_retries: u32) -> (r: Self)
        ensures
            r.spec_pool() == key_pool,
            r.spec_max_retries() == max_retries,
    {
        ProxyEngine { key_pool, max_retries }
    }

    pub fn max_retries(&self) -> (r: u32)
        ensures
            r == self.spec_max_retries(),
    {
        self.max_retries
    }

    /// The pool, for probing and for reading a selected credential.
    pub fn pool_mut(&mut self) -> (r: &mut KeyPool)
        ensures
            *r == old(self).spec_pool(),
            final(self).spec_pool() == *final(r),
            final(self).spec_max_retries() == old(self).spec_max_retries(),
    {
        &mut self.key_pool
    }

    pub fn pool(&self) -> (r: &KeyPool)
        ensures
            *r == self.spec_pool(),
    {
        &self.key_pool
    }

    /// Reads the routing model out of a request body.
    pub fn extract_model_from_body(&self, body: &[u8]) -> (r: Result<String, ProxyError>)
        ensures
            json_model_field(body@) matches Some(m) ==> (r matches Ok(s) && s@ == m),
            json_model_field(body@) is None ==> (r matches Err(e) && e matches
                ProxyError::InvalidJson { .. }),
    {
        match read_model_field(body) {
            Some(model) => Ok(model),
            None => Err(
                ProxyError::InvalidJson {
                    detail: "expected a JSON body with a string `model` field".to_owned(),
                },
            ),
        }
    }

    /// The model a request is routed by; `InvalidJson` when a non-empty POST
    /// body does not parse.
    pub fn routing_model(&self, method: &HttpMethod, body: &[u8]) -> (r: Result<
        String,
        ProxyError,
    >)
        ensures
            spec_routing_model(*method, body@) matches Some(m) ==> (r matches Ok(s) && s@ == m),
            spec_routing_model(*method, body@) is None ==> (r matches Err(e) && e matches
                ProxyError::InvalidJson { .. }),
    {
        if matches!(method, HttpMethod::Post) && body.len() > 0 {
            self.extract_model_from_body(body)
        } else {
            Ok("others".to_owned())
        }
    }

    /// Selects the credential for the next attempt: the model-matched subset
    /// first, the pool-wide cursor once a rotation has been ordered. Fails
    /// with `NoKeyAvailable` exactly when the selection comes up empty.
    pub fn select_attempt_key(&mut self, use_next: bool, model: &str) -> (r: Result<
        usize,
        ProxyError,
    >)
        ensures
            final(self).spec_max_retries() == old(self).spec_max_retries(),
            final(self).spec_pool().spec_keys() == old(self).spec_pool().spec_keys(),
            final(self).spec_pool().spec_strategy() == old(self).spec_pool().spec_strategy(),
            final(self).spec_pool().spec_cache() == old(self).spec_pool().spec_cache(),
            r matches Ok(i) ==> i < old(self).spec_pool().spec_keys().len(),
            r matches Err(e) ==> (e matches ProxyError::NoKeyAvailable { model: m } && m@
                == model@),
            use_next ==> (r is Err <==> old(self).spec_pool().spec_keys().len() == 0),
            !use_next ==> (r is Err <==> spec_matching(
                old(self).spec_pool().spec_keys(),
                model@,
            ).len() == 0),
            !use_next ==> (r matches Ok(i) ==> old(self).spec_pool().spec_keys()[
                i as int].spec_supports_model(model@)),

            use_next && old(self).spec_pool().spec_keys().len() > 0 ==> (r matches Ok(i)
                && i as int == old(self).spec_pool().spec_cursor() % (old(
                self,
            ).spec_pool().spec_keys().len() as nat)),
            !use_next && spec_matching(old(self).spec_pool().spec_keys(), model@).len() > 0 ==> (
            if old(self).spec_pool().spec_strategy() is LeastLatency {
                r matches Ok(i) && i as int == KeyPool::spec_ll_pick(
                    old(self).spec_pool().spec_keys(),
                    model@,
                    old(self).spec_pool().spec_cache(),
                )
            } else {
                r matches Ok(i) && i as int == KeyPool::spec_rr_pick(
                    old(self).spec_pool().spec_keys(),
                    model@,
                    old(self).spec_pool().spec_cursor(),
                )
            }),
    {
        let picked = if use_next {
            self.key_pool.get_next_key()
        } else {
            self.key_pool.get_key_for_model(model)
        };
        match picked {
            Some(i) => Ok(i),
            None => Err(ProxyError::NoKeyAvailable { model: model.to_owned() }),
        }
    }
}

} // verus!

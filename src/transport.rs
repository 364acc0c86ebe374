//! Retry policies and the classification of exchange responses.
use vstd::prelude::*;

verus! {

/// How long to wait after a failed attempt.
#[derive(Clone, Copy, Debug, PartialEq, Eq, Structural)]
pub enum Backoff {
    /// `step_ms` times the number of the attempt that failed.
    Linear { step_ms: u64 },
    /// The same delay after every failure.
    Fixed { delay_ms: u64 },
}

/// A bounded number of attempts with a backoff between them.
#[derive(Clone, Copy, Debug, PartialEq, Eq, Structural)]
pub struct RetryPolicy {
    pub max_attempts: u32,
    pub backoff: Backoff,
}

/// How one attempt ended.
#[derive(Clone, Copy, Debug, PartialEq, Eq, Structural)]
pub enum AttemptOutcome {
    Success,
    /// A failure that retrying at this level cannot mend.
    Terminal,
    /// A failure worth another attempt.
    Transient,
}

/// What to do after an attempt.
#[derive(Clone, Copy, Debug, PartialEq, Eq, Structural)]
pub enum RetryStep {
    /// The attempt succeeded.
    Done,
    /// The failure is returned as it is.
    GiveUp,
    /// Wait, then make attempt `next_attempt`.
    Wait { delay_ms: u64, next_attempt: u32 },
    /// Every attempt failed.
    Exhausted,
}

/// How an exchange response reads.
#[derive(Clone, Copy, Debug, PartialEq, Eq, Structural)]
pub enum ResponseClass {
    /// A 2xx response whose status code is the success code `"0"`.
    Accepted,
    /// A 2xx response with any other status code, or none.
    BusinessError,
    /// No response, or a status outside 2xx.
    TransportError,
}

pub open spec fn delay_after(b: Backoff, attempt: nat) -> nat {
    match b {
        Backoff::Linear { step_ms } => {
            let d = step_ms as nat * attempt;
            if d > u64::MAX {
                u64::MAX as nat
            } else {
                d
            }
        },
        Backoff::Fixed { delay_ms } => delay_ms as nat,
    }
}

pub open spec fn next_step(p: RetryPolicy, attempt: nat, outcome: AttemptOutcome) -> RetryStep {
    match outcome {
        AttemptOutcome::Success => RetryStep::Done,
        AttemptOutcome::Terminal => RetryStep::GiveUp,
        AttemptOutcome::Transient => if attempt < p.max_attempts {
            RetryStep::Wait {
                delay_ms: delay_after(p.backoff, attempt) as u64,
                next_attempt: (attempt + 1) as u32,
            }
        } else {
            RetryStep::Exhausted
        },
    }
}

impl RetryPolicy {
    /// Signed requests: three attempts, 500 ms times the attempt between them.
    pub fn transport() -> (r: RetryPolicy)
        ensures
            r == (RetryPolicy { max_attempts: 3, backoff: Backoff::Linear { step_ms: 500 } }),
    {
        RetryPolicy { max_attempts: 3, backoff: Backoff::Linear { step_ms: 500 } }
    }

    /// Order submission: ten attempts, one second apart.
    pub fn order_submission() -> (r: RetryPolicy)
        ensures
            r == (RetryPolicy { max_attempts: 10, backoff: Backoff::Fixed { delay_ms: 1000 } }),
    {
        RetryPolicy { max_attempts: 10, backoff: Backoff::Fixed { delay_ms: 1000 } }
    }

    /// The equity baseline at startup: five attempts, five seconds apart.
    pub fn capital_bootstrap() -> (r: RetryPolicy)
        ensures
            r == (RetryPolicy { max_attempts: 5, backoff: Backoff::Fixed { delay_ms: 5000 } }),
    {
        RetryPolicy { max_attempts: 5, backoff: Backoff::Fixed { delay_ms: 5000 } }
    }

    /// Delay after attempt `attempt` failed, saturating at `u64::MAX`.
    pub fn delay_ms(&self, attempt: u32) -> (r: u64)
        ensures
            r as nat == delay_after(self.backoff, attempt as nat),
    {
        match self.backoff {
            Backoff::Linear { step_ms } => {
                proof {
                    assert((step_ms as u128) * (attempt as u128) <= u128::MAX) by (nonlinear_arith)
                        requires
                            step_ms <= u64::MAX,
                            attempt <= u32::MAX,
                    ;
                }
                let d = (step_ms as u128) * (attempt as u128);
                if d > u64::MAX as u128 {
                    u64::MAX
                } else {
                    d as u64
                }
            },
            Backoff::Fixed { delay_ms } => delay_ms,
        }
    }

    /// What follows attempt `attempt` (counted from 1) ending in `outcome`:
    /// success ends, a terminal failure is handed back at once, a transient
    /// one is retried after the backoff until the attempts run out.
    pub fn after_attempt(&self, attempt: u32, outcome: AttemptOutcome) -> (r: RetryStep)
        ensures
            r == next_step(*self, attempt as nat, outcome),
    {
        match outcome {
            AttemptOutcome::Success => RetryStep::Done,
            AttemptOutcome::Terminal => RetryStep::GiveUp,
            AttemptOutcome::Transient => {
                if attempt < self.max_attempts {
                    RetryStep::Wait { delay_ms: self.delay_ms(attempt), next_attempt: attempt + 1 }
                } else {
                    RetryStep::Exhausted
                }
            },
        }
    }
}

pub open spec fn response_class(http_success: bool, code: Option<Seq<char>>) -> ResponseClass {
    if !http_success {
        ResponseClass::TransportError
    } else if code == Some("0"@) {
        ResponseClass::Accepted
    } else {
        ResponseClass::BusinessError
    }
}

/// Reads an exchange response from whether its HTTP status was 2xx and the
/// status code in its body, if any.
pub fn classify_response(http_success: bool, code: &Option<String>) -> (r: ResponseClass)
    ensures
        r == response_class(
            http_success,
            match code {
                Some(c) => Some(c@),
                None => None,
            },
        ),
{
    if !http_success {
        return ResponseClass::TransportError;
    }
    match code {
        Some(c) => {
            if *c == String::from_str("0") {
                ResponseClass::Accepted
            } else {
                ResponseClass::BusinessError
            }
        },
        None => ResponseClass::BusinessError,
    }
}

/// A transport failure is worth retrying; a business error is not.
pub fn attempt_outcome(c: ResponseClass) -> (r: AttemptOutcome)
    ensures
        r == match c {
            ResponseClass::Accepted => AttemptOutcome::Success,
            ResponseClass::BusinessError => AttemptOutcome::Terminal,
            ResponseClass::TransportError => AttemptOutcome::Transient,
        },
{
    match c {
        ResponseClass::Accepted => AttemptOutcome::Success,
        ResponseClass::BusinessError => AttemptOutcome::Terminal,
        ResponseClass::TransportError => AttemptOutcome::Transient,
    }
}

} // verus!

//! Per-trial outcomes and their aggregation into a verdict.

use vstd::prelude::*;

use crate::strutil::{contains_seq, contains_str};

verus! {

/// The outcome of one probe through one proxy URI.
#[derive(Clone, Debug, PartialEq)]
pub enum ProxyTestResult {
    /// The request went through (and the body matched, when a match string
    /// was configured).
    Success,
    /// The request exceeded the configured timeout.
    Timeout,
    /// The request went through but the body lacked the configured match
    /// string: the proxy worked, the target's answer did not satisfy the check.
    TextNotFound,
    /// Any other transport failure, with its cause description.
    Failure(String),
}

/// What one probe attempt observed, stripped down to plain values: either the
/// response body, or which kind of transport error ended the attempt.
#[derive(Debug)]
pub enum ProbeEvent {
    /// The target answered; the body text is carried.
    Response(String),
    /// The request timed out.
    TimedOut,
    /// Any other transport failure, with its cause description.
    TransportFailure(String),
}

/// Reduce one probe observation to a trial outcome: a response is a success
/// unless a configured match string is missing from the body; a timeout and
/// any other transport failure keep their identity.
pub fn classify_probe(event: ProbeEvent, check_str: &Option<String>) -> (r: ProxyTestResult)
    ensures
        event matches ProbeEvent::Response(b) ==> {
            &&& check_str is None ==> r is Success
            &&& check_str matches Some(c) ==> if contains_seq(b@, c@) {
                r is Success
            } else {
                r is TextNotFound
            }
        },
        event is TimedOut ==> r is Timeout,
        event matches ProbeEvent::TransportFailure(m) ==> r matches ProxyTestResult::Failure(f)
            && f@ == m@,
{
    match event {
        ProbeEvent::Response(body) => match check_str {
            Some(c) => {
                if contains_str(body.as_str(), c.as_str()) {
                    ProxyTestResult::Success
                } else {
                    ProxyTestResult::TextNotFound
                }
            },
            None => ProxyTestResult::Success,
        },
        ProbeEvent::TimedOut => ProxyTestResult::Timeout,
        ProbeEvent::TransportFailure(m) => ProxyTestResult::Failure(m),
    }
}

/// How many outcomes in `s` are successes.
pub open spec fn count_success(s: Seq<ProxyTestResult>) -> nat
    decreases s.len(),
{
    if s.len() == 0 {
        0
    } else {
        count_success(s.drop_last()) + if s.last() is Success {
            1nat
        } else {
            0
        }
    }
}

/// How many outcomes in `s` are timeouts.
pub open spec fn count_timeout(s: Seq<ProxyTestResult>) -> nat
    decreases s.len(),
{
    if s.len() == 0 {
        0
    } else {
        count_timeout(s.drop_last()) + if s.last() is Timeout {
            1nat
        } else {
            0
        }
    }
}

/// How many outcomes in `s` are content mismatches.
pub open spec fn count_text_not_found(s: Seq<ProxyTestResult>) -> nat
    decreases s.len(),
{
    if s.len() == 0 {
        0
    } else {
        count_text_not_found(s.drop_last()) + if s.last() is TextNotFound {
            1nat
        } else {
            0
        }
    }
}

/// How many outcomes in `s` are other transport failures.
pub open spec fn count_failure(s: Seq<ProxyTestResult>) -> nat
    decreases s.len(),
{
    if s.len() == 0 {
        0
    } else {
        count_failure(s.drop_last()) + if s.last() is Failure {
            1nat
        } else {
            0
        }
    }
}

/// Every outcome is of exactly one kind, so the per-kind counts of a trial
/// history always sum to the number of trials.
pub proof fn lemma_outcome_counts_partition(s: Seq<ProxyTestResult>)
    ensures
        count_success(s) + count_timeout(s) + count_text_not_found(s) + count_failure(s)
            == s.len(),
    decreases s.len(),
{
    if s.len() > 0 {
        lemma_outcome_counts_partition(s.drop_last());
    }
}

/// The success count never exceeds the number of trials.
pub proof fn lemma_count_success_le_len(s: Seq<ProxyTestResult>)
    ensures
        count_success(s) <= s.len(),
    decreases s.len(),
{
    if s.len() > 0 {
        lemma_count_success_le_len(s.drop_last());
    }
}

/// The aggregate over one proxy URI's full trial sequence.
pub struct Verdict {
    /// Every outcome, in trial order; nothing is discarded.
    pub outcomes: Vec<ProxyTestResult>,
    /// How many of the outcomes are successes.
    pub success_count: u8,
    /// How many trials were run.
    pub repeat_total: u8,
}

/// The three-way classification of a verdict.
#[derive(Clone, Copy, Debug, PartialEq, Eq, Structural)]
pub enum VerdictClass {
    AllSucceeded,
    PartialSuccess,
    NeverSucceeded,
}

impl Verdict {
    /// A verdict faithfully summarizes its trial history.
    pub open spec fn wf(self) -> bool {
        &&& self.outcomes@.len() == self.repeat_total as nat
        &&& self.success_count as nat == count_success(self.outcomes@)
    }

    /// The classification: all trials succeeded, none did, or some did.
    pub open spec fn spec_class(self) -> VerdictClass {
        if self.success_count == self.repeat_total {
            VerdictClass::AllSucceeded
        } else if self.success_count == 0 {
            VerdictClass::NeverSucceeded
        } else {
            VerdictClass::PartialSuccess
        }
    }

    /// Classify the verdict.
    pub fn classification(&self) -> (c: VerdictClass)
        ensures
            c == self.spec_class(),
    {
        if self.success_count == self.repeat_total {
            VerdictClass::AllSucceeded
        } else if self.success_count == 0 {
            VerdictClass::NeverSucceeded
        } else {
            VerdictClass::PartialSuccess
        }
    }
}

/// Reduce a full trial history to its verdict, counting the successes.
pub fn aggregate(outcomes: Vec<ProxyTestResult>, repeat_total: u8) -> (v: Verdict)
    requires
        outcomes@.len() == repeat_total as nat,
    ensures
        v.wf(),
        v.outcomes@ == outcomes@,
        v.repeat_total == repeat_total,
        v.success_count as nat == count_success(outcomes@),
{
    let mut count: u8 = 0;
    let mut i: usize = 0;
    proof {
        assert(outcomes@.take(0) =~= Seq::<ProxyTestResult>::empty());
    }
    while i < outcomes.len()
        invariant
            outcomes@.len() == repeat_total as nat,
            0 <= i <= outcomes@.len(),
            count as nat == count_success(outcomes@.take(i as int)),
            count <= i,
        decreases outcomes@.len() - i,
    {
        proof {
            assert(outcomes@.take(i as int + 1).drop_last() =~= outcomes@.take(i as int));
            assert(outcomes@.take(i as int + 1).last() == outcomes@[i as int]);
        }
        if matches!(outcomes[i], ProxyTestResult::Success) {
            count += 1;
        }
        i += 1;
    }
    proof {
        assert(outcomes@.take(outcomes@.len() as int) =~= outcomes@);
    }
    Verdict { outcomes, success_count: count, repeat_total }
}

/// In a well-formed verdict the per-kind outcome counts sum to the repeat
/// count: every trial is accounted for, none is discarded or double-counted.
pub proof fn lemma_verdict_counts_sum_to_repeat(v: Verdict)
    requires
        v.wf(),
    ensures
        count_success(v.outcomes@) + count_timeout(v.outcomes@) + count_text_not_found(v.outcomes@)
            + count_failure(v.outcomes@) == v.repeat_total as nat,
{
    lemma_outcome_counts_partition(v.outcomes@);
}

/// The three classifications are mutually exclusive and exhaustive: with at
/// least one trial, a verdict is all-succeeded exactly when every trial
/// succeeded, never-succeeded exactly when none did, and a partial success
/// exactly when the success count lies strictly in between.
pub proof fn lemma_classification_partition(v: Verdict)
    requires
        v.wf(),
        v.repeat_total >= 1,
    ensures
        v.spec_class() is AllSucceeded <==> v.success_count == v.repeat_total,
        v.spec_class() is NeverSucceeded <==> v.success_count == 0,
        v.spec_class() is PartialSuccess <==> 0 < v.success_count < v.repeat_total,
{
    lemma_count_success_le_len(v.outcomes@);
}

} // verus!

use vstd::prelude::*;

verus! {

/// The payment states a mint reports for a minting quote. `Issued` is the
/// quote's terminal success (tokens already handed out); `Expired` stands for
/// the absorbing failure reached on mint-reported expiry.
#[derive(Clone, Copy, PartialEq, Eq, Structural, Debug)]
pub enum QuoteState {
    Unpaid,
    Paid,
    Issued,
    Expired,
}

/// A minting quote: its identifier, the invoice to pay, and the last
/// observed payment state.
pub struct MintQuote {
    pub quote_id: String,
    pub payment_request: String,
    pub state: QuoteState,
}

/// What the poller does after one observation.
#[derive(Clone, Copy, PartialEq, Eq, Structural, Debug)]
pub enum PollDecision {
    /// Keep polling after the bounded interval.
    Continue,
    /// Payment observed: proceed to minting.
    Proceed,
    /// The quote can no longer lead to minting.
    Fail,
}

/// How a bounded polling run ended.
#[derive(Clone, Copy, PartialEq, Eq, Structural, Debug)]
pub enum PollOutcome {
    /// `Paid` was observed: minting may proceed.
    PaymentConfirmed,
    /// A state was observed from which minting can never proceed.
    QuoteFailed,
    /// The observation budget ran out with the quote still unpaid.
    Exhausted,
}

/// One step of the payment state machine. The poller proceeds only on
/// `Paid`; repeated `Unpaid` observations are tolerated (no monotonic
/// progression is assumed); a quote seen `Expired`, or already `Issued`, can
/// no longer trigger minting and fails.
pub open spec fn spec_poll_step(observed: QuoteState) -> PollDecision {
    match observed {
        QuoteState::Unpaid => PollDecision::Continue,
        QuoteState::Paid => PollDecision::Proceed,
        QuoteState::Issued => PollDecision::Fail,
        QuoteState::Expired => PollDecision::Fail,
    }
}

/// The decision taken on one observed state.
pub fn poll_step(observed: QuoteState) -> (d: PollDecision)
    ensures
        d == spec_poll_step(observed),
{
    match observed {
        QuoteState::Unpaid => PollDecision::Continue,
        QuoteState::Paid => PollDecision::Proceed,
        QuoteState::Issued => PollDecision::Fail,
        QuoteState::Expired => PollDecision::Fail,
    }
}

/// The index of the first observation on which the poller stops.
pub open spec fn first_decisive(s: Seq<QuoteState>) -> int
    decreases s.len(),
{
    if s.len() == 0 {
        0
    } else if spec_poll_step(s[0]) != PollDecision::Continue {
        0
    } else {
        1 + first_decisive(s.drop_first())
    }
}

/// Drive the payment state machine over a given sequence of observed states,
/// one status check per observation: exactly the checks up to and including
/// the first decisive observation are used, and the run ends `Exhausted`
/// when the budget runs out first. The wait between checks is the caller's.
pub fn run_poll(observations: &Vec<QuoteState>) -> (r: (usize, PollOutcome))
    ensures
        first_decisive(observations@) < observations@.len() ==> {
            &&& r.0 == first_decisive(observations@) + 1
            &&& (r.1 == PollOutcome::PaymentConfirmed <==> observations@[first_decisive(
                observations@,
            )] == QuoteState::Paid)
            &&& (r.1 == PollOutcome::PaymentConfirmed || r.1 == PollOutcome::QuoteFailed)
        },
        first_decisive(observations@) >= observations@.len() ==> r.0 == observations@.len()
            && r.1 == PollOutcome::Exhausted,
{
    let mut i: usize = 0;
    proof {
        assert(observations@.skip(0) =~= observations@);
        lemma_first_decisive_nonneg(observations@);
    }
    while i < observations.len()
        invariant
            0 <= i <= observations.len(),
            first_decisive(observations@) == i + first_decisive(observations@.skip(i as int)),
            first_decisive(observations@.skip(i as int)) >= 0,
        decreases observations.len() - i,
    {
        proof {
            assert(observations@.skip(i as int)[0] == observations@[i as int]);
            assert(observations@.skip(i as int).drop_first() =~= observations@.skip(i + 1));
            lemma_first_decisive_nonneg(observations@.skip(i + 1));
        }
        let d = poll_step(observations[i]);
        match d {
            PollDecision::Continue => {
                i = i + 1;
            },
            PollDecision::Proceed => {
                return (i + 1, PollOutcome::PaymentConfirmed);
            },
            PollDecision::Fail => {
                return (i + 1, PollOutcome::QuoteFailed);
            },
        }
    }
    proof {
        assert(observations@.skip(observations@.len() as int) =~= Seq::<QuoteState>::empty());
    }
    (observations.len(), PollOutcome::Exhausted)
}

pub proof fn lemma_first_decisive_nonneg(s: Seq<QuoteState>)
    ensures
        first_decisive(s) >= 0,
    decreases s.len(),
{
    if s.len() > 0 && spec_poll_step(s[0]) == PollDecision::Continue {
        lemma_first_decisive_nonneg(s.drop_first());
    }
}

} // verus!

use vstd::prelude::*;
use crate::ratio::{Frac, Ratio, frac_mul, frac_div, frac_eq, frac_fits};

verus! {

/// Why a posterior could not be computed.
#[derive(Clone, Copy, Debug, PartialEq, Eq, Structural)]
pub enum BayesError {
    /// The evidence (the normalizing term) is zero, so the quotient is undefined.
    ZeroEvidence,
    /// The exact posterior has a part that does not fit in a `u64`.
    Overflow,
}

/// A belief in a hypothesis, held by value.
#[derive(Clone, Copy, Debug, PartialEq, Eq, Structural)]
pub struct Hypothesis {
    pub probability: Ratio,
}

/// What was observed: its probability given the hypothesis, and its
/// probability independent of any hypothesis (the evidence).
#[derive(Clone, Copy, Debug, PartialEq, Eq, Structural)]
pub struct Observation {
    pub dependent_probability: Ratio,
    pub independent_probability: Ratio,
}

/// The exact posterior `prior * likelihood / evidence` as an unreduced fraction.
pub open spec fn posterior_frac(prior: Frac, likelihood: Frac, evidence: Frac) -> Frac {
    frac_div(frac_mul(prior, likelihood), evidence)
}

/// What the raw calculation returns for the given inputs.
pub open spec fn bayes_update(prior: Ratio, likelihood: Ratio, evidence: Ratio) -> Result<
    Ratio,
    BayesError,
> {
    if evidence.num == 0 {
        Err(BayesError::ZeroEvidence)
    } else if !frac_fits(posterior_frac(prior@, likelihood@, evidence@)) {
        Err(BayesError::Overflow)
    } else {
        Ok(Ratio::from_frac(posterior_frac(prior@, likelihood@, evidence@)))
    }
}

/// What the structural calculation returns for a hypothesis and an observation.
pub open spec fn observation_update(h: Hypothesis, o: Observation) -> Result<Ratio, BayesError> {
    let p = h.probability;
    let d = o.dependent_probability;
    let i = o.independent_probability;
    let n = p.num * d.num * i.den;
    let m = p.den * d.den * i.num;
    if i.num == 0 {
        Err(BayesError::ZeroEvidence)
    } else if n > u64::MAX || m > u64::MAX {
        Err(BayesError::Overflow)
    } else {
        Ok(Ratio { num: n as u64, den: m as u64 })
    }
}

/// The hypothesis after `n` successive updates by the same observation,
/// each feeding the previous posterior back in as the prior.
pub open spec fn repeated_update(h: Hypothesis, o: Observation, n: nat) -> Result<
    Hypothesis,
    BayesError,
>
    decreases n,
{
    if n == 0 {
        Ok(h)
    } else {
        match repeated_update(h, o, (n - 1) as nat) {
            Ok(prev) => match observation_update(prev, o) {
                Ok(q) => Ok(Hypothesis { probability: q }),
                Err(e) => Err(e),
            },
            Err(e) => Err(e),
        }
    }
}

impl Hypothesis {
    pub open spec fn wf(&self) -> bool {
        self.probability.wf()
    }

    pub fn new(probability: Ratio) -> (r: Hypothesis)
        ensures
            r.probability == probability,
    {
        Hypothesis { probability }
    }

    /// A second, independent hypothesis holding this one's current probability.
    pub fn snapshot(&self) -> (r: Hypothesis)
        ensures
            r == *self,
    {
        Hypothesis { probability: self.probability }
    }

    pub fn set_probability(&mut self, probability: Ratio)
        ensures
            final(self).probability == probability,
    {
        self.probability = probability;
    }

    /// Replaces the probability with the posterior after `o`; on error the
    /// hypothesis is left as it was.
    pub fn update(&mut self, o: &Observation) -> (r: Result<(), BayesError>)
        requires
            old(self).wf(),
            o.wf(),
        ensures
            match observation_update(*old(self), *o) {
                Ok(q) => r is Ok && final(self).probability == q,
                Err(e) => r == Err::<(), BayesError>(e) && *final(self) == *old(self),
            },
            final(self).wf(),
    {
        match calculate_posterior_for_observation(self, o) {
            Ok(q) => {
                self.probability = q;
                Ok(())
            },
            Err(e) => Err(e),
        }
    }
}

impl Observation {
    pub open spec fn wf(&self) -> bool {
        self.dependent_probability.wf() && self.independent_probability.wf()
    }

    pub fn new(dependent_probability: Ratio, independent_probability: Ratio) -> (r: Observation)
        ensures
            r.dependent_probability == dependent_probability,
            r.independent_probability == independent_probability,
    {
        Observation { dependent_probability, independent_probability }
    }
}

proof fn lemma_product_exceeds(a: nat, b: nat)
    requires
        a > u64::MAX,
        b >= 1,
    ensures
        a * b > u64::MAX,
{
    assert(a * b >= a) by (nonlinear_arith)
        requires
            b >= 1,
    ;
}

/// `a * b * c` for `u64` parts, or `None` when it does not fit, with `c`
/// non-zero.
fn checked_product3(a: u64, b: u64, c: u64) -> (r: Option<u64>)
    requires
        c >= 1,
    ensures
        a * b * c <= u64::MAX <==> r is Some,
        r matches Some(v) ==> v == a * b * c,
{
    match a.checked_mul(b) {
        Some(ab) => ab.checked_mul(c),
        None => {
            proof {
                lemma_product_exceeds((a * b) as nat, c as nat);
            }
            None
        },
    }
}

/// The posterior `prior * likelihood / evidence`, exactly.
///
/// Fails with `ZeroEvidence` when the evidence is zero, and with `Overflow`
/// when a part of the exact (unreduced) result does not fit in a `u64`.
pub fn calculate_bayesian_posterior(prior: Ratio, likelihood: Ratio, evidence: Ratio) -> (r: Result<
    Ratio,
    BayesError,
>)
    requires
        prior.wf(),
        likelihood.wf(),
        evidence.wf(),
    ensures
        r == bayes_update(prior, likelihood, evidence),
        r matches Ok(q) ==> q.wf() && q@ == posterior_frac(prior@, likelihood@, evidence@),
        r is Ok <==> evidence.num != 0 && frac_fits(posterior_frac(prior@, likelihood@, evidence@)),
{
    if evidence.num == 0 {
        return Err(BayesError::ZeroEvidence);
    }
    let num = checked_product3(prior.num, likelihood.num, evidence.den);
    let den = checked_product3(likelihood.den, prior.den, evidence.num);
    proof {
        assert(likelihood.den * prior.den * evidence.num == prior.den * likelihood.den * evidence.num)
            by (nonlinear_arith);
        assert(prior.den * likelihood.den * evidence.num >= 1) by (nonlinear_arith)
            requires
                prior.den >= 1,
                likelihood.den >= 1,
                evidence.num >= 1,
        ;
    }
    match (num, den) {
        (Some(n), Some(d)) => Ok(Ratio { num: n, den: d }),
        _ => Err(BayesError::Overflow),
    }
}

/// The posterior of `hypothesis` after `observation`: the raw calculation on
/// the hypothesis's probability, the observation's dependent probability and
/// its independent probability. Neither argument is changed.
pub fn calculate_posterior_for_observation(hypothesis: &Hypothesis, observation: &Observation) -> (r:
    Result<Ratio, BayesError>)
    requires
        hypothesis.wf(),
        observation.wf(),
    ensures
        r == observation_update(*hypothesis, *observation),
        r matches Ok(q) ==> q.wf(),
{
    let r = calculate_bayesian_posterior(
        hypothesis.probability,
        observation.dependent_probability,
        observation.independent_probability,
    );
    proof {
        lemma_structural_matches_raw(*hypothesis, *observation);
    }
    r
}

/// Applies `observation` to `hypothesis` `times` times in succession, each
/// posterior becoming the next prior. Stops at the first error.
pub fn apply_repeatedly(hypothesis: Hypothesis, observation: &Observation, times: u64) -> (r: Result<
    Hypothesis,
    BayesError,
>)
    requires
        hypothesis.wf(),
        observation.wf(),
    ensures
        r == repeated_update(hypothesis, *observation, times as nat),
        r matches Ok(h) ==> h.wf(),
{
    let mut current = hypothesis;
    let mut i: u64 = 0;
    while i < times
        invariant
            i <= times,
            current.wf(),
            observation.wf(),
            repeated_update(hypothesis, *observation, i as nat) == Ok::<Hypothesis, BayesError>(current),
        decreases times - i,
    {
        match calculate_posterior_for_observation(&current, observation) {
            Ok(q) => {
                current = Hypothesis { probability: q };
            },
            Err(e) => {
                proof {
                    lemma_error_persists(hypothesis, *observation, (i + 1) as nat, times as nat);
                }
                return Err(e);
            },
        }
        i = i + 1;
    }
    Ok(current)
}

/// Once repeated updating fails, every longer run fails with the same error.
pub proof fn lemma_error_persists(h: Hypothesis, o: Observation, k: nat, n: nat)
    requires
        k <= n,
        repeated_update(h, o, k) is Err,
    ensures
        repeated_update(h, o, n) == repeated_update(h, o, k),
    decreases n - k,
{
    if k < n {
        lemma_error_persists(h, o, k, (n - 1) as nat);
    }
}

/// The raw and the structural calculation agree exactly when handed the same
/// prior, likelihood and evidence.
pub proof fn lemma_structural_matches_raw(h: Hypothesis, o: Observation)
    ensures
        observation_update(h, o) == bayes_update(
            h.probability,
            o.dependent_probability,
            o.independent_probability,
        ),
{
}

/// The posterior is the quotient of prior times likelihood by the evidence:
/// posterior times evidence equals prior times likelihood.
pub proof fn lemma_posterior_balances(prior: Ratio, likelihood: Ratio, evidence: Ratio)
    requires
        prior.wf(),
        likelihood.wf(),
        evidence.wf(),
        evidence.num != 0,
    ensures
        frac_eq(
            frac_mul(posterior_frac(prior@, likelihood@, evidence@), evidence@),
            frac_mul(prior@, likelihood@),
        ),
        bayes_update(prior, likelihood, evidence) matches Ok(q) ==> frac_eq(
            frac_mul(q@, evidence@),
            frac_mul(prior@, likelihood@),
        ),
{
    let (pn, pd) = (prior.num as int, prior.den as int);
    let (ln, ld) = (likelihood.num as int, likelihood.den as int);
    let (en, ed) = (evidence.num as int, evidence.den as int);
    assert((pn * ln * ed) * en * (pd * ld) == (pn * ln) * ((pd * ld * en) * ed))
        by (nonlinear_arith);
}

/// Copying a hypothesis takes its probability by value: changing the
/// original's probability afterwards leaves the copy's probability as it was
/// when the copy was made.
pub proof fn lemma_snapshot_is_independent(a: Hypothesis, p: Ratio)
    ensures
        ({
            let b = Hypothesis { probability: a.probability };
            let a2 = Hypothesis { probability: p };
            b.probability == a.probability && a2.probability == p
        }),
{
}

} // verus!

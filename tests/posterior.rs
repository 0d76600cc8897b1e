use bayes::posterior::{
    apply_repeatedly, calculate_bayesian_posterior, calculate_posterior_for_observation,
    BayesError, Hypothesis, Observation,
};
use bayes::ratio::Ratio;

fn ratio(num: u64, den: u64) -> Ratio {
    Ratio::new(num, den).unwrap()
}

#[test]
fn test_bayesian_raw_calculation() {
    let prior = ratio(5, 100);
    let likelihood = ratio(85, 100);
    let data = ratio(25, 100);

    let posterior = calculate_bayesian_posterior(prior, likelihood, data).unwrap();
    assert!(posterior.same_value(&ratio(17, 100)));
}

#[test]
fn test_bayesian_model() {
    let hypothesis = Hypothesis::new(ratio(5, 100));
    let observation = Observation::new(ratio(85, 100), ratio(25, 100));

    let posterior = calculate_posterior_for_observation(&hypothesis, &observation).unwrap();
    assert!(posterior.same_value(&ratio(17, 100)));
}

#[test]
fn raw_result_is_unreduced_exact_quotient() {
    let posterior =
        calculate_bayesian_posterior(ratio(5, 100), ratio(85, 100), ratio(25, 100)).unwrap();
    assert_eq!(posterior.numerator(), 42500);
    assert_eq!(posterior.denominator(), 250000);
}

#[test]
fn raw_calculation_small_prior() {
    let posterior =
        calculate_bayesian_posterior(ratio(1, 100), ratio(90, 100), ratio(2, 10)).unwrap();
    assert!(posterior.same_value(&ratio(45, 1000)));
    assert!(!posterior.same_value(&ratio(45, 999)));
}

#[test]
fn posterior_times_evidence_is_prior_times_likelihood() {
    let (prior, likelihood, evidence) = (ratio(3, 7), ratio(2, 5), ratio(4, 9));
    let posterior = calculate_bayesian_posterior(prior, likelihood, evidence).unwrap();
    let lhs = posterior.numerator() as u128 * evidence.numerator() as u128
        * (prior.denominator() as u128 * likelihood.denominator() as u128);
    let rhs = posterior.denominator() as u128 * evidence.denominator() as u128
        * (prior.numerator() as u128 * likelihood.numerator() as u128);
    assert_eq!(lhs, rhs);
    assert!(posterior.same_value(&ratio(27, 70)));
}

#[test]
fn structural_agrees_with_raw() {
    let hypothesis = Hypothesis::new(ratio(3, 7));
    let observation = Observation::new(ratio(2, 5), ratio(4, 9));
    assert_eq!(
        calculate_posterior_for_observation(&hypothesis, &observation),
        calculate_bayesian_posterior(ratio(3, 7), ratio(2, 5), ratio(4, 9))
    );
}

#[test]
fn structural_leaves_inputs_unchanged() {
    let hypothesis = Hypothesis::new(ratio(5, 100));
    let observation = Observation::new(ratio(85, 100), ratio(25, 100));
    let _ = calculate_posterior_for_observation(&hypothesis, &observation);
    assert_eq!(hypothesis, Hypothesis::new(ratio(5, 100)));
    assert_eq!(observation, Observation::new(ratio(85, 100), ratio(25, 100)));
}

#[test]
fn two_updates_in_sequence() {
    let mut hypothesis = Hypothesis::new(ratio(1, 100));
    let observation = Observation::new(ratio(90, 100), ratio(20, 100));

    assert_eq!(hypothesis.update(&observation), Ok(()));
    assert!(hypothesis.probability.same_value(&ratio(45, 1000)));
    assert_eq!(hypothesis.update(&observation), Ok(()));
    assert!(hypothesis.probability.same_value(&ratio(2025, 10000)));
}

#[test]
fn apply_repeatedly_matches_stepwise_updates() {
    let start = Hypothesis::new(ratio(1, 100));
    let observation = Observation::new(ratio(90, 100), ratio(20, 100));

    let once = apply_repeatedly(start, &observation, 1).unwrap();
    assert!(once.probability.same_value(&ratio(45, 1000)));
    let twice = apply_repeatedly(start, &observation, 2).unwrap();
    assert!(twice.probability.same_value(&ratio(2025, 10000)));
    assert_eq!(apply_repeatedly(start, &observation, 0), Ok(start));
}

#[test]
fn zero_evidence_is_rejected() {
    assert_eq!(
        calculate_bayesian_posterior(ratio(5, 100), ratio(85, 100), ratio(0, 1)),
        Err(BayesError::ZeroEvidence)
    );
    let mut hypothesis = Hypothesis::new(ratio(5, 100));
    let observation = Observation::new(ratio(85, 100), ratio(0, 3));
    assert_eq!(hypothesis.update(&observation), Err(BayesError::ZeroEvidence));
    assert_eq!(hypothesis, Hypothesis::new(ratio(5, 100)));
    assert_eq!(apply_repeatedly(hypothesis, &observation, 3), Err(BayesError::ZeroEvidence));
}

#[test]
fn oversized_result_is_rejected() {
    let big = ratio(u64::MAX, 1);
    assert_eq!(
        calculate_bayesian_posterior(big, ratio(2, 1), ratio(1, 1)),
        Err(BayesError::Overflow)
    );
    assert_eq!(
        calculate_bayesian_posterior(ratio(1, 1), ratio(1, 1), ratio(1, u64::MAX)).unwrap(),
        ratio(u64::MAX, 1)
    );
}

#[test]
fn repeated_application_stops_at_overflow() {
    let start = Hypothesis::new(ratio(1, 1u64 << 20));
    let observation = Observation::new(ratio(1, 1u64 << 20), ratio(1, 1u64 << 20));
    assert!(apply_repeatedly(start, &observation, 2).is_ok());
    assert_eq!(apply_repeatedly(start, &observation, 3), Err(BayesError::Overflow));
}

#[test]
fn snapshot_is_not_an_alias() {
    let mut monday_rain = Hypothesis::new(ratio(25, 100));
    let tuesday_sunny = monday_rain.snapshot();
    assert!(tuesday_sunny.probability.same_value(&ratio(25, 100)));
    monday_rain.set_probability(ratio(50, 100));
    assert!(tuesday_sunny.probability.same_value(&ratio(25, 100)));
    assert!(monday_rain.probability.same_value(&ratio(50, 100)));
}

#[test]
fn ratio_rejects_zero_denominator() {
    assert_eq!(Ratio::new(1, 0), None);
    assert!(ratio(1, 2).same_value(&ratio(2, 4)));
    assert_ne!(ratio(1, 2), ratio(2, 4));
}

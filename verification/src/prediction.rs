//! What is asked of the service that predicts when an operator is needed next.

use vstd::prelude::*;

verus! {

/// How a prediction is made.
#[derive(Clone, Copy, Debug, PartialEq, Eq, Structural)]
pub enum PredictionModel {
    AutoReg,
    ARIMA,
    SARIME,
    SES,
    Holt,
    Winter,
}

/// A question to the service: when the next reconcile will be, after those at
/// the given times, in milliseconds since the start of 1970.
#[derive(Debug)]
pub struct PredictionRequest {
    pub url: String,
    pub history: Vec<i64>,
    pub function: PredictionModel,
}

/// Asks when the next reconcile will be.
pub fn get_next_reconcile_prediction(history: Vec<i64>, model: PredictionModel) -> (r:
    PredictionRequest)
    ensures
        r.url@ == "http://localhost:5000/prediction"@,
        r.history == history,
        r.function == model,
{
    PredictionRequest {
        url: "http://localhost:5000/prediction".to_owned(),
        history,
        function: model,
    }
}

} // verus!

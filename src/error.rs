use vstd::prelude::*;

verus! {

/// The ways in which building a dataset, building a model, training or
/// predicting can be refused.
#[derive(Clone, Copy, Debug, PartialEq, Eq, Structural)]
pub enum ModelError {
    /// A record has fewer than two fields, a field is not a number, or two
    /// records disagree on how many features they carry.
    MalformedRecord,
    /// The model was asked for no features or for a learning rate that is not positive.
    InvalidHyperparameter,
    /// A feature vector or a dataset does not have as many features as the model has weights.
    DimensionMismatch,
    /// Training was asked for on a dataset without records.
    EmptyDataset,
}

} // verus!

//! A supervised classifier for labeled pixel-grid images: observations are
//! labeled integer vectors, a pluggable metric measures the distance between
//! two images, a nearest-neighbor classifier predicts the label of an unseen
//! image, and an evaluator aggregates prediction accuracy over a validation
//! set.

pub mod classifier;
pub mod distance;
pub mod evaluator;
pub mod observation;

pub use classifier::{BasicClassifier, Classifier, PredictError};
pub use distance::{Distance, EuclideanDistance, ManhattanDistance};
pub use evaluator::{Accuracy, EvalError, Evaluator};
pub use observation::{ObsView, Observation, obs_views};

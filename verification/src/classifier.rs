use vstd::prelude::*;

use crate::distance::Distance;
use crate::observation::{obs_views, ObsView, Observation};

verus! {

/// The index of the nearest training observation to the query `q` under the
/// metric `d`, scanning the training sequence in order and replacing the
/// running best only on a strictly smaller distance, so that the earliest of
/// several equidistant observations wins.
pub open spec fn nearest_idx<D: Distance>(d: D, train: Seq<ObsView>, q: Seq<i32>) -> int
    decreases train.len(),
{
    if train.len() <= 1 {
        0
    } else {
        let prev = nearest_idx(d, train.drop_last(), q);
        if d.dist(train.last().pixels, q) < d.dist(train[prev].pixels, q) {
            train.len() - 1
        } else {
            prev
        }
    }
}

/// The nearest index is in range, attains the minimum distance to the query,
/// and every strictly earlier observation is strictly further away: ties are
/// broken in favor of the first observation in training-set order.
pub proof fn lemma_nearest_idx_first_min<D: Distance>(d: D, train: Seq<ObsView>, q: Seq<i32>)
    requires
        train.len() > 0,
    ensures
        0 <= nearest_idx(d, train, q) < train.len(),
        forall|j: int|
            0 <= j < train.len() ==> d.dist(train[nearest_idx(d, train, q)].pixels, q)
                <= #[trigger] d.dist(train[j].pixels, q),
        forall|j: int|
            0 <= j < nearest_idx(d, train, q) ==> d.dist(train[nearest_idx(d, train, q)].pixels, q)
                < #[trigger] d.dist(train[j].pixels, q),
    decreases train.len(),
{
    if train.len() > 1 {
        lemma_nearest_idx_first_min(d, train.drop_last(), q);
        assert(forall|j: int|
            0 <= j < train.len() - 1 ==> train[j] == train.drop_last()[j]);
    }
}

/// Trains on a set of known observations and predicts the label of an image.
pub trait Classifier: Sized {
    /// The training observations the classifier currently holds, in order.
    spec fn training(&self) -> Seq<ObsView>;

    /// Whether a query may be predicted: there must be at least one training
    /// observation, and every training observation must have as many pixels
    /// as the query.
    spec fn can_predict(&self, q: Seq<i32>) -> bool;

    /// The label the classifier assigns to the query.
    spec fn predicted(&self, q: Seq<i32>) -> Seq<char>;

    /// Replaces the retained training observations with a copy of the given
    /// sequence; later mutation of the caller's collection cannot affect the
    /// classifier.
    fn train(&mut self, training_set: &[Observation])
        ensures
            final(self).training() == obs_views(training_set@),
    ;

    /// Predicts the label of the image in `pixels`.
    fn predict(&self, pixels: &[i32]) -> (r: String)
        requires
            self.can_predict(pixels@),
        ensures
            r@ == self.predicted(pixels@),
    ;
}

/// The failures a prediction can be rejected with.
#[derive(Clone, Copy, Debug, PartialEq, Eq)]
pub enum PredictError {
    /// The classifier holds no training observations, so there is no
    /// neighbor whose label could be returned.
    EmptyTrainingSet,
    /// Some training observation has a different number of pixels than the
    /// query, so a distance to it is undefined.
    DimensionMismatch,
}

/// Classifies an image by exhaustive nearest-neighbor search over a training
/// set, under a configurable distance metric.
pub struct BasicClassifier<D: Distance> {
    pub training_set: Vec<Observation>,
    pub distance: D,
}

impl<D: Distance> Classifier for BasicClassifier<D> {
    open spec fn training(&self) -> Seq<ObsView> {
        obs_views(self.training_set@)
    }

    open spec fn can_predict(&self, q: Seq<i32>) -> bool {
        &&& self.training().len() > 0
        &&& forall|j: int|
            0 <= j < self.training().len() ==> (#[trigger] self.training()[j]).pixels.len()
                == q.len()
    }

    open spec fn predicted(&self, q: Seq<i32>) -> Seq<char> {
        self.training()[nearest_idx(self.distance, self.training(), q)].label
    }

    fn train(&mut self, training_set: &[Observation])
        ensures
            final(self).distance == old(self).distance,
    {
        let mut copied: Vec<Observation> = Vec::new();
        let mut i: usize = 0;
        while i < training_set.len()
            invariant
                i <= training_set@.len(),
                copied@.len() == i,
                forall|j: int| 0 <= j < i ==> (#[trigger] copied@[j])@ == training_set@[j]@,
            decreases training_set@.len() - i,
        {
            let o = &training_set[i];
            let copy = Observation::new(o.label.as_str(), o.pixels.as_slice());
            proof {
                assert(copy@ == training_set@[i as int]@);
            }
            copied.push(copy);
            i = i + 1;
        }
        proof {
            assert(obs_views(copied@) =~= obs_views(training_set@));
        }
        self.training_set = copied;
    }

    /// Scans every training observation once, keeping the smallest distance
    /// seen so far and replacing it only on a strictly smaller one, and
    /// returns the label of the winner.
    fn predict(&self, pixels: &[i32]) -> (r: String) {
        let mut best: usize = 0;
        proof {
            assert(self.training()[0] == self.training_set@[0]@);
            assert(self.training()[0].pixels.len() == pixels@.len());
        }
        let mut shortest_distance: u128 = self.distance.between(
            self.training_set[0].pixels.as_slice(),
            pixels,
        );
        let mut i: usize = 1;
        while i < self.training_set.len()
            invariant
                self.can_predict(pixels@),
                1 <= i <= self.training_set@.len(),
                best < i,
                best == nearest_idx(self.distance, self.training().take(i as int), pixels@),
                shortest_distance == self.distance.dist(self.training()[best as int].pixels, pixels@),
            decreases self.training_set@.len() - i,
        {
            let o = &self.training_set[i];
            proof {
                assert(self.training()[i as int] == self.training_set@[i as int]@);
                assert(self.training()[i as int].pixels.len() == pixels@.len());
            }
            let d = self.distance.between(o.pixels.as_slice(), pixels);
            proof {
                assert(self.training().take(i + 1).drop_last() =~= self.training().take(i as int));
                assert(forall|j: int|
                    0 <= j < i ==> self.training().take(i as int)[j] == self.training().take(
                        i + 1,
                    )[j]);
            }
            if d < shortest_distance {
                shortest_distance = d;
                best = i;
            }
            i = i + 1;
        }
        proof {
            assert(self.training().take(self.training().len() as int) =~= self.training());
        }
        self.training_set[best].label.clone()
    }
}

impl<D: Distance> BasicClassifier<D> {
    /// Predicts the label of the image in `pixels`, first checking the
    /// prediction's preconditions and reporting their violation as an
    /// explicit error instead: an empty training set or a training
    /// observation whose pixel count differs from the query's.
    pub fn checked_predict(&self, pixels: &[i32]) -> (r: Result<String, PredictError>)
        ensures
            r is Ok <==> self.can_predict(pixels@),
            r matches Ok(label) ==> label@ == self.predicted(pixels@),
            r == Err::<String, PredictError>(PredictError::EmptyTrainingSet) <==> self.training().len() == 0,
            r == Err::<String, PredictError>(PredictError::DimensionMismatch) <==> (
                self.training().len() > 0 && exists|j: int|
                    0 <= j < self.training().len() && (#[trigger] self.training()[j]).pixels.len()
                        != pixels@.len()),
    {
        if self.training_set.len() == 0 {
            return Err(PredictError::EmptyTrainingSet);
        }
        let mut i: usize = 0;
        while i < self.training_set.len()
            invariant
                i <= self.training_set@.len(),
                self.training_set@.len() > 0,
                forall|j: int|
                    0 <= j < i ==> (#[trigger] self.training()[j]).pixels.len() == pixels@.len(),
            decreases self.training_set@.len() - i,
        {
            proof {
                assert(self.training()[i as int] == self.training_set@[i as int]@);
            }
            if self.training_set[i].pixels.len() != pixels.len() {
                proof {
                    assert(self.training()[i as int].pixels.len() != pixels@.len());
                }
                return Err(PredictError::DimensionMismatch);
            }
            i = i + 1;
        }
        Ok(self.predict(pixels))
    }
}

/// If some training observation's pixels equal the query exactly, the
/// nearest observation is at distance zero from the query, whatever the
/// metric.
pub proof fn lemma_exact_match_has_distance_zero<D: Distance>(
    d: D,
    train: Seq<ObsView>,
    q: Seq<i32>,
    i: int,
)
    requires
        0 <= i < train.len(),
        train[i].pixels == q,
        forall|j: int| 0 <= j < train.len() ==> (#[trigger] train[j]).pixels.len() == q.len(),
    ensures
        d.dist(train[nearest_idx(d, train, q)].pixels, q) == 0,
{
    lemma_nearest_idx_first_min(d, train, q);
    d.lemma_dist_self_zero(q);
    let k = nearest_idx(d, train, q);
    d.lemma_dist_nonneg(train[k].pixels, q);
    assert(d.dist(train[k].pixels, q) <= d.dist(train[i].pixels, q));
}

/// Under a metric that is zero exactly on equal sequences, predicting a
/// query that occurs in the training set returns the label of its first
/// occurrence: the round trip from a training observation back to its own
/// label.
pub proof fn lemma_exact_match_returns_first_label<D: Distance>(
    d: D,
    train: Seq<ObsView>,
    q: Seq<i32>,
    i: int,
)
    requires
        0 <= i < train.len(),
        train[i].pixels == q,
        forall|j: int| 0 <= j < i ==> (#[trigger] train[j]).pixels != q,
        forall|j: int| 0 <= j < train.len() ==> (#[trigger] train[j]).pixels.len() == q.len(),
        forall|x: Seq<i32>, y: Seq<i32>|
            x.len() == y.len() ==> ((#[trigger] d.dist(x, y)) == 0 <==> x == y),
    ensures
        nearest_idx(d, train, q) == i,
        train[nearest_idx(d, train, q)].label == train[i].label,
{
    lemma_exact_match_has_distance_zero(d, train, q, i);
    lemma_nearest_idx_first_min(d, train, q);
    let k = nearest_idx(d, train, q);
    assert(train[k].pixels == q);
    if k < i {
        assert(train[k].pixels != q);
    }
    if i < k {
        assert(d.dist(train[k].pixels, q) < d.dist(train[i].pixels, q));
        assert(d.dist(train[i].pixels, q) == 0);
        d.lemma_dist_nonneg(train[k].pixels, q);
    }
}

} // verus!

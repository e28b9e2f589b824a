use vstd::prelude::*;
use vstd::seq_lib::{commutative_foldl, lemma_fold_left_permutation};

use rayon::iter::{IntoParallelRefIterator, ParallelIterator};

use crate::classifier::{lemma_exact_match_returns_first_label, BasicClassifier, Classifier};
use crate::distance::{lemma_manhattan_zero_iff_eq, Distance, ManhattanDistance};
use crate::observation::{obs_views, ObsView, Observation};

verus! {

/// 1 when the classifier's prediction for the observation's pixels matches
/// the observation's own label, 0 otherwise.
pub open spec fn match_score<C: Classifier>(c: C, o: ObsView) -> int {
    if c.predicted(o.pixels) == o.label {
        1
    } else {
        0
    }
}

/// The accumulator that adds one observation's match score to a running sum.
pub open spec fn score_acc<C: Classifier>(c: C) -> spec_fn(int, ObsView) -> int {
    |acc: int, o: ObsView| acc + match_score(c, o)
}

/// How many observations of `v` the classifier labels correctly.
pub open spec fn count_correct<C: Classifier>(c: C, v: Seq<ObsView>) -> int {
    v.fold_left(0, score_acc(c))
}

/// The count of correct predictions lies between zero and the number of
/// observations scored.
pub proof fn lemma_count_correct_bounds<C: Classifier>(c: C, v: Seq<ObsView>)
    ensures
        0 <= count_correct(c, v) <= v.len(),
    decreases v.len(),
{
    if v.len() > 0 {
        lemma_count_correct_bounds(c, v.drop_last());
    }
}

/// When every observation in `v` is labeled correctly, the count of correct
/// predictions is the whole length.
pub proof fn lemma_count_correct_all_match<C: Classifier>(c: C, v: Seq<ObsView>)
    requires
        forall|i: int| 0 <= i < v.len() ==> match_score(c, #[trigger] v[i]) == 1,
    ensures
        count_correct(c, v) == v.len(),
    decreases v.len(),
{
    if v.len() > 0 {
        assert(forall|j: int| 0 <= j < v.len() - 1 ==> v.drop_last()[j] == v[j]);
        lemma_count_correct_all_match(c, v.drop_last());
        assert(match_score(c, v[v.len() - 1]) == 1);
    }
}

/// The count of correct predictions is a pure function of the multiset of
/// scored observations: any two evaluation orders of the same observations
/// produce the same count.
pub proof fn lemma_count_correct_order_invariant<C: Classifier>(
    c: C,
    v1: Seq<ObsView>,
    v2: Seq<ObsView>,
)
    requires
        v1.to_multiset() == v2.to_multiset(),
    ensures
        count_correct(c, v1) == count_correct(c, v2),
{
    let f = score_acc(c);
    assert(commutative_foldl(f)) by {
        assert forall|x: ObsView, y: ObsView, acc: int| #[trigger]
            f(f(acc, x), y) == f(f(acc, y), x) by {}
    }
    lemma_fold_left_permutation(v1, v2, f, 0);
}

/// The failure that accuracy aggregation reports.
#[derive(Clone, Copy, Debug, PartialEq, Eq)]
pub enum EvalError {
    /// The validation set is empty: an accuracy ratio over it would divide
    /// by zero.
    EmptyValidationSet,
}

/// An exact accuracy ratio: how many of the `total` scored observations were
/// predicted correctly. The caller may divide the two fields to format a
/// percentage.
#[derive(Clone, Copy, Debug, PartialEq, Eq)]
pub struct Accuracy {
    pub correct: usize,
    pub total: usize,
}

/// Relies on rayon's `ParallelIterator`: `par_iter().map(f).sum()` reduces
/// the values of `f` over every element with `+`, in an unspecified order;
/// `f` here is the verified per-observation score, a value of at most 1, so
/// the `usize` sum cannot overflow, and addition of machine integers is
/// associative and commutative, so the reduction order cannot change the
/// result: it is the sequential sum of the scores.
#[verifier::external_body]
fn par_sum_scores<C: Classifier + Sync>(
    evaluator: &Evaluator,
    validation_set: &[Observation],
    classifier: &C,
) -> (r: usize)
    requires
        forall|i: int|
            0 <= i < validation_set@.len() ==> classifier.can_predict(
                (#[trigger] validation_set@[i])@.pixels,
            ),
    ensures
        r == count_correct(*classifier, obs_views(validation_set@)),
{
    validation_set.par_iter().map(|observation| evaluator.score(observation, classifier)).sum()
}

/// Evaluates a model by computing the proportion of classifications it gets
/// right.
pub struct Evaluator {}

impl Evaluator {
    /// Scores one prediction against the observation's true label: 1 for a
    /// match, 0 for a mismatch, so that scores can be averaged into the
    /// fraction predicted correctly.
    pub fn score<C: Classifier>(&self, observation: &Observation, classifier: &C) -> (r: usize)
        requires
            classifier.can_predict(observation@.pixels),
        ensures
            r == match_score(*classifier, observation@),
    {
        let prediction = classifier.predict(observation.pixels.as_slice());
        if prediction == observation.label {
            1
        } else {
            0
        }
    }

    /// Scores every observation of the validation set independently and
    /// reports how many were predicted correctly out of how many were
    /// scored; an empty validation set is rejected explicitly.
    pub fn percent_correct<C: Classifier + Sync>(
        &self,
        validation_set: &[Observation],
        classifier: &C,
    ) -> (r: Result<Accuracy, EvalError>)
        requires
            forall|i: int|
                0 <= i < validation_set@.len() ==> classifier.can_predict(
                    (#[trigger] validation_set@[i])@.pixels,
                ),
        ensures
            r is Ok <==> validation_set@.len() > 0,
            validation_set@.len() == 0 ==> r == Err::<Accuracy, EvalError>(
                EvalError::EmptyValidationSet,
            ),
            r matches Ok(acc) ==> {
                &&& acc.correct == count_correct(*classifier, obs_views(validation_set@))
                &&& acc.total == validation_set@.len()
                &&& acc.correct <= acc.total
            },
    {
        if validation_set.len() == 0 {
            return Err(EvalError::EmptyValidationSet);
        }
        let correct = par_sum_scores(self, validation_set, classifier);
        proof {
            lemma_count_correct_bounds(*classifier, obs_views(validation_set@));
        }
        Ok(Accuracy { correct, total: validation_set.len() })
    }
}

/// Finds the first index of `tv` whose observation has exactly the pixels
/// `q`, given that some index does.
proof fn lemma_first_exact_match(tv: Seq<ObsView>, q: Seq<i32>, i: int) -> (k: int)
    requires
        0 <= i < tv.len(),
        tv[i].pixels == q,
    ensures
        0 <= k < tv.len(),
        tv[k].pixels == q,
        forall|j: int| 0 <= j < k ==> (#[trigger] tv[j]).pixels != q,
    decreases i,
{
    if exists|j: int| 0 <= j < i && (#[trigger] tv[j]).pixels == q {
        let j = choose|j: int| 0 <= j < i && (#[trigger] tv[j]).pixels == q;
        lemma_first_exact_match(tv, q, j)
    } else {
        i
    }
}

/// A classifier whose metric is zero exactly on equal pixel sequences, and
/// whose training observations never give the same pixels two different
/// labels, classifies every one of its own training observations correctly:
/// validating on the training set itself scores a full count.
pub proof fn lemma_self_validation_all_correct<D: Distance>(c: BasicClassifier<D>)
    requires
        c.training().len() > 0,
        forall|i: int, j: int|
            0 <= i < c.training().len() && 0 <= j < c.training().len() ==> (
            #[trigger] c.training()[i]).pixels.len() == (#[trigger] c.training()[j]).pixels.len(),
        forall|i: int, j: int|
            0 <= i < c.training().len() && 0 <= j < c.training().len() && (
            #[trigger] c.training()[i]).pixels == (#[trigger] c.training()[j]).pixels
                ==> c.training()[i].label == c.training()[j].label,
        forall|x: Seq<i32>, y: Seq<i32>|
            x.len() == y.len() ==> ((#[trigger] c.distance.dist(x, y)) == 0 <==> x == y),
    ensures
        count_correct(c, c.training()) == c.training().len(),
{
    let tv = c.training();
    assert forall|i: int| 0 <= i < tv.len() implies match_score(c, #[trigger] tv[i]) == 1 by {
        let q = tv[i].pixels;
        let k = lemma_first_exact_match(tv, q, i);
        lemma_exact_match_returns_first_label(c.distance, tv, q, k);
        assert(c.predicted(q) == tv[k].label);
        assert(tv[k].label == tv[i].label);
    }
    lemma_count_correct_all_match(c, tv);
}

/// The instance promised of the Manhattan metric: a classifier trained on
/// consistently labeled observations of one common size, validated against
/// its own training set, gets every prediction right.
pub proof fn lemma_manhattan_self_validation(c: BasicClassifier<ManhattanDistance>)
    requires
        c.training().len() > 0,
        forall|i: int, j: int|
            0 <= i < c.training().len() && 0 <= j < c.training().len() ==> (
            #[trigger] c.training()[i]).pixels.len() == (#[trigger] c.training()[j]).pixels.len(),
        forall|i: int, j: int|
            0 <= i < c.training().len() && 0 <= j < c.training().len() && (
            #[trigger] c.training()[i]).pixels == (#[trigger] c.training()[j]).pixels
                ==> c.training()[i].label == c.training()[j].label,
    ensures
        count_correct(c, c.training()) == c.training().len(),
{
    assert forall|x: Seq<i32>, y: Seq<i32>| x.len() == y.len() implies ((
    #[trigger] c.distance.dist(x, y)) == 0 <==> x == y) by {
        lemma_manhattan_zero_iff_eq(x, y);
    }
    lemma_self_validation_all_correct(c);
}

} // verus!

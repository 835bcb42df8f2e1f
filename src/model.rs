use vstd::prelude::*;

use crate::dataset::{DataPoint, Dataset};
use crate::error::ModelError;
use crate::fixed::{Fixed, SCALE};
use crate::scalar::Scalar;

verus! {

/// The sum of `x[i] * w[i]` over the first `n` indices, added from the left.
pub open spec fn dot<T: Scalar>(w: Seq<T>, x: Seq<T>, n: nat) -> T
    decreases n,
{
    if n == 0 {
        T::zero_spec()
    } else {
        dot(w, x, (n - 1) as nat).add_spec(x[n - 1].mul_spec(w[n - 1]))
    }
}

/// The model's estimate for `x`: the weighted sum of the features plus the bias.
pub open spec fn predicted<T: Scalar>(w: Seq<T>, b: T, x: Seq<T>) -> T {
    dot(w, x, w.len()).add_spec(b)
}

/// How far the estimate for a point lies from its label.
pub open spec fn residual<T: Scalar>(w: Seq<T>, b: T, p: DataPoint<T>) -> T {
    predicted(w, b, p.features@).sub_spec(p.label)
}

/// The gradient of weight `i`, summed over the first `m` points.
pub open spec fn grad_weight<T: Scalar>(w: Seq<T>, b: T, pts: Seq<DataPoint<T>>, i: int, m: nat) -> T
    decreases m,
{
    if m == 0 {
        T::zero_spec()
    } else {
        grad_weight(w, b, pts, i, (m - 1) as nat).add_spec(
            residual(w, b, pts[m - 1]).mul_spec(pts[m - 1].features@[i]),
        )
    }
}

/// The gradient of the bias, summed over the first `m` points.
pub open spec fn grad_bias<T: Scalar>(w: Seq<T>, b: T, pts: Seq<DataPoint<T>>, m: nat) -> T
    decreases m,
{
    if m == 0 {
        T::zero_spec()
    } else {
        grad_bias(w, b, pts, (m - 1) as nat).add_spec(residual(w, b, pts[m - 1]))
    }
}

/// Parameter `v` moved against gradient `g`, scaled by `lr / n`.
pub open spec fn descend<T: Scalar>(v: T, lr: T, g: T, n: nat) -> T {
    v.sub_spec(lr.mul_spec(g).div_count_spec(n))
}

/// The weights after one round of full-batch gradient descent: each weight
/// moves by its own gradient.
pub open spec fn step_weights<T: Scalar>(w: Seq<T>, b: T, lr: T, pts: Seq<DataPoint<T>>) -> Seq<T> {
    Seq::new(w.len(), |i: int| descend(w[i], lr, grad_weight(w, b, pts, i, pts.len()), pts.len()))
}

/// The bias after one round of full-batch gradient descent.
pub open spec fn step_bias<T: Scalar>(w: Seq<T>, b: T, lr: T, pts: Seq<DataPoint<T>>) -> T {
    descend(b, lr, grad_bias(w, b, pts, pts.len()), pts.len())
}

/// Weights and bias after `k` rounds of gradient descent from `(w, b)`.
pub open spec fn run<T: Scalar>(w: Seq<T>, b: T, lr: T, pts: Seq<DataPoint<T>>, k: nat) -> (Seq<T>, T)
    decreases k,
{
    if k == 0 {
        (w, b)
    } else {
        let (w1, b1) = run(w, b, lr, pts, (k - 1) as nat);
        (step_weights(w1, b1, lr, pts), step_bias(w1, b1, lr, pts))
    }
}

/// A linear model `bias + sum of weights[i] * features[i]`, fitted by
/// full-batch gradient descent.
pub struct LinearRegression<T> {
    pub weights: Vec<T>,
    pub bias: T,
    pub learning_rate: T,
    pub iterations: usize,
}

fn dot_product<T: Scalar>(w: &Vec<T>, x: &Vec<T>) -> (r: T)
    requires
        w@.len() == x@.len(),
    ensures
        r == dot(w@, x@, w@.len()),
{
    let mut acc = T::zero();
    let mut i: usize = 0;
    while i < w.len()
        invariant
            i <= w@.len(),
            w@.len() == x@.len(),
            acc == dot(w@, x@, i as nat),
        decreases w@.len() - i,
    {
        acc = acc.add(x[i].mul(w[i]));
        i = i + 1;
    }
    acc
}

fn gradients<T: Scalar>(w: &Vec<T>, b: T, dataset: &Dataset<T>) -> (r: (Vec<T>, T))
    requires
        dataset.feature_count_spec() == w@.len(),
    ensures
        r.0@.len() == w@.len(),
        forall|i: int|
            0 <= i < w@.len() ==> r.0@[i] == grad_weight(
                w@,
                b,
                dataset.points(),
                i,
                dataset.points().len(),
            ),
        r.1 == grad_bias(w@, b, dataset.points(), dataset.points().len()),
{
    let ghost pts = dataset.points();
    let k = w.len();
    let mut gw: Vec<T> = Vec::new();
    let mut i: usize = 0;
    while i < k
        invariant
            i <= k,
            gw@.len() == i,
            forall|t: int| 0 <= t < i ==> gw@[t] == T::zero_spec(),
        decreases k - i,
    {
        gw.push(T::zero());
        i = i + 1;
    }
    let mut gb = T::zero();
    let n = dataset.len();
    let mut j: usize = 0;
    while j < n
        invariant
            j <= n,
            n == pts.len(),
            k == w@.len(),
            pts == dataset.points(),
            dataset.feature_count_spec() == k,
            gw@.len() == k,
            forall|t: int| 0 <= t < k ==> gw@[t] == grad_weight(w@, b, pts, t, j as nat),
            gb == grad_bias(w@, b, pts, j as nat),
        decreases n - j,
    {
        let p = dataset.point(j);
        let e = dot_product(w, &p.features).add(b).sub(p.label);
        let mut i: usize = 0;
        while i < k
            invariant
                i <= k,
                j < n,
                n == pts.len(),
                k == w@.len(),
                *p == pts[j as int],
                p.features@.len() == k,
                e == residual(w@, b, pts[j as int]),
                gw@.len() == k,
                forall|t: int| 0 <= t < i ==> gw@[t] == grad_weight(w@, b, pts, t, (j + 1) as nat),
                forall|t: int| i <= t < k ==> gw@[t] == grad_weight(w@, b, pts, t, j as nat),
            decreases k - i,
        {
            let g = gw[i].add(e.mul(p.features[i]));
            gw.set(i, g);
            i = i + 1;
        }
        gb = gb.add(e);
        j = j + 1;
    }
    (gw, gb)
}

impl<T: Scalar> LinearRegression<T> {
    /// A model over `feature_count` features that starts from the given
    /// weights and bias.
    ///
    /// Refused with `InvalidHyperparameter` when `feature_count` is zero or
    /// the learning rate is not positive, and with `DimensionMismatch` when
    /// the starting weights are not `feature_count` many.
    pub fn with_parameters(
        feature_count: usize,
        learning_rate: T,
        iterations: usize,
        weights: Vec<T>,
        bias: T,
    ) -> (r: Result<Self, ModelError>)
        ensures
            feature_count == 0 || !learning_rate.positive_spec() ==> r == Err::<Self, ModelError>(
                ModelError::InvalidHyperparameter,
            ),
            feature_count > 0 && learning_rate.positive_spec() && weights@.len() != feature_count
                ==> r == Err::<Self, ModelError>(ModelError::DimensionMismatch),
            feature_count > 0 && learning_rate.positive_spec() && weights@.len() == feature_count
                ==> (r matches Ok(m) && m.weights@ == weights@ && m.bias == bias
                && m.learning_rate == learning_rate && m.iterations == iterations),
    {
        if feature_count == 0 || !learning_rate.is_positive() {
            return Err(ModelError::InvalidHyperparameter);
        }
        if weights.len() != feature_count {
            return Err(ModelError::DimensionMismatch);
        }
        Ok(LinearRegression { weights, bias, learning_rate, iterations })
    }

    /// The estimate for `features`: `bias + sum of weights[i] * features[i]`.
    pub fn predict(&self, features: &Vec<T>) -> (r: Result<T, ModelError>)
        ensures
            features@.len() != self.weights@.len() ==> r == Err::<T, ModelError>(
                ModelError::DimensionMismatch,
            ),
            features@.len() == self.weights@.len() ==> r == Ok::<T, ModelError>(
                predicted(self.weights@, self.bias, features@),
            ),
    {
        if features.len() != self.weights.len() {
            return Err(ModelError::DimensionMismatch);
        }
        Ok(dot_product(&self.weights, features).add(self.bias))
    }

    /// Runs `iterations` rounds of full-batch gradient descent on `dataset`.
    ///
    /// An empty dataset, or one whose feature count differs from the number
    /// of weights, is refused before anything changes.
    pub fn train(&mut self, dataset: &Dataset<T>) -> (r: Result<(), ModelError>)
        ensures
            dataset.points().len() == 0 ==> r == Err::<(), ModelError>(ModelError::EmptyDataset)
                && *final(self) == *old(self),
            dataset.points().len() > 0 && dataset.feature_count_spec() != old(self).weights@.len()
                ==> r == Err::<(), ModelError>(ModelError::DimensionMismatch) && *final(self)
                == *old(self),
            dataset.points().len() > 0 && dataset.feature_count_spec() == old(self).weights@.len()
                ==> r is Ok && (final(self).weights@, final(self).bias) == run(
                old(self).weights@,
                old(self).bias,
                old(self).learning_rate,
                dataset.points(),
                old(self).iterations as nat,
            ) && final(self).learning_rate == old(self).learning_rate
                && final(self).iterations == old(self).iterations
                && final(self).weights@.len() == dataset.feature_count_spec(),
            old(self).iterations == 0 && dataset.points().len() > 0
                && dataset.feature_count_spec() == old(self).weights@.len() ==> r is Ok
                && *final(self) == *old(self),
    {
        let n = dataset.len();
        if n == 0 {
            return Err(ModelError::EmptyDataset);
        }
        if dataset.feature_count() != self.weights.len() {
            return Err(ModelError::DimensionMismatch);
        }
        let ghost w0 = self.weights@;
        let ghost b0 = self.bias;
        let ghost pts = dataset.points();
        let k = self.weights.len();
        let lr = self.learning_rate;
        let mut it: usize = 0;
        while it < self.iterations
            invariant
                it <= self.iterations,
                self.iterations == old(self).iterations,
                self.learning_rate == lr,
                lr == old(self).learning_rate,
                pts == dataset.points(),
                n == pts.len(),
                n > 0,
                k == self.weights@.len(),
                dataset.feature_count_spec() == k,
                w0 == old(self).weights@,
                b0 == old(self).bias,
                (self.weights@, self.bias) == run(w0, b0, lr, pts, it as nat),
                it == 0 ==> *self == *old(self),
            decreases self.iterations - it,
        {
            let ghost w1 = self.weights@;
            let ghost b1 = self.bias;
            let (gw, gb) = gradients(&self.weights, self.bias, dataset);
            let mut i: usize = 0;
            while i < k
                invariant
                    i <= k,
                    n == pts.len(),
                    n > 0,
                    gw@.len() == k,
                    self.weights@.len() == k,
                    w1.len() == k,
                    forall|t: int| 0 <= t < k ==> gw@[t] == grad_weight(w1, b1, pts, t, n as nat),
                    forall|t: int| 0 <= t < i ==> self.weights@[t] == step_weights(w1, b1, lr, pts)[t],
                    forall|t: int| i <= t < k ==> self.weights@[t] == w1[t],
                    self.bias == b1,
                    self.learning_rate == lr,
                    self.iterations == old(self).iterations,
                decreases k - i,
            {
                let v = self.weights[i].sub(lr.mul(gw[i]).div_count(n));
                self.weights.set(i, v);
                i = i + 1;
            }
            self.bias = self.bias.sub(lr.mul(gb).div_count(n));
            proof {
                assert(self.weights@ =~= step_weights(w1, b1, lr, pts));
            }
            it = it + 1;
        }
        Ok(())
    }
}

impl LinearRegression<Fixed> {
    /// A model over `feature_count` features whose weights and bias are drawn
    /// at random from `[0, 1)`.
    ///
    /// Refused with `InvalidHyperparameter` when `feature_count` is zero or
    /// the learning rate is not positive.
    pub fn new(feature_count: usize, learning_rate: Fixed, iterations: usize) -> (r: Result<
        Self,
        ModelError,
    >)
        ensures
            feature_count == 0 || learning_rate.micros <= 0 ==> r == Err::<Self, ModelError>(
                ModelError::InvalidHyperparameter,
            ),
            feature_count > 0 && learning_rate.micros > 0 ==> (r matches Ok(m)
                && m.weights@.len() == feature_count && (forall|i: int|
                0 <= i < feature_count ==> 0 <= (#[trigger] m.weights@[i]).micros < SCALE) && 0
                <= m.bias.micros < SCALE && m.learning_rate == learning_rate && m.iterations
                == iterations),
    {
        if feature_count == 0 || learning_rate.micros <= 0 {
            return Err(ModelError::InvalidHyperparameter);
        }
        let mut weights: Vec<Fixed> = Vec::new();
        let mut i: usize = 0;
        while i < feature_count
            invariant
                i <= feature_count,
                weights@.len() == i,
                forall|t: int| 0 <= t < i ==> 0 <= (#[trigger] weights@[t]).micros < SCALE,
            decreases feature_count - i,
        {
            weights.push(Fixed::random_unit());
            i = i + 1;
        }
        let bias = Fixed::random_unit();
        Ok(LinearRegression { weights, bias, learning_rate, iterations })
    }
}

/// Training never changes how many weights a model has.
pub proof fn lemma_run_keeps_dimension<T: Scalar>(
    w: Seq<T>,
    b: T,
    lr: T,
    pts: Seq<DataPoint<T>>,
    k: nat,
)
    ensures
        run(w, b, lr, pts, k).0.len() == w.len(),
    decreases k,
{
    if k > 0 {
        lemma_run_keeps_dimension(w, b, lr, pts, (k - 1) as nat);
    }
}

/// A model trained on a dataset of `k` features refuses to predict for a
/// feature vector whose length is not `k`: whatever the rounds did, the
/// weights are still `k` many, and `predict` refuses any other length.
pub proof fn lemma_trained_model_rejects_other_lengths<T: Scalar>(
    w: Seq<T>,
    b: T,
    lr: T,
    dataset: Dataset<T>,
    rounds: nat,
    x: Seq<T>,
)
    requires
        w.len() == dataset.feature_count_spec(),
        x.len() != dataset.feature_count_spec(),
    ensures
        x.len() != run(w, b, lr, dataset.points(), rounds).0.len(),
{
    lemma_run_keeps_dimension(w, b, lr, dataset.points(), rounds);
}

/// Zero rounds of training leave the weights and the bias as they were.
pub proof fn lemma_zero_rounds_keep_parameters<T: Scalar>(
    w: Seq<T>,
    b: T,
    lr: T,
    pts: Seq<DataPoint<T>>,
)
    ensures
        run(w, b, lr, pts, 0) == (w, b),
{
}

/// Training and then predicting is deterministic: two models that start from
/// the same parameters and train on the same examples for the same number of
/// rounds give the same estimate for the same input.
pub proof fn lemma_train_then_predict_deterministic<T: Scalar>(
    w1: Seq<T>,
    b1: T,
    w2: Seq<T>,
    b2: T,
    lr: T,
    pts1: Seq<DataPoint<T>>,
    pts2: Seq<DataPoint<T>>,
    rounds: nat,
    x: Seq<T>,
)
    requires
        w1 == w2,
        b1 == b2,
        pts1 == pts2,
    ensures
        run(w1, b1, lr, pts1, rounds) == run(w2, b2, lr, pts2, rounds),
        predicted(run(w1, b1, lr, pts1, rounds).0, run(w1, b1, lr, pts1, rounds).1, x)
            == predicted(run(w2, b2, lr, pts2, rounds).0, run(w2, b2, lr, pts2, rounds).1, x),
{
}

} // verus!

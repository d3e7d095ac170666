//! The feed-forward network: parameter storage, forward propagation,
//! backpropagation with per-sample gradient descent, and inference by
//! class-score arg-max.
//!
//! All values are fixed-point scalars (see `fixed`). Every executable
//! operation is pinned to a spec-level model over `Seq<int>`, so the whole
//! training run is a mathematical function of the configuration, the seed
//! and the dataset.

use vstd::prelude::*;
use crate::fixed::{fx_add, fx_mul, fx_relu};
use crate::linalg::{
    affine, affine_fx, col, ints, is_matrix, lemma_dot_zero, lemma_mat_dims, mat_ints,
    mat_sub, mat_sub_fx, matvec_rows, matvec_rows_fx, mul_seq, outer_scaled, outer_scaled_fx,
    relu_deriv_seq, relu_deriv_vec, relu_seq, relu_vec, scale_seq, sub_seq, vec_mul,
    vec_scale, vec_sub, zero_seq, zeros,
};
use crate::rng::{lcg_iter, SeededRng};

verus! {

/// The errors of the library.
#[derive(Clone, Copy, Debug, PartialEq, Eq)]
pub enum NnError {
    /// A non-positive dimension, epoch count, learning rate or
    /// initialization scale was supplied at construction time.
    InvalidConfiguration,
    /// An input or target vector does not have the configured length.
    DimensionMismatch,
}

/// The configuration of a training run, supplied once at construction.
/// `learning_rate` and `init_scale` are fixed-point values.
pub struct TrainingConfig {
    pub input_dim: usize,
    pub hidden_dim: usize,
    pub output_dim: usize,
    pub learning_rate: i64,
    pub epochs: usize,
    pub init_scale: i64,
}

impl TrainingConfig {
    /// Every dimension, the epoch count, the learning rate and the
    /// initialization scale are positive.
    pub open spec fn valid(self) -> bool {
        &&& self.input_dim > 0
        &&& self.hidden_dim > 0
        &&& self.output_dim > 0
        &&& self.learning_rate > 0
        &&& self.epochs > 0
        &&& self.init_scale > 0
    }
}

/// Mathematical view of the learnable parameters.
pub struct NnView {
    pub w1: Seq<Seq<int>>,
    pub b1: Seq<int>,
    pub w2: Seq<Seq<int>>,
    pub b2: Seq<int>,
    pub lr: int,
}

impl NnView {
    pub open spec fn input_dim(self) -> int {
        self.w1.len() as int
    }

    pub open spec fn hidden_dim(self) -> int {
        self.b1.len() as int
    }

    pub open spec fn output_dim(self) -> int {
        self.b2.len() as int
    }

    /// The shape invariant: positive dimensions, `w1` of shape
    /// (input, hidden) matching `b1`, and `w2` of shape (hidden, output)
    /// matching `b2`.
    pub open spec fn wf(self) -> bool {
        &&& self.input_dim() > 0
        &&& self.hidden_dim() > 0
        &&& self.output_dim() > 0
        &&& is_matrix(self.w1, self.input_dim(), self.hidden_dim())
        &&& is_matrix(self.w2, self.hidden_dim(), self.output_dim())
    }
}

/// The hidden activation: `relu(x . w1 + b1)`.
pub open spec fn hidden_of(v: NnView, x: Seq<int>) -> Seq<int> {
    relu_seq(affine_fx(x, v.w1, v.b1))
}

/// The output activation: `relu(hidden . w2 + b2)`.
pub open spec fn output_of(v: NnView, x: Seq<int>) -> Seq<int> {
    relu_seq(affine_fx(hidden_of(v, x), v.w2, v.b2))
}

/// Index of the maximum entry; on ties the highest index wins.
pub open spec fn argmax_fx(s: Seq<int>) -> int
    decreases s.len(),
{
    if s.len() <= 1 {
        0
    } else {
        let r = argmax_fx(s.drop_last());
        if s[s.len() - 1] >= s[r] {
            s.len() - 1
        } else {
            r
        }
    }
}

/// The multi-layer network: two weight matrices and two bias vectors of
/// fixed-point scalars, and the fixed-point learning rate.
#[derive(Debug)]
pub struct MultiLayerNN {
    pub w1: Vec<Vec<i64>>,
    pub b1: Vec<i64>,
    pub w2: Vec<Vec<i64>>,
    pub b2: Vec<i64>,
    pub learning_rate: i64,
}

impl View for MultiLayerNN {
    type V = NnView;

    open spec fn view(&self) -> NnView {
        NnView {
            w1: mat_ints(self.w1@),
            b1: ints(self.b1@),
            w2: mat_ints(self.w2@),
            b2: ints(self.b2@),
            lr: self.learning_rate as int,
        }
    }
}

impl MultiLayerNN {
    /// The shape invariant, on the mathematical view.
    pub open spec fn wf(&self) -> bool {
        self@.wf()
    }

    fn forward_inner(&self, input: &Vec<i64>) -> (r: (Vec<i64>, Vec<i64>))
        requires
            self.wf(),
            input@.len() == self@.input_dim(),
        ensures
            ints(r.0@) == hidden_of(self@, ints(input@)),
            ints(r.1@) == output_of(self@, ints(input@)),
            r.0@.len() == self@.hidden_dim(),
            r.1@.len() == self@.output_dim(),
    {
        proof {
            lemma_mat_dims(self.w1@, self@.input_dim(), self@.hidden_dim());
            lemma_mat_dims(self.w2@, self@.hidden_dim(), self@.output_dim());
        }
        let z1 = affine(input, &self.w1, &self.b1);
        let a1 = relu_vec(&z1);
        proof {
            assert(a1@.len() == ints(a1@).len());
            assert(relu_seq(affine_fx(ints(input@), self@.w1, self@.b1)).len()
                == self@.b1.len());
        }
        let z2 = affine(&a1, &self.w2, &self.b2);
        let a2 = relu_vec(&z2);
        proof {
            assert(a2@.len() == ints(a2@).len());
            assert(relu_seq(affine_fx(ints(a1@), self@.w2, self@.b2)).len()
                == self@.b2.len());
        }
        (a1, a2)
    }

    /// Forward propagation: the hidden and output activations for `input`,
    /// or `DimensionMismatch` when `input` does not have `input_dim`
    /// entries. Both activation vectors are element-wise non-negative.
    pub fn forward(&self, input: &Vec<i64>) -> (r: Result<(Vec<i64>, Vec<i64>), NnError>)
        requires
            self.wf(),
        ensures
            input@.len() == self@.input_dim() ==> (r matches Ok(ho)
                && ints(ho.0@) == hidden_of(self@, ints(input@))
                && ints(ho.1@) == output_of(self@, ints(input@))
                && ho.0@.len() == self@.hidden_dim()
                && ho.1@.len() == self@.output_dim()
                && (forall|i: int| 0 <= i < ho.0@.len() ==> #[trigger] ho.0@[i] >= 0)
                && (forall|i: int| 0 <= i < ho.1@.len() ==> #[trigger] ho.1@[i] >= 0)),
            input@.len() != self@.input_dim()
                ==> r == Err::<(Vec<i64>, Vec<i64>), NnError>(NnError::DimensionMismatch),
    {
        if input.len() != self.w1.len() {
            return Err(NnError::DimensionMismatch);
        }
        let (a1, a2) = self.forward_inner(input);
        proof {
            assert forall|i: int| 0 <= i < a1@.len() implies #[trigger] a1@[i] >= 0 by {
                assert(ints(a1@)[i] == a1@[i] as int);
                assert(hidden_of(self@, ints(input@))[i]
                    == fx_relu(affine_fx(ints(input@), self@.w1, self@.b1)[i]));
            }
            assert forall|i: int| 0 <= i < a2@.len() implies #[trigger] a2@[i] >= 0 by {
                assert(ints(a2@)[i] == a2@[i] as int);
                assert(output_of(self@, ints(input@))[i]
                    == fx_relu(affine_fx(hidden_of(self@, ints(input@)), self@.w2, self@.b2)[i]));
            }
        }
        Ok((a1, a2))
    }
}

/// Mathematical view of one set of parameter deltas.
pub struct GradsView {
    pub dw1: Seq<Seq<int>>,
    pub db1: Seq<int>,
    pub dw2: Seq<Seq<int>>,
    pub db2: Seq<int>,
}

/// One set of parameter deltas, as produced by backpropagation.
#[derive(Debug)]
pub struct Gradients {
    pub dw1: Vec<Vec<i64>>,
    pub db1: Vec<i64>,
    pub dw2: Vec<Vec<i64>>,
    pub db2: Vec<i64>,
}

impl View for Gradients {
    type V = GradsView;

    open spec fn view(&self) -> GradsView {
        GradsView {
            dw1: mat_ints(self.dw1@),
            db1: ints(self.db1@),
            dw2: mat_ints(self.dw2@),
            db2: ints(self.db2@),
        }
    }
}

/// Output-layer delta: the element-wise product of the derivative factor
/// of the output activation and the output error `o - t`.
pub open spec fn output_delta_of(o: Seq<int>, t: Seq<int>) -> Seq<int> {
    mul_seq(relu_deriv_seq(o), sub_seq(o, t))
}

/// Hidden-layer delta: the output delta mapped back through `w2`,
/// gated by the derivative factor of the hidden activation.
pub open spec fn hidden_delta_of(v: NnView, h: Seq<int>, od: Seq<int>) -> Seq<int> {
    mul_seq(relu_deriv_seq(h), matvec_rows_fx(v.w2, od))
}

/// The deltas of backpropagation for given activations and target,
/// already scaled by the learning rate.
pub open spec fn grads_from(v: NnView, x: Seq<int>, h: Seq<int>, o: Seq<int>, t: Seq<int>)
    -> GradsView {
    let od = output_delta_of(o, t);
    let hd = hidden_delta_of(v, h, od);
    GradsView {
        dw1: outer_scaled_fx(x, hd, v.lr),
        db1: scale_seq(hd, v.lr),
        dw2: outer_scaled_fx(h, od, v.lr),
        db2: scale_seq(od, v.lr),
    }
}

/// The deltas of one training step on sample `x` with target `t`.
pub open spec fn grads_spec(v: NnView, x: Seq<int>, t: Seq<int>) -> GradsView {
    grads_from(v, x, hidden_of(v, x), output_of(v, x), t)
}

/// The parameters after subtracting one set of deltas element-wise.
pub open spec fn apply_spec(v: NnView, g: GradsView) -> NnView {
    NnView {
        w1: mat_sub_fx(v.w1, g.dw1),
        b1: sub_seq(v.b1, g.db1),
        w2: mat_sub_fx(v.w2, g.dw2),
        b2: sub_seq(v.b2, g.db2),
        lr: v.lr,
    }
}

/// The parameters after one full training step on sample `x` with
/// target `t`: forward pass, backpropagation, delta subtraction.
pub open spec fn step_spec(v: NnView, x: Seq<int>, t: Seq<int>) -> NnView {
    apply_spec(v, grads_spec(v, x, t))
}

impl MultiLayerNN {
    fn gradients_inner(
        &self,
        input: &Vec<i64>,
        hidden: &Vec<i64>,
        output: &Vec<i64>,
        target: &Vec<i64>,
    ) -> (g: Gradients)
        requires
            self.wf(),
            input@.len() == self@.input_dim(),
            hidden@.len() == self@.hidden_dim(),
            output@.len() == self@.output_dim(),
            target@.len() == self@.output_dim(),
        ensures
            g@ == grads_from(self@, ints(input@), ints(hidden@), ints(output@), ints(target@)),
    {
        proof {
            lemma_mat_dims(self.w2@, self@.hidden_dim(), self@.output_dim());
        }
        let err = vec_sub(output, target);
        let deriv_o = relu_deriv_vec(output);
        proof {
            assert(err@.len() == ints(err@).len());
            assert(sub_seq(ints(output@), ints(target@)).len() == output@.len());
            assert(deriv_o@.len() == ints(deriv_o@).len());
            assert(relu_deriv_seq(ints(output@)).len() == ints(output@).len());
        }
        let od = vec_mul(&deriv_o, &err);
        proof {
            assert(od@.len() == ints(od@).len());
            assert(mul_seq(relu_deriv_seq(ints(output@)), sub_seq(ints(output@), ints(target@)))
                .len() == output@.len());
        }
        let herr = matvec_rows(&self.w2, &od);
        let deriv_h = relu_deriv_vec(hidden);
        proof {
            assert(herr@.len() == ints(herr@).len());
            assert(matvec_rows_fx(self@.w2, ints(od@)).len() == self@.w2.len());
            assert(deriv_h@.len() == ints(deriv_h@).len());
            assert(relu_deriv_seq(ints(hidden@)).len() == ints(hidden@).len());
        }
        let hd = vec_mul(&deriv_h, &herr);
        let dw2 = outer_scaled(hidden, &od, self.learning_rate);
        let db2 = vec_scale(&od, self.learning_rate);
        let dw1 = outer_scaled(input, &hd, self.learning_rate);
        let db1 = vec_scale(&hd, self.learning_rate);
        Gradients { dw1, db1, dw2, db2 }
    }

    /// Backpropagation: the parameter deltas for one sample, its forward
    /// activations and its target, scaled by the learning rate; or
    /// `DimensionMismatch` when any argument does not have the configured
    /// length.
    pub fn gradients(
        &self,
        input: &Vec<i64>,
        hidden: &Vec<i64>,
        output: &Vec<i64>,
        target: &Vec<i64>,
    ) -> (r: Result<Gradients, NnError>)
        requires
            self.wf(),
        ensures
            (input@.len() == self@.input_dim() && hidden@.len() == self@.hidden_dim()
                && output@.len() == self@.output_dim() && target@.len() == self@.output_dim())
                ==> (r matches Ok(g) && g@ == grads_from(
                    self@,
                    ints(input@),
                    ints(hidden@),
                    ints(output@),
                    ints(target@),
                )),
            !(input@.len() == self@.input_dim() && hidden@.len() == self@.hidden_dim()
                && output@.len() == self@.output_dim() && target@.len() == self@.output_dim())
                ==> r == Err::<Gradients, NnError>(NnError::DimensionMismatch),
    {
        if input.len() != self.w1.len() || hidden.len() != self.b1.len()
            || output.len() != self.b2.len() || target.len() != self.b2.len() {
            return Err(NnError::DimensionMismatch);
        }
        Ok(self.gradients_inner(input, hidden, output, target))
    }

    /// Subtract one set of deltas element-wise from the parameters.
    pub fn apply_delta(&mut self, g: &Gradients)
        requires
            old(self).wf(),
            is_matrix(g@.dw1, old(self)@.input_dim(), old(self)@.hidden_dim()),
            g@.db1.len() == old(self)@.hidden_dim(),
            is_matrix(g@.dw2, old(self)@.hidden_dim(), old(self)@.output_dim()),
            g@.db2.len() == old(self)@.output_dim(),
        ensures
            final(self)@ == apply_spec(old(self)@, g@),
            final(self).wf(),
            final(self)@.input_dim() == old(self)@.input_dim(),
            final(self)@.hidden_dim() == old(self)@.hidden_dim(),
            final(self)@.output_dim() == old(self)@.output_dim(),
    {
        proof {
            lemma_mat_dims(self.w1@, self@.input_dim(), self@.hidden_dim());
            lemma_mat_dims(self.w2@, self@.hidden_dim(), self@.output_dim());
            lemma_mat_dims(g.dw1@, self@.input_dim(), self@.hidden_dim());
            lemma_mat_dims(g.dw2@, self@.hidden_dim(), self@.output_dim());
        }
        let w1 = mat_sub(&self.w1, &g.dw1);
        let b1 = vec_sub(&self.b1, &g.db1);
        let w2 = mat_sub(&self.w2, &g.dw2);
        let b2 = vec_sub(&self.b2, &g.db2);
        self.w1 = w1;
        self.b1 = b1;
        self.w2 = w2;
        self.b2 = b2;
        proof {
            let v = apply_spec(old(self)@, g@);
            assert(self@ == v);
            assert forall|i: int| 0 <= i < v.w1.len() implies (#[trigger] v.w1[i]).len()
                == old(self)@.hidden_dim() by {
                assert(v.w1[i] == sub_seq(old(self)@.w1[i], g@.dw1[i]));
            }
            assert forall|i: int| 0 <= i < v.w2.len() implies (#[trigger] v.w2[i]).len()
                == old(self)@.output_dim() by {
                assert(v.w2[i] == sub_seq(old(self)@.w2[i], g@.dw2[i]));
            }
        }
    }

    fn train_sample(&mut self, input: &Vec<i64>, target: &Vec<i64>)
        requires
            old(self).wf(),
            input@.len() == old(self)@.input_dim(),
            target@.len() == old(self)@.output_dim(),
        ensures
            final(self)@ == step_spec(old(self)@, ints(input@), ints(target@)),
            final(self).wf(),
            final(self)@.input_dim() == old(self)@.input_dim(),
            final(self)@.hidden_dim() == old(self)@.hidden_dim(),
            final(self)@.output_dim() == old(self)@.output_dim(),
    {
        let (a1, a2) = self.forward_inner(input);
        let g = self.gradients_inner(input, &a1, &a2, target);
        proof {
            let gv = grads_spec(self@, ints(input@), ints(target@));
            assert(g@ == gv);
            assert forall|i: int| 0 <= i < gv.dw1.len() implies (#[trigger] gv.dw1[i]).len()
                == self@.hidden_dim() by {
                assert(gv.dw1[i] == Seq::new(
                    hidden_delta_of(
                        self@,
                        hidden_of(self@, ints(input@)),
                        output_delta_of(output_of(self@, ints(input@)), ints(target@)),
                    ).len(),
                    |j: int| fx_mul(fx_mul(ints(input@)[i],
                        hidden_delta_of(
                            self@,
                            hidden_of(self@, ints(input@)),
                            output_delta_of(output_of(self@, ints(input@)), ints(target@)),
                        )[j]), self@.lr),
                ));
            }
            assert forall|i: int| 0 <= i < gv.dw2.len() implies (#[trigger] gv.dw2[i]).len()
                == self@.output_dim() by {
                assert(gv.dw2[i] == Seq::new(
                    output_delta_of(output_of(self@, ints(input@)), ints(target@)).len(),
                    |j: int| fx_mul(fx_mul(hidden_of(self@, ints(input@))[i],
                        output_delta_of(output_of(self@, ints(input@)), ints(target@))[j]),
                        self@.lr),
                ));
            }
        }
        self.apply_delta(&g);
    }

    /// Inference: run the forward pass and return the index of the largest
    /// output activation; on ties the highest index wins. The result is
    /// always in `[0, output_dim)`. Returns `DimensionMismatch` when
    /// `input` does not have `input_dim` entries.
    pub fn predict(&self, input: &Vec<i64>) -> (r: Result<usize, NnError>)
        requires
            self.wf(),
        ensures
            input@.len() == self@.input_dim() ==> (r matches Ok(c)
                && c as int == argmax_fx(output_of(self@, ints(input@)))
                && 0 <= c < self@.output_dim()),
            input@.len() != self@.input_dim()
                ==> r == Err::<usize, NnError>(NnError::DimensionMismatch),
    {
        if input.len() != self.w1.len() {
            return Err(NnError::DimensionMismatch);
        }
        let (_a1, a2) = self.forward_inner(input);
        let c = argmax_vec(&a2);
        proof {
            assert(ints(a2@) == output_of(self@, ints(input@)));
        }
        Ok(c)
    }
}

/// The value drawn for entry number `n` (zero-based) of the weight
/// stream: the generator state after `n + 1` steps, reduced modulo `scale`.
pub open spec fn draw_at(seed: int, n: int, scale: int) -> int {
    lcg_iter(seed, (n + 1) as nat) % scale
}

/// `cols` consecutive draws of the weight stream, starting at entry `base`.
pub open spec fn draw_row(seed: int, base: int, cols: nat, scale: int) -> Seq<int> {
    Seq::new(cols, |j: int| draw_at(seed, base + j, scale))
}

fn gen_row(rng: &mut SeededRng, cols: usize, scale: i64, Ghost(seed_i): Ghost<int>,
    Ghost(base): Ghost<int>) -> (row: Vec<i64>)
    requires
        scale > 0,
        base >= 0,
        old(rng).state as int == lcg_iter(seed_i, base as nat),
    ensures
        final(rng).state as int == lcg_iter(seed_i, (base + cols) as nat),
        row@.len() == cols,
        ints(row@) == draw_row(seed_i, base, cols as nat, scale as int),
{
    let mut row: Vec<i64> = Vec::new();
    let mut j: usize = 0;
    while j < cols
        invariant
            scale > 0,
            base >= 0,
            0 <= j <= cols,
            rng.state as int == lcg_iter(seed_i, (base + j) as nat),
            row@.len() == j,
            forall|jj: int| 0 <= jj < j ==> #[trigger] row@[jj] as int
                == draw_at(seed_i, base + jj, scale as int),
        decreases cols - j,
    {
        let val = rng.next_below(scale);
        proof {
            assert(lcg_iter(seed_i, (base + j + 1) as nat)
                == crate::rng::lcg_next(lcg_iter(seed_i, (base + j) as nat)));
        }
        row.push(val);
        j = j + 1;
    }
    assert(ints(row@) =~= draw_row(seed_i, base, cols as nat, scale as int));
    row
}

fn gen_matrix(rng: &mut SeededRng, rows: usize, cols: usize, scale: i64,
    Ghost(seed_i): Ghost<int>, Ghost(base): Ghost<int>) -> (m: Vec<Vec<i64>>)
    requires
        scale > 0,
        base >= 0,
        old(rng).state as int == lcg_iter(seed_i, base as nat),
    ensures
        final(rng).state as int
            == lcg_iter(seed_i, (base + (rows as int) * (cols as int)) as nat),
        m@.len() == rows,
        forall|k: int| 0 <= k < rows ==> ints((#[trigger] m@[k])@)
            == draw_row(seed_i, base + k * (cols as int), cols as nat, scale as int),
{
    let mut m: Vec<Vec<i64>> = Vec::new();
    let mut k: usize = 0;
    while k < rows
        invariant
            scale > 0,
            base >= 0,
            0 <= k <= rows,
            rng.state as int == lcg_iter(seed_i, (base + (k as int) * (cols as int)) as nat),
            (k as int) * (cols as int) >= 0,
            m@.len() == k,
            forall|kk: int| 0 <= kk < k ==> ints((#[trigger] m@[kk])@)
                == draw_row(seed_i, base + kk * (cols as int), cols as nat, scale as int),
        decreases rows - k,
    {
        proof {
            let ghost kk: int = k as int;
            let ghost cc: int = cols as int;
            assert((kk + 1) * cc == kk * cc + cc) by (nonlinear_arith);
            assert((kk + 1) * cc >= 0) by (nonlinear_arith)
                requires
                    kk >= 0,
                    cc >= 0,
            ;
        }
        let row = gen_row(rng, cols, scale, Ghost(seed_i),
            Ghost(base + (k as int) * (cols as int)));
        m.push(row);
        k = k + 1;
    }
    m
}

/// Row `k` of the initial first-layer weights.
pub open spec fn init_w1_row(c: TrainingConfig, seed: int, k: int) -> Seq<int> {
    Seq::new(
        c.hidden_dim as nat,
        |j: int| draw_at(seed, k * (c.hidden_dim as int) + j, c.init_scale as int),
    )
}

/// Row `i` of the initial second-layer weights; its draws follow all of
/// the first layer's in the stream.
pub open spec fn init_w2_row(c: TrainingConfig, seed: int, i: int) -> Seq<int> {
    Seq::new(
        c.output_dim as nat,
        |j: int| draw_at(
            seed,
            (c.input_dim as int) * (c.hidden_dim as int) + i * (c.output_dim as int) + j,
            c.init_scale as int,
        ),
    )
}

/// The parameters created from a configuration and a seed: weights drawn
/// from the generator in row-major order, `w1` before `w2`, each in
/// `[0, init_scale)`; biases zero.
pub open spec fn init_spec(c: TrainingConfig, seed: int) -> NnView {
    NnView {
        w1: Seq::new(c.input_dim as nat, |k: int| init_w1_row(c, seed, k)),
        b1: zero_seq(c.hidden_dim as nat),
        w2: Seq::new(c.hidden_dim as nat, |i: int| init_w2_row(c, seed, i)),
        b2: zero_seq(c.output_dim as nat),
        lr: c.learning_rate as int,
    }
}

/// Every sample has `input_dim` entries, every target `output_dim`
/// entries, and there are as many targets as samples.
pub open spec fn dataset_ok(v: NnView, xs: Seq<Seq<int>>, ts: Seq<Seq<int>>) -> bool {
    &&& xs.len() == ts.len()
    &&& forall|i: int| 0 <= i < xs.len() ==> (#[trigger] xs[i]).len() == v.input_dim()
    &&& forall|i: int| 0 <= i < ts.len() ==> (#[trigger] ts[i]).len() == v.output_dim()
}

/// The parameters after training on the first `n` samples, in order.
pub open spec fn run_samples(v: NnView, xs: Seq<Seq<int>>, ts: Seq<Seq<int>>, n: int) -> NnView
    decreases n,
{
    if n <= 0 {
        v
    } else {
        step_spec(run_samples(v, xs, ts, n - 1), xs[n - 1], ts[n - 1])
    }
}

/// The parameters after `e` full epochs over the dataset, in order.
pub open spec fn run_epochs(v: NnView, xs: Seq<Seq<int>>, ts: Seq<Seq<int>>, e: int) -> NnView
    decreases e,
{
    if e <= 0 {
        v
    } else {
        run_samples(run_epochs(v, xs, ts, e - 1), xs, ts, xs.len() as int)
    }
}

impl MultiLayerNN {
    /// A network from a configuration and a seed: weights drawn from the
    /// seeded generator, uniformly in `[0, init_scale)`, biases zero; or
    /// `InvalidConfiguration` when any dimension, the epoch count, the
    /// learning rate or the scale is not positive.
    #[verifier::rlimit(80)]
    pub fn new(config: &TrainingConfig, seed: u64) -> (r: Result<MultiLayerNN, NnError>)
        ensures
            config.valid() ==> (r matches Ok(nn)
                && nn@ == init_spec(*config, seed as int)
                && nn.wf()
                && nn@.input_dim() == config.input_dim
                && nn@.hidden_dim() == config.hidden_dim
                && nn@.output_dim() == config.output_dim),
            !config.valid()
                ==> r == Err::<MultiLayerNN, NnError>(NnError::InvalidConfiguration),
    {
        if config.input_dim == 0 || config.hidden_dim == 0 || config.output_dim == 0
            || config.learning_rate <= 0 || config.epochs == 0 || config.init_scale <= 0 {
            return Err(NnError::InvalidConfiguration);
        }
        let ind = config.input_dim;
        let hid = config.hidden_dim;
        let outd = config.output_dim;
        let scale = config.init_scale;
        let mut rng = SeededRng::new(seed);
        let ghost seed_i: int = seed as int;

        let w1 = gen_matrix(&mut rng, ind, hid, scale, Ghost(seed_i), Ghost(0));
        proof {
            assert((ind as int) * (hid as int) >= 0) by (nonlinear_arith)
                requires
                    ind as int >= 0,
                    hid as int >= 0,
            ;
        }
        let w2 = gen_matrix(&mut rng, hid, outd, scale, Ghost(seed_i),
            Ghost((ind as int) * (hid as int)));

        let b1 = zeros(hid);
        let b2 = zeros(outd);
        let nn = MultiLayerNN { w1, b1, w2, b2, learning_rate: config.learning_rate };
        proof {
            let v = init_spec(*config, seed_i);
            assert forall|kk: int| 0 <= kk < nn.w1@.len() implies #[trigger] mat_ints(nn.w1@)[kk]
                == v.w1[kk] by {
                assert(mat_ints(nn.w1@)[kk] == ints(nn.w1@[kk]@));
                assert(draw_row(seed_i, 0 + kk * (hid as int), hid as nat, scale as int)
                    =~= init_w1_row(*config, seed_i, kk));
            }
            assert(mat_ints(nn.w1@) =~= v.w1);
            assert forall|ii: int| 0 <= ii < nn.w2@.len() implies #[trigger] mat_ints(nn.w2@)[ii]
                == v.w2[ii] by {
                assert(mat_ints(nn.w2@)[ii] == ints(nn.w2@[ii]@));
                assert(draw_row(seed_i, (ind as int) * (hid as int) + ii * (outd as int),
                    outd as nat, scale as int) =~= init_w2_row(*config, seed_i, ii));
            }
            assert(mat_ints(nn.w2@) =~= v.w2);
            assert(nn@ == v);
            assert forall|kk: int| 0 <= kk < v.w1.len() implies (#[trigger] v.w1[kk]).len()
                == config.hidden_dim by {
                assert(v.w1[kk] == init_w1_row(*config, seed_i, kk));
            }
            assert forall|ii: int| 0 <= ii < v.w2.len() implies (#[trigger] v.w2[ii]).len()
                == config.output_dim by {
                assert(v.w2[ii] == init_w2_row(*config, seed_i, ii));
            }
            assert(nn.wf());
        }
        Ok(nn)
    }

    fn check_dataset(&self, inputs: &Vec<Vec<i64>>, targets: &Vec<Vec<i64>>) -> (ok: bool)
        requires
            self.wf(),
        ensures
            ok == dataset_ok(self@, mat_ints(inputs@), mat_ints(targets@)),
    {
        if inputs.len() != targets.len() {
            return false;
        }
        let mut i: usize = 0;
        while i < inputs.len()
            invariant
                self.wf(),
                inputs@.len() == targets@.len(),
                0 <= i <= inputs@.len(),
                forall|ii: int| 0 <= ii < i ==> (#[trigger] mat_ints(inputs@)[ii]).len()
                    == self@.input_dim(),
                forall|ii: int| 0 <= ii < i ==> (#[trigger] mat_ints(targets@)[ii]).len()
                    == self@.output_dim(),
            decreases inputs@.len() - i,
        {
            proof {
                assert(mat_ints(inputs@)[i as int] == ints(inputs@[i as int]@));
                assert(mat_ints(targets@)[i as int] == ints(targets@[i as int]@));
            }
            if inputs[i].len() != self.w1.len() {
                return false;
            }
            if targets[i].len() != self.b2.len() {
                return false;
            }
            i = i + 1;
        }
        true
    }

    /// One full pass over the dataset: a forward pass, backpropagation and
    /// an in-place parameter update for every sample, in the dataset's
    /// given order. Returns `DimensionMismatch`, and leaves the parameters
    /// unchanged, when any sample or target has the wrong length.
    pub fn train_epoch(&mut self, inputs: &Vec<Vec<i64>>, targets: &Vec<Vec<i64>>)
        -> (r: Result<(), NnError>)
        requires
            old(self).wf(),
        ensures
            dataset_ok(old(self)@, mat_ints(inputs@), mat_ints(targets@)) ==> (r matches Ok(u)
                && final(self)@ == run_samples(
                    old(self)@,
                    mat_ints(inputs@),
                    mat_ints(targets@),
                    inputs@.len() as int,
                )
                && final(self).wf()
                && final(self)@.input_dim() == old(self)@.input_dim()
                && final(self)@.hidden_dim() == old(self)@.hidden_dim()
                && final(self)@.output_dim() == old(self)@.output_dim()),
            !dataset_ok(old(self)@, mat_ints(inputs@), mat_ints(targets@))
                ==> r == Err::<(), NnError>(NnError::DimensionMismatch)
                    && final(self)@ == old(self)@,
    {
        if !self.check_dataset(inputs, targets) {
            return Err(NnError::DimensionMismatch);
        }
        let ghost xs = mat_ints(inputs@);
        let ghost ts = mat_ints(targets@);
        let mut i: usize = 0;
        while i < inputs.len()
            invariant
                self.wf(),
                self@.input_dim() == old(self)@.input_dim(),
                self@.hidden_dim() == old(self)@.hidden_dim(),
                self@.output_dim() == old(self)@.output_dim(),
                dataset_ok(old(self)@, xs, ts),
                xs == mat_ints(inputs@),
                ts == mat_ints(targets@),
                0 <= i <= inputs@.len(),
                self@ == run_samples(old(self)@, xs, ts, i as int),
            decreases inputs@.len() - i,
        {
            proof {
                assert(xs[i as int] == ints(inputs@[i as int]@));
                assert(ts[i as int] == ints(targets@[i as int]@));
            }
            self.train_sample(&inputs[i], &targets[i]);
            proof {
                assert(run_samples(old(self)@, xs, ts, i as int + 1)
                    == step_spec(run_samples(old(self)@, xs, ts, i as int),
                        xs[i as int], ts[i as int]));
            }
            i = i + 1;
        }
        Ok(())
    }

    /// The full training run: `epochs` passes over the dataset, each as in
    /// `train_epoch`, one parameter update per sample. Returns
    /// `DimensionMismatch`, and leaves the parameters unchanged, when any
    /// sample or target has the wrong length. A caller that wants to emit
    /// a notification after every completed epoch drives `train_epoch`
    /// itself, once per epoch, to the same final parameters.
    pub fn train(&mut self, inputs: &Vec<Vec<i64>>, targets: &Vec<Vec<i64>>, epochs: usize)
        -> (r: Result<(), NnError>)
        requires
            old(self).wf(),
        ensures
            dataset_ok(old(self)@, mat_ints(inputs@), mat_ints(targets@)) ==> (r matches Ok(u)
                && final(self)@ == run_epochs(
                    old(self)@,
                    mat_ints(inputs@),
                    mat_ints(targets@),
                    epochs as int,
                )
                && final(self).wf()),
            !dataset_ok(old(self)@, mat_ints(inputs@), mat_ints(targets@))
                ==> r == Err::<(), NnError>(NnError::DimensionMismatch)
                    && final(self)@ == old(self)@,
    {
        if !self.check_dataset(inputs, targets) {
            return Err(NnError::DimensionMismatch);
        }
        let ghost xs = mat_ints(inputs@);
        let ghost ts = mat_ints(targets@);
        let mut e: usize = 0;
        while e < epochs
            invariant
                self.wf(),
                self@.input_dim() == old(self)@.input_dim(),
                self@.hidden_dim() == old(self)@.hidden_dim(),
                self@.output_dim() == old(self)@.output_dim(),
                dataset_ok(old(self)@, xs, ts),
                xs == mat_ints(inputs@),
                ts == mat_ints(targets@),
                0 <= e <= epochs,
                self@ == run_epochs(old(self)@, xs, ts, e as int),
            decreases epochs - e,
        {
            let ghost before = self@;
            let _ = self.train_epoch(inputs, targets);
            proof {
                assert(dataset_ok(before, xs, ts));
                assert(run_epochs(old(self)@, xs, ts, e as int + 1)
                    == run_samples(run_epochs(old(self)@, xs, ts, e as int), xs, ts,
                        xs.len() as int));
            }
            e = e + 1;
        }
        Ok(())
    }
}

/// Index of the maximum entry of a non-empty vector; ties go to the
/// highest index.
pub fn argmax_vec(v: &Vec<i64>) -> (r: usize)
    requires
        v@.len() > 0,
    ensures
        r as int == argmax_fx(ints(v@)),
        0 <= r < v@.len(),
{
    let mut best: usize = 0;
    let mut i: usize = 1;
    proof {
        assert(ints(v@).take(1).len() == 1);
    }
    while i < v.len()
        invariant
            v@.len() > 0,
            1 <= i <= v@.len(),
            0 <= best < i,
            best as int == argmax_fx(ints(v@).take(i as int)),
        decreases v@.len() - i,
    {
        proof {
            let s = ints(v@);
            assert(s.take(i as int + 1).drop_last() =~= s.take(i as int));
            assert(s.take(i as int + 1)[i as int] == s[i as int]);
            assert(s.take(i as int + 1)[best as int] == s[best as int]);
        }
        if v[i] >= v[best] {
            best = i;
        }
        i = i + 1;
    }
    proof {
        assert(ints(v@).take(v@.len() as int) =~= ints(v@));
    }
    best
}

/// For a zero input vector against all-zero weights and biases, the
/// forward pass yields the all-zero vector for both the hidden and the
/// output activations.
pub proof fn lemma_forward_zero(v: NnView, x: Seq<int>)
    requires
        v.wf(),
        x.len() == v.input_dim(),
        forall|i: int| 0 <= i < x.len() ==> #[trigger] x[i] == 0,
        forall|k: int, j: int| 0 <= k < v.w1.len() && 0 <= j < v.w1[k].len()
            ==> #[trigger] v.w1[k][j] == 0,
        forall|i: int| 0 <= i < v.b1.len() ==> #[trigger] v.b1[i] == 0,
        forall|k: int, j: int| 0 <= k < v.w2.len() && 0 <= j < v.w2[k].len()
            ==> #[trigger] v.w2[k][j] == 0,
        forall|i: int| 0 <= i < v.b2.len() ==> #[trigger] v.b2[i] == 0,
    ensures
        hidden_of(v, x) == zero_seq(v.hidden_dim() as nat),
        output_of(v, x) == zero_seq(v.output_dim() as nat),
{
    assert forall|j: int| 0 <= j < v.b1.len()
        implies #[trigger] affine_fx(x, v.w1, v.b1)[j] == 0 by {
        assert forall|k: int| 0 <= k < x.len() implies #[trigger] col(v.w1, j)[k] == 0 by {
            assert(col(v.w1, j)[k] == v.w1[k][j]);
        }
        lemma_dot_zero(x, col(v.w1, j), x.len() as int);
        assert(fx_add(0, v.b1[j]) == 0);
    }
    assert(hidden_of(v, x) =~= zero_seq(v.hidden_dim() as nat));
    let h = hidden_of(v, x);
    assert forall|j: int| 0 <= j < v.b2.len()
        implies #[trigger] affine_fx(h, v.w2, v.b2)[j] == 0 by {
        assert forall|k: int| 0 <= k < h.len() implies #[trigger] col(v.w2, j)[k] == 0 by {
            assert(col(v.w2, j)[k] == v.w2[k][j]);
        }
        lemma_dot_zero(h, col(v.w2, j), h.len() as int);
        assert(fx_add(0, v.b2[j]) == 0);
    }
    assert(output_of(v, x) =~= zero_seq(v.output_dim() as nat));
}

/// The arg-max index is in range, carries the maximum value, and is the
/// last index at which that value occurs: every later entry is strictly
/// smaller, so ties resolve to the highest index.
pub proof fn lemma_argmax_is_last_max(s: Seq<int>)
    requires
        s.len() > 0,
    ensures
        0 <= argmax_fx(s) < s.len(),
        forall|k: int| 0 <= k < s.len() ==> #[trigger] s[k] <= s[argmax_fx(s)],
        forall|k: int| argmax_fx(s) < k < s.len() ==> #[trigger] s[k] < s[argmax_fx(s)],
    decreases s.len(),
{
    if s.len() > 1 {
        let t = s.drop_last();
        lemma_argmax_is_last_max(t);
        let r0 = argmax_fx(t);
        if s[s.len() - 1] >= s[r0] {
            assert(argmax_fx(s) == s.len() - 1);
            assert forall|k: int| 0 <= k < s.len()
                implies #[trigger] s[k] <= s[argmax_fx(s)] by {
                if k < s.len() - 1 {
                    assert(s[k] == t[k]);
                    assert(t[k] <= t[r0]);
                    assert(t[r0] == s[r0]);
                }
            }
        } else {
            assert(argmax_fx(s) == r0);
            assert forall|k: int| 0 <= k < s.len() implies #[trigger] s[k] <= s[r0] by {
                assert(t[r0] == s[r0]);
                if k < s.len() - 1 {
                    assert(s[k] == t[k]);
                    assert(t[k] <= t[r0]);
                }
            }
            assert forall|k: int| r0 < k < s.len() implies #[trigger] s[k] < s[r0] by {
                assert(t[r0] == s[r0]);
                if k < s.len() - 1 {
                    assert(s[k] == t[k]);
                    assert(t[k] < t[r0]);
                }
            }
        }
    }
}

/// Determinism of training: the final parameters are a function of the
/// configuration, the seed, the dataset and its order alone. Two networks
/// initialized from the same configuration and seed and trained for the
/// same number of epochs on the same dataset, in the same order, end in
/// identical parameters.
pub proof fn lemma_training_deterministic(
    c: TrainingConfig,
    seed: int,
    a: NnView,
    b: NnView,
    xs: Seq<Seq<int>>,
    ts: Seq<Seq<int>>,
    epochs: int,
)
    requires
        a == init_spec(c, seed),
        b == init_spec(c, seed),
    ensures
        run_epochs(a, xs, ts, epochs) == run_epochs(b, xs, ts, epochs),
{
}

} // verus!

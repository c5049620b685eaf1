//! The loaded model: normalization statistics, field order, three dense
//! layers, and the evaluation pipeline over them.
use vstd::prelude::*;

use crate::Error;
use crate::matrix::{Matrix, spec_add, spec_dot, spec_relu};
use crate::scalar::{div_bits, f_div, f_sub, sub_bits};

verus! {

/// First value stored under the key, scanning the pairs front to back.
pub open spec fn assoc_get(s: Seq<(String, u32)>, k: Seq<char>) -> Option<u32>
    decreases s.len(),
{
    if s.len() == 0 {
        None
    } else if s[0].0@ == k {
        Some(s[0].1)
    } else {
        assoc_get(s.drop_first(), k)
    }
}

/// The value stored under the key, or the bit pattern of positive zero when
/// the key is absent.
pub open spec fn get_or_zero(s: Seq<(String, u32)>, k: Seq<char>) -> u32 {
    match assoc_get(s, k) {
        Some(x) => x,
        None => 0u32,
    }
}

/// Passing over pairs whose key is not the one sought leaves the lookup
/// result unchanged.
proof fn lemma_assoc_get_skip(s: Seq<(String, u32)>, k: Seq<char>, i: int)
    requires
        0 <= i <= s.len(),
        forall|j: int| 0 <= j < i ==> (#[trigger] s[j]).0@ != k,
    ensures
        assoc_get(s.skip(i), k) == assoc_get(s, k),
    decreases i,
{
    if i > 0 {
        lemma_assoc_get_skip(s, k, i - 1);
        assert(s.skip(i - 1)[0] == s[i - 1]);
        assert(s.skip(i - 1).drop_first() =~= s.skip(i));
        assert(assoc_get(s.skip(i - 1), k) == assoc_get(s.skip(i - 1).drop_first(), k));
    } else {
        assert(s.skip(0) =~= s);
    }
}

/// Linear scan that realizes `assoc_get`.
fn assoc_lookup(s: &Vec<(String, u32)>, k: &String) -> (r: Option<u32>)
    ensures
        r == assoc_get(s@, k@),
{
    let mut i: usize = 0;
    while i < s.len()
        invariant
            0 <= i <= s@.len(),
            forall|j: int| 0 <= j < i ==> (#[trigger] s@[j]).0@ != k@,
        decreases s@.len() - i,
    {
        let pair: &(String, u32) = &s[i];
        if pair.0 == *k {
            proof {
                lemma_assoc_get_skip(s@, k@, i as int);
                assert(s@.skip(i as int)[0] == s@[i as int]);
            }
            return Some(pair.1);
        }
        i += 1;
    }
    proof {
        lemma_assoc_get_skip(s@, k@, i as int);
    }
    None
}

/// Normalization statistics: one mean and one standard deviation per known
/// field, each table a list of (field name, value) pairs.
pub struct FieldsDescribe {
    mean: Vec<(String, u32)>,
    stddev: Vec<(String, u32)>,
}

impl FieldsDescribe {
    /// The per-field means, as stored.
    pub closed spec fn spec_mean(&self) -> Seq<(String, u32)> {
        self.mean@
    }

    /// The per-field standard deviations, as stored.
    pub closed spec fn spec_std(&self) -> Seq<(String, u32)> {
        self.stddev@
    }

    /// Packs the two statistic tables.
    pub fn new(mean: Vec<(String, u32)>, stddev: Vec<(String, u32)>) -> (d: FieldsDescribe)
        ensures
            d.spec_mean() == mean@,
            d.spec_std() == stddev@,
    {
        FieldsDescribe { mean, stddev }
    }
}

/// The six trained tensors of the three dense layers.
pub struct Weights {
    pub l0_bias: Vec<u32>,
    pub l0_kernel: Matrix,
    pub l1_bias: Vec<u32>,
    pub l1_kernel: Matrix,
    pub l2_bias: Vec<u32>,
    pub l2_kernel: Matrix,
}

/// A loaded model: statistics, weights, the field order that fixes the
/// input columns, and the leaky-ReLU slope. Immutable once built.
pub struct ModelData {
    pub norm: FieldsDescribe,
    pub weights: Weights,
    pub fields: Vec<String>,
    pub alpha: u32,
}

/// The standardized value `(x - mean) / std`, in binary32.
pub open spec fn spec_norm_value(x: u32, mean: u32, sd: u32) -> u32 {
    f_div(f_sub(x, mean), sd)
}

/// What one field normalizes to, when both of its statistics are present.
pub open spec fn spec_norm_field(
    mean: Seq<(String, u32)>,
    sd: Seq<(String, u32)>,
    input: Seq<(String, u32)>,
    f: String,
) -> u32 {
    match (assoc_get(mean, f@), assoc_get(sd, f@)) {
        (Some(mn), Some(dv)) => spec_norm_value(get_or_zero(input, f@), mn, dv),
        _ => 0u32,
    }
}

/// The normalized row for the given field order, or the error for the first
/// field in that order that lacks a statistic; a standard deviation is
/// looked up before a mean.
pub open spec fn spec_norm_row(
    fields: Seq<String>,
    mean: Seq<(String, u32)>,
    sd: Seq<(String, u32)>,
    input: Seq<(String, u32)>,
) -> Result<Seq<u32>, Error>
    decreases fields.len(),
{
    if fields.len() == 0 {
        Ok(Seq::empty())
    } else {
        let f = fields[0];
        match (assoc_get(sd, f@), assoc_get(mean, f@)) {
            (None, _) => Err(Error::MissingStdData(f)),
            (Some(dv), None) => Err(Error::MissingMeanData(f)),
            (Some(dv), Some(mn)) => match spec_norm_row(fields.drop_first(), mean, sd, input) {
                Ok(rest) => Ok(seq![spec_norm_value(get_or_zero(input, f@), mn, dv)] + rest),
                Err(e) => Err(e),
            },
        }
    }
}

/// One dense layer `x · kernel + bias`, or the first dimension mismatch met
/// while computing it.
pub open spec fn spec_layer(x: Seq<Seq<u32>>, k: Seq<Seq<u32>>, b: Seq<u32>) -> Result<
    Seq<Seq<u32>>,
    Error,
> {
    if x[0].len() != k.len() {
        Err(
            Error::DimensionMismatch {
                expected: x[0].len() as usize,
                actual: k.len() as usize,
            },
        )
    } else {
        let d = spec_dot(x, k);
        if b.len() != d[0].len() {
            Err(
                Error::DimensionMismatch {
                    expected: d[0].len() as usize,
                    actual: b.len() as usize,
                },
            )
        } else {
            Ok(spec_add(d, b))
        }
    }
}

/// The three-stage pipeline: two dense layers under leaky ReLU, a final
/// dense layer, then the top-left cell of the result.
pub open spec fn spec_predict(m: &ModelData, input: Seq<Seq<u32>>) -> Result<u32, Error> {
    match spec_layer(input, m.weights.l0_kernel@, m.weights.l0_bias@) {
        Err(e) => Err(e),
        Ok(h0) => {
            let a0 = spec_relu(h0, m.alpha);
            match spec_layer(a0, m.weights.l1_kernel@, m.weights.l1_bias@) {
                Err(e) => Err(e),
                Ok(h1) => {
                    let a1 = spec_relu(h1, m.alpha);
                    match spec_layer(a1, m.weights.l2_kernel@, m.weights.l2_bias@) {
                        Err(e) => Err(e),
                        Ok(out) => Ok(out[0][0]),
                    }
                },
            }
        },
    }
}

impl ModelData {
    /// Builds the normalized single-row matrix for the input, reading the
    /// input only through key lookup: column order is the stored field
    /// order, a field missing from the input reads as zero, and a field
    /// without statistics is the error that names it.
    pub fn norm(&self, input: &Vec<(String, u32)>) -> (r: Result<Matrix, Error>)
        ensures
            match (
                r,
                spec_norm_row(self.fields@, self.norm.spec_mean(), self.norm.spec_std(), input@),
            ) {
                (Ok(m), Ok(vals)) => m@ == seq![vals],
                (Err(e1), Err(e2)) => e1 == e2,
                _ => false,
            },
    {
        proof {
            assert(self.fields@.skip(0) =~= self.fields@);
        }
        let mut result: Vec<u32> = Vec::new();
        let mut i: usize = 0;
        while i < self.fields.len()
            invariant
                0 <= i <= self.fields@.len(),
                result@.len() == i,
                ({
                    let full = spec_norm_row(
                        self.fields@,
                        self.norm.spec_mean(),
                        self.norm.spec_std(),
                        input@,
                    );
                    let rest = spec_norm_row(
                        self.fields@.skip(i as int),
                        self.norm.spec_mean(),
                        self.norm.spec_std(),
                        input@,
                    );
                    match rest {
                        Ok(vals) => full == Ok::<Seq<u32>, Error>(result@ + vals),
                        Err(e) => full == rest,
                    }
                }),
            decreases self.fields@.len() - i,
        {
            proof {
                assert(self.fields@.skip(i as int)[0] == self.fields@[i as int]);
                assert(self.fields@.skip(i as int).drop_first() =~= self.fields@.skip(
                    i as int + 1,
                ));
            }
            let field: &String = &self.fields[i];
            let dv = match assoc_lookup(&self.norm.stddev, field) {
                Some(x) => x,
                None => {
                    return Err(Error::MissingStdData(field.clone()));
                },
            };
            let mn = match assoc_lookup(&self.norm.mean, field) {
                Some(x) => x,
                None => {
                    return Err(Error::MissingMeanData(field.clone()));
                },
            };
            let x = match assoc_lookup(input, field) {
                Some(v) => v,
                None => 0u32,
            };
            let v = div_bits(sub_bits(x, mn), dv);
            let ghost result_before = result@;
            result.push(v);
            proof {
                assert(result@ =~= result_before + seq![v]);
                let rest_next = spec_norm_row(
                    self.fields@.skip(i as int + 1),
                    self.norm.spec_mean(),
                    self.norm.spec_std(),
                    input@,
                );
                if let Ok(vals) = rest_next {
                    assert(result_before + (seq![v] + vals) =~= (result_before + seq![v]) + vals);
                }
            }
            i += 1;
        }
        proof {
            let rest = spec_norm_row(
                self.fields@.skip(i as int),
                self.norm.spec_mean(),
                self.norm.spec_std(),
                input@,
            );
            assert(rest is Ok && rest->Ok_0 =~= Seq::<u32>::empty());
            assert(result@ + Seq::<u32>::empty() =~= result@);
        }
        Ok(Matrix::from_array(result))
    }

    /// Runs the fixed three-stage pipeline on an already-normalized row and
    /// returns the single resulting value; a dimension mismatch at any
    /// stage is returned as the matrix layer reported it.
    pub fn predict(&self, input: &Matrix) -> (r: Result<u32, Error>)
        requires
            self.weights.l2_kernel@[0].len() >= 1,
        ensures
            r == spec_predict(self, input@),
    {
        let a1 = match input.dot(&self.weights.l0_kernel) {
            Ok(m) => m,
            Err(e) => {
                return Err(e);
            },
        };
        let a2 = match a1.add(&self.weights.l0_bias) {
            Ok(m) => m,
            Err(e) => {
                return Err(e);
            },
        };
        let a3 = a2.relu(self.alpha);
        let b1 = match a3.dot(&self.weights.l1_kernel) {
            Ok(m) => m,
            Err(e) => {
                return Err(e);
            },
        };
        let b2 = match b1.add(&self.weights.l1_bias) {
            Ok(m) => m,
            Err(e) => {
                return Err(e);
            },
        };
        let b3 = b2.relu(self.alpha);
        let c1 = match b3.dot(&self.weights.l2_kernel) {
            Ok(m) => m,
            Err(e) => {
                return Err(e);
            },
        };
        let c2 = match c1.add(&self.weights.l2_bias) {
            Ok(m) => m,
            Err(e) => {
                return Err(e);
            },
        };
        proof {
            use_type_invariant(&c2);
        }
        Ok(c2.get(0, 0))
    }

    /// Normalizes the input and feeds the resulting row through the
    /// pipeline; an error from either stage is passed on unchanged.
    pub fn norm_predict(&self, input: &Vec<(String, u32)>) -> (r: Result<u32, Error>)
        requires
            self.weights.l2_kernel@[0].len() >= 1,
        ensures
            r == (match spec_norm_row(
                self.fields@,
                self.norm.spec_mean(),
                self.norm.spec_std(),
                input@,
            ) {
                Ok(vals) => spec_predict(self, seq![vals]),
                Err(e) => Err(e),
            }),
    {
        let row = match self.norm(input) {
            Ok(m) => m,
            Err(e) => {
                return Err(e);
            },
        };
        self.predict(&row)
    }
}

/// Normalization order invariant: the input is read only through key
/// lookup, so two inputs that agree as maps — whatever the order of their
/// entries — normalize identically.
pub proof fn lemma_norm_input_order_irrelevant(
    fields: Seq<String>,
    mean: Seq<(String, u32)>,
    sd: Seq<(String, u32)>,
    in1: Seq<(String, u32)>,
    in2: Seq<(String, u32)>,
)
    requires
        forall|k: Seq<char>| assoc_get(in1, k) == assoc_get(in2, k),
    ensures
        spec_norm_row(fields, mean, sd, in1) == spec_norm_row(fields, mean, sd, in2),
    decreases fields.len(),
{
    if fields.len() > 0 {
        lemma_norm_input_order_irrelevant(fields.drop_first(), mean, sd, in1, in2);
        assert(assoc_get(in1, fields[0]@) == assoc_get(in2, fields[0]@));
    }
}

/// When normalization succeeds there is exactly one output value per field,
/// in the stored field order; each is the standardized value of the input's
/// entry for that field, a missing entry reading as positive zero; and both
/// statistics are present for every field.
pub proof fn lemma_norm_row_values(
    fields: Seq<String>,
    mean: Seq<(String, u32)>,
    sd: Seq<(String, u32)>,
    input: Seq<(String, u32)>,
)
    requires
        spec_norm_row(fields, mean, sd, input) is Ok,
    ensures
        spec_norm_row(fields, mean, sd, input)->Ok_0.len() == fields.len(),
        forall|j: int|
            0 <= j < fields.len() ==> spec_norm_row(fields, mean, sd, input)->Ok_0[j]
                == spec_norm_field(mean, sd, input, #[trigger] fields[j]),
        forall|j: int|
            0 <= j < fields.len() ==> assoc_get(sd, (#[trigger] fields[j])@) is Some && assoc_get(
                mean,
                fields[j]@,
            ) is Some,
    decreases fields.len(),
{
    if fields.len() > 0 {
        lemma_norm_row_values(fields.drop_first(), mean, sd, input);
        let vals = spec_norm_row(fields, mean, sd, input)->Ok_0;
        let rest = spec_norm_row(fields.drop_first(), mean, sd, input)->Ok_0;
        assert forall|j: int| 0 <= j < fields.len() implies vals[j] == spec_norm_field(
            mean,
            sd,
            input,
            #[trigger] fields[j],
        ) by {
            if j > 0 {
                assert(rest[j - 1] == spec_norm_field(mean, sd, input, fields.drop_first()[j - 1]));
                assert(fields.drop_first()[j - 1] == fields[j]);
            }
        }
        assert forall|j: int|
            0 <= j < fields.len() implies assoc_get(sd, (#[trigger] fields[j])@) is Some
            && assoc_get(mean, fields[j]@) is Some by {
            if j > 0 {
                assert(fields.drop_first()[j - 1] == fields[j]);
            }
        }
    }
}

/// Statistic-failure law: one field without a standard deviation or mean on
/// record makes normalization fail, whatever the input.
pub proof fn lemma_norm_missing_stat(
    fields: Seq<String>,
    mean: Seq<(String, u32)>,
    sd: Seq<(String, u32)>,
    input: Seq<(String, u32)>,
    i: int,
)
    requires
        0 <= i < fields.len(),
        assoc_get(sd, fields[i]@) is None || assoc_get(mean, fields[i]@) is None,
    ensures
        spec_norm_row(fields, mean, sd, input) is Err,
{
    if spec_norm_row(fields, mean, sd, input) is Ok {
        lemma_norm_row_values(fields, mean, sd, input);
    }
}

/// Any normalization failure is a missing-statistic error that names one of
/// the model's own fields, one actually lacking that statistic.
pub proof fn lemma_norm_err_names_field(
    fields: Seq<String>,
    mean: Seq<(String, u32)>,
    sd: Seq<(String, u32)>,
    input: Seq<(String, u32)>,
)
    requires
        spec_norm_row(fields, mean, sd, input) is Err,
    ensures
        ({
            let e = spec_norm_row(fields, mean, sd, input)->Err_0;
            ||| exists|t: int|
                0 <= t < fields.len() && e == Error::MissingStdData(#[trigger] fields[t])
                    && assoc_get(sd, fields[t]@) is None
            ||| exists|t: int|
                0 <= t < fields.len() && e == Error::MissingMeanData(#[trigger] fields[t])
                    && assoc_get(mean, fields[t]@) is None
        }),
    decreases fields.len(),
{
    let e = spec_norm_row(fields, mean, sd, input)->Err_0;
    if fields.len() > 0 {
        let f = fields[0];
        match (assoc_get(sd, f@), assoc_get(mean, f@)) {
            (None, _) => {
                assert(0 <= 0 < fields.len() && e == Error::MissingStdData(fields[0]) && assoc_get(
                    sd,
                    fields[0]@,
                ) is None);
            },
            (Some(dv), None) => {
                assert(0 <= 0 < fields.len() && e == Error::MissingMeanData(fields[0])
                    && assoc_get(mean, fields[0]@) is None);
            },
            (Some(dv), Some(mn)) => {
                lemma_norm_err_names_field(fields.drop_first(), mean, sd, input);
                let er = spec_norm_row(fields.drop_first(), mean, sd, input)->Err_0;
                assert(e == er);
                if exists|t: int|
                    0 <= t < fields.drop_first().len() && er == Error::MissingStdData(
                        #[trigger] fields.drop_first()[t],
                    ) && assoc_get(sd, fields.drop_first()[t]@) is None {
                    let t = choose|t: int|
                        0 <= t < fields.drop_first().len() && er == Error::MissingStdData(
                            #[trigger] fields.drop_first()[t],
                        ) && assoc_get(sd, fields.drop_first()[t]@) is None;
                    assert(fields.drop_first()[t] == fields[t + 1]);
                    assert(0 <= t + 1 < fields.len() && e == Error::MissingStdData(fields[t + 1])
                        && assoc_get(sd, fields[t + 1]@) is None);
                } else {
                    let t = choose|t: int|
                        0 <= t < fields.drop_first().len() && er == Error::MissingMeanData(
                            #[trigger] fields.drop_first()[t],
                        ) && assoc_get(mean, fields.drop_first()[t]@) is None;
                    assert(fields.drop_first()[t] == fields[t + 1]);
                    assert(0 <= t + 1 < fields.len() && e == Error::MissingMeanData(fields[t + 1])
                        && assoc_get(mean, fields[t + 1]@) is None);
                }
            },
        }
    }
}

} // verus!

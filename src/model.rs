use vstd::prelude::*;

verus! {

/// Length of a flattened 28 x 28 input image.
pub const INPUT_SIZE: usize = 784;

/// Number of hidden units.
pub const HIDDEN_SIZE: usize = 128;

/// Number of output classes (the ten digits).
pub const OUTPUT_SIZE: usize = 10;

/// The four parameter tensors of the network, by their persisted names.
#[derive(Clone, Copy, Debug, PartialEq, Eq, Structural)]
pub enum TensorName {
    W1,
    B1,
    W2,
    B2,
}

impl TensorName {
    /// The shape, rows then columns, that the network requires of this tensor.
    pub open spec fn spec_shape(self) -> (usize, usize) {
        match self {
            TensorName::W1 => (HIDDEN_SIZE, INPUT_SIZE),
            TensorName::B1 => (HIDDEN_SIZE, 1),
            TensorName::W2 => (OUTPUT_SIZE, HIDDEN_SIZE),
            TensorName::B2 => (OUTPUT_SIZE, 1),
        }
    }

    /// The persisted name of this tensor.
    pub open spec fn spec_name(self) -> Seq<char> {
        match self {
            TensorName::W1 => seq!['w', '1'],
            TensorName::B1 => seq!['b', '1'],
            TensorName::W2 => seq!['w', '2'],
            TensorName::B2 => seq!['b', '2'],
        }
    }

    /// The shape, rows then columns, that the network requires of this tensor.
    pub fn expected_shape(&self) -> (r: (usize, usize))
        ensures
            r == self.spec_shape(),
    {
        match self {
            TensorName::W1 => (HIDDEN_SIZE, INPUT_SIZE),
            TensorName::B1 => (HIDDEN_SIZE, 1),
            TensorName::W2 => (OUTPUT_SIZE, HIDDEN_SIZE),
            TensorName::B2 => (OUTPUT_SIZE, 1),
        }
    }

    /// The persisted name of this tensor.
    pub fn as_str(&self) -> (r: &'static str)
        ensures
            r@ == self.spec_name(),
    {
        proof {
            reveal_strlit("w1");
            reveal_strlit("b1");
            reveal_strlit("w2");
            reveal_strlit("b2");
        }
        match self {
            TensorName::W1 => "w1",
            TensorName::B1 => "b1",
            TensorName::W2 => "w2",
            TensorName::B2 => "b2",
        }
    }
}

/// Why a model could not be loaded, built or saved.
#[derive(Debug)]
pub enum ModelError {
    /// A tensor's declared shape is not the one the network requires, or its value
    /// count disagrees with its declared shape.
    ShapeMismatch(TensorName),
    /// A required tensor is absent from the bundle.
    TensorNotFound(TensorName),
    /// A tensor is stored with an element type other than 32-bit float.
    WrongDtype(TensorName),
    /// The bytes are not a well-formed tensor file.
    InvalidFormat,
    /// Some parameter values are NaN or infinite; nothing was written.
    NonFiniteParameters(Vec<NonFiniteTensor>),
}

/// Diagnostic for one tensor that holds non-finite values.
#[derive(Debug)]
pub struct NonFiniteTensor {
    pub name: TensorName,
    /// How many of its values are NaN or infinite.
    pub count: usize,
    /// Its first values (at most ten), as bit patterns.
    pub sample: Vec<u32>,
}

/// A tensor's mathematical content: its shape and its row-major values.
pub struct TensorValue {
    pub rows: usize,
    pub cols: usize,
    pub values: Seq<u32>,
}

/// A dense matrix of single-precision values (as bit patterns), row-major.
#[derive(Debug)]
pub struct Matrix {
    pub rows: usize,
    pub cols: usize,
    pub data: Vec<u32>,
}

impl View for Matrix {
    type V = TensorValue;

    open spec fn view(&self) -> TensorValue {
        TensorValue { rows: self.rows, cols: self.cols, values: self.data@ }
    }
}

/// Whether `t` has the shape that the network requires of tensor `name`, with one
/// value per cell.
pub open spec fn tensor_fits(t: TensorValue, name: TensorName) -> bool {
    &&& (t.rows, t.cols) == name.spec_shape()
    &&& t.values.len() == t.rows * t.cols
}

/// The content of the network's parameters.
pub struct ParamsValue {
    pub w1: TensorValue,
    pub b1: TensorValue,
    pub w2: TensorValue,
    pub b2: TensorValue,
}

/// The network's shape invariant: every tensor has its required shape and size.
pub open spec fn params_wf(p: ParamsValue) -> bool {
    &&& tensor_fits(p.w1, TensorName::W1)
    &&& tensor_fits(p.b1, TensorName::B1)
    &&& tensor_fits(p.w2, TensorName::W2)
    &&& tensor_fits(p.b2, TensorName::B2)
}

/// The content of a serialized bundle: for each name, a flat row-major value
/// sequence and its declared shape.
pub struct BundleValue {
    pub w1: Seq<u32>,
    pub w1_shape: (usize, usize),
    pub b1: Seq<u32>,
    pub b1_shape: (usize, usize),
    pub w2: Seq<u32>,
    pub w2_shape: (usize, usize),
    pub b2: Seq<u32>,
    pub b2_shape: (usize, usize),
}

/// The tensor that a flat sequence and a declared shape describe.
pub open spec fn tensor_of(values: Seq<u32>, shape: (usize, usize)) -> TensorValue {
    TensorValue { rows: shape.0, cols: shape.1, values }
}

/// The bundle that holds the given parameters.
pub open spec fn bundle_of(p: ParamsValue) -> BundleValue {
    BundleValue {
        w1: p.w1.values,
        w1_shape: (p.w1.rows, p.w1.cols),
        b1: p.b1.values,
        b1_shape: (p.b1.rows, p.b1.cols),
        w2: p.w2.values,
        w2_shape: (p.w2.rows, p.w2.cols),
        b2: p.b2.values,
        b2_shape: (p.b2.rows, p.b2.cols),
    }
}

/// The parameters that a bundle describes, tensor by tensor; whether they fit is
/// decided by `bundle_check`.
pub open spec fn params_of(b: BundleValue) -> ParamsValue {
    ParamsValue {
        w1: tensor_of(b.w1, b.w1_shape),
        b1: tensor_of(b.b1, b.b1_shape),
        w2: tensor_of(b.w2, b.w2_shape),
        b2: tensor_of(b.b2, b.b2_shape),
    }
}

/// Loading a bundle: the first tensor, in the order w1, b1, w2, b2, that does not
/// fit its required shape is reported; otherwise the parameters are those of the
/// bundle.
pub open spec fn bundle_check(b: BundleValue) -> Result<ParamsValue, TensorName> {
    let p = params_of(b);
    if !tensor_fits(p.w1, TensorName::W1) {
        Err(TensorName::W1)
    } else if !tensor_fits(p.b1, TensorName::B1) {
        Err(TensorName::B1)
    } else if !tensor_fits(p.w2, TensorName::W2) {
        Err(TensorName::W2)
    } else if !tensor_fits(p.b2, TensorName::B2) {
        Err(TensorName::B2)
    } else {
        Ok(p)
    }
}

/// Loading the bundle of well-formed parameters gives exactly those parameters back,
/// bit for bit.
pub proof fn lemma_bundle_round_trip(p: ParamsValue)
    requires
        params_wf(p),
    ensures
        bundle_check(bundle_of(p)) == Ok::<ParamsValue, TensorName>(p),
{
}

/// Loading a bundle succeeds exactly when its parameters satisfy the network's
/// shape invariant.
pub proof fn lemma_bundle_check_ok(b: BundleValue)
    ensures
        bundle_check(b) is Ok <==> params_wf(params_of(b)),
        bundle_check(b) is Ok ==> bundle_check(b) == Ok::<ParamsValue, TensorName>(params_of(b)),
{
}

/// The persisted form of the parameters: flat row-major values and declared shapes.
#[derive(Debug)]
pub struct SerializableModel {
    pub w1: Vec<u32>,
    pub w1_shape: (usize, usize),
    pub b1: Vec<u32>,
    pub b1_shape: (usize, usize),
    pub w2: Vec<u32>,
    pub w2_shape: (usize, usize),
    pub b2: Vec<u32>,
    pub b2_shape: (usize, usize),
}

impl View for SerializableModel {
    type V = BundleValue;

    open spec fn view(&self) -> BundleValue {
        BundleValue {
            w1: self.w1@,
            w1_shape: self.w1_shape,
            b1: self.b1@,
            b1_shape: self.b1_shape,
            w2: self.w2@,
            w2_shape: self.w2_shape,
            b2: self.b2@,
            b2_shape: self.b2_shape,
        }
    }
}

/// The network's parameters: W1 (hidden x input), b1 (hidden x 1), W2 (output x
/// hidden) and b2 (output x 1).
#[derive(Debug)]
pub struct InferrableModel {
    pub w1: Matrix,
    pub b1: Matrix,
    pub w2: Matrix,
    pub b2: Matrix,
}

impl View for InferrableModel {
    type V = ParamsValue;

    open spec fn view(&self) -> ParamsValue {
        ParamsValue { w1: self.w1@, b1: self.b1@, w2: self.w2@, b2: self.b2@ }
    }
}

fn zeros(n: usize) -> (r: Vec<u32>)
    ensures
        r@ == Seq::new(n as nat, |i: int| 0u32),
{
    let mut r: Vec<u32> = Vec::with_capacity(n);
    let mut i: usize = 0;
    while i < n
        invariant
            i <= n,
            r@ == Seq::new(i as nat, |k: int| 0u32),
        decreases n - i,
    {
        r.push(0u32);
        i = i + 1;
        assert(r@ =~= Seq::new(i as nat, |k: int| 0u32));
    }
    r
}

fn copy_values(v: &Vec<u32>) -> (r: Vec<u32>)
    ensures
        r@ == v@,
{
    let mut r: Vec<u32> = Vec::with_capacity(v.len());
    let mut i: usize = 0;
    while i < v.len()
        invariant
            i <= v@.len(),
            r@ == v@.subrange(0, i as int),
        decreases v.len() - i,
    {
        r.push(v[i]);
        i = i + 1;
        assert(r@ =~= v@.subrange(0, i as int));
    }
    assert(r@ =~= v@);
    r
}

/// Whether `values` with the declared `shape` fits tensor `name`.
fn fits(values: &Vec<u32>, shape: (usize, usize), name: TensorName) -> (r: bool)
    ensures
        r == tensor_fits(tensor_of(values@, shape), name),
{
    let expected = name.expected_shape();
    shape.0 == expected.0 && shape.1 == expected.1 && values.len() == expected.0 * expected.1
}

impl InferrableModel {
    /// Starts a model from initial weight draws (row-major W1 and W2); both biases
    /// start at zero.
    pub fn new(w1_init: Vec<u32>, w2_init: Vec<u32>) -> (r: Self)
        requires
            w1_init@.len() == HIDDEN_SIZE * INPUT_SIZE,
            w2_init@.len() == OUTPUT_SIZE * HIDDEN_SIZE,
        ensures
            params_wf(r@),
            r.w1.data@ == w1_init@,
            r.w2.data@ == w2_init@,
            forall|i: int| 0 <= i < HIDDEN_SIZE ==> r.b1.data@[i] == 0u32,
            forall|i: int| 0 <= i < OUTPUT_SIZE ==> r.b2.data@[i] == 0u32,
    {
        InferrableModel {
            w1: Matrix { rows: HIDDEN_SIZE, cols: INPUT_SIZE, data: w1_init },
            b1: Matrix { rows: HIDDEN_SIZE, cols: 1, data: zeros(HIDDEN_SIZE) },
            w2: Matrix { rows: OUTPUT_SIZE, cols: HIDDEN_SIZE, data: w2_init },
            b2: Matrix { rows: OUTPUT_SIZE, cols: 1, data: zeros(OUTPUT_SIZE) },
        }
    }

    /// Builds the parameters from a bundle, or names the first tensor (in the order
    /// w1, b1, w2, b2) whose declared shape or value count does not fit.
    pub fn from_serializable_model(model: &SerializableModel) -> (r: Result<Self, ModelError>)
        ensures
            match (r, bundle_check(model@)) {
                (Ok(m), Ok(p)) => m@ == p,
                (Err(ModelError::ShapeMismatch(n)), Err(e)) => n == e,
                _ => false,
            },
    {
        if !fits(&model.w1, model.w1_shape, TensorName::W1) {
            return Err(ModelError::ShapeMismatch(TensorName::W1));
        }
        if !fits(&model.b1, model.b1_shape, TensorName::B1) {
            return Err(ModelError::ShapeMismatch(TensorName::B1));
        }
        if !fits(&model.w2, model.w2_shape, TensorName::W2) {
            return Err(ModelError::ShapeMismatch(TensorName::W2));
        }
        if !fits(&model.b2, model.b2_shape, TensorName::B2) {
            return Err(ModelError::ShapeMismatch(TensorName::B2));
        }
        Ok(InferrableModel {
            w1: Matrix { rows: model.w1_shape.0, cols: model.w1_shape.1, data: copy_values(&model.w1) },
            b1: Matrix { rows: model.b1_shape.0, cols: model.b1_shape.1, data: copy_values(&model.b1) },
            w2: Matrix { rows: model.w2_shape.0, cols: model.w2_shape.1, data: copy_values(&model.w2) },
            b2: Matrix { rows: model.b2_shape.0, cols: model.b2_shape.1, data: copy_values(&model.b2) },
        })
    }

    /// The bundle of these parameters: each tensor's values and shape as they are.
    pub fn to_serializable_model(&self) -> (r: SerializableModel)
        ensures
            r@ == bundle_of(self@),
    {
        SerializableModel {
            w1: copy_values(&self.w1.data),
            w1_shape: (self.w1.rows, self.w1.cols),
            b1: copy_values(&self.b1.data),
            b1_shape: (self.b1.rows, self.b1.cols),
            w2: copy_values(&self.w2.data),
            w2_shape: (self.w2.rows, self.w2.cols),
            b2: copy_values(&self.b2.data),
            b2_shape: (self.b2.rows, self.b2.cols),
        }
    }
}

} // verus!

use vstd::prelude::*;
use safetensors::tensor::TensorView;
use safetensors::{Dtype, SafeTensorError, SafeTensors};
use crate::float_bits::{count_non_finite, le_bytes_of, le_bytes_to_words, non_finite_count, words_of_le, words_to_le_bytes};
use crate::model::{ModelError, NonFiniteTensor, SerializableModel, TensorName, BundleValue};

verus! {

#[verifier::external_type_specification]
#[verifier::external_body]
pub struct ExSafeTensorError(SafeTensorError);

/// Longest run of decimal digits that a readable header may hold.
pub const MAX_DIGIT_RUN: usize = 18;

/// Whether `b` is an ASCII decimal digit.
pub open spec fn is_ascii_digit(b: u8) -> bool {
    48 <= b <= 57
}

/// Length of the run of ASCII digits in `h` that ends just before index `i`.
pub open spec fn digit_run(h: Seq<u8>, i: int) -> nat
    decreases i,
{
    if i <= 0 {
        0
    } else if is_ascii_digit(h[i - 1]) {
        digit_run(h, i - 1) + 1
    } else {
        0
    }
}

/// Little-endian value of bytes `k` up to `end` of `s`.
pub open spec fn le_value(s: Seq<u8>, k: int, end: int) -> int
    decreases end - k,
{
    if k >= end {
        0
    } else {
        s[k] + 256 * le_value(s, k + 1, end)
    }
}

/// Header length that a tensor file declares in its first eight bytes.
pub open spec fn declared_header_len(file: Seq<u8>) -> int {
    le_value(file, 0, 8)
}

/// The header bytes of a tensor file.
pub open spec fn header_of(file: Seq<u8>) -> Seq<u8> {
    file.subrange(8, 8 + declared_header_len(file))
}

/// Whether a tensor file's declared header lies inside it and holds no run of more
/// than 18 decimal digits, so that every number the header declares is below 10^18.
pub open spec fn header_is_bounded(file: Seq<u8>) -> bool {
    &&& file.len() >= 8
    &&& 8 + declared_header_len(file) <= file.len()
    &&& forall|i: int| 0 <= i <= declared_header_len(file) ==> #[trigger] digit_run(header_of(file), i) <= MAX_DIGIT_RUN
}

/// Whether the header of `file` is bounded in the sense of `header_is_bounded`.
pub fn check_header(file: &[u8]) -> (r: bool)
    ensures
        r == header_is_bounded(file@),
{
    let len = file.len();
    if len < 8 {
        return false;
    }
    let v: u128 = file[0] as u128 + 256 * (file[1] as u128 + 256 * (file[2] as u128 + 256 * (file[3] as u128
        + 256 * (file[4] as u128 + 256 * (file[5] as u128 + 256 * (file[6] as u128 + 256 * (file[7] as u128)))))));
    proof {
        reveal_with_fuel(le_value, 9);
    }
    assert(v == declared_header_len(file@));
    if v > (len - 8) as u128 {
        return false;
    }
    let n = v as usize;
    let ghost h = header_of(file@);
    let mut run: usize = 0;
    let mut i: usize = 0;
    while i < n
        invariant
            len == file@.len(),
            n == declared_header_len(file@),
            8 + n <= len,
            h == header_of(file@),
            i <= n,
            run == digit_run(h, i as int),
            forall|j: int| 0 <= j <= i ==> #[trigger] digit_run(h, j) <= MAX_DIGIT_RUN,
        decreases n - i,
    {
        let b = file[8 + i];
        assert(h[i as int] == b);
        if 48 <= b && b <= 57 {
            run = run + 1;
            if run > MAX_DIGIT_RUN {
                assert(digit_run(h, i as int + 1) > MAX_DIGIT_RUN);
                return false;
            }
        } else {
            run = 0;
        }
        i = i + 1;
    }
    true
}

/// What a tensor file holds under a name: `None` when the bytes are not a readable
/// tensor file; `Some(None)` when no tensor has that name; otherwise whether its
/// element type is 32-bit float, its shape and its bytes.
pub uninterp spec fn stored_tensor(file: Seq<u8>, name: Seq<char>) -> Option<Option<(bool, Seq<usize>, Seq<u8>)>>;

/// The plain content of what `read_stored` returns.
pub open spec fn stored_view(r: Option<Option<(bool, Vec<usize>, Vec<u8>)>>) -> Option<Option<(bool, Seq<usize>, Seq<u8>)>> {
    match r {
        None => None,
        Some(None) => Some(None),
        Some(Some((f, s, d))) => Some(Some((f, s@, d@))),
    }
}

/// Relies on safetensors' SafeTensors::deserialize, then SafeTensors::tensor and the
/// view's dtype, shape and data: what the file holds under `name`. With every number
/// of the header below 10^18, the sums that deserialize forms cannot overflow.
#[verifier::external_body]
fn read_stored(file: &[u8], name: &str) -> (r: Option<Option<(bool, Vec<usize>, Vec<u8>)>>)
    requires
        header_is_bounded(file@),
    ensures
        stored_view(r) == stored_tensor(file@, name@),
{
    match SafeTensors::deserialize(file) {
        Err(_) => None,
        Ok(st) => match st.tensor(name) {
            Err(_) => Some(None),
            Ok(v) => Some(Some((matches!(v.dtype(), Dtype::F32), v.shape().to_vec(), v.data().to_vec()))),
        },
    }
}

/// The bytes of a tensor file that holds the given tensors, each a name, a shape and
/// its little-endian 32-bit float data, with no further metadata.
pub uninterp spec fn safetensors_f32_file(tensors: Seq<(Seq<char>, Seq<usize>, Seq<u8>)>) -> Seq<u8>;

/// One tensor to be written: name, shape and little-endian data.
pub struct TensorBytes {
    pub name: &'static str,
    pub shape: Vec<usize>,
    pub data: Vec<u8>,
}

/// The plain content of the tensors to be written.
pub open spec fn tensors_view(t: Seq<TensorBytes>) -> Seq<(Seq<char>, Seq<usize>, Seq<u8>)> {
    t.map_values(|x: TensorBytes| (x.name@, x.shape@, x.data@))
}

/// Largest dimension, and largest value count, of a tensor that is written (exclusive).
pub const MAX_STORED_DIM: u64 = 10000000000000000;

/// Whether tensors can be written as one file: at most four, with distinct names of
/// at most eight characters, two-dimensional shapes below `MAX_STORED_DIM`, and four
/// bytes per cell.
pub open spec fn writable(t: Seq<TensorBytes>) -> bool {
    &&& t.len() <= 4
    &&& forall|i: int| 0 <= i < t.len() ==> #[trigger] t[i].name@.len() <= 8
    &&& forall|i: int, j: int| 0 <= i < t.len() && 0 <= j < t.len() && i != j ==> #[trigger] t[i].name@ != #[trigger] t[j].name@
    &&& forall|i: int| 0 <= i < t.len() ==> {
        &&& #[trigger] t[i].shape@.len() == 2
        &&& t[i].shape@[0] < MAX_STORED_DIM
        &&& t[i].shape@[1] < MAX_STORED_DIM
        &&& t[i].data@.len() == 4 * t[i].shape@[0] * t[i].shape@[1]
        &&& t[i].data@.len() < 4 * MAX_STORED_DIM
    }
}

/// Relies on safetensors::serialize (with TensorView::new building each F32 view):
/// the file is a function of the tensors alone. With consistent lengths, no overflow
/// and a small header it does not fail, and reading the file back gives each tensor.
/// Its header holds short names, "F32", and numbers below 2 * 10^17.
#[verifier::external_body]
fn serialize_f32(tensors: &Vec<TensorBytes>) -> (r: Result<Vec<u8>, SafeTensorError>)
    requires
        writable(tensors@),
    ensures
        r is Ok,
        r matches Ok(b) ==> b@ == safetensors_f32_file(tensors_view(tensors@)),
        r matches Ok(b) ==> header_is_bounded(b@),
        r matches Ok(b) ==> forall|i: int| 0 <= i < tensors@.len() ==> stored_tensor(b@, #[trigger] tensors@[i].name@) == Some(Some((true, tensors@[i].shape@, tensors@[i].data@))),
{
    let mut views = Vec::with_capacity(tensors.len());
    for t in tensors.iter() {
        views.push((t.name, TensorView::new(Dtype::F32, t.shape.clone(), &t.data)?));
    }
    safetensors::serialize(views, None)
}

/// Outcome of reading one stored tensor: its values and declared shape, or the
/// reason it cannot be read.
pub open spec fn decoded(name: TensorName, f32_dtype: bool, shape: Seq<usize>, data: Seq<u8>) -> Result<(Seq<u32>, (usize, usize)), ModelError> {
    if !f32_dtype {
        Err(ModelError::WrongDtype(name))
    } else if shape.len() != 2 || data.len() != 4 * shape[0] * shape[1] {
        Err(ModelError::ShapeMismatch(name))
    } else {
        Ok((words_of_le(data), (shape[0], shape[1])))
    }
}

/// Reads one stored tensor: it must hold 32-bit floats, have two dimensions, and carry
/// exactly four bytes per cell of its declared shape.
pub fn decode_tensor(name: TensorName, f32_dtype: bool, shape: &[usize], data: &[u8]) -> (r: Result<(Vec<u32>, (usize, usize)), ModelError>)
    ensures
        match (r, decoded(name, f32_dtype, shape@, data@)) {
            (Ok((v, s)), Ok((dv, ds))) => v@ == dv && s == ds,
            (Err(ModelError::WrongDtype(a)), Err(ModelError::WrongDtype(b))) => a == b,
            (Err(ModelError::ShapeMismatch(a)), Err(ModelError::ShapeMismatch(b))) => a == b,
            _ => false,
        },
{
    if !f32_dtype {
        return Err(ModelError::WrongDtype(name));
    }
    if shape.len() != 2 {
        return Err(ModelError::ShapeMismatch(name));
    }
    let rows = shape[0];
    let cols = shape[1];
    let len = data.len();
    let fits = match rows.checked_mul(cols) {
        Some(cells) => match cells.checked_mul(4) {
            Some(bytes) => bytes == len,
            None => false,
        },
        None => false,
    };
    if !fits {
        proof {
            assert(data@.len() != 4 * rows * cols) by (nonlinear_arith)
                requires
                    rows * cols > usize::MAX || 4 * (rows * cols) > usize::MAX || 4 * (rows * cols) != len,
                    len == data@.len(),
                    len <= usize::MAX,
            ;
        }
        return Err(ModelError::ShapeMismatch(name));
    }
    assert(4 * rows * cols == 4 * (rows * cols)) by (nonlinear_arith);
    Ok((le_bytes_to_words(data), (rows, cols)))
}

/// What loading finds under tensor `name` of `file`.
pub open spec fn tensor_outcome(file: Seq<u8>, name: TensorName) -> Result<(Seq<u32>, (usize, usize)), ModelError> {
    match stored_tensor(file, name.spec_name()) {
        None => Err(ModelError::InvalidFormat),
        Some(None) => Err(ModelError::TensorNotFound(name)),
        Some(Some((f, s, d))) => decoded(name, f, s, d),
    }
}

/// Loading a tensor file: refused as malformed unless its header is bounded; then
/// the tensors w1, b1, w2 and b2 in turn, the first failure being reported.
pub open spec fn loaded(file: Seq<u8>) -> Result<BundleValue, ModelError> {
    if !header_is_bounded(file) {
        Err(ModelError::InvalidFormat)
    } else {
        match tensor_outcome(file, TensorName::W1) {
            Err(e) => Err(e),
            Ok((w1, w1_shape)) => match tensor_outcome(file, TensorName::B1) {
                Err(e) => Err(e),
                Ok((b1, b1_shape)) => match tensor_outcome(file, TensorName::W2) {
                    Err(e) => Err(e),
                    Ok((w2, w2_shape)) => match tensor_outcome(file, TensorName::B2) {
                        Err(e) => Err(e),
                        Ok((b2, b2_shape)) => Ok(BundleValue { w1, w1_shape, b1, b1_shape, w2, w2_shape, b2, b2_shape }),
                    },
                },
            },
        }
    }
}

fn read_tensor(file: &[u8], name: TensorName) -> (r: Result<(Vec<u32>, (usize, usize)), ModelError>)
    requires
        header_is_bounded(file@),
    ensures
        match (r, tensor_outcome(file@, name)) {
            (Ok((v, s)), Ok((dv, ds))) => v@ == dv && s == ds,
            (Err(a), Err(b)) => a == b,
            _ => false,
        },
{
    match read_stored(file, name.as_str()) {
        None => Err(ModelError::InvalidFormat),
        Some(None) => Err(ModelError::TensorNotFound(name)),
        Some(Some((f32_dtype, shape, data))) => decode_tensor(name, f32_dtype, shape.as_slice(), data.as_slice()),
    }
}

/// Whether each tensor of the bundle holds exactly one value per cell of its declared
/// shape.
pub open spec fn bundle_lengths_agree(b: BundleValue) -> bool {
    &&& b.w1.len() == b.w1_shape.0 * b.w1_shape.1
    &&& b.b1.len() == b.b1_shape.0 * b.b1_shape.1
    &&& b.w2.len() == b.w2_shape.0 * b.w2_shape.1
    &&& b.b2.len() == b.b2_shape.0 * b.b2_shape.1
}

impl SerializableModel {
    /// Reads the four tensors w1, b1, w2 and b2 from the bytes of a tensor file: a
    /// missing one is `TensorNotFound`, one not of 32-bit floats `WrongDtype`, one not
    /// two-dimensional or whose byte length is not four per cell `ShapeMismatch`, and
    /// bytes that are not a tensor file (or whose header holds a run of more than 18
    /// digits) `InvalidFormat`.
    pub fn load_from_safetensors(bytes: &[u8]) -> (r: Result<SerializableModel, ModelError>)
        ensures
            match (r, loaded(bytes@)) {
                (Ok(m), Ok(b)) => m@ == b,
                (Err(e), Err(f)) => e == f,
                _ => false,
            },
    {
        if !check_header(bytes) {
            return Err(ModelError::InvalidFormat);
        }
        let (w1, w1_shape) = read_tensor(bytes, TensorName::W1)?;
        let (b1, b1_shape) = read_tensor(bytes, TensorName::B1)?;
        let (w2, w2_shape) = read_tensor(bytes, TensorName::W2)?;
        let (b2, b2_shape) = read_tensor(bytes, TensorName::B2)?;
        Ok(SerializableModel { w1, w1_shape, b1, b1_shape, w2, w2_shape, b2, b2_shape })
    }
}

/// The values that a bundle holds under `name`.
pub open spec fn values_of(b: BundleValue, name: TensorName) -> Seq<u32> {
    match name {
        TensorName::W1 => b.w1,
        TensorName::B1 => b.b1,
        TensorName::W2 => b.w2,
        TensorName::B2 => b.b2,
    }
}

/// The diagnostic entry for one tensor: present exactly when it holds a non-finite
/// value, with their number.
pub open spec fn non_finite_entry(b: BundleValue, name: TensorName) -> Seq<(TensorName, nat)> {
    if non_finite_count(values_of(b, name)) > 0 {
        seq![(name, non_finite_count(values_of(b, name)))]
    } else {
        Seq::empty()
    }
}

/// Every tensor of the bundle that holds a non-finite value, in the order w1, b1, w2,
/// b2, with the number of such values.
pub open spec fn non_finite_report(b: BundleValue) -> Seq<(TensorName, nat)> {
    non_finite_entry(b, TensorName::W1) + non_finite_entry(b, TensorName::B1)
        + non_finite_entry(b, TensorName::W2) + non_finite_entry(b, TensorName::B2)
}

/// The names and counts of a list of diagnostics.
pub open spec fn report_view(list: Seq<NonFiniteTensor>) -> Seq<(TensorName, nat)> {
    list.map_values(|t: NonFiniteTensor| (t.name, t.count as nat))
}

/// The first values of a tensor, at most ten, that a diagnostic shows.
pub open spec fn sample_of(values: Seq<u32>) -> Seq<u32> {
    if values.len() <= 10 {
        values
    } else {
        values.subrange(0, 10)
    }
}

/// Whether `list` is the diagnostic of bundle `b`: its entries, and a sample of each
/// offending tensor.
pub open spec fn is_diagnostic_of(list: Seq<NonFiniteTensor>, b: BundleValue) -> bool {
    &&& report_view(list) == non_finite_report(b)
    &&& forall|i: int| 0 <= i < list.len() ==> #[trigger] list[i].sample@ == sample_of(values_of(b, list[i].name))
}

fn sample(values: &Vec<u32>) -> (r: Vec<u32>)
    ensures
        r@ == sample_of(values@),
{
    let n: usize = if values.len() <= 10 { values.len() } else { 10 };
    let mut r: Vec<u32> = Vec::with_capacity(n);
    let mut i: usize = 0;
    while i < n
        invariant
            n <= values@.len(),
            n == if values@.len() <= 10 { values@.len() } else { 10 },
            i <= n,
            r@ == values@.subrange(0, i as int),
        decreases n - i,
    {
        r.push(values[i]);
        i = i + 1;
        assert(r@ =~= values@.subrange(0, i as int));
    }
    assert(r@ =~= sample_of(values@));
    r
}

fn note_non_finite(list: &mut Vec<NonFiniteTensor>, values: &Vec<u32>, name: TensorName, Ghost(b): Ghost<BundleValue>)
    requires
        values@ == values_of(b, name),
        forall|i: int| 0 <= i < old(list)@.len() ==> #[trigger] old(list)@[i].sample@ == sample_of(values_of(b, old(list)@[i].name)),
    ensures
        report_view(final(list)@) == report_view(old(list)@) + non_finite_entry(b, name),
        forall|i: int| 0 <= i < final(list)@.len() ==> #[trigger] final(list)@[i].sample@ == sample_of(values_of(b, final(list)@[i].name)),
{
    let count = count_non_finite(values.as_slice());
    if count > 0 {
        list.push(NonFiniteTensor { name, count, sample: sample(values) });
    }
    assert(report_view(list@) =~= report_view(old(list)@) + non_finite_entry(b, name));
}

impl SerializableModel {
    /// The pre-save check: succeeds when every value of every tensor is finite, and
    /// otherwise lists each offending tensor with its number of NaN or infinite
    /// values and a sample of its first values.
    pub fn check_finite(&self) -> (r: Result<(), ModelError>)
        ensures
            r is Ok <==> non_finite_report(self@).len() == 0,
            r matches Err(e) ==> (e matches ModelError::NonFiniteParameters(list) && is_diagnostic_of(list@, self@)),
    {
        let mut list: Vec<NonFiniteTensor> = Vec::new();
        assert(report_view(list@) =~= Seq::empty());
        note_non_finite(&mut list, &self.w1, TensorName::W1, Ghost(self@));
        note_non_finite(&mut list, &self.b1, TensorName::B1, Ghost(self@));
        note_non_finite(&mut list, &self.w2, TensorName::W2, Ghost(self@));
        note_non_finite(&mut list, &self.b2, TensorName::B2, Ghost(self@));
        assert(report_view(list@) =~= non_finite_report(self@));
        if list.len() == 0 {
            Ok(())
        } else {
            Err(ModelError::NonFiniteParameters(list))
        }
    }
}

/// Whether a tensor with these values and declared shape can be written: one value
/// per cell, its dimensions and value count below `MAX_STORED_DIM`, and its bytes
/// addressable.
pub open spec fn tensor_storable(values: Seq<u32>, shape: (usize, usize)) -> bool {
    &&& values.len() == shape.0 * shape.1
    &&& shape.0 < MAX_STORED_DIM
    &&& shape.1 < MAX_STORED_DIM
    &&& values.len() < MAX_STORED_DIM
    &&& 4 * values.len() <= usize::MAX
}

/// Whether every tensor of the bundle can be written.
pub open spec fn bundle_storable(b: BundleValue) -> bool {
    &&& tensor_storable(b.w1, b.w1_shape)
    &&& tensor_storable(b.b1, b.b1_shape)
    &&& tensor_storable(b.w2, b.w2_shape)
    &&& tensor_storable(b.b2, b.b2_shape)
}

/// The first tensor, in the order w1, b1, w2, b2, that cannot be written.
pub open spec fn first_unstorable(b: BundleValue) -> TensorName {
    if !tensor_storable(b.w1, b.w1_shape) {
        TensorName::W1
    } else if !tensor_storable(b.b1, b.b1_shape) {
        TensorName::B1
    } else if !tensor_storable(b.w2, b.w2_shape) {
        TensorName::W2
    } else {
        TensorName::B2
    }
}

/// The tensors that the file of a bundle holds: each name with its shape and the
/// little-endian bytes of its values.
pub open spec fn file_tensors(b: BundleValue) -> Seq<(Seq<char>, Seq<usize>, Seq<u8>)> {
    seq![
        (TensorName::W1.spec_name(), seq![b.w1_shape.0, b.w1_shape.1], le_bytes_of(b.w1)),
        (TensorName::B1.spec_name(), seq![b.b1_shape.0, b.b1_shape.1], le_bytes_of(b.b1)),
        (TensorName::W2.spec_name(), seq![b.w2_shape.0, b.w2_shape.1], le_bytes_of(b.w2)),
        (TensorName::B2.spec_name(), seq![b.b2_shape.0, b.b2_shape.1], le_bytes_of(b.b2)),
    ]
}

/// Whether `file` holds, under `name`, these values as 32-bit floats with this shape.
pub open spec fn holds_tensor(file: Seq<u8>, name: TensorName, values: Seq<u32>, shape: (usize, usize)) -> bool {
    stored_tensor(file, name.spec_name()) == Some(Some((true, seq![shape.0, shape.1], le_bytes_of(values))))
}

/// Whether `file` has a bounded header and holds each tensor of bundle `b`.
pub open spec fn file_holds(file: Seq<u8>, b: BundleValue) -> bool {
    &&& header_is_bounded(file)
    &&& holds_tensor(file, TensorName::W1, b.w1, b.w1_shape)
    &&& holds_tensor(file, TensorName::B1, b.b1, b.b1_shape)
    &&& holds_tensor(file, TensorName::W2, b.w2, b.w2_shape)
    &&& holds_tensor(file, TensorName::B2, b.b2, b.b2_shape)
}

fn storable(values: &Vec<u32>, shape: (usize, usize)) -> (r: bool)
    ensures
        r == tensor_storable(values@, shape),
{
    let len = values.len();
    if shape.0 as u64 >= MAX_STORED_DIM || shape.1 as u64 >= MAX_STORED_DIM || len as u64 >= MAX_STORED_DIM || len > usize::MAX / 4 {
        return false;
    }
    match shape.0.checked_mul(shape.1) {
        Some(cells) => cells == len,
        None => false,
    }
}

fn tensor_bytes(name: TensorName, values: &Vec<u32>, shape: (usize, usize)) -> (r: TensorBytes)
    requires
        tensor_storable(values@, shape),
    ensures
        (r.name@, r.shape@, r.data@) == (name.spec_name(), seq![shape.0, shape.1], le_bytes_of(values@)),
        r.name@.len() == 2,
        r.shape@.len() == 2,
        r.shape@[0] < MAX_STORED_DIM,
        r.shape@[1] < MAX_STORED_DIM,
        r.data@.len() == 4 * shape.0 * shape.1,
        r.data@.len() < 4 * MAX_STORED_DIM,
{
    let s = vec![shape.0, shape.1];
    assert(s@ =~= seq![shape.0, shape.1]);
    assert(4 * values@.len() == 4 * shape.0 * shape.1) by (nonlinear_arith)
        requires
            values@.len() == shape.0 * shape.1,
    ;
    TensorBytes { name: name.as_str(), shape: s, data: words_to_le_bytes(values.as_slice()) }
}

/// Encodes the parameters as a tensor file: the four tensors w1, b1, w2 and b2, each
/// with its shape and its values as little-endian 32-bit floats, row-major. Nothing
/// is encoded when a value is NaN or infinite, or when a tensor's value count
/// disagrees with its declared shape (or it, or a dimension, reaches
/// `MAX_STORED_DIM`). The file reads back as exactly the bundle.
pub fn save_safetensors(model: &SerializableModel) -> (r: Result<Vec<u8>, ModelError>)
    ensures
        non_finite_report(model@).len() > 0 ==> (r matches Err(e) && e matches ModelError::NonFiniteParameters(list) && is_diagnostic_of(list@, model@)),
        non_finite_report(model@).len() == 0 && !bundle_storable(model@) ==> (r matches Err(e) && e matches ModelError::ShapeMismatch(n) && n == first_unstorable(model@)),
        non_finite_report(model@).len() == 0 && bundle_storable(model@) ==> (r matches Ok(b) && b@ == safetensors_f32_file(file_tensors(model@)) && file_holds(b@, model@)),
{
    model.check_finite()?;
    if !storable(&model.w1, model.w1_shape) {
        return Err(ModelError::ShapeMismatch(TensorName::W1));
    }
    if !storable(&model.b1, model.b1_shape) {
        return Err(ModelError::ShapeMismatch(TensorName::B1));
    }
    if !storable(&model.w2, model.w2_shape) {
        return Err(ModelError::ShapeMismatch(TensorName::W2));
    }
    if !storable(&model.b2, model.b2_shape) {
        return Err(ModelError::ShapeMismatch(TensorName::B2));
    }
    let mut tensors: Vec<TensorBytes> = Vec::with_capacity(4);
    tensors.push(tensor_bytes(TensorName::W1, &model.w1, model.w1_shape));
    tensors.push(tensor_bytes(TensorName::B1, &model.b1, model.b1_shape));
    tensors.push(tensor_bytes(TensorName::W2, &model.w2, model.w2_shape));
    tensors.push(tensor_bytes(TensorName::B2, &model.b2, model.b2_shape));
    assert(tensors_view(tensors@) =~= file_tensors(model@));
    proof {
        reveal_strlit("w1");
        reveal_strlit("b1");
        reveal_strlit("w2");
        reveal_strlit("b2");
        assert(TensorName::W1.spec_name() != TensorName::B1.spec_name());
        assert(TensorName::W1.spec_name()[0] != TensorName::W2.spec_name()[0] || TensorName::W1.spec_name()[1] != TensorName::W2.spec_name()[1]);
    }
    let r = serialize_f32(&tensors);
    match r {
        Ok(bytes) => {
            assert(tensors@[0].name@ == TensorName::W1.spec_name());
            assert(tensors@[1].name@ == TensorName::B1.spec_name());
            assert(tensors@[2].name@ == TensorName::W2.spec_name());
            assert(tensors@[3].name@ == TensorName::B2.spec_name());
            Ok(bytes)
        },
        Err(_) => Err(ModelError::InvalidFormat),
    }
}

/// Reading back a tensor stored as 32-bit floats with its two-dimensional shape gives
/// exactly its values and shape.
pub proof fn lemma_tensor_round_trip(name: TensorName, values: Seq<u32>, shape: (usize, usize))
    requires
        values.len() == shape.0 * shape.1,
    ensures
        decoded(name, true, seq![shape.0, shape.1], le_bytes_of(values)) == Ok::<(Seq<u32>, (usize, usize)), ModelError>((values, shape)),
{
    crate::float_bits::lemma_le_round_trip(values);
    let s = seq![shape.0, shape.1];
    assert(s[0] == shape.0 && s[1] == shape.1 && s.len() == 2);
    assert(le_bytes_of(values).len() == 4 * s[0] * s[1]) by (nonlinear_arith)
        requires
            le_bytes_of(values).len() == 4 * values.len(),
            values.len() == shape.0 * shape.1,
            s[0] == shape.0,
            s[1] == shape.1,
    ;
}

/// A file that holds each tensor of a bundle as `save_safetensors` writes it loads
/// as exactly that bundle, bit for bit: saving then loading is lossless.
pub proof fn lemma_saved_file_loads(file: Seq<u8>, b: BundleValue)
    requires
        file_holds(file, b),
        bundle_lengths_agree(b),
    ensures
        loaded(file) == Ok::<BundleValue, ModelError>(b),
{
    lemma_tensor_round_trip(TensorName::W1, b.w1, b.w1_shape);
    lemma_tensor_round_trip(TensorName::B1, b.b1, b.b1_shape);
    lemma_tensor_round_trip(TensorName::W2, b.w2, b.w2_shape);
    lemma_tensor_round_trip(TensorName::B2, b.b2, b.b2_shape);
}

} // verus!

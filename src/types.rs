//! Type descriptors of graph values and their rendering as short strings
//! such as `f32[batch,128]` or `sequence<map<string,i64>>`.
use vstd::prelude::*;
use vstd::string::StringExecFns;

verus! {

/// Element kinds of tensors, by their numeric codes in the graph format.
#[derive(Clone, Copy, Debug, PartialEq, Eq)]
pub enum DataType {
    Undefined,
    Float,
    Uint8,
    Int8,
    Uint16,
    Int16,
    Int32,
    Int64,
    Str,
    Bool,
    Float16,
    Double,
    Uint32,
    Uint64,
    Complex64,
    Complex128,
    Bfloat16,
    Float8e4m3fn,
    Float8e4m3fnuz,
    Float8e5m2,
    Float8e5m2fnuz,
}

/// The element kind with each numeric code.
pub open spec fn data_type_of(code: int) -> Option<DataType> {
    if code == 0 {
        Some(DataType::Undefined)
    } else if code == 1 {
        Some(DataType::Float)
    } else if code == 2 {
        Some(DataType::Uint8)
    } else if code == 3 {
        Some(DataType::Int8)
    } else if code == 4 {
        Some(DataType::Uint16)
    } else if code == 5 {
        Some(DataType::Int16)
    } else if code == 6 {
        Some(DataType::Int32)
    } else if code == 7 {
        Some(DataType::Int64)
    } else if code == 8 {
        Some(DataType::Str)
    } else if code == 9 {
        Some(DataType::Bool)
    } else if code == 10 {
        Some(DataType::Float16)
    } else if code == 11 {
        Some(DataType::Double)
    } else if code == 12 {
        Some(DataType::Uint32)
    } else if code == 13 {
        Some(DataType::Uint64)
    } else if code == 14 {
        Some(DataType::Complex64)
    } else if code == 15 {
        Some(DataType::Complex128)
    } else if code == 16 {
        Some(DataType::Bfloat16)
    } else if code == 17 {
        Some(DataType::Float8e4m3fn)
    } else if code == 18 {
        Some(DataType::Float8e4m3fnuz)
    } else if code == 19 {
        Some(DataType::Float8e5m2)
    } else if code == 20 {
        Some(DataType::Float8e5m2fnuz)
    } else {
        None
    }
}

/// The short keyword each element kind renders as.
pub open spec fn data_type_keyword(d: DataType) -> Seq<char> {
    match d {
        DataType::Undefined => "undefined"@,
        DataType::Float => "f32"@,
        DataType::Uint8 => "u8"@,
        DataType::Int8 => "i8"@,
        DataType::Uint16 => "u16"@,
        DataType::Int16 => "i16"@,
        DataType::Int32 => "i32"@,
        DataType::Int64 => "i64"@,
        DataType::Str => "string"@,
        DataType::Bool => "bool"@,
        DataType::Float16 => "f16"@,
        DataType::Double => "f64"@,
        DataType::Uint32 => "u32"@,
        DataType::Uint64 => "u64"@,
        DataType::Complex64 => "complex64"@,
        DataType::Complex128 => "complex128"@,
        DataType::Bfloat16 => "bfloat16"@,
        DataType::Float8e4m3fn => "f8e4m3fn"@,
        DataType::Float8e4m3fnuz => "f8e4m3fnuz"@,
        DataType::Float8e5m2 => "f8e5m2"@,
        DataType::Float8e5m2fnuz => "f8e5m2fnuz"@,
    }
}

impl DataType {
    /// The element kind with numeric code `v`, if there is one.
    pub fn from_i32(v: i32) -> (r: Option<DataType>)
        ensures
            r == data_type_of(v as int),
    {
        match v {
            0 => Some(DataType::Undefined),
            1 => Some(DataType::Float),
            2 => Some(DataType::Uint8),
            3 => Some(DataType::Int8),
            4 => Some(DataType::Uint16),
            5 => Some(DataType::Int16),
            6 => Some(DataType::Int32),
            7 => Some(DataType::Int64),
            8 => Some(DataType::Str),
            9 => Some(DataType::Bool),
            10 => Some(DataType::Float16),
            11 => Some(DataType::Double),
            12 => Some(DataType::Uint32),
            13 => Some(DataType::Uint64),
            14 => Some(DataType::Complex64),
            15 => Some(DataType::Complex128),
            16 => Some(DataType::Bfloat16),
            17 => Some(DataType::Float8e4m3fn),
            18 => Some(DataType::Float8e4m3fnuz),
            19 => Some(DataType::Float8e5m2),
            20 => Some(DataType::Float8e5m2fnuz),
            _ => None,
        }
    }

    pub fn keyword(&self) -> (r: &'static str)
        ensures
            r@ == data_type_keyword(*self),
    {
        match self {
            DataType::Undefined => "undefined",
            DataType::Float => "f32",
            DataType::Uint8 => "u8",
            DataType::Int8 => "i8",
            DataType::Uint16 => "u16",
            DataType::Int16 => "i16",
            DataType::Int32 => "i32",
            DataType::Int64 => "i64",
            DataType::Str => "string",
            DataType::Bool => "bool",
            DataType::Float16 => "f16",
            DataType::Double => "f64",
            DataType::Uint32 => "u32",
            DataType::Uint64 => "u64",
            DataType::Complex64 => "complex64",
            DataType::Complex128 => "complex128",
            DataType::Bfloat16 => "bfloat16",
            DataType::Float8e4m3fn => "f8e4m3fn",
            DataType::Float8e4m3fnuz => "f8e4m3fnuz",
            DataType::Float8e5m2 => "f8e5m2",
            DataType::Float8e5m2fnuz => "f8e5m2fnuz",
        }
    }
}

/// One dimension of a tensor shape: a literal size, a symbolic name, or
/// unknown when `value` is `None`.
pub struct Dimension {
    pub value: Option<DimensionValue>,
}

pub enum DimensionValue {
    DimValue(i64),
    DimParam(String),
}

pub struct TensorType {
    /// Numeric code of the element kind (see `DataType`).
    pub elem_type: i32,
    pub shape: Option<Vec<Dimension>>,
}

/// A possibly nested type descriptor.
pub struct TypeProto {
    pub value: Option<TypeValue>,
}

pub enum TypeValue {
    TensorType(TensorType),
    SequenceType { elem_type: Option<Box<TypeProto>> },
    MapType { key_type: i32, value_type: Option<Box<TypeProto>> },
    OptionalType { elem_type: Option<Box<TypeProto>> },
    SparseTensorType(TensorType),
}

/// Why a descriptor cannot be rendered.
#[derive(Clone, Copy, Debug, PartialEq, Eq)]
pub enum TypeError {
    /// The descriptor names no variant.
    MissingValue,
    /// An element or key kind whose code is not a known `DataType`.
    UnknownDataType(i32),
    /// Sparse tensors are not supported.
    SparseTensor,
}

pub open spec fn digit_chars(d: int) -> Seq<char> {
    if d == 0 { "0"@ } else if d == 1 { "1"@ } else if d == 2 { "2"@ } else if d == 3 { "3"@ }
    else if d == 4 { "4"@ } else if d == 5 { "5"@ } else if d == 6 { "6"@ } else if d == 7 { "7"@ }
    else if d == 8 { "8"@ } else { "9"@ }
}

/// Decimal digits of a natural number, without leading zeros.
pub open spec fn nat_decimal(n: nat) -> Seq<char>
    decreases n,
{
    if n < 10 {
        digit_chars(n as int)
    } else {
        nat_decimal(n / 10) + digit_chars((n % 10) as int)
    }
}

/// Decimal notation of an integer, with a leading minus sign when negative.
pub open spec fn int_decimal(n: int) -> Seq<char> {
    if n < 0 { "-"@ + nat_decimal((-n) as nat) } else { nat_decimal(n as nat) }
}

pub open spec fn dimension_chars(d: Dimension) -> Seq<char> {
    match d.value {
        Some(DimensionValue::DimValue(v)) => int_decimal(v as int),
        Some(DimensionValue::DimParam(name)) => name@,
        None => "?"@,
    }
}

/// The dimensions rendered one by one and joined by commas.
pub open spec fn dims_chars(ds: Seq<Dimension>) -> Seq<char>
    decreases ds.len(),
{
    if ds.len() == 0 {
        Seq::empty()
    } else if ds.len() == 1 {
        dimension_chars(ds[0])
    } else {
        dims_chars(ds.drop_last()) + ","@ + dimension_chars(ds.last())
    }
}

/// The bracketed dimension list of a shape; empty for rank 0 or no shape.
pub open spec fn shape_chars(shape: Option<Vec<Dimension>>) -> Seq<char> {
    match shape {
        Some(ds) => if ds@.len() > 0 { "["@ + dims_chars(ds@) + "]"@ } else { Seq::empty() },
        None => Seq::empty(),
    }
}

pub open spec fn keyword_of_code(code: i32) -> Result<Seq<char>, TypeError> {
    match data_type_of(code as int) {
        Some(d) => Ok(data_type_keyword(d)),
        None => Err(TypeError::UnknownDataType(code)),
    }
}

/// What a nested element renders as: `??` when it is absent.
pub open spec fn inner_chars(t: Option<Box<TypeProto>>) -> Result<Seq<char>, TypeError>
    decreases t,
{
    match t {
        None => Ok("??"@),
        Some(b) => type_chars(*b),
    }
}

/// The rendering of a type descriptor.
pub open spec fn type_chars(t: TypeProto) -> Result<Seq<char>, TypeError>
    decreases t,
{
    match t.value {
        None => Err(TypeError::MissingValue),
        Some(TypeValue::TensorType(tt)) => match keyword_of_code(tt.elem_type) {
            Ok(k) => Ok(k + shape_chars(tt.shape)),
            Err(e) => Err(e),
        },
        Some(TypeValue::SequenceType { elem_type }) => match inner_chars(elem_type) {
            Ok(s) => Ok("sequence<"@ + s + ">"@),
            Err(e) => Err(e),
        },
        Some(TypeValue::MapType { key_type, value_type }) => match keyword_of_code(key_type) {
            Ok(k) => match inner_chars(value_type) {
                Ok(s) => Ok("map<"@ + k + ","@ + s + ">"@),
                Err(e) => Err(e),
            },
            Err(e) => Err(e),
        },
        Some(TypeValue::OptionalType { elem_type }) => match inner_chars(elem_type) {
            Ok(s) => Ok("optional<"@ + s + ">"@),
            Err(e) => Err(e),
        },
        Some(TypeValue::SparseTensorType(_)) => Err(TypeError::SparseTensor),
    }
}

fn digit_str(d: u64) -> (r: &'static str)
    requires
        d < 10,
    ensures
        r@ == digit_chars(d as int),
{
    if d == 0 { "0" } else if d == 1 { "1" } else if d == 2 { "2" } else if d == 3 { "3" }
    else if d == 4 { "4" } else if d == 5 { "5" } else if d == 6 { "6" } else if d == 7 { "7" }
    else if d == 8 { "8" } else { "9" }
}

fn append_nat_decimal(out: &mut String, n: u64)
    ensures
        final(out)@ == old(out)@ + nat_decimal(n as nat),
    decreases n,
{
    if n >= 10 {
        append_nat_decimal(out, n / 10);
    }
    out.append(digit_str(n % 10));
    assert(final(out)@ =~= old(out)@ + nat_decimal(n as nat));
}

/// Appends the decimal notation of `n`.
pub fn append_decimal(out: &mut String, n: i64)
    ensures
        final(out)@ == old(out)@ + int_decimal(n as int),
{
    if n < 0 {
        out.append("-");
        let m: u64 = (0i128 - n as i128) as u64;
        append_nat_decimal(out, m);
        assert(final(out)@ =~= old(out)@ + int_decimal(n as int));
    } else {
        append_nat_decimal(out, n as u64);
    }
}

fn append_dimension(out: &mut String, d: &Dimension)
    ensures
        final(out)@ == old(out)@ + dimension_chars(*d),
{
    match &d.value {
        Some(DimensionValue::DimValue(v)) => append_decimal(out, *v),
        Some(DimensionValue::DimParam(name)) => out.append(name.as_str()),
        None => out.append("?"),
    }
}

fn append_shape(out: &mut String, shape: &Option<Vec<Dimension>>)
    ensures
        final(out)@ == old(out)@ + shape_chars(*shape),
{
    if let Some(ds) = shape {
        if ds.len() > 0 {
            out.append("[");
            let ghost start = out@;
            let mut i: usize = 0;
            while i < ds.len()
                invariant
                    i <= ds@.len(),
                    out@ == start + dims_chars(ds@.take(i as int)),
                decreases ds@.len() - i,
            {
                let ghost before = out@;
                if i > 0 {
                    out.append(",");
                }
                append_dimension(out, &ds[i]);
                proof {
                    let t = ds@.take(i as int + 1);
                    assert(t.drop_last() =~= ds@.take(i as int));
                    assert(t.last() == ds@[i as int]);
                    if i == 0 {
                        assert(ds@.take(0) =~= Seq::<Dimension>::empty());
                    }
                    assert(out@ =~= start + dims_chars(t));
                }
                i = i + 1;
            }
            assert(ds@.take(ds@.len() as int) =~= ds@);
            out.append("]");
            assert(final(out)@ =~= old(out)@ + shape_chars(*shape));
        }
    }
}

fn append_keyword(out: &mut String, code: i32) -> (r: Result<(), TypeError>)
    ensures
        match keyword_of_code(code) {
            Ok(k) => r is Ok && final(out)@ == old(out)@ + k,
            Err(e) => r == Err::<(), TypeError>(e),
        },
{
    match DataType::from_i32(code) {
        Some(d) => {
            out.append(d.keyword());
            Ok(())
        },
        None => Err(TypeError::UnknownDataType(code)),
    }
}

fn append_inner(out: &mut String, t: &Option<Box<TypeProto>>) -> (r: Result<(), TypeError>)
    ensures
        match inner_chars(*t) {
            Ok(k) => r is Ok && final(out)@ == old(out)@ + k,
            Err(e) => r == Err::<(), TypeError>(e),
        },
    decreases *t,
{
    match t {
        None => {
            out.append("??");
            Ok(())
        },
        Some(b) => append_type(out, b),
    }
}

/// Appends the rendering of `t`, or fails without a guarantee on `out`.
pub fn append_type(out: &mut String, t: &TypeProto) -> (r: Result<(), TypeError>)
    ensures
        match type_chars(*t) {
            Ok(k) => r is Ok && final(out)@ == old(out)@ + k,
            Err(e) => r == Err::<(), TypeError>(e),
        },
    decreases *t,
{
    match &t.value {
        None => Err(TypeError::MissingValue),
        Some(TypeValue::TensorType(tt)) => {
            append_keyword(out, tt.elem_type)?;
            append_shape(out, &tt.shape);
            assert(final(out)@ =~= old(out)@ + type_chars(*t)->Ok_0);
            Ok(())
        },
        Some(TypeValue::SequenceType { elem_type }) => {
            out.append("sequence<");
            append_inner(out, elem_type)?;
            out.append(">");
            assert(final(out)@ =~= old(out)@ + type_chars(*t)->Ok_0);
            Ok(())
        },
        Some(TypeValue::MapType { key_type, value_type }) => {
            out.append("map<");
            append_keyword(out, *key_type)?;
            out.append(",");
            append_inner(out, value_type)?;
            out.append(">");
            assert(final(out)@ =~= old(out)@ + type_chars(*t)->Ok_0);
            Ok(())
        },
        Some(TypeValue::OptionalType { elem_type }) => {
            out.append("optional<");
            append_inner(out, elem_type)?;
            out.append(">");
            assert(final(out)@ =~= old(out)@ + type_chars(*t)->Ok_0);
            Ok(())
        },
        Some(TypeValue::SparseTensorType(_)) => Err(TypeError::SparseTensor),
    }
}

/// Renders a type descriptor.
pub fn render_type(t: &TypeProto) -> (r: Result<String, TypeError>)
    ensures
        match type_chars(*t) {
            Ok(k) => r matches Ok(s) && s@ == k,
            Err(e) => r == Err::<String, TypeError>(e),
        },
{
    let mut out = String::new();
    match append_type(&mut out, t) {
        Ok(()) => {
            assert(out@ =~= type_chars(*t)->Ok_0);
            Ok(out)
        },
        Err(e) => Err(e),
    }
}

/// A borrowed type descriptor, as handed out by `ValueInfo::type_info`.
pub struct TypeInfo<'a>(pub &'a TypeProto);

impl<'a> TypeInfo<'a> {
    /// The descriptor's rendering, e.g. `f32[batch,128]`.
    pub fn render(&self) -> (r: Result<String, TypeError>)
        ensures
            match type_chars(*self.0) {
                Ok(k) => r matches Ok(s) && s@ == k,
                Err(e) => r == Err::<String, TypeError>(e),
            },
    {
        render_type(self.0)
    }
}

/// Rendering is a function of the descriptor alone: equal descriptors render
/// to equal strings, or fail with equal errors.
pub proof fn lemma_render_deterministic(a: TypeProto, b: TypeProto)
    requires
        a == b,
    ensures
        type_chars(a) == type_chars(b),
{
}

} // verus!

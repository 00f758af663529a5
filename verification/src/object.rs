//! Decoding of an object by the layout of its class.
//!
//! An object is stored in a frame: a byte count, the version of its class
//! (two bytes), and its fields in the order of the layout that the registry
//! holds for the class in that version. A plain field is stored as its
//! value, or as one value behind the other where it holds several; a field
//! that embeds a base class or an object is stored as that object. The
//! decoded values are returned in the order in which they are stored, those
//! of an embedded object in the place of the field that embeds it.

use vstd::prelude::*;
use vstd::slice::slice_subrange;
use crate::codec::{be_f32_at, FloatBits};
use crate::error::Error;
use crate::file_item::{Context, ContextView, ObjectParser};
use crate::number::{
    be_i16, be_i16_at, be_i32, be_i32_at, be_i64, be_i64_at, be_i8, be_i8_at, be_u16, be_u16_at,
    be_u32, be_u32_at, be_u64, be_u64_at, be_u8, be_u8_at,
};
use crate::parsers::{bytes_eq, frame, frame_at, string, string_at};
use crate::streamer::{find_info, lemma_find_info, FieldType, Registry, StreamerField,
    StreamerFieldView, StreamerInfoView};
use crate::track::be_f32;
use crate::tree::{ElementCount, ElementCountView};

verus! {

/// A 64-bit IEEE 754 number, held as its bit pattern.
#[derive(Debug, Clone, Copy, PartialEq, Eq, Structural)]
pub struct DoubleBits {
    /// Sign, exponent and fraction, as `f64::to_bits` gives them.
    pub bits: u64,
}

/// One decoded plain value.
#[derive(Debug, PartialEq, Eq)]
pub enum Value {
    Int(i64),
    UInt(u64),
    Float(FloatBits),
    Double(DoubleBits),
    Bool(bool),
    Text(Vec<u8>),
}

/// A decoded value as a mathematical value.
pub enum ValueView {
    Int(i64),
    UInt(u64),
    Float(FloatBits),
    Double(DoubleBits),
    Bool(bool),
    Text(Seq<u8>),
}

impl DeepView for Value {
    type V = ValueView;

    open spec fn deep_view(&self) -> ValueView {
        match self {
            Value::Int(v) => ValueView::Int(*v),
            Value::UInt(v) => ValueView::UInt(*v),
            Value::Float(v) => ValueView::Float(*v),
            Value::Double(v) => ValueView::Double(*v),
            Value::Bool(v) => ValueView::Bool(*v),
            Value::Text(v) => ValueView::Text(v@),
        }
    }
}

/// How deep objects may be embedded in one another.
pub const MAX_DEPTH: u32 = 64;

/// Whether a field of type `t` embeds an object.
pub open spec fn embeds(t: FieldType) -> bool {
    t is Base || t is Object
}

/// The plain value of type `t` at `at`. There is none for a type that embeds
/// an object.
pub open spec fn plain_at(t: FieldType, b: Seq<u8>, at: int) -> Option<(ValueView, int)> {
    match t {
        FieldType::Char => match be_i8_at(b, at) {
            Some((v, next)) => Some((ValueView::Int(v as i64), next)),
            None => None,
        },
        FieldType::Short => match be_i16_at(b, at) {
            Some((v, next)) => Some((ValueView::Int(v as i64), next)),
            None => None,
        },
        FieldType::Int | FieldType::Counter => match be_i32_at(b, at) {
            Some((v, next)) => Some((ValueView::Int(v as i64), next)),
            None => None,
        },
        FieldType::Long => match be_i64_at(b, at) {
            Some((v, next)) => Some((ValueView::Int(v), next)),
            None => None,
        },
        FieldType::UChar => match be_u8_at(b, at) {
            Some((v, next)) => Some((ValueView::UInt(v as u64), next)),
            None => None,
        },
        FieldType::UShort => match be_u16_at(b, at) {
            Some((v, next)) => Some((ValueView::UInt(v as u64), next)),
            None => None,
        },
        FieldType::UInt => match be_u32_at(b, at) {
            Some((v, next)) => Some((ValueView::UInt(v as u64), next)),
            None => None,
        },
        FieldType::ULong => match be_u64_at(b, at) {
            Some((v, next)) => Some((ValueView::UInt(v), next)),
            None => None,
        },
        FieldType::Float => match be_f32_at(b, at) {
            Some((v, next)) => Some((ValueView::Float(v), next)),
            None => None,
        },
        FieldType::Double => match be_u64_at(b, at) {
            Some((bits, next)) => Some((ValueView::Double(DoubleBits { bits }), next)),
            None => None,
        },
        FieldType::Bool => match be_u8_at(b, at) {
            Some((v, next)) => Some((ValueView::Bool(v != 0), next)),
            None => None,
        },
        FieldType::Text => match string_at(b, at) {
            Some((v, next)) => Some((ValueView::Text(v), next)),
            None => None,
        },
        FieldType::Base | FieldType::Object => None,
    }
}

/// The number that a value can give as the length of an array: the value of
/// an integer that is not negative and fits in 32 bits.
pub open spec fn counter_value(v: ValueView) -> Option<u32> {
    match v {
        ValueView::Int(n) => if 0 <= n <= u32::MAX {
            Some(n as u32)
        } else {
            None
        },
        ValueView::UInt(n) => if n <= u32::MAX {
            Some(n as u32)
        } else {
            None
        },
        _ => None,
    }
}

/// What a decoded field can give as the length of a later array: its value,
/// where it holds exactly one.
pub open spec fn counter_of(count: ElementCountView, values: Seq<ValueView>) -> Option<u32> {
    if count == ElementCountView::Fixed(1) && values.len() == 1 {
        counter_value(values[0])
    } else {
        None
    }
}

/// The number that the first field called `name`, of those decoded so far
/// from `from` on, gives as a length.
pub open spec fn find_counter(
    fields: Seq<StreamerFieldView>,
    seen: Seq<Option<u32>>,
    name: Seq<u8>,
    from: int,
) -> Option<u32>
    decreases seen.len() - from,
{
    if from < 0 || from >= seen.len() || from >= fields.len() {
        None
    } else if fields[from].name == name && seen[from] is Some {
        seen[from]
    } else {
        find_counter(fields, seen, name, from + 1)
    }
}

/// The number of values of field `k`: the fixed number of its element count,
/// or the value of the earlier field that its element count names.
pub open spec fn field_len(fields: Seq<StreamerFieldView>, seen: Seq<Option<u32>>, k: int) -> Option<
    u32,
> {
    match fields[k].count {
        ElementCountView::Fixed(n) => Some(n),
        ElementCountView::VariableByCounter(name) => find_counter(fields, seen, name, 0),
    }
}

/// `acc` before the values of the outcome `rest`, where that is a success.
pub open spec fn chain(acc: Seq<ValueView>, rest: Result<(Seq<ValueView>, int), Error>) -> Result<
    (Seq<ValueView>, int),
    Error,
> {
    match rest {
        Ok((values, end)) => Ok((acc + values, end)),
        Err(e) => Err(e),
    }
}

/// The values of the object of class `class` that fills `inner`: behind the
/// version of the class (two bytes) stand its fields. An object without a
/// version is a format error; one whose class the registry does not hold in
/// the version that the object names is an unknown-class error; else the
/// outcome is that of its fields. `fuel` bounds how deep objects may be
/// embedded.
pub open spec fn object_in(
    reg: Seq<StreamerInfoView>,
    class: Seq<u8>,
    inner: Seq<u8>,
    fuel: nat,
) -> Result<Seq<ValueView>, Error>
    decreases fuel, 2nat, 0nat,
{
    match be_u16_at(inner, 0) {
        Some((version, p)) => match find_info(reg, class, version, 0) {
            Some(i) => match fields_at(reg, reg[i].fields, 0, Seq::empty(), inner, p, fuel) {
                Ok((values, _)) => Ok(values),
                Err(e) => Err(e),
            },
            None => Err(Error::UnknownClass),
        },
        None => Err(Error::Format),
    }
}

/// The values of the object of class `class` in the frame at `at`, with the
/// position behind the frame. An object without a frame is a format error;
/// else the outcome is that of the object that fills the frame.
pub open spec fn object_at(
    reg: Seq<StreamerInfoView>,
    class: Seq<u8>,
    b: Seq<u8>,
    at: int,
    fuel: nat,
) -> Result<(Seq<ValueView>, int), Error>
    decreases fuel, 3nat, 0nat,
{
    match frame_at(b, at) {
        Some((start, end)) => match object_in(reg, class, b.subrange(start, end), fuel) {
            Ok(values) => Ok((values, end)),
            Err(e) => Err(e),
        },
        None => Err(Error::Format),
    }
}

/// The values of the fields from `k` on, stored from `at` on. `seen` holds,
/// for each field before `k`, the number it can give as a length. A field
/// whose length no earlier field gives is a format error.
pub open spec fn fields_at(
    reg: Seq<StreamerInfoView>,
    fields: Seq<StreamerFieldView>,
    k: int,
    seen: Seq<Option<u32>>,
    b: Seq<u8>,
    at: int,
    fuel: nat,
) -> Result<(Seq<ValueView>, int), Error>
    decreases fuel, 1nat, fields.len() - k,
{
    if k < 0 || k >= fields.len() {
        Ok((Seq::empty(), at))
    } else {
        match field_len(fields, seen, k) {
            Some(n) => match elements_at(reg, fields[k], n as nat, b, at, fuel) {
                Ok((values, next)) => chain(
                    values,
                    fields_at(
                        reg,
                        fields,
                        k + 1,
                        seen.push(counter_of(fields[k].count, values)),
                        b,
                        next,
                        fuel,
                    ),
                ),
                Err(e) => Err(e),
            },
            None => Err(Error::Format),
        }
    }
}

/// The values of `n` elements of a field, stored from `at` on: plain values
/// by the type of the field, embedded objects by the layout of their class.
/// An object embedded deeper than `fuel` allows is a format error.
pub open spec fn elements_at(
    reg: Seq<StreamerInfoView>,
    field: StreamerFieldView,
    n: nat,
    b: Seq<u8>,
    at: int,
    fuel: nat,
) -> Result<(Seq<ValueView>, int), Error>
    decreases fuel, 0nat, n,
{
    if n == 0 {
        Ok((Seq::empty(), at))
    } else {
        let first = if embeds(field.type_tag) {
            if fuel == 0 {
                Err(Error::Format)
            } else {
                object_at(reg, field.class_name, b, at, (fuel - 1) as nat)
            }
        } else {
            match plain_at(field.type_tag, b, at) {
                Some((v, next)) => Ok((seq![v], next)),
                None => Err(Error::Format),
            }
        };
        match first {
            Ok((values, next)) => chain(
                values,
                elements_at(reg, field, (n - 1) as nat, b, next, fuel),
            ),
            Err(e) => Err(e),
        }
    }
}

/// Law of the registry: an object that names a version of its class for
/// which the registry holds no layout is never decoded by another layout; the
/// outcome is an unknown-class error.
pub proof fn law_unknown_class_in(
    reg: Seq<StreamerInfoView>,
    class: Seq<u8>,
    inner: Seq<u8>,
    fuel: nat,
)
    requires
        be_u16_at(inner, 0) matches Some((version, _)) && forall|i: int|
            0 <= i < reg.len() ==> !(#[trigger] reg[i].class_name == class && reg[i].version
                == version),
    ensures
        object_in(reg, class, inner, fuel) == Err::<Seq<ValueView>, Error>(Error::UnknownClass),
{
    let version = be_u16_at(inner, 0).unwrap().0;
    lemma_find_info(reg, class, version, 0);
}

/// Law of the registry, for an object in its frame: the outcome is an
/// unknown-class error where the registry holds no layout for the version
/// that the object names.
pub proof fn law_unknown_class(
    reg: Seq<StreamerInfoView>,
    class: Seq<u8>,
    b: Seq<u8>,
    at: int,
    fuel: nat,
)
    requires
        frame_at(b, at) matches Some((start, end)) && be_u16_at(b.subrange(start, end), 0) matches Some(
            (version, _),
        ) && forall|i: int|
            0 <= i < reg.len() ==> !(#[trigger] reg[i].class_name == class && reg[i].version
                == version),
    ensures
        object_at(reg, class, b, at, fuel) == Err::<(Seq<ValueView>, int), Error>(
            Error::UnknownClass,
        ),
{
    let (start, end) = frame_at(b, at).unwrap();
    law_unknown_class_in(reg, class, b.subrange(start, end), fuel);
}

/// Whether the outcome `r` of a decoding is the specified outcome `s`.
pub open spec fn same_outcome(
    r: Result<(Vec<Value>, usize), Error>,
    s: Result<(Seq<ValueView>, int), Error>,
) -> bool {
    match r {
        Ok((values, next)) => s == Ok::<_, Error>((values.deep_view(), next as int)),
        Err(e) => s == Err::<(Seq<ValueView>, int), Error>(e),
    }
}

/// Reads the plain value of type `t` at `at`.
///
/// Fails with a format error where the bytes end early, and for a type that
/// embeds an object.
pub fn plain(t: FieldType, input: &[u8], at: usize) -> (r: Result<(Value, usize), Error>)
    ensures
        match r {
            Ok((v, next)) => plain_at(t, input@, at as int) == Some((v.deep_view(), next as int)),
            Err(e) => e == Error::Format && plain_at(t, input@, at as int) is None,
        },
{
    match t {
        FieldType::Char => {
            let (v, next) = be_i8(input, at)?;
            Ok((Value::Int(v as i64), next))
        },
        FieldType::Short => {
            let (v, next) = be_i16(input, at)?;
            Ok((Value::Int(v as i64), next))
        },
        FieldType::Int | FieldType::Counter => {
            let (v, next) = be_i32(input, at)?;
            Ok((Value::Int(v as i64), next))
        },
        FieldType::Long => {
            let (v, next) = be_i64(input, at)?;
            Ok((Value::Int(v), next))
        },
        FieldType::UChar => {
            let (v, next) = be_u8(input, at)?;
            Ok((Value::UInt(v as u64), next))
        },
        FieldType::UShort => {
            let (v, next) = be_u16(input, at)?;
            Ok((Value::UInt(v as u64), next))
        },
        FieldType::UInt => {
            let (v, next) = be_u32(input, at)?;
            Ok((Value::UInt(v as u64), next))
        },
        FieldType::ULong => {
            let (v, next) = be_u64(input, at)?;
            Ok((Value::UInt(v), next))
        },
        FieldType::Float => {
            let (v, next) = be_f32(input, at)?;
            Ok((Value::Float(v), next))
        },
        FieldType::Double => {
            let (bits, next) = be_u64(input, at)?;
            Ok((Value::Double(DoubleBits { bits }), next))
        },
        FieldType::Bool => {
            let (v, next) = be_u8(input, at)?;
            Ok((Value::Bool(v != 0), next))
        },
        FieldType::Text => {
            let (v, next) = string(input, at)?;
            Ok((Value::Text(v), next))
        },
        FieldType::Base | FieldType::Object => Err(Error::Format),
    }
}

/// The number that a decoded field can give as the length of a later array.
pub fn counter(count: &ElementCount, values: &Vec<Value>) -> (r: Option<u32>)
    ensures
        r == counter_of(count@, values.deep_view()),
{
    let single = match count {
        ElementCount::Fixed(n) => *n == 1,
        ElementCount::VariableByCounter(_) => false,
    };
    if single && values.len() == 1 {
        proof {
            assert(values.deep_view()[0] == values@[0].deep_view());
        }
        match &values[0] {
            Value::Int(n) => {
                if 0 <= *n && *n <= u32::MAX as i64 {
                    Some(*n as u32)
                } else {
                    None
                }
            },
            Value::UInt(n) => {
                if *n <= u32::MAX as u64 {
                    Some(*n as u32)
                } else {
                    None
                }
            },
            _ => None,
        }
    } else {
        None
    }
}

/// The number of values of field `k`, given what the fields before it can
/// give as lengths.
fn length_of(fields: &Vec<StreamerField>, seen: &Vec<Option<u32>>, k: usize) -> (r: Option<u32>)
    requires
        k < fields@.len(),
    ensures
        r == field_len(fields.deep_view(), seen@, k as int),
{
    proof {
        assert(fields.deep_view()[k as int] == fields@[k as int].deep_view());
    }
    match &fields[k].count {
        ElementCount::Fixed(n) => Some(*n),
        ElementCount::VariableByCounter(name) => {
            let mut j: usize = 0;
            while j < seen.len() && j < fields.len()
                invariant
                    fields.deep_view().len() == fields@.len(),
                    field_len(fields.deep_view(), seen@, k as int) == find_counter(
                        fields.deep_view(),
                        seen@,
                        name@,
                        0,
                    ),
                    find_counter(fields.deep_view(), seen@, name@, 0) == find_counter(
                        fields.deep_view(),
                        seen@,
                        name@,
                        j as int,
                    ),
                decreases seen@.len() - j,
            {
                proof {
                    assert(fields.deep_view()[j as int] == fields@[j as int].deep_view());
                }
                if bytes_eq(fields[j].name.as_slice(), name.as_slice()) {
                    match seen[j] {
                        Some(n) => {
                            return Some(n);
                        },
                        None => {},
                    }
                }
                j = j + 1;
            }
            None
        },
    }
}

/// Decodes the object of class `class` that fills `inner`.
pub fn decode_object_in(reg: &Registry, class: &[u8], inner: &[u8], fuel: u32) -> (r: Result<
    Vec<Value>,
    Error,
>)
    ensures
        match r {
            Ok(values) => object_in(reg.deep_view(), class@, inner@, fuel as nat) == Ok::<_, Error>(
                values.deep_view(),
            ),
            Err(e) => object_in(reg.deep_view(), class@, inner@, fuel as nat) == Err::<
                Seq<ValueView>,
                Error,
            >(e),
        },
    decreases fuel, 2nat, 0nat,
{
    let (version, p) = be_u16(inner, 0)?;
    let info = reg.lookup(class, version)?;
    let (values, _) = decode_fields(reg, &info.fields, inner, p, fuel)?;
    Ok(values)
}

/// Decodes the object of class `class` in the frame at `at`.
pub fn decode_object(reg: &Registry, class: &[u8], input: &[u8], at: usize, fuel: u32) -> (r: Result<
    (Vec<Value>, usize),
    Error,
>)
    ensures
        same_outcome(r, object_at(reg.deep_view(), class@, input@, at as int, fuel as nat)),
    decreases fuel, 3nat, 0nat,
{
    let (start, end) = frame(input, at)?;
    let inner = slice_subrange(input, start, end);
    let values = decode_object_in(reg, class, inner, fuel)?;
    Ok((values, end))
}

/// Decodes the fields of a layout, stored from `at` on.
pub fn decode_fields(
    reg: &Registry,
    fields: &Vec<StreamerField>,
    input: &[u8],
    at: usize,
    fuel: u32,
) -> (r: Result<(Vec<Value>, usize), Error>)
    ensures
        same_outcome(
            r,
            fields_at(
                reg.deep_view(),
                fields.deep_view(),
                0,
                Seq::empty(),
                input@,
                at as int,
                fuel as nat,
            ),
        ),
    decreases fuel, 1nat, fields@.len(),
{
    let ghost whole = fields_at(
        reg.deep_view(),
        fields.deep_view(),
        0,
        Seq::empty(),
        input@,
        at as int,
        fuel as nat,
    );
    let mut out: Vec<Value> = Vec::new();
    let mut seen: Vec<Option<u32>> = Vec::new();
    let mut pos: usize = at;
    let mut k: usize = 0;
    proof {
        assert(out.deep_view() =~= Seq::empty());
        if let Ok((s, end)) = whole {
            assert(out.deep_view() + s =~= s);
        }
        assert(seen@ =~= Seq::empty());
    }
    while k < fields.len()
        invariant
            k <= fields@.len(),
            fields.deep_view().len() == fields@.len(),
            seen@.len() == k,
            whole == fields_at(
                reg.deep_view(),
                fields.deep_view(),
                0,
                Seq::empty(),
                input@,
                at as int,
                fuel as nat,
            ),
            whole == chain(
                out.deep_view(),
                fields_at(
                    reg.deep_view(),
                    fields.deep_view(),
                    k as int,
                    seen@,
                    input@,
                    pos as int,
                    fuel as nat,
                ),
            ),
        decreases fields@.len() - k,
    {
        proof {
            assert(fields.deep_view()[k as int] == fields@[k as int].deep_view());
        }
        let n = match length_of(fields, &seen, k) {
            Some(n) => n,
            None => {
                return Err(Error::Format);
            },
        };
        let (mut values, next) = match decode_elements(reg, &fields[k], n, input, pos, fuel) {
            Ok(v) => v,
            Err(e) => {
                return Err(e);
            },
        };
        let recorded = counter(&fields[k].count, &values);
        let ghost before = out.deep_view();
        let ghost piece = values.deep_view();
        let ghost old_seen = seen@;
        proof {
            if let Ok((rest, end)) = fields_at(
                reg.deep_view(),
                fields.deep_view(),
                k + 1,
                old_seen.push(recorded),
                input@,
                next as int,
                fuel as nat,
            ) {
                assert(before + (piece + rest) =~= (before + piece) + rest);
            }
        }
        let ghost old_out = out@;
        let ghost old_values = values@;
        out.append(&mut values);
        seen.push(recorded);
        proof {
            assert(out@ == old_out + old_values);
            assert(out.deep_view() =~= before + piece);
        }
        pos = next;
        k = k + 1;
    }
    proof {
        assert(out.deep_view() + Seq::empty() =~= out.deep_view());
    }
    Ok((out, pos))
}

/// Decodes `n` elements of a field, stored from `at` on.
pub fn decode_elements(
    reg: &Registry,
    field: &StreamerField,
    n: u32,
    input: &[u8],
    at: usize,
    fuel: u32,
) -> (r: Result<(Vec<Value>, usize), Error>)
    ensures
        same_outcome(
            r,
            elements_at(
                reg.deep_view(),
                field.deep_view(),
                n as nat,
                input@,
                at as int,
                fuel as nat,
            ),
        ),
    decreases fuel, 0nat, n,
{
    let ghost whole = elements_at(
        reg.deep_view(),
        field.deep_view(),
        n as nat,
        input@,
        at as int,
        fuel as nat,
    );
    let mut out: Vec<Value> = Vec::new();
    let mut pos: usize = at;
    let mut k: u32 = 0;
    proof {
        assert(out.deep_view() =~= Seq::empty());
        if let Ok((s, end)) = whole {
            assert(out.deep_view() + s =~= s);
        }
    }
    while k < n
        invariant
            k <= n,
            whole == elements_at(
                reg.deep_view(),
                field.deep_view(),
                n as nat,
                input@,
                at as int,
                fuel as nat,
            ),
            whole == chain(
                out.deep_view(),
                elements_at(
                    reg.deep_view(),
                    field.deep_view(),
                    (n - k) as nat,
                    input@,
                    pos as int,
                    fuel as nat,
                ),
            ),
        decreases n - k,
    {
        let embedded = match field.type_tag {
            FieldType::Base | FieldType::Object => true,
            _ => false,
        };
        let (mut values, next) = if embedded {
            if fuel == 0 {
                return Err(Error::Format);
            }
            match decode_object(reg, field.class_name.as_slice(), input, pos, fuel - 1) {
                Ok(v) => v,
                Err(e) => {
                    return Err(e);
                },
            }
        } else {
            match plain(field.type_tag, input, pos) {
                Ok((v, next)) => {
                    let mut one: Vec<Value> = Vec::new();
                    let ghost item = v.deep_view();
                    one.push(v);
                    proof {
                        assert(one.deep_view() =~= seq![item]);
                    }
                    (one, next)
                },
                Err(e) => {
                    return Err(e);
                },
            }
        };
        let ghost before = out.deep_view();
        let ghost piece = values.deep_view();
        proof {
            if let Ok((rest, end)) = elements_at(
                reg.deep_view(),
                field.deep_view(),
                (n - k - 1) as nat,
                input@,
                next as int,
                fuel as nat,
            ) {
                assert(before + (piece + rest) =~= (before + piece) + rest);
            }
        }
        let ghost old_out = out@;
        let ghost old_values = values@;
        out.append(&mut values);
        proof {
            assert(out@ == old_out + old_values);
            assert(out.deep_view() =~= before + piece);
        }
        pos = next;
        k = k + 1;
    }
    proof {
        assert(out.deep_view() + Seq::empty() =~= out.deep_view());
    }
    Ok((out, pos))
}

impl Registry {
    /// Decodes the object of class `class` that is stored in the frame at
    /// `at`, by the layout that the registry holds for the class in the
    /// version that the object names, and returns its values in the order in
    /// which they are stored.
    ///
    /// Fails with an unknown-class error where the registry holds no layout
    /// for the class of the object, or of an object embedded in it, in the
    /// version that the object names. Fails with a format error where a frame
    /// or a value ends early, where the length of an array is given by no
    /// earlier field, and where objects are embedded more than
    /// [`MAX_DEPTH`] deep.
    pub fn decode(&self, class: &[u8], input: &[u8], at: usize) -> (r: Result<
        (Vec<Value>, usize),
        Error,
    >)
        ensures
            same_outcome(r, object_at(self.deep_view(), class@, input@, at as int, MAX_DEPTH as nat)),
    {
        decode_object(self, class, input, at, MAX_DEPTH)
    }
}

/// Parser of the object of a record by the layouts of a registry: the
/// object is of the class `class`, in the version that it names itself.
pub struct LayoutParser<'r> {
    /// The layouts.
    pub registry: &'r Registry,
    /// The class of the object.
    pub class: &'r [u8],
}

impl<'r> ObjectParser for LayoutParser<'r> {
    type Output = Vec<Value>;

    open spec fn parses(
        &self,
        bytes: Seq<u8>,
        context: ContextView,
        out: Result<Vec<Value>, Error>,
    ) -> bool {
        match object_in(self.registry.deep_view(), self.class@, bytes, MAX_DEPTH as nat) {
            Ok(values) => out matches Ok(v) && v.deep_view() == values,
            Err(e) => out matches Err(x) && x == e,
        }
    }

    fn parse(&self, input: &[u8], _context: &Context) -> (r: Result<Vec<Value>, Error>) {
        decode_object_in(self.registry, self.class, input, MAX_DEPTH)
    }
}

} // verus!

//! The schema catalogue as it is stored.
//!
//! The catalogue is itself an object, and is decoded like any other: by
//! layouts. These layouts cannot come from the catalogue; they are built in.
//! A catalogue holds the number of its classes and the classes; a class
//! holds its name, its version, the number of its fields and the fields; a
//! field holds its name, the code of its type, the name of the class that it
//! embeds, the fixed number of its values, and the name of the field that
//! counts its values, which is empty where the number is fixed.

use vstd::prelude::*;
use vstd::slice::slice_to_vec;
use vstd::string::StringSliceAdditionalSpecFns;
use crate::error::Error;
use crate::file_item::{Context, ContextView, ObjectParser};
use crate::object::{decode_object, decode_object_in, object_at, object_in, Value, ValueView,
    MAX_DEPTH};
use crate::streamer::{field_type, type_of_code, FieldType, Registry, StreamerField,
    StreamerFieldView, StreamerInfo, StreamerInfoView};
use crate::tree::{ElementCount, ElementCountView};

verus! {

/// A built-in field that holds one plain value.
pub open spec fn plain_field(name: Seq<u8>, type_tag: FieldType) -> StreamerFieldView {
    StreamerFieldView { name, type_tag, class_name: Seq::empty(), count: ElementCountView::Fixed(1) }
}

/// A built-in field that holds as many objects of a class as an earlier
/// field says.
pub open spec fn counted_objects(name: Seq<u8>, class_name: Seq<u8>, counter: Seq<u8>) -> StreamerFieldView {
    StreamerFieldView {
        name,
        type_tag: FieldType::Object,
        class_name,
        count: ElementCountView::VariableByCounter(counter),
    }
}

/// The built-in layouts by which a catalogue is decoded.
pub open spec fn bootstrap_layouts() -> Seq<StreamerInfoView> {
    seq![
        StreamerInfoView {
            class_name: "Catalogue".spec_bytes(),
            version: 1,
            fields: seq![
                plain_field("n".spec_bytes(), FieldType::Counter),
                counted_objects("classes".spec_bytes(), "Class".spec_bytes(), "n".spec_bytes()),
            ],
        },
        StreamerInfoView {
            class_name: "Class".spec_bytes(),
            version: 1,
            fields: seq![
                plain_field("name".spec_bytes(), FieldType::Text),
                plain_field("version".spec_bytes(), FieldType::UShort),
                plain_field("n".spec_bytes(), FieldType::Counter),
                counted_objects("fields".spec_bytes(), "Field".spec_bytes(), "n".spec_bytes()),
            ],
        },
        StreamerInfoView {
            class_name: "Field".spec_bytes(),
            version: 1,
            fields: seq![
                plain_field("name".spec_bytes(), FieldType::Text),
                plain_field("type".spec_bytes(), FieldType::Int),
                plain_field("class".spec_bytes(), FieldType::Text),
                plain_field("count".spec_bytes(), FieldType::UInt),
                plain_field("counter".spec_bytes(), FieldType::Text),
            ],
        },
    ]
}

/// The text at place `at` of decoded values.
pub open spec fn text_in(values: Seq<ValueView>, at: int) -> Option<Seq<u8>> {
    if 0 <= at < values.len() {
        match values[at] {
            ValueView::Text(t) => Some(t),
            _ => None,
        }
    } else {
        None
    }
}

/// The signed integer at place `at` of decoded values.
pub open spec fn int_in(values: Seq<ValueView>, at: int) -> Option<i64> {
    if 0 <= at < values.len() {
        match values[at] {
            ValueView::Int(n) => Some(n),
            _ => None,
        }
    } else {
        None
    }
}

/// The unsigned integer at place `at` of decoded values.
pub open spec fn uint_in(values: Seq<ValueView>, at: int) -> Option<u64> {
    if 0 <= at < values.len() {
        match values[at] {
            ValueView::UInt(n) => Some(n),
            _ => None,
        }
    } else {
        None
    }
}

/// The element count that a fixed number and the name of a counter stand
/// for: that of the counter where it has a name, else the fixed number.
pub open spec fn count_of(fixed: u32, counter: Seq<u8>) -> ElementCountView {
    if counter.len() == 0 {
        ElementCountView::Fixed(fixed)
    } else {
        ElementCountView::VariableByCounter(counter)
    }
}

/// The field that the five values from place `at` on describe.
pub open spec fn field_from(values: Seq<ValueView>, at: int) -> Option<(StreamerFieldView, int)> {
    match text_in(values, at) {
        Some(name) => match int_in(values, at + 1) {
            Some(code) => match text_in(values, at + 2) {
                Some(class_name) => match uint_in(values, at + 3) {
                    Some(fixed) => match text_in(values, at + 4) {
                        Some(counter) => if i32::MIN <= code <= i32::MAX && type_of_code(code as i32)
                            is Some && fixed <= u32::MAX {
                            Some(
                                (
                                    StreamerFieldView {
                                        name,
                                        type_tag: type_of_code(code as i32).unwrap(),
                                        class_name,
                                        count: count_of(fixed as u32, counter),
                                    },
                                    at + 5,
                                ),
                            )
                        } else {
                            None
                        },
                        None => None,
                    },
                    None => None,
                },
                None => None,
            },
            None => None,
        },
        None => None,
    }
}

/// The `n` fields that the values from place `at` on describe.
pub open spec fn fields_from(values: Seq<ValueView>, at: int, n: nat) -> Option<
    (Seq<StreamerFieldView>, int),
>
    decreases n,
{
    if n == 0 {
        Some((Seq::empty(), at))
    } else {
        match field_from(values, at) {
            Some((field, next)) => match fields_from(values, next, (n - 1) as nat) {
                Some((rest, end)) => Some((seq![field] + rest, end)),
                None => None,
            },
            None => None,
        }
    }
}

/// The class that the values from place `at` on describe: name, version and
/// number of fields, and then the fields.
pub open spec fn info_from(values: Seq<ValueView>, at: int) -> Option<(StreamerInfoView, int)> {
    match text_in(values, at) {
        Some(class_name) => match uint_in(values, at + 1) {
            Some(version) => match int_in(values, at + 2) {
                Some(n) => if version <= u16::MAX && n >= 0 {
                    match fields_from(values, at + 3, n as nat) {
                        Some((fields, next)) => Some(
                            (StreamerInfoView { class_name, version: version as u16, fields }, next),
                        ),
                        None => None,
                    }
                } else {
                    None
                },
                None => None,
            },
            None => None,
        },
        None => None,
    }
}

/// The `n` classes that the values from place `at` on describe.
pub open spec fn infos_from(values: Seq<ValueView>, at: int, n: nat) -> Option<
    (Seq<StreamerInfoView>, int),
>
    decreases n,
{
    if n == 0 {
        Some((Seq::empty(), at))
    } else {
        match info_from(values, at) {
            Some((info, next)) => match infos_from(values, next, (n - 1) as nat) {
                Some((rest, end)) => Some((seq![info] + rest, end)),
                None => None,
            },
            None => None,
        }
    }
}

/// The classes that the decoded values of a catalogue describe: the first
/// value is their number, the others describe them one behind the other and
/// to the end.
pub open spec fn catalogue_of(values: Seq<ValueView>) -> Option<Seq<StreamerInfoView>> {
    match int_in(values, 0) {
        Some(n) => if n >= 0 {
            match infos_from(values, 1, n as nat) {
                Some((infos, end)) => if end == values.len() {
                    Some(infos)
                } else {
                    None
                },
                None => None,
            }
        } else {
            None
        },
        None => None,
    }
}

/// The classes of the catalogue that is stored at the start of `payload`:
/// the catalogue is decoded by the built-in layouts, and its values are read
/// as classes. Values that describe no classes are a format error.
pub open spec fn catalogue_in(payload: Seq<u8>) -> Result<Seq<StreamerInfoView>, Error> {
    match object_at(bootstrap_layouts(), "Catalogue".spec_bytes(), payload, 0, MAX_DEPTH as nat) {
        Ok((values, _)) => match catalogue_of(values) {
            Some(infos) => Ok(infos),
            None => Err(Error::Format),
        },
        Err(e) => Err(e),
    }
}

/// Parser of the catalogue that a record holds.
pub struct CatalogueParser;

impl ObjectParser for CatalogueParser {
    type Output = Vec<StreamerInfo>;

    open spec fn parses(
        &self,
        bytes: Seq<u8>,
        context: ContextView,
        out: Result<Vec<StreamerInfo>, Error>,
    ) -> bool {
        match object_in(bootstrap_layouts(), "Catalogue".spec_bytes(), bytes, MAX_DEPTH as nat) {
            Ok(values) => match catalogue_of(values) {
                Some(infos) => out matches Ok(list) && list.deep_view() == infos,
                None => out matches Err(e) && e == Error::Format,
            },
            Err(e) => out matches Err(x) && x == e,
        }
    }

    fn parse(&self, input: &[u8], _context: &Context) -> (r: Result<Vec<StreamerInfo>, Error>) {
        let reg = bootstrap();
        let values = decode_object_in(&reg, "Catalogue".as_bytes(), input, MAX_DEPTH)?;
        match classes(&values) {
            Some(list) => Ok(list),
            None => Err(Error::Format),
        }
    }
}

/// The bytes of `text`.
fn bytes_of(text: &str) -> (r: Vec<u8>)
    ensures
        r@ == text.spec_bytes(),
{
    slice_to_vec(text.as_bytes())
}

/// A built-in field that holds one plain value.
fn plain(name: &str, type_tag: FieldType) -> (r: StreamerField)
    ensures
        r.deep_view() == plain_field(name.spec_bytes(), type_tag),
{
    StreamerField {
        name: bytes_of(name),
        type_tag,
        class_name: Vec::new(),
        count: ElementCount::Fixed(1),
    }
}

/// A built-in field that holds objects of `class`, as many as the field
/// `counter` says.
fn counted(name: &str, class: &str, counter: &str) -> (r: StreamerField)
    ensures
        r.deep_view() == counted_objects(
            name.spec_bytes(),
            class.spec_bytes(),
            counter.spec_bytes(),
        ),
{
    StreamerField {
        name: bytes_of(name),
        type_tag: FieldType::Object,
        class_name: bytes_of(class),
        count: ElementCount::VariableByCounter(bytes_of(counter)),
    }
}

/// A built-in layout in its first version.
fn layout(class: &str, fields: Vec<StreamerField>) -> (r: StreamerInfo)
    ensures
        r.deep_view() == (StreamerInfoView {
            class_name: class.spec_bytes(),
            version: 1,
            fields: fields.deep_view(),
        }),
{
    StreamerInfo { class_name: bytes_of(class), version: 1, fields }
}

/// The registry of the built-in layouts, by which the catalogue of a
/// container is decoded.
pub fn bootstrap() -> (r: Registry)
    ensures
        r.deep_view() == bootstrap_layouts(),
{
    let mut catalogue: Vec<StreamerField> = Vec::new();
    catalogue.push(plain("n", FieldType::Counter));
    catalogue.push(counted("classes", "Class", "n"));
    assert(catalogue.deep_view() =~= bootstrap_layouts()[0].fields);
    let mut class: Vec<StreamerField> = Vec::new();
    class.push(plain("name", FieldType::Text));
    class.push(plain("version", FieldType::UShort));
    class.push(plain("n", FieldType::Counter));
    class.push(counted("fields", "Field", "n"));
    assert(class.deep_view() =~= bootstrap_layouts()[1].fields);
    let mut field: Vec<StreamerField> = Vec::new();
    field.push(plain("name", FieldType::Text));
    field.push(plain("type", FieldType::Int));
    field.push(plain("class", FieldType::Text));
    field.push(plain("count", FieldType::UInt));
    field.push(plain("counter", FieldType::Text));
    assert(field.deep_view() =~= bootstrap_layouts()[2].fields);
    let mut layouts: Vec<StreamerInfo> = Vec::new();
    layouts.push(layout("Catalogue", catalogue));
    layouts.push(layout("Class", class));
    layouts.push(layout("Field", field));
    assert(layouts.deep_view() =~= bootstrap_layouts());
    Registry::new(layouts)
}

/// The text at place `at`.
pub fn text_at(values: &Vec<Value>, at: usize) -> (r: Option<Vec<u8>>)
    ensures
        match r {
            Some(t) => text_in(values.deep_view(), at as int) == Some(t@),
            None => text_in(values.deep_view(), at as int) is None,
        },
{
    if at < values.len() {
        proof {
            assert(values.deep_view()[at as int] == values@[at as int].deep_view());
        }
        match &values[at] {
            Value::Text(t) => Some(slice_to_vec(t.as_slice())),
            _ => None,
        }
    } else {
        None
    }
}

/// The signed integer at place `at`.
pub fn int_at(values: &Vec<Value>, at: usize) -> (r: Option<i64>)
    ensures
        r == int_in(values.deep_view(), at as int),
{
    if at < values.len() {
        proof {
            assert(values.deep_view()[at as int] == values@[at as int].deep_view());
        }
        match &values[at] {
            Value::Int(n) => Some(*n),
            _ => None,
        }
    } else {
        None
    }
}

/// The unsigned integer at place `at`.
pub fn uint_at(values: &Vec<Value>, at: usize) -> (r: Option<u64>)
    ensures
        r == uint_in(values.deep_view(), at as int),
{
    if at < values.len() {
        proof {
            assert(values.deep_view()[at as int] == values@[at as int].deep_view());
        }
        match &values[at] {
            Value::UInt(n) => Some(*n),
            _ => None,
        }
    } else {
        None
    }
}

/// Reads the field that the five values from place `at` on describe.
pub fn field(values: &Vec<Value>, at: usize) -> (r: Option<(StreamerField, usize)>)
    ensures
        match r {
            Some((f, next)) => field_from(values.deep_view(), at as int) == Some(
                (f.deep_view(), next as int),
            ) && next <= values@.len(),
            None => field_from(values.deep_view(), at as int) is None,
        },
{
    if at > values.len() || values.len() - at < 5 {
        return None;
    }
    let name = text_at(values, at)?;
    let code = int_at(values, at + 1)?;
    let class_name = text_at(values, at + 2)?;
    let fixed = uint_at(values, at + 3)?;
    let counter = text_at(values, at + 4)?;
    if code < i32::MIN as i64 || code > i32::MAX as i64 || fixed > u32::MAX as u64 {
        return None;
    }
    let type_tag = field_type(code as i32)?;
    let count = if counter.len() == 0 {
        ElementCount::Fixed(fixed as u32)
    } else {
        ElementCount::VariableByCounter(counter)
    };
    Some((StreamerField { name, type_tag, class_name, count }, at + 5))
}

/// Reads the `n` fields that the values from place `at` on describe.
pub fn fields(values: &Vec<Value>, at: usize, n: u64) -> (r: Option<(Vec<StreamerField>, usize)>)
    ensures
        match r {
            Some((list, next)) => fields_from(values.deep_view(), at as int, n as nat) == Some(
                (list.deep_view(), next as int),
            ) && (at <= values@.len() ==> next <= values@.len()),
            None => fields_from(values.deep_view(), at as int, n as nat) is None,
        },
{
    let ghost whole = fields_from(values.deep_view(), at as int, n as nat);
    let mut out: Vec<StreamerField> = Vec::new();
    let mut pos: usize = at;
    let mut k: u64 = 0;
    proof {
        assert(out.deep_view() =~= Seq::empty());
        if let Some((s, end)) = whole {
            assert(out.deep_view() + s =~= s);
        }
    }
    while k < n
        invariant
            k <= n,
            at <= values@.len() ==> pos <= values@.len(),
            whole == fields_from(values.deep_view(), at as int, n as nat),
            whole == match fields_from(values.deep_view(), pos as int, (n - k) as nat) {
                Some((rest, end)) => Some((out.deep_view() + rest, end)),
                None => None,
            },
        decreases n - k,
    {
        match field(values, pos) {
            Some((f, next)) => {
                let ghost before = out.deep_view();
                let ghost item = f.deep_view();
                out.push(f);
                proof {
                    assert(out.deep_view() =~= before.push(item));
                    if let Some((rest, end)) = fields_from(
                        values.deep_view(),
                        next as int,
                        (n - k - 1) as nat,
                    ) {
                        assert(before + (seq![item] + rest) =~= before.push(item) + rest);
                    }
                }
                pos = next;
                k = k + 1;
            },
            None => {
                return None;
            },
        }
    }
    proof {
        assert(out.deep_view() + Seq::empty() =~= out.deep_view());
    }
    Some((out, pos))
}

/// Reads the class that the values from place `at` on describe.
pub fn info(values: &Vec<Value>, at: usize) -> (r: Option<(StreamerInfo, usize)>)
    ensures
        match r {
            Some((i, next)) => info_from(values.deep_view(), at as int) == Some(
                (i.deep_view(), next as int),
            ) && next <= values@.len(),
            None => info_from(values.deep_view(), at as int) is None,
        },
{
    if at > values.len() || values.len() - at < 3 {
        return None;
    }
    let class_name = text_at(values, at)?;
    let version = uint_at(values, at + 1)?;
    let n = int_at(values, at + 2)?;
    if version > u16::MAX as u64 || n < 0 {
        return None;
    }
    let (list, next) = fields(values, at + 3, n as u64)?;
    Some((StreamerInfo { class_name, version: version as u16, fields: list }, next))
}

/// Reads the `n` classes that the values from place `at` on describe.
pub fn infos(values: &Vec<Value>, at: usize, n: u64) -> (r: Option<(Vec<StreamerInfo>, usize)>)
    ensures
        match r {
            Some((list, next)) => infos_from(values.deep_view(), at as int, n as nat) == Some(
                (list.deep_view(), next as int),
            ) && (at <= values@.len() ==> next <= values@.len()),
            None => infos_from(values.deep_view(), at as int, n as nat) is None,
        },
{
    let ghost whole = infos_from(values.deep_view(), at as int, n as nat);
    let mut out: Vec<StreamerInfo> = Vec::new();
    let mut pos: usize = at;
    let mut k: u64 = 0;
    proof {
        assert(out.deep_view() =~= Seq::empty());
        if let Some((s, end)) = whole {
            assert(out.deep_view() + s =~= s);
        }
    }
    while k < n
        invariant
            k <= n,
            at <= values@.len() ==> pos <= values@.len(),
            whole == infos_from(values.deep_view(), at as int, n as nat),
            whole == match infos_from(values.deep_view(), pos as int, (n - k) as nat) {
                Some((rest, end)) => Some((out.deep_view() + rest, end)),
                None => None,
            },
        decreases n - k,
    {
        match info(values, pos) {
            Some((i, next)) => {
                let ghost before = out.deep_view();
                let ghost item = i.deep_view();
                out.push(i);
                proof {
                    assert(out.deep_view() =~= before.push(item));
                    if let Some((rest, end)) = infos_from(
                        values.deep_view(),
                        next as int,
                        (n - k - 1) as nat,
                    ) {
                        assert(before + (seq![item] + rest) =~= before.push(item) + rest);
                    }
                }
                pos = next;
                k = k + 1;
            },
            None => {
                return None;
            },
        }
    }
    proof {
        assert(out.deep_view() + Seq::empty() =~= out.deep_view());
    }
    Some((out, pos))
}

/// Reads the decoded values of a catalogue as classes.
pub fn classes(values: &Vec<Value>) -> (r: Option<Vec<StreamerInfo>>)
    ensures
        match r {
            Some(list) => catalogue_of(values.deep_view()) == Some(list.deep_view()),
            None => catalogue_of(values.deep_view()) is None,
        },
{
    let n = int_at(values, 0)?;
    if n < 0 {
        return None;
    }
    let (list, end) = infos(values, 1, n as u64)?;
    if end == values.len() {
        Some(list)
    } else {
        None
    }
}

/// Decodes the catalogue that is stored at the start of `payload`, by the
/// built-in layouts, and returns its classes.
///
/// Fails as [`Registry::decode`] does for the built-in layouts, and with a
/// format error where the decoded values describe no classes.
pub fn read_catalogue(payload: &[u8]) -> (r: Result<Vec<StreamerInfo>, Error>)
    ensures
        match r {
            Ok(list) => catalogue_in(payload@) == Ok::<_, Error>(list.deep_view()),
            Err(e) => catalogue_in(payload@) == Err::<Seq<StreamerInfoView>, Error>(e),
        },
{
    let reg = bootstrap();
    let (values, _) = decode_object(&reg, "Catalogue".as_bytes(), payload, 0, MAX_DEPTH)?;
    match classes(&values) {
        Some(list) => Ok(list),
        None => Err(Error::Format),
    }
}

} // verus!

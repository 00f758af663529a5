//! The layouts of the classes of a container: for each class and version,
//! the ordered list of its fields.

use vstd::prelude::*;
use crate::error::Error;
use crate::parsers::bytes_eq;
use crate::tree::{ElementCount, ElementCountView};

verus! {

/// The closed set of field types.
#[derive(Debug, Clone, Copy, PartialEq, Eq, Structural)]
pub enum FieldType {
    /// The fields of a base class, embedded.
    Base,
    /// A signed byte.
    Char,
    /// A signed 16-bit integer.
    Short,
    /// A signed 32-bit integer.
    Int,
    /// A signed 64-bit integer.
    Long,
    /// A 32-bit IEEE 754 number.
    Float,
    /// A signed 32-bit integer that counts the elements of an array.
    Counter,
    /// A 64-bit IEEE 754 number.
    Double,
    /// An unsigned byte.
    UChar,
    /// An unsigned 16-bit integer.
    UShort,
    /// An unsigned 32-bit integer.
    UInt,
    /// An unsigned 64-bit integer.
    ULong,
    /// One byte that is zero or not.
    Bool,
    /// A length-prefixed string.
    Text,
    /// An object of another class, embedded.
    Object,
}

/// The field type that a type code stands for.
pub open spec fn type_of_code(code: i32) -> Option<FieldType> {
    if code == 0 {
        Some(FieldType::Base)
    } else if code == 1 {
        Some(FieldType::Char)
    } else if code == 2 {
        Some(FieldType::Short)
    } else if code == 3 {
        Some(FieldType::Int)
    } else if code == 4 || code == 16 {
        Some(FieldType::Long)
    } else if code == 5 {
        Some(FieldType::Float)
    } else if code == 6 {
        Some(FieldType::Counter)
    } else if code == 8 {
        Some(FieldType::Double)
    } else if code == 11 {
        Some(FieldType::UChar)
    } else if code == 12 {
        Some(FieldType::UShort)
    } else if code == 13 {
        Some(FieldType::UInt)
    } else if code == 14 || code == 17 {
        Some(FieldType::ULong)
    } else if code == 18 {
        Some(FieldType::Bool)
    } else if code == 65 {
        Some(FieldType::Text)
    } else if code == 61 || code == 62 {
        Some(FieldType::Object)
    } else {
        None
    }
}

/// The field type that `code` stands for; none for a code outside the set.
pub fn field_type(code: i32) -> (r: Option<FieldType>)
    ensures
        r == type_of_code(code),
{
    if code == 0 {
        Some(FieldType::Base)
    } else if code == 1 {
        Some(FieldType::Char)
    } else if code == 2 {
        Some(FieldType::Short)
    } else if code == 3 {
        Some(FieldType::Int)
    } else if code == 4 || code == 16 {
        Some(FieldType::Long)
    } else if code == 5 {
        Some(FieldType::Float)
    } else if code == 6 {
        Some(FieldType::Counter)
    } else if code == 8 {
        Some(FieldType::Double)
    } else if code == 11 {
        Some(FieldType::UChar)
    } else if code == 12 {
        Some(FieldType::UShort)
    } else if code == 13 {
        Some(FieldType::UInt)
    } else if code == 14 || code == 17 {
        Some(FieldType::ULong)
    } else if code == 18 {
        Some(FieldType::Bool)
    } else if code == 65 {
        Some(FieldType::Text)
    } else if code == 61 || code == 62 {
        Some(FieldType::Object)
    } else {
        None
    }
}

/// One field of a class.
#[derive(Debug)]
pub struct StreamerField {
    /// The name of the field.
    pub name: Vec<u8>,
    /// What kind of value it holds.
    pub type_tag: FieldType,
    /// The class whose fields it embeds, for a base class or an object.
    pub class_name: Vec<u8>,
    /// How many values it holds.
    pub count: ElementCount,
}

/// A field as a mathematical value.
pub struct StreamerFieldView {
    pub name: Seq<u8>,
    pub type_tag: FieldType,
    pub class_name: Seq<u8>,
    pub count: ElementCountView,
}

impl DeepView for StreamerField {
    type V = StreamerFieldView;

    open spec fn deep_view(&self) -> StreamerFieldView {
        StreamerFieldView {
            name: self.name@,
            type_tag: self.type_tag,
            class_name: self.class_name@,
            count: self.count@,
        }
    }
}

/// The layout of the objects of one class in one version.
#[derive(Debug)]
pub struct StreamerInfo {
    /// The name of the class.
    pub class_name: Vec<u8>,
    /// The version of the layout.
    pub version: u16,
    /// The fields in the order in which they are stored.
    pub fields: Vec<StreamerField>,
}

/// A class layout as a mathematical value.
pub struct StreamerInfoView {
    pub class_name: Seq<u8>,
    pub version: u16,
    pub fields: Seq<StreamerFieldView>,
}

impl DeepView for StreamerInfo {
    type V = StreamerInfoView;

    open spec fn deep_view(&self) -> StreamerInfoView {
        StreamerInfoView {
            class_name: self.class_name@,
            version: self.version,
            fields: self.fields.deep_view(),
        }
    }
}

/// The index of the first layout from `from` on that is of class `class` in
/// version `version`.
pub open spec fn find_info(infos: Seq<StreamerInfoView>, class: Seq<u8>, version: u16, from: int) -> Option<
    int,
>
    decreases infos.len() - from,
{
    if from < 0 || from >= infos.len() {
        None
    } else if infos[from].class_name == class && infos[from].version == version {
        Some(from)
    } else {
        find_info(infos, class, version, from + 1)
    }
}

/// A layout is found exactly where the catalogue holds one of that class and
/// version, and what is found is of that class and version.
pub proof fn lemma_find_info(infos: Seq<StreamerInfoView>, class: Seq<u8>, version: u16, from: int)
    requires
        0 <= from,
    ensures
        match find_info(infos, class, version, from) {
            Some(i) => from <= i < infos.len() && infos[i].class_name == class && infos[i].version
                == version,
            None => forall|i: int|
                from <= i < infos.len() ==> !(#[trigger] infos[i].class_name == class && infos[i].version
                    == version),
        },
    decreases infos.len() - from,
{
    if from < infos.len() && !(infos[from].class_name == class && infos[from].version == version) {
        lemma_find_info(infos, class, version, from + 1);
    }
}

/// The layouts of the classes of a container, found by class name and
/// version.
#[derive(Debug)]
pub struct Registry {
    infos: Vec<StreamerInfo>,
}

impl DeepView for Registry {
    type V = Seq<StreamerInfoView>;

    closed spec fn deep_view(&self) -> Seq<StreamerInfoView> {
        self.infos.deep_view()
    }
}

impl Registry {
    /// A registry of the given layouts.
    pub fn new(infos: Vec<StreamerInfo>) -> (r: Registry)
        ensures
            r.deep_view() == infos.deep_view(),
    {
        Registry { infos }
    }

    /// The number of layouts.
    pub fn len(&self) -> (r: usize)
        ensures
            r == self.deep_view().len(),
    {
        self.infos.len()
    }

    /// The layout of the class `class` in the version `version`.
    ///
    /// Fails with an unknown-class error exactly where the registry holds no
    /// layout of that class in that version. A layout of another version, or
    /// of another class, is never returned in its place.
    pub fn lookup(&self, class: &[u8], version: u16) -> (r: Result<&StreamerInfo, Error>)
        ensures
            match r {
                Ok(info) => find_info(self.deep_view(), class@, version, 0) matches Some(i)
                    && info.deep_view() == self.deep_view()[i] && info.class_name@ == class@
                    && info.version == version,
                Err(e) => e == Error::UnknownClass && find_info(
                    self.deep_view(),
                    class@,
                    version,
                    0,
                ) is None && forall|i: int|
                    0 <= i < self.deep_view().len() ==> !(#[trigger] self.deep_view()[i].class_name
                        == class@ && self.deep_view()[i].version == version),
            },
    {
        proof {
            lemma_find_info(self.deep_view(), class@, version, 0);
        }
        let mut i: usize = 0;
        while i < self.infos.len()
            invariant
                i <= self.infos@.len(),
                self.deep_view().len() == self.infos@.len(),
                find_info(self.deep_view(), class@, version, 0) == find_info(
                    self.deep_view(),
                    class@,
                    version,
                    i as int,
                ),
            decreases self.infos@.len() - i,
        {
            let info = &self.infos[i];
            proof {
                assert(self.deep_view()[i as int] == info.deep_view());
            }
            if info.version == version && bytes_eq(info.class_name.as_slice(), class) {
                return Ok(info);
            }
            i = i + 1;
        }
        Err(Error::UnknownClass)
    }
}

} // verus!

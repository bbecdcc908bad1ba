//! Dynamically-typed values and the records that hold them.
//!
//! The parser does not know the concrete layout of a registered type; it
//! produces a [`DynamicValue`]: a primitive, a record with named fields, a
//! record with positional fields, or a sequence.  Floating-point channels
//! (floats, vector and color components) are carried as their literal text,
//! so the host decides the numeric width when it applies the value.
//!
//! At the specification level every value is a [`DVal`], where strings are
//! character sequences and a named-field record is the map from field names
//! to field values.

use vstd::prelude::*;

use crate::text::str_eq;

verus! {

/// The specification-level form of a [`DynamicValue`].
pub enum DVal {
    Int(i32),
    Float(Seq<char>),
    Char(u8),
    Str(Seq<char>),
    Struct(Map<Seq<char>, DVal>),
    TupleStruct(Seq<DVal>),
    Tuple(Seq<DVal>),
    List(Seq<DVal>),
    Range(i32, i32),
    Vec3(V3View),
    Color(ColorView),
    Shape(Seq<char>),
}

/// The specification-level form of a [`Vec3Value`].
pub struct V3View {
    pub x: Seq<char>,
    pub y: Seq<char>,
    pub z: Seq<char>,
}

/// The specification-level form of a [`ColorValue`].
pub struct ColorView {
    pub r: Seq<char>,
    pub g: Seq<char>,
    pub b: Seq<char>,
    pub a: Seq<char>,
}

/// A three-component vector literal; each component is the text of a
/// decimal number.
#[derive(Debug, PartialEq)]
pub struct Vec3Value {
    pub x: String,
    pub y: String,
    pub z: String,
}

/// A color literal; each channel is the text of a decimal number.
#[derive(Debug, PartialEq)]
pub struct ColorValue {
    pub r: String,
    pub g: String,
    pub b: String,
    pub a: String,
}

/// A value built against a registered shape.
#[derive(Debug)]
pub enum DynamicValue {
    Int(i32),
    Float(String),
    Char(u8),
    Str(String),
    Struct(DynamicStruct),
    TupleStruct(Vec<DynamicValue>),
    Tuple(Vec<DynamicValue>),
    List(Vec<DynamicValue>),
    Range(i32, i32),
    Vec3(Vec3Value),
    Color(ColorValue),
    Shape(String),
}

/// A name/value pair representing a field on a type.
#[derive(Debug)]
pub struct ReflectField {
    pub name: String,
    pub value: DynamicValue,
}

/// A record with named fields; each name is held at most once, and
/// re-inserting a name overwrites its value.
#[derive(Debug)]
pub struct DynamicStruct {
    pub fields: Vec<ReflectField>,
}

/// The value a [`DynamicValue`] denotes.
pub open spec fn value_view(v: DynamicValue) -> DVal
    decreases v,
{
    match v {
        DynamicValue::Int(i) => DVal::Int(i),
        DynamicValue::Float(s) => DVal::Float(s@),
        DynamicValue::Char(b) => DVal::Char(b),
        DynamicValue::Str(s) => DVal::Str(s@),
        DynamicValue::Struct(ds) => DVal::Struct(fields_map(ds.fields@)),
        DynamicValue::TupleStruct(vs) => DVal::TupleStruct(values_view(vs@)),
        DynamicValue::Tuple(vs) => DVal::Tuple(values_view(vs@)),
        DynamicValue::List(vs) => DVal::List(values_view(vs@)),
        DynamicValue::Range(a, b) => DVal::Range(a, b),
        DynamicValue::Vec3(v3) => DVal::Vec3(V3View { x: v3.x@, y: v3.y@, z: v3.z@ }),
        DynamicValue::Color(c) => DVal::Color(
            ColorView { r: c.r@, g: c.g@, b: c.b@, a: c.a@ },
        ),
        DynamicValue::Shape(s) => DVal::Shape(s@),
    }
}

/// The values a sequence of [`DynamicValue`]s denotes, in order.
pub open spec fn values_view(vs: Seq<DynamicValue>) -> Seq<DVal>
    decreases vs,
{
    if vs.len() == 0 {
        Seq::empty()
    } else {
        values_view(vs.drop_last()).push(value_view(vs.last()))
    }
}

/// The name-to-value map a sequence of fields denotes: later fields win.
pub open spec fn fields_map(fs: Seq<ReflectField>) -> Map<Seq<char>, DVal>
    decreases fs,
{
    if fs.len() == 0 {
        Map::empty()
    } else {
        fields_map(fs.drop_last()).insert(fs.last().name@, value_view(fs.last().value))
    }
}

impl View for DynamicValue {
    type V = DVal;

    open spec fn view(&self) -> DVal {
        value_view(*self)
    }
}

impl View for ReflectField {
    type V = (Seq<char>, DVal);

    open spec fn view(&self) -> (Seq<char>, DVal) {
        (self.name@, value_view(self.value))
    }
}

impl View for DynamicStruct {
    type V = Map<Seq<char>, DVal>;

    open spec fn view(&self) -> Map<Seq<char>, DVal> {
        fields_map(self.fields@)
    }
}

/// Errors returned from the typed accessors.
#[derive(Debug, PartialEq)]
pub enum GetValueError {
    /// The named field does not exist on the record (field name, record form).
    FieldDoesntExist(String, String),
    /// The value is not of the requested form (found form, requested form).
    FailedCast(String, String),
}

/// The name of the form a value takes, as the accessors report it.
pub open spec fn spec_kind_name(v: DVal) -> Seq<char> {
    match v {
        DVal::Int(_) => "i32"@,
        DVal::Float(_) => "float"@,
        DVal::Char(_) => "char"@,
        DVal::Str(_) => "string"@,
        DVal::Struct(_) => "struct"@,
        DVal::TupleStruct(_) => "tuple_struct"@,
        DVal::Tuple(_) => "tuple"@,
        DVal::List(_) => "list"@,
        DVal::Range(_, _) => "range"@,
        DVal::Vec3(_) => "vec3"@,
        DVal::Color(_) => "color"@,
        DVal::Shape(_) => "shape"@,
    }
}

impl DynamicValue {
    /// The name of the form this value takes.
    pub fn kind_name(&self) -> (r: String)
        ensures
            r@ == spec_kind_name(self@),
    {
        match self {
            DynamicValue::Int(_) => String::from_str("i32"),
            DynamicValue::Float(_) => String::from_str("float"),
            DynamicValue::Char(_) => String::from_str("char"),
            DynamicValue::Str(_) => String::from_str("string"),
            DynamicValue::Struct(_) => String::from_str("struct"),
            DynamicValue::TupleStruct(_) => String::from_str("tuple_struct"),
            DynamicValue::Tuple(_) => String::from_str("tuple"),
            DynamicValue::List(_) => String::from_str("list"),
            DynamicValue::Range(_, _) => String::from_str("range"),
            DynamicValue::Vec3(_) => String::from_str("vec3"),
            DynamicValue::Color(_) => String::from_str("color"),
            DynamicValue::Shape(_) => String::from_str("shape"),
        }
    }

    fn cast_error(&self, target: &str) -> (r: GetValueError)
        ensures
            r matches GetValueError::FailedCast(f, t) && f@ == spec_kind_name(self@) && t@
                == target@,
    {
        GetValueError::FailedCast(self.kind_name(), String::from_str(target))
    }

    /// The integer this value holds, if it is an integer.
    pub fn as_int(&self) -> (r: Result<i32, GetValueError>)
        ensures
            match self@ {
                DVal::Int(i) => r == Ok::<i32, GetValueError>(i),
                _ => r matches Err(GetValueError::FailedCast(f, t)) && f@ == spec_kind_name(
                    self@,
                ) && t@ == "i32"@,
            },
    {
        match self {
            DynamicValue::Int(i) => Ok(*i),
            _ => Err(self.cast_error("i32")),
        }
    }

    /// The text of the float literal this value holds, if it is a float.
    pub fn as_float_text(&self) -> (r: Result<&String, GetValueError>)
        ensures
            match self@ {
                DVal::Float(s) => r matches Ok(v) && v@ == s,
                _ => r matches Err(GetValueError::FailedCast(f, t)) && f@ == spec_kind_name(
                    self@,
                ) && t@ == "float"@,
            },
    {
        match self {
            DynamicValue::Float(s) => Ok(s),
            _ => Err(self.cast_error("float")),
        }
    }

    /// The byte this value holds, if it is a character literal.
    pub fn as_char(&self) -> (r: Result<u8, GetValueError>)
        ensures
            match self@ {
                DVal::Char(b) => r == Ok::<u8, GetValueError>(b),
                _ => r matches Err(GetValueError::FailedCast(f, t)) && f@ == spec_kind_name(
                    self@,
                ) && t@ == "char"@,
            },
    {
        match self {
            DynamicValue::Char(b) => Ok(*b),
            _ => Err(self.cast_error("char")),
        }
    }

    /// The string this value holds, if it is a string.
    pub fn as_str_value(&self) -> (r: Result<&String, GetValueError>)
        ensures
            match self@ {
                DVal::Str(s) => r matches Ok(v) && v@ == s,
                _ => r matches Err(GetValueError::FailedCast(f, t)) && f@ == spec_kind_name(
                    self@,
                ) && t@ == "string"@,
            },
    {
        match self {
            DynamicValue::Str(s) => Ok(s),
            _ => Err(self.cast_error("string")),
        }
    }

    /// The named-field record this value holds, if it is one.
    pub fn as_struct(&self) -> (r: Result<&DynamicStruct, GetValueError>)
        ensures
            match self@ {
                DVal::Struct(m) => r matches Ok(v) && v@ == m,
                _ => r matches Err(GetValueError::FailedCast(f, t)) && f@ == spec_kind_name(
                    self@,
                ) && t@ == "struct"@,
            },
    {
        match self {
            DynamicValue::Struct(ds) => Ok(ds),
            _ => Err(self.cast_error("struct")),
        }
    }

    /// The start and end of the range this value holds, if it is a range.
    pub fn as_range(&self) -> (r: Result<(i32, i32), GetValueError>)
        ensures
            match self@ {
                DVal::Range(a, b) => r == Ok::<(i32, i32), GetValueError>((a, b)),
                _ => r matches Err(GetValueError::FailedCast(f, t)) && f@ == spec_kind_name(
                    self@,
                ) && t@ == "range"@,
            },
    {
        match self {
            DynamicValue::Range(a, b) => Ok((*a, *b)),
            _ => Err(self.cast_error("range")),
        }
    }

    /// The vector literal this value holds, if it is one.
    pub fn as_vec3(&self) -> (r: Result<&Vec3Value, GetValueError>)
        ensures
            match self@ {
                DVal::Vec3(v3) => r matches Ok(v) && v.x@ == v3.x && v.y@ == v3.y && v.z@ == v3.z,
                _ => r matches Err(GetValueError::FailedCast(f, t)) && f@ == spec_kind_name(
                    self@,
                ) && t@ == "vec3"@,
            },
    {
        match self {
            DynamicValue::Vec3(v) => Ok(v),
            _ => Err(self.cast_error("vec3")),
        }
    }

    /// The color literal this value holds, if it is one.
    pub fn as_color(&self) -> (r: Result<&ColorValue, GetValueError>)
        ensures
            match self@ {
                DVal::Color(c) => r matches Ok(v) && v.r@ == c.r && v.g@ == c.g && v.b@ == c.b
                    && v.a@ == c.a,
                _ => r matches Err(GetValueError::FailedCast(f, t)) && f@ == spec_kind_name(
                    self@,
                ) && t@ == "color"@,
            },
    {
        match self {
            DynamicValue::Color(c) => Ok(c),
            _ => Err(self.cast_error("color")),
        }
    }

    /// The elements this value holds, if it is a sequence.
    pub fn as_list(&self) -> (r: Result<&Vec<DynamicValue>, GetValueError>)
        ensures
            match self@ {
                DVal::List(vs) => r matches Ok(v) && values_view(v@) == vs,
                _ => r matches Err(GetValueError::FailedCast(f, t)) && f@ == spec_kind_name(
                    self@,
                ) && t@ == "list"@,
            },
    {
        match self {
            DynamicValue::List(vs) => Ok(vs),
            _ => Err(self.cast_error("list")),
        }
    }

    /// The shape tag this value holds, if it is one.
    pub fn as_shape(&self) -> (r: Result<&String, GetValueError>)
        ensures
            match self@ {
                DVal::Shape(s) => r matches Ok(v) && v@ == s,
                _ => r matches Err(GetValueError::FailedCast(f, t)) && f@ == spec_kind_name(
                    self@,
                ) && t@ == "shape"@,
            },
    {
        match self {
            DynamicValue::Shape(s) => Ok(s),
            _ => Err(self.cast_error("shape")),
        }
    }
}

impl DynamicStruct {
    /// No two fields share a name.
    pub open spec fn wf(self) -> bool {
        forall|i: int, j: int|
            0 <= i < j < self.fields@.len() ==> #[trigger] self.fields@[i].name@
                != #[trigger] self.fields@[j].name@
    }

    pub fn new() -> (r: Self)
        ensures
            r.wf(),
            r@ == Map::<Seq<char>, DVal>::empty(),
    {
        DynamicStruct { fields: Vec::new() }
    }

    /// Every field name is a key of the map, and with distinct names the
    /// map's value for a field name is that field's value.
    proof fn lemma_fields_map(fs: Seq<ReflectField>)
        ensures
            forall|k: Seq<char>|
                #[trigger] fields_map(fs).contains_key(k) <==> exists|i: int|
                    0 <= i < fs.len() && #[trigger] fs[i].name@ == k,
            (forall|i: int, j: int|
                0 <= i < j < fs.len() ==> #[trigger] fs[i].name@ != #[trigger] fs[j].name@)
                ==> forall|i: int|
                0 <= i < fs.len() ==> fields_map(fs)[#[trigger] fs[i].name@] == value_view(
                    fs[i].value,
                ),
        decreases fs.len(),
    {
        if fs.len() > 0 {
            let prefix = fs.drop_last();
            let last = fs.last();
            Self::lemma_fields_map(prefix);
            assert forall|k: Seq<char>| #[trigger] fields_map(fs).contains_key(k) implies exists|
                i: int,
            | 0 <= i < fs.len() && #[trigger] fs[i].name@ == k by {
                if k == last.name@ {
                    assert(fs[fs.len() - 1].name@ == k);
                } else {
                    assert(fields_map(prefix).contains_key(k));
                    let i = choose|i: int| 0 <= i < prefix.len() && #[trigger] prefix[i].name@ == k;
                    assert(fs[i].name@ == k);
                }
            }
            assert forall|i: int| 0 <= i < fs.len() implies fields_map(fs).contains_key(
                #[trigger] fs[i].name@,
            ) by {
                if i == fs.len() - 1 {
                    assert(fields_map(fs).contains_key(last.name@));
                } else {
                    assert(prefix[i].name@ == fs[i].name@);
                    assert(fields_map(prefix).contains_key(prefix[i].name@));
                }
            }
            if forall|i: int, j: int|
                0 <= i < j < fs.len() ==> #[trigger] fs[i].name@ != #[trigger] fs[j].name@ {
                assert forall|i: int| 0 <= i < fs.len() implies
                    fields_map(fs)[#[trigger] fs[i].name@] == value_view(fs[i].value) by {
                    if i == fs.len() - 1 {
                        assert(fields_map(fs)[last.name@] == value_view(last.value));
                    } else {
                        assert(prefix[i] == fs[i]);
                        assert(fs[i].name@ != last.name@);
                        assert(fields_map(fs)[fs[i].name@] == fields_map(prefix)[prefix[i].name@]);
                    }
                }
            }
        }
    }

    fn index_of(&self, name: &str) -> (r: Option<usize>)
        ensures
            match r {
                Some(i) => i < self.fields@.len() && self.fields@[i as int].name@ == name@,
                None => forall|i: int|
                    0 <= i < self.fields@.len() ==> #[trigger] self.fields@[i].name@ != name@,
            },
    {
        let n = self.fields.len();
        for i in 0..n
            invariant
                n == self.fields@.len(),
                forall|j: int| 0 <= j < i ==> #[trigger] self.fields@[j].name@ != name@,
        {
            if str_eq(self.fields[i].name.as_str(), name) {
                return Some(i);
            }
        }
        None
    }

    /// Replacing one field's value changes the map at that field's name alone.
    proof fn lemma_fields_update(fs: Seq<ReflectField>, i: int, f: ReflectField)
        requires
            0 <= i < fs.len(),
            fs[i].name@ == f.name@,
            forall|x: int, y: int|
                0 <= x < y < fs.len() ==> #[trigger] fs[x].name@ != #[trigger] fs[y].name@,
        ensures
            fields_map(fs.update(i, f)) == fields_map(fs).insert(f.name@, value_view(f.value)),
        decreases fs.len(),
    {
        Self::lemma_fields_map(fs);
        Self::lemma_fields_map(fs.update(i, f));
        if i == fs.len() - 1 {
            assert(fs.update(i, f).drop_last() =~= fs.drop_last());
            assert(fields_map(fs.update(i, f)) =~= fields_map(fs).insert(
                f.name@,
                value_view(f.value),
            ));
        } else {
            Self::lemma_fields_update(fs.drop_last(), i, f);
            assert(fs.update(i, f).drop_last() =~= fs.drop_last().update(i, f));
            assert(fs.update(i, f).last() == fs.last());
            assert(fields_map(fs.update(i, f)) =~= fields_map(fs).insert(
                f.name@,
                value_view(f.value),
            ));
        }
    }

    /// Inserts a field; a field already present under that name is
    /// overwritten (the last write wins).
    pub fn insert(&mut self, name: String, value: DynamicValue)
        requires
            old(self).wf(),
        ensures
            final(self).wf(),
            final(self)@ == old(self)@.insert(name@, value@),
    {
        proof {
            Self::lemma_fields_map(self.fields@);
        }
        match self.index_of(name.as_str()) {
            Some(i) => {
                let ghost fields0 = self.fields@;
                self.fields.set(i, ReflectField { name, value });
                proof {
                    Self::lemma_fields_update(fields0, i as int, self.fields@[i as int]);
                }
            },
            None => {
                self.fields.push(ReflectField { name, value });
                proof {
                    assert(self.fields@.drop_last() =~= old(self).fields@);
                }
            },
        }
    }

    /// Inserts a parsed field, as [`DynamicStruct::insert`] does.
    pub fn insert_field(&mut self, field: ReflectField)
        requires
            old(self).wf(),
        ensures
            final(self).wf(),
            final(self)@ == old(self)@.insert(field.name@, field.value@),
    {
        let ReflectField { name, value } = field;
        self.insert(name, value);
    }

    /// Retrieves the value of the named field, which must exist.
    pub fn get(&self, name: &str) -> (r: &DynamicValue)
        requires
            self.wf(),
            self@.contains_key(name@),
        ensures
            r@ == self@[name@],
    {
        proof {
            Self::lemma_fields_map(self.fields@);
        }
        match self.index_of(name) {
            Some(i) => &self.fields[i].value,
            None => vstd::pervasive::unreached(),
        }
    }

    /// Tries to retrieve the value of the named field.
    pub fn try_get(&self, name: &str) -> (r: Result<&DynamicValue, GetValueError>)
        requires
            self.wf(),
        ensures
            match r {
                Ok(v) => self@.contains_key(name@) && v@ == self@[name@],
                Err(e) => !self@.contains_key(name@) && (e matches
                GetValueError::FieldDoesntExist(n, t) && n@ == name@ && t@ == "struct"@),
            },
    {
        proof {
            Self::lemma_fields_map(self.fields@);
        }
        match self.index_of(name) {
            Some(i) => Ok(&self.fields[i].value),
            None => Err(
                GetValueError::FieldDoesntExist(
                    String::from_str(name),
                    String::from_str("struct"),
                ),
            ),
        }
    }
}

} // verus!

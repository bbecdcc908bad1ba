//! The description language, defined over character sequences.
//!
//! These specification functions give the one meaning of a description
//! text: a deterministic recursive descent over the characters, resolving
//! type names against the table of registered shapes.  The executable
//! parser is proved to return exactly what these functions denote.
//!
//! Grammar, informally:
//!
//! ```text
//! prefab    := identifier? '{' step* '}'
//! step      := command | component
//! command   := identifier '!' '(' (field (',' field)*)? ')'
//! component := identifier ('{' (field | component)* '}')?
//! field     := identifier ':' value
//! value     := int | float | char | string | array | range
//!            | vector | color | shape | component
//! array     := '[' (value (',' value)*)? ']'
//! range     := '[' int '..' int ']'
//! vector    := 'Vec3' '{' (identifier ':' number)* '}'
//! color     := 'Color' '::' identifier
//!            | 'Color' '{' (identifier ':' number)* '}'
//! ```
//!
//! Whitespace may stand between tokens, and commas may separate steps and
//! the items of a component body.  Positions that a sub-parse returns are
//! checked to have advanced before parsing goes on; the checks bound the
//! recursion and never fire on the positions the scanners return.

use vstd::prelude::*;

use crate::dynamic_value::ColorView;
use crate::dynamic_value::DVal;
use crate::dynamic_value::V3View;
use crate::prefab::CmdV;
use crate::prefab::CompV;
use crate::prefab::PrefabV;
use crate::prefab::StepV;
use crate::registry::ReflectType;

verus! {

/// The specification-level form of a parse failure.
pub enum ErrV {
    /// The text does not match the grammar; carries the position where
    /// matching stopped.
    GrammarError(int),
    /// A step form the semantic layer has no handler for.
    UnhandledPrefabFieldRule(Seq<char>),
    /// A component body item form the semantic layer has no handler for.
    UnhandledPrefabComponentFieldRule(Seq<char>),
    /// A component names a type that was never registered.
    UnregisteredPrefabComponent(Seq<char>),
    /// A literal's text could not convert to its target form: the target's
    /// name and the offending source text.
    ValueParseError(Seq<char>, Seq<char>),
    /// A value form the semantic layer has no handler for, among them the
    /// shapes the value builder does not implement.
    UnhandledValueRule(Seq<char>),
    /// The external source could not supply the description's text.
    FileReadError(Seq<char>),
}

/// A parsed field: its name and its value.
pub type FieldV = (Seq<char>, DVal);

pub open spec fn is_ws(c: char) -> bool {
    c == ' ' || c == '\n' || c == '\t' || c == '\r'
}

pub open spec fn is_digit(c: char) -> bool {
    '0' <= c && c <= '9'
}

pub open spec fn is_ident_start(c: char) -> bool {
    ('a' <= c && c <= 'z') || ('A' <= c && c <= 'Z') || c == '_'
}

pub open spec fn is_ident_char(c: char) -> bool {
    is_ident_start(c) || is_digit(c)
}

/// The first position at or after `i` that does not hold whitespace.
pub open spec fn skip_ws(s: Seq<char>, i: int) -> int
    decreases s.len() - i,
{
    if 0 <= i < s.len() && is_ws(s[i]) {
        skip_ws(s, i + 1)
    } else {
        i
    }
}

/// The first position at or after `i` that does not hold an identifier
/// character.
pub open spec fn scan_ident(s: Seq<char>, i: int) -> int
    decreases s.len() - i,
{
    if 0 <= i < s.len() && is_ident_char(s[i]) {
        scan_ident(s, i + 1)
    } else {
        i
    }
}

/// The first position at or after `i` that does not hold a digit.
pub open spec fn scan_digits(s: Seq<char>, i: int) -> int
    decreases s.len() - i,
{
    if 0 <= i < s.len() && is_digit(s[i]) {
        scan_digits(s, i + 1)
    } else {
        i
    }
}

/// The first position at or after `i` holding `c`, if any.
pub open spec fn find_char(s: Seq<char>, i: int, c: char) -> Option<int>
    decreases s.len() - i,
{
    if !(0 <= i < s.len()) {
        None
    } else if s[i] == c {
        Some(i)
    } else {
        find_char(s, i + 1, c)
    }
}

/// Whether a bracketed form is a range: the first `..` at or after `i`,
/// scanning no further than the end of the innermost bracket form.
pub open spec fn find_dotdot(s: Seq<char>, i: int) -> Option<int>
    decreases s.len() - i,
{
    if !(0 <= i < s.len()) {
        None
    } else if s[i] == '.' && i + 1 < s.len() && s[i + 1] == '.' {
        Some(i)
    } else if s[i] == ',' || s[i] == ']' || s[i] == '[' || s[i] == '{' || s[i] == '"' || s[i]
        == '\'' {
        None
    } else {
        find_dotdot(s, i + 1)
    }
}

/// The number a sequence of decimal digits denotes.
pub open spec fn digits_val(s: Seq<char>) -> int
    decreases s.len(),
{
    if s.len() == 0 {
        0
    } else {
        digits_val(s.drop_last()) * 10 + (s.last() as u32 - '0' as u32)
    }
}

pub open spec fn all_digits(s: Seq<char>) -> bool {
    forall|i: int| 0 <= i < s.len() ==> is_digit(#[trigger] s[i])
}

/// The signed 32-bit integer a literal denotes: an optional minus sign,
/// then one or more decimal digits, the value within the width's bounds.
pub open spec fn spec_parse_i32(s: Seq<char>) -> Option<i32> {
    if s.len() > 0 && s[0] == '-' {
        let d = s.subrange(1, s.len() as int);
        if d.len() > 0 && all_digits(d) && digits_val(d) <= 0x8000_0000 {
            Some((0 - digits_val(d)) as i32)
        } else {
            None
        }
    } else {
        if s.len() > 0 && all_digits(s) && digits_val(s) <= 0x7FFF_FFFF {
            Some(digits_val(s) as i32)
        } else {
            None
        }
    }
}

/// The closed set of bare shape tags the language accepts as values.
pub open spec fn is_shape_name(s: Seq<char>) -> bool {
    s == "Cube"@ || s == "Plane"@ || s == "Quad"@ || s == "Sphere"@ || s == "Capsule"@ || s
        == "Torus"@
}

/// The named color constants and their channels.
pub open spec fn spec_named_color(name: Seq<char>) -> Option<ColorView> {
    if name == "RED"@ {
        Some(ColorView { r: "1.0"@, g: "0.0"@, b: "0.0"@, a: "1.0"@ })
    } else if name == "BLUE"@ {
        Some(ColorView { r: "0.0"@, g: "0.0"@, b: "1.0"@, a: "1.0"@ })
    } else if name == "GREEN"@ {
        Some(ColorView { r: "0.0"@, g: "1.0"@, b: "0.0"@, a: "1.0"@ })
    } else if name == "YELLOW"@ {
        Some(ColorView { r: "1.0"@, g: "1.0"@, b: "0.0"@, a: "1.0"@ })
    } else if name == "PINK"@ {
        Some(ColorView { r: "1.0"@, g: "0.08"@, b: "0.58"@, a: "1.0"@ })
    } else {
        None
    }
}

/// The color every color literal starts from: opaque white.
pub open spec fn spec_default_color() -> ColorView {
    ColorView { r: "1.0"@, g: "1.0"@, b: "1.0"@, a: "1.0"@ }
}

/// The vector every vector literal starts from: the zero vector.
pub open spec fn spec_default_vec3() -> V3View {
    V3View { x: "0.0"@, y: "0.0"@, z: "0.0"@ }
}

/// The map a field list denotes: fields inserted in order, the last write
/// to a name winning.
pub open spec fn assoc_map(fields: Seq<FieldV>) -> Map<Seq<char>, DVal>
    decreases fields.len(),
{
    if fields.len() == 0 {
        Map::empty()
    } else {
        assoc_map(fields.drop_last()).insert(fields.last().0, fields.last().1)
    }
}

/// The values of a field list, in order, names dropped.
pub open spec fn field_vals(fields: Seq<FieldV>) -> Seq<DVal> {
    Seq::new(fields.len(), |i: int| fields[i].1)
}

/// What the value builder produces for a shape from a field list, and
/// `None` for the shapes it does not implement.
pub open spec fn spec_build(kind: ReflectType, fields: Seq<FieldV>) -> Option<DVal> {
    match kind {
        ReflectType::Struct => Some(DVal::Struct(assoc_map(fields))),
        ReflectType::TupleStruct => Some(DVal::TupleStruct(field_vals(fields))),
        ReflectType::Tuple => Some(DVal::Tuple(field_vals(fields))),
        _ => None,
    }
}

/// The name of a shape category, as errors report it.
pub open spec fn spec_reflect_name(kind: ReflectType) -> Seq<char> {
    match kind {
        ReflectType::Struct => "Struct"@,
        ReflectType::TupleStruct => "TupleStruct"@,
        ReflectType::Tuple => "Tuple"@,
        ReflectType::List => "List"@,
        ReflectType::Mapping => "Map"@,
        ReflectType::Value => "Value"@,
        ReflectType::Array => "Array"@,
        ReflectType::Enum => "Enum"@,
    }
}

/// Parses a value starting at `i` (leading whitespace allowed).
pub open spec fn spec_value(s: Seq<char>, i: int, types: Map<Seq<char>, ReflectType>) -> Result<
    (DVal, int),
    ErrV,
>
    decreases s.len() - i, 4int,
{
    let j = skip_ws(s, i);
    if !(i <= j && j < s.len()) {
        Err(ErrV::GrammarError(j))
    } else if s[j] == '\'' {
        if j + 2 < s.len() && s[j + 2] == '\'' {
            Ok((DVal::Char(((s[j + 1] as u32) % 256) as u8), j + 3))
        } else {
            Err(ErrV::GrammarError(j))
        }
    } else if s[j] == '"' {
        match find_char(s, j + 1, '"') {
            Some(q) => if j + 1 <= q && q < s.len() {
                Ok((DVal::Str(s.subrange(j + 1, q)), q + 1))
            } else {
                Err(ErrV::GrammarError(j))
            },
            None => Err(ErrV::GrammarError(j)),
        }
    } else if s[j] == '[' {
        match find_dotdot(s, j + 1) {
            Some(dd) => spec_range(s, j, dd),
            None => spec_array_items(s, j + 1, types, Seq::empty()),
        }
    } else if s[j] == '-' || is_digit(s[j]) {
        spec_number(s, j)
    } else if is_ident_start(s[j]) {
        let k = scan_ident(s, j);
        if !(j < k && k <= s.len()) {
            Err(ErrV::GrammarError(j))
        } else {
            let id = s.subrange(j, k);
            let m = skip_ws(s, k);
            let braced = k <= m && m < s.len() && s[m] == '{';
            if id == "Vec3"@ && braced {
                spec_vec3_fields(s, m + 1, spec_default_vec3())
            } else if id == "Color"@ && braced {
                spec_color_fields(s, m + 1, spec_default_color())
            } else if id == "Color"@ && k + 1 < s.len() && s[k] == ':' && s[k + 1] == ':' {
                spec_color_const(s, k + 2)
            } else if is_shape_name(id) && !braced {
                Ok((DVal::Shape(id), k))
            } else {
                match spec_component(s, i, types) {
                    Ok((comp, n)) => Ok((comp.value, n)),
                    Err(e) => Err(e),
                }
            }
        }
    } else {
        Err(ErrV::GrammarError(j))
    }
}

/// Parses a number starting exactly at `j`: an optional minus sign, digits,
/// and an optional fraction; with a fraction it is a float and its value is
/// its text, without one an integer within the 32-bit bounds.
pub open spec fn spec_number(s: Seq<char>, j: int) -> Result<(DVal, int), ErrV> {
    let d0 = if 0 <= j < s.len() && s[j] == '-' {
        j + 1
    } else {
        j
    };
    let k = scan_digits(s, d0);
    if !(d0 < k && k <= s.len()) {
        Err(ErrV::GrammarError(j))
    } else if k < s.len() && s[k] == '.' {
        let k2 = scan_digits(s, k + 1);
        if k + 1 <= k2 && k2 <= s.len() {
            Ok((DVal::Float(s.subrange(j, k2)), k2))
        } else {
            Err(ErrV::GrammarError(j))
        }
    } else {
        match spec_parse_i32(s.subrange(j, k)) {
            Some(v) => Ok((DVal::Int(v), k)),
            None => Err(ErrV::ValueParseError("i32"@, s.subrange(j, k))),
        }
    }
}

/// Parses a range whose `..` stands at `dd`, the opening bracket at `j`.
/// A bound that is not a well-formed 32-bit integer is a value-parse
/// failure naming that bound.
pub open spec fn spec_range(s: Seq<char>, j: int, dd: int) -> Result<(DVal, int), ErrV> {
    match find_char(s, dd + 2, ']') {
        Some(cl) => if j < dd && dd + 2 <= cl && cl < s.len() {
            let whole = s.subrange(j, cl + 1);
            match spec_parse_i32(s.subrange(j + 1, dd)) {
                Some(a) => match spec_parse_i32(s.subrange(dd + 2, cl)) {
                    Some(b) => Ok((DVal::Range(a, b), cl + 1)),
                    None => Err(ErrV::ValueParseError("range max"@, whole)),
                },
                None => Err(ErrV::ValueParseError("range min"@, whole)),
            }
        } else {
            Err(ErrV::GrammarError(j))
        },
        None => Err(ErrV::GrammarError(j)),
    }
}

/// Parses array elements after the opening bracket, commas between them.
pub open spec fn spec_array_items(
    s: Seq<char>,
    i: int,
    types: Map<Seq<char>, ReflectType>,
    acc: Seq<DVal>,
) -> Result<(DVal, int), ErrV>
    decreases s.len() - i, 6int,
{
    let j = skip_ws(s, i);
    if !(i <= j && j < s.len()) {
        Err(ErrV::GrammarError(j))
    } else if s[j] == ']' {
        Ok((DVal::List(acc), j + 1))
    } else if s[j] == ',' {
        spec_array_items(s, j + 1, types, acc)
    } else {
        match spec_value(s, j, types) {
            Ok((v, n)) => if i < n && n <= s.len() {
                spec_array_items(s, n, types, acc.push(v))
            } else {
                Err(ErrV::GrammarError(j))
            },
            Err(e) => Err(e),
        }
    }
}

/// Parses the named color constant after `Color::`.
pub open spec fn spec_color_const(s: Seq<char>, i: int) -> Result<(DVal, int), ErrV> {
    let j = skip_ws(s, i);
    let k = scan_ident(s, j);
    if !(i <= j && j < k && k <= s.len()) {
        Err(ErrV::GrammarError(j))
    } else {
        match spec_named_color(s.subrange(j, k)) {
            Some(c) => Ok((DVal::Color(c), k)),
            None => Err(ErrV::UnhandledValueRule(s.subrange(j, k))),
        }
    }
}

/// Parses `name: number` pairs inside a vector literal until the closing
/// brace.  The names `x`, `y` and `z` set the vector's components; other
/// names are ignored.
pub open spec fn spec_vec3_fields(s: Seq<char>, i: int, acc: V3View) -> Result<(DVal, int), ErrV>
    decreases s.len() - i,
{
    let j = skip_ws(s, i);
    if !(i <= j && j < s.len()) {
        Err(ErrV::GrammarError(j))
    } else if s[j] == '}' {
        Ok((DVal::Vec3(acc), j + 1))
    } else if s[j] == ',' {
        spec_vec3_fields(s, j + 1, acc)
    } else {
        match spec_num_field(s, j) {
            Ok((name, text, n)) => if j < n && n <= s.len() {
                let acc2 = if name == "x"@ {
                    V3View { x: text, ..acc }
                } else if name == "y"@ {
                    V3View { y: text, ..acc }
                } else if name == "z"@ {
                    V3View { z: text, ..acc }
                } else {
                    acc
                };
                spec_vec3_fields(s, n, acc2)
            } else {
                Err(ErrV::GrammarError(j))
            },
            Err(e) => Err(e),
        }
    }
}

/// Parses `name: number` pairs inside a color literal until the closing
/// brace.  The names `r`, `g`, `b` and `a` set the color's channels; other
/// names are ignored.
pub open spec fn spec_color_fields(s: Seq<char>, i: int, acc: ColorView) -> Result<
    (DVal, int),
    ErrV,
>
    decreases s.len() - i,
{
    let j = skip_ws(s, i);
    if !(i <= j && j < s.len()) {
        Err(ErrV::GrammarError(j))
    } else if s[j] == '}' {
        Ok((DVal::Color(acc), j + 1))
    } else if s[j] == ',' {
        spec_color_fields(s, j + 1, acc)
    } else {
        match spec_num_field(s, j) {
            Ok((name, text, n)) => if j < n && n <= s.len() {
                let acc2 = if name == "r"@ {
                    ColorView { r: text, ..acc }
                } else if name == "g"@ {
                    ColorView { g: text, ..acc }
                } else if name == "b"@ {
                    ColorView { b: text, ..acc }
                } else if name == "a"@ {
                    ColorView { a: text, ..acc }
                } else {
                    acc
                };
                spec_color_fields(s, n, acc2)
            } else {
                Err(ErrV::GrammarError(j))
            },
            Err(e) => Err(e),
        }
    }
}

/// Parses one `name: number` pair starting exactly at `j`: the field's
/// name, the number's text, and the position after it.
pub open spec fn spec_num_field(s: Seq<char>, j: int) -> Result<(Seq<char>, Seq<char>, int), ErrV> {
    let k = scan_ident(s, j);
    if !(j < k && k <= s.len()) {
        Err(ErrV::GrammarError(j))
    } else {
        let m = skip_ws(s, k);
        if !(k <= m && m < s.len() && s[m] == ':') {
            Err(ErrV::GrammarError(m))
        } else {
            let p = skip_ws(s, m + 1);
            if !(m < p && p < s.len()) {
                Err(ErrV::GrammarError(p))
            } else {
                match spec_number(s, p) {
                    Ok((v, n)) => match v {
                        DVal::Float(t) => Ok((s.subrange(j, k), t, n)),
                        DVal::Int(_) => Ok((s.subrange(j, k), s.subrange(p, n), n)),
                        _ => Err(ErrV::GrammarError(p)),
                    },
                    Err(e) => Err(e),
                }
            }
        }
    }
}

/// Resolves a parsed component: the type must be registered and its shape
/// one the value builder implements; the result is the built value.
pub open spec fn spec_resolve(
    name: Seq<char>,
    types: Map<Seq<char>, ReflectType>,
    fields: Seq<FieldV>,
    n: int,
) -> Result<(CompV, int), ErrV> {
    if !types.contains_key(name) {
        Err(ErrV::UnregisteredPrefabComponent(name))
    } else {
        match spec_build(types[name], fields) {
            Some(v) => Ok((CompV { ty_name: name, value: v }, n)),
            None => Err(ErrV::UnhandledValueRule(spec_reflect_name(types[name]))),
        }
    }
}

/// Parses a component starting at `i`: a registered type's name, an
/// optional braced body of fields and nested components, and the value
/// built against the type's shape.
pub open spec fn spec_component(
    s: Seq<char>,
    i: int,
    types: Map<Seq<char>, ReflectType>,
) -> Result<(CompV, int), ErrV>
    decreases s.len() - i, 1int,
{
    let j = skip_ws(s, i);
    if !(i <= j && j < s.len() && is_ident_start(s[j])) {
        Err(ErrV::GrammarError(j))
    } else {
        let k = scan_ident(s, j);
        if !(j < k && k <= s.len()) {
            Err(ErrV::GrammarError(j))
        } else {
            let name = s.subrange(j, k);
            let m = skip_ws(s, k);
            let body = if k <= m && m < s.len() && s[m] == '{' {
                spec_comp_items(s, m + 1, types, Seq::empty())
            } else {
                Ok((Seq::empty(), k))
            };
            match body {
                Ok((fields, n)) => spec_resolve(name, types, fields, n),
                Err(e) => Err(e),
            }
        }
    }
}

/// Parses the items of a component body after the opening brace: fields,
/// and nested components standing as fields named after their type.
pub open spec fn spec_comp_items(
    s: Seq<char>,
    i: int,
    types: Map<Seq<char>, ReflectType>,
    acc: Seq<FieldV>,
) -> Result<(Seq<FieldV>, int), ErrV>
    decreases s.len() - i, 6int,
{
    let j = skip_ws(s, i);
    if !(i <= j && j < s.len()) {
        Err(ErrV::GrammarError(j))
    } else if s[j] == '}' {
        Ok((acc, j + 1))
    } else if s[j] == ',' {
        spec_comp_items(s, j + 1, types, acc)
    } else if !is_ident_start(s[j]) {
        Err(ErrV::GrammarError(j))
    } else {
        let k = scan_ident(s, j);
        let m = skip_ws(s, k);
        let item = if k <= m && m < s.len() && s[m] == ':' {
            spec_field(s, j, types)
        } else {
            match spec_component(s, j, types) {
                Ok((comp, n)) => Ok(((comp.ty_name, comp.value), n)),
                Err(e) => Err(e),
            }
        };
        match item {
            Ok((f, n)) => if i < n && n <= s.len() {
                spec_comp_items(s, n, types, acc.push(f))
            } else {
                Err(ErrV::GrammarError(j))
            },
            Err(e) => Err(e),
        }
    }
}

/// Parses a field starting at `i`: an identifier, a colon, and a value.
pub open spec fn spec_field(s: Seq<char>, i: int, types: Map<Seq<char>, ReflectType>) -> Result<
    (FieldV, int),
    ErrV,
>
    decreases s.len() - i, 5int,
{
    let j = skip_ws(s, i);
    if !(i <= j && j < s.len() && is_ident_start(s[j])) {
        Err(ErrV::GrammarError(j))
    } else {
        let k = scan_ident(s, j);
        if !(j < k && k <= s.len()) {
            Err(ErrV::GrammarError(j))
        } else {
            let m = skip_ws(s, k);
            if !(k <= m && m < s.len() && s[m] == ':') {
                Err(ErrV::GrammarError(m))
            } else {
                match spec_value(s, m + 1, types) {
                    Ok((v, n)) => Ok(((s.subrange(j, k), v), n)),
                    Err(e) => Err(e),
                }
            }
        }
    }
}

/// Parses a command starting at `i`: an identifier, `!`, and a
/// parenthesized field list; with no fields the properties stay absent.
pub open spec fn spec_command(s: Seq<char>, i: int, types: Map<Seq<char>, ReflectType>) -> Result<
    (CmdV, int),
    ErrV,
>
    decreases s.len() - i, 2int,
{
    let j = skip_ws(s, i);
    if !(i <= j && j < s.len() && is_ident_start(s[j])) {
        Err(ErrV::GrammarError(j))
    } else {
        let k = scan_ident(s, j);
        if !(j < k && k <= s.len()) {
            Err(ErrV::GrammarError(j))
        } else {
            let m = skip_ws(s, k);
            if !(k <= m && m < s.len() && s[m] == '!') {
                Err(ErrV::GrammarError(m))
            } else {
                let p = skip_ws(s, m + 1);
                if !(m < p && p < s.len() && s[p] == '(') {
                    Err(ErrV::GrammarError(p))
                } else {
                    match spec_cmd_fields(s, p + 1, types, None) {
                        Ok((props, n)) => Ok(
                            (CmdV { name: s.subrange(j, k), properties: props }, n),
                        ),
                        Err(e) => Err(e),
                    }
                }
            }
        }
    }
}

/// Parses a command's fields after the opening parenthesis, commas between
/// them; each field is inserted into the properties record, the last write
/// to a name winning.
pub open spec fn spec_cmd_fields(
    s: Seq<char>,
    i: int,
    types: Map<Seq<char>, ReflectType>,
    acc: Option<Map<Seq<char>, DVal>>,
) -> Result<(Option<Map<Seq<char>, DVal>>, int), ErrV>
    decreases s.len() - i, 6int,
{
    let j = skip_ws(s, i);
    if !(i <= j && j < s.len()) {
        Err(ErrV::GrammarError(j))
    } else if s[j] == ')' {
        Ok((acc, j + 1))
    } else if s[j] == ',' {
        spec_cmd_fields(s, j + 1, types, acc)
    } else {
        match spec_field(s, j, types) {
            Ok(((name, v), n)) => if i < n && n <= s.len() {
                let m = match acc {
                    Some(m) => m,
                    None => Map::empty(),
                };
                spec_cmd_fields(s, n, types, Some(m.insert(name, v)))
            } else {
                Err(ErrV::GrammarError(j))
            },
            Err(e) => Err(e),
        }
    }
}

/// Parses the steps of a description after the opening brace: components
/// and commands, in source order, commas allowed between them.
pub open spec fn spec_steps(
    s: Seq<char>,
    i: int,
    types: Map<Seq<char>, ReflectType>,
    acc: Seq<StepV>,
) -> Result<(Seq<StepV>, int), ErrV>
    decreases s.len() - i, 6int,
{
    let j = skip_ws(s, i);
    if !(i <= j && j < s.len()) {
        Err(ErrV::GrammarError(j))
    } else if s[j] == '}' {
        Ok((acc, j + 1))
    } else if s[j] == ',' {
        spec_steps(s, j + 1, types, acc)
    } else if !is_ident_start(s[j]) {
        Err(ErrV::GrammarError(j))
    } else {
        let k = scan_ident(s, j);
        let m = skip_ws(s, k);
        let is_command = k <= m && m < s.len() && s[m] == '!';
        let step = if is_command {
            match spec_command(s, j, types) {
                Ok((cmd, n)) => Ok((StepV::RunCommand(cmd), n)),
                Err(e) => Err(e),
            }
        } else {
            match spec_component(s, j, types) {
                Ok((comp, n)) => Ok((StepV::AddComponent(comp), n)),
                Err(e) => Err(e),
            }
        };
        match step {
            Ok((st, n)) => if i < n && n <= s.len() {
                spec_steps(s, n, types, acc.push(st))
            } else {
                Err(ErrV::GrammarError(j))
            },
            Err(e) => Err(e),
        }
    }
}

/// Parses a whole description: an optional name, a braced step list, and
/// nothing but whitespace after it.
pub open spec fn spec_parse_prefab(s: Seq<char>, types: Map<Seq<char>, ReflectType>) -> Result<
    PrefabV,
    ErrV,
> {
    let j = skip_ws(s, 0);
    let named = 0 <= j && j < s.len() && is_ident_start(s[j]);
    let k = if named {
        scan_ident(s, j)
    } else {
        j
    };
    let name = if named {
        Some(s.subrange(j, k))
    } else {
        None
    };
    let m = skip_ws(s, k);
    if !(k <= m && m < s.len() && s[m] == '{') {
        Err(ErrV::GrammarError(m))
    } else {
        match spec_steps(s, m + 1, types, Seq::empty()) {
            Ok((steps, n)) => {
                let e = skip_ws(s, n);
                if e == s.len() {
                    Ok(PrefabV { name, steps })
                } else {
                    Err(ErrV::GrammarError(e))
                }
            },
            Err(e) => Err(e),
        }
    }
}

} // verus!

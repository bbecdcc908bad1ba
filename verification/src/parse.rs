//! The executable parser: recursive descent over a description's text,
//! proved to return exactly what the grammar's specification functions
//! denote.

use vstd::prelude::*;
use vstd::string::StrSliceExecFns;
use vstd::string::StringExecFns;

use crate::text::str_eq;

use crate::dynamic_value::DynamicStruct;
use crate::dynamic_value::DynamicValue;
use crate::dynamic_value::ReflectField;
use crate::dynamic_value::Vec3Value;
use crate::dynamic_value::ColorValue;
use crate::dynamic_value::value_view;
use crate::dynamic_value::values_view;
use crate::grammar::ErrV;
use crate::grammar::FieldV;
use crate::grammar::all_digits;
use crate::grammar::assoc_map;
use crate::grammar::digits_val;
use crate::grammar::field_vals;
use crate::grammar::find_char;
use crate::grammar::find_dotdot;
use crate::grammar::is_digit;
use crate::grammar::is_ident_char;
use crate::grammar::is_ident_start;
use crate::grammar::is_ws;
use crate::grammar::scan_digits;
use crate::grammar::scan_ident;
use crate::grammar::skip_ws;
use crate::grammar::spec_build;
use crate::grammar::spec_number;
use crate::grammar::spec_num_field;
use crate::grammar::spec_parse_i32;
use crate::grammar::spec_reflect_name;
use crate::grammar::is_shape_name;
use crate::grammar::spec_array_items;
use crate::grammar::spec_cmd_fields;
use crate::grammar::spec_color_const;
use crate::grammar::spec_color_fields;
use crate::grammar::spec_vec3_fields;
use crate::grammar::spec_command;
use crate::grammar::spec_comp_items;
use crate::grammar::spec_component;
use crate::grammar::spec_default_color;
use crate::grammar::spec_default_vec3;
use crate::grammar::spec_field;
use crate::grammar::spec_named_color;
use crate::grammar::spec_parse_prefab;
use crate::grammar::spec_range;
use crate::grammar::spec_resolve;
use crate::grammar::spec_steps;
use crate::grammar::spec_value;
use crate::dynamic_value::ColorView;
use crate::dynamic_value::DVal;
use crate::dynamic_value::V3View;
use crate::prefab::Prefab;
use crate::prefab::PrefabBuildStep;
use crate::prefab::PrefabCommandData;
use crate::prefab::PrefabComponent;
use crate::prefab::PrefabV;
use crate::prefab::StepV;
use crate::prefab::steps_view;
use crate::registry::PrefabRegistry;
use crate::registry::ReflectType;
use crate::registry::TypeInfo;
use std::sync::Arc;

verus! {

/// A failure to load or parse a description.  Every failure is returned to
/// the caller; a failed load leaves no cache entry behind.
#[derive(Debug)]
pub enum LoadPrefabError {
    /// The text does not match the grammar; carries the position where
    /// matching stopped.
    GrammarError(usize),
    /// A step form the semantic layer has no handler for.
    UnhandledPrefabFieldRule(String),
    /// A component body item form the semantic layer has no handler for.
    UnhandledPrefabComponentFieldRule(String),
    /// A component names a type that was never registered.
    UnregisteredPrefabComponent(String),
    /// A literal's text could not convert to its target form: the target's
    /// name and the offending source text.
    ValueParseError(String, String),
    /// A value form the semantic layer has no handler for, among them the
    /// shapes the value builder does not implement.
    UnhandledValueRule(String),
    /// The external source could not supply the description's text.
    FileReadError(String),
}

impl View for LoadPrefabError {
    type V = ErrV;

    open spec fn view(&self) -> ErrV {
        match self {
            LoadPrefabError::GrammarError(p) => ErrV::GrammarError(*p as int),
            LoadPrefabError::UnhandledPrefabFieldRule(s) => ErrV::UnhandledPrefabFieldRule(s@),
            LoadPrefabError::UnhandledPrefabComponentFieldRule(s) => {
                ErrV::UnhandledPrefabComponentFieldRule(s@)
            },
            LoadPrefabError::UnregisteredPrefabComponent(s) => {
                ErrV::UnregisteredPrefabComponent(s@)
            },
            LoadPrefabError::ValueParseError(t, s) => ErrV::ValueParseError(t@, s@),
            LoadPrefabError::UnhandledValueRule(s) => ErrV::UnhandledValueRule(s@),
            LoadPrefabError::FileReadError(s) => ErrV::FileReadError(s@),
        }
    }
}

/// The view of a parse result carrying a value and the position after it.
pub open spec fn res_view<T: View>(r: Result<(T, usize), LoadPrefabError>) -> Result<
    (T::V, int),
    ErrV,
> {
    match r {
        Ok((v, n)) => Ok((v@, n as int)),
        Err(e) => Err(e@),
    }
}

fn ws_char(c: char) -> (r: bool)
    ensures
        r == is_ws(c),
{
    c == ' ' || c == '\n' || c == '\t' || c == '\r'
}

fn digit_char(c: char) -> (r: bool)
    ensures
        r == is_digit(c),
{
    '0' <= c && c <= '9'
}

fn ident_start_char(c: char) -> (r: bool)
    ensures
        r == is_ident_start(c),
{
    ('a' <= c && c <= 'z') || ('A' <= c && c <= 'Z') || c == '_'
}

fn ident_char(c: char) -> (r: bool)
    ensures
        r == is_ident_char(c),
{
    ident_start_char(c) || digit_char(c)
}

fn exec_skip_ws(s: &str, i: usize) -> (r: usize)
    requires
        i <= s@.len(),
    ensures
        r as int == skip_ws(s@, i as int),
        i <= r <= s@.len(),
{
    let n = s.unicode_len();
    let mut j = i;
    while j < n && ws_char(s.get_char(j))
        invariant
            n == s@.len(),
            i <= j <= n,
            skip_ws(s@, i as int) == skip_ws(s@, j as int),
        decreases n - j,
    {
        proof {
            assert(skip_ws(s@, j as int) == skip_ws(s@, j + 1 as int));
        }
        j = j + 1;
    }
    j
}

fn exec_scan_ident(s: &str, i: usize) -> (r: usize)
    requires
        i <= s@.len(),
    ensures
        r as int == scan_ident(s@, i as int),
        i <= r <= s@.len(),
        (i < s@.len() && is_ident_char(s@[i as int])) ==> r > i,
{
    let n = s.unicode_len();
    let mut j = i;
    while j < n && ident_char(s.get_char(j))
        invariant
            n == s@.len(),
            i <= j <= n,
            scan_ident(s@, i as int) == scan_ident(s@, j as int),
            (i < s@.len() && is_ident_char(s@[i as int])) ==> j > i || (j == i && is_ident_char(
                s@[j as int],
            )),
        decreases n - j,
    {
        proof {
            assert(scan_ident(s@, j as int) == scan_ident(s@, j + 1 as int));
        }
        j = j + 1;
    }
    j
}

fn exec_scan_digits(s: &str, i: usize) -> (r: usize)
    requires
        i <= s@.len(),
    ensures
        r as int == scan_digits(s@, i as int),
        i <= r <= s@.len(),
        (i < s@.len() && is_digit(s@[i as int])) ==> r > i,
{
    let n = s.unicode_len();
    let mut j = i;
    while j < n && digit_char(s.get_char(j))
        invariant
            n == s@.len(),
            i <= j <= n,
            scan_digits(s@, i as int) == scan_digits(s@, j as int),
            (i < s@.len() && is_digit(s@[i as int])) ==> j > i || (j == i && is_digit(
                s@[j as int],
            )),
        decreases n - j,
    {
        proof {
            assert(scan_digits(s@, j as int) == scan_digits(s@, j + 1 as int));
        }
        j = j + 1;
    }
    j
}

fn exec_find_char(s: &str, i: usize, c: char) -> (r: Option<usize>)
    requires
        i <= s@.len(),
    ensures
        match r {
            Some(q) => find_char(s@, i as int, c) == Some(q as int) && i <= q < s@.len(),
            None => find_char(s@, i as int, c) == None::<int>,
        },
{
    let n = s.unicode_len();
    let mut j = i;
    while j < n
        invariant
            n == s@.len(),
            i <= j <= n,
            find_char(s@, i as int, c) == find_char(s@, j as int, c),
        decreases n - j,
    {
        if s.get_char(j) == c {
            return Some(j);
        }
        proof {
            assert(find_char(s@, j as int, c) == find_char(s@, j + 1 as int, c));
        }
        j = j + 1;
    }
    None
}

fn exec_find_dotdot(s: &str, i: usize) -> (r: Option<usize>)
    requires
        i <= s@.len(),
    ensures
        match r {
            Some(q) => find_dotdot(s@, i as int) == Some(q as int) && i <= q && q + 1 < s@.len(),
            None => find_dotdot(s@, i as int) == None::<int>,
        },
{
    let n = s.unicode_len();
    let mut j = i;
    while j < n
        invariant
            n == s@.len(),
            i <= j <= n,
            find_dotdot(s@, i as int) == find_dotdot(s@, j as int),
        decreases n - j,
    {
        let c = s.get_char(j);
        if c == '.' && j + 1 < n && s.get_char(j + 1) == '.' {
            return Some(j);
        }
        if c == ',' || c == ']' || c == '[' || c == '{' || c == '"' || c == '\'' {
            return None;
        }
        proof {
            assert(find_dotdot(s@, j as int) == find_dotdot(s@, j + 1 as int));
        }
        j = j + 1;
    }
    None
}

/// Converts the text between two positions to a signed 32-bit integer, as
/// the grammar defines integer literals.
fn exec_parse_i32(s: &str, a: usize, b: usize) -> (r: Option<i32>)
    requires
        a <= b <= s@.len(),
    ensures
        r == spec_parse_i32(s@.subrange(a as int, b as int)),
{
    let ghost text = s@.subrange(a as int, b as int);
    let neg = a < b && s.get_char(a) == '-';
    let d0: usize = if neg {
        a + 1
    } else {
        a
    };
    let ghost digits = s@.subrange(d0 as int, b as int);
    proof {
        if neg {
            assert(text.subrange(1, text.len() as int) =~= digits);
        } else {
            assert(text =~= digits);
        }
    }
    if d0 == b {
        return None;
    }
    let mut acc: u64 = 0;
    let mut idx = d0;
    while idx < b
        invariant
            a <= d0 <= idx <= b <= s@.len(),
            text == s@.subrange(a as int, b as int),
            digits == s@.subrange(d0 as int, b as int),
            neg == (a < b && s@[a as int] == '-'),
            d0 == if neg { a + 1 } else { a as int },
            neg ==> text.subrange(1, text.len() as int) == digits,
            !neg ==> text == digits,
            all_digits(s@.subrange(d0 as int, idx as int)),
            digits_val(s@.subrange(d0 as int, idx as int)) <= 0x8000_0000 ==> acc == digits_val(
                s@.subrange(d0 as int, idx as int),
            ),
            digits_val(s@.subrange(d0 as int, idx as int)) > 0x8000_0000 ==> acc == 0x8000_0001,
            acc <= 0x8000_0001,
        decreases b - idx,
    {
        let c = s.get_char(idx);
        if !digit_char(c) {
            proof {
                assert(digits[idx - d0] == c);
                assert(!all_digits(digits));
                if neg {
                    assert(text[0] == s@[a as int]);
                    assert(text[0] == '-');
                    assert(text.subrange(1, text.len() as int) == digits);
                    assert(spec_parse_i32(text) == None::<i32>);
                } else {
                    if text.len() > 0 {
                        assert(text[0] == s@[a as int]);
                        assert(text[0] != '-');
                    }
                    assert(spec_parse_i32(text) == None::<i32>);
                }
            }
            return None;
        }
        let d: u64 = (c as u32) as u64 - 48;
        let ghost pre = s@.subrange(d0 as int, idx as int);
        let ghost post = s@.subrange(d0 as int, idx + 1 as int);
        proof {
            assert(post.drop_last() =~= pre);
            assert(post.last() == c);
            assert(digits_val(post) == digits_val(pre) * 10 + (c as u32 - '0' as u32));
        }
        let mut next: u64 = acc * 10 + d;
        if next > 0x8000_0000 {
            next = 0x8000_0001;
        }
        acc = next;
        idx = idx + 1;
        proof {
            assert(all_digits(s@.subrange(d0 as int, idx as int)));
        }
    }
    proof {
        assert(s@.subrange(d0 as int, b as int) =~= digits);
    }
    if neg {
        if acc <= 0x8000_0000 {
            let v: i64 = 0 - (acc as i64);
            Some(v as i32)
        } else {
            None
        }
    } else {
        if acc <= 0x7FFF_FFFF {
            Some(acc as i32)
        } else {
            None
        }
    }
}

/// Parses a number starting exactly at `j`: an optional minus sign,
/// digits, and an optional fraction.
fn parse_number(s: &str, j: usize) -> (r: Result<(DynamicValue, usize), LoadPrefabError>)
    requires
        j <= s@.len(),
    ensures
        res_view(r) == spec_number(s@, j as int),
{
    let n = s.unicode_len();
    let d0: usize = if j < n && s.get_char(j) == '-' {
        j + 1
    } else {
        j
    };
    let k = exec_scan_digits(s, d0);
    if k == d0 {
        return Err(LoadPrefabError::GrammarError(j));
    }
    if k < n && s.get_char(k) == '.' {
        let k2 = exec_scan_digits(s, k + 1);
        let text = String::from_str(s.substring_char(j, k2));
        Ok((DynamicValue::Float(text), k2))
    } else {
        match exec_parse_i32(s, j, k) {
            Some(v) => Ok((DynamicValue::Int(v), k)),
            None => Err(
                LoadPrefabError::ValueParseError(
                    String::from_str("i32"),
                    String::from_str(s.substring_char(j, k)),
                ),
            ),
        }
    }
}

/// Parses one `name: number` pair starting exactly at `j`.
fn parse_num_field(s: &str, j: usize) -> (r: Result<(String, String, usize), LoadPrefabError>)
    requires
        j <= s@.len(),
    ensures
        match r {
            Ok((name, text, n)) => spec_num_field(s@, j as int) == Ok::<_, ErrV>(
                (name@, text@, n as int),
            ) && n <= s@.len(),
            Err(e) => spec_num_field(s@, j as int) == Err::<(Seq<char>, Seq<char>, int), _>(e@),
        },
{
    let len = s.unicode_len();
    let k = exec_scan_ident(s, j);
    if !(j < k) {
        return Err(LoadPrefabError::GrammarError(j));
    }
    let m = exec_skip_ws(s, k);
    if !(m < len && s.get_char(m) == ':') {
        return Err(LoadPrefabError::GrammarError(m));
    }
    let p = exec_skip_ws(s, m + 1);
    if !(p < len) {
        return Err(LoadPrefabError::GrammarError(p));
    }
    match parse_number(s, p) {
        Ok((v, n)) => {
            let name = String::from_str(s.substring_char(j, k));
            match v {
                DynamicValue::Float(t) => Ok((name, t, n)),
                DynamicValue::Int(_) => {
                    let text = String::from_str(s.substring_char(p, n));
                    Ok((name, text, n))
                },
                _ => Err(LoadPrefabError::GrammarError(p)),
            }
        },
        Err(e) => Err(e),
    }
}

/// The name of a shape category, as errors report it.
fn reflect_name(kind: ReflectType) -> (r: String)
    ensures
        r@ == spec_reflect_name(kind),
{
    match kind {
        ReflectType::Struct => String::from_str("Struct"),
        ReflectType::TupleStruct => String::from_str("TupleStruct"),
        ReflectType::Tuple => String::from_str("Tuple"),
        ReflectType::List => String::from_str("List"),
        ReflectType::Mapping => String::from_str("Map"),
        ReflectType::Value => String::from_str("Value"),
        ReflectType::Array => String::from_str("Array"),
        ReflectType::Enum => String::from_str("Enum"),
    }
}

/// The specification-level fields a list of parsed fields denotes, in
/// order.
pub open spec fn rf_views(fs: Seq<ReflectField>) -> Seq<FieldV>
    decreases fs,
{
    if fs.len() == 0 {
        Seq::empty()
    } else {
        rf_views(fs.drop_last()).push((fs.last().name@, value_view(fs.last().value)))
    }
}

/// Builds a value of the given type's shape from a list of parsed fields.
///
/// Named-field shapes take each field by name, the last write to a name
/// winning; positional shapes take the values in order and ignore the
/// names.  For the shapes the builder does not implement the result is
/// `None`: an explicit failure, never a partly-built value.
pub fn build_component(type_info: &TypeInfo, fields: Vec<ReflectField>) -> (r: Option<
    DynamicValue,
>)
    ensures
        match r {
            Some(v) => spec_build(type_info.reflect_type, rf_views(fields@)) == Some(v@),
            None => spec_build(type_info.reflect_type, rf_views(fields@)) == None::<
                crate::dynamic_value::DVal,
            >,
        },
{
    let mut fields = fields;
    let total = fields.len();
    let ghost all = fields@;
    match type_info.reflect_type {
        ReflectType::Struct => {
            let mut root = DynamicStruct::new();
            let ghost done: Seq<ReflectField> = Seq::empty();
            proof {
                assert(all.subrange(0, 0) =~= done);
                assert(root@ =~= assoc_map(rf_views(done)));
            }
            let mut taken: usize = 0;
            while fields.len() > 0
                invariant
                    root.wf(),
                    total == all.len(),
                    taken + fields@.len() == all.len(),
                    fields@ =~= all.subrange(taken as int, all.len() as int),
                    root@ == assoc_map(rf_views(all.subrange(0, taken as int))),
                decreases fields@.len(),
            {
                let f = fields.remove(0);
                let ghost pre = all.subrange(0, taken as int);
                let ghost post = all.subrange(0, taken + 1 as int);
                proof {
                    assert(all[taken as int] == f);
                    assert(post.drop_last() =~= pre);
                    assert(rf_views(post).drop_last() =~= rf_views(pre));
                    assert(rf_views(post) =~= rf_views(pre).push((f.name@, f.value@)));
                }
                root.insert_field(f);
                taken = taken + 1;
                proof {
                    assert(fields@ =~= all.subrange(taken as int, all.len() as int));
                }
            }
            proof {
                assert(all.subrange(0, all.len() as int) =~= all);
            }
            Some(DynamicValue::Struct(root))
        },
        ReflectType::TupleStruct | ReflectType::Tuple => {
            let tuple = type_info.reflect_type == ReflectType::Tuple;
            let mut vals: Vec<DynamicValue> = Vec::new();
            let mut taken: usize = 0;
            proof {
                assert(all.subrange(0, 0) =~= Seq::<ReflectField>::empty());
                assert(values_view(vals@) =~= field_vals(rf_views(all.subrange(0, 0))));
            }
            while fields.len() > 0
                invariant
                    total == all.len(),
                    taken + fields@.len() == all.len(),
                    fields@ =~= all.subrange(taken as int, all.len() as int),
                    values_view(vals@) == field_vals(rf_views(all.subrange(0, taken as int))),
                decreases fields@.len(),
            {
                let f = fields.remove(0);
                let ghost pre = all.subrange(0, taken as int);
                let ghost post = all.subrange(0, taken + 1 as int);
                proof {
                    assert(all[taken as int] == f);
                    assert(post.drop_last() =~= pre);
                    assert(rf_views(post).drop_last() =~= rf_views(pre));
                }
                let ghost vals0 = vals@;
                vals.push(f.value);
                taken = taken + 1;
                proof {
                    assert(vals@.drop_last() =~= vals0);
                    assert(values_view(vals@) =~= field_vals(rf_views(post)));
                    assert(fields@ =~= all.subrange(taken as int, all.len() as int));
                }
            }
            proof {
                assert(all.subrange(0, all.len() as int) =~= all);
            }
            if tuple {
                Some(DynamicValue::Tuple(vals))
            } else {
                Some(DynamicValue::TupleStruct(vals))
            }
        },
        _ => None,
    }
}

/// Strips the surrounding quote characters from a string literal's text,
/// verbatim: no escape processing happens.
pub fn parse_string(s: &str) -> (r: String)
    requires
        s@.len() >= 2,
    ensures
        r@ == s@.subrange(1, s@.len() - 1),
{
    let n = s.unicode_len();
    String::from_str(s.substring_char(1, n - 1))
}

/// Whether an identifier is one of the closed set of shape tags.
fn shape_name(id: &str) -> (r: bool)
    ensures
        r == is_shape_name(id@),
{
    str_eq(id, "Cube") || str_eq(id, "Plane") || str_eq(id, "Quad") || str_eq(id, "Sphere")
        || str_eq(id, "Capsule") || str_eq(id, "Torus")
}

/// The channels of a named color constant.
fn named_color(name: &str) -> (r: Option<ColorValue>)
    ensures
        match r {
            Some(c) => spec_named_color(name@) == Some(
                ColorView { r: c.r@, g: c.g@, b: c.b@, a: c.a@ },
            ),
            None => spec_named_color(name@) == None::<ColorView>,
        },
{
    if str_eq(name, "RED") {
        Some(color_value("1.0", "0.0", "0.0", "1.0"))
    } else if str_eq(name, "BLUE") {
        Some(color_value("0.0", "0.0", "1.0", "1.0"))
    } else if str_eq(name, "GREEN") {
        Some(color_value("0.0", "1.0", "0.0", "1.0"))
    } else if str_eq(name, "YELLOW") {
        Some(color_value("1.0", "1.0", "0.0", "1.0"))
    } else if str_eq(name, "PINK") {
        Some(color_value("1.0", "0.08", "0.58", "1.0"))
    } else {
        None
    }
}

fn color_value(r: &str, g: &str, b: &str, a: &str) -> (c: ColorValue)
    ensures
        c.r@ == r@ && c.g@ == g@ && c.b@ == b@ && c.a@ == a@,
{
    ColorValue {
        r: String::from_str(r),
        g: String::from_str(g),
        b: String::from_str(b),
        a: String::from_str(a),
    }
}

/// Parses a range whose `..` stands at `dd`, the opening bracket at `j`.
fn parse_range(s: &str, j: usize, dd: usize) -> (r: Result<(DynamicValue, usize), LoadPrefabError>)
    requires
        j <= s@.len(),
        dd + 2 <= s@.len(),
    ensures
        res_view(r) == spec_range(s@, j as int, dd as int),
{
    let n = s.unicode_len();
    match exec_find_char(s, dd + 2, ']') {
        Some(cl) => {
            if j < dd {
                match exec_parse_i32(s, j + 1, dd) {
                    Some(a) => match exec_parse_i32(s, dd + 2, cl) {
                        Some(b) => Ok((DynamicValue::Range(a, b), cl + 1)),
                        None => Err(
                            LoadPrefabError::ValueParseError(
                                String::from_str("range max"),
                                String::from_str(s.substring_char(j, cl + 1)),
                            ),
                        ),
                    },
                    None => Err(
                        LoadPrefabError::ValueParseError(
                            String::from_str("range min"),
                            String::from_str(s.substring_char(j, cl + 1)),
                        ),
                    ),
                }
            } else {
                Err(LoadPrefabError::GrammarError(j))
            }
        },
        None => Err(LoadPrefabError::GrammarError(j)),
    }
}

/// Parses the named color constant after `Color::`.
fn parse_color_const(s: &str, i: usize) -> (r: Result<(DynamicValue, usize), LoadPrefabError>)
    requires
        i <= s@.len(),
    ensures
        res_view(r) == spec_color_const(s@, i as int),
{
    let j = exec_skip_ws(s, i);
    let k = exec_scan_ident(s, j);
    if !(j < k) {
        return Err(LoadPrefabError::GrammarError(j));
    }
    let name = s.substring_char(j, k);
    match named_color(name) {
        Some(c) => Ok((DynamicValue::Color(c), k)),
        None => Err(LoadPrefabError::UnhandledValueRule(String::from_str(name))),
    }
}

/// Parses a vector literal's body after the opening brace.
#[verifier::loop_isolation(false)]
fn parse_vec3_body(s: &str, i: usize) -> (r: Result<(DynamicValue, usize), LoadPrefabError>)
    requires
        i <= s@.len(),
    ensures
        res_view(r) == spec_vec3_fields(s@, i as int, spec_default_vec3()),
{
    let n = s.unicode_len();
    let mut acc = Vec3Value {
        x: String::from_str("0.0"),
        y: String::from_str("0.0"),
        z: String::from_str("0.0"),
    };
    let mut cur = i;
    loop
        invariant
            n == s@.len(),
            i <= cur <= n,
            spec_vec3_fields(s@, i as int, spec_default_vec3()) == spec_vec3_fields(
                s@,
                cur as int,
                V3View { x: acc.x@, y: acc.y@, z: acc.z@ },
            ),
        decreases n - cur,
    {
        let j = exec_skip_ws(s, cur);
        if j >= n {
            return Err(LoadPrefabError::GrammarError(j));
        }
        let c = s.get_char(j);
        if c == '}' {
            return Ok((DynamicValue::Vec3(acc), j + 1));
        }
        if c == ',' {
            cur = j + 1;
            continue;
        }
        match parse_num_field(s, j) {
            Ok((name, text, n2)) => {
                if !(j < n2) {
                    return Err(LoadPrefabError::GrammarError(j));
                }
                if str_eq(name.as_str(), "x") {
                    acc.x = text;
                } else if str_eq(name.as_str(), "y") {
                    acc.y = text;
                } else if str_eq(name.as_str(), "z") {
                    acc.z = text;
                }
                cur = n2;
            },
            Err(e) => {
                return Err(e);
            },
        }
    }
}

/// Parses a color literal's body after the opening brace.
#[verifier::loop_isolation(false)]
fn parse_color_body(s: &str, i: usize) -> (r: Result<(DynamicValue, usize), LoadPrefabError>)
    requires
        i <= s@.len(),
    ensures
        res_view(r) == spec_color_fields(s@, i as int, spec_default_color()),
{
    let n = s.unicode_len();
    let mut acc = color_value("1.0", "1.0", "1.0", "1.0");
    let mut cur = i;
    loop
        invariant
            n == s@.len(),
            i <= cur <= n,
            spec_color_fields(s@, i as int, spec_default_color()) == spec_color_fields(
                s@,
                cur as int,
                ColorView { r: acc.r@, g: acc.g@, b: acc.b@, a: acc.a@ },
            ),
        decreases n - cur,
    {
        let j = exec_skip_ws(s, cur);
        if j >= n {
            return Err(LoadPrefabError::GrammarError(j));
        }
        let c = s.get_char(j);
        if c == '}' {
            return Ok((DynamicValue::Color(acc), j + 1));
        }
        if c == ',' {
            cur = j + 1;
            continue;
        }
        match parse_num_field(s, j) {
            Ok((name, text, n2)) => {
                if !(j < n2) {
                    return Err(LoadPrefabError::GrammarError(j));
                }
                if str_eq(name.as_str(), "r") {
                    acc.r = text;
                } else if str_eq(name.as_str(), "g") {
                    acc.g = text;
                } else if str_eq(name.as_str(), "b") {
                    acc.b = text;
                } else if str_eq(name.as_str(), "a") {
                    acc.a = text;
                }
                cur = n2;
            },
            Err(e) => {
                return Err(e);
            },
        }
    }
}

/// Parses a value starting at `i`, leading whitespace allowed.
#[verifier::loop_isolation(false)]
pub fn parse_value(s: &str, i: usize, registry: &PrefabRegistry) -> (r: Result<
    (DynamicValue, usize),
    LoadPrefabError,
>)
    requires
        registry.wf(),
        i <= s@.len(),
    ensures
        res_view(r) == spec_value(s@, i as int, registry.types()),
    decreases s@.len() - i, 4int,
{
    let n = s.unicode_len();
    let j = exec_skip_ws(s, i);
    if j >= n {
        return Err(LoadPrefabError::GrammarError(j));
    }
    let c = s.get_char(j);
    if c == '\'' {
        if n - j > 2 && s.get_char(j + 2) == '\'' {
            let ch = s.get_char(j + 1);
            let b: u8 = ((ch as u32) % 256) as u8;
            Ok((DynamicValue::Char(b), j + 3))
        } else {
            Err(LoadPrefabError::GrammarError(j))
        }
    } else if c == '"' {
        match exec_find_char(s, j + 1, '"') {
            Some(q) => {
                let text = String::from_str(s.substring_char(j + 1, q));
                Ok((DynamicValue::Str(text), q + 1))
            },
            None => Err(LoadPrefabError::GrammarError(j)),
        }
    } else if c == '[' {
        match exec_find_dotdot(s, j + 1) {
            Some(dd) => parse_range(s, j, dd),
            None => {
                let mut items: Vec<DynamicValue> = Vec::new();
                let mut cur = j + 1;
                loop
                    invariant
                        n == s@.len(),
                        registry.wf(),
                        i < cur <= n,
                        spec_array_items(
                            s@,
                            j + 1 as int,
                            registry.types(),
                            Seq::empty(),
                        ) == spec_array_items(
                            s@,
                            cur as int,
                            registry.types(),
                            values_view(items@),
                        ),
                    decreases n - cur,
                {
                    let j2 = exec_skip_ws(s, cur);
                    if j2 >= n {
                        return Err(LoadPrefabError::GrammarError(j2));
                    }
                    let c2 = s.get_char(j2);
                    if c2 == ']' {
                        return Ok((DynamicValue::List(items), j2 + 1));
                    }
                    if c2 == ',' {
                        cur = j2 + 1;
                        continue;
                    }
                    match parse_value(s, j2, registry) {
                        Ok((v, n2)) => {
                            if !(cur < n2 && n2 <= n) {
                                return Err(LoadPrefabError::GrammarError(j2));
                            }
                            let ghost items0 = items@;
                            items.push(v);
                            proof {
                                assert(items@.drop_last() =~= items0);
                                assert(values_view(items@) =~= values_view(items0).push(v@));
                            }
                            cur = n2;
                        },
                        Err(e) => {
                            return Err(e);
                        },
                    }
                }
            },
        }
    } else if c == '-' || digit_char(c) {
        parse_number(s, j)
    } else if ident_start_char(c) {
        let k = exec_scan_ident(s, j);
        let id = s.substring_char(j, k);
        let m = exec_skip_ws(s, k);
        let braced = m < n && s.get_char(m) == '{';
        if str_eq(id, "Vec3") && braced {
            parse_vec3_body(s, m + 1)
        } else if str_eq(id, "Color") && braced {
            parse_color_body(s, m + 1)
        } else if str_eq(id, "Color") && n - k > 1 && s.get_char(k) == ':' && s.get_char(k + 1)
            == ':' {
            parse_color_const(s, k + 2)
        } else if shape_name(id) && !braced {
            Ok((DynamicValue::Shape(String::from_str(id)), k))
        } else {
            match parse_component(s, i, registry) {
                Ok((comp, n2)) => Ok((comp.reflect, n2)),
                Err(e) => Err(e),
            }
        }
    } else {
        Err(LoadPrefabError::GrammarError(j))
    }
}

/// Resolves a parsed component against the registry: the type must be
/// registered, and its shape one the value builder implements.
fn resolve_component(
    name: &str,
    registry: &PrefabRegistry,
    fields: Vec<ReflectField>,
    nextpos: usize,
) -> (r: Result<(PrefabComponent, usize), LoadPrefabError>)
    requires
        registry.wf(),
    ensures
        res_view(r) == spec_resolve(name@, registry.types(), rf_views(fields@), nextpos as int),
{
    match registry.get_type_data(name) {
        None => Err(LoadPrefabError::UnregisteredPrefabComponent(String::from_str(name))),
        Some(info) => {
            match build_component(info, fields) {
                Some(v) => Ok(
                    (PrefabComponent { ty_name: String::from_str(name), reflect: v }, nextpos),
                ),
                None => Err(LoadPrefabError::UnhandledValueRule(reflect_name(info.reflect_type))),
            }
        },
    }
}

/// Parses a component starting at `i`: a registered type's name, an
/// optional braced body, and the value built against the type's shape.
#[verifier::loop_isolation(false)]
pub fn parse_component(s: &str, i: usize, registry: &PrefabRegistry) -> (r: Result<
    (PrefabComponent, usize),
    LoadPrefabError,
>)
    requires
        registry.wf(),
        i <= s@.len(),
    ensures
        res_view(r) == spec_component(s@, i as int, registry.types()),
    decreases s@.len() - i, 1int,
{
    let n = s.unicode_len();
    let j = exec_skip_ws(s, i);
    if !(j < n && ident_start_char(s.get_char(j))) {
        return Err(LoadPrefabError::GrammarError(j));
    }
    let k = exec_scan_ident(s, j);
    let name = s.substring_char(j, k);
    let m = exec_skip_ws(s, k);
    let mut fields: Vec<ReflectField> = Vec::new();
    if m < n && s.get_char(m) == '{' {
        let mut cur = m + 1;
        proof {
            assert(rf_views(fields@) =~= Seq::<FieldV>::empty());
        }
        loop
            invariant
                i < cur <= n,
                spec_comp_items(
                    s@,
                    m + 1 as int,
                    registry.types(),
                    Seq::empty(),
                ) == spec_comp_items(s@, cur as int, registry.types(), rf_views(fields@)),
            decreases n - cur,
        {
            let j2 = exec_skip_ws(s, cur);
            if j2 >= n {
                return Err(LoadPrefabError::GrammarError(j2));
            }
            let c2 = s.get_char(j2);
            if c2 == '}' {
                return resolve_component(name, registry, fields, j2 + 1);
            }
            if c2 == ',' {
                cur = j2 + 1;
                continue;
            }
            if !ident_start_char(c2) {
                return Err(LoadPrefabError::GrammarError(j2));
            }
            let k2 = exec_scan_ident(s, j2);
            let m2 = exec_skip_ws(s, k2);
            let item: Result<(ReflectField, usize), LoadPrefabError> = if m2 < n && s.get_char(m2)
                == ':' {
                parse_field(s, j2, registry)
            } else {
                match parse_component(s, j2, registry) {
                    Ok((comp, n2)) => Ok(
                        (ReflectField { name: comp.ty_name, value: comp.reflect }, n2),
                    ),
                    Err(e) => Err(e),
                }
            };
            match item {
                Ok((f, n2)) => {
                    if !(cur < n2 && n2 <= n) {
                        return Err(LoadPrefabError::GrammarError(j2));
                    }
                    let ghost fields0 = fields@;
                    fields.push(f);
                    proof {
                        assert(fields@.drop_last() =~= fields0);
                        assert(rf_views(fields@) =~= rf_views(fields0).push(
                            (f.name@, f.value@),
                        ));
                    }
                    cur = n2;
                },
                Err(e) => {
                    return Err(e);
                },
            }
        }
    } else {
        resolve_component(name, registry, fields, k)
    }
}

/// Parses a field starting at `i`: an identifier, a colon, and a value.
pub fn parse_field(s: &str, i: usize, registry: &PrefabRegistry) -> (r: Result<
    (ReflectField, usize),
    LoadPrefabError,
>)
    requires
        registry.wf(),
        i <= s@.len(),
    ensures
        res_view(r) == spec_field(s@, i as int, registry.types()),
    decreases s@.len() - i, 5int,
{
    let n = s.unicode_len();
    let j = exec_skip_ws(s, i);
    if !(j < n && ident_start_char(s.get_char(j))) {
        return Err(LoadPrefabError::GrammarError(j));
    }
    let k = exec_scan_ident(s, j);
    let m = exec_skip_ws(s, k);
    if !(m < n && s.get_char(m) == ':') {
        return Err(LoadPrefabError::GrammarError(m));
    }
    match parse_value(s, m + 1, registry) {
        Ok((v, n2)) => Ok((ReflectField { name: String::from_str(s.substring_char(j, k)), value: v }, n2)),
        Err(e) => Err(e),
    }
}

/// The properties record a command has collected so far.
pub open spec fn props_view(p: Option<DynamicStruct>) -> Option<Map<Seq<char>, DVal>> {
    match p {
        Some(ds) => Some(ds@),
        None => None,
    }
}

/// Parses a command starting at `i`: an identifier, `!`, and a
/// parenthesized field list.
#[verifier::loop_isolation(false)]
pub fn parse_command(s: &str, i: usize, registry: &PrefabRegistry) -> (r: Result<
    (PrefabCommandData, usize),
    LoadPrefabError,
>)
    requires
        registry.wf(),
        i <= s@.len(),
    ensures
        res_view(r) == spec_command(s@, i as int, registry.types()),
    decreases s@.len() - i, 2int,
{
    let n = s.unicode_len();
    let j = exec_skip_ws(s, i);
    if !(j < n && ident_start_char(s.get_char(j))) {
        return Err(LoadPrefabError::GrammarError(j));
    }
    let k = exec_scan_ident(s, j);
    let m = exec_skip_ws(s, k);
    if !(m < n && s.get_char(m) == '!') {
        return Err(LoadPrefabError::GrammarError(m));
    }
    let p = exec_skip_ws(s, m + 1);
    if !(p < n && s.get_char(p) == '(') {
        return Err(LoadPrefabError::GrammarError(p));
    }
    let mut props: Option<DynamicStruct> = None;
    let mut cur = p + 1;
    loop
        invariant
            n == s@.len(),
            registry.wf(),
            i < cur <= n,
            j < k <= n,
            scan_ident(s@, j as int) == k as int,
            skip_ws(s@, i as int) == j as int,
            match props {
                Some(ds) => ds.wf(),
                None => true,
            },
            spec_cmd_fields(s@, p + 1 as int, registry.types(), None) == spec_cmd_fields(
                s@,
                cur as int,
                registry.types(),
                props_view(props),
            ),
        decreases n - cur,
    {
        let j2 = exec_skip_ws(s, cur);
        if j2 >= n {
            return Err(LoadPrefabError::GrammarError(j2));
        }
        let c2 = s.get_char(j2);
        if c2 == ')' {
            let name = String::from_str(s.substring_char(j, k));
            return Ok((PrefabCommandData { name, properties: props }, j2 + 1));
        }
        if c2 == ',' {
            cur = j2 + 1;
            continue;
        }
        match parse_field(s, j2, registry) {
            Ok((f, n2)) => {
                if !(cur < n2 && n2 <= n) {
                    return Err(LoadPrefabError::GrammarError(j2));
                }
                let mut ds = match props {
                    None => DynamicStruct::new(),
                    Some(d) => d,
                };
                ds.insert_field(f);
                props = Some(ds);
                cur = n2;
            },
            Err(e) => {
                return Err(e);
            },
        }
    }
}

/// The view of a whole-description parse result.
pub open spec fn prefab_res_view(r: Result<Prefab, LoadPrefabError>) -> Result<PrefabV, ErrV> {
    match r {
        Ok(p) => Ok(p@),
        Err(e) => Err(e@),
    }
}

/// Parses a whole description: an optional name, a braced list of steps
/// (components and commands, in source order), and nothing but whitespace
/// after it.  A component step's type must be registered, and its shape
/// must be one the value builder implements.
#[verifier::loop_isolation(false)]
pub fn parse_prefab(s: &str, registry: &PrefabRegistry) -> (r: Result<Prefab, LoadPrefabError>)
    requires
        registry.wf(),
    ensures
        prefab_res_view(r) == spec_parse_prefab(s@, registry.types()),
{
    let n = s.unicode_len();
    let j = exec_skip_ws(s, 0);
    let named = j < n && ident_start_char(s.get_char(j));
    let k = if named {
        exec_scan_ident(s, j)
    } else {
        j
    };
    let name: Option<String> = if named {
        Some(String::from_str(s.substring_char(j, k)))
    } else {
        None
    };
    let m = exec_skip_ws(s, k);
    if !(m < n && s.get_char(m) == '{') {
        return Err(LoadPrefabError::GrammarError(m));
    }
    let mut steps: Vec<PrefabBuildStep> = Vec::new();
    let mut cur = m + 1;
    proof {
        assert(steps_view(steps@) =~= Seq::<StepV>::empty());
    }
    loop
        invariant
            m < cur <= n,
            spec_steps(s@, m + 1 as int, registry.types(), Seq::empty()) == spec_steps(
                s@,
                cur as int,
                registry.types(),
                steps_view(steps@),
            ),
        decreases n - cur,
    {
        let j2 = exec_skip_ws(s, cur);
        if j2 >= n {
            return Err(LoadPrefabError::GrammarError(j2));
        }
        let c2 = s.get_char(j2);
        if c2 == '}' {
            let e = exec_skip_ws(s, j2 + 1);
            if e == n {
                return Ok(Prefab { name, steps });
            } else {
                return Err(LoadPrefabError::GrammarError(e));
            }
        }
        if c2 == ',' {
            cur = j2 + 1;
            continue;
        }
        if !ident_start_char(c2) {
            return Err(LoadPrefabError::GrammarError(j2));
        }
        let k2 = exec_scan_ident(s, j2);
        let m2 = exec_skip_ws(s, k2);
        let is_command = m2 < n && s.get_char(m2) == '!';
        let step: Result<(PrefabBuildStep, usize), LoadPrefabError> = if is_command {
            match parse_command(s, j2, registry) {
                Ok((cmd, n2)) => Ok((PrefabBuildStep::RunCommand(Arc::new(cmd)), n2)),
                Err(e) => Err(e),
            }
        } else {
            match parse_component(s, j2, registry) {
                Ok((comp, n2)) => Ok((PrefabBuildStep::AddComponent(Arc::new(comp)), n2)),
                Err(e) => Err(e),
            }
        };
        match step {
            Ok((st, n2)) => {
                if !(cur < n2 && n2 <= n) {
                    return Err(LoadPrefabError::GrammarError(j2));
                }
                let ghost steps0 = steps@;
                let ghost stv = st@;
                steps.push(st);
                proof {
                    assert(steps_view(steps@) =~= steps_view(steps0).push(stv));
                }
                cur = n2;
            },
            Err(e) => {
                return Err(e);
            },
        }
    }
}

/// Parses a whole description from its source text.
pub fn parse_prefab_string(input: &str, registry: &PrefabRegistry) -> (r: Result<
    Prefab,
    LoadPrefabError,
>)
    requires
        registry.wf(),
    ensures
        prefab_res_view(r) == spec_parse_prefab(input@, registry.types()),
{
    parse_prefab(input, registry)
}

} // verus!

//! Laws of the value builder, stated and proved over the grammar's
//! specification functions.

use vstd::prelude::*;

use crate::dynamic_value::DVal;
use crate::grammar::ErrV;
use crate::grammar::FieldV;
use crate::grammar::assoc_map;
use crate::grammar::field_vals;
use crate::grammar::is_ident_start;
use crate::grammar::scan_ident;
use crate::grammar::skip_ws;
use crate::grammar::spec_build;
use crate::grammar::spec_command;
use crate::grammar::spec_component;
use crate::grammar::spec_resolve;
use crate::grammar::spec_steps;
use crate::prefab::CompV;
use crate::prefab::StepV;
use crate::registry::ReflectType;

verus! {

/// The position of the last field carrying the name, or a negative value
/// when no field does.
pub open spec fn last_field_index(fields: Seq<FieldV>, name: Seq<char>) -> int
    decreases fields.len(),
{
    if fields.len() == 0 {
        -1
    } else if fields.last().0 == name {
        fields.len() - 1
    } else {
        last_field_index(fields.drop_last(), name)
    }
}

/// Law: building against a named-field shape, a name holds a value exactly
/// when some field carries that name, and the value is the one of the last
/// field that does — a later write to a name wins over an earlier one.
pub proof fn lemma_named_fields_last_write(fields: Seq<FieldV>, name: Seq<char>)
    ensures
        spec_build(ReflectType::Struct, fields) == Some(DVal::Struct(assoc_map(fields))),
        assoc_map(fields).contains_key(name) <==> last_field_index(fields, name) >= 0,
        last_field_index(fields, name) >= 0 ==> {
            &&& last_field_index(fields, name) < fields.len()
            &&& fields[last_field_index(fields, name)].0 == name
            &&& assoc_map(fields)[name] == fields[last_field_index(fields, name)].1
        },
    decreases fields.len(),
{
    if fields.len() > 0 {
        lemma_named_fields_last_write(fields.drop_last(), name);
    }
}

/// Law: building against a positional shape keeps the supplied values in
/// the order they were given and ignores the supplied names.
pub proof fn lemma_positional_order_kept(fields: Seq<FieldV>)
    ensures
        spec_build(ReflectType::TupleStruct, fields) == Some(
            DVal::TupleStruct(field_vals(fields)),
        ),
        spec_build(ReflectType::Tuple, fields) == Some(DVal::Tuple(field_vals(fields))),
        field_vals(fields).len() == fields.len(),
        forall|i: int| 0 <= i < fields.len() ==> field_vals(fields)[i] == #[trigger] fields[i].1,
{
}


/// Law: a type name that was never registered fails closed.  Resolving a
/// component yields exactly the unregistered-type error when its name is
/// not in the type table, whatever fields were parsed; a registered name
/// never yields that error.
pub proof fn lemma_unknown_type_fails_closed(
    name: Seq<char>,
    types: Map<Seq<char>, ReflectType>,
    fields: Seq<FieldV>,
    n: int,
)
    ensures
        !types.contains_key(name) <==> spec_resolve(name, types, fields, n) == Err::<
            (CompV, int),
            ErrV,
        >(ErrV::UnregisteredPrefabComponent(name)),
{
}

/// Law: steps never reorder.  Whatever the step parser goes on to read,
/// the steps already parsed keep their places, in order, at the front of
/// the parsed sequence.
pub proof fn lemma_steps_keep_order(
    s: Seq<char>,
    i: int,
    types: Map<Seq<char>, ReflectType>,
    acc: Seq<StepV>,
)
    ensures
        spec_steps(s, i, types, acc) matches Ok((steps, n)) ==> steps.len() >= acc.len()
            && steps.subrange(0, acc.len() as int) == acc,
    decreases s.len() - i,
{
    let j = skip_ws(s, i);
    if i <= j && j < s.len() {
        if s[j] == '}' {
            assert(acc.subrange(0, acc.len() as int) =~= acc);
        } else if s[j] == ',' {
            lemma_steps_keep_order(s, j + 1, types, acc);
        } else if is_ident_start(s[j]) {
            let k = scan_ident(s, j);
            let m = skip_ws(s, k);
            let is_command = k <= m && m < s.len() && s[m] == '!';
            let step: Result<(StepV, int), ErrV> = if is_command {
                match spec_command(s, j, types) {
                    Ok((cmd, n)) => Ok((StepV::RunCommand(cmd), n)),
                    Err(e) => Err(e),
                }
            } else {
                match spec_component(s, j, types) {
                    Ok((comp, n)) => Ok((StepV::AddComponent(comp), n)),
                    Err(e) => Err(e),
                }
            };
            if let Ok((st, n)) = step {
                if i < n && n <= s.len() {
                    lemma_steps_keep_order(s, n, types, acc.push(st));
                    if let Ok((steps, end)) = spec_steps(s, n, types, acc.push(st)) {
                        assert(steps.subrange(0, (acc.len() + 1) as int) == acc.push(st));
                        assert forall|x: int| 0 <= x < acc.len() implies steps.subrange(
                            0,
                            acc.len() as int,
                        )[x] == acc[x] by {
                            assert(steps.subrange(0, (acc.len() + 1) as int)[x] == acc.push(
                                st,
                            )[x]);
                        }
                        assert(steps.subrange(0, acc.len() as int) =~= acc);
                    }
                }
            }
        }
    }
}

} // verus!

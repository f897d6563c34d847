//! The machine: a linear interpreter over a list of instructions, with a
//! namespace of values and one of types.

use vstd::prelude::*;
use crate::error::Error;
use crate::functions::{buildable, built, methods_view};
use crate::instructions::{Instruction, InstructionView};
use crate::methods::{method_of, signature_view};
use crate::namespace::{
    found, read_type, read_value, stored, write_type, write_value, Namespace, Typespace,
};
use crate::stdlib::{answers, values_view};
use crate::string::same_text;
use crate::types::{described, description, inferable, inferred};
use crate::value::{
    closure_view, copy_instructions, copy_type, copy_value, types_view, Builtin, FuncDef,
    FuncView, Method, MethodView, Routine, RoutineView, TypeDef, TypeView, Value, ValueView,
};

verus! {

/// One entry of the signature metadata: what a built-in method takes and returns.
#[derive(Debug)]
pub struct Signature {
    pub name: String,
    pub signature: Vec<String>,
    pub last: String,
    pub total: bool,
}

/// The mathematical content of a [`Signature`].
pub ghost struct SignatureView {
    pub name: Seq<char>,
    pub signature: Seq<Seq<char>>,
    pub last: Seq<char>,
    pub total: bool,
}

impl View for Signature {
    type V = SignatureView;

    open spec fn view(&self) -> SignatureView {
        SignatureView {
            name: self.name@,
            signature: self.signature.deep_view(),
            last: self.last@,
            total: self.total,
        }
    }
}

/// The content of the signature metadata: each method's identifier with its entry.
pub open spec fn table_view(table: Vec<(String, Signature)>) -> Seq<(Seq<char>, SignatureView)> {
    Seq::new(table.len() as nat, |i: int| (table[i].0@, table[i].1@))
}

/// The identifier of a routine in the signature metadata.
pub open spec fn key_of(routine: Builtin) -> Seq<char> {
    match routine {
        Builtin::TypeAny => "type_any"@,
        Builtin::TypeNone => "type_none"@,
        Builtin::TypeSome => "type_some"@,
        Builtin::TypeBoolean => "type_boolean"@,
        Builtin::TypeNumber => "type_number"@,
        Builtin::TypeInteger => "type_integer"@,
        Builtin::TypeString => "type_string"@,
        Builtin::TypeRange => "type_range"@,
        Builtin::ReturnNone => "return_none"@,
        Builtin::ReturnAny => "return_any"@,
        Builtin::UAdd => "u_add"@,
        Builtin::BAdd => "b_add"@,
        Builtin::USub => "u_sub"@,
        Builtin::BSub => "b_sub"@,
        Builtin::BMul => "b_mul"@,
        Builtin::BDiv => "b_div"@,
        Builtin::BExp => "b_exp"@,
        Builtin::BMdl => "b_mdl"@,
        Builtin::BEql => "b_eql"@,
        Builtin::BNql => "b_nql"@,
        Builtin::BLtn => "b_ltn"@,
        Builtin::BGtn => "b_gtn"@,
        Builtin::BLql => "b_lql"@,
        Builtin::BGql => "b_gql"@,
        Builtin::BSbsString => "b_sbs_string"@,
        Builtin::BSbsRange => "b_sbs_range"@,
        Builtin::ULnt => "u_lnt"@,
        Builtin::BLnd => "b_lnd"@,
        Builtin::BLor => "b_lor"@,
        Builtin::BLxr => "b_lxr"@,
    }
}

impl Builtin {
    /// The identifier of the routine in the signature metadata.
    pub fn key(&self) -> (out: String)
        ensures
            out@ == key_of(*self),
    {
        match self {
            Builtin::TypeAny => "type_any".to_owned(),
            Builtin::TypeNone => "type_none".to_owned(),
            Builtin::TypeSome => "type_some".to_owned(),
            Builtin::TypeBoolean => "type_boolean".to_owned(),
            Builtin::TypeNumber => "type_number".to_owned(),
            Builtin::TypeInteger => "type_integer".to_owned(),
            Builtin::TypeString => "type_string".to_owned(),
            Builtin::TypeRange => "type_range".to_owned(),
            Builtin::ReturnNone => "return_none".to_owned(),
            Builtin::ReturnAny => "return_any".to_owned(),
            Builtin::UAdd => "u_add".to_owned(),
            Builtin::BAdd => "b_add".to_owned(),
            Builtin::USub => "u_sub".to_owned(),
            Builtin::BSub => "b_sub".to_owned(),
            Builtin::BMul => "b_mul".to_owned(),
            Builtin::BDiv => "b_div".to_owned(),
            Builtin::BExp => "b_exp".to_owned(),
            Builtin::BMdl => "b_mdl".to_owned(),
            Builtin::BEql => "b_eql".to_owned(),
            Builtin::BNql => "b_nql".to_owned(),
            Builtin::BLtn => "b_ltn".to_owned(),
            Builtin::BGtn => "b_gtn".to_owned(),
            Builtin::BLql => "b_lql".to_owned(),
            Builtin::BGql => "b_gql".to_owned(),
            Builtin::BSbsString => "b_sbs_string".to_owned(),
            Builtin::BSbsRange => "b_sbs_range".to_owned(),
            Builtin::ULnt => "u_lnt".to_owned(),
            Builtin::BLnd => "b_lnd".to_owned(),
            Builtin::BLor => "b_lor".to_owned(),
            Builtin::BLxr => "b_lxr".to_owned(),
        }
    }
}

/// Whether every descriptor of an entry can be read.
pub open spec fn entry_described(entry: SignatureView) -> bool {
    described(entry.last) && forall|i: int|
        0 <= i < entry.signature.len() ==> described(#[trigger] entry.signature[i])
}

/// The ordered map that an entry gives a method of the function `name`:
/// the function's name with what the method returns, then each parameter,
/// named `_`, with its type.
pub open spec fn entry_signature(name: Seq<char>, entry: SignatureView) -> Seq<
    (Seq<char>, TypeView),
> {
    Seq::new(
        entry.signature.len() + 1,
        |i: int|
            if i == 0 {
                (name, description(entry.last))
            } else {
                ("_"@, description(entry.signature[i - 1]))
            },
    )
}

/// The method that the metadata gives a routine of the function `name`, if
/// it has an entry for it whose descriptors can be read.
pub open spec fn method_for(routine: Builtin, name: Seq<char>, table: Seq<
    (Seq<char>, SignatureView),
>) -> Option<MethodView> {
    match found(table, key_of(routine)) {
        Some(entry) => if entry_described(entry) {
            Some(method_of(RoutineView::Std(routine), entry_signature(name, entry)))
        } else {
            None
        },
        None => None,
    }
}

/// The methods that the metadata gives the routines of one function.
pub open spec fn methods_for(routines: Seq<Builtin>, name: Seq<char>, table: Seq<
    (Seq<char>, SignatureView),
>) -> Option<Seq<MethodView>>
    decreases routines.len(),
{
    if routines.len() == 0 {
        Some(Seq::empty())
    } else {
        match (methods_for(routines.drop_last(), name, table), method_for(
            routines.last(),
            name,
            table,
        )) {
            (Some(before), Some(method)) => Some(before.push(method)),
            _ => None,
        }
    }
}

/// The function of the given routines, if the metadata has them all and
/// the methods can be told apart.
pub open spec fn function_for(routines: Seq<Builtin>, name: Seq<char>, table: Seq<
    (Seq<char>, SignatureView),
>) -> Option<FuncView> {
    match methods_for(routines, name, table) {
        Some(methods) => if buildable(methods) {
            Some(built(methods))
        } else {
            None
        },
        None => None,
    }
}

/// The functions of the standard library, each with its routines.
pub open spec fn registry() -> Seq<(Seq<char>, Seq<Builtin>)> {
    seq![
        ("return"@, seq![Builtin::ReturnNone, Builtin::ReturnAny]),
        ("+"@, seq![Builtin::UAdd, Builtin::BAdd]),
        ("-"@, seq![Builtin::USub, Builtin::BSub]),
        ("*"@, seq![Builtin::BMul]),
        ("/"@, seq![Builtin::BDiv]),
        ("^"@, seq![Builtin::BExp]),
        ("%"@, seq![Builtin::BMdl]),
        ("="@, seq![Builtin::BEql]),
        ("!="@, seq![Builtin::BNql]),
        ("<"@, seq![Builtin::BLtn]),
        (">"@, seq![Builtin::BGtn]),
        ("<="@, seq![Builtin::BLql]),
        (">="@, seq![Builtin::BGql]),
        ("in"@, seq![Builtin::BSbsString, Builtin::BSbsRange]),
        ("not"@, seq![Builtin::ULnt]),
        ("and"@, seq![Builtin::BLnd]),
        ("or"@, seq![Builtin::BLor]),
        ("xor"@, seq![Builtin::BLxr]),
    ]
}

/// The namespace of the functions of the registry from `at` on.
pub open spec fn functions_from(
    listed: Seq<(Seq<char>, Seq<Builtin>)>,
    at: int,
    table: Seq<(Seq<char>, SignatureView)>,
) -> Option<Seq<(Seq<char>, ValueView)>>
    decreases listed.len() - at,
{
    if !(0 <= at < listed.len()) {
        Some(Seq::empty())
    } else {
        match (function_for(listed[at].1, listed[at].0, table), functions_from(
            listed,
            at + 1,
            table,
        )) {
            (Some(func), Some(rest)) => Some(
                seq![(listed[at].0, ValueView::Function(Box::new(func)))] + rest,
            ),
            _ => None,
        }
    }
}

/// The namespace of the standard types.
pub open spec fn standard_types() -> Seq<(Seq<char>, ValueView)> {
    seq![
        ("any"@, ValueView::Type(Box::new(TypeView::std_any()))),
        ("none"@, ValueView::Type(Box::new(TypeView::std_none()))),
        ("some"@, ValueView::Type(Box::new(TypeView::std_some()))),
        ("boolean"@, ValueView::Type(Box::new(TypeView::std_boolean()))),
        ("number"@, ValueView::Type(Box::new(TypeView::std_number()))),
        ("integer"@, ValueView::Type(Box::new(TypeView::std_integer()))),
        ("string"@, ValueView::Type(Box::new(TypeView::std_string()))),
        ("range"@, ValueView::Type(Box::new(TypeView::std_range()))),
    ]
}

/// The namespace of the standard library: the types, then the functions.
pub open spec fn standard_library(table: Seq<(Seq<char>, SignatureView)>) -> Option<
    Seq<(Seq<char>, ValueView)>,
> {
    match functions_from(registry(), 0, table) {
        Some(functions) => Some(standard_types() + functions),
        None => None,
    }
}

/// Whether every value of a namespace has a standard type.
pub open spec fn all_inferable(values: Seq<(Seq<char>, ValueView)>) -> bool {
    forall|i: int| 0 <= i < values.len() ==> inferable((#[trigger] values[i]).1)
}

/// The types of the values of a namespace.
pub open spec fn inferred_namespace(values: Seq<(Seq<char>, ValueView)>) -> Seq<
    (Seq<char>, TypeView),
> {
    Seq::new(values.len(), |i: int| (values[i].0, inferred(values[i].1)))
}

/// The namespace with each entry of `more` written into it, in order.
pub open spec fn extended(
    values: Seq<(Seq<char>, ValueView)>,
    more: Seq<(Seq<char>, ValueView)>,
) -> Seq<(Seq<char>, ValueView)>
    decreases more.len(),
{
    if more.len() == 0 {
        values
    } else {
        let before = extended(values, more.drop_last());
        stored(before, more.last().0, more.last().1)
    }
}

/// The entry of the metadata under an identifier.
fn find_entry<'a>(table: &'a Vec<(String, Signature)>, key: &str) -> (out: Option<&'a Signature>)
    ensures
        match out {
            Some(entry) => found(table_view(*table), key@) == Some(entry@),
            None => found(table_view(*table), key@) is None,
        },
{
    let ghost entries = table_view(*table);
    let mut at: usize = 0;
    while at < table.len()
        invariant
            at <= table.len(),
            entries == table_view(*table),
            crate::namespace::place_from(entries, key@, 0) == crate::namespace::place_from(
                entries,
                key@,
                at as int,
            ),
        decreases table.len() - at,
    {
        if same_text(table[at].0.as_str(), key) {
            return Some(&table[at].1);
        }
        at += 1;
    }
    None
}

/// The method that the metadata gives a routine of the function `name`.
fn read_method(routine: Builtin, name: &str, table: &Vec<(String, Signature)>) -> (out: Option<
    Method,
>)
    ensures
        match method_for(routine, name@, table_view(*table)) {
            Some(method) => out matches Some(made) && made@ == method && made@.wf(),
            None => out is None,
        },
{
    let key = routine.key();
    let entry = match find_entry(table, key.as_str()) {
        Some(entry) => entry,
        None => {
            return None;
        },
    };
    if !TypeDef::can_read(entry.last.as_str()) {
        return None;
    }
    let mut signature: Vec<(String, TypeDef)> = Vec::new();
    signature.push((name.to_owned(), TypeDef::read(entry.last.as_str())));
    let mut at: usize = 0;
    while at < entry.signature.len()
        invariant
            at <= entry.signature.len(),
            signature.len() == at + 1,
            found(table_view(*table), key_of(routine)) == Some(entry@),
            described(entry@.last),
            signature[0].0@ == name@,
            signature[0].1@ == description(entry@.last),
            forall|i: int| 0 <= i < at ==> described(#[trigger] entry@.signature[i]),
            forall|i: int|
                1 <= i <= at ==> (#[trigger] signature[i]).0@ == "_"@ && signature[i].1@
                    == description(entry@.signature[i - 1]),
        decreases entry.signature.len() - at,
    {
        let descriptor = entry.signature[at].as_str();
        assert(descriptor@ == entry@.signature[at as int]);
        if !TypeDef::can_read(descriptor) {
            return None;
        }
        signature.push(("_".to_owned(), TypeDef::read(descriptor)));
        at += 1;
    }
    assert(signature_view(signature) =~= entry_signature(name@, entry@));
    Some(Method::new_method_std(routine, signature))
}

/// The function of the given routines.
fn read_function(routines: &Vec<Builtin>, name: &str, table: &Vec<(String, Signature)>) -> (out:
    Option<FuncDef>)
    ensures
        match function_for(routines@, name@, table_view(*table)) {
            Some(func) => out matches Some(made) && made@ == func,
            None => out is None,
        },
{
    let ghost listed = routines@;
    let mut methods: Vec<Method> = Vec::new();
    let mut at: usize = 0;
    assert(listed.subrange(0, 0) =~= Seq::<Builtin>::empty());
    assert(methods_view(methods) =~= Seq::<MethodView>::empty());
    while at < routines.len()
        invariant
            at <= routines.len(),
            listed == routines@,
            methods_for(listed.subrange(0, at as int), name@, table_view(*table)) == Some(
                methods_view(methods),
            ),
        decreases routines.len() - at,
    {
        let ghost before = methods_view(methods);
        assert(listed.subrange(0, at + 1).drop_last() =~= listed.subrange(0, at as int));
        assert(listed.subrange(0, at + 1).last() == routines[at as int]);
        match read_method(routines[at], name, table) {
            Some(method) => {
                methods.push(method);
                assert(methods_view(methods) =~= before.push(method@));
            },
            None => {
                proof {
                    lemma_methods_for_prefix(listed, at + 1, name@, table_view(*table));
                }
                return None;
            },
        }
        at += 1;
    }
    assert(listed.subrange(0, at as int) =~= listed);
    FuncDef::try_new(methods)
}

/// Where the metadata lacks a method for some of the routines, it lacks one for all of them.
proof fn lemma_methods_for_prefix(
    routines: Seq<Builtin>,
    upto: int,
    name: Seq<char>,
    table: Seq<(Seq<char>, SignatureView)>,
)
    requires
        0 <= upto <= routines.len(),
        methods_for(routines.subrange(0, upto), name, table) is None,
    ensures
        methods_for(routines, name, table) is None,
    decreases routines.len() - upto,
{
    if upto < routines.len() {
        assert(routines.subrange(0, upto + 1).drop_last() =~= routines.subrange(0, upto));
        lemma_methods_for_prefix(routines, upto + 1, name, table);
    } else {
        assert(routines.subrange(0, upto) =~= routines);
    }
}

/// A list of one routine.
fn one(first: Builtin) -> (out: Vec<Builtin>)
    ensures
        out@ == seq![first],
{
    let mut out: Vec<Builtin> = Vec::new();
    out.push(first);
    assert(out@ =~= seq![first]);
    out
}

/// A list of two routines.
fn two(first: Builtin, second: Builtin) -> (out: Vec<Builtin>)
    ensures
        out@ == seq![first, second],
{
    let mut out: Vec<Builtin> = Vec::new();
    out.push(first);
    out.push(second);
    assert(out@ =~= seq![first, second]);
    out
}

/// The content of a list of functions with their routines.
pub open spec fn listed_view(listed: Vec<(String, Vec<Builtin>)>) -> Seq<
    (Seq<char>, Seq<Builtin>),
> {
    Seq::new(listed.len() as nat, |i: int| (listed[i].0@, listed[i].1@))
}

/// The functions of the standard library, each with its routines.
fn registered() -> (out: Vec<(String, Vec<Builtin>)>)
    ensures
        listed_view(out) == registry(),
{
    let mut out: Vec<(String, Vec<Builtin>)> = Vec::new();
    out.push(("return".to_owned(), two(Builtin::ReturnNone, Builtin::ReturnAny)));
    out.push(("+".to_owned(), two(Builtin::UAdd, Builtin::BAdd)));
    out.push(("-".to_owned(), two(Builtin::USub, Builtin::BSub)));
    out.push(("*".to_owned(), one(Builtin::BMul)));
    out.push(("/".to_owned(), one(Builtin::BDiv)));
    out.push(("^".to_owned(), one(Builtin::BExp)));
    out.push(("%".to_owned(), one(Builtin::BMdl)));
    out.push(("=".to_owned(), one(Builtin::BEql)));
    out.push(("!=".to_owned(), one(Builtin::BNql)));
    out.push(("<".to_owned(), one(Builtin::BLtn)));
    out.push((">".to_owned(), one(Builtin::BGtn)));
    out.push(("<=".to_owned(), one(Builtin::BLql)));
    out.push((">=".to_owned(), one(Builtin::BGql)));
    out.push(("in".to_owned(), two(Builtin::BSbsString, Builtin::BSbsRange)));
    out.push(("not".to_owned(), one(Builtin::ULnt)));
    out.push(("and".to_owned(), one(Builtin::BLnd)));
    out.push(("or".to_owned(), one(Builtin::BLor)));
    out.push(("xor".to_owned(), one(Builtin::BLxr)));
    assert(listed_view(out) =~= registry());
    out
}

impl FuncDef {
    /// The namespace of the standard functions, built from the signature
    /// metadata; none where the metadata lacks a method, holds a descriptor
    /// that cannot be read, or gives methods that cannot be told apart.
    pub fn stdlib(table: &Vec<(String, Signature)>) -> (out: Option<Namespace>)
        ensures
            match functions_from(registry(), 0, table_view(*table)) {
                Some(functions) => out matches Some(made) && closure_view(made) == functions,
                None => out is None,
            },
    {
        let listed = registered();
        let ghost all = registry();
        let ghost entries = table_view(*table);
        let mut out: Namespace = Vec::new();
        let mut at: usize = 0;
        assert(closure_view(out) =~= Seq::<(Seq<char>, ValueView)>::empty());
        while at < listed.len()
            invariant
                at <= listed.len(),
                all == registry(),
                entries == table_view(*table),
                listed_view(listed) == all,
                match functions_from(all, at as int, entries) {
                    Some(rest) => functions_from(all, 0, entries) == Some(closure_view(out) + rest),
                    None => functions_from(all, 0, entries) is None,
                },
            decreases listed.len() - at,
        {
            let ghost before = closure_view(out);
            assert(all[at as int] == (listed[at as int].0@, listed[at as int].1@));
            match read_function(&listed[at].1, listed[at].0.as_str(), table) {
                Some(func) => {
                    let ghost entry = (listed[at as int].0@, ValueView::Function(Box::new(func@)));
                    out.push((listed[at].0.clone(), Value::Function(Box::new(func))));
                    assert(closure_view(out) =~= before.push(entry));
                    proof {
                        if let Some(rest) = functions_from(all, at + 1, entries) {
                            assert(before.push(entry) + rest =~= before + (seq![entry] + rest));
                        }
                    }
                },
                None => {
                    return None;
                },
            }
            at += 1;
        }
        assert(closure_view(out) + Seq::<(Seq<char>, ValueView)>::empty() =~= closure_view(out));
        Some(out)
    }
}

impl TypeDef {
    /// The namespace of the standard types.
    pub fn stdlib() -> (out: Namespace)
        ensures
            closure_view(out) == standard_types(),
    {
        let mut out: Namespace = Vec::new();
        out.push(("any".to_owned(), Value::Type(Box::new(TypeDef::std_any()))));
        out.push(("none".to_owned(), Value::Type(Box::new(TypeDef::std_none()))));
        out.push(("some".to_owned(), Value::Type(Box::new(TypeDef::std_some()))));
        out.push(("boolean".to_owned(), Value::Type(Box::new(TypeDef::std_boolean()))));
        out.push(("number".to_owned(), Value::Type(Box::new(TypeDef::std_number()))));
        out.push(("integer".to_owned(), Value::Type(Box::new(TypeDef::std_integer()))));
        out.push(("string".to_owned(), Value::Type(Box::new(TypeDef::std_string()))));
        out.push(("range".to_owned(), Value::Type(Box::new(TypeDef::std_range()))));
        assert(closure_view(out) =~= standard_types());
        out
    }
}

/// Builds the standard library: the types and the functions.
pub fn stdlib(table: &Vec<(String, Signature)>) -> (out: Option<Namespace>)
    ensures
        match standard_library(table_view(*table)) {
            Some(library) => out matches Some(made) && closure_view(made) == library,
            None => out is None,
        },
{
    let mut namespace = TypeDef::stdlib();
    match FuncDef::stdlib(table) {
        Some(functions) => {
            let ghost first = closure_view(namespace);
            let ghost second = closure_view(functions);
            let mut functions = functions;
            namespace.append(&mut functions);
            assert(closure_view(namespace) =~= first + second);
            Some(namespace)
        },
        None => None,
    }
}

/// Builds the namespace of types from a namespace of values; none where a
/// value has no standard type.
pub fn infer_namespace(values: &Namespace) -> (out: Option<Typespace>)
    ensures
        (out is Some) == all_inferable(closure_view(*values)),
        out matches Some(types) ==> signature_view(types) == inferred_namespace(
            closure_view(*values),
        ),
{
    let ghost entries = closure_view(*values);
    let mut out: Typespace = Vec::new();
    let mut at: usize = 0;
    while at < values.len()
        invariant
            at <= values.len(),
            entries == closure_view(*values),
            out.len() == at,
            forall|i: int| 0 <= i < at ==> inferable((#[trigger] entries[i]).1),
            forall|i: int|
                0 <= i < at ==> (#[trigger] out[i]).0@ == entries[i].0 && out[i].1@ == inferred(
                    entries[i].1,
                ),
        decreases values.len() - at,
    {
        assert(entries[at as int].1 == values[at as int].1@);
        if !TypeDef::can_infer(&values[at].1) {
            return None;
        }
        out.push((values[at].0.clone(), TypeDef::infer(&values[at].1)));
        at += 1;
    }
    assert(signature_view(out) =~= inferred_namespace(entries));
    Some(out)
}

/// The state of a task.
pub ghost struct TaskView {
    pub instructions: Seq<InstructionView>,
    pub values: Seq<(Seq<char>, ValueView)>,
    pub types: Seq<(Seq<char>, TypeView)>,
    /// The types of the arguments of the current instruction.
    pub signature: Seq<TypeView>,
    /// The place of the next instruction; zero once the task has returned.
    pub path: nat,
    /// The current instruction.
    pub op: InstructionView,
}

/// The values in the registers `names`; none where one is missing.
pub open spec fn read_all(names: Seq<Seq<char>>, values: Seq<(Seq<char>, ValueView)>) -> Option<
    Seq<ValueView>,
>
    decreases names.len(),
{
    if names.len() == 0 {
        Some(Seq::empty())
    } else {
        match (read_all(names.drop_last(), values), found(values, names.last())) {
            (Some(before), Some(value)) => Some(before.push(value)),
            _ => None,
        }
    }
}

/// The types of the registers `names`; none where one is missing.
pub open spec fn describe_all(names: Seq<Seq<char>>, types: Seq<(Seq<char>, TypeView)>) -> Option<
    Seq<TypeView>,
>
    decreases names.len(),
{
    if names.len() == 0 {
        Some(Seq::empty())
    } else {
        match (describe_all(names.drop_last(), types), found(types, names.last())) {
            (Some(before), Some(typedef)) => Some(before.push(typedef)),
            _ => None,
        }
    }
}

/// Whether `own` holds every predicate of `of`.
pub open spec fn subtype(own: TypeView, of: TypeView) -> bool {
    forall|k: int| 0 <= k < of.types.len() ==> own.holds(#[trigger] of.types[k])
}

/// The task with the first `count` names bound to the arguments and their types.
pub open spec fn bound(
    task: TaskView,
    labels: Seq<Seq<char>>,
    args: Seq<ValueView>,
    count: nat,
) -> TaskView
    decreases count,
{
    if count == 0 {
        task
    } else {
        let before = bound(task, labels, args, (count - 1) as nat);
        TaskView {
            values: stored(before.values, labels[count - 1], args[count - 1]),
            types: stored(before.types, labels[count - 1], task.signature[count - 1]),
            ..before
        }
    }
}

/// Whether a routine ends the task.
pub open spec fn returning(routine: Builtin) -> bool {
    routine == Builtin::ReturnNone || routine == Builtin::ReturnAny
}

/// The task after a method has answered: the answer stands at the address,
/// under the type that the method returns, or under its own standard type
/// where the method leaves the type to be inferred. A return ends the task.
pub open spec fn written(
    task: TaskView,
    address: Seq<char>,
    method: MethodView,
    routine: Builtin,
    answer: ValueView,
) -> TaskView {
    TaskView {
        values: stored(task.values, address, answer),
        types: stored(
            task.types,
            address,
            if method.last.types.len() == 0 && inferable(answer) {
                inferred(answer)
            } else {
                method.last
            },
        ),
        path: if returning(routine) {
            0
        } else {
            task.path
        },
        ..task
    }
}

/// What a command comes to, given the answer of the routine it calls.
pub open spec fn commanded(
    task: TaskView,
    name: Seq<char>,
    address: Seq<char>,
    args: Seq<ValueView>,
    answer: ValueView,
) -> (TaskView, Option<ValueView>) {
    match found(task.values, name) {
        None => (task, Some(ValueView::Failure(Error::READ))),
        Some(ValueView::Function(func)) => match func.walk(task.signature) {
            None => (task, Some(ValueView::Failure(Error::DISP))),
            Some(method) => match method.routine {
                RoutineView::User(_) => (task, Some(ValueView::Failure(Error::IMPL))),
                RoutineView::Std(routine) => if answer is Failure {
                    (task, Some(answer))
                } else {
                    let done = written(task, address, method, routine, answer);
                    (
                        done,
                        if done.path == 0 {
                            Some(answer)
                        } else {
                            None
                        },
                    )
                },
            },
        },
        Some(_) => (task, Some(ValueView::Failure(Error::CALL))),
    }
}

/// What an internal comes to. `.bind` binds its labels to its arguments;
/// `.check` holds the type of its first argument against the type that is
/// its second, and hands the value on to its address; the machine has no
/// other internals.
pub open spec fn internal(
    task: TaskView,
    name: Seq<char>,
    address: Seq<char>,
    labels: Seq<Seq<char>>,
    args: Seq<ValueView>,
) -> (TaskView, Option<ValueView>) {
    if name == ".bind"@ {
        if labels.len() <= args.len() {
            (bound(task, labels, args, labels.len()), None)
        } else {
            (task, Some(ValueView::Failure(Error::TYPE)))
        }
    } else if name == ".check"@ {
        if args.len() == 2 && args[1] is Type && subtype(task.signature[0], *args[1]->Type_0) {
            (
                TaskView {
                    values: stored(task.values, address, args[0]),
                    types: stored(task.types, address, task.signature[0]),
                    ..task
                },
                None,
            )
        } else {
            (task, Some(ValueView::Failure(Error::TYPE)))
        }
    } else {
        (task, Some(ValueView::Failure(Error::IMPL)))
    }
}

/// The task after its next instruction, and the value that ends the run
/// where it ends, given the answer of the routine that a command calls.
/// Beyond the last instruction the run ends with `IMPL`; a label is passed
/// over; a missing argument ends the run with `READ`, a missing type of an
/// argument with `DESC`.
pub open spec fn moved(task: TaskView, answer: ValueView) -> (TaskView, Option<ValueView>) {
    if task.path >= task.instructions.len() {
        (task, Some(ValueView::Failure(Error::IMPL)))
    } else {
        let op = task.instructions[task.path as int];
        let at = TaskView { op, path: task.path + 1, ..task };
        match op {
            InstructionView::Label(_) => (at, None),
            InstructionView::Command { name, address, args, .. } => {
                match read_all(args, task.values) {
                    None => (at, Some(ValueView::Failure(Error::READ))),
                    Some(values) => match describe_all(args, task.types) {
                        None => (at, Some(ValueView::Failure(Error::DESC))),
                        Some(signature) => commanded(
                            TaskView { signature, ..at },
                            name,
                            address,
                            values,
                            answer,
                        ),
                    },
                }
            },
            InstructionView::Internal { name, address, args, labels, .. } => {
                match read_all(args, task.values) {
                    None => (at, Some(ValueView::Failure(Error::READ))),
                    Some(values) => match describe_all(args, task.types) {
                        None => (at, Some(ValueView::Failure(Error::DESC))),
                        Some(signature) => internal(
                            TaskView { signature, ..at },
                            name,
                            address,
                            labels,
                            values,
                        ),
                    },
                }
            },
        }
    }
}

/// The routine that the next instruction calls, with its arguments, where
/// it is a command that reaches a routine of the machine.
pub open spec fn called(task: TaskView) -> Option<(Builtin, Seq<ValueView>)> {
    if task.path >= task.instructions.len() {
        None
    } else {
        match task.instructions[task.path as int] {
            InstructionView::Command { name, args, .. } => match (
                read_all(args, task.values),
                describe_all(args, task.types),
                found(task.values, name),
            ) {
                (Some(values), Some(signature), Some(ValueView::Function(func))) => match func.walk(
                    signature,
                ) {
                    Some(method) => match method.routine {
                        RoutineView::Std(routine) => Some((routine, values)),
                        _ => None,
                    },
                    None => None,
                },
                _ => None,
            },
            _ => None,
        }
    }
}

/// Whether one step leads from `before` to `after` with the outcome `out`:
/// the routine that is called, if one is, gives an answer, and the task
/// moves as that answer has it.
pub open spec fn stepped(before: TaskView, after: TaskView, out: Option<ValueView>) -> bool {
    exists|answer: ValueView| #[trigger]
        moved(before, answer) == (after, out) && (called(before) matches Some(call) ==> answers(
            call.0,
            call.1,
            answer,
        ))
}

/// Whether `count` steps lead from `start` to `now` without ending the run.
pub open spec fn reached(start: TaskView, now: TaskView, count: nat) -> bool
    decreases count,
{
    if count == 0 {
        now == start
    } else {
        exists|before: TaskView| #[trigger]
            stepped(before, now, None) && reached(start, before, (count - 1) as nat)
    }
}

/// Whether some number of steps leads from `start` to `now` without ending the run.
pub open spec fn arrives(start: TaskView, now: TaskView) -> bool {
    exists|count: nat| #[trigger] reached(start, now, count)
}

/// Whether a run leads from `before` to `after` with the result `out`: a
/// task that has returned stays as it is, with no result; any other runs
/// step by step up to the step that ends the run, whose value is the result.
pub open spec fn finished(before: TaskView, after: TaskView, out: ValueView) -> bool {
    if before.path == 0 {
        after == before && out == ValueView::Nothing
    } else {
        exists|last: TaskView| #[trigger] stepped(last, after, Some(out)) && arrives(before, last)
    }
}

/// A task: a list of instructions, the namespaces of values and of types,
/// and the place of the next instruction.
#[derive(Debug)]
pub struct Task {
    instructions: Vec<Instruction>,
    values: Namespace,
    types: Typespace,
    signature: Vec<TypeDef>,
    pub path: usize,
    op: Instruction,
}

impl View for Task {
    type V = TaskView;

    closed spec fn view(&self) -> TaskView {
        TaskView {
            instructions: self.instructions.deep_view(),
            values: closure_view(self.values),
            types: signature_view(self.types),
            signature: types_view(self.signature),
            path: self.path as nat,
            op: self.op@,
        }
    }
}

/// The state in which a task begins, if it can: the standard library with
/// the given values written into it, the types inferred from the values,
/// and the next instruction the second, after the header label.
pub open spec fn begun(
    instructions: Seq<InstructionView>,
    values: Seq<(Seq<char>, ValueView)>,
    table: Seq<(Seq<char>, SignatureView)>,
) -> Option<TaskView> {
    match standard_library(table) {
        Some(library) => if instructions.len() > 0 && all_inferable(extended(library, values)) {
            Some(
                TaskView {
                    instructions,
                    values: extended(library, values),
                    types: inferred_namespace(extended(library, values)),
                    signature: Seq::empty(),
                    path: 1,
                    op: instructions[0],
                },
            )
        } else {
            None
        },
        None => None,
    }
}

impl Task {
    /// A task on the instructions, with the standard library built from the
    /// signature metadata and the given values written over it; none where
    /// there is no instruction, the library cannot be built, or a value has
    /// no standard type.
    pub fn new(
        instructions: &Vec<Instruction>,
        values: Namespace,
        table: &Vec<(String, Signature)>,
    ) -> (out: Option<Task>)
        ensures
            match begun(instructions.deep_view(), closure_view(values), table_view(*table)) {
                Some(state) => out matches Some(task) && task@ == state,
                None => out is None,
            },
    {
        let mut lib = match stdlib(table) {
            Some(lib) => lib,
            None => {
                return None;
            },
        };
        let ghost library = closure_view(lib);
        let ghost more = closure_view(values);
        let mut at: usize = 0;
        assert(more.subrange(0, 0) =~= Seq::<(Seq<char>, ValueView)>::empty());
        while at < values.len()
            invariant
                at <= values.len(),
                more == closure_view(values),
                closure_view(lib) == extended(library, more.subrange(0, at as int)),
            decreases values.len() - at,
        {
            assert(more.subrange(0, at + 1).drop_last() =~= more.subrange(0, at as int));
            assert(more.subrange(0, at + 1).last() == (values[at as int].0@, values[at as int].1@));
            write_value(&mut lib, values[at].0.as_str(), copy_value(&values[at].1));
            at += 1;
        }
        assert(more.subrange(0, at as int) =~= more);
        if instructions.len() == 0 {
            return None;
        }
        let types = match infer_namespace(&lib) {
            Some(types) => types,
            None => {
                return None;
            },
        };
        let signature: Vec<TypeDef> = Vec::new();
        assert(types_view(signature) =~= Seq::<TypeView>::empty());
        Some(
            Task {
                instructions: copy_instructions(instructions),
                values: lib,
                types,
                signature,
                path: 1,
                op: instructions[0].clone(),
            },
        )
    }

    /// Whether a value is anything: it is.
    pub fn type_any(&mut self, args: Vec<Value>) -> (out: Value)
        ensures
            answers(Builtin::TypeAny, values_view(args), out@),
            final(self)@ == old(self)@,
    {
        Builtin::TypeAny.apply(&args)
    }

    /// Whether the first argument is nothing.
    pub fn type_none(&mut self, args: Vec<Value>) -> (out: Value)
        ensures
            answers(Builtin::TypeNone, values_view(args), out@),
            final(self)@ == old(self)@,
    {
        Builtin::TypeNone.apply(&args)
    }

    /// Whether the first argument is something.
    pub fn type_some(&mut self, args: Vec<Value>) -> (out: Value)
        ensures
            answers(Builtin::TypeSome, values_view(args), out@),
            final(self)@ == old(self)@,
    {
        Builtin::TypeSome.apply(&args)
    }

    /// Whether the first argument is a boolean.
    pub fn type_boolean(&mut self, args: Vec<Value>) -> (out: Value)
        ensures
            answers(Builtin::TypeBoolean, values_view(args), out@),
            final(self)@ == old(self)@,
    {
        Builtin::TypeBoolean.apply(&args)
    }

    /// Whether the first argument is a number.
    pub fn type_number(&mut self, args: Vec<Value>) -> (out: Value)
        ensures
            answers(Builtin::TypeNumber, values_view(args), out@),
            final(self)@ == old(self)@,
    {
        Builtin::TypeNumber.apply(&args)
    }

    /// Whether the first argument is a whole number.
    pub fn type_integer(&mut self, args: Vec<Value>) -> (out: Value)
        ensures
            answers(Builtin::TypeInteger, values_view(args), out@),
            final(self)@ == old(self)@,
    {
        Builtin::TypeInteger.apply(&args)
    }

    /// Whether the first argument is a string.
    pub fn type_string(&mut self, args: Vec<Value>) -> (out: Value)
        ensures
            answers(Builtin::TypeString, values_view(args), out@),
            final(self)@ == old(self)@,
    {
        Builtin::TypeString.apply(&args)
    }

    /// Whether the first argument is a range.
    pub fn type_range(&mut self, args: Vec<Value>) -> (out: Value)
        ensures
            answers(Builtin::TypeRange, values_view(args), out@),
            final(self)@ == old(self)@,
    {
        Builtin::TypeRange.apply(&args)
    }

    /// The value in a register, if there is one.
    pub fn value(&self, name: &str) -> (out: Option<Value>)
        ensures
            out.deep_view() == found(self@.values, name@),
    {
        read_value(&self.values, name)
    }

    /// The type of a register, if it has one.
    pub fn kind(&self, name: &str) -> (out: Option<TypeDef>)
        ensures
            match out {
                Some(typedef) => found(self@.types, name@) == Some(typedef@),
                None => found(self@.types, name@) is None,
            },
    {
        read_type(&self.types, name)
    }

    /// The values in the registers `names`; none where one is missing.
    fn read(&self, names: &Vec<String>) -> (out: Option<Vec<Value>>)
        ensures
            match out {
                Some(values) => read_all(names.deep_view(), self@.values) == Some(
                    values_view(values),
                ),
                None => read_all(names.deep_view(), self@.values) is None,
            },
    {
        let ghost all = names.deep_view();
        let mut out: Vec<Value> = Vec::new();
        let mut at: usize = 0;
        assert(all.subrange(0, 0) =~= Seq::<Seq<char>>::empty());
        assert(values_view(out) =~= Seq::<ValueView>::empty());
        while at < names.len()
            invariant
                at <= names.len(),
                all == names.deep_view(),
                read_all(all.subrange(0, at as int), self@.values) == Some(values_view(out)),
            decreases names.len() - at,
        {
            let ghost before = values_view(out);
            assert(all.subrange(0, at + 1).drop_last() =~= all.subrange(0, at as int));
            assert(all.subrange(0, at + 1).last() == names[at as int]@);
            match read_value(&self.values, names[at].as_str()) {
                Some(value) => {
                    out.push(value);
                    assert(values_view(out) =~= before.push(value@));
                },
                None => {
                    proof {
                        lemma_read_all_prefix(all, at + 1, self@.values);
                    }
                    return None;
                },
            }
            at += 1;
        }
        assert(all.subrange(0, at as int) =~= all);
        Some(out)
    }

    /// The types of the registers `names`; none where one is missing.
    fn describe(&self, names: &Vec<String>) -> (out: Option<Vec<TypeDef>>)
        ensures
            match out {
                Some(types) => describe_all(names.deep_view(), self@.types) == Some(
                    types_view(types),
                ),
                None => describe_all(names.deep_view(), self@.types) is None,
            },
    {
        let ghost all = names.deep_view();
        let mut out: Vec<TypeDef> = Vec::new();
        let mut at: usize = 0;
        assert(all.subrange(0, 0) =~= Seq::<Seq<char>>::empty());
        assert(types_view(out) =~= Seq::<TypeView>::empty());
        while at < names.len()
            invariant
                at <= names.len(),
                all == names.deep_view(),
                describe_all(all.subrange(0, at as int), self@.types) == Some(types_view(out)),
            decreases names.len() - at,
        {
            let ghost before = types_view(out);
            assert(all.subrange(0, at + 1).drop_last() =~= all.subrange(0, at as int));
            assert(all.subrange(0, at + 1).last() == names[at as int]@);
            match read_type(&self.types, names[at].as_str()) {
                Some(typedef) => {
                    out.push(typedef);
                    assert(types_view(out) =~= before.push(typedef@));
                },
                None => {
                    proof {
                        lemma_describe_all_prefix(all, at + 1, self@.types);
                    }
                    return None;
                },
            }
            at += 1;
        }
        assert(all.subrange(0, at as int) =~= all);
        Some(out)
    }

    /// Writes a value and its type into a register.
    fn write(&mut self, address: &str, value: Value, typedef: TypeDef)
        ensures
            final(self)@ == (TaskView {
                values: stored(old(self)@.values, address@, value@),
                types: stored(old(self)@.types, address@, typedef@),
                ..old(self)@
            }),
    {
        write_value(&mut self.values, address, value);
        write_type(&mut self.types, address, typedef);
    }

    /// Binds the labels to the arguments and their types.
    fn intern_bind(&mut self, labels: &Vec<String>, args: &Vec<Value>)
        requires
            labels.len() <= args.len(),
            args.len() == old(self)@.signature.len(),
        ensures
            final(self)@ == bound(
                old(self)@,
                labels.deep_view(),
                values_view(*args),
                labels.len() as nat,
            ),
    {
        let ghost start = self@;
        let mut at: usize = 0;
        while at < labels.len()
            invariant
                at <= labels.len() <= args.len(),
                args.len() == start.signature.len(),
                self@.signature == start.signature,
                self@ == bound(start, labels.deep_view(), values_view(*args), at as nat),
            decreases labels.len() - at,
        {
            assert(start.signature[at as int] == self.signature[at as int]@);
            let typedef = copy_type(&self.signature[at]);
            self.write(labels[at].as_str(), copy_value(&args[at]), typedef);
            at += 1;
        }
    }

    /// Whether a type holds every predicate of another.
    fn is_subtype(own: &TypeDef, of: &TypeDef) -> (out: bool)
        ensures
            out == subtype(own@, of@),
    {
        let mut at: usize = 0;
        while at < of.types.len()
            invariant
                at <= of.types.len(),
                forall|k: int| 0 <= k < at ==> own@.holds(#[trigger] of@.types[k]),
            decreases of.types.len() - at,
        {
            if !own.check(&of.types[at]) {
                assert(!own@.holds(of@.types[at as int]));
                return false;
            }
            at += 1;
        }
        true
    }

    /// Runs an internal.
    fn run_internal(
        &mut self,
        name: &str,
        address: &str,
        labels: &Vec<String>,
        args: &Vec<Value>,
    ) -> (out: Option<Value>)
        requires
            args.len() == old(self)@.signature.len(),
        ensures
            (final(self)@, out.deep_view()) == internal(
                old(self)@,
                name@,
                address@,
                labels.deep_view(),
                values_view(*args),
            ),
    {
        let ghost seen = values_view(*args);
        assert(forall|i: int| 0 <= i < args.len() ==> seen[i] == args[i]@);
        if same_text(name, ".bind") {
            if labels.len() <= args.len() {
                self.intern_bind(labels, args);
                None
            } else {
                Some(Value::Failure(Error::TYPE))
            }
        } else if same_text(name, ".check") {
            if args.len() == 2 {
                assert(self@.signature[0] == self.signature[0]@);
                let fine = match &args[1] {
                    Value::Type(of) => Task::is_subtype(&self.signature[0], &**of),
                    _ => false,
                };
                if fine {
                    let typedef = copy_type(&self.signature[0]);
                    self.write(address, copy_value(&args[0]), typedef);
                    return None;
                }
            }
            Some(Value::Failure(Error::TYPE))
        } else {
            Some(Value::Failure(Error::IMPL))
        }
    }

    /// Runs a command: the function under `name` dispatches on the types
    /// of the arguments, and the method runs.
    fn run_command(&mut self, name: &str, address: &str, args: &Vec<Value>) -> (out: (
        Option<Value>,
        Ghost<ValueView>,
    ))
        ensures
            (final(self)@, out.0.deep_view()) == commanded(
                old(self)@,
                name@,
                address@,
                values_view(*args),
                out.1@,
            ),
            match found(old(self)@.values, name@) {
                Some(ValueView::Function(func)) => match func.walk(old(self)@.signature) {
                    Some(method) => method.routine matches RoutineView::Std(routine) ==> answers(
                        routine,
                        values_view(*args),
                        out.1@,
                    ),
                    None => true,
                },
                _ => true,
            },
    {
        let function = match read_value(&self.values, name) {
            Some(Value::Function(function)) => function,
            Some(_) => {
                return (Some(Value::Failure(Error::CALL)), Ghost(ValueView::Nothing));
            },
            None => {
                return (Some(Value::Failure(Error::READ)), Ghost(ValueView::Nothing));
            },
        };
        let method = match function.dispatch(&self.signature) {
            Ok(method) => method,
            Err(_) => {
                return (Some(Value::Failure(Error::DISP)), Ghost(ValueView::Nothing));
            },
        };
        let routine = match &method.routine {
            Routine::Std(routine) => *routine,
            Routine::User(_) => {
                return (Some(Value::Failure(Error::IMPL)), Ghost(ValueView::Nothing));
            },
        };
        let answer = routine.apply(args);
        let ghost shown = answer@;
        let failed = match &answer {
            Value::Failure(_) => true,
            _ => false,
        };
        if failed {
            return (Some(answer), Ghost(shown));
        }
        let typedef = if method.last.types.len() == 0 && TypeDef::can_infer(&answer) {
            TypeDef::infer(&answer)
        } else {
            copy_type(&method.last)
        };
        self.write(address, copy_value(&answer), typedef);
        let ended = match routine {
            Builtin::ReturnNone => true,
            Builtin::ReturnAny => true,
            _ => false,
        };
        if ended {
            self.path = 0;
            (Some(answer), Ghost(shown))
        } else if self.path == 0 {
            (Some(answer), Ghost(shown))
        } else {
            (None, Ghost(shown))
        }
    }

    /// Runs the next instruction. The result is the value that ends the
    /// run, where the run ends here: the returned value, or an error.
    pub fn step(&mut self) -> (out: Option<Value>)
        ensures
            stepped(old(self)@, final(self)@, out.deep_view()),
            final(self)@.instructions == old(self)@.instructions,
            out is None ==> final(self)@.path == old(self)@.path + 1,
            out is None ==> old(self)@.path < old(self)@.instructions.len(),
            out matches Some(value) ==> value@ is Failure || final(self)@.path == 0,
    {
        let ghost before = self@;
        if self.path >= self.instructions.len() {
            let out = Some(Value::Failure(Error::IMPL));
            assert(moved(before, ValueView::Nothing) == (self@, out.deep_view()));
            return out;
        }
        self.op = self.instructions[self.path].clone();
        self.path = self.path + 1;
        let op = self.op.clone();
        let ghost at = self@;
        match op {
            Instruction::Label(_) => {
                assert(moved(before, ValueView::Nothing) == (self@, None::<ValueView>));
                None
            },
            Instruction::Command { name, address, args, .. } => {
                let values = match self.read(&args) {
                    Some(values) => values,
                    None => {
                        let out = Some(Value::Failure(Error::READ));
                        assert(moved(before, ValueView::Nothing) == (self@, out.deep_view()));
                        return out;
                    },
                };
                let signature = match self.describe(&args) {
                    Some(signature) => signature,
                    None => {
                        let out = Some(Value::Failure(Error::DESC));
                        assert(moved(before, ValueView::Nothing) == (self@, out.deep_view()));
                        return out;
                    },
                };
                self.signature = signature;
                let (out, Ghost(answer)) = self.run_command(
                    name.as_str(),
                    address.as_str(),
                    &values,
                );
                assert(moved(before, answer) == (self@, out.deep_view()));
                out
            },
            Instruction::Internal { name, address, args, labels, .. } => {
                let values = match self.read(&args) {
                    Some(values) => values,
                    None => {
                        let out = Some(Value::Failure(Error::READ));
                        assert(moved(before, ValueView::Nothing) == (self@, out.deep_view()));
                        return out;
                    },
                };
                let signature = match self.describe(&args) {
                    Some(signature) => signature,
                    None => {
                        let out = Some(Value::Failure(Error::DESC));
                        assert(moved(before, ValueView::Nothing) == (self@, out.deep_view()));
                        return out;
                    },
                };
                proof {
                    lemma_all_len(args.deep_view(), at.values, at.types);
                }
                self.signature = signature;
                let ghost now = self@;
                let out = self.run_internal(name.as_str(), address.as_str(), &labels, &values);
                proof {
                    lemma_bound_frame(
                        now,
                        labels.deep_view(),
                        values_view(values),
                        labels.len() as nat,
                    );
                }
                assert(moved(before, ValueView::Nothing) == (self@, out.deep_view()));
                out
            },
        }
    }

    /// Runs the task to its end. The result is the returned value, or the
    /// error that ended the run.
    pub fn run(&mut self) -> (out: Value)
        ensures
            finished(old(self)@, final(self)@, out@),
            out@ is Failure || final(self)@.path == 0,
            final(self)@.instructions == old(self)@.instructions,
    {
        let ghost start = self@;
        let ghost mut count: nat = 0;
        while self.path != 0
            invariant
                self@.instructions == start.instructions,
                start == old(self)@,
                reached(start, self@, count),
                count > 0 ==> self@.path != 0 && start.path != 0,
            decreases self@.instructions.len() + 1 - self@.path,
        {
            let ghost before = self@;
            match self.step() {
                Some(out) => {
                    assert(arrives(start, before) && stepped(before, self@, Some(out@)));
                    return out;
                },
                None => {
                    proof {
                        lemma_reached_more(start, before, self@, count);
                        count = count + 1;
                    }
                },
            }
        }
        Value::Nothing
    }
}

/// One more step that does not end the run reaches one step further.
proof fn lemma_reached_more(start: TaskView, before: TaskView, now: TaskView, count: nat)
    requires
        reached(start, before, count),
        stepped(before, now, None),
    ensures
        reached(start, now, count + 1),
{
    assert((count + 1 - 1) as nat == count);
    assert(stepped(before, now, None) && reached(start, before, (count + 1 - 1) as nat));
}

/// Binding changes nothing but the two namespaces.
proof fn lemma_bound_frame(task: TaskView, labels: Seq<Seq<char>>, args: Seq<ValueView>, count: nat)
    ensures
        bound(task, labels, args, count).path == task.path,
        bound(task, labels, args, count).instructions == task.instructions,
        bound(task, labels, args, count).signature == task.signature,
        bound(task, labels, args, count).op == task.op,
    decreases count,
{
    if count > 0 {
        lemma_bound_frame(task, labels, args, (count - 1) as nat);
    }
}

/// The values of some registers are there only if those of each beginning are.
proof fn lemma_read_all_prefix(
    names: Seq<Seq<char>>,
    upto: int,
    values: Seq<(Seq<char>, ValueView)>,
)
    requires
        0 <= upto <= names.len(),
        read_all(names.subrange(0, upto), values) is None,
    ensures
        read_all(names, values) is None,
    decreases names.len() - upto,
{
    if upto < names.len() {
        assert(names.subrange(0, upto + 1).drop_last() =~= names.subrange(0, upto));
        lemma_read_all_prefix(names, upto + 1, values);
    } else {
        assert(names.subrange(0, upto) =~= names);
    }
}

/// The types of some registers are there only if those of each beginning are.
proof fn lemma_describe_all_prefix(
    names: Seq<Seq<char>>,
    upto: int,
    types: Seq<(Seq<char>, TypeView)>,
)
    requires
        0 <= upto <= names.len(),
        describe_all(names.subrange(0, upto), types) is None,
    ensures
        describe_all(names, types) is None,
    decreases names.len() - upto,
{
    if upto < names.len() {
        assert(names.subrange(0, upto + 1).drop_last() =~= names.subrange(0, upto));
        lemma_describe_all_prefix(names, upto + 1, types);
    } else {
        assert(names.subrange(0, upto) =~= names);
    }
}

/// There are as many values and types as registers.
proof fn lemma_all_len(
    names: Seq<Seq<char>>,
    values: Seq<(Seq<char>, ValueView)>,
    types: Seq<(Seq<char>, TypeView)>,
)
    ensures
        read_all(names, values) matches Some(found) ==> found.len() == names.len(),
        describe_all(names, types) matches Some(found) ==> found.len() == names.len(),
    decreases names.len(),
{
    if names.len() > 0 {
        lemma_all_len(names.drop_last(), values, types);
    }
}

} // verus!

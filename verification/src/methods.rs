//! Methods: the arms of a multimethod.

use vstd::prelude::*;
use crate::instructions::Instruction;
use crate::value::{
    closure_view, copy_type, type_view, types_view, Builtin, Method, MethodView, Routine,
    RoutineView, TypeDef, TypeView, Value, ValueView,
};

verus! {

/// The content of an ordered map from names to types.
pub open spec fn signature_view(signature: Vec<(String, TypeDef)>) -> Seq<(Seq<char>, TypeView)> {
    Seq::new(
        signature.len() as nat,
        |i: int| (signature[i].0@, type_view(signature[i].1)),
    )
}

/// The method that an ordered map describes: its first entry gives the
/// method's name and what it returns, each further entry a parameter's name
/// and type.
pub open spec fn method_of(routine: RoutineView, signature: Seq<(Seq<char>, TypeView)>)
    -> MethodView
    recommends
        signature.len() > 0,
{
    MethodView {
        routine,
        name: signature[0].0,
        params: Seq::new((signature.len() - 1) as nat, |i: int| signature[i + 1].0),
        last: signature[0].1,
        signature: Seq::new((signature.len() - 1) as nat, |i: int| signature[i + 1].1),
        arity: (signature.len() - 1) as nat,
        closure: Seq::empty(),
    }
}

impl MethodView {
    /// The arity is the number of parameter types.
    pub open spec fn wf(self) -> bool {
        self.arity == self.signature.len()
    }

    /// Whether the method applies to the types of the arguments: as many
    /// arguments as parameters, and each argument's type holds every
    /// predicate of its parameter's type.
    pub open spec fn applies(self, signature: Seq<TypeView>) -> bool {
        &&& signature.len() == self.arity
        &&& forall|i: int, k: int|
            0 <= i < self.signature.len() && 0 <= k < self.signature[i].types.len() ==> (
            #[trigger] signature[i].holds(self.signature[i].types[k]))
    }
}

/// Builds the parts of a method that the ordered map gives.
fn method_parts(signature: &Vec<(String, TypeDef)>) -> (out: (Vec<String>, Vec<TypeDef>))
    requires
        signature.len() > 0,
    ensures
        out.0.deep_view() == method_of(
            RoutineView::Std(Builtin::TypeAny),
            signature_view(*signature),
        ).params,
        types_view(out.1) == method_of(
            RoutineView::Std(Builtin::TypeAny),
            signature_view(*signature),
        ).signature,
        out.1.len() == signature.len() - 1,
{
    let mut params: Vec<String> = Vec::new();
    let mut types: Vec<TypeDef> = Vec::new();
    let mut at: usize = 1;
    while at < signature.len()
        invariant
            1 <= at <= signature.len(),
            params.len() == at - 1,
            types.len() == at - 1,
            forall|i: int| 0 <= i < at - 1 ==> params[i]@ == signature[i + 1].0@,
            forall|i: int| 0 <= i < at - 1 ==> types[i]@ == signature[i + 1].1@,
        decreases signature.len() - at,
    {
        params.push(signature[at].0.clone());
        types.push(copy_type(&signature[at].1));
        at += 1;
    }
    assert(params.deep_view() =~= method_of(
        RoutineView::Std(Builtin::TypeAny),
        signature_view(*signature),
    ).params);
    assert(types_view(types) =~= method_of(
        RoutineView::Std(Builtin::TypeAny),
        signature_view(*signature),
    ).signature);
    (params, types)
}

impl Method {
    /// A method that a built-in routine runs.
    pub fn new_method_std(routine: Builtin, signature: Vec<(String, TypeDef)>) -> (out: Method)
        requires
            signature.len() > 0,
        ensures
            out@ == method_of(RoutineView::Std(routine), signature_view(signature)),
            out@.wf(),
    {
        let (params, types) = method_parts(&signature);
        let closure: Vec<(String, Value)> = Vec::new();
        assert(closure_view(closure) =~= Seq::<(Seq<char>, ValueView)>::empty());
        Method {
            routine: Routine::Std(routine),
            name: signature[0].0.clone(),
            params,
            last: copy_type(&signature[0].1),
            arity: signature.len() - 1,
            signature: types,
            closure,
        }
    }

    /// A method whose body is a list of instructions.
    pub fn new_method_user(
        instructions: Vec<Instruction>,
        signature: Vec<(String, TypeDef)>,
    ) -> (out: Method)
        requires
            signature.len() > 0,
        ensures
            out@ == method_of(
                RoutineView::User(instructions.deep_view()),
                signature_view(signature),
            ),
            out@.wf(),
    {
        let (params, types) = method_parts(&signature);
        let closure: Vec<(String, Value)> = Vec::new();
        assert(closure_view(closure) =~= Seq::<(Seq<char>, ValueView)>::empty());
        Method {
            routine: Routine::User(instructions),
            name: signature[0].0.clone(),
            params,
            last: copy_type(&signature[0].1),
            arity: signature.len() - 1,
            signature: types,
            closure,
        }
    }
}

} // verus!

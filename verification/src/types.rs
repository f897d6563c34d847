//! The type lattice: structural types as ordered lists of predicates.
//!
//! A type is a subtype of another when it holds every predicate of the
//! other; supertypes are prefixes.

use vstd::prelude::*;
use crate::number::{Number, NumberView};
use crate::string::same_text;
use crate::value::{
    copy_predicates, copy_value, same_predicate, Builtin, Predicate, PredicateView, Shape,
    TypeDef, TypeView, Value, ValueView,
};

verus! {

/// The content of a base predicate of the given name.
pub open spec fn base(name: Seq<char>) -> PredicateView {
    PredicateView { shape: Shape::Base, name }
}

/// The last predicate of `own` that `other` lacks, if there is one.
pub open spec fn last_missing(own: Seq<PredicateView>, other: Seq<PredicateView>) -> Option<
    PredicateView,
>
    decreases own.len(),
{
    if own.len() == 0 {
        None
    } else if !other.contains(own.last()) {
        Some(own.last())
    } else {
        last_missing(own.drop_last(), other)
    }
}

impl TypeView {
    /// Structural subtype test: whether the predicate is among those of the type.
    pub open spec fn holds(self, predicate: PredicateView) -> bool {
        self.types.contains(predicate)
    }

    /// The most specific predicate that `self` has and `other` lacks.
    pub open spec fn criterion(self, other: TypeView) -> Option<PredicateView> {
        last_missing(self.types, other.types)
    }

    /// The type that extends `self` by more predicates.
    pub open spec fn extended(self, more: Seq<PredicateView>, prototype: Option<ValueView>)
        -> TypeView {
        TypeView {
            types: self.types + more,
            prototype: match prototype {
                Some(x) => x,
                None => self.prototype,
            },
        }
    }

    /// The type with no predicate at all: "infer".
    pub open spec fn unknown() -> TypeView {
        TypeView { types: Seq::empty(), prototype: ValueView::Nothing }
    }

    /// The type of every value.
    pub open spec fn std_any() -> TypeView {
        TypeView { types: seq![base("any"@)], prototype: ValueView::Nothing }
    }

    /// The type of nothing.
    pub open spec fn std_none() -> TypeView {
        Self::std_any().extended(seq![base("none"@)], None)
    }

    /// The type of every value but nothing.
    pub open spec fn std_some() -> TypeView {
        Self::std_any().extended(seq![base("some"@)], None)
    }

    /// The type of the booleans; its prototype is `true`.
    pub open spec fn std_boolean() -> TypeView {
        Self::std_some().extended(seq![base("boolean"@)], Some(ValueView::Boolean(true)))
    }

    /// The type of the numbers; its prototype is zero.
    pub open spec fn std_number() -> TypeView {
        TypeView {
            types: Self::std_some().types + seq![base("number"@)],
            prototype: ValueView::Number(NumberView::of_whole(0)),
        }
    }

    /// The type of the whole numbers, a subtype of the numbers.
    pub open spec fn std_integer() -> TypeView {
        Self::std_number().extended(seq![base("integer"@)], None)
    }

    /// The type of the strings; its prototype is the empty string.
    pub open spec fn std_string() -> TypeView {
        Self::std_some().extended(
            seq![base("string"@)],
            Some(ValueView::String(Seq::empty())),
        )
    }

    /// The type of the ranges.
    pub open spec fn std_range() -> TypeView {
        Self::std_some().extended(seq![base("range"@)], None)
    }
}

/// Whether a value has a standard type: lists, records and errors have none.
pub open spec fn inferable(value: ValueView) -> bool {
    !(value is List || value is Record || value is Failure)
}

/// The most specific standard type of a value. A number is an integer
/// exactly when its denominator is one.
pub open spec fn inferred(value: ValueView) -> TypeView
    recommends
        inferable(value),
{
    match value {
        ValueView::Nothing => TypeView::std_none(),
        ValueView::Type(_) => TypeView::std_any(),
        ValueView::Function(_) => TypeView::std_any(),
        ValueView::Boolean(_) => TypeView::std_boolean(),
        ValueView::Number(x) => if x.whole() {
            TypeView::std_integer()
        } else {
            TypeView::std_number()
        },
        ValueView::String(_) => TypeView::std_string(),
        ValueView::Range(_) => TypeView::std_range(),
        _ => TypeView::unknown(),
    }
}

/// Whether a text is a type descriptor: `?` or the name of a standard type.
pub open spec fn described(descriptor: Seq<char>) -> bool {
    ||| descriptor == "?"@
    ||| descriptor == "any"@
    ||| descriptor == "none"@
    ||| descriptor == "some"@
    ||| descriptor == "boolean"@
    ||| descriptor == "number"@
    ||| descriptor == "integer"@
    ||| descriptor == "string"@
    ||| descriptor == "range"@
}

/// The type that a descriptor stands for.
pub open spec fn description(descriptor: Seq<char>) -> TypeView
    recommends
        described(descriptor),
{
    if descriptor == "any"@ {
        TypeView::std_any()
    } else if descriptor == "none"@ {
        TypeView::std_none()
    } else if descriptor == "some"@ {
        TypeView::std_some()
    } else if descriptor == "boolean"@ {
        TypeView::std_boolean()
    } else if descriptor == "number"@ {
        TypeView::std_number()
    } else if descriptor == "integer"@ {
        TypeView::std_integer()
    } else if descriptor == "string"@ {
        TypeView::std_string()
    } else if descriptor == "range"@ {
        TypeView::std_range()
    } else {
        TypeView::unknown()
    }
}

impl Predicate {
    /// A built-in predicate that captures nothing.
    pub fn new_predicate_base(name: &str, routine: Builtin) -> (out: Predicate)
        ensures
            out@ == base(name@),
            out == (Predicate::Base { routine, name: out->Base_name }),
    {
        Predicate::Base { routine, name: name.to_owned() }
    }

    /// The predicate that every value meets.
    pub fn new_any() -> (out: Predicate)
        ensures
            out@ == base("any"@),
    {
        Predicate::Base { routine: Builtin::TypeAny, name: "any".to_owned() }
    }
}

impl TypeDef {
    /// A type of exactly the given predicates. Without a prototype it has none.
    pub fn new(types: Vec<Predicate>, prototype: Option<Value>) -> (out: TypeDef)
        ensures
            out@.types == types.deep_view(),
            out@.prototype == match prototype {
                Some(x) => x@,
                None => ValueView::Nothing,
            },
    {
        TypeDef {
            types,
            prototype: match prototype {
                Some(x) => x,
                None => Value::Nothing,
            },
        }
    }

    /// The subtype that holds the supertype's predicates and then `types`.
    /// Without a prototype of its own it inherits the supertype's.
    pub fn from_super(supertype: &TypeDef, types: Vec<Predicate>, prototype: Option<Value>) -> (out:
        TypeDef)
        ensures
            out@ == supertype@.extended(
                types.deep_view(),
                match prototype {
                    Some(x) => Some(x@),
                    None => None,
                },
            ),
    {
        let mut methods = copy_predicates(&supertype.types);
        let mut types = types;
        let ghost more = types.deep_view();
        let ghost inherited = methods.deep_view();
        methods.append(&mut types);
        assert(methods.deep_view() =~= inherited + more);
        TypeDef {
            types: methods,
            prototype: match prototype {
                Some(x) => x,
                None => copy_value(&supertype.prototype),
            },
        }
    }

    /// The most specific standard type of a value.
    pub fn infer(value: &Value) -> (out: TypeDef)
        requires
            inferable(value@),
        ensures
            out@ == inferred(value@),
    {
        match value {
            Value::Nothing => TypeDef::std_none(),
            Value::Type(_) => TypeDef::std_any(),
            Value::Function(_) => TypeDef::std_any(),
            Value::Boolean(_) => TypeDef::std_boolean(),
            Value::Number(x) => if x.is_whole() {
                TypeDef::std_integer()
            } else {
                TypeDef::std_number()
            },
            Value::String(_) => TypeDef::std_string(),
            Value::Range(_) => TypeDef::std_range(),
            _ => TypeDef::new(Vec::new(), None),
        }
    }

    /// Whether a value has a standard type.
    pub fn can_infer(value: &Value) -> (out: bool)
        ensures
            out == inferable(value@),
    {
        match value {
            Value::List(_) => false,
            Value::Record(_) => false,
            Value::Failure(_) => false,
            _ => true,
        }
    }

    /// Whether a text is a type descriptor.
    pub fn can_read(descriptor: &str) -> (out: bool)
        ensures
            out == described(descriptor@),
    {
        same_text(descriptor, "?") || same_text(descriptor, "any") || same_text(descriptor, "none")
            || same_text(descriptor, "some") || same_text(descriptor, "boolean") || same_text(
            descriptor,
            "number",
        ) || same_text(descriptor, "integer") || same_text(descriptor, "string") || same_text(
            descriptor,
            "range",
        )
    }

    /// The type that a descriptor stands for: `?` is the type to infer, with
    /// no predicate; the other descriptors name the standard types.
    pub fn read(descriptor: &str) -> (out: TypeDef)
        requires
            described(descriptor@),
        ensures
            out@ == description(descriptor@),
    {
        if same_text(descriptor, "any") {
            TypeDef::std_any()
        } else if same_text(descriptor, "none") {
            TypeDef::std_none()
        } else if same_text(descriptor, "some") {
            TypeDef::std_some()
        } else if same_text(descriptor, "boolean") {
            TypeDef::std_boolean()
        } else if same_text(descriptor, "number") {
            TypeDef::std_number()
        } else if same_text(descriptor, "integer") {
            TypeDef::std_integer()
        } else if same_text(descriptor, "string") {
            TypeDef::std_string()
        } else if same_text(descriptor, "range") {
            TypeDef::std_range()
        } else {
            let none: Vec<Predicate> = Vec::new();
            assert(none.deep_view() =~= Seq::<PredicateView>::empty());
            TypeDef::new(none, None)
        }
    }

    /// Structural subtype test: whether the predicate is among those of the type.
    pub fn check(&self, predicate: &Predicate) -> (out: bool)
        ensures
            out == self@.holds(predicate@),
    {
        let mut at: usize = 0;
        while at < self.types.len()
            invariant
                at <= self.types.len(),
                forall|i: int| 0 <= i < at ==> self.types[i]@ != predicate@,
            decreases self.types.len() - at,
        {
            if same_predicate(&self.types[at], predicate) {
                assert(self@.types[at as int] == predicate@);
                return true;
            }
            at += 1;
        }
        assert(!self@.types.contains(predicate@)) by {
            if self@.types.contains(predicate@) {
                let i = choose|i: int| 0 <= i < self@.types.len() && self@.types[i] == predicate@;
                assert(self.types[i]@ == predicate@);
            }
        }
        false
    }

    /// The most specific predicate that `self` has and `other` lacks. The
    /// order of the two matters.
    pub fn criterion(&self, other: &TypeDef) -> (out: Option<&Predicate>)
        ensures
            out.deep_view() == self@.criterion(other@),
    {
        let mut at: usize = self.types.len();
        assert(self@.types.subrange(0, at as int) =~= self@.types);
        while at > 0
            invariant
                at <= self.types.len(),
                last_missing(self@.types, other@.types) == last_missing(
                    self@.types.subrange(0, at as int),
                    other@.types,
                ),
            decreases at,
        {
            let ghost part = self@.types.subrange(0, at as int);
            assert(part.last() == self.types[at - 1]@);
            assert(part.drop_last() =~= self@.types.subrange(0, at - 1));
            if !other.check(&self.types[at - 1]) {
                return Some(&self.types[at - 1]);
            }
            at -= 1;
        }
        assert(self@.types.subrange(0, 0).len() == 0);
        None
    }

    /// The type of every value.
    pub fn std_any() -> (out: TypeDef)
        ensures
            out@ == TypeView::std_any(),
    {
        let mut types: Vec<Predicate> = Vec::new();
        types.push(Predicate::new_predicate_base("any", Builtin::TypeAny));
        assert(types.deep_view() =~= seq![base("any"@)]);
        TypeDef::new(types, None)
    }

    /// The type of nothing.
    pub fn std_none() -> (out: TypeDef)
        ensures
            out@ == TypeView::std_none(),
    {
        let mut types: Vec<Predicate> = Vec::new();
        types.push(Predicate::new_predicate_base("none", Builtin::TypeNone));
        assert(types.deep_view() =~= seq![base("none"@)]);
        TypeDef::from_super(&TypeDef::std_any(), types, None)
    }

    /// The type of every value but nothing.
    pub fn std_some() -> (out: TypeDef)
        ensures
            out@ == TypeView::std_some(),
    {
        let mut types: Vec<Predicate> = Vec::new();
        types.push(Predicate::new_predicate_base("some", Builtin::TypeSome));
        assert(types.deep_view() =~= seq![base("some"@)]);
        TypeDef::from_super(&TypeDef::std_any(), types, None)
    }

    /// The type of the booleans; its prototype is `true`.
    pub fn std_boolean() -> (out: TypeDef)
        ensures
            out@ == TypeView::std_boolean(),
    {
        let mut types: Vec<Predicate> = Vec::new();
        types.push(Predicate::new_predicate_base("boolean", Builtin::TypeBoolean));
        assert(types.deep_view() =~= seq![base("boolean"@)]);
        TypeDef::from_super(&TypeDef::std_some(), types, Some(Value::Boolean(true)))
    }

    /// The type of the numbers; its prototype is zero.
    pub fn std_number() -> (out: TypeDef)
        ensures
            out@ == TypeView::std_number(),
    {
        let mut types: Vec<Predicate> = Vec::new();
        types.push(Predicate::new_predicate_base("number", Builtin::TypeNumber));
        assert(types.deep_view() =~= seq![base("number"@)]);
        let zero = Number::zero();
        TypeDef::from_super(&TypeDef::std_some(), types, Some(Value::Number(zero)))
    }

    /// The type of the whole numbers, a subtype of the numbers.
    pub fn std_integer() -> (out: TypeDef)
        ensures
            out@ == TypeView::std_integer(),
    {
        let mut types: Vec<Predicate> = Vec::new();
        types.push(Predicate::new_predicate_base("integer", Builtin::TypeInteger));
        assert(types.deep_view() =~= seq![base("integer"@)]);
        TypeDef::from_super(&TypeDef::std_number(), types, None)
    }

    /// The type of the strings; its prototype is the empty string.
    pub fn std_string() -> (out: TypeDef)
        ensures
            out@ == TypeView::std_string(),
    {
        let mut types: Vec<Predicate> = Vec::new();
        types.push(Predicate::new_predicate_base("string", Builtin::TypeString));
        assert(types.deep_view() =~= seq![base("string"@)]);
        TypeDef::from_super(&TypeDef::std_some(), types, Some(Value::String(String::new())))
    }

    /// The type of the ranges.
    pub fn std_range() -> (out: TypeDef)
        ensures
            out@ == TypeView::std_range(),
    {
        let mut types: Vec<Predicate> = Vec::new();
        types.push(Predicate::new_predicate_base("range", Builtin::TypeRange));
        assert(types.deep_view() =~= seq![base("range"@)]);
        TypeDef::from_super(&TypeDef::std_some(), types, None)
    }
}

} // verus!

//! The routines that the machine provides: the tests of the standard
//! types, `return`, and the operators.

use vstd::prelude::*;
use crate::error::Error;
use crate::number::{Coerce, Number, NumberView};
use crate::string::chars_of;
use crate::value::{copy_value, same_value, Builtin, Range, Value, ValueView};

verus! {

/// Whether `needle` stands somewhere in `hay`.
pub open spec fn contains_text(hay: Seq<char>, needle: Seq<char>) -> bool {
    exists|at: int|
        0 <= at && at + needle.len() <= hay.len() && #[trigger] hay.subrange(
            at,
            at + needle.len(),
        ) == needle
}

/// Whether `needle` stands in `hay` at `at`.
fn stands_at(hay: &Vec<char>, needle: &Vec<char>, at: usize) -> (out: bool)
    requires
        at + needle.len() <= hay.len(),
    ensures
        out == (hay@.subrange(at as int, at + needle.len()) == needle@),
{
    let mut i: usize = 0;
    while i < needle.len()
        invariant
            i <= needle.len(),
            at + needle.len() <= hay.len(),
            forall|k: int| 0 <= k < i ==> hay@[at + k] == needle@[k],
        decreases needle.len() - i,
    {
        if hay[at + i] != needle[i] {
            assert(hay@.subrange(at as int, at + needle.len())[i as int] != needle@[i as int]);
            return false;
        }
        i += 1;
    }
    assert(hay@.subrange(at as int, at + needle.len()) =~= needle@);
    true
}

/// Whether `needle` stands somewhere in `hay`.
pub fn find_text(hay: &str, needle: &str) -> (out: bool)
    ensures
        out == contains_text(hay@, needle@),
{
    let straw = chars_of(hay);
    let pin = chars_of(needle);
    if pin.len() > straw.len() {
        return false;
    }
    let last = straw.len() - pin.len();
    let mut at: usize = 0;
    loop
        invariant
            straw@ == hay@,
            pin@ == needle@,
            pin.len() <= straw.len(),
            last == straw.len() - pin.len(),
            at <= last,
            forall|k: int| 0 <= k < at ==> #[trigger] straw@.subrange(k, k + pin.len()) != pin@,
        decreases last - at,
    {
        if stands_at(&straw, &pin, at) {
            return true;
        }
        if at == last {
            return false;
        }
        at += 1;
    }
}

/// `power` is `base` multiplied by itself `count` times.
pub open spec fn is_power(power: NumberView, base: NumberView, count: nat) -> bool
    decreases count,
{
    if count == 0 {
        power == NumberView::of_whole(1)
    } else {
        exists|before: NumberView| #[trigger]
            power.is_product(before, base) && before.bottom() > 0 && is_power(
                before,
                base,
                (count - 1) as nat,
            )
    }
}

/// Whether the machine can raise `base` to `exponent`: the exponent is a
/// whole number whose distance from zero can be counted, and zero is not
/// raised to a power below zero.
pub open spec fn raisable(base: NumberView, exponent: NumberView) -> bool {
    &&& exponent.whole()
    &&& -(usize::MAX as int) < exponent.top() < usize::MAX as int
    &&& exponent.top() < 0 ==> base.top() != 0
}

/// `out` is `base` to the power of the whole number `exponent`: for an
/// exponent below zero, one divided by the power of its distance from zero.
pub open spec fn is_raised(out: NumberView, base: NumberView, exponent: int) -> bool {
    if exponent >= 0 {
        is_power(out, base, exponent as nat)
    } else {
        exists|power: NumberView| #[trigger]
            is_power(power, base, (-exponent) as nat) && out.is_quotient(
                NumberView::of_whole(1),
                power,
            )
    }
}

/// A power is zero exactly when it is a power of zero, once at least.
pub proof fn lemma_power_zero(power: NumberView, base: NumberView, count: nat)
    requires
        is_power(power, base, count),
        power.bottom() > 0,
        base.bottom() > 0,
    ensures
        (power.top() == 0) == (count > 0 && base.top() == 0),
    decreases count,
{
    if count == 0 {
        crate::number::lemma_of_whole(1);
    } else {
        let before = choose|before: NumberView| #[trigger]
            power.is_product(before, base) && before.bottom() > 0 && is_power(
                before,
                base,
                (count - 1) as nat,
            );
        lemma_power_zero(before, base, (count - 1) as nat);
        assert((power.top() == 0) == (before.top() == 0 || base.top() == 0)) by (nonlinear_arith)
            requires
                power.top() * (before.bottom() * base.bottom()) == (before.top() * base.top())
                    * power.bottom(),
                power.bottom() > 0,
                before.bottom() > 0,
                base.bottom() > 0,
        ;
    }
}

/// `rest` is what is left of `x` after the greatest whole number of `y`s
/// that is not above it.
pub open spec fn is_remainder(rest: NumberView, x: NumberView, y: NumberView) -> bool {
    exists|ratio: NumberView, whole: NumberView, taken: NumberView| #[trigger]
        ratio.is_quotient(x, y) && #[trigger] whole.is_floor(ratio) && #[trigger] taken.is_product(
            y,
            whole,
        ) && rest.is_sum(x, taken.negated())
}

/// Whether the arguments are one number.
pub open spec fn one_number(args: Seq<ValueView>) -> bool {
    args.len() == 1 && args[0] is Number
}

/// Whether the arguments are two numbers.
pub open spec fn two_numbers(args: Seq<ValueView>) -> bool {
    args.len() == 2 && args[0] is Number && args[1] is Number
}

/// Whether the arguments are two booleans.
pub open spec fn two_booleans(args: Seq<ValueView>) -> bool {
    args.len() == 2 && args[0] is Boolean && args[1] is Boolean
}

/// The answer to arguments of the wrong shape.
pub open spec fn refused() -> ValueView {
    ValueView::Failure(Error::TYPE)
}

/// What a test of a standard type answers.
pub open spec fn tested(routine: Builtin, args: Seq<ValueView>) -> ValueView {
    if routine == Builtin::TypeAny {
        ValueView::Boolean(true)
    } else if args.len() == 0 {
        refused()
    } else {
        ValueView::Boolean(
            match routine {
                Builtin::TypeNone => args[0] is Nothing,
                Builtin::TypeSome => !(args[0] is Nothing),
                Builtin::TypeBoolean => args[0] is Boolean,
                Builtin::TypeNumber => args[0] is Number,
                Builtin::TypeInteger => args[0] matches ValueView::Number(x) && x.whole(),
                Builtin::TypeString => args[0] is String,
                _ => args[0] is Range,
            },
        )
    }
}

/// What a routine on numbers answers with a number.
pub open spec fn computed(routine: Builtin, args: Seq<ValueView>, out: NumberView) -> bool {
    let a = args[0]->Number_0;
    let b = args[1]->Number_0;
    match routine {
        Builtin::UAdd => out.top() == (if a.top() < 0 {
            -a.top()
        } else {
            a.top()
        }) && out.bottom() == a.bottom(),
        Builtin::USub => out.top() == -a.top() && out.bottom() == a.bottom(),
        Builtin::BAdd => out.is_sum(a, b),
        Builtin::BSub => out.is_sum(a, b.negated()),
        Builtin::BMul => out.is_product(a, b),
        Builtin::BDiv => out.is_quotient(a, b),
        Builtin::BMdl => is_remainder(out, a, b),
        _ => is_raised(out, a, b.top()),
    }
}

/// What a comparison of two numbers answers.
pub open spec fn compared(routine: Builtin, a: NumberView, b: NumberView) -> bool {
    match routine {
        Builtin::BLtn => a.below(b),
        Builtin::BGtn => b.below(a),
        Builtin::BLql => !b.below(a),
        _ => !a.below(b),
    }
}

/// Whether a routine answers `out` to the arguments. Arguments of the wrong
/// number or shape are refused with `TYPE`, as are a division by zero and a
/// power that is no whole number or too large to count.
pub open spec fn answers(routine: Builtin, args: Seq<ValueView>, out: ValueView) -> bool {
    match routine {
        Builtin::TypeAny | Builtin::TypeNone | Builtin::TypeSome | Builtin::TypeBoolean
        | Builtin::TypeNumber | Builtin::TypeInteger | Builtin::TypeString
        | Builtin::TypeRange => out == tested(routine, args),
        Builtin::ReturnNone => out == if args.len() == 0 {
            ValueView::Nothing
        } else {
            refused()
        },
        Builtin::ReturnAny => out == if args.len() == 1 {
            args[0]
        } else {
            refused()
        },
        Builtin::UAdd | Builtin::USub => if one_number(args) {
            out matches ValueView::Number(x) && computed(routine, args, x)
        } else {
            out == refused()
        },
        Builtin::BAdd | Builtin::BSub | Builtin::BMul => if two_numbers(args) {
            out matches ValueView::Number(x) && computed(routine, args, x)
        } else {
            out == refused()
        },
        Builtin::BDiv | Builtin::BMdl => if two_numbers(args) && args[1]->Number_0.top() != 0 {
            out matches ValueView::Number(x) && computed(routine, args, x)
        } else {
            out == refused()
        },
        Builtin::BExp => if two_numbers(args) && raisable(args[0]->Number_0, args[1]->Number_0) {
            out matches ValueView::Number(x) && computed(routine, args, x)
        } else {
            out == refused()
        },
        Builtin::BEql => out == if args.len() == 2 {
            ValueView::Boolean(args[0] == args[1])
        } else {
            refused()
        },
        Builtin::BNql => out == if args.len() == 2 {
            ValueView::Boolean(args[0] != args[1])
        } else {
            refused()
        },
        Builtin::BLtn | Builtin::BGtn | Builtin::BLql | Builtin::BGql => out == if two_numbers(
            args,
        ) {
            ValueView::Boolean(compared(routine, args[0]->Number_0, args[1]->Number_0))
        } else {
            refused()
        },
        Builtin::BSbsString => out == if args.len() == 2 && args[0] is String && args[1] is String {
            ValueView::Boolean(contains_text(args[1]->String_0, args[0]->String_0))
        } else {
            refused()
        },
        Builtin::BSbsRange => out == if args.len() == 2 && args[0] is Number && args[1] is Range {
            ValueView::Boolean(args[1]->Range_0.holds(args[0]->Number_0))
        } else {
            refused()
        },
        Builtin::ULnt => out == if args.len() == 1 && args[0] is Boolean {
            ValueView::Boolean(!args[0]->Boolean_0)
        } else {
            refused()
        },
        Builtin::BLnd => out == if two_booleans(args) {
            ValueView::Boolean(args[0]->Boolean_0 && args[1]->Boolean_0)
        } else {
            refused()
        },
        Builtin::BLor => out == if two_booleans(args) {
            ValueView::Boolean(args[0]->Boolean_0 || args[1]->Boolean_0)
        } else {
            refused()
        },
        Builtin::BLxr => out == if two_booleans(args) {
            ValueView::Boolean(args[0]->Boolean_0 != args[1]->Boolean_0)
        } else {
            refused()
        },
    }
}

/// The content of a list of values.
pub open spec fn values_view(values: Vec<Value>) -> Seq<ValueView> {
    Seq::new(values.len() as nat, |i: int| values[i]@)
}

/// `base` multiplied by itself `count` times.
fn power(base: &Number, count: usize) -> (out: Number)
    ensures
        is_power(out@, base@, count as nat),
        out@.reduced(),
{
    let mut out = Number::one();
    let mut done: usize = 0;
    while done < count
        invariant
            done <= count,
            is_power(out@, base@, done as nat),
            out@.reduced(),
        decreases count - done,
    {
        let next = out.times(base);
        assert(next@.is_product(out@, base@) && out@.bottom() > 0 && is_power(
            out@,
            base@,
            done as nat,
        ));
        out = next;
        done += 1;
    }
    out
}

/// The power of a number to a whole number that can be counted.
fn raise(base: &Number, exponent: &Number) -> (out: Option<Number>)
    ensures
        (out is Some) == raisable(base@, exponent@),
        out matches Some(x) ==> is_raised(x@, base@, exponent@.top()),
{
    if !exponent.is_whole() {
        return None;
    }
    let distance = exponent.abs();
    let count = distance.to_usize();
    if count == usize::MAX {
        return None;
    }
    assert(distance@.bottom() == 1 && exponent@.bottom() == 1) by {
        crate::number::lemma_whole(exponent@);
        crate::number::lemma_whole(distance@);
    }
    assert(distance@.truncated() == distance@.top());
    base.attest();
    if exponent.is_positive() {
        Some(power(base, count))
    } else {
        let below = power(base, count);
        proof {
            lemma_power_zero(below@, base@, count as nat);
        }
        match Number::one().over(&below) {
            Some(x) => {
                assert(is_power(below@, base@, (-exponent@.top()) as nat) && x@.is_quotient(
                    NumberView::of_whole(1),
                    below@,
                ));
                assert(is_raised(x@, base@, exponent@.top()));
                Some(x)
            },
            None => None,
        }
    }
}

/// What is left of `x` after the greatest whole number of `y`s that is not above it.
fn remainder(x: &Number, y: &Number) -> (out: Option<Number>)
    ensures
        (out is None) == (y@.top() == 0),
        out matches Some(rest) ==> is_remainder(rest@, x@, y@),
{
    match x.over(y) {
        Some(ratio) => {
            let whole = ratio.floor();
            let taken = y.times(&whole);
            let rest = x.minus(&taken);
            assert(ratio@.is_quotient(x@, y@) && whole@.is_floor(ratio@) && taken@.is_product(
                y@,
                whole@,
            ) && rest@.is_sum(x@, taken@.negated()));
            Some(rest)
        },
        None => None,
    }
}

impl Builtin {
    /// Runs a test of a standard type.
    fn test(&self, args: &Vec<Value>) -> (out: Value)
        requires
            *self == Builtin::TypeAny
                || *self == Builtin::TypeNone
                || *self == Builtin::TypeSome
                || *self == Builtin::TypeBoolean
                || *self == Builtin::TypeNumber
                || *self == Builtin::TypeInteger
                || *self == Builtin::TypeString
                || *self == Builtin::TypeRange,
        ensures
            answers(*self, values_view(*args), out@),
    {
        let ghost seen = values_view(*args);
        assert(forall|i: int| 0 <= i < args.len() ==> seen[i] == args[i]@);
        let refuse = Value::Failure(Error::TYPE);
        match self {
            Builtin::TypeAny => Value::Boolean(true),
            Builtin::TypeNone => if args.len() == 0 {
                refuse
            } else {
                Value::Boolean(
                    match &args[0] {
                        Value::Nothing => true,
                        _ => false,
                    },
                )
            },
            Builtin::TypeSome => if args.len() == 0 {
                refuse
            } else {
                Value::Boolean(
                    match &args[0] {
                        Value::Nothing => false,
                        _ => true,
                    },
                )
            },
            Builtin::TypeBoolean => if args.len() == 0 {
                refuse
            } else {
                Value::Boolean(
                    match &args[0] {
                        Value::Boolean(_) => true,
                        _ => false,
                    },
                )
            },
            Builtin::TypeNumber => if args.len() == 0 {
                refuse
            } else {
                Value::Boolean(
                    match &args[0] {
                        Value::Number(_) => true,
                        _ => false,
                    },
                )
            },
            Builtin::TypeInteger => if args.len() == 0 {
                refuse
            } else {
                Value::Boolean(
                    match &args[0] {
                        Value::Number(x) => x.is_whole(),
                        _ => false,
                    },
                )
            },
            Builtin::TypeString => if args.len() == 0 {
                refuse
            } else {
                Value::Boolean(
                    match &args[0] {
                        Value::String(_) => true,
                        _ => false,
                    },
                )
            },
            Builtin::TypeRange => if args.len() == 0 {
                refuse
            } else {
                Value::Boolean(
                    match &args[0] {
                        Value::Range(_) => true,
                        _ => false,
                    },
                )
            },
            _ => refuse,
        }
    }

    /// Runs a return.
    fn give(&self, args: &Vec<Value>) -> (out: Value)
        requires
            *self == Builtin::ReturnNone
                || *self == Builtin::ReturnAny,
        ensures
            answers(*self, values_view(*args), out@),
    {
        let ghost seen = values_view(*args);
        assert(forall|i: int| 0 <= i < args.len() ==> seen[i] == args[i]@);
        let refuse = Value::Failure(Error::TYPE);
        match self {
            Builtin::ReturnNone => if args.len() == 0 {
                Value::Nothing
            } else {
                refuse
            },
            Builtin::ReturnAny => if args.len() == 1 {
                copy_value(&args[0])
            } else {
                refuse
            },
            _ => refuse,
        }
    }

    /// Runs a routine of arithmetic.
    fn compute(&self, args: &Vec<Value>) -> (out: Value)
        requires
            *self == Builtin::UAdd
                || *self == Builtin::USub
                || *self == Builtin::BAdd
                || *self == Builtin::BSub
                || *self == Builtin::BMul
                || *self == Builtin::BDiv
                || *self == Builtin::BMdl
                || *self == Builtin::BExp,
        ensures
            answers(*self, values_view(*args), out@),
    {
        let ghost seen = values_view(*args);
        assert(forall|i: int| 0 <= i < args.len() ==> seen[i] == args[i]@);
        let refuse = Value::Failure(Error::TYPE);
        match self {
            Builtin::UAdd => if args.len() == 1 {
                match &args[0] {
                    Value::Number(a) => {
                        let x = a.abs();
                        assert(computed(Builtin::UAdd, seen, x@));
                        Value::Number(x)
                    },
                    _ => refuse,
                }
            } else {
                refuse
            },
            Builtin::USub => if args.len() == 1 {
                match &args[0] {
                    Value::Number(a) => Value::Number(a.negated()),
                    _ => refuse,
                }
            } else {
                refuse
            },
            Builtin::BAdd => if args.len() == 2 {
                match (&args[0], &args[1]) {
                    (Value::Number(a), Value::Number(b)) => Value::Number(a.plus(b)),
                    _ => refuse,
                }
            } else {
                refuse
            },
            Builtin::BSub => if args.len() == 2 {
                match (&args[0], &args[1]) {
                    (Value::Number(a), Value::Number(b)) => {
                        let x = a.minus(b);
                        assert(computed(Builtin::BSub, seen, x@));
                        Value::Number(x)
                    },
                    _ => refuse,
                }
            } else {
                refuse
            },
            Builtin::BMul => if args.len() == 2 {
                match (&args[0], &args[1]) {
                    (Value::Number(a), Value::Number(b)) => Value::Number(a.times(b)),
                    _ => refuse,
                }
            } else {
                refuse
            },
            Builtin::BDiv => if args.len() == 2 {
                match (&args[0], &args[1]) {
                    (Value::Number(a), Value::Number(b)) => match a.over(b) {
                        Some(x) => Value::Number(x),
                        None => refuse,
                    },
                    _ => refuse,
                }
            } else {
                refuse
            },
            Builtin::BMdl => if args.len() == 2 {
                match (&args[0], &args[1]) {
                    (Value::Number(a), Value::Number(b)) => match remainder(a, b) {
                        Some(x) => {
                            assert(computed(Builtin::BMdl, seen, x@));
                            Value::Number(x)
                        },
                        None => refuse,
                    },
                    _ => refuse,
                }
            } else {
                refuse
            },
            Builtin::BExp => if args.len() == 2 {
                match (&args[0], &args[1]) {
                    (Value::Number(a), Value::Number(b)) => match raise(a, b) {
                        Some(x) => {
                            assert(computed(Builtin::BExp, seen, x@));
                            Value::Number(x)
                        },
                        None => refuse,
                    },
                    _ => refuse,
                }
            } else {
                refuse
            },
            _ => refuse,
        }
    }

    /// Runs a comparison.
    fn compare(&self, args: &Vec<Value>) -> (out: Value)
        requires
            *self == Builtin::BEql
                || *self == Builtin::BNql
                || *self == Builtin::BLtn
                || *self == Builtin::BGtn
                || *self == Builtin::BLql
                || *self == Builtin::BGql
                || *self == Builtin::BSbsString
                || *self == Builtin::BSbsRange,
        ensures
            answers(*self, values_view(*args), out@),
    {
        let ghost seen = values_view(*args);
        assert(forall|i: int| 0 <= i < args.len() ==> seen[i] == args[i]@);
        let refuse = Value::Failure(Error::TYPE);
        match self {
            Builtin::BEql => if args.len() == 2 {
                Value::Boolean(same_value(&args[0], &args[1]))
            } else {
                refuse
            },
            Builtin::BNql => if args.len() == 2 {
                Value::Boolean(!same_value(&args[0], &args[1]))
            } else {
                refuse
            },
            Builtin::BLtn => if args.len() == 2 {
                match (&args[0], &args[1]) {
                    (Value::Number(a), Value::Number(b)) => Value::Boolean(a.less_than(b)),
                    _ => refuse,
                }
            } else {
                refuse
            },
            Builtin::BGtn => if args.len() == 2 {
                match (&args[0], &args[1]) {
                    (Value::Number(a), Value::Number(b)) => Value::Boolean(b.less_than(a)),
                    _ => refuse,
                }
            } else {
                refuse
            },
            Builtin::BLql => if args.len() == 2 {
                match (&args[0], &args[1]) {
                    (Value::Number(a), Value::Number(b)) => Value::Boolean(a.at_most(b)),
                    _ => refuse,
                }
            } else {
                refuse
            },
            Builtin::BGql => if args.len() == 2 {
                match (&args[0], &args[1]) {
                    (Value::Number(a), Value::Number(b)) => Value::Boolean(b.at_most(a)),
                    _ => refuse,
                }
            } else {
                refuse
            },
            Builtin::BSbsString => if args.len() == 2 {
                match (&args[0], &args[1]) {
                    (Value::String(a), Value::String(b)) => Value::Boolean(
                        find_text(b.as_str(), a.as_str()),
                    ),
                    _ => refuse,
                }
            } else {
                refuse
            },
            Builtin::BSbsRange => if args.len() == 2 {
                match (&args[0], &args[1]) {
                    (Value::Number(a), Value::Range(b)) => Value::Boolean(b.contains(a)),
                    _ => refuse,
                }
            } else {
                refuse
            },
            _ => refuse,
        }
    }

    /// Runs a routine of logic.
    fn decide(&self, args: &Vec<Value>) -> (out: Value)
        requires
            *self == Builtin::ULnt
                || *self == Builtin::BLnd
                || *self == Builtin::BLor
                || *self == Builtin::BLxr,
        ensures
            answers(*self, values_view(*args), out@),
    {
        let ghost seen = values_view(*args);
        assert(forall|i: int| 0 <= i < args.len() ==> seen[i] == args[i]@);
        let refuse = Value::Failure(Error::TYPE);
        match self {
            Builtin::ULnt => if args.len() == 1 {
                match &args[0] {
                    Value::Boolean(a) => Value::Boolean(!*a),
                    _ => refuse,
                }
            } else {
                refuse
            },
            Builtin::BLnd => if args.len() == 2 {
                match (&args[0], &args[1]) {
                    (Value::Boolean(a), Value::Boolean(b)) => Value::Boolean(*a && *b),
                    _ => refuse,
                }
            } else {
                refuse
            },
            Builtin::BLor => if args.len() == 2 {
                match (&args[0], &args[1]) {
                    (Value::Boolean(a), Value::Boolean(b)) => Value::Boolean(*a || *b),
                    _ => refuse,
                }
            } else {
                refuse
            },
            Builtin::BLxr => if args.len() == 2 {
                match (&args[0], &args[1]) {
                    (Value::Boolean(a), Value::Boolean(b)) => Value::Boolean(*a != *b),
                    _ => refuse,
                }
            } else {
                refuse
            },
            _ => refuse,
        }
    }

    /// Runs the routine on the arguments.
    pub fn apply(&self, args: &Vec<Value>) -> (out: Value)
        ensures
            answers(*self, values_view(*args), out@),
    {
        match self {
            Builtin::TypeAny => self.test(args),
            Builtin::TypeNone => self.test(args),
            Builtin::TypeSome => self.test(args),
            Builtin::TypeBoolean => self.test(args),
            Builtin::TypeNumber => self.test(args),
            Builtin::TypeInteger => self.test(args),
            Builtin::TypeString => self.test(args),
            Builtin::TypeRange => self.test(args),
            Builtin::ReturnNone => self.give(args),
            Builtin::ReturnAny => self.give(args),
            Builtin::UAdd => self.compute(args),
            Builtin::USub => self.compute(args),
            Builtin::BAdd => self.compute(args),
            Builtin::BSub => self.compute(args),
            Builtin::BMul => self.compute(args),
            Builtin::BDiv => self.compute(args),
            Builtin::BMdl => self.compute(args),
            Builtin::BExp => self.compute(args),
            Builtin::BEql => self.compare(args),
            Builtin::BNql => self.compare(args),
            Builtin::BLtn => self.compare(args),
            Builtin::BGtn => self.compare(args),
            Builtin::BLql => self.compare(args),
            Builtin::BGql => self.compare(args),
            Builtin::BSbsString => self.compare(args),
            Builtin::BSbsRange => self.compare(args),
            Builtin::ULnt => self.decide(args),
            Builtin::BLnd => self.decide(args),
            Builtin::BLor => self.decide(args),
            Builtin::BLxr => self.decide(args),
        }
    }
}

} // verus!

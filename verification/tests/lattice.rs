use sophia::error::Error;

use sophia::number::Number;
use sophia::value::{Builtin, FuncDef, Method, Predicate, TypeDef, Value};

fn named(name: &str, routine: Builtin) -> Predicate {
    Predicate::new_predicate_base(name, routine)
}

fn method(name: &str, routine: Builtin, types: Vec<TypeDef>) -> Method {
    let mut signature = vec![(name.to_string(), TypeDef::std_any())];
    for typedef in types {
        signature.push(("_".to_string(), typedef));
    }
    Method::new_method_std(routine, signature)
}

#[test]
fn integer_is_a_number() {
    assert!(TypeDef::std_integer().check(&named("number", Builtin::TypeNumber)));
    assert!(!TypeDef::std_number().check(&named("integer", Builtin::TypeInteger)));
}

#[test]
fn read_integer_is_a_number() {
    assert!(TypeDef::read("integer").check(&named("number", Builtin::TypeNumber)));
    assert!(TypeDef::read("?").criterion(&TypeDef::std_any()).is_none());
    assert!(TypeDef::can_read("range"));
    assert!(!TypeDef::can_read("list"));
}

#[test]
fn infer_tells_integers_from_numbers() {
    assert_eq!(TypeDef::infer(&Value::Number(Number::ratio(true, 3, 1).unwrap())), TypeDef::std_integer());
    assert_eq!(TypeDef::infer(&Value::Number(Number::ratio(true, 1, 2).unwrap())), TypeDef::std_number());
    assert_eq!(TypeDef::infer(&Value::Nothing), TypeDef::std_none());
    assert_eq!(TypeDef::infer(&Value::Boolean(false)), TypeDef::std_boolean());
    assert_eq!(TypeDef::infer(&Value::String(String::new())), TypeDef::std_string());
    assert!(!TypeDef::can_infer(&Value::List(Vec::new())));
}

#[test]
fn criterion_is_the_last_missing_predicate() {
    let integer = TypeDef::std_integer();
    let string = TypeDef::std_string();
    assert_eq!(integer.criterion(&string), Some(&named("integer", Builtin::TypeInteger)));
    assert_eq!(string.criterion(&integer), Some(&named("string", Builtin::TypeString)));
    assert_eq!(TypeDef::std_number().criterion(&integer), None);
    assert_eq!(integer.criterion(&TypeDef::std_number()), Some(&named("integer", Builtin::TypeInteger)));
}

#[test]
fn from_super_extends_and_inherits() {
    let positive = TypeDef::from_super(&TypeDef::std_number(), vec![named("positive", Builtin::TypeAny)], None);
    assert!(positive.check(&named("number", Builtin::TypeNumber)));
    assert!(positive.check(&named("positive", Builtin::TypeAny)));
    assert_eq!(positive.prototype, Value::Number(Number::zero()));
    assert_eq!(positive.types.len(), 4);
}

#[test]
fn dispatch_on_no_method_fails() {
    let empty = FuncDef::new(Vec::new());
    assert_eq!(empty.dispatch(&vec![TypeDef::std_integer()]).err(), Some(Error::DISP));
    assert_eq!(empty.dispatch(&Vec::new()).err(), Some(Error::DISP));
}

#[test]
fn dispatch_picks_the_more_specific_method() {
    let general = method("f", Builtin::BAdd, vec![TypeDef::std_number()]);
    let special = method("f", Builtin::BSub, vec![TypeDef::std_integer()]);
    let before = FuncDef::new(vec![general.clone()]);
    assert_eq!(before.dispatch(&vec![TypeDef::std_number()]), Ok(&general));
    assert_eq!(before.dispatch(&vec![TypeDef::std_integer()]), Ok(&general));
    let after = before.extend(special.clone());
    // A signature to which the new method does not apply is answered as before.
    assert_eq!(after.dispatch(&vec![TypeDef::std_number()]), Ok(&general));
    // Where both apply, the more specific wins.
    assert_eq!(after.dispatch(&vec![TypeDef::std_integer()]), Ok(&special));
}

#[test]
fn inserting_twice_is_inserting_once() {
    let unary = method("f", Builtin::UAdd, vec![TypeDef::std_number()]);
    let binary = method("f", Builtin::BAdd, vec![TypeDef::std_number(), TypeDef::std_number()]);
    let text = method("f", Builtin::BSbsString, vec![TypeDef::std_string()]);
    let once = FuncDef::new(vec![unary.clone(), binary.clone(), text.clone()]);
    assert_eq!(once.extend(text.clone()), once);
    assert_eq!(once.extend(binary.clone()), once);
    assert_eq!(once.extend(unary.clone()), once);
    assert_eq!(FuncDef::new(vec![unary.clone(), unary.clone()]), FuncDef::new(vec![unary]));
}

#[test]
fn dispatch_of_one_arity_succeeds() {
    let number = method("f", Builtin::UAdd, vec![TypeDef::std_number()]);
    let text = method("f", Builtin::BSbsString, vec![TypeDef::std_string()]);
    let func = FuncDef::new(vec![number.clone(), text.clone()]);
    assert_eq!(func.dispatch(&vec![TypeDef::std_integer()]), Ok(&number));
    assert_eq!(func.dispatch(&vec![TypeDef::std_string()]), Ok(&text));
}

#[test]
fn dispatch_without_arguments_takes_the_false_path() {
    let none = method("return", Builtin::ReturnNone, vec![]);
    let any = method("return", Builtin::ReturnAny, vec![TypeDef::std_any()]);
    let func = FuncDef::new(vec![none.clone(), any.clone()]);
    assert_eq!(func.dispatch(&Vec::new()), Ok(&none));
    assert_eq!(func.dispatch(&vec![TypeDef::std_string()]), Ok(&any));
    // A node that asks for an argument beyond a signature that is not empty fails.
    let unary = method("f", Builtin::UAdd, vec![TypeDef::std_number()]);
    let binary = method("f", Builtin::BAdd, vec![TypeDef::std_number(), TypeDef::std_number()]);
    let plus = FuncDef::new(vec![unary, binary.clone()]);
    assert_eq!(plus.dispatch(&vec![TypeDef::std_number()]).err(), Some(Error::DISP));
    assert_eq!(plus.dispatch(&vec![TypeDef::std_number(), TypeDef::std_number()]), Ok(&binary));
}

#[test]
fn try_new_refuses_methods_that_cannot_be_told_apart() {
    let with_zero = TypeDef::new(vec![named("any", Builtin::TypeAny)], Some(Value::Number(Number::zero())));
    let first = method("f", Builtin::UAdd, vec![TypeDef::std_any()]);
    let second = method("f", Builtin::USub, vec![with_zero]);
    assert!(FuncDef::try_new(vec![first.clone(), second]).is_none());
    assert!(FuncDef::try_new(vec![first.clone(), first]).is_some());
}

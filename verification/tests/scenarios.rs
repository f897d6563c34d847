use sophia::error::Error;
use sophia::number::Number;
use sophia::parser::Parser;
use sophia::runtime::{Signature, Task};
use sophia::value::Value;

fn entry(key: &str, name: &str, signature: Vec<&str>, last: &str) -> (String, Signature) {
    (
        key.to_string(),
        Signature {
            name: name.to_string(),
            signature: signature.iter().map(|x| x.to_string()).collect(),
            last: last.to_string(),
            total: true,
        },
    )
}

fn table() -> Vec<(String, Signature)> {
    vec![
        entry("return_none", "return", vec![], "none"),
        entry("return_any", "return", vec!["any"], "?"),
        entry("u_add", "+", vec!["number"], "number"),
        entry("b_add", "+", vec!["number", "number"], "number"),
        entry("u_sub", "-", vec!["number"], "number"),
        entry("b_sub", "-", vec!["number", "number"], "number"),
        entry("b_mul", "*", vec!["number", "number"], "number"),
        entry("b_div", "/", vec!["number", "number"], "number"),
        entry("b_exp", "^", vec!["number", "number"], "number"),
        entry("b_mdl", "%", vec!["number", "number"], "number"),
        entry("b_eql", "=", vec!["any", "any"], "boolean"),
        entry("b_nql", "!=", vec!["any", "any"], "boolean"),
        entry("b_ltn", "<", vec!["number", "number"], "boolean"),
        entry("b_gtn", ">", vec!["number", "number"], "boolean"),
        entry("b_lql", "<=", vec!["number", "number"], "boolean"),
        entry("b_gql", ">=", vec!["number", "number"], "boolean"),
        entry("b_sbs_string", "in", vec!["string", "string"], "boolean"),
        entry("b_sbs_range", "in", vec!["number", "range"], "boolean"),
        entry("u_lnt", "not", vec!["boolean"], "boolean"),
        entry("b_lnd", "and", vec!["boolean", "boolean"], "boolean"),
        entry("b_lor", "or", vec!["boolean", "boolean"], "boolean"),
        entry("b_lxr", "xor", vec!["boolean", "boolean"], "boolean"),
    ]
}

fn run(source: &str) -> (Value, Task) {
    let mut parser = Parser::new();
    parser.parse(source).unwrap();
    let instructions = parser.analyse().unwrap();
    let mut task = Task::new(&instructions, parser.namespace, &table()).unwrap();
    let value = task.run();
    (value, task)
}

fn whole(value: u64) -> Value {
    Value::Number(Number::whole(value))
}

#[test]
fn scenario_sum_is_bound() {
    let (value, task) = run("x: 2 + 3");
    assert_eq!(value, whole(5));
    assert_eq!(task.value("x"), Some(whole(5)));
    assert_eq!(task.path, 0);
}

#[test]
fn scenario_power() {
    let (value, task) = run("x: 2 ^ 10");
    assert_eq!(value, whole(1024));
    assert_eq!(task.value("x"), Some(whole(1024)));
}

#[test]
fn scenario_comparison() {
    let (value, task) = run("x: 1 < 2");
    assert_eq!(value, Value::Boolean(true));
    assert_eq!(task.value("x"), Some(Value::Boolean(true)));
}

#[test]
fn scenario_substring() {
    let (value, task) = run("x: 'a' in 'cat'");
    assert_eq!(value, Value::Boolean(true));
    assert_eq!(task.value("x"), Some(Value::Boolean(true)));
}

#[test]
fn scenario_return_at_top_level() {
    let (value, task) = run("return 7");
    assert_eq!(value, whole(7));
    assert_eq!(task.path, 0);
}

#[test]
fn scenario_branch_needs_a_function_named_if() {
    let (value, task) = run("if 1 = 1:\n\ty: 1\nelse:\n\ty: 2");
    assert_eq!(value, Value::Failure(Error::READ));
    assert_eq!(task.value("y"), None);
}

#[test]
fn arithmetic_of_rationals() {
    assert_eq!(run("return 1/2 + 1/3").0, Value::Number(Number::ratio(true, 5, 6).unwrap()));
    assert_eq!(run("return 3 - 5").0, Value::Number(Number::ratio(false, 2, 1).unwrap()));
    assert_eq!(run("return 2/3 * 3/4").0, Value::Number(Number::ratio(true, 1, 2).unwrap()));
    assert_eq!(run("return 1 / 4").0, Value::Number(Number::ratio(true, 1, 4).unwrap()));
    assert_eq!(run("return 7 % 3").0, whole(1));
    assert_eq!(run("return 2 ^ -2").0, Value::Number(Number::ratio(true, 1, 4).unwrap()));
    assert_eq!(run("return 2 ^ 0").0, whole(1));
}

#[test]
fn refusals_of_routines() {
    assert_eq!(run("return 1 / 0").0, Value::Failure(Error::TYPE));
    assert_eq!(run("return 1 % 0").0, Value::Failure(Error::TYPE));
    assert_eq!(run("return 2 ^ 1/2").0, Value::Failure(Error::TYPE));
    assert_eq!(run("return 1 + 'a'").0, Value::Failure(Error::TYPE));
}

#[test]
fn logic_and_equality() {
    assert_eq!(run("return true and false").0, Value::Boolean(false));
    assert_eq!(run("return true or false").0, Value::Boolean(true));
    assert_eq!(run("return true xor true").0, Value::Boolean(false));
    assert_eq!(run("return not true").0, Value::Boolean(false));
    assert_eq!(run("return 'a' = 'a'").0, Value::Boolean(true));
    assert_eq!(run("return 1 != 1").0, Value::Boolean(false));
    assert_eq!(run("return 2 >= 3").0, Value::Boolean(false));
    assert_eq!(run("return 2 <= 3").0, Value::Boolean(true));
    assert_eq!(run("return 3 > 2").0, Value::Boolean(true));
}

#[test]
fn runtime_errors() {
    // READ: a value that is not there.
    assert_eq!(run("return y").0, Value::Failure(Error::READ));
    // CALL: a command on what is no function.
    assert_eq!(run("x: 1\nreturn x(2)").0, Value::Failure(Error::CALL));
    // DISP: a node asks for an argument that the signature lacks.
    assert_eq!(run("x: 1\ny: + x").0, Value::Failure(Error::DISP));
    // IMPL: an internal that the machine does not have.
    assert_eq!(run("link a").0, Value::Failure(Error::IMPL));
}

#[test]
fn type_check_of_a_binding() {
    let (value, task) = run("x integer: 2\ny string: 2");
    assert_eq!(value, Value::Failure(Error::TYPE));
    assert_eq!(task.value("x"), Some(whole(2)));
    assert_eq!(task.value("y"), None);
}

#[test]
fn task_needs_its_library() {
    let mut parser = Parser::new();
    parser.parse("x: 1").unwrap();
    let instructions = parser.analyse().unwrap();
    let mut short = table();
    short.pop();
    assert!(Task::new(&instructions, parser.namespace, &short).is_none());
    let mut parser = Parser::new();
    parser.parse("x: []").unwrap();
    let instructions = parser.analyse().unwrap();
    assert!(Task::new(&instructions, parser.namespace, &table()).is_none());
    assert!(Task::new(&Vec::new(), Vec::new(), &table()).is_none());
}

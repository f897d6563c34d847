use std::collections::VecDeque;

use sophia::instructions::Instruction;

fn texts(items: &[&str]) -> Vec<String> {
    items.iter().map(|x| x.to_string()).collect()
}

#[test]
fn constructors_count_their_lists() {
    assert_eq!(
        Instruction::command("+", "1", texts(&["2", "3"])),
        Instruction::Command { name: "+".to_string(), address: "1".to_string(), args: texts(&["2", "3"]), arity: 2 }
    );
    assert_eq!(
        Instruction::internal(".bind", "0", texts(&["1"]), texts(&["x", "y"])),
        Instruction::Internal {
            name: ".bind".to_string(),
            address: "0".to_string(),
            args: texts(&["1"]),
            labels: texts(&["x", "y"]),
            arity: 1,
            count: 2
        }
    );
    assert_eq!(Instruction::label("START"), Instruction::Label("START".to_string()));
}

#[test]
fn textual_form() {
    assert_eq!(Instruction::command("+", "1", texts(&["2", "3"])).to_string(), "+ 1 2 3");
    assert_eq!(Instruction::command("if", "1", texts(&[])).to_string(), "if 1");
    assert_eq!(Instruction::internal(".bind", "0", texts(&["1"]), texts(&["x", "y"])).to_string(), ".bind 0 1; x y");
    assert_eq!(Instruction::internal(".loop", "0", texts(&[]), texts(&[])).to_string(), ".loop 0;");
    assert_eq!(Instruction::label("END").to_string(), "END;");
}

#[test]
fn fixed_endings() {
    let listing = |ops: Vec<Instruction>| -> Vec<String> { ops.iter().map(|op| op.to_string()).collect() };
    assert_eq!(listing(Instruction::type_end()), vec!["constraint 0", "END;"]);
    assert_eq!(listing(Instruction::loop_end()), vec![".loop 0;", "END;"]);
    assert_eq!(listing(Instruction::link_end(&texts(&["a", "b"]))), vec![".link 0; a b"]);
    assert_eq!(listing(Instruction::use_end(&texts(&["a"]), &Some("lib".to_string()))), vec![".use lib; a"]);
    assert_eq!(listing(Instruction::use_end(&texts(&["a"]), &None)), vec![".use 0; a"]);
    assert_eq!(listing(Instruction::else_end()), vec!["END;"]);
    assert_eq!(listing(Instruction::continue_end()), vec![".continue 0;"]);
    assert_eq!(listing(Instruction::break_end()), vec![".break 0;"]);
    assert_eq!(listing(Instruction::receive_end(">x")), vec![".receive >x;"]);
    assert_eq!(
        listing(Instruction::function_execute(
            "f",
            &vec![("f".to_string(), "any".to_string()), ("x".to_string(), "integer".to_string())]
        )),
        vec![".function f any integer; f x", "START;"]
    );
}

#[test]
fn bind_folds_checks() {
    let mut queue: VecDeque<Instruction> = VecDeque::new();
    queue.push_back(Instruction::internal(".check", "1", texts(&["-2", "?"]), texts(&[])));
    queue.push_back(Instruction::internal(".check", "2", texts(&["-3", "integer"]), texts(&[])));
    queue.push_back(Instruction::label("NOISE"));
    queue.push_back(Instruction::internal(".bind", "0", texts(&[]), texts(&["x", "y"])));
    queue.push_back(Instruction::label("END"));
    assert!(Instruction::bindable(&queue));
    let mut acc = vec![Instruction::label("START")];
    Instruction::bind(&mut queue, &mut acc);
    let listing: Vec<String> = acc.iter().map(|op| op.to_string()).collect();
    assert_eq!(listing, vec!["START;", ".check 2 -3 integer;", ".bind 0 -2 2; x y"]);
    assert_eq!(queue.len(), 1);
    assert_eq!(queue[0], Instruction::label("END"));
}

#[test]
fn bind_needs_its_terminator() {
    let mut queue: VecDeque<Instruction> = VecDeque::new();
    queue.push_back(Instruction::internal(".check", "1", texts(&["-2", "?"]), texts(&[])));
    assert!(!Instruction::bindable(&queue));
    queue.push_back(Instruction::internal(".check", "1", texts(&["-2"]), texts(&[])));
    queue.push_back(Instruction::internal(".bind", "0", texts(&[]), texts(&["x"])));
    assert!(!Instruction::bindable(&queue));
}

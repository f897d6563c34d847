//! The linear intermediate representation: commands, internals and labels.

use vstd::prelude::*;
use std::collections::VecDeque;
use vstd::std_specs::vecdeque::VecDequeAdditionalSpecFns;
use crate::string::{copy_texts, join, joined, same_text, same_texts};

verus! {

/// One step of the intermediate representation.
#[derive(Debug)]
pub enum Instruction {
    /// Dispatched through the namespace under `name`.
    Command { name: String, address: String, args: Vec<String>, arity: usize },
    /// A primitive of the machine itself; its name begins with a dot by convention.
    Internal {
        name: String,
        address: String,
        args: Vec<String>,
        labels: Vec<String>,
        arity: usize,
        count: usize,
    },
    /// A marker that is never executed.
    Label(String),
}

/// The mathematical content of an [`Instruction`].
pub ghost enum InstructionView {
    Command { name: Seq<char>, address: Seq<char>, args: Seq<Seq<char>>, arity: nat },
    Internal {
        name: Seq<char>,
        address: Seq<char>,
        args: Seq<Seq<char>>,
        labels: Seq<Seq<char>>,
        arity: nat,
        count: nat,
    },
    Label(Seq<char>),
}

impl View for Instruction {
    type V = InstructionView;

    open spec fn view(&self) -> InstructionView {
        match self {
            Instruction::Command { name, address, args, arity } => InstructionView::Command {
                name: name@,
                address: address@,
                args: args.deep_view(),
                arity: *arity as nat,
            },
            Instruction::Internal {
                name,
                address,
                args,
                labels,
                arity,
                count,
            } => InstructionView::Internal {
                name: name@,
                address: address@,
                args: args.deep_view(),
                labels: labels.deep_view(),
                arity: *arity as nat,
                count: *count as nat,
            },
            Instruction::Label(name) => InstructionView::Label(name@),
        }
    }
}

impl DeepView for Instruction {
    type V = InstructionView;

    open spec fn deep_view(&self) -> InstructionView {
        self@
    }
}

/// A command whose arity is the number of its arguments.
pub open spec fn command_of(name: Seq<char>, address: Seq<char>, args: Seq<Seq<char>>)
    -> InstructionView {
    InstructionView::Command { name, address, args, arity: args.len() }
}

/// An internal whose arity and count are the numbers of its arguments and labels.
pub open spec fn internal_of(
    name: Seq<char>,
    address: Seq<char>,
    args: Seq<Seq<char>>,
    labels: Seq<Seq<char>>,
) -> InstructionView {
    InstructionView::Internal {
        name,
        address,
        args,
        labels,
        arity: args.len(),
        count: labels.len(),
    }
}

/// A label.
pub open spec fn label_of(name: Seq<char>) -> InstructionView {
    InstructionView::Label(name)
}

/// The advisory textual form of an instruction.
pub open spec fn rendered(op: InstructionView) -> Seq<char> {
    match op {
        InstructionView::Command { name, address, args, arity } => {
            name + seq![' '] + address + if arity == 0 {
                Seq::<char>::empty()
            } else {
                seq![' '] + joined(args, seq![' '])
            }
        },
        InstructionView::Internal { name, address, args, labels, arity, count } => {
            name + seq![' '] + address + if arity == 0 {
                Seq::<char>::empty()
            } else {
                seq![' '] + joined(args, seq![' '])
            } + seq![';'] + if count == 0 {
                Seq::<char>::empty()
            } else {
                seq![' '] + joined(labels, seq![' '])
            }
        },
        InstructionView::Label(name) => name + seq![';'],
    }
}

impl Clone for Instruction {
    fn clone(&self) -> (out: Self)
        ensures
            out@ == self@,
    {
        match self {
            Instruction::Command { name, address, args, arity } => Instruction::Command {
                name: name.clone(),
                address: address.clone(),
                args: copy_texts(args),
                arity: *arity,
            },
            Instruction::Internal {
                name,
                address,
                args,
                labels,
                arity,
                count,
            } => Instruction::Internal {
                name: name.clone(),
                address: address.clone(),
                args: copy_texts(args),
                labels: copy_texts(labels),
                arity: *arity,
                count: *count,
            },
            Instruction::Label(name) => Instruction::Label(name.clone()),
        }
    }
}

impl Instruction {
    /// A command: its routine is looked up in the namespace under `name`.
    pub fn command(name: &str, address: &str, args: Vec<String>) -> (op: Instruction)
        ensures
            op@ == command_of(name@, address@, args.deep_view()),
    {
        let arity = args.len();
        Instruction::Command { name: name.to_owned(), address: address.to_owned(), args, arity }
    }

    /// An internal: run by the machine itself.
    pub fn internal(name: &str, address: &str, args: Vec<String>, labels: Vec<String>) -> (op:
        Instruction)
        ensures
            op@ == internal_of(name@, address@, args.deep_view(), labels.deep_view()),
    {
        let arity = args.len();
        let count = labels.len();
        Instruction::Internal {
            name: name.to_owned(),
            address: address.to_owned(),
            args,
            labels,
            arity,
            count,
        }
    }

    /// A label: a marker that is skipped when run.
    pub fn label(name: &str) -> (op: Instruction)
        ensures
            op@ == label_of(name@),
    {
        Instruction::Label(name.to_owned())
    }

    /// Whether two instructions are the same.
    pub fn equals(&self, other: &Instruction) -> (same: bool)
        ensures
            same == (self@ == other@),
    {
        match (self, other) {
            (
                Instruction::Command { name, address, args, arity },
                Instruction::Command { name: name2, address: address2, args: args2, arity: arity2 },
            ) => *name == *name2 && *address == *address2 && same_texts(args, args2) && *arity
                == *arity2,
            (
                Instruction::Internal { name, address, args, labels, arity, count },
                Instruction::Internal {
                    name: name2,
                    address: address2,
                    args: args2,
                    labels: labels2,
                    arity: arity2,
                    count: count2,
                },
            ) => *name == *name2 && *address == *address2 && same_texts(args, args2)
                && same_texts(labels, labels2) && *arity == *arity2 && *count == *count2,
            (Instruction::Label(name), Instruction::Label(name2)) => *name == *name2,
            _ => false,
        }
    }

    /// The advisory textual form: `name address [args…][; labels…]`, and `name;` for a label.
    pub fn to_string(&self) -> (text: String)
        ensures
            text@ == rendered(self@),
    {
        proof {
            reveal_strlit(" ");
            reveal_strlit(";");
        }
        assert(" "@ =~= seq![' ']);
        assert(";"@ =~= seq![';']);
        match self {
            Instruction::Command { name, address, args, arity } => {
                let mut buf = name.clone();
                buf.append(" ");
                buf.append(address.as_str());
                if *arity != 0 {
                    buf.append(" ");
                    let list = join(args, " ");
                    buf.append(list.as_str());
                }
                assert(buf@ =~= rendered(self@));
                buf
            },
            Instruction::Internal { name, address, args, labels, arity, count } => {
                let mut buf = name.clone();
                buf.append(" ");
                buf.append(address.as_str());
                if *arity != 0 {
                    buf.append(" ");
                    let list = join(args, " ");
                    buf.append(list.as_str());
                }
                buf.append(";");
                if *count != 0 {
                    buf.append(" ");
                    let list = join(labels, " ");
                    buf.append(list.as_str());
                }
                assert(buf@ =~= rendered(self@));
                buf
            },
            Instruction::Label(name) => {
                let mut buf = name.clone();
                buf.append(";");
                assert(buf@ =~= rendered(self@));
                buf
            },
        }
    }
}

/// The content of a queue of instructions.
pub open spec fn queue_view(queue: VecDeque<Instruction>) -> Seq<InstructionView> {
    Seq::new(queue.len() as nat, |i: int| queue[i]@)
}

/// What the instructions after a `BIND` label fold into: the checks that
/// stay, then one `.bind`, and the instructions that follow it. A check
/// against `?` goes, and hands on the value it would have checked; any other
/// check stays, and hands on its own address. The `.bind` takes what was
/// handed on as its arguments and keeps its labels. Anything else between
/// is dropped. There is no fold without a `.bind`, or with a check of fewer
/// than two arguments.
pub open spec fn bind_folded(queue: Seq<InstructionView>, registers: Seq<Seq<char>>) -> Option<
    (Seq<InstructionView>, Seq<InstructionView>),
>
    decreases queue.len(),
{
    if queue.len() == 0 {
        None
    } else {
        let rest = queue.drop_first();
        match queue[0] {
            InstructionView::Internal { name, address, args, labels, .. } => {
                if name == ".bind"@ {
                    Some((seq![internal_of(".bind"@, address, registers, labels)], rest))
                } else if name == ".check"@ {
                    if args.len() < 2 {
                        None
                    } else if args[1] == "?"@ {
                        bind_folded(rest, registers.push(args[0]))
                    } else {
                        match bind_folded(rest, registers.push(address)) {
                            Some(more) => Some(
                                (
                                    seq![internal_of(".check"@, address, args, labels)] + more.0,
                                    more.1,
                                ),
                            ),
                            None => None,
                        }
                    }
                } else {
                    bind_folded(rest, registers)
                }
            },
            _ => bind_folded(rest, registers),
        }
    }
}

/// The instructions that a fold leaves in place of what it takes.
pub open spec fn bind_emitted(queue: Seq<InstructionView>, registers: Seq<Seq<char>>) -> Seq<
    InstructionView,
> {
    match bind_folded(queue, registers) {
        Some(fold) => fold.0,
        None => Seq::empty(),
    }
}

/// The instructions that follow what a fold takes.
pub open spec fn bind_rest(queue: Seq<InstructionView>, registers: Seq<Seq<char>>) -> Seq<
    InstructionView,
> {
    match bind_folded(queue, registers) {
        Some(fold) => fold.1,
        None => queue,
    }
}

/// The instructions with each run from a `BIND` label to its `.bind`
/// folded. There is none where a run cannot be folded.
pub open spec fn analysed(queue: Seq<InstructionView>) -> Option<Seq<InstructionView>>
    decreases queue.len(),
{
    if queue.len() == 0 {
        Some(Seq::empty())
    } else if queue[0] == label_of("BIND"@) {
        match bind_folded(queue.drop_first(), Seq::empty()) {
            Some(fold) => if fold.1.len() < queue.len() {
                match analysed(fold.1) {
                    Some(rest) => Some(fold.0 + rest),
                    None => None,
                }
            } else {
                None
            },
            None => None,
        }
    } else {
        match analysed(queue.drop_first()) {
            Some(rest) => Some(seq![queue[0]] + rest),
            None => None,
        }
    }
}

/// What is left after a fold is shorter than what was there.
pub proof fn lemma_bind_folded(queue: Seq<InstructionView>, registers: Seq<Seq<char>>)
    ensures
        bind_folded(queue, registers) matches Some(fold) ==> fold.1.len() < queue.len(),
    decreases queue.len(),
{
    if queue.len() > 0 {
        let rest = queue.drop_first();
        match queue[0] {
            InstructionView::Internal { name, address, args, labels, .. } => {
                if name == ".bind"@ {
                } else if name == ".check"@ {
                    if args.len() >= 2 {
                        lemma_bind_folded(rest, registers.push(args[0]));
                        lemma_bind_folded(rest, registers.push(address));
                    }
                } else {
                    lemma_bind_folded(rest, registers);
                }
            },
            _ => {
                lemma_bind_folded(rest, registers);
            },
        }
    }
}

impl Instruction {
    /// Whether the instructions at the front of the queue can be folded
    /// into one `.bind`.
    pub fn bindable(instructions: &VecDeque<Instruction>) -> (out: bool)
        ensures
            out == bind_folded(queue_view(*instructions), Seq::empty()) is Some,
    {
        let ghost queue = queue_view(*instructions);
        let ghost mut registers: Seq<Seq<char>> = Seq::empty();
        let mut at: usize = 0;
        assert(queue.subrange(0, queue.len() as int) =~= queue);
        while at < instructions.len()
            invariant
                at <= instructions.len(),
                queue == queue_view(*instructions),
                bind_folded(queue, Seq::empty()) is Some == bind_folded(
                    queue.subrange(at as int, queue.len() as int),
                    registers,
                ) is Some,
            decreases instructions.len() - at,
        {
            let ghost part = queue.subrange(at as int, queue.len() as int);
            assert(part.drop_first() =~= queue.subrange(at + 1, queue.len() as int));
            assert(part[0] == instructions[at as int]@);
            match &instructions[at] {
                Instruction::Internal { name, address, args, .. } => {
                    if same_text(name.as_str(), ".bind") {
                        return true;
                    } else if same_text(name.as_str(), ".check") {
                        if args.len() < 2 {
                            return false;
                        }
                        if same_text(args[1].as_str(), "?") {
                            proof {
                                registers = registers.push(args[0]@);
                            }
                        } else {
                            proof {
                                registers = registers.push(address@);
                            }
                        }
                    }
                },
                _ => {},
            }
            at += 1;
        }
        false
    }

    /// Folds the type checks of a name binding into the binding: the
    /// instructions from the front of the queue up to the first `.bind`
    /// leave the queue, and what they fold into is added to `acc`.
    pub fn bind(instructions: &mut VecDeque<Instruction>, acc: &mut Vec<Instruction>)
        requires
            bind_folded(queue_view(*old(instructions)), Seq::empty()) is Some,
        ensures
            final(acc).deep_view() == old(acc).deep_view() + bind_emitted(
                queue_view(*old(instructions)),
                Seq::empty(),
            ),
            queue_view(*final(instructions)) == bind_rest(
                queue_view(*old(instructions)),
                Seq::empty(),
            ),
    {
        let ghost start = queue_view(*instructions);
        let ghost kept = acc.deep_view();
        let ghost mut emitted: Seq<InstructionView> = Seq::empty();
        let mut registers: Vec<String> = Vec::new();
        let mut done = false;
        assert(registers.deep_view() =~= Seq::<Seq<char>>::empty());
        assert(kept + emitted =~= kept);
        assert(emitted + bind_emitted(start, Seq::empty()) =~= bind_emitted(
            start,
            Seq::empty(),
        ));
        while !done
            invariant
                acc.deep_view() == kept + emitted,
                !done ==> bind_folded(queue_view(*instructions), registers.deep_view()) is Some,
                !done ==> bind_emitted(start, Seq::empty()) == emitted + bind_emitted(
                    queue_view(*instructions),
                    registers.deep_view(),
                ),
                !done ==> bind_rest(start, Seq::empty()) == bind_rest(
                    queue_view(*instructions),
                    registers.deep_view(),
                ),
                done ==> bind_emitted(start, Seq::empty()) == emitted,
                done ==> bind_rest(start, Seq::empty()) == queue_view(*instructions),
            decreases instructions.len() + if done { 0int } else { 1int },
        {
            let ghost queue = queue_view(*instructions);
            let ghost handed = registers.deep_view();
            let ghost held = acc.deep_view();
            let popped = instructions.pop_front();
            assert(popped is Some);
            assert(queue_view(*instructions) =~= queue.drop_first());
            match popped {
                Some(Instruction::Internal { name, address, args, labels, .. }) => {
                    assert(queue[0] == (Instruction::Internal {
                        name,
                        address,
                        args,
                        labels,
                        arity: queue[0]->Internal_arity as usize,
                        count: queue[0]->Internal_count as usize,
                    })@);
                    if same_text(name.as_str(), ".bind") {
                        let op = Instruction::internal(
                            ".bind",
                            address.as_str(),
                            registers,
                            labels,
                        );
                        proof {
                            emitted = emitted.push(op@);
                        }
                        acc.push(op);
                        assert(acc.deep_view() =~= held.push(op@));
                        assert(acc.deep_view() =~= kept + emitted);
                        registers = Vec::new();
                        done = true;
                    } else if same_text(name.as_str(), ".check") {
                        if same_text(args[1].as_str(), "?") {
                            registers.push(args[0].clone());
                            assert(registers.deep_view() =~= handed.push(args[0]@));
                        } else {
                            registers.push(address.clone());
                            assert(registers.deep_view() =~= handed.push(address@));
                            let op = Instruction::internal(
                                ".check",
                                address.as_str(),
                                args,
                                labels,
                            );
                            let ghost before = emitted;
                            proof {
                                emitted = emitted.push(op@);
                                let more = bind_folded(
                                    queue.drop_first(),
                                    handed.push(address@),
                                )->0;
                                assert(emitted + more.0 =~= before + (seq![op@] + more.0));
                            }
                            acc.push(op);
                            assert(acc.deep_view() =~= held.push(op@));
                            assert(acc.deep_view() =~= kept + emitted);
                        }
                    }
                },
                _ => {},
            }
        }
    }
}

impl PartialEq for Instruction {
    fn eq(&self, other: &Self) -> (same: bool) {
        self.equals(other)
    }
}

impl vstd::std_specs::cmp::PartialEqSpecImpl for Instruction {
    open spec fn obeys_eq_spec() -> bool {
        true
    }

    open spec fn eq_spec(&self, other: &Self) -> bool {
        self@ == other@
    }
}

} // verus!

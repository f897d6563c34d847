//! The compiler: from source text to instructions.

use vstd::prelude::*;
use std::collections::VecDeque;
use vstd::std_specs::vecdeque::VecDequeAdditionalSpecFns;
use crate::error::SyntaxError;
use crate::instructions::{
    analysed, bind_folded, lemma_bind_folded, queue_view, Instruction, InstructionView,
};
use crate::lowering::{ended, executed};
use crate::namespace::{stored, write_value, Namespace};
use crate::nodes::{lemma_children, nodes_view, Node, NodeView};
use crate::patterns::{
    blank_from, is_empty, is_unmatched, is_unquoted, logical_lines, normalise, normalised, split,
    unmatched_from, unquoted_from,
};
use crate::string::{decimal, same_text, to_decimal, to_negative_decimal};
use crate::tokens::{Token, TokenView};
use crate::tree::{tree_of, tree_readable};
use crate::value::{closure_view, Value, ValueView};

verus! {

/// The constants interned so far: how many, and the namespace that holds them.
pub ghost struct Interned {
    pub constant: nat,
    pub namespace: Seq<(Seq<char>, ValueView)>,
}

/// The register of the constant number `count`: its negative, in decimal.
pub open spec fn constant_name(count: nat) -> Seq<char> {
    seq!['-'] + decimal(count)
}

/// A value interned as the next constant: its register, and the constants after it.
pub open spec fn interned(state: Interned, value: ValueView) -> Option<(Seq<char>, Interned)> {
    if state.constant + 1 > usize::MAX {
        None
    } else {
        let count = state.constant + 1;
        Some(
            (
                constant_name(count),
                Interned {
                    constant: count,
                    namespace: stored(state.namespace, constant_name(count), value),
                },
            ),
        )
    }
}

/// The register of a node that is first visited, and the constants after
/// it. A name stands in its own register; null in `-1`; a number, a string,
/// a boolean and an empty sequence are interned as constants; any other node
/// has the register one above the sum of the indices on its path.
pub open spec fn registered(node: NodeView, sum: nat, state: Interned) -> Option<
    (Seq<char>, Interned),
> {
    match node.token {
        TokenView::Env(name) | TokenView::Name(name) | TokenView::Receive(name) => Some(
            (name, state),
        ),
        TokenView::Null => Some(("-1"@, state)),
        TokenView::Number(x) => interned(state, ValueView::Number(x)),
        TokenView::String(x) => interned(state, ValueView::String(x)),
        TokenView::Boolean(x) => interned(state, ValueView::Boolean(x)),
        _ => if node.token is Sequence && node.nodes.len() == 0 {
            interned(state, ValueView::List(Seq::empty()))
        } else if sum + 1 > usize::MAX {
            None
        } else {
            Some((decimal(sum + 1), state))
        },
    }
}

/// The nodes from `at` on with their registers, and those of all below
/// them, in the order in which they are visited: each node before its
/// children, the children from first to last.
pub open spec fn assigned_kids(kids: Seq<NodeView>, at: int, sum: nat, state: Interned) -> Option<
    (Seq<NodeView>, Interned),
>
    decreases kids, kids.len() - at,
{
    if !(0 <= at < kids.len()) {
        Some((Seq::empty(), state))
    } else if sum + at > usize::MAX {
        None
    } else {
        match registered(kids[at], sum + at as nat, state) {
            Some(own) => match assigned_kids(kids[at].nodes, 0, sum + at as nat, own.1) {
                Some(below) => match assigned_kids(kids, at + 1, sum, below.1) {
                    Some(rest) => Some(
                        (
                            seq![NodeView { register: own.0, nodes: below.0, ..kids[at] }] + rest.0,
                            rest.1,
                        ),
                    ),
                    None => None,
                },
                None => None,
            },
            None => None,
        }
    }
}

/// The instructions of a node from its child `at` on: before each child
/// what the node gives then, and the child's own instructions; after the
/// last child what the node gives at its end.
pub open spec fn emitted_from(node: NodeView, at: int) -> Seq<InstructionView>
    decreases node, node.nodes.len() - at,
{
    if 0 <= at < node.nodes.len() {
        executed(node, at as nat) + emitted_from(node.nodes[at], 0) + emitted_from(node, at + 1)
    } else if at == node.nodes.len() {
        executed(node, at as nat) + ended(node)
    } else {
        Seq::empty()
    }
}

/// Whether the node and every node below it has the children that its
/// instructions name.
pub open spec fn all_sound(node: NodeView) -> bool
    decreases node,
{
    node.sound() && forall|i: int| 0 <= i < node.nodes.len() ==> all_sound(#[trigger] node.nodes[i])
}

/// A compiler: the instructions so far, the namespace of constants, and
/// the number of the last constant.
#[derive(Debug)]
pub struct Parser {
    pub instructions: Vec<Instruction>,
    pub namespace: Namespace,
    /// How many constants there are; the last stands in the register `-constant`.
    pub constant: usize,
}

/// The namespace of a compiler that has read nothing: `0` and `-1` hold nothing.
pub open spec fn first_namespace() -> Seq<(Seq<char>, ValueView)> {
    seq![("0"@, ValueView::Nothing), ("-1"@, ValueView::Nothing)]
}

/// What compiling a source comes to: the error, or the instructions and
/// the constants.
pub open spec fn compiled(source: Seq<char>, state: Interned) -> Result<
    (Seq<InstructionView>, Interned),
    SyntaxError,
> {
    let text = normalised(source);
    if blank_from(text, 0) {
        Err(SyntaxError::Empty)
    } else if unquoted_from(text, 0) {
        Err(SyntaxError::Quotes)
    } else if unmatched_from(text, 0, Seq::empty()) {
        Err(SyntaxError::Brackets)
    } else if !tree_readable(logical_lines(text)) {
        Err(SyntaxError::Number)
    } else {
        generated(tree_of(logical_lines(text)), state)
    }
}

/// What lowering a tree comes to.
pub open spec fn generated(tree: NodeView, state: Interned) -> Result<
    (Seq<InstructionView>, Interned),
    SyntaxError,
> {
    match assigned_kids(tree.nodes, 0, 0, state) {
        Some(kids) => {
            let whole = NodeView { nodes: kids.0, ..tree };
            if all_sound(whole) {
                Ok((emitted_from(whole, 0), kids.1))
            } else {
                Err(SyntaxError::Shape)
            }
        },
        None => Err(SyntaxError::Registers),
    }
}

impl Parser {
    /// The constants of the compiler.
    pub open spec fn state(&self) -> Interned {
        Interned { constant: self.constant as nat, namespace: closure_view(self.namespace) }
    }

    /// A compiler that has read nothing.
    pub fn new() -> (out: Parser)
        ensures
            out.instructions.deep_view() == Seq::<InstructionView>::empty(),
            out.state() == (Interned { constant: 1, namespace: first_namespace() }),
    {
        let mut namespace: Namespace = Vec::new();
        namespace.push(("0".to_owned(), Value::Nothing));
        namespace.push(("-1".to_owned(), Value::Nothing));
        assert(closure_view(namespace) =~= first_namespace());
        let instructions: Vec<Instruction> = Vec::new();
        assert(instructions.deep_view() =~= Seq::<InstructionView>::empty());
        Parser { instructions, namespace, constant: 1 }
    }

    /// Compiles a source: it is normalised, validated, split into logical
    /// lines, parsed into a tree, and lowered. The instructions are added to
    /// those of the compiler, and the constants to its namespace. Where the
    /// source cannot be compiled, nothing is added.
    pub fn parse(&mut self, source: &str) -> (out: Result<(), SyntaxError>)
        ensures
            match compiled(source@, old(self).state()) {
                Ok(done) => ({
                    &&& out is Ok
                    &&& final(self).instructions.deep_view() == old(self).instructions.deep_view()
                        + done.0
                    &&& final(self).state() == done.1
                }),
                Err(fault) => ({
                    &&& out == Err::<(), SyntaxError>(fault)
                    &&& final(self).instructions.deep_view() == old(self).instructions.deep_view()
                }),
            },
    {
        let text = normalise(source);
        if is_empty(text.as_str()) {
            return Err(SyntaxError::Empty);
        }
        if is_unquoted(text.as_str()) {
            return Err(SyntaxError::Quotes);
        }
        if is_unmatched(text.as_str()) {
            return Err(SyntaxError::Brackets);
        }
        let lines = split(text.as_str());
        match Node::tree(lines) {
            Some(tree) => self.generate(tree),
            None => Err(SyntaxError::Number),
        }
    }

    /// Lowers a tree to instructions: every node gets its register, and
    /// then gives its instructions.
    pub fn generate(&mut self, tree: Node) -> (out: Result<(), SyntaxError>)
        ensures
            match generated(tree@, old(self).state()) {
                Ok(done) => ({
                    &&& out is Ok
                    &&& final(self).instructions.deep_view() == old(self).instructions.deep_view()
                        + done.0
                    &&& final(self).state() == done.1
                }),
                Err(fault) => ({
                    &&& out == Err::<(), SyntaxError>(fault)
                    &&& final(self).instructions.deep_view() == old(self).instructions.deep_view()
                }),
            },
    {
        proof {
            lemma_children(tree);
        }
        let kids = match self.assign(&tree.nodes, 0) {
            Some(kids) => kids,
            None => {
                return Err(SyntaxError::Registers);
            },
        };
        let whole = Node {
            token: tree.token,
            nodes: kids,
            scope: tree.scope,
            branch: tree.branch,
            register: tree.register,
        };
        proof {
            lemma_children(whole);
        }
        if !is_all_sound(&whole) {
            return Err(SyntaxError::Shape);
        }
        emit(&whole, &mut self.instructions);
        Ok(())
    }

    /// Interns a value as the next constant, and gives its register.
    fn intern(&mut self, value: Value) -> (out: Option<String>)
        ensures
            match interned(old(self).state(), value@) {
                Some(done) => out matches Some(name) && name@ == done.0 && final(self).state()
                    == done.1,
                None => out is None && final(self).state() == old(self).state(),
            },
            final(self).instructions == old(self).instructions,
    {
        if self.constant == usize::MAX {
            return None;
        }
        self.constant = self.constant + 1;
        let name = to_negative_decimal(self.constant);
        assert(name@ =~= constant_name(self.constant as nat));
        write_value(&mut self.namespace, name.as_str(), value);
        Some(name)
    }

    /// Gives a node its register.
    fn register(&mut self, node: &Node, sum: usize) -> (out: Option<String>)
        ensures
            match registered(node@, sum as nat, old(self).state()) {
                Some(done) => out matches Some(name) && name@ == done.0 && final(self).state()
                    == done.1,
                None => out is None && final(self).state() == old(self).state(),
            },
            final(self).instructions == old(self).instructions,
    {
        proof {
            lemma_children(*node);
        }
        match &node.token {
            Token::Env(name) => Some(name.clone()),
            Token::Name(name) => Some(name.clone()),
            Token::Receive(name) => Some(name.clone()),
            Token::Null => Some("-1".to_owned()),
            Token::Number(x) => self.intern(Value::Number(x.clone())),
            Token::String(x) => self.intern(Value::String(x.clone())),
            Token::Boolean(x) => self.intern(Value::Boolean(*x)),
            other => {
                let empty = match other {
                    Token::Sequence(_) => node.nodes.len() == 0,
                    _ => false,
                };
                if empty {
                    let list: Vec<Value> = Vec::new();
                    assert(Value::List(list)@ == ValueView::List(Seq::empty())) by {
                        assert(Value::List(list)@->List_0 =~= Seq::<ValueView>::empty());
                    }
                    self.intern(Value::List(list))
                } else if sum == usize::MAX {
                    None
                } else {
                    Some(to_decimal(sum + 1))
                }
            },
        }
    }

    /// Gives the nodes, and all below them, their registers.
    #[verifier::loop_isolation(false)]
    fn assign(&mut self, kids: &Vec<Node>, sum: usize) -> (out: Option<Vec<Node>>)
        ensures
            match assigned_kids(nodes_view(*kids), 0, sum as nat, old(self).state()) {
                Some(done) => ({
                    &&& out matches Some(nodes) && nodes_view(nodes) == done.0
                    &&& final(self).state() == done.1
                }),
                None => out is None,
            },
            final(self).instructions == old(self).instructions,
        decreases kids,
    {
        let ghost all = nodes_view(*kids);
        let ghost start = self.state();
        let mut out: Vec<Node> = Vec::new();
        let mut at: usize = 0;
        assert(nodes_view(out) =~= Seq::<NodeView>::empty());
        while at < kids.len()
            invariant
                at <= kids.len(),
                all == nodes_view(*kids),
                self.instructions == old(self).instructions,
                match assigned_kids(all, at as int, sum as nat, self.state()) {
                    Some(rest) => assigned_kids(all, 0, sum as nat, start) == Some(
                        (nodes_view(out) + rest.0, rest.1),
                    ),
                    None => assigned_kids(all, 0, sum as nat, start) is None,
                },
            decreases kids.len() - at,
        {
            let ghost before = nodes_view(out);
            let child = &kids[at];
            proof {
                lemma_children(*child);
            }
            if sum > usize::MAX - at {
                return None;
            }
            let register = match self.register(child, sum + at) {
                Some(register) => register,
                None => {
                    return None;
                },
            };
            let below = match self.assign(&child.nodes, sum + at) {
                Some(below) => below,
                None => {
                    return None;
                },
            };
            let node = Node {
                token: child.token.clone(),
                nodes: below,
                scope: child.scope,
                branch: child.branch,
                register,
            };
            proof {
                lemma_children(node);
                let rest = assigned_kids(all, at + 1, sum as nat, self.state());
                if let Some(more) = rest {
                    assert(before.push(node@) + more.0 =~= before + (seq![node@] + more.0));
                }
            }
            out.push(node);
            assert(nodes_view(out) =~= before.push(node@));
            at += 1;
        }
        assert(nodes_view(out) + Seq::<NodeView>::empty() =~= nodes_view(out));
        Some(out)
    }

    /// Optimises the instructions: each run from a `BIND` label to its
    /// `.bind` is folded into the binding. There is no result where a run
    /// has no `.bind`.
    pub fn analyse(&self) -> (out: Option<Vec<Instruction>>)
        ensures
            out.deep_view() == analysed(self.instructions.deep_view()),
    {
        let mut queue: VecDeque<Instruction> = VecDeque::new();
        let mut at: usize = 0;
        while at < self.instructions.len()
            invariant
                at <= self.instructions.len(),
                queue.len() == at,
                forall|i: int| 0 <= i < at ==> queue[i]@ == self.instructions[i]@,
            decreases self.instructions.len() - at,
        {
            queue.push_back(self.instructions[at].clone());
            at += 1;
        }
        assert(queue_view(queue) =~= self.instructions.deep_view());
        let ghost all = self.instructions.deep_view();
        let mut acc: Vec<Instruction> = Vec::new();
        assert(acc.deep_view() =~= Seq::<InstructionView>::empty());
        while queue.len() > 0
            invariant
                all == self.instructions.deep_view(),
                match analysed(queue_view(queue)) {
                    Some(rest) => analysed(all) == Some(acc.deep_view() + rest),
                    None => analysed(all) is None,
                },
            decreases queue.len(),
        {
            let ghost before = queue_view(queue);
            let ghost held = acc.deep_view();
            let op = queue.pop_front().unwrap();
            assert(queue_view(queue) =~= before.drop_first());
            assert(op@ == before[0]);
            let bind = match &op {
                Instruction::Label(name) => same_text(name.as_str(), "BIND"),
                _ => false,
            };
            if bind {
                if !Instruction::bindable(&queue) {
                    assert(analysed(before) is None);
                    return None;
                }
                proof {
                    lemma_bind_folded(before.drop_first(), Seq::empty());
                    let fold = bind_folded(before.drop_first(), Seq::empty())->0;
                    if let Some(rest) = analysed(fold.1) {
                        assert((held + fold.0) + rest =~= held + (fold.0 + rest));
                    }
                }
                Instruction::bind(&mut queue, &mut acc);
            } else {
                proof {
                    if let Some(rest) = analysed(before.drop_first()) {
                        assert(held.push(op@) + rest =~= held + (seq![op@] + rest));
                    }
                }
                acc.push(op);
                assert(acc.deep_view() =~= held.push(op@));
            }
        }
        assert(acc.deep_view() + Seq::<InstructionView>::empty() =~= acc.deep_view());
        Some(acc)
    }
}

/// Whether the node and every node below it has the children that its
/// instructions name.
#[verifier::loop_isolation(false)]
pub fn is_all_sound(node: &Node) -> (out: bool)
    ensures
        out == all_sound(node@),
    decreases node,
{
    proof {
        lemma_children(*node);
    }
    if !node.is_sound() {
        return false;
    }
    let mut at: usize = 0;
    while at < node.nodes.len()
        invariant
            at <= node.nodes.len(),
            forall|i: int| 0 <= i < at ==> all_sound(#[trigger] node@.nodes[i]),
        decreases node.nodes.len() - at,
    {
        if !is_all_sound(&node.nodes[at]) {
            assert(!all_sound(node@.nodes[at as int]));
            return false;
        }
        at += 1;
    }
    true
}

/// Adds the instructions of a node, and of all below it, to `out`.
#[verifier::loop_isolation(false)]
pub fn emit(node: &Node, out: &mut Vec<Instruction>)
    requires
        all_sound(node@),
    ensures
        final(out).deep_view() == old(out).deep_view() + emitted_from(node@, 0),
    decreases node,
{
    proof {
        lemma_children(*node);
    }
    let ghost kept = out.deep_view();
    let ghost mut given: Seq<InstructionView> = Seq::empty();
    let mut at: usize = 0;
    assert(kept + given =~= kept);
    assert(given + emitted_from(node@, 0) =~= emitted_from(node@, 0));
    while at < node.nodes.len()
        invariant
            at <= node.nodes.len(),
            out.deep_view() == kept + given,
            emitted_from(node@, 0) == given + emitted_from(node@, at as int),
        decreases node.nodes.len() - at,
    {
        let ghost before = given;
        let mut first = Instruction::execute(node, at);
        let ghost head = first.deep_view();
        let ghost held = out.deep_view();
        out.append(&mut first);
        assert(out.deep_view() =~= held + head);
        let ghost held = out.deep_view();
        assert(all_sound(node@.nodes[at as int]));
        emit(&node.nodes[at], out);
        proof {
            let below = emitted_from(node@.nodes[at as int], 0);
            given = given + head + below;
            assert(out.deep_view() =~= kept + given);
            assert(given + emitted_from(node@, at + 1) =~= before + (head + below + emitted_from(
                node@,
                at + 1,
            )));
        }
        at += 1;
    }
    let mut first = Instruction::execute(node, at);
    let mut last = Instruction::end(node);
    let ghost head = first.deep_view();
    let ghost tail = last.deep_view();
    let ghost held = out.deep_view();
    out.append(&mut first);
    out.append(&mut last);
    assert(out.deep_view() =~= held + (head + tail));
    assert(kept + given + (head + tail) =~= kept + (given + (head + tail)));
}

} // verus!

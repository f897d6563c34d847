//! Lowering: the instructions that each node of the tree gives.
//!
//! A node gives instructions before each of its children is visited, by
//! `execute`, and after the last, by `end`.

use vstd::prelude::*;
use crate::instructions::{command_of, internal_of, label_of, Instruction, InstructionView};
use crate::nodes::{lemma_children, nodes_view, Node, NodeView};
use crate::string::{copy_texts, decimal, number_of, parse_decimal, to_decimal};
use crate::tokens::{pairs_view, Token, TokenView};

verus! {

/// The registers of the nodes from `from` on.
pub open spec fn registers(nodes: Seq<NodeView>, from: int) -> Seq<Seq<char>> {
    Seq::new((nodes.len() - from) as nat, |i: int| nodes[from + i].register)
}

/// The names of an ordered map.
pub open spec fn keys(pairs: Seq<(Seq<char>, Seq<char>)>) -> Seq<Seq<char>> {
    Seq::new(pairs.len(), |i: int| pairs[i].0)
}

/// What the names of an ordered map stand for.
pub open spec fn values(pairs: Seq<(Seq<char>, Seq<char>)>) -> Seq<Seq<char>> {
    Seq::new(pairs.len(), |i: int| pairs[i].1)
}

/// The label that opens the block of a node: `ELSE` for the second half of
/// an `else …`, and `START` for any other.
pub open spec fn opening(node: NodeView) -> InstructionView {
    label_of(
        if node.branch {
            "ELSE"@
        } else {
            "START"@
        },
    )
}

/// Before a type's block: with a prototype, a check of the prototype against
/// the supertype; the type itself; and the label.
pub open spec fn type_executed(
    node: NodeView,
    name: Seq<char>,
    supertype: Seq<char>,
    prototype: bool,
) -> Seq<InstructionView> {
    if prototype {
        seq![
            internal_of(
                ".check"@,
                node.register,
                seq![node.nodes[0].register, supertype],
                Seq::empty(),
            ),
            internal_of(".type"@, name, seq![supertype, node.register], Seq::empty()),
            label_of("START"@),
        ]
    } else {
        seq![internal_of(".type"@, name, seq![supertype], Seq::empty()), label_of("START"@)]
    }
}

/// Before a function's block: the function, with the types as arguments and
/// the names as labels; and the label.
pub open spec fn function_executed(name: Seq<char>, signature: Seq<(Seq<char>, Seq<char>)>) -> Seq<
    InstructionView,
> {
    seq![internal_of(".function"@, name, values(signature), keys(signature)), label_of("START"@)]
}

/// After the condition of a branch: the test.
pub open spec fn branch_executed(node: NodeView) -> Seq<InstructionView> {
    seq![command_of("if"@, node.register, seq![node.nodes[0].register])]
}

/// After the iterable of a loop: the iterator, the label, and the step.
pub open spec fn for_executed(node: NodeView, index: Seq<char>) -> Seq<InstructionView> {
    seq![
        internal_of(".iterator"@, node.register, seq![node.nodes[0].register], Seq::empty()),
        opening(node),
        internal_of(".next"@, index, seq![node.register], Seq::empty()),
    ]
}

/// After the first half of a conditional expression.
pub open spec fn right_con_executed(node: NodeView) -> Seq<InstructionView> {
    seq![
        internal_of(".bind"@, "0"@, seq![node.nodes[0].register], seq![node.register]),
        command_of("if"@, node.register, Seq::empty()),
        label_of("END"@),
        label_of("ELSE"@),
    ]
}

/// The instructions of a node before its child `index` is visited.
pub open spec fn executed(node: NodeView, index: nat) -> Seq<InstructionView> {
    if index == 0 {
        match node.token {
            TokenView::Type { name, supertype, prototype } => type_executed(
                node,
                name,
                supertype,
                prototype,
            ),
            TokenView::Function { name, signature } => function_executed(name, signature),
            TokenView::Module | TokenView::If | TokenView::While | TokenView::For(_)
            | TokenView::Else => seq![opening(node)],
            _ => Seq::empty(),
        }
    } else if index == 1 {
        match node.token {
            TokenView::If | TokenView::While | TokenView::LeftConditional => branch_executed(node),
            TokenView::For(index) => for_executed(node, index),
            TokenView::RightConditional => right_con_executed(node),
            _ => Seq::empty(),
        }
    } else {
        Seq::empty()
    }
}

/// After a type's block.
pub open spec fn type_ended() -> Seq<InstructionView> {
    seq![command_of("constraint"@, "0"@, Seq::empty()), label_of("END"@)]
}

/// After a module or a function: the return of the last child's value.
pub open spec fn method_ended(node: NodeView) -> Seq<InstructionView> {
    seq![command_of("return"@, "0"@, seq![node.nodes.last().register]), label_of("END"@)]
}

/// The checks of a list of bindings: each value against its type, into the
/// registers that follow the node's own.
pub open spec fn checks(node: NodeView, binds: Seq<(Seq<char>, Seq<char>)>, base: nat) -> Seq<
    InstructionView,
> {
    Seq::new(
        binds.len(),
        |i: int|
            internal_of(
                ".check"@,
                decimal((base + i) as nat),
                seq![node.nodes[i].register, binds[i].1],
                Seq::empty(),
            ),
    )
}

/// After a list of bindings: the label, the checks, and the binding of the names.
pub open spec fn assign_ended(node: NodeView, binds: Seq<(Seq<char>, Seq<char>)>) -> Seq<
    InstructionView,
> {
    seq![label_of("BIND"@)] + checks(node, binds, number_of(node.register)->0) + seq![
        internal_of(".bind"@, "0"@, Seq::empty(), keys(binds)),
    ]
}

/// After the block of an `if`.
pub open spec fn if_ended(node: NodeView) -> Seq<InstructionView> {
    seq![command_of("if"@, node.register, Seq::empty()), label_of("END"@)]
}

/// After the block of a loop.
pub open spec fn loop_ended() -> Seq<InstructionView> {
    seq![internal_of(".loop"@, "0"@, Seq::empty(), Seq::empty()), label_of("END"@)]
}

/// After a `return`: the return of the expression's value, where there is one.
pub open spec fn return_ended(node: NodeView) -> Seq<InstructionView> {
    seq![
        command_of(
            "return"@,
            "0"@,
            if node.nodes.len() == 0 {
                Seq::empty()
            } else {
                seq![node.nodes[0].register]
            },
        ),
    ]
}

/// After a `link`.
pub open spec fn link_ended(links: Seq<Seq<char>>) -> Seq<InstructionView> {
    seq![internal_of(".link"@, "0"@, Seq::empty(), links)]
}

/// After a `use`: the source is the address, `0` where none is named.
pub open spec fn use_ended(names: Seq<Seq<char>>, source: Option<Seq<char>>) -> Seq<
    InstructionView,
> {
    seq![
        internal_of(
            ".use"@,
            match source {
                Some(file) => file,
                None => "0"@,
            },
            Seq::empty(),
            names,
        ),
    ]
}

/// After the block of an `else`.
pub open spec fn else_ended() -> Seq<InstructionView> {
    seq![label_of("END"@)]
}

/// An internal without arguments or labels, at the address `0`.
pub open spec fn bare(name: Seq<char>, address: Seq<char>) -> Seq<InstructionView> {
    seq![internal_of(name, address, Seq::empty(), Seq::empty())]
}

/// The registers of the second children of the nodes.
pub open spec fn seconds(nodes: Seq<NodeView>) -> Seq<Seq<char>> {
    Seq::new(nodes.len(), |i: int| nodes[i].nodes[1].register)
}

/// The registers of the first children of the nodes.
pub open spec fn firsts(nodes: Seq<NodeView>) -> Seq<Seq<char>> {
    Seq::new(nodes.len(), |i: int| nodes[i].nodes[0].register)
}

/// After a sequence: nothing for an empty one; a range for one pair of three;
/// a record for pairs; a list for anything else.
pub open spec fn sequence_ended(node: NodeView) -> Seq<InstructionView> {
    if node.nodes.len() == 0 {
        Seq::empty()
    } else if node.nodes[0].token is Pair && node.nodes[0].nodes.len() == 3 {
        seq![
            internal_of(
                ".range"@,
                node.register,
                registers(node.nodes[0].nodes, 0),
                Seq::empty(),
            ),
        ]
    } else if node.nodes[0].token is Pair {
        seq![internal_of(".record"@, node.register, seconds(node.nodes), firsts(node.nodes))]
    } else {
        seq![internal_of(".list"@, node.register, registers(node.nodes, 0), Seq::empty())]
    }
}

/// After a group in braces.
pub open spec fn meta_ended(node: NodeView) -> Seq<InstructionView> {
    seq![internal_of("meta"@, node.register, seq![node.nodes[0].register], Seq::empty())]
}

/// After a binding of futures.
pub open spec fn bind_ended(node: NodeView) -> Seq<InstructionView> {
    seq![internal_of(".future"@, node.register, registers(node.nodes, 0), Seq::empty())]
}

/// After the second half of a conditional expression.
pub open spec fn right_con_ended(node: NodeView) -> Seq<InstructionView> {
    seq![internal_of(".bind"@, "0"@, seq![node.nodes[1].register], seq![node.register])]
}

/// After a pair: a slice for a pair of three, else nothing.
pub open spec fn pair_ended(node: NodeView) -> Seq<InstructionView> {
    if node.nodes.len() == 3 {
        seq![internal_of(".slice"@, node.register, registers(node.nodes, 0), Seq::empty())]
    } else {
        Seq::empty()
    }
}

/// After a call: the function is looked up under the register of the first child.
pub open spec fn call_ended(node: NodeView) -> Seq<InstructionView> {
    seq![command_of(node.nodes[0].register, node.register, registers(node.nodes, 1))]
}

/// After an index: one access for each index, each but the first on the
/// result of the one before.
pub open spec fn index_ended(node: NodeView) -> Seq<InstructionView> {
    Seq::new(
        (node.nodes.len() - 1) as nat,
        |i: int|
            command_of(
                "["@,
                node.register,
                seq![
                    if i == 0 {
                        node.nodes[0].register
                    } else {
                        node.register
                    },
                    node.nodes[i + 1].register,
                ],
            ),
    )
}

/// After an operator: the operator on the registers of its operands.
pub open spec fn operator_ended(node: NodeView, symbol: Seq<char>) -> Seq<InstructionView> {
    seq![command_of(symbol, node.register, registers(node.nodes, 0))]
}

/// The instructions of a node after its last child.
pub open spec fn ended(node: NodeView) -> Seq<InstructionView> {
    match node.token {
        TokenView::Type { .. } => type_ended(),
        TokenView::Module | TokenView::Function { .. } => method_ended(node),
        TokenView::Assign(binds) => assign_ended(node, binds),
        TokenView::If => if_ended(node),
        TokenView::While | TokenView::For(_) => loop_ended(),
        TokenView::Return => return_ended(node),
        TokenView::Link(links) => link_ended(links),
        TokenView::Use { names, source } => use_ended(names, source),
        TokenView::Else => else_ended(),
        TokenView::Continue => bare(".continue"@, "0"@),
        TokenView::Break => bare(".break"@, "0"@),
        TokenView::Receive(name) => bare(".receive"@, name),
        TokenView::Sequence(_) => sequence_ended(node),
        TokenView::Meta(_) => meta_ended(node),
        TokenView::Bind => bind_ended(node),
        TokenView::RightConditional => right_con_ended(node),
        TokenView::Pair => pair_ended(node),
        TokenView::Call => call_ended(node),
        TokenView::Index => index_ended(node),
        TokenView::Prefix(symbol) | TokenView::Infix(symbol) | TokenView::InfixR(symbol) => {
            operator_ended(node, symbol)
        },
        _ => Seq::empty(),
    }
}

/// Whether every node of the list has two children.
pub open spec fn paired_all(nodes: Seq<NodeView>) -> bool {
    forall|i: int| 0 <= i < nodes.len() ==> (#[trigger] nodes[i]).nodes.len() >= 2
}

impl NodeView {
    /// Whether the node has the children that its instructions name: a type
    /// with a prototype, a module, a function, a group in braces and a call
    /// have one; the second half of a conditional and an index have two; a
    /// list of bindings has one for each binding, and a register that is a
    /// number; the pairs of a record have two each.
    pub open spec fn sound(self) -> bool {
        match self.token {
            TokenView::Type { prototype, .. } => prototype ==> self.nodes.len() >= 1,
            TokenView::Module | TokenView::Function { .. } => self.nodes.len() >= 1,
            TokenView::Assign(binds) => binds.len() <= self.nodes.len() && (number_of(
                self.register,
            ) matches Some(base) && base + binds.len() <= usize::MAX),
            TokenView::Meta(_) | TokenView::Call => self.nodes.len() >= 1,
            TokenView::RightConditional | TokenView::Index => self.nodes.len() >= 2,
            TokenView::Sequence(_) => self.nodes.len() > 0 && self.nodes[0].token is Pair
                && self.nodes[0].nodes.len() != 3 ==> paired_all(self.nodes),
            _ => true,
        }
    }
}

/// No texts.
fn texts0() -> (out: Vec<String>)
    ensures
        out.deep_view() == Seq::<Seq<char>>::empty(),
{
    let out: Vec<String> = Vec::new();
    assert(out.deep_view() =~= Seq::<Seq<char>>::empty());
    out
}

/// One text.
fn texts1(first: String) -> (out: Vec<String>)
    ensures
        out.deep_view() == seq![first@],
{
    let mut out: Vec<String> = Vec::new();
    out.push(first);
    assert(out.deep_view() =~= seq![first@]);
    out
}

/// Two texts.
fn texts2(first: String, second: String) -> (out: Vec<String>)
    ensures
        out.deep_view() == seq![first@, second@],
{
    let mut out: Vec<String> = Vec::new();
    out.push(first);
    out.push(second);
    assert(out.deep_view() =~= seq![first@, second@]);
    out
}

/// No instructions.
fn ops0() -> (out: Vec<Instruction>)
    ensures
        out.deep_view() == Seq::<InstructionView>::empty(),
{
    let out: Vec<Instruction> = Vec::new();
    assert(out.deep_view() =~= Seq::<InstructionView>::empty());
    out
}

/// One instruction.
fn ops1(first: Instruction) -> (out: Vec<Instruction>)
    ensures
        out.deep_view() == seq![first@],
{
    let mut out: Vec<Instruction> = Vec::new();
    out.push(first);
    assert(out.deep_view() =~= seq![first@]);
    out
}

/// Two instructions.
fn ops2(first: Instruction, second: Instruction) -> (out: Vec<Instruction>)
    ensures
        out.deep_view() == seq![first@, second@],
{
    let mut out: Vec<Instruction> = Vec::new();
    out.push(first);
    out.push(second);
    assert(out.deep_view() =~= seq![first@, second@]);
    out
}

/// Three instructions.
fn ops3(first: Instruction, second: Instruction, third: Instruction) -> (out: Vec<Instruction>)
    ensures
        out.deep_view() == seq![first@, second@, third@],
{
    let mut out: Vec<Instruction> = Vec::new();
    out.push(first);
    out.push(second);
    out.push(third);
    assert(out.deep_view() =~= seq![first@, second@, third@]);
    out
}

/// The registers of the nodes from `from` on.
fn registers_of(nodes: &Vec<Node>, from: usize) -> (out: Vec<String>)
    requires
        from <= nodes.len(),
    ensures
        out.deep_view() == registers(nodes_view(*nodes), from as int),
{
    let mut out: Vec<String> = Vec::new();
    let mut at = from;
    while at < nodes.len()
        invariant
            from <= at <= nodes.len(),
            out.len() == at - from,
            forall|i: int| 0 <= i < at - from ==> out[i]@ == nodes[from + i]@.register,
        decreases nodes.len() - at,
    {
        out.push(nodes[at].register.clone());
        at += 1;
    }
    assert(out.deep_view() =~= registers(nodes_view(*nodes), from as int));
    out
}

/// The names of an ordered map, and what they stand for.
fn unzip(pairs: &Vec<(String, String)>) -> (out: (Vec<String>, Vec<String>))
    ensures
        out.0.deep_view() == keys(pairs_view(*pairs)),
        out.1.deep_view() == values(pairs_view(*pairs)),
{
    let mut names: Vec<String> = Vec::new();
    let mut kinds: Vec<String> = Vec::new();
    let mut at: usize = 0;
    while at < pairs.len()
        invariant
            at <= pairs.len(),
            names.len() == at,
            kinds.len() == at,
            forall|i: int| 0 <= i < at ==> names[i]@ == pairs[i].0@ && kinds[i]@ == pairs[i].1@,
        decreases pairs.len() - at,
    {
        names.push(pairs[at].0.clone());
        kinds.push(pairs[at].1.clone());
        at += 1;
    }
    assert(names.deep_view() =~= keys(pairs_view(*pairs)));
    assert(kinds.deep_view() =~= values(pairs_view(*pairs)));
    (names, kinds)
}

impl Node {
    /// Whether the node has the children that its instructions name.
    pub fn is_sound(&self) -> (out: bool)
        ensures
            out == self@.sound(),
    {
        proof {
            lemma_children(*self);
        }
        match &self.token {
            Token::Type { prototype, .. } => !*prototype || self.nodes.len() >= 1,
            Token::Module => self.nodes.len() >= 1,
            Token::Function { .. } => self.nodes.len() >= 1,
            Token::Assign(binds) => {
                if binds.len() > self.nodes.len() {
                    false
                } else {
                    match parse_decimal(self.register.as_str()) {
                        Some(base) => binds.len() <= usize::MAX - base,
                        None => false,
                    }
                }
            },
            Token::Meta(_) => self.nodes.len() >= 1,
            Token::Call => self.nodes.len() >= 1,
            Token::RightConditional => self.nodes.len() >= 2,
            Token::Index => self.nodes.len() >= 2,
            Token::Sequence(_) => {
                if self.nodes.len() == 0 {
                    return true;
                }
                proof {
                    lemma_children(self.nodes[0]);
                }
                let first = &self.nodes[0];
                let pairs = match first.token {
                    Token::Pair => first.nodes.len() != 3,
                    _ => false,
                };
                if !pairs {
                    return true;
                }
                let mut at: usize = 0;
                while at < self.nodes.len()
                    invariant
                        at <= self.nodes.len(),
                        self@.nodes == nodes_view(self.nodes),
                        self@.token is Sequence,
                        self@.nodes.len() > 0,
                        self@.nodes[0].token is Pair,
                        self@.nodes[0].nodes.len() != 3,
                        forall|i: int| 0 <= i < at ==> (#[trigger] self@.nodes[i]).nodes.len() >= 2,
                    decreases self.nodes.len() - at,
                {
                    proof {
                        lemma_children(self.nodes[at as int]);
                    }
                    if self.nodes[at].nodes.len() < 2 {
                        assert(self@.nodes[at as int].nodes.len() < 2);
                        return false;
                    }
                    at += 1;
                }
                true
            },
            _ => true,
        }
    }
}

impl Instruction {
    /// The instructions of a node before its child `index` is visited.
    pub fn execute(node: &Node, index: usize) -> (out: Vec<Instruction>)
        requires
            node@.sound(),
            index <= node.nodes.len(),
        ensures
            out.deep_view() == executed(node@, index as nat),
    {
        proof {
            lemma_children(*node);
        }
        if index == 0 {
            match &node.token {
                Token::Type { name, supertype, prototype } => Instruction::type_execute(
                    node,
                    name.as_str(),
                    supertype.as_str(),
                    prototype,
                ),
                Token::Function { name, signature } => Instruction::function_execute(
                    name.as_str(),
                    signature,
                ),
                Token::Module => Instruction::block_execute(node),
                Token::If => Instruction::block_execute(node),
                Token::While => Instruction::block_execute(node),
                Token::For(_) => Instruction::block_execute(node),
                Token::Else => Instruction::block_execute(node),
                _ => ops0(),
            }
        } else if index == 1 {
            match &node.token {
                Token::If => Instruction::branch_execute(node),
                Token::While => Instruction::branch_execute(node),
                Token::LeftConditional => Instruction::branch_execute(node),
                Token::For(index) => Instruction::for_execute(node, index.as_str()),
                Token::RightConditional => Instruction::right_con_execute(node),
                _ => ops0(),
            }
        } else {
            ops0()
        }
    }

    /// The label that opens the block of a node.
    pub fn block_execute(node: &Node) -> (out: Vec<Instruction>)
        ensures
            out.deep_view() == seq![opening(node@)],
    {
        ops1(
            Instruction::label(
                if node.branch {
                    "ELSE"
                } else {
                    "START"
                },
            ),
        )
    }

    /// The instructions before a type's block.
    pub fn type_execute(node: &Node, name: &str, supertype: &str, prototype: &bool) -> (out: Vec<
        Instruction,
    >)
        requires
            *prototype ==> node.nodes.len() >= 1,
        ensures
            out.deep_view() == type_executed(node@, name@, supertype@, *prototype),
    {
        proof {
            lemma_children(*node);
        }
        if *prototype {
            ops3(
                Instruction::internal(
                    ".check",
                    node.register.as_str(),
                    texts2(node.nodes[0].register.clone(), supertype.to_owned()),
                    texts0(),
                ),
                Instruction::internal(
                    ".type",
                    name,
                    texts2(supertype.to_owned(), node.register.clone()),
                    texts0(),
                ),
                Instruction::label("START"),
            )
        } else {
            ops2(
                Instruction::internal(".type", name, texts1(supertype.to_owned()), texts0()),
                Instruction::label("START"),
            )
        }
    }

    /// The instructions before a function's block.
    pub fn function_execute(name: &str, signature: &Vec<(String, String)>) -> (out: Vec<
        Instruction,
    >)
        ensures
            out.deep_view() == function_executed(name@, pairs_view(*signature)),
    {
        let (names, kinds) = unzip(signature);
        ops2(Instruction::internal(".function", name, kinds, names), Instruction::label("START"))
    }

    /// The test after the condition of a branch.
    pub fn branch_execute(node: &Node) -> (out: Vec<Instruction>)
        requires
            node.nodes.len() >= 1,
        ensures
            out.deep_view() == branch_executed(node@),
    {
        proof {
            lemma_children(*node);
        }
        ops1(
            Instruction::command(
                "if",
                node.register.as_str(),
                texts1(node.nodes[0].register.clone()),
            ),
        )
    }

    /// The instructions after the iterable of a loop.
    pub fn for_execute(node: &Node, index: &str) -> (out: Vec<Instruction>)
        requires
            node.nodes.len() >= 1,
        ensures
            out.deep_view() == for_executed(node@, index@),
    {
        proof {
            lemma_children(*node);
        }
        ops3(
            Instruction::internal(
                ".iterator",
                node.register.as_str(),
                texts1(node.nodes[0].register.clone()),
                texts0(),
            ),
            Instruction::label(
                if node.branch {
                    "ELSE"
                } else {
                    "START"
                },
            ),
            Instruction::internal(".next", index, texts1(node.register.clone()), texts0()),
        )
    }

    /// The instructions after the first half of a conditional expression.
    pub fn right_con_execute(node: &Node) -> (out: Vec<Instruction>)
        requires
            node.nodes.len() >= 1,
        ensures
            out.deep_view() == right_con_executed(node@),
    {
        proof {
            lemma_children(*node);
        }
        let mut out = ops3(
            Instruction::internal(
                ".bind",
                "0",
                texts1(node.nodes[0].register.clone()),
                texts1(node.register.clone()),
            ),
            Instruction::command("if", node.register.as_str(), texts0()),
            Instruction::label("END"),
        );
        let ghost before = out.deep_view();
        out.push(Instruction::label("ELSE"));
        assert(out.deep_view() =~= before.push(label_of("ELSE"@)));
        assert(out.deep_view() =~= right_con_executed(node@));
        out
    }

    /// The instructions of a node after its last child.
    pub fn end(node: &Node) -> (out: Vec<Instruction>)
        requires
            node@.sound(),
        ensures
            out.deep_view() == ended(node@),
    {
        proof {
            lemma_children(*node);
        }
        match &node.token {
            Token::Type { .. } => Instruction::type_end(),
            Token::Module => Instruction::method_end(node),
            Token::Function { .. } => Instruction::method_end(node),
            Token::Assign(binds) => Instruction::assign_end(node, binds),
            Token::If => Instruction::if_end(node),
            Token::While => Instruction::loop_end(),
            Token::For(_) => Instruction::loop_end(),
            Token::Return => Instruction::return_end(node),
            Token::Link(links) => Instruction::link_end(links),
            Token::Use { names, source } => Instruction::use_end(names, source),
            Token::Else => Instruction::else_end(),
            Token::Continue => Instruction::continue_end(),
            Token::Break => Instruction::break_end(),
            Token::Receive(name) => Instruction::receive_end(name.as_str()),
            Token::Sequence(_) => Instruction::sequence_end(node),
            Token::Meta(_) => Instruction::meta_end(node),
            Token::Bind => Instruction::bind_end(node),
            Token::RightConditional => Instruction::right_con_end(node),
            Token::Pair => Instruction::pair_end(node),
            Token::Call => Instruction::call_end(node),
            Token::Index => Instruction::index_end(node),
            Token::Prefix(symbol) => Instruction::operator_end(node, symbol.as_str()),
            Token::Infix(symbol) => Instruction::operator_end(node, symbol.as_str()),
            Token::InfixR(symbol) => Instruction::operator_end(node, symbol.as_str()),
            _ => ops0(),
        }
    }

    /// The instructions after a type's block.
    pub fn type_end() -> (out: Vec<Instruction>)
        ensures
            out.deep_view() == type_ended(),
    {
        ops2(Instruction::command("constraint", "0", texts0()), Instruction::label("END"))
    }

    /// The instructions after a module or a function.
    fn method_end(node: &Node) -> (out: Vec<Instruction>)
        requires
            node.nodes.len() >= 1,
        ensures
            out.deep_view() == method_ended(node@),
    {
        proof {
            lemma_children(*node);
        }
        ops2(
            Instruction::command(
                "return",
                "0",
                texts1(node.nodes[node.nodes.len() - 1].register.clone()),
            ),
            Instruction::label("END"),
        )
    }

    /// The instructions after a list of bindings.
    fn assign_end(node: &Node, binds: &Vec<(String, String)>) -> (out: Vec<Instruction>)
        requires
            binds.len() <= node.nodes.len(),
            number_of(node@.register) matches Some(base) && base + binds.len() <= usize::MAX,
        ensures
            out.deep_view() == assign_ended(node@, pairs_view(*binds)),
    {
        proof {
            lemma_children(*node);
        }
        let base = match parse_decimal(node.register.as_str()) {
            Some(base) => base,
            None => 0,
        };
        let ghost bound = pairs_view(*binds);
        let mut out = ops1(Instruction::label("BIND"));
        assert(out.deep_view().len() == 1);
        assert(out.deep_view()[0] == out[0]@);
        let mut at: usize = 0;
        while at < binds.len()
            invariant
                at <= binds.len() <= node.nodes.len(),
                base + binds.len() <= usize::MAX,
                bound == pairs_view(*binds),
                node@.nodes == nodes_view(node.nodes),
                out.len() == at + 1,
                out[0]@ == label_of("BIND"@),
                forall|i: int|
                    0 <= i < at ==> (#[trigger] out@[i + 1])@ == checks(
                        node@,
                        bound,
                        base as nat,
                    )[i],
            decreases binds.len() - at,
        {
            let check = Instruction::internal(
                ".check",
                to_decimal(base + at).as_str(),
                texts2(node.nodes[at].register.clone(), binds[at].1.clone()),
                texts0(),
            );
            out.push(check);
            at += 1;
        }
        let (names, _) = unzip(binds);
        let ghost before = out@;
        let last = Instruction::internal(".bind", "0", texts0(), names);
        out.push(last);
        proof {
            let expected = assign_ended(node@, bound);
            let listed = checks(node@, bound, base as nat);
            assert(number_of(node@.register) == Some(base as nat));
            assert(expected.len() == binds.len() + 2);
            assert forall|i: int| 0 <= i < expected.len() implies out.deep_view()[i]
                == expected[i] by {
                if 0 < i <= binds.len() {
                    assert(out[i] == before[(i - 1) + 1]);
                    assert(before[(i - 1) + 1]@ == listed[i - 1]);
                    assert(expected[i] == listed[i - 1]);
                } else if i == 0 {
                    assert(out[0] == before[0]);
                }
            }
            assert(out.deep_view() =~= expected);
        }
        out
    }

    /// The instructions after the block of an `if`.
    fn if_end(node: &Node) -> (out: Vec<Instruction>)
        ensures
            out.deep_view() == if_ended(node@),
    {
        ops2(
            Instruction::command("if", node.register.as_str(), texts0()),
            Instruction::label("END"),
        )
    }

    /// The instructions after the block of a loop.
    pub fn loop_end() -> (out: Vec<Instruction>)
        ensures
            out.deep_view() == loop_ended(),
    {
        ops2(Instruction::internal(".loop", "0", texts0(), texts0()), Instruction::label("END"))
    }

    /// The instructions after a `return`.
    fn return_end(node: &Node) -> (out: Vec<Instruction>)
        ensures
            out.deep_view() == return_ended(node@),
    {
        proof {
            lemma_children(*node);
        }
        ops1(
            Instruction::command(
                "return",
                "0",
                if node.nodes.len() == 0 {
                    texts0()
                } else {
                    texts1(node.nodes[0].register.clone())
                },
            ),
        )
    }

    /// The instructions after a `link`.
    pub fn link_end(links: &Vec<String>) -> (out: Vec<Instruction>)
        ensures
            out.deep_view() == link_ended(links.deep_view()),
    {
        ops1(Instruction::internal(".link", "0", texts0(), copy_texts(links)))
    }

    /// The instructions after a `use`.
    pub fn use_end(names: &Vec<String>, source: &Option<String>) -> (out: Vec<Instruction>)
        ensures
            out.deep_view() == use_ended(names.deep_view(), source.deep_view()),
    {
        ops1(
            Instruction::internal(
                ".use",
                match source {
                    Some(file) => file.as_str(),
                    None => "0",
                },
                texts0(),
                copy_texts(names),
            ),
        )
    }

    /// The instructions after the block of an `else`.
    pub fn else_end() -> (out: Vec<Instruction>)
        ensures
            out.deep_view() == else_ended(),
    {
        ops1(Instruction::label("END"))
    }

    /// The instructions after a `continue`.
    pub fn continue_end() -> (out: Vec<Instruction>)
        ensures
            out.deep_view() == bare(".continue"@, "0"@),
    {
        ops1(Instruction::internal(".continue", "0", texts0(), texts0()))
    }

    /// The instructions after a `break`.
    pub fn break_end() -> (out: Vec<Instruction>)
        ensures
            out.deep_view() == bare(".break"@, "0"@),
    {
        ops1(Instruction::internal(".break", "0", texts0(), texts0()))
    }

    /// The instructions after a receive.
    pub fn receive_end(name: &str) -> (out: Vec<Instruction>)
        ensures
            out.deep_view() == bare(".receive"@, name@),
    {
        ops1(Instruction::internal(".receive", name, texts0(), texts0()))
    }

    /// The instructions after a sequence.
    fn sequence_end(node: &Node) -> (out: Vec<Instruction>)
        requires
            node@.nodes.len() > 0 && node@.nodes[0].token is Pair && node@.nodes[0].nodes.len() != 3
                ==> paired_all(node@.nodes),
        ensures
            out.deep_view() == sequence_ended(node@),
    {
        proof {
            lemma_children(*node);
        }
        if node.nodes.len() == 0 {
            return ops0();
        }
        proof {
            lemma_children(node.nodes[0]);
        }
        let first = &node.nodes[0];
        let pair = match first.token {
            Token::Pair => true,
            _ => false,
        };
        if pair && first.nodes.len() == 3 {
            ops1(
                Instruction::internal(
                    ".range",
                    node.register.as_str(),
                    registers_of(&first.nodes, 0),
                    texts0(),
                ),
            )
        } else if pair {
            let mut items: Vec<String> = Vec::new();
            let mut names: Vec<String> = Vec::new();
            let mut at: usize = 0;
            while at < node.nodes.len()
                invariant
                    at <= node.nodes.len(),
                    node@.nodes == nodes_view(node.nodes),
                    paired_all(node@.nodes),
                    items.len() == at,
                    names.len() == at,
                    forall|i: int|
                        0 <= i < at ==> items[i]@ == node@.nodes[i].nodes[1].register && names[i]@
                            == node@.nodes[i].nodes[0].register,
                decreases node.nodes.len() - at,
            {
                proof {
                    lemma_children(node.nodes[at as int]);
                }
                assert(node@.nodes[at as int].nodes.len() >= 2);
                let child = &node.nodes[at];
                items.push(child.nodes[1].register.clone());
                names.push(child.nodes[0].register.clone());
                at += 1;
            }
            assert(items.deep_view() =~= seconds(node@.nodes));
            assert(names.deep_view() =~= firsts(node@.nodes));
            ops1(Instruction::internal(".record", node.register.as_str(), items, names))
        } else {
            ops1(
                Instruction::internal(
                    ".list",
                    node.register.as_str(),
                    registers_of(&node.nodes, 0),
                    texts0(),
                ),
            )
        }
    }

    /// The instructions after a group in braces.
    fn meta_end(node: &Node) -> (out: Vec<Instruction>)
        requires
            node.nodes.len() >= 1,
        ensures
            out.deep_view() == meta_ended(node@),
    {
        proof {
            lemma_children(*node);
        }
        ops1(
            Instruction::internal(
                "meta",
                node.register.as_str(),
                texts1(node.nodes[0].register.clone()),
                texts0(),
            ),
        )
    }

    /// The instructions after a binding of futures.
    fn bind_end(node: &Node) -> (out: Vec<Instruction>)
        ensures
            out.deep_view() == bind_ended(node@),
    {
        proof {
            lemma_children(*node);
        }
        ops1(
            Instruction::internal(
                ".future",
                node.register.as_str(),
                registers_of(&node.nodes, 0),
                texts0(),
            ),
        )
    }

    /// The instructions after the second half of a conditional expression.
    fn right_con_end(node: &Node) -> (out: Vec<Instruction>)
        requires
            node.nodes.len() >= 2,
        ensures
            out.deep_view() == right_con_ended(node@),
    {
        proof {
            lemma_children(*node);
        }
        ops1(
            Instruction::internal(
                ".bind",
                "0",
                texts1(node.nodes[1].register.clone()),
                texts1(node.register.clone()),
            ),
        )
    }

    /// The instructions after a pair.
    fn pair_end(node: &Node) -> (out: Vec<Instruction>)
        ensures
            out.deep_view() == pair_ended(node@),
    {
        proof {
            lemma_children(*node);
        }
        if node.nodes.len() == 3 {
            ops1(
                Instruction::internal(
                    ".slice",
                    node.register.as_str(),
                    registers_of(&node.nodes, 0),
                    texts0(),
                ),
            )
        } else {
            ops0()
        }
    }

    /// The instructions after a call.
    fn call_end(node: &Node) -> (out: Vec<Instruction>)
        requires
            node.nodes.len() >= 1,
        ensures
            out.deep_view() == call_ended(node@),
    {
        proof {
            lemma_children(*node);
        }
        ops1(
            Instruction::command(
                node.nodes[0].register.as_str(),
                node.register.as_str(),
                registers_of(&node.nodes, 1),
            ),
        )
    }

    /// The instructions after an index.
    fn index_end(node: &Node) -> (out: Vec<Instruction>)
        requires
            node.nodes.len() >= 2,
        ensures
            out.deep_view() == index_ended(node@),
    {
        proof {
            lemma_children(*node);
        }
        let mut out: Vec<Instruction> = Vec::new();
        let mut at: usize = 0;
        while at + 1 < node.nodes.len()
            invariant
                at + 1 <= node.nodes.len(),
                node.nodes.len() >= 2,
                node@.nodes == nodes_view(node.nodes),
                out.len() == at,
                forall|i: int| 0 <= i < at ==> (#[trigger] out[i])@ == index_ended(node@)[i],
            decreases node.nodes.len() - at,
        {
            let left = if at == 0 {
                node.nodes[0].register.clone()
            } else {
                node.register.clone()
            };
            out.push(
                Instruction::command(
                    "[",
                    node.register.as_str(),
                    texts2(left, node.nodes[at + 1].register.clone()),
                ),
            );
            at += 1;
        }
        assert(out.deep_view() =~= index_ended(node@));
        out
    }

    /// The instructions after an operator.
    fn operator_end(node: &Node, symbol: &str) -> (out: Vec<Instruction>)
        ensures
            out.deep_view() == operator_ended(node@, symbol@),
    {
        proof {
            lemma_children(*node);
        }
        ops1(
            Instruction::command(symbol, node.register.as_str(), registers_of(&node.nodes, 0)),
        )
    }
}

} // verus!

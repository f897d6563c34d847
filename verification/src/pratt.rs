//! Expression parsing by precedence.
//!
//! Every token has a null denotation, what it yields with nothing to its
//! left, and a left denotation, what it yields given the node to its left.
//! `parse` reads an operand and then every operator that binds tighter than
//! its caller.

use vstd::prelude::*;
use crate::lexer::{
    fits, next_spec, numbered, raw_text, scan, check_numbers, scanned_from, spanned, Kind, Lexer,
    LexerView, Raw,
};
use crate::nodes::{copy_node, copy_nodes, nodes_view, Node, NodeView};
use crate::patterns::spells;
use crate::string::{chars_of, slice_string};
use crate::tokens::{pairs_view, Token, TokenView};

verus! {

/// The lexer still reads the same raw tokens, and has no more to read than before.
pub open spec fn keeps(after: LexerView, before: LexerView) -> bool {
    &&& after.begin == before.begin
    &&& after.end == before.end
    &&& after.begin <= after.at <= after.end
    &&& after.measure() <= before.measure()
}

/// The lexer still reads the same raw tokens, and has less to read than before.
pub open spec fn advances(after: LexerView, before: LexerView) -> bool {
    keeps(after, before) && after.measure() < before.measure()
}

/// Whether the raw token at `at` is the name `word`.
pub open spec fn names(text: Seq<char>, raws: Seq<Raw>, at: int, word: Seq<char>) -> bool {
    0 <= at < raws.len() && raws[at].kind == Kind::Name && raw_text(text, raws[at]) == word
}

/// Whether the raw token at `at` is the operator `symbol`.
pub open spec fn operates(text: Seq<char>, raws: Seq<Raw>, at: int, symbol: Seq<char>) -> bool {
    0 <= at < raws.len() && raws[at].kind == Kind::Operator && raw_text(text, raws[at]) == symbol
}

/// The place of the last `=>` in `raws[from..to]`, or `from - 1`.
pub open spec fn last_arrow(text: Seq<char>, raws: Seq<Raw>, from: int, to: int) -> int
    decreases to - from,
{
    if from < to {
        if operates(text, raws, to - 1, "=>"@) {
            to - 1
        } else {
            last_arrow(text, raws, from, to - 1)
        }
    } else {
        from - 1
    }
}

/// Where a list of parameters that begins at `at` ends. A parameter is a
/// name, or a type and a name; a comma parts two parameters, and may follow
/// the last.
pub open spec fn params_stop(text: Seq<char>, raws: Seq<Raw>, at: int, end: int) -> int
    decreases end - at,
{
    if 0 <= at < end <= raws.len() && raws[at].kind == Kind::Name {
        let one = if at + 1 < end && raws[at + 1].kind == Kind::Name {
            at + 2
        } else {
            at + 1
        };
        if one < end && operates(text, raws, one, ","@) {
            params_stop(text, raws, one + 1, end)
        } else {
            one
        }
    } else {
        at
    }
}

/// The parameters that begin at `at`, each with its type; a parameter
/// without a type has the type `any`.
pub open spec fn params_of(text: Seq<char>, raws: Seq<Raw>, at: int, end: int) -> Seq<
    (Seq<char>, Seq<char>),
>
    decreases end - at,
{
    if 0 <= at < end <= raws.len() && raws[at].kind == Kind::Name {
        let typed = at + 1 < end && raws[at + 1].kind == Kind::Name;
        let one = if typed {
            at + 2
        } else {
            at + 1
        };
        let param = if typed {
            (raw_text(text, raws[at + 1]), raw_text(text, raws[at]))
        } else {
            (raw_text(text, raws[at]), "any"@)
        };
        if one < end && operates(text, raws, one, ","@) {
            seq![param] + params_of(text, raws, one + 1, end)
        } else {
            seq![param]
        }
    } else {
        Seq::empty()
    }
}

/// A type written as an expression: `extends SUPER [with PROTO] => EXPR`.
pub ghost struct TypeForm {
    pub supertype: Seq<char>,
    /// The raw tokens of the prototype, where one is given.
    pub prototype: Option<(int, int)>,
    /// The raw tokens of the expression.
    pub body: (int, int),
}

/// A function written as an expression: `PARAMS => BODY [=> RETURN]`.
pub ghost struct FunctionForm {
    /// The function's name `@` with what it returns, then each parameter
    /// with its type.
    pub signature: Seq<(Seq<char>, Seq<char>)>,
    /// The raw tokens of the body.
    pub body: (int, int),
}

/// The type that `raws[from..to]` spell as an expression, if they do. With
/// a prototype, the last `=>` parts prototype and expression.
pub open spec fn type_form(text: Seq<char>, raws: Seq<Raw>, from: int, to: int) -> Option<
    TypeForm,
> {
    if 0 <= from && from + 3 <= to <= raws.len() && names(text, raws, from, "extends"@) && raws[from
        + 1].kind == Kind::Name {
        let supertype = raw_text(text, raws[from + 1]);
        if names(text, raws, from + 2, "with"@) {
            let arrow = last_arrow(text, raws, from + 3, to);
            if from + 3 <= arrow && arrow + 1 < to {
                Some(
                    TypeForm {
                        supertype,
                        prototype: Some((from + 3, arrow)),
                        body: (arrow + 1, to),
                    },
                )
            } else {
                None
            }
        } else if operates(text, raws, from + 2, "=>"@) && from + 3 < to {
            Some(TypeForm { supertype, prototype: None, body: (from + 3, to) })
        } else {
            None
        }
    } else {
        None
    }
}

/// The function that `raws[from..to]` spell as an expression, if they do.
/// Where the last two raw tokens are `=>` and a name after a body, the name
/// is what the function returns; else it returns `any`.
pub open spec fn function_form(text: Seq<char>, raws: Seq<Raw>, from: int, to: int) -> Option<
    FunctionForm,
> {
    let arrow = params_stop(text, raws, from, to);
    if 0 <= from <= arrow && arrow + 1 < to <= raws.len() && operates(text, raws, arrow, "=>"@) {
        let typed = arrow + 4 <= to && operates(text, raws, to - 2, "=>"@) && raws[to - 1].kind
            == Kind::Name;
        Some(
            FunctionForm {
                signature: seq![
                    (
                        "@"@,
                        if typed {
                            raw_text(text, raws[to - 1])
                        } else {
                            "any"@
                        },
                    ),
                ] + params_of(text, raws, from, arrow),
                body: if typed {
                    (arrow + 1, to - 2)
                } else {
                    (arrow + 1, to)
                },
            },
        )
    } else {
        None
    }
}

/// The node to which the end of the line reads.
pub open spec fn ending() -> NodeView {
    NodeView::fresh(TokenView::EOL, Seq::empty())
}

/// A list that begins with `left`; a concatenation to its right is absorbed.
pub open spec fn flattened(left: NodeView, right: NodeView, same: bool) -> Seq<NodeView> {
    if same {
        seq![left] + right.nodes
    } else {
        seq![left, right]
    }
}

/// The expression that `raws[begin..end]` spell: what `parse` reads from a
/// lexer on them, bound as loosely as can be.
pub open spec fn expression_of(text: Seq<char>, raws: Seq<Raw>, begin: int, end: int) -> NodeView
    decreases end - begin, end - begin + 2, 0int,
{
    let first = next_spec(text, raws, LexerView::start(begin, end));
    if 0 <= begin && first.begin == begin && first.end == end && begin <= first.at <= end {
        parse_spec(text, raws, first, 0).0
    } else {
        ending()
    }
}

/// What `parse` yields, and the lexer after it: the end of the line where
/// nothing is left; else the null denotation of the next token, and then
/// whatever binds tighter than `lbp`.
pub open spec fn parse_spec(text: Seq<char>, raws: Seq<Raw>, lexer: LexerView, lbp: nat) -> (
    NodeView,
    LexerView,
)
    decreases lexer.size(), lexer.measure(), 0int,
{
    let first = next_spec(text, raws, lexer);
    if first.token is EOL || !advances(first, lexer) {
        (ending(), first)
    } else {
        let (left, after) = nud_spec(text, raws, first);
        if keeps(after, first) {
            climb_spec(text, raws, after, left, lbp)
        } else {
            (left, after)
        }
    }
}

/// What `parse` makes of `left` and the operators after it that bind
/// tighter than `lbp`. An operator whose operand is cut off by the end of
/// the line makes the whole expression read as the end of the line.
pub open spec fn climb_spec(
    text: Seq<char>,
    raws: Seq<Raw>,
    lexer: LexerView,
    left: NodeView,
    lbp: nat,
) -> (NodeView, LexerView)
    decreases lexer.size(), lexer.measure(), 1int,
{
    if lbp < lexer.peek.lbp() {
        let first = next_spec(text, raws, lexer);
        if advances(first, lexer) {
            let (node, after) = led_spec(text, raws, first, left);
            if after.token is EOL || !keeps(after, first) {
                (ending(), after)
            } else {
                climb_spec(text, raws, after, node, lbp)
            }
        } else {
            (left, first)
        }
    } else {
        (left, lexer)
    }
}

/// The null denotation of the lexer's token: a literal or a name is a leaf;
/// a prefix operator takes the operand after it; a group in brackets is a
/// type, a function, or the expression inside it.
pub open spec fn nud_spec(text: Seq<char>, raws: Seq<Raw>, lexer: LexerView) -> (
    NodeView,
    LexerView,
)
    decreases lexer.size(), lexer.measure(), 2int,
{
    let (from, to) = lexer.token_group;
    let grouped = 0 <= from <= to && to - from < lexer.size();
    match lexer.token {
        TokenView::Parenthesis(inner) => if grouped {
            match type_form(text, raws, from, to) {
                Some(form) => (
                    NodeView::fresh(
                        TokenView::Type {
                            name: "@"@,
                            supertype: form.supertype,
                            prototype: form.prototype is Some,
                        },
                        match form.prototype {
                            Some(proto) => if from <= proto.0 <= proto.1 <= to && from
                                <= form.body.0 <= form.body.1 <= to {
                                seq![
                                    expression_of(text, raws, proto.0, proto.1),
                                    expression_of(text, raws, form.body.0, form.body.1),
                                ]
                            } else {
                                Seq::empty()
                            },
                            None => if from <= form.body.0 <= form.body.1 <= to {
                                seq![expression_of(text, raws, form.body.0, form.body.1)]
                            } else {
                                Seq::empty()
                            },
                        },
                    ),
                    lexer,
                ),
                None => match function_form(text, raws, from, to) {
                    Some(form) => (
                        NodeView::fresh(
                            TokenView::Function { name: "@"@, signature: form.signature },
                            if from <= form.body.0 <= form.body.1 <= to {
                                seq![expression_of(text, raws, form.body.0, form.body.1)]
                            } else {
                                Seq::empty()
                            },
                        ),
                        lexer,
                    ),
                    None => (
                        NodeView::fresh(
                            lexer.token,
                            if inner.len() == 0 {
                                Seq::empty()
                            } else {
                                seq![expression_of(text, raws, from, to)]
                            },
                        ),
                        lexer,
                    ),
                },
            }
        } else {
            (NodeView::fresh(lexer.token, Seq::empty()), lexer)
        },
        TokenView::Sequence(inner) => if grouped && inner.len() > 0 {
            let contents = expression_of(text, raws, from, to);
            (
                NodeView::fresh(
                    lexer.token,
                    if contents.token is Concatenator {
                        contents.nodes
                    } else {
                        seq![contents]
                    },
                ),
                lexer,
            )
        } else {
            (NodeView::fresh(lexer.token, Seq::empty()), lexer)
        },
        TokenView::Meta(inner) => if grouped {
            (NodeView::fresh(lexer.token, seq![expression_of(text, raws, from, to)]), lexer)
        } else {
            (NodeView::fresh(lexer.token, Seq::empty()), lexer)
        },
        TokenView::Prefix(_) => {
            let (right, after) = parse_spec(text, raws, lexer, 18);
            (NodeView::fresh(lexer.token, seq![right]), after)
        },
        _ => (NodeView::fresh(lexer.token, Seq::empty()), lexer),
    }
}

/// The left denotation of the lexer's token, given the node to its left.
/// An infix operator takes the operand after it; a right-associative one
/// takes an operand bound one looser; `,` and `:` gather their operands into
/// one list; a call or an index takes arguments up to its closing bracket;
/// `if` puts what stands left of it where the condition holds.
pub open spec fn led_spec(text: Seq<char>, raws: Seq<Raw>, lexer: LexerView, left: NodeView) -> (
    NodeView,
    LexerView,
)
    decreases lexer.size(), lexer.measure(), 2int,
{
    let token = lexer.token;
    match token {
        TokenView::Infix(_) => {
            let (right, after) = parse_spec(text, raws, lexer, token.lbp());
            (NodeView::fresh(token, seq![left, right]), after)
        },
        TokenView::Bind => {
            let (right, after) = parse_spec(text, raws, lexer, token.lbp());
            (
                NodeView::fresh(
                    token,
                    if right.nodes.len() == 0 {
                        Seq::empty()
                    } else {
                        flattened(left, right.nodes[0], right.nodes[0].token is Concatenator)
                    },
                ),
                after,
            )
        },
        TokenView::LeftConditional => {
            let (right, after) = parse_spec(text, raws, lexer, token.lbp());
            if right.nodes.len() == 0 {
                (ending(), after)
            } else {
                (
                    NodeView::fresh(
                        token,
                        seq![
                            right.nodes[0],
                            NodeView::fresh(
                                right.token,
                                seq![left] + right.nodes.subrange(1, right.nodes.len() as int),
                            ),
                        ],
                    ),
                    after,
                )
            }
        },
        TokenView::RightConditional => {
            let (right, after) = parse_spec(text, raws, lexer, token.lbp());
            (NodeView::fresh(token, seq![left, right]), after)
        },
        TokenView::InfixR(_) => {
            let (right, after) = parse_spec(
                text,
                raws,
                lexer,
                if token.lbp() > 0 {
                    (token.lbp() - 1) as nat
                } else {
                    0
                },
            );
            (NodeView::fresh(token, seq![left, right]), after)
        },
        TokenView::Concatenator => {
            let (right, after) = parse_spec(text, raws, lexer, 1);
            (NodeView::fresh(token, flattened(left, right, right.token is Concatenator)), after)
        },
        TokenView::Pair => {
            let (right, after) = parse_spec(text, raws, lexer, 2);
            (NodeView::fresh(token, flattened(left, right, right.token is Pair)), after)
        },
        TokenView::Call | TokenView::Index => {
            if lexer.peek is RightBracket {
                (NodeView::fresh(token, seq![left]), next_spec(text, raws, lexer))
            } else {
                let (right, after) = parse_spec(text, raws, lexer, 1);
                (
                    NodeView::fresh(token, flattened(left, right, right.token is Concatenator)),
                    next_spec(text, raws, after),
                )
            }
        },
        _ => (NodeView::fresh(token, Seq::empty()), lexer),
    }
}

/// Whether the raw token at `at` is the name `word`.
fn is_name(text: &Vec<char>, raws: &Vec<Raw>, at: usize, word: &str) -> (out: bool)
    requires
        spanned(text@, raws@),
    ensures
        out == names(text@, raws@, at as int, word@),
{
    if at < raws.len() {
        let raw = raws[at];
        assert(fits(text@, raw));
        raw.kind == Kind::Name && spells(text, raw.from, raw.to, word)
    } else {
        false
    }
}

/// Whether the raw token at `at` is the operator `symbol`.
fn is_operator(text: &Vec<char>, raws: &Vec<Raw>, at: usize, symbol: &str) -> (out: bool)
    requires
        spanned(text@, raws@),
    ensures
        out == operates(text@, raws@, at as int, symbol@),
{
    if at < raws.len() {
        let raw = raws[at];
        assert(fits(text@, raw));
        raw.kind == Kind::Operator && spells(text, raw.from, raw.to, symbol)
    } else {
        false
    }
}

/// The characters of the raw token at `at`.
fn raw_string(text: &Vec<char>, raws: &Vec<Raw>, at: usize) -> (out: String)
    requires
        spanned(text@, raws@),
        at < raws.len(),
    ensures
        out@ == raw_text(text@, raws[at as int]),
{
    let raw = raws[at];
    assert(fits(text@, raw));
    slice_string(text, raw.from, raw.to)
}

/// The place of the last `=>` in `raws[from..to]`, if there is one.
fn find_last_arrow(text: &Vec<char>, raws: &Vec<Raw>, from: usize, to: usize) -> (out: Option<
    usize,
>)
    requires
        spanned(text@, raws@),
        from <= to <= raws.len(),
    ensures
        match out {
            Some(place) => last_arrow(text@, raws@, from as int, to as int) == place && from
                <= place < to,
            None => last_arrow(text@, raws@, from as int, to as int) == from - 1,
        },
{
    let mut end = to;
    while end > from
        invariant
            from <= end <= to <= raws.len(),
            spanned(text@, raws@),
            last_arrow(text@, raws@, from as int, to as int) == last_arrow(
                text@,
                raws@,
                from as int,
                end as int,
            ),
        decreases end,
    {
        if is_operator(text, raws, end - 1, "=>") {
            return Some(end - 1);
        }
        end -= 1;
    }
    None
}

/// Reads a list of parameters: where it ends, and each parameter with its type.
pub fn read_params(text: &Vec<char>, raws: &Vec<Raw>, from: usize, to: usize) -> (out: (
    usize,
    Vec<(String, String)>,
))
    requires
        spanned(text@, raws@),
        from <= to <= raws.len(),
    ensures
        out.0 == params_stop(text@, raws@, from as int, to as int),
        from <= out.0 <= to,
        pairs_view(out.1) == params_of(text@, raws@, from as int, out.0 as int),
        pairs_view(out.1) == params_of(text@, raws@, from as int, to as int),
{
    let mut params: Vec<(String, String)> = Vec::new();
    let mut at = from;
    let mut done = false;
    assert(pairs_view(params) =~= Seq::<(Seq<char>, Seq<char>)>::empty());
    while !done
        invariant
            from <= at <= to <= raws.len(),
            spanned(text@, raws@),
            !done ==> params_stop(text@, raws@, from as int, to as int) == params_stop(
                text@,
                raws@,
                at as int,
                to as int,
            ),
            !done ==> params_of(text@, raws@, from as int, to as int) == pairs_view(params)
                + params_of(text@, raws@, at as int, to as int),
            done ==> params_stop(text@, raws@, from as int, to as int) == at,
            done ==> params_of(text@, raws@, from as int, to as int) == pairs_view(params),
        decreases to - at + if done { 0int } else { 1int },
    {
        let ghost before = pairs_view(params);
        if at < to && raws[at].kind == Kind::Name {
            let typed = at + 1 < to && raws[at + 1].kind == Kind::Name;
            let one = if typed {
                at + 2
            } else {
                at + 1
            };
            let param = if typed {
                (raw_string(text, raws, at + 1), raw_string(text, raws, at))
            } else {
                (raw_string(text, raws, at), "any".to_owned())
            };
            let ghost shown = (param.0@, param.1@);
            params.push(param);
            assert(pairs_view(params) =~= before + seq![shown]);
            if one < to && is_operator(text, raws, one, ",") {
                assert(pairs_view(params) + params_of(text@, raws@, one + 1, to as int) =~= before
                    + (seq![shown] + params_of(text@, raws@, one + 1, to as int)));
                at = one + 1;
            } else {
                at = one;
                done = true;
            }
        } else {
            assert(before + Seq::<(Seq<char>, Seq<char>)>::empty() =~= before);
            done = true;
        }
    }
    proof {
        lemma_params_of_stop(text@, raws@, from as int, to as int);
    }
    (at, params)
}

/// The parameters of a list are those up to where it ends.
pub proof fn lemma_params_of_stop(text: Seq<char>, raws: Seq<Raw>, at: int, end: int)
    ensures
        params_of(text, raws, at, end) == params_of(
            text,
            raws,
            at,
            params_stop(text, raws, at, end),
        ),
        0 <= at <= end <= raws.len() ==> at <= params_stop(text, raws, at, end) <= end,
    decreases end - at,
{
    if 0 <= at < end <= raws.len() && raws[at].kind == Kind::Name {
        let one = if at + 1 < end && raws[at + 1].kind == Kind::Name {
            at + 2
        } else {
            at + 1
        };
        let stop = params_stop(text, raws, at, end);
        if one < end && operates(text, raws, one, ","@) {
            lemma_params_of_stop(text, raws, one + 1, end);
            assert(stop == params_stop(text, raws, one + 1, end));
            assert(one + 1 <= stop <= end);
            lemma_params_shorter(text, raws, one + 1, stop, end);
        } else {
            assert(stop == one);
        }
    } else {
    }
}

/// Reading parameters up to where they end, within a shorter range, reads the same.
proof fn lemma_params_shorter(text: Seq<char>, raws: Seq<Raw>, at: int, stop: int, end: int)
    requires
        0 <= at <= stop <= end <= raws.len(),
        stop == params_stop(text, raws, at, end),
    ensures
        params_stop(text, raws, at, stop) == stop,
        params_of(text, raws, at, stop) == params_of(text, raws, at, end),
    decreases end - at,
{
    if at < end && raws[at].kind == Kind::Name {
        let one = if at + 1 < end && raws[at + 1].kind == Kind::Name {
            at + 2
        } else {
            at + 1
        };
        if one < end && operates(text, raws, one, ","@) {
            lemma_params_of_stop(text, raws, one + 1, end);
            lemma_params_shorter(text, raws, one + 1, stop, end);
        }
    }
}

/// A fresh list of nodes that begins with `left`; a node of the same kind to
/// its right is absorbed.
fn flatten(left: Node, right: Node, same: bool) -> (out: Vec<Node>)
    ensures
        nodes_view(out) == flattened(left@, right@, same),
{
    let mut out: Vec<Node> = Vec::new();
    if same {
        let mut rest = right.nodes;
        let ghost tail = nodes_view(rest);
        out.push(left);
        out.append(&mut rest);
        assert(nodes_view(out) =~= seq![left@] + tail);
        assert(right@.nodes =~= tail);
    } else {
        out.push(left);
        out.push(right);
        assert(nodes_view(out) =~= seq![left@, right@]);
    }
    out
}

/// A list of one node.
fn single(node: Node) -> (out: Vec<Node>)
    ensures
        nodes_view(out) == seq![node@],
{
    let mut out: Vec<Node> = Vec::new();
    out.push(node);
    assert(nodes_view(out) =~= seq![node@]);
    out
}

/// A list of two nodes.
fn couple(first: Node, second: Node) -> (out: Vec<Node>)
    ensures
        nodes_view(out) == seq![first@, second@],
{
    let mut out: Vec<Node> = Vec::new();
    out.push(first);
    out.push(second);
    assert(nodes_view(out) =~= seq![first@, second@]);
    out
}

/// A list of no node.
fn nothing() -> (out: Vec<Node>)
    ensures
        nodes_view(out) == Seq::<NodeView>::empty(),
{
    let out: Vec<Node> = Vec::new();
    assert(nodes_view(out) =~= Seq::<NodeView>::empty());
    out
}

/// Parses the expression that `raws[begin..end]` spell.
pub fn parse_range(text: &Vec<char>, raws: &Vec<Raw>, begin: usize, end: usize) -> (out: Node)
    requires
        spanned(text@, raws@),
        numbered(text@, raws@),
        begin <= end <= raws.len(),
    ensures
        out@ == expression_of(text@, raws@, begin as int, end as int),
    decreases end - begin, end - begin + 2, 0int,
{
    let mut lexer = Lexer::new(text, raws, begin, end);
    lexer.next();
    lexer.parse(0)
}

impl<'a> Lexer<'a> {
    /// Parses an operand and every operator after it that binds tighter than `lbp`.
    pub fn parse(&mut self, lbp: usize) -> (out: Node)
        requires
            old(self).wf(),
        ensures
            (out@, final(self)@) == parse_spec(
                old(self).text@,
                old(self).raws@,
                old(self)@,
                lbp as nat,
            ),
            final(self).wf(),
            keeps(final(self)@, old(self)@),
            final(self).text == old(self).text,
            final(self).raws == old(self).raws,
        decreases old(self)@.size(), old(self)@.measure(), 0int,
    {
        let ghost entry = self@;
        let ghost text = self.text@;
        let ghost raws = self.raws@;
        self.next();
        if let Token::EOL = self.token {
            return Node::leaf(Token::EOL);
        }
        let token = self.token.clone();
        let mut left = token.nud(self);
        let mut over = false;
        while !over && lbp < self.peek.lbp()
            invariant
                self.wf(),
                self.text@ == text,
                self.raws@ == raws,
                self.text == old(self).text,
                self.raws == old(self).raws,
                keeps(self@, entry),
                entry == old(self)@,
                !over ==> self@.measure() < entry.measure(),
                !over ==> parse_spec(text, raws, entry, lbp as nat) == climb_spec(
                    text,
                    raws,
                    self@,
                    left@,
                    lbp as nat,
                ),
                over ==> parse_spec(text, raws, entry, lbp as nat) == (left@, self@),
            decreases self@.measure() + if over { 0int } else { 1int },
        {
            self.next();
            let token = self.token.clone();
            left = token.led(self, left);
            if let Token::EOL = self.token {
                left = Node::leaf(Token::EOL);
                over = true;
            }
        }
        left
    }
}

impl Token {
    /// The node for the null denotation of the token, which is the lexer's token.
    pub fn nud<'a>(self, lex: &mut Lexer<'a>) -> (out: Node)
        requires
            old(lex).wf(),
            self@ == old(lex)@.token,
        ensures
            (out@, final(lex)@) == nud_spec(old(lex).text@, old(lex).raws@, old(lex)@),
            final(lex).wf(),
            keeps(final(lex)@, old(lex)@),
            final(lex).text == old(lex).text,
            final(lex).raws == old(lex).raws,
        decreases old(lex)@.size(), old(lex)@.measure(), 2int,
    {
        let text = lex.text;
        let raws = lex.raws;
        let (from, to) = lex.token_group;
        match self {
            Token::Parenthesis(inner) => {
                let empty = inner.as_str().is_empty();
                if from <= to && to - from >= 3 && is_name(text, raws, from, "extends")
                    && raws[from + 1].kind == Kind::Name {
                    let supertype = raw_string(text, raws, from + 1);
                    if is_name(text, raws, from + 2, "with") {
                        if let Some(arrow) = find_last_arrow(text, raws, from + 3, to) {
                            if arrow + 1 < to {
                                let proto = parse_range(text, raws, from + 3, arrow);
                                let body = parse_range(text, raws, arrow + 1, to);
                                return Node::branch(
                                    Token::Type {
                                        name: "@".to_owned(),
                                        supertype,
                                        prototype: true,
                                    },
                                    couple(proto, body),
                                );
                            }
                        }
                    } else if is_operator(text, raws, from + 2, "=>") && from + 3 < to {
                        let body = parse_range(text, raws, from + 3, to);
                        return Node::branch(
                            Token::Type { name: "@".to_owned(), supertype, prototype: false },
                            single(body),
                        );
                    }
                }
                let (arrow, params) = read_params(text, raws, from, to);
                if arrow < to && to - arrow > 1 && is_operator(text, raws, arrow, "=>") {
                    let typed = to - arrow >= 4 && is_operator(text, raws, to - 2, "=>") && raws[to
                        - 1].kind == Kind::Name;
                    let last = if typed {
                        raw_string(text, raws, to - 1)
                    } else {
                        "any".to_owned()
                    };
                    let mut signature: Vec<(String, String)> = Vec::new();
                    signature.push(("@".to_owned(), last));
                    let ghost head = pairs_view(signature);
                    let ghost tail = pairs_view(params);
                    let mut params = params;
                    signature.append(&mut params);
                    assert(pairs_view(signature) =~= head + tail);
                    assert(head =~= seq![("@"@, last@)]);
                    let body = if typed {
                        parse_range(text, raws, arrow + 1, to - 2)
                    } else {
                        parse_range(text, raws, arrow + 1, to)
                    };
                    return Node::branch(
                        Token::Function { name: "@".to_owned(), signature },
                        single(body),
                    );
                }
                if empty {
                    Node::branch(Token::Parenthesis(inner), nothing())
                } else {
                    let contents = parse_range(text, raws, from, to);
                    Node::branch(Token::Parenthesis(inner), single(contents))
                }
            },
            Token::Sequence(inner) => {
                if inner.as_str().is_empty() {
                    Node::branch(Token::Sequence(inner), nothing())
                } else {
                    let contents = parse_range(text, raws, from, to);
                    let same = match contents.token {
                        Token::Concatenator => true,
                        _ => false,
                    };
                    if same {
                        proof {
                            crate::nodes::lemma_children(contents);
                        }
                        Node::branch(Token::Sequence(inner), contents.nodes)
                    } else {
                        Node::branch(Token::Sequence(inner), single(contents))
                    }
                }
            },
            Token::Meta(inner) => {
                let contents = parse_range(text, raws, from, to);
                Node::branch(Token::Meta(inner), single(contents))
            },
            Token::Prefix(symbol) => {
                let right = lex.parse(18);
                Node::branch(Token::Prefix(symbol), single(right))
            },
            other => Node::leaf(other),
        }
    }

    /// The node for the left denotation of the token, which is the lexer's
    /// token, given the node to its left.
    pub fn led<'a>(self, lex: &mut Lexer<'a>, left: Node) -> (out: Node)
        requires
            old(lex).wf(),
            self@ == old(lex)@.token,
        ensures
            (out@, final(lex)@) == led_spec(old(lex).text@, old(lex).raws@, old(lex)@, left@),
            final(lex).wf(),
            keeps(final(lex)@, old(lex)@),
            final(lex).text == old(lex).text,
            final(lex).raws == old(lex).raws,
        decreases old(lex)@.size(), old(lex)@.measure(), 2int,
    {
        let power = self.lbp();
        match self {
            Token::Infix(symbol) => {
                let right = lex.parse(power);
                Node::branch(Token::Infix(symbol), couple(left, right))
            },
            Token::Bind => {
                let right = lex.parse(power);
                if right.nodes.len() == 0 {
                    Node::branch(Token::Bind, nothing())
                } else {
                    let first = copy_node(&right.nodes[0]);
                    let same = match first.token {
                        Token::Concatenator => true,
                        _ => false,
                    };
                    Node::branch(Token::Bind, flatten(left, first, same))
                }
            },
            Token::LeftConditional => {
                let right = lex.parse(power);
                if right.nodes.len() == 0 {
                    Node::leaf(Token::EOL)
                } else {
                    let first = copy_node(&right.nodes[0]);
                    let mut rest = copy_nodes(&right.nodes, 1);
                    let ghost tail = nodes_view(rest);
                    let mut nodes: Vec<Node> = Vec::new();
                    nodes.push(left);
                    nodes.append(&mut rest);
                    assert(nodes_view(nodes) =~= seq![left@] + tail);
                    proof {
                        crate::nodes::lemma_children(right);
                    }
                    let inner = Node::branch(right.token.clone(), nodes);
                    Node::branch(Token::LeftConditional, couple(first, inner))
                }
            },
            Token::RightConditional => {
                let right = lex.parse(power);
                Node::branch(Token::RightConditional, couple(left, right))
            },
            Token::InfixR(symbol) => {
                let right = lex.parse(
                    if power > 0 {
                        power - 1
                    } else {
                        0
                    },
                );
                Node::branch(Token::InfixR(symbol), couple(left, right))
            },
            Token::Concatenator => {
                let right = lex.parse(1);
                let same = match right.token {
                    Token::Concatenator => true,
                    _ => false,
                };
                Node::branch(Token::Concatenator, flatten(left, right, same))
            },
            Token::Pair => {
                let right = lex.parse(2);
                let same = match right.token {
                    Token::Pair => true,
                    _ => false,
                };
                Node::branch(Token::Pair, flatten(left, right, same))
            },
            Token::Call => Token::bracket(Token::Call, lex, left),
            Token::Index => Token::bracket(Token::Index, lex, left),
            other => Node::leaf(other),
        }
    }

    /// The left denotation of a call or an index.
    fn bracket<'a>(token: Token, lex: &mut Lexer<'a>, left: Node) -> (out: Node)
        requires
            old(lex).wf(),
            token@ == old(lex)@.token,
            token@ is Call || token@ is Index,
        ensures
            (out@, final(lex)@) == led_spec(old(lex).text@, old(lex).raws@, old(lex)@, left@),
            final(lex).wf(),
            keeps(final(lex)@, old(lex)@),
            final(lex).text == old(lex).text,
            final(lex).raws == old(lex).raws,
        decreases old(lex)@.size(), old(lex)@.measure(), 1int,
    {
        let closed = match lex.peek {
            Token::RightBracket => true,
            _ => false,
        };
        if closed {
            lex.next();
            Node::branch(token, single(left))
        } else {
            let right = lex.parse(1);
            let same = match right.token {
                Token::Concatenator => true,
                _ => false,
            };
            lex.next();
            Node::branch(token, flatten(left, right, same))
        }
    }
}

impl Node {
    /// Parses an expression. There is no node where a number in it cannot be read.
    pub fn expression(pattern: &str) -> (out: Option<Node>)
        ensures
            (out is Some) == numbered(pattern@, scanned_from(pattern@, 0)),
            out matches Some(node) ==> node@ == expression_of(
                pattern@,
                scanned_from(pattern@, 0),
                0,
                scanned_from(pattern@, 0).len() as int,
            ),
    {
        let text = chars_of(pattern);
        Node::expression_chars(&text)
    }

    /// Parses the expression that the characters spell.
    pub fn expression_chars(text: &Vec<char>) -> (out: Option<Node>)
        ensures
            (out is Some) == numbered(text@, scanned_from(text@, 0)),
            out matches Some(node) ==> node@ == expression_of(
                text@,
                scanned_from(text@, 0),
                0,
                scanned_from(text@, 0).len() as int,
            ),
    {
        let raws = scan(text);
        if check_numbers(text, &raws) {
            Some(parse_range(text, &raws, 0, raws.len()))
        } else {
            None
        }
    }
}

} // verus!

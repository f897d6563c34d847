//! The statement recogniser: each logical line is held against the shapes
//! of the statements, in a fixed order, and is an expression where it has
//! none of them.

use vstd::prelude::*;
use crate::lexer::{numbered, raw_text, scan, scanned_from, spanned, Kind, Raw};
use crate::nodes::{nodes_view, Node, NodeView};
use crate::patterns::{
    find_spaces_end, find_word_end, lemma_spaces_end, lemma_word_end, spaces_end, spells, word_end,
};
use crate::pratt::{expression_of, operates, params_of, params_stop, read_params};
use crate::string::{chars_of, slice_string};
use crate::tokens::{pairs_view, Token, TokenView};

verus! {

/// Whether `lit` stands in the text at `at`.
pub open spec fn starts(text: Seq<char>, at: int, lit: Seq<char>) -> bool {
    0 <= at && at + lit.len() <= text.len() && text.subrange(at, at + lit.len()) == lit
}

/// The place of the first `mark` at or after `at`, or the end of the text.
pub open spec fn first_of(text: Seq<char>, at: int, mark: char) -> int
    decreases text.len() - at,
{
    if 0 <= at < text.len() && text[at] != mark {
        first_of(text, at + 1, mark)
    } else {
        at
    }
}

/// The place of the last `=>` that begins in `text[from..=at]`, or `from - 1`.
pub open spec fn arrow_before(text: Seq<char>, from: int, at: int) -> int
    decreases at - from,
{
    if 0 <= from <= at && at + 1 < text.len() {
        if text[at] == '=' && text[at + 1] == '>' {
            at
        } else if from < at {
            arrow_before(text, from, at - 1)
        } else {
            from - 1
        }
    } else {
        from - 1
    }
}

/// The expression that a text spells.
pub open spec fn expression_text(text: Seq<char>) -> NodeView {
    expression_of(text, scanned_from(text, 0), 0, scanned_from(text, 0).len() as int)
}

/// Whether every number in a text can be read.
pub open spec fn readable(text: Seq<char>) -> bool {
    numbered(text, scanned_from(text, 0))
}

/// The shape of a statement: its head, and the parts of the line that are
/// its expressions.
pub ghost struct Shape {
    pub token: TokenView,
    pub parts: Seq<(int, int)>,
}

/// Where a word begins at `at`, the place where it ends.
pub open spec fn worded(text: Seq<char>, at: int) -> bool {
    0 <= at && word_end(text, at) > at
}

/// Where the text at `at` holds a blank and a word, they give a type.
pub open spec fn typed_at(text: Seq<char>, at: int) -> bool {
    0 <= at && at + 1 < text.len() && text[at] == ' ' && worded(text, at + 1)
}

/// How a statement ends after its head: with `:` for a block, or with `=>`
/// and an expression. The result is the place where the expression begins,
/// or the length of the line for a block.
pub open spec fn tail_at(line: Seq<char>, at: int) -> Option<int> {
    if at == line.len() - 1 && 0 <= at && line[at] == ':' {
        Some(line.len() as int)
    } else {
        let arrow = spaces_end(line, at);
        if 0 <= at && starts(line, arrow, "=>"@) && arrow + 2 < line.len() {
            Some(arrow + 2)
        } else {
            None
        }
    }
}

/// The parts of a statement that ends as `tail_at` says.
pub open spec fn tail_parts(line: Seq<char>, tail: int) -> Seq<(int, int)> {
    if tail >= line.len() {
        Seq::empty()
    } else {
        seq![(tail, line.len() as int)]
    }
}

/// `type NAME [extends SUPER] [with PROTO] (: | => EXPR)`
pub open spec fn type_shape(line: Seq<char>) -> Option<Shape> {
    if starts(line, 0, "type "@) && worded(line, 5) {
        let named = word_end(line, 5);
        let extended = starts(line, named, " extends "@) && worded(line, named + 9);
        let supertype = if extended {
            line.subrange(named + 9, word_end(line, named + 9))
        } else {
            "any"@
        };
        let head = if extended {
            word_end(line, named + 9)
        } else {
            named
        };
        let name = line.subrange(5, named);
        if starts(line, head, " with "@) {
            let proto = head + 6;
            if proto <= line.len() - 1 && line.last() == ':' {
                Some(
                    Shape {
                        token: TokenView::Type { name, supertype, prototype: true },
                        parts: seq![(proto, line.len() - 1)],
                    },
                )
            } else {
                let arrow = arrow_before(line, proto, line.len() - 3);
                if arrow >= proto {
                    Some(
                        Shape {
                            token: TokenView::Type { name, supertype, prototype: true },
                            parts: seq![(proto, arrow), (arrow + 2, line.len() as int)],
                        },
                    )
                } else {
                    None
                }
            }
        } else {
            match tail_at(line, head) {
                Some(tail) => Some(
                    Shape {
                        token: TokenView::Type { name, supertype, prototype: false },
                        parts: tail_parts(line, tail),
                    },
                ),
                None => None,
            }
        }
    } else {
        None
    }
}

/// `NAME [RETTYPE] (PARAMS) (: | => EXPR)`
pub open spec fn function_shape(line: Seq<char>) -> Option<Shape> {
    if worded(line, 0) {
        let named = word_end(line, 0);
        let typed = typed_at(line, named);
        let last = if typed {
            line.subrange(named + 1, word_end(line, named + 1))
        } else {
            "any"@
        };
        let head = if typed {
            word_end(line, named + 1)
        } else {
            named
        };
        let open = spaces_end(line, head);
        let close = first_of(line, open + 1, ')');
        if 0 <= open < line.len() && line[open] == '(' && close < line.len() {
            let params = line.subrange(open + 1, close);
            let raws = scanned_from(params, 0);
            if params_stop(params, raws, 0, raws.len() as int) == raws.len() {
                match tail_at(line, close + 1) {
                    Some(tail) => Some(
                        Shape {
                            token: TokenView::Function {
                                name: line.subrange(0, named),
                                signature: seq![(line.subrange(0, named), last)] + params_of(
                                    params,
                                    raws,
                                    0,
                                    raws.len() as int,
                                ),
                            },
                            parts: tail_parts(line, tail),
                        },
                    ),
                    None => None,
                }
            } else {
                None
            }
        } else {
            None
        }
    } else {
        None
    }
}

/// The bindings from `at` on: `NAME [TYPE]: EXPR`, parted by `;`. Each
/// binding gives a name with its type, `any` where none is written, and the
/// part of the line that is its expression.
pub open spec fn binds_from(line: Seq<char>, at: int) -> Option<
    (Seq<(Seq<char>, Seq<char>)>, Seq<(int, int)>),
>
    decreases line.len() - at,
{
    let begin = spaces_end(line, at);
    if !(0 <= at <= begin < line.len()) {
        Some((Seq::empty(), Seq::empty()))
    } else if worded(line, begin) {
        let named = word_end(line, begin);
        let typed = typed_at(line, named);
        let colon = if typed {
            word_end(line, named + 1)
        } else {
            named
        };
        let stop = first_of(line, colon + 1, ';');
        if colon < line.len() && line[colon] == ':' && colon + 1 < stop <= line.len() {
            let bind = (
                line.subrange(begin, named),
                if typed {
                    line.subrange(named + 1, colon)
                } else {
                    "any"@
                },
            );
            let rest = if stop < line.len() {
                binds_from(line, stop + 1)
            } else {
                Some((Seq::empty(), Seq::empty()))
            };
            match rest {
                Some(more) => Some((seq![bind] + more.0, seq![(colon + 1, stop)] + more.1)),
                None => None,
            }
        } else {
            None
        }
    } else {
        None
    }
}

/// `NAME [TYPE]: EXPR [; NAME [TYPE]: EXPR]*`
pub open spec fn assign_shape(line: Seq<char>) -> Option<Shape> {
    match binds_from(line, 0) {
        Some(binds) => if binds.0.len() > 0 {
            Some(Shape { token: TokenView::Assign(binds.0), parts: binds.1 })
        } else {
            None
        },
        None => None,
    }
}

/// A head word, an expression and `:`.
pub open spec fn block_shape(line: Seq<char>, head: Seq<char>, token: TokenView) -> Option<Shape> {
    if starts(line, 0, head) && head.len() + 2 <= line.len() && line.last() == ':' {
        Some(Shape { token, parts: seq![(head.len() as int, line.len() - 1)] })
    } else {
        None
    }
}

/// `for NAME in EXPR :`
pub open spec fn for_shape(line: Seq<char>) -> Option<Shape> {
    if starts(line, 0, "for "@) && worded(line, 4) {
        let named = word_end(line, 4);
        if starts(line, named, " in "@) && named + 6 <= line.len() && line.last() == ':' {
            Some(
                Shape {
                    token: TokenView::For(line.subrange(4, named)),
                    parts: seq![(named + 4, line.len() - 1)],
                },
            )
        } else {
            None
        }
    } else {
        None
    }
}

/// `return [EXPR]`
pub open spec fn return_shape(line: Seq<char>) -> Option<Shape> {
    if line == "return"@ {
        Some(Shape { token: TokenView::Return, parts: Seq::empty() })
    } else if starts(line, 0, "return "@) && line.len() > 7 {
        Some(Shape { token: TokenView::Return, parts: seq![(7, line.len() as int)] })
    } else {
        None
    }
}

/// Where a list of names that begins at `at` ends; a comma parts two names
/// and may follow the last.
pub open spec fn names_stop(text: Seq<char>, raws: Seq<Raw>, at: int, end: int) -> int
    decreases end - at,
{
    if 0 <= at < end <= raws.len() && raws[at].kind == Kind::Name {
        if at + 1 < end && operates(text, raws, at + 1, ","@) {
            names_stop(text, raws, at + 2, end)
        } else {
            at + 1
        }
    } else {
        at
    }
}

/// The names of the list that begins at `at`.
pub open spec fn names_of(text: Seq<char>, raws: Seq<Raw>, at: int, end: int) -> Seq<Seq<char>>
    decreases end - at,
{
    if 0 <= at < end <= raws.len() && raws[at].kind == Kind::Name {
        if at + 1 < end && operates(text, raws, at + 1, ","@) {
            seq![raw_text(text, raws[at])] + names_of(text, raws, at + 2, end)
        } else {
            seq![raw_text(text, raws[at])]
        }
    } else {
        Seq::empty()
    }
}

/// `link NAMES`
pub open spec fn link_shape(line: Seq<char>) -> Option<Shape> {
    if starts(line, 0, "link "@) {
        let list = line.subrange(5, line.len() as int);
        let raws = scanned_from(list, 0);
        if raws.len() > 0 && names_stop(list, raws, 0, raws.len() as int) == raws.len() {
            Some(
                Shape {
                    token: TokenView::Link(names_of(list, raws, 0, raws.len() as int)),
                    parts: Seq::empty(),
                },
            )
        } else {
            None
        }
    } else {
        None
    }
}

/// `use NAMES [from SOURCE]`
pub open spec fn use_shape(line: Seq<char>) -> Option<Shape> {
    if starts(line, 0, "use "@) {
        let list = line.subrange(4, line.len() as int);
        let raws = scanned_from(list, 0);
        let stop = names_stop(list, raws, 0, raws.len() as int);
        if stop > 0 {
            Some(
                Shape {
                    token: TokenView::Use {
                        names: names_of(list, raws, 0, raws.len() as int),
                        source: if stop + 1 < raws.len() && raws[stop].kind == Kind::Name
                            && raw_text(list, raws[stop]) == "from"@ && raws[stop + 1].kind
                            == Kind::Name {
                            Some(raw_text(list, raws[stop + 1]))
                        } else {
                            None
                        },
                    },
                    parts: Seq::empty(),
                },
            )
        } else {
            None
        }
    } else {
        None
    }
}

/// A line that is one word and nothing else.
pub open spec fn word_shape(line: Seq<char>, word: Seq<char>, token: TokenView) -> Option<Shape> {
    if line == word {
        Some(Shape { token, parts: Seq::empty() })
    } else {
        None
    }
}

/// The first of two shapes that there is.
pub open spec fn or_else(first: Option<Shape>, second: Option<Shape>) -> Option<Shape> {
    if first is Some {
        first
    } else {
        second
    }
}

/// The shape of a line as a statement, if it has one. The shapes are tried
/// in the order: type, function, assign, if, while, for, return, link, use,
/// continue, break, else.
pub open spec fn statement_shape(line: Seq<char>) -> Option<Shape> {
    or_else(
        type_shape(line),
        or_else(
            function_shape(line),
            or_else(
                assign_shape(line),
                or_else(
                    block_shape(line, "if "@, TokenView::If),
                    or_else(
                        block_shape(line, "while "@, TokenView::While),
                        or_else(
                            for_shape(line),
                            or_else(
                                return_shape(line),
                                or_else(
                                    link_shape(line),
                                    or_else(
                                        use_shape(line),
                                        or_else(
                                            word_shape(line, "continue"@, TokenView::Continue),
                                            or_else(
                                                word_shape(line, "break"@, TokenView::Break),
                                                word_shape(line, "else:"@, TokenView::Else),
                                            ),
                                        ),
                                    ),
                                ),
                            ),
                        ),
                    ),
                ),
            ),
        ),
    )
}

/// The characters of a part of a line.
pub open spec fn piece_of(line: Seq<char>, part: (int, int)) -> Seq<char> {
    line.subrange(part.0, part.1)
}

/// The expressions that the parts of a line spell.
pub open spec fn part_nodes(line: Seq<char>, parts: Seq<(int, int)>) -> Seq<NodeView> {
    Seq::new(parts.len(), |i: int| expression_text(piece_of(line, parts[i])))
}

/// Whether every number in the parts of a line can be read.
pub open spec fn parts_readable(line: Seq<char>, parts: Seq<(int, int)>) -> bool {
    forall|i: int| 0 <= i < parts.len() ==> readable(piece_of(line, #[trigger] parts[i]))
}

/// Whether every number in a line can be read.
pub open spec fn statement_readable(line: Seq<char>) -> bool {
    match statement_shape(line) {
        Some(shape) => parts_readable(line, shape.parts),
        None => readable(line),
    }
}

/// The node of a line: the statement whose shape it has, with its
/// expressions as children, or else the expression that it spells.
pub open spec fn statement_of(line: Seq<char>) -> NodeView {
    match statement_shape(line) {
        Some(shape) => NodeView::fresh(shape.token, part_nodes(line, shape.parts)),
        None => expression_text(line),
    }
}

/// The content of a list of parts.
pub open spec fn parts_view(parts: Vec<(usize, usize)>) -> Seq<(int, int)> {
    Seq::new(parts.len() as nat, |i: int| (parts[i].0 as int, parts[i].1 as int))
}

/// Whether a head and its parts are the shape, and the parts lie in the line.
pub open spec fn shaped(line: Seq<char>, out: Option<(Token, Vec<(usize, usize)>)>, shape: Option<
    Shape,
>) -> bool {
    &&& out is Some == shape is Some
    &&& out matches Some(found) ==> {
        &&& found.0@ == shape->0.token
        &&& parts_view(found.1) == shape->0.parts
        &&& forall|i: int|
            0 <= i < found.1.len() ==> (#[trigger] found.1[i]).0 <= found.1[i].1 <= line.len()
    }
}

/// Whether `lit` stands in the text at `at`.
pub fn starts_with(text: &Vec<char>, at: usize, lit: &str) -> (out: bool)
    ensures
        out == starts(text@, at as int, lit@),
{
    let size = lit.unicode_len();
    if at > text.len() || text.len() - at < size {
        false
    } else {
        spells(text, at, at + size, lit)
    }
}

/// The place of the first `mark` at or after `at`, or the end of the text.
pub fn find_first_of(text: &Vec<char>, at: usize, mark: char) -> (end: usize)
    requires
        at <= text.len(),
    ensures
        end == first_of(text@, at as int, mark),
        at <= end <= text.len(),
{
    let mut end = at;
    while end < text.len() && text[end] != mark
        invariant
            at <= end <= text.len(),
            first_of(text@, at as int, mark) == first_of(text@, end as int, mark),
        decreases text.len() - end,
    {
        end += 1;
    }
    end
}

/// The place of the last `=>` that begins in `text[from..=at]`, if there is one.
fn find_arrow_before(text: &Vec<char>, from: usize, at: usize) -> (out: Option<usize>)
    requires
        at + 1 < text.len(),
    ensures
        match out {
            Some(place) => arrow_before(text@, from as int, at as int) == place && from <= place
                <= at,
            None => arrow_before(text@, from as int, at as int) == from - 1,
        },
{
    if from > at {
        return None;
    }
    let mut place = at;
    loop
        invariant
            from <= place <= at,
            at + 1 < text.len(),
            arrow_before(text@, from as int, at as int) == arrow_before(
                text@,
                from as int,
                place as int,
            ),
        decreases place,
    {
        if text[place] == '=' && text[place + 1] == '>' {
            return Some(place);
        }
        if place == from {
            return None;
        }
        place -= 1;
    }
}

/// The characters `text[from..to]`.
pub fn slice_chars(text: &Vec<char>, from: usize, to: usize) -> (out: Vec<char>)
    requires
        from <= to <= text.len(),
    ensures
        out@ == text@.subrange(from as int, to as int),
{
    let mut out: Vec<char> = Vec::new();
    crate::patterns::push_slice(&mut out, text, from, to);
    assert(out@ =~= text@.subrange(from as int, to as int));
    out
}

/// No parts.
fn no_parts() -> (out: Vec<(usize, usize)>)
    ensures
        parts_view(out) == Seq::<(int, int)>::empty(),
        out.len() == 0,
{
    let out: Vec<(usize, usize)> = Vec::new();
    assert(parts_view(out) =~= Seq::<(int, int)>::empty());
    out
}

/// One part.
fn one_part(from: usize, to: usize) -> (out: Vec<(usize, usize)>)
    ensures
        parts_view(out) == seq![(from as int, to as int)],
        out.len() == 1,
        out[0] == (from, to),
{
    let mut out: Vec<(usize, usize)> = Vec::new();
    out.push((from, to));
    assert(parts_view(out) =~= seq![(from as int, to as int)]);
    out
}

/// How a statement ends after its head.
fn find_tail(line: &Vec<char>, at: usize) -> (out: Option<usize>)
    requires
        at <= line.len(),
    ensures
        out.deep_view() == match tail_at(line@, at as int) {
            Some(tail) => Some(tail as usize),
            None => None,
        },
        out matches Some(tail) ==> tail_at(line@, at as int) == Some(tail as int) && at < tail
            <= line.len(),
{
    proof {
        reveal_strlit("=>");
        lemma_spaces_end(line@, at as int);
    }
    if line.len() > 0 && at == line.len() - 1 && line[at] == ':' {
        Some(line.len())
    } else {
        let arrow = find_spaces_end(line, at);
        if starts_with(line, arrow, "=>") && line.len() - arrow > 2 {
            Some(arrow + 2)
        } else {
            None
        }
    }
}

/// The parts of a statement that ends at `tail`.
fn parts_of_tail(line: &Vec<char>, tail: usize) -> (out: Vec<(usize, usize)>)
    requires
        tail <= line.len(),
    ensures
        parts_view(out) == tail_parts(line@, tail as int),
        forall|i: int| 0 <= i < out.len() ==> (#[trigger] out[i]).0 <= out[i].1 <= line.len(),
{
    if tail >= line.len() {
        no_parts()
    } else {
        one_part(tail, line.len())
    }
}

/// Parses each part of a line as an expression. There are no nodes where a
/// number in a part cannot be read.
pub fn parse_parts(line: &Vec<char>, parts: &Vec<(usize, usize)>) -> (out: Option<Vec<Node>>)
    requires
        forall|i: int| 0 <= i < parts.len() ==> (#[trigger] parts[i]).0 <= parts[i].1 <= line.len(),
    ensures
        (out is Some) == parts_readable(line@, parts_view(*parts)),
        out matches Some(nodes) ==> nodes_view(nodes) == part_nodes(line@, parts_view(*parts)),
{
    let ghost seen = parts_view(*parts);
    let mut nodes: Vec<Node> = Vec::new();
    let mut at: usize = 0;
    while at < parts.len()
        invariant
            at <= parts.len(),
            seen == parts_view(*parts),
            forall|i: int|
                0 <= i < parts.len() ==> (#[trigger] parts[i]).0 <= parts[i].1 <= line.len(),
            nodes.len() == at,
            forall|i: int| 0 <= i < at ==> readable(piece_of(line@, #[trigger] seen[i])),
            forall|i: int|
                0 <= i < at ==> (#[trigger] nodes[i])@ == expression_text(piece_of(line@, seen[i])),
        decreases parts.len() - at,
    {
        let part = parts[at];
        assert(seen[at as int] == (part.0 as int, part.1 as int));
        let piece = slice_chars(line, part.0, part.1);
        match Node::expression_chars(&piece) {
            Some(node) => {
                nodes.push(node);
            },
            None => {
                return None;
            },
        }
        at += 1;
    }
    assert(nodes_view(nodes) =~= part_nodes(line@, seen));
    Some(nodes)
}

impl Node {
    /// Reads a line as a type statement.
    pub fn new_type(line: &Vec<char>) -> (out: Option<(Token, Vec<(usize, usize)>)>)
        ensures
            shaped(line@, out, type_shape(line@)),
    {
        proof {
            reveal_strlit("type ");
            reveal_strlit(" extends ");
            reveal_strlit(" with ");
        }
        if !starts_with(line, 0, "type ") {
            return None;
        }
        let named = find_word_end(line, 5);
        if named <= 5 {
            return None;
        }
        let mut supertype = "any".to_owned();
        let mut head = named;
        if starts_with(line, named, " extends ") {
            let end = find_word_end(line, named + 9);
            if end > named + 9 {
                supertype = slice_string(line, named + 9, end);
                head = end;
            }
        }
        let name = slice_string(line, 5, named);
        if starts_with(line, head, " with ") {
            let proto = head + 6;
            if proto <= line.len() - 1 && line[line.len() - 1] == ':' {
                let parts = one_part(proto, line.len() - 1);
                Some((Token::Type { name, supertype, prototype: true }, parts))
            } else if line.len() >= 3 {
                match find_arrow_before(line, proto, line.len() - 3) {
                    Some(arrow) => {
                        let mut parts: Vec<(usize, usize)> = Vec::new();
                        parts.push((proto, arrow));
                        parts.push((arrow + 2, line.len()));
                        assert(parts_view(parts) =~= seq![
                            (proto as int, arrow as int),
                            (arrow + 2, line.len() as int),
                        ]);
                        Some((Token::Type { name, supertype, prototype: true }, parts))
                    },
                    None => None,
                }
            } else {
                None
            }
        } else {
            proof {
                lemma_word_end(line@, 5);
                if named + 9 <= line.len() {
                    lemma_word_end(line@, named + 9);
                }
            }
            match find_tail(line, head) {
                Some(tail) => Some(
                    (Token::Type { name, supertype, prototype: false }, parts_of_tail(line, tail)),
                ),
                None => None,
            }
        }
    }

    /// Reads a line as a function statement.
    pub fn new_function(line: &Vec<char>) -> (out: Option<(Token, Vec<(usize, usize)>)>)
        ensures
            shaped(line@, out, function_shape(line@)),
    {
        let named = find_word_end(line, 0);
        if named == 0 {
            return None;
        }
        proof {
            lemma_word_end(line@, 0);
            if named + 1 <= line.len() {
                lemma_word_end(line@, named + 1);
            }
        }
        let mut last = "any".to_owned();
        let mut head = named;
        if named < line.len() && line.len() - named > 1 && line[named] == ' ' {
            let end = find_word_end(line, named + 1);
            if end > named + 1 {
                last = slice_string(line, named + 1, end);
                head = end;
            }
        }
        let open = find_spaces_end(line, head);
        if !(open < line.len() && line[open] == '(') {
            return None;
        }
        let close = find_first_of(line, open + 1, ')');
        if close >= line.len() {
            return None;
        }
        let params = slice_chars(line, open + 1, close);
        let raws = scan(&params);
        let (stop, pairs) = read_params(&params, &raws, 0, raws.len());
        if stop != raws.len() {
            return None;
        }
        match find_tail(line, close + 1) {
            Some(tail) => {
                let name = slice_string(line, 0, named);
                let mut signature: Vec<(String, String)> = Vec::new();
                signature.push((name.clone(), last));
                let ghost first = pairs_view(signature);
                let ghost more = pairs_view(pairs);
                let mut pairs = pairs;
                signature.append(&mut pairs);
                assert(pairs_view(signature) =~= first + more);
                assert(first =~= seq![(name@, last@)]);
                Some((Token::Function { name, signature }, parts_of_tail(line, tail)))
            },
            None => None,
        }
    }

    /// Reads a line as a list of bindings.
    pub fn new_assign(line: &Vec<char>) -> (out: Option<(Token, Vec<(usize, usize)>)>)
        ensures
            shaped(line@, out, assign_shape(line@)),
    {
        let mut binds: Vec<(String, String)> = Vec::new();
        let mut parts: Vec<(usize, usize)> = Vec::new();
        let mut at: usize = 0;
        let mut done = false;
        assert(pairs_view(binds) =~= Seq::<(Seq<char>, Seq<char>)>::empty());
        assert(parts_view(parts) =~= Seq::<(int, int)>::empty());
        while !done
            invariant
                at <= line.len(),
                forall|i: int|
                    0 <= i < parts.len() ==> (#[trigger] parts[i]).0 <= parts[i].1 <= line.len(),
                !done ==> (binds_from(line@, 0) is Some == binds_from(line@, at as int) is Some),
                !done ==> (binds_from(line@, at as int) matches Some(more) ==> binds_from(line@, 0)
                    == Some((pairs_view(binds) + more.0, parts_view(parts) + more.1))),
                done ==> binds_from(line@, 0) == Some((pairs_view(binds), parts_view(parts))),
            decreases line.len() - at + if done { 0int } else { 1int },
        {
            let ghost bound = pairs_view(binds);
            let ghost parted = parts_view(parts);
            proof {
                lemma_spaces_end(line@, at as int);
            }
            let begin = find_spaces_end(line, at);
            if begin >= line.len() {
                assert(bound + Seq::<(Seq<char>, Seq<char>)>::empty() =~= bound);
                assert(parted + Seq::<(int, int)>::empty() =~= parted);
                done = true;
            } else {
                let named = find_word_end(line, begin);
                if named <= begin {
                    return None;
                }
                proof {
                    lemma_word_end(line@, begin as int);
                    if named + 1 <= line.len() {
                        lemma_word_end(line@, named + 1);
                    }
                }
                let mut colon = named;
                let mut typed = false;
                if named < line.len() && line.len() - named > 1 && line[named] == ' ' {
                    let end = find_word_end(line, named + 1);
                    if end > named + 1 {
                        colon = end;
                        typed = true;
                    }
                }
                if !(colon < line.len() && line[colon] == ':') {
                    return None;
                }
                let stop = find_first_of(line, colon + 1, ';');
                if stop <= colon + 1 {
                    return None;
                }
                let name = slice_string(line, begin, named);
                let kind = if typed {
                    slice_string(line, named + 1, colon)
                } else {
                    "any".to_owned()
                };
                let ghost bind = (name@, kind@);
                binds.push((name, kind));
                parts.push((colon + 1, stop));
                assert(pairs_view(binds) =~= bound + seq![bind]);
                assert(parts_view(parts) =~= parted + seq![(colon + 1, stop as int)]);
                if stop < line.len() {
                    proof {
                        if let Some(more) = binds_from(line@, stop + 1) {
                            assert(pairs_view(binds) + more.0 =~= bound + (seq![bind] + more.0));
                            assert(parts_view(parts) + more.1 =~= parted + (seq![
                                (colon + 1, stop as int),
                            ] + more.1));
                        }
                    }
                    at = stop + 1;
                } else {
                    assert(bound + (seq![bind] + Seq::<(Seq<char>, Seq<char>)>::empty())
                        =~= pairs_view(binds));
                    assert(parted + (seq![(colon + 1, stop as int)] + Seq::<(int, int)>::empty())
                        =~= parts_view(parts));
                    done = true;
                }
            }
        }
        if binds.len() > 0 {
            Some((Token::Assign(binds), parts))
        } else {
            None
        }
    }

    /// Reads a line as a head word, an expression and `:`.
    fn new_block(line: &Vec<char>, head: &str, token: Token) -> (out: Option<
        (Token, Vec<(usize, usize)>),
    >)
        ensures
            shaped(line@, out, block_shape(line@, head@, token@)),
    {
        let size = head.unicode_len();
        if starts_with(line, 0, head) && line.len() - size >= 2 && line[line.len() - 1] == ':' {
            Some((token, one_part(size, line.len() - 1)))
        } else {
            None
        }
    }

    /// Reads a line as an `if` statement.
    pub fn new_if(line: &Vec<char>) -> (out: Option<(Token, Vec<(usize, usize)>)>)
        ensures
            shaped(line@, out, block_shape(line@, "if "@, TokenView::If)),
    {
        Node::new_block(line, "if ", Token::If)
    }

    /// Reads a line as a `while` statement.
    pub fn new_while(line: &Vec<char>) -> (out: Option<(Token, Vec<(usize, usize)>)>)
        ensures
            shaped(line@, out, block_shape(line@, "while "@, TokenView::While)),
    {
        Node::new_block(line, "while ", Token::While)
    }

    /// Reads a line as a `for` statement.
    pub fn new_for(line: &Vec<char>) -> (out: Option<(Token, Vec<(usize, usize)>)>)
        ensures
            shaped(line@, out, for_shape(line@)),
    {
        proof {
            reveal_strlit("for ");
            reveal_strlit(" in ");
        }
        if !starts_with(line, 0, "for ") {
            return None;
        }
        let named = find_word_end(line, 4);
        if named <= 4 {
            return None;
        }
        if starts_with(line, named, " in ") && line.len() - named >= 6 && line[line.len() - 1]
            == ':' {
            Some((Token::For(slice_string(line, 4, named)), one_part(named + 4, line.len() - 1)))
        } else {
            None
        }
    }

    /// Reads a line as a `return` statement.
    pub fn new_return(line: &Vec<char>) -> (out: Option<(Token, Vec<(usize, usize)>)>)
        ensures
            shaped(line@, out, return_shape(line@)),
    {
        proof {
            reveal_strlit("return ");
            reveal_strlit("return");
        }
        if spells(line, 0, line.len(), "return") {
            assert(line@.subrange(0, line.len() as int) =~= line@);
            Some((Token::Return, no_parts()))
        } else if starts_with(line, 0, "return ") && line.len() > 7 {
            assert(line@.subrange(0, line.len() as int) =~= line@);
            Some((Token::Return, one_part(7, line.len())))
        } else {
            assert(line@.subrange(0, line.len() as int) =~= line@);
            None
        }
    }

    /// Reads a list of names: where it ends, and the names.
    pub fn read_names(text: &Vec<char>, raws: &Vec<Raw>) -> (out: (usize, Vec<String>))
        requires
            spanned(text@, raws@),
        ensures
            out.0 == names_stop(text@, raws@, 0, raws.len() as int),
            out.0 <= raws.len(),
            out.1.deep_view() == names_of(text@, raws@, 0, raws.len() as int),
    {
        let mut names: Vec<String> = Vec::new();
        let mut at: usize = 0;
        let mut done = false;
        let ghost end = raws.len() as int;
        while !done
            invariant
                at <= raws.len(),
                end == raws.len(),
                spanned(text@, raws@),
                !done ==> names_stop(text@, raws@, 0, end) == names_stop(
                    text@,
                    raws@,
                    at as int,
                    end,
                ),
                !done ==> names_of(text@, raws@, 0, end) == names.deep_view() + names_of(
                    text@,
                    raws@,
                    at as int,
                    end,
                ),
                done ==> names_stop(text@, raws@, 0, end) == at,
                done ==> names_of(text@, raws@, 0, end) == names.deep_view(),
            decreases raws.len() - at + if done { 0int } else { 1int },
        {
            let ghost before = names.deep_view();
            if at < raws.len() && raws[at].kind == Kind::Name {
                let raw = raws[at];
                assert(crate::lexer::fits(text@, raw));
                names.push(slice_string(text, raw.from, raw.to));
                assert(names.deep_view() =~= before + seq![raw_text(text@, raw)]);
                let comma = at + 1 < raws.len() && raws[at + 1].kind == Kind::Operator && {
                    let next = raws[at + 1];
                    assert(crate::lexer::fits(text@, next));
                    spells(text, next.from, next.to, ",")
                };
                if comma {
                    assert(names.deep_view() + names_of(text@, raws@, at + 2, end) =~= before + (
                    seq![raw_text(text@, raw)] + names_of(text@, raws@, at + 2, end)));
                    at = at + 2;
                } else {
                    at = at + 1;
                    done = true;
                }
            } else {
                assert(before + Seq::<Seq<char>>::empty() =~= before);
                done = true;
            }
        }
        (at, names)
    }

    /// Reads a line as a `link` statement.
    pub fn new_link(line: &Vec<char>) -> (out: Option<(Token, Vec<(usize, usize)>)>)
        ensures
            shaped(line@, out, link_shape(line@)),
    {
        proof {
            reveal_strlit("link ");
        }
        if !starts_with(line, 0, "link ") {
            return None;
        }
        let list = slice_chars(line, 5, line.len());
        let raws = scan(&list);
        let (stop, names) = Node::read_names(&list, &raws);
        if raws.len() > 0 && stop == raws.len() {
            Some((Token::Link(names), no_parts()))
        } else {
            None
        }
    }

    /// Reads a line as a `use` statement.
    pub fn new_use(line: &Vec<char>) -> (out: Option<(Token, Vec<(usize, usize)>)>)
        ensures
            shaped(line@, out, use_shape(line@)),
    {
        proof {
            reveal_strlit("use ");
        }
        if !starts_with(line, 0, "use ") {
            return None;
        }
        let list = slice_chars(line, 4, line.len());
        let raws = scan(&list);
        let (stop, names) = Node::read_names(&list, &raws);
        if stop == 0 {
            return None;
        }
        let mut source: Option<String> = None;
        if raws.len() - stop > 1 && raws[stop].kind == Kind::Name && raws[stop + 1].kind
            == Kind::Name {
            let word = raws[stop];
            let next = raws[stop + 1];
            assert(crate::lexer::fits(list@, word));
            assert(crate::lexer::fits(list@, next));
            if spells(&list, word.from, word.to, "from") {
                source = Some(slice_string(&list, next.from, next.to));
            }
        }
        Some((Token::Use { names, source }, no_parts()))
    }

    /// Reads a line as one word and nothing else.
    fn new_word(line: &Vec<char>, word: &str, token: Token) -> (out: Option<
        (Token, Vec<(usize, usize)>),
    >)
        ensures
            shaped(line@, out, word_shape(line@, word@, token@)),
    {
        assert(line@.subrange(0, line.len() as int) =~= line@);
        if spells(line, 0, line.len(), word) {
            Some((token, no_parts()))
        } else {
            None
        }
    }

    /// Reads a line as `continue`.
    pub fn new_continue(line: &Vec<char>) -> (out: Option<(Token, Vec<(usize, usize)>)>)
        ensures
            shaped(line@, out, word_shape(line@, "continue"@, TokenView::Continue)),
    {
        Node::new_word(line, "continue", Token::Continue)
    }

    /// Reads a line as `break`.
    pub fn new_break(line: &Vec<char>) -> (out: Option<(Token, Vec<(usize, usize)>)>)
        ensures
            shaped(line@, out, word_shape(line@, "break"@, TokenView::Break)),
    {
        Node::new_word(line, "break", Token::Break)
    }

    /// Reads a line as `else:`.
    pub fn new_else(line: &Vec<char>) -> (out: Option<(Token, Vec<(usize, usize)>)>)
        ensures
            shaped(line@, out, word_shape(line@, "else:"@, TokenView::Else)),
    {
        Node::new_word(line, "else:", Token::Else)
    }

    /// The head and the parts of a line that is a statement.
    pub fn shape(line: &Vec<char>) -> (out: Option<(Token, Vec<(usize, usize)>)>)
        ensures
            shaped(line@, out, statement_shape(line@)),
    {
        let found = Node::new_type(line);
        if found.is_some() {
            return found;
        }
        let found = Node::new_function(line);
        if found.is_some() {
            return found;
        }
        let found = Node::new_assign(line);
        if found.is_some() {
            return found;
        }
        let found = Node::new_if(line);
        if found.is_some() {
            return found;
        }
        let found = Node::new_while(line);
        if found.is_some() {
            return found;
        }
        let found = Node::new_for(line);
        if found.is_some() {
            return found;
        }
        let found = Node::new_return(line);
        if found.is_some() {
            return found;
        }
        let found = Node::new_link(line);
        if found.is_some() {
            return found;
        }
        let found = Node::new_use(line);
        if found.is_some() {
            return found;
        }
        let found = Node::new_continue(line);
        if found.is_some() {
            return found;
        }
        let found = Node::new_break(line);
        if found.is_some() {
            return found;
        }
        Node::new_else(line)
    }

    /// Reads a line as a statement, or else as an expression. There is no
    /// node where a number in the line cannot be read.
    pub fn statement(pattern: &str) -> (out: Option<Node>)
        ensures
            (out is Some) == statement_readable(pattern@),
            out matches Some(node) ==> node@ == statement_of(pattern@),
    {
        let line = chars_of(pattern);
        Node::statement_chars(&line)
    }

    /// Reads the characters of a line as a statement, or else as an expression.
    pub fn statement_chars(line: &Vec<char>) -> (out: Option<Node>)
        ensures
            (out is Some) == statement_readable(line@),
            out matches Some(node) ==> node@ == statement_of(line@),
    {
        match Node::shape(line) {
            Some((token, parts)) => match parse_parts(line, &parts) {
                Some(nodes) => Some(Node::branch(token, nodes)),
                None => None,
            },
            None => Node::expression_chars(line),
        }
    }
}

} // verus!

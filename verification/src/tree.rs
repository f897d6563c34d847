//! Linking: the nodes of the lines become one tree by indentation.

use vstd::prelude::*;
use crate::chars::{is_space, space};
use crate::nodes::{node_view, nodes_view, Node, NodeView};
use crate::patterns::{find_spaces_end, lemma_spaces_end, spaces_end};
use crate::statements::{
    slice_chars, starts, starts_with, statement_of, statement_readable,
};
use crate::string::chars_of;
use crate::tokens::TokenView;

verus! {

/// The end of the run of tabs that begins at `at`.
pub open spec fn tabs_end(text: Seq<char>, at: int) -> int
    decreases text.len() - at,
{
    if 0 <= at < text.len() && text[at] == '\t' {
        tabs_end(text, at + 1)
    } else {
        at
    }
}

/// The start of the run of white space that ends at `end`, not before `from`.
pub open spec fn spaces_start(text: Seq<char>, from: int, end: int) -> int
    decreases end - from,
{
    if 0 <= from < end <= text.len() && space(text[end - 1]) {
        spaces_start(text, from, end - 1)
    } else {
        end
    }
}

/// The text without the white space at its two ends.
pub open spec fn trimmed(text: Seq<char>) -> Seq<char> {
    let from = spaces_end(text, 0);
    if from >= text.len() {
        Seq::empty()
    } else {
        text.subrange(from, spaces_start(text, from, text.len() as int))
    }
}

/// Whether a line holds nothing but white space.
pub open spec fn blank_line(line: Seq<char>) -> bool {
    spaces_end(line, 0) >= line.len()
}

/// Whether a line is the second half of an `else …`.
pub open spec fn branching(rest: Seq<char>) -> bool {
    starts(rest, 0, "else "@) && rest.len() > 5
}

/// The statement of a line: what follows its tabs, and an `else ` where it
/// is a branch, without the white space at the two ends.
pub open spec fn line_pattern(line: Seq<char>) -> Seq<char> {
    let rest = line.subrange(tabs_end(line, 0), line.len() as int);
    trimmed(
        if branching(rest) {
            rest.subrange(5, rest.len() as int)
        } else {
            rest
        },
    )
}

/// The node of a line: its statement, one scope deeper than its tabs, and
/// marked where the line began with `else `.
pub open spec fn line_node(line: Seq<char>) -> NodeView {
    let rest = line.subrange(tabs_end(line, 0), line.len() as int);
    NodeView {
        scope: (tabs_end(line, 0) + 1) as nat,
        branch: branching(rest),
        ..statement_of(line_pattern(line))
    }
}

/// The parent with one more child.
pub open spec fn adopted(parent: NodeView, child: NodeView) -> NodeView {
    NodeView { nodes: parent.nodes.push(child), ..parent }
}

/// The stack with its last node made the last child of the node before it.
pub open spec fn folded(stack: Seq<NodeView>) -> Seq<NodeView>
    recommends
        stack.len() >= 2,
{
    stack.subrange(0, stack.len() - 2).push(
        adopted(stack[stack.len() - 2], stack[stack.len() - 1]),
    )
}

/// The stack folded until its last node is shallower than `scope`.
pub open spec fn settled(stack: Seq<NodeView>, scope: nat) -> Seq<NodeView>
    decreases stack.len(),
{
    if stack.len() >= 2 && scope <= stack.last().scope {
        settled(folded(stack), scope)
    } else {
        stack
    }
}

/// The stack folded into its first node.
pub open spec fn collapsed(stack: Seq<NodeView>) -> NodeView
    decreases stack.len(),
{
    if stack.len() >= 2 {
        collapsed(folded(stack))
    } else if stack.len() == 1 {
        stack[0]
    } else {
        NodeView::fresh(TokenView::Module, Seq::empty())
    }
}

/// The tree of the lines from `at` on, given the stack of nodes that are
/// still open. Blank lines are passed over. Each line closes the nodes that
/// are not shallower than it, and then stands open itself.
pub open spec fn linked_from(stack: Seq<NodeView>, lines: Seq<Seq<char>>, at: int) -> NodeView
    decreases lines.len() - at,
{
    if !(0 <= at < lines.len()) {
        collapsed(stack)
    } else if blank_line(lines[at]) {
        linked_from(stack, lines, at + 1)
    } else {
        linked_from(
            settled(stack, line_node(lines[at]).scope).push(line_node(lines[at])),
            lines,
            at + 1,
        )
    }
}

/// The tree of a list of logical lines, under a module.
pub open spec fn tree_of(lines: Seq<Seq<char>>) -> NodeView {
    linked_from(seq![NodeView::fresh(TokenView::Module, Seq::empty())], lines, 0)
}

/// Whether every number in the lines can be read.
pub open spec fn tree_readable(lines: Seq<Seq<char>>) -> bool {
    forall|i: int|
        0 <= i < lines.len() && !blank_line(#[trigger] lines[i]) ==> statement_readable(
            line_pattern(lines[i]),
        )
}

/// The content of a stack of nodes.
pub open spec fn stack_view(stack: Vec<Node>) -> Seq<NodeView> {
    Seq::new(stack.len() as nat, |i: int| node_view(stack[i]))
}

/// The end of the run of tabs that begins at `at`.
fn find_tabs_end(text: &Vec<char>, at: usize) -> (end: usize)
    requires
        at <= text.len(),
    ensures
        end == tabs_end(text@, at as int),
        at <= end <= text.len(),
{
    let mut end = at;
    while end < text.len() && text[end] == '\t'
        invariant
            at <= end <= text.len(),
            tabs_end(text@, at as int) == tabs_end(text@, end as int),
        decreases text.len() - end,
    {
        end += 1;
    }
    end
}

/// The text without the white space at its two ends.
pub fn trim(text: &Vec<char>) -> (out: Vec<char>)
    ensures
        out@ == trimmed(text@),
{
    let from = find_spaces_end(text, 0);
    if from >= text.len() {
        return Vec::new();
    }
    let mut end = text.len();
    while from < end && is_space(text[end - 1])
        invariant
            from <= end <= text.len(),
            spaces_start(text@, from as int, text.len() as int) == spaces_start(
                text@,
                from as int,
                end as int,
            ),
        decreases end,
    {
        end -= 1;
    }
    slice_chars(text, from, end)
}

/// The parent with one more child.
fn adopt(parent: Node, child: Node) -> (out: Node)
    ensures
        out@ == adopted(parent@, child@),
{
    let mut parent = parent;
    let ghost before = parent@;
    let ghost kids = nodes_view(parent.nodes);
    assert(before.nodes =~= kids);
    parent.nodes.push(child);
    assert(parent@.nodes =~= kids.push(child@));
    parent
}

/// Folds the last node of the stack into the node before it.
fn fold(stack: &mut Vec<Node>)
    requires
        old(stack).len() >= 2,
    ensures
        stack_view(*final(stack)) == folded(stack_view(*old(stack))),
        final(stack).len() == old(stack).len() - 1,
{
    let ghost before = stack_view(*stack);
    let child = stack.pop().unwrap();
    let parent = stack.pop().unwrap();
    let ghost rest = stack_view(*stack);
    assert(rest =~= before.subrange(0, before.len() - 2));
    assert(child@ == before[before.len() - 1]);
    assert(parent@ == before[before.len() - 2]);
    stack.push(adopt(parent, child));
    assert(stack_view(*stack) =~= folded(before));
}

impl Node {
    /// Reads one line that is not blank as a node. There is no node where a
    /// number in the line cannot be read.
    pub fn line(line: &Vec<char>) -> (out: Option<Node>)
        requires
            !blank_line(line@),
        ensures
            (out is Some) == statement_readable(line_pattern(line@)),
            out matches Some(node) ==> node@ == line_node(line@),
    {
        proof {
            reveal_strlit("else ");
            lemma_spaces_end(line@, 0);
        }
        let scope = find_tabs_end(line, 0);
        assert(scope < line.len()) by {
            lemma_tabs_are_spaces(line@, 0);
        }
        let rest = slice_chars(line, scope, line.len());
        let branch = starts_with(&rest, 0, "else ") && rest.len() > 5;
        let pattern = if branch {
            trim(&slice_chars(&rest, 5, rest.len()))
        } else {
            trim(&rest)
        };
        match Node::statement_chars(&pattern) {
            Some(node) => {
                let mut node = node;
                let ghost before = node@;
                let ghost kids = nodes_view(node.nodes);
                assert(before.nodes =~= kids);
                node.scope = scope + 1;
                node.branch = branch;
                assert(node@.nodes =~= kids);
                Some(node)
            },
            None => None,
        }
    }

    /// Builds the tree of a list of logical lines. There is no tree where a
    /// number in a line cannot be read.
    pub fn tree(source: Vec<String>) -> (out: Option<Node>)
        ensures
            (out is Some) == tree_readable(source.deep_view()),
            out matches Some(node) ==> node@ == tree_of(source.deep_view()),
    {
        let ghost lines = source.deep_view();
        let mut stack: Vec<Node> = Vec::new();
        stack.push(Node::module());
        assert(stack_view(stack) =~= seq![NodeView::fresh(TokenView::Module, Seq::empty())]);
        let mut at: usize = 0;
        while at < source.len()
            invariant
                at <= source.len(),
                lines == source.deep_view(),
                stack.len() >= 1,
                tree_of(lines) == linked_from(stack_view(stack), lines, at as int),
                forall|i: int|
                    0 <= i < at && !blank_line(#[trigger] lines[i]) ==> statement_readable(
                        line_pattern(lines[i]),
                    ),
            decreases source.len() - at,
        {
            let line = chars_of(source[at].as_str());
            assert(line@ == lines[at as int]);
            proof {
                lemma_spaces_end(line@, 0);
            }
            let blank = find_spaces_end(&line, 0) >= line.len();
            if !blank {
                match Node::line(&line) {
                    Some(node) => {
                        while stack.len() >= 2 && node.scope <= stack[stack.len() - 1].scope
                            invariant
                                stack.len() >= 1,
                                tree_of(lines) == linked_from(
                                    settled(stack_view(stack), node@.scope).push(node@),
                                    lines,
                                    at + 1,
                                ),
                            decreases stack.len(),
                        {
                            fold(&mut stack);
                        }
                        let ghost before = stack_view(stack);
                        stack.push(node);
                        assert(stack_view(stack) =~= before.push(node@));
                    },
                    None => {
                        return None;
                    },
                }
            }
            at += 1;
        }
        while stack.len() >= 2
            invariant
                stack.len() >= 1,
                tree_of(lines) == collapsed(stack_view(stack)),
            decreases stack.len(),
        {
            fold(&mut stack);
        }
        let ghost last = stack_view(stack);
        let node = stack.pop().unwrap();
        assert(node@ == last[0]);
        Some(node)
    }
}

/// A line of nothing but tabs is blank.
proof fn lemma_tabs_are_spaces(text: Seq<char>, at: int)
    requires
        0 <= at <= text.len(),
    ensures
        tabs_end(text, at) >= text.len() ==> spaces_end(text, at) >= text.len(),
        at <= tabs_end(text, at) <= text.len(),
    decreases text.len() - at,
{
    if at < text.len() && text[at] == '\t' {
        lemma_tabs_are_spaces(text, at + 1);
    }
}

} // verus!

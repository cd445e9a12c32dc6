//! The parser: a state machine over the token sequence that builds the
//! document tree and collects every structural diagnostic.

use vstd::prelude::*;

use crate::error::{errors_view, BasmError, ErrorView};
use crate::lexer::{tokens_view, Token, TokenType, TokenView};
use crate::node::{is_string_leaf, Node, NodeData};
use crate::text::{is_wrapped_in, same_text, strip_delimiters, wrapped_in, inner_text};

verus! {

/// What the parser expects next at the top level: a new construct, or the
/// string payload of the metadata entry it has just opened.
#[derive(Debug, Clone, Copy, PartialEq, Eq, Structural)]
pub enum RootState {
    Root,
    SemVer,
    VM,
    Agent,
}

/// A child of the root as the parser builds it: its data and line, and the
/// text and line of its `StringData` leaf, if it has one.
pub struct Entry {
    pub data: NodeData,
    pub line: nat,
    pub leaf: Option<(Seq<char>, nat)>,
}

/// The parser's state in the abstract: its context, the children of the
/// root so far, and the diagnostics so far.
pub struct ParseModel {
    pub state: RootState,
    pub entries: Seq<Entry>,
    pub errors: Seq<ErrorView>,
}

/// The metadata state that a keyword opens, if any.
pub open spec fn metadata_state(t: Seq<char>) -> Option<RootState> {
    if t == "sem_ver"@ {
        Some(RootState::SemVer)
    } else if t == "vm"@ {
        Some(RootState::VM)
    } else if t == "agent"@ {
        Some(RootState::Agent)
    } else {
        None
    }
}

/// The node data of a metadata entry.
pub open spec fn metadata_data(st: RootState) -> NodeData {
    match st {
        RootState::SemVer => NodeData::SemVer,
        RootState::VM => NodeData::VM,
        _ => NodeData::Agent,
    }
}

/// A literal of at least two characters between the given delimiters.
pub open spec fn delimited(t: Seq<char>, open: char, close: char) -> bool {
    t.len() >= 2 && wrapped_in(t, open, close)
}

/// The diagnostic for a token that cannot stand where it stands.
pub open spec fn unexpected(t: TokenView) -> ErrorView {
    ErrorView::UnexpectedTokenInTopLevel(t.line, t.text)
}

/// The model with one more diagnostic for `t`.
pub open spec fn with_error(m: ParseModel, st: RootState, t: TokenView) -> ParseModel {
    ParseModel { state: st, entries: m.entries, errors: m.errors.push(unexpected(t)) }
}

/// A container child for a `[...]` or `{...}` header, with its text as leaf.
pub open spec fn header_entry(data: NodeData, t: TokenView) -> Entry {
    Entry { data, line: t.line, leaf: Some((inner_text(t.text), t.line)) }
}

/// One transition of the parser on token `t`.
pub open spec fn parse_step(m: ParseModel, t: TokenView) -> ParseModel {
    match m.state {
        RootState::Root => match t.token_type {
            TokenType::Keyword => match metadata_state(t.text) {
                Some(st) => ParseModel {
                    state: st,
                    entries: m.entries.push(Entry { data: metadata_data(st), line: t.line, leaf: None }),
                    errors: m.errors,
                },
                None => with_error(m, RootState::Root, t),
            },
            TokenType::Literal => if delimited(t.text, '[', ']') {
                ParseModel {
                    state: RootState::Root,
                    entries: m.entries.push(header_entry(NodeData::Target, t)),
                    errors: m.errors,
                }
            } else if delimited(t.text, '{', '}') {
                ParseModel {
                    state: RootState::Root,
                    entries: m.entries.push(header_entry(NodeData::Monitor, t)),
                    errors: m.errors,
                }
            } else {
                with_error(m, RootState::Root, t)
            },
            TokenType::Punctuator => with_error(m, RootState::Root, t),
        },
        _ => if t.token_type == TokenType::Literal && delimited(t.text, '"', '"') {
            let last = m.entries.last();
            ParseModel {
                state: RootState::Root,
                entries: m.entries.update(
                    m.entries.len() - 1,
                    Entry { data: last.data, line: last.line, leaf: Some((inner_text(t.text), t.line)) },
                ),
                errors: m.errors,
            }
        } else {
            with_error(m, RootState::Root, t)
        },
    }
}

/// The parser's state after the given tokens, from an empty root.
pub open spec fn parse_tokens(ts: Seq<TokenView>) -> ParseModel
    decreases ts.len(),
{
    if ts.len() == 0 {
        ParseModel { state: RootState::Root, entries: Seq::empty(), errors: Seq::empty() }
    } else {
        parse_step(parse_tokens(ts.drop_last()), ts.last())
    }
}

/// A node built as the entry describes.
pub open spec fn node_is(n: Node, e: Entry) -> bool {
    &&& n.data == e.data
    &&& n.line as nat == e.line
    &&& match e.leaf {
        None => n.branches@.len() == 0,
        Some((text, line)) => n.branches@.len() == 1 && is_string_leaf(n.branches@[0], text, line),
    }
}

/// The nodes are built as the entries describe, one for one and in order.
pub open spec fn nodes_are(ns: Seq<Node>, es: Seq<Entry>) -> bool {
    &&& ns.len() == es.len()
    &&& forall|i: int| 0 <= i < ns.len() ==> node_is(#[trigger] ns[i], es[i])
}

/// While a payload is awaited, the last entry is the open metadata entry.
pub open spec fn model_wf(m: ParseModel) -> bool {
    m.state != RootState::Root ==> {
        &&& m.entries.len() > 0
        &&& m.entries.last().data == metadata_data(m.state)
        &&& m.entries.last().leaf is None
    }
}

proof fn lemma_parse_tokens_wf(ts: Seq<TokenView>)
    ensures
        model_wf(parse_tokens(ts)),
    decreases ts.len(),
{
    if ts.len() > 0 {
        lemma_parse_tokens_wf(ts.drop_last());
    }
}

/// Parsing depends on the tokens alone: equal token sequences give equal
/// trees and equal diagnostics.
pub proof fn lemma_parse_deterministic(a: Seq<TokenView>, b: Seq<TokenView>)
    requires
        a == b,
    ensures
        parse_tokens(a).entries == parse_tokens(b).entries,
        parse_tokens(a).errors == parse_tokens(b).errors,
{
}

/// Every child of the root is a metadata or container node, never a leaf;
/// its only possible child is a leaf, and leaves have no children.
pub proof fn lemma_tree_shape(ts: Seq<TokenView>, ns: Seq<Node>)
    requires
        nodes_are(ns, parse_tokens(ts).entries),
    ensures
        forall|i: int| 0 <= i < ns.len() ==> !(#[trigger] ns[i]).data.is_leaf(),
        forall|i: int, j: int|
            0 <= i < ns.len() && 0 <= j < ns[i].branches@.len() ==> {
                &&& (#[trigger] ns[i].branches@[j]).data.is_leaf()
                &&& ns[i].branches@[j].branches@.len() == 0
            },
{
    lemma_entries_not_leaves(ts);
    let es = parse_tokens(ts).entries;
    assert forall|i: int| 0 <= i < ns.len() implies !(#[trigger] ns[i]).data.is_leaf() by {
        assert(node_is(ns[i], es[i]));
    }
    assert forall|i: int, j: int| 0 <= i < ns.len() && 0 <= j < ns[i].branches@.len() implies {
        &&& (#[trigger] ns[i].branches@[j]).data.is_leaf()
        &&& ns[i].branches@[j].branches@.len() == 0
    } by {
        assert(node_is(ns[i], es[i]));
    }
}

proof fn lemma_entries_not_leaves(ts: Seq<TokenView>)
    ensures
        forall|i: int|
            0 <= i < parse_tokens(ts).entries.len() ==> !(#[trigger] parse_tokens(ts).entries[i]).data.is_leaf(),
    decreases ts.len(),
{
    if ts.len() > 0 {
        lemma_entries_not_leaves(ts.drop_last());
    }
}

/// The parser's working state.
struct ParseData {
    state: RootState,
    errors: Vec<BasmError>,
    root: Node,
}

impl ParseData {
    spec fn matches(&self, m: ParseModel) -> bool {
        &&& self.state == m.state
        &&& errors_view(self.errors@) == m.errors
        &&& self.root.data == NodeData::Root
        &&& self.root.line == 0
        &&& nodes_are(self.root.branches@, m.entries)
    }
}

fn unexpected_token_error(token: &Token, errors: &mut Vec<BasmError>)
    ensures
        errors_view(final(errors)@) == errors_view(old(errors)@).push(unexpected(token@)),
{
    let error = BasmError::UnexpectedTokenInTopLevel { line: token.line, data: token.data.clone() };
    errors.push(error);
    assert(errors_view(errors@) =~= errors_view(old(errors)@).push(unexpected(token@)));
}

fn parse_token(data: &mut ParseData, token: &Token, Ghost(m): Ghost<ParseModel>)
    requires
        old(data).matches(m),
        model_wf(m),
    ensures
        final(data).matches(parse_step(m, token@)),
{
    parse_rootstate_token(data, token, Ghost(m));
}

fn parse_rootstate_token(data: &mut ParseData, token: &Token, Ghost(m): Ghost<ParseModel>)
    requires
        old(data).matches(m),
        model_wf(m),
    ensures
        final(data).matches(parse_step(m, token@)),
{
    let text = token.data.as_str();
    match data.state {
        RootState::Root => match token.token_type {
            TokenType::Keyword => {
                let (node_data, next) = if same_text(text, "sem_ver") {
                    (NodeData::SemVer, RootState::SemVer)
                } else if same_text(text, "vm") {
                    (NodeData::VM, RootState::VM)
                } else if same_text(text, "agent") {
                    (NodeData::Agent, RootState::Agent)
                } else {
                    unexpected_token_error(token, &mut data.errors);
                    return;
                };
                data.root.branches.push(Node { data: node_data, branches: Vec::new(), line: token.line });
                data.state = next;
                proof {
                    let e = Entry { data: node_data, line: token.line as nat, leaf: None };
                    assert forall|i: int| 0 <= i < data.root.branches@.len()
                        implies node_is(#[trigger] data.root.branches@[i], m.entries.push(e)[i]) by {
                        if i < m.entries.len() {
                            assert(data.root.branches@[i] == old(data).root.branches@[i]);
                        }
                    }
                }
            },
            TokenType::Literal => {
                let node_data = if text.unicode_len() >= 2 && is_wrapped_in(text, '[', ']') {
                    NodeData::Target
                } else if text.unicode_len() >= 2 && is_wrapped_in(text, '{', '}') {
                    NodeData::Monitor
                } else {
                    unexpected_token_error(token, &mut data.errors);
                    return;
                };
                let leaf = Node { data: NodeData::StringData(strip_delimiters(text)), branches: Vec::new(), line: token.line };
                let mut branches: Vec<Node> = Vec::new();
                branches.push(leaf);
                data.root.branches.push(Node { data: node_data, branches, line: token.line });
                proof {
                    let e = header_entry(node_data, token@);
                    assert forall|i: int| 0 <= i < data.root.branches@.len()
                        implies node_is(#[trigger] data.root.branches@[i], m.entries.push(e)[i]) by {
                        if i < m.entries.len() {
                            assert(data.root.branches@[i] == old(data).root.branches@[i]);
                        }
                    }
                }
            },
            TokenType::Punctuator => {
                unexpected_token_error(token, &mut data.errors);
            },
        },
        _ => {
            data.state = RootState::Root;
            if !(token.token_type == TokenType::Literal && text.unicode_len() >= 2 && is_wrapped_in(text, '"', '"')) {
                unexpected_token_error(token, &mut data.errors);
                return;
            }
            let leaf = Node { data: NodeData::StringData(strip_delimiters(text)), branches: Vec::new(), line: token.line };
            let mut node = data.root.branches.pop().unwrap();
            node.branches.push(leaf);
            data.root.branches.push(node);
            proof {
                let last = m.entries.last();
                let e = Entry { data: last.data, line: last.line, leaf: Some((inner_text(token.data@), token.line as nat)) };
                let es = m.entries.update(m.entries.len() - 1, e);
                assert forall|i: int| 0 <= i < data.root.branches@.len()
                    implies node_is(#[trigger] data.root.branches@[i], es[i]) by {
                    if i < m.entries.len() - 1 {
                        assert(data.root.branches@[i] == old(data).root.branches@[i]);
                    }
                }
            }
        },
    }
}

/// Builds the document tree from the tokens, with every structural
/// diagnostic; it keeps going after each one.
///
/// The root has line 0 and holds, in source order, one metadata node per
/// `sem_ver`, `vm` or `agent` keyword and one `Target` or `Monitor` node per
/// header. A metadata keyword that is not followed by a string literal keeps
/// its node, without children; that token is reported instead.
pub fn parse(tokens: &Vec<Token>) -> (r: (Node, Vec<BasmError>))
    ensures
        r.0.data == NodeData::Root,
        r.0.line == 0,
        nodes_are(r.0.branches@, parse_tokens(tokens_view(tokens@)).entries),
        errors_view(r.1@) == parse_tokens(tokens_view(tokens@)).errors,
{
    let mut data = ParseData {
        state: RootState::Root,
        errors: Vec::new(),
        root: Node { data: NodeData::Root, branches: Vec::new(), line: 0 },
    };
    let mut i: usize = 0;
    proof {
        assert(tokens_view(tokens@.subrange(0, 0)) =~= Seq::<TokenView>::empty());
        assert(errors_view(data.errors@) =~= Seq::<ErrorView>::empty());
    }
    while i < tokens.len()
        invariant
            i <= tokens@.len(),
            data.matches(parse_tokens(tokens_view(tokens@.subrange(0, i as int)))),
        decreases tokens@.len() - i,
    {
        let ghost prefix = tokens_view(tokens@.subrange(0, i as int));
        proof {
            lemma_parse_tokens_wf(prefix);
            assert(tokens_view(tokens@.subrange(0, i + 1)).drop_last() =~= prefix);
            assert(tokens_view(tokens@.subrange(0, i + 1)).last() == tokens@[i as int]@);
        }
        parse_token(&mut data, &tokens[i], Ghost(parse_tokens(prefix)));
        i += 1;
    }
    assert(tokens@.subrange(0, i as int) =~= tokens@);
    assert(errors_view(data.errors@) == parse_tokens(tokens_view(tokens@)).errors);
    (data.root, data.errors)
}

} // verus!

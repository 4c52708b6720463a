//! Recursive-descent parser: turns a token sequence into an ordered list
//! of statement trees and a constant pool populated with every literal
//! those statements reference.

use crate::constdata::lemma_contains_preserved;
use crate::constdata::ConstData;
use crate::generator::is_param_chain;
use crate::generator::lemma_param_chain_monotone;
use crate::generator::lemma_wf_statement_monotone;
use crate::generator::val_view;
use crate::generator::wf_statement;
use crate::scanner::Token;
use crate::scanner::TokenType;
use crate::strutil::dec_val;
use crate::strutil::is_dec_string;
use crate::tree::spec_append;
use crate::tree::ASTNodeKind;
use crate::tree::Node;
use vstd::prelude::*;
use vstd::utf8::encode_utf8;

verus! {

/// The total byte length of the texts of the first `i` tokens.
pub open spec fn prefix_token_bytes(toks: Seq<Token>, i: int) -> int
    decreases i,
    when i >= 0
{
    if i <= 0 {
        0
    } else {
        prefix_token_bytes(toks, i - 1) + encode_utf8(toks[i - 1]@.1).len()
    }
}

/// Prefix byte totals grow with the prefix.
proof fn lemma_prefix_monotone(toks: Seq<Token>, i: int, j: int)
    requires
        0 <= i <= j,
    ensures
        prefix_token_bytes(toks, i) <= prefix_token_bytes(toks, j),
    decreases j - i,
{
    if i < j {
        lemma_prefix_monotone(toks, i, j - 1);
    }
}

/// Every integer-classified token carries a digit string whose value fits
/// an unsigned 64-bit integer; the scanner's output satisfies this.
pub open spec fn tokens_dec_wf(toks: Seq<Token>) -> bool {
    forall|k: int|
        0 <= k < toks.len() ==> ((#[trigger] toks[k]@).0 == TokenType::Integer ==> is_dec_string(
            toks[k]@.1,
        ) && dec_val(toks[k]@.1) <= u64::MAX)
}

/// The parser: a borrowed token stream, a cursor into it, the constant
/// pool it populates, and whether a malformed argument list was met.
pub struct Parser<'a> {
    tokens: &'a Vec<Token>,
    index: usize,
    const_data: ConstData,
    failed: bool,
}

impl<'a> Parser<'a> {
    /// The token stream being parsed.
    pub closed spec fn spec_tokens(&self) -> Seq<Token> {
        self.tokens@
    }

    /// The cursor position.
    pub closed spec fn spec_index(&self) -> int {
        self.index as int
    }

    /// The constant pool populated so far.
    pub closed spec fn spec_const_data(&self) -> ConstData {
        self.const_data
    }

    /// Whether a malformed argument list was met.
    pub closed spec fn spec_failed(&self) -> bool {
        self.failed
    }

    /// The cursor is inside the stream, the pool is well-formed, and the
    /// pool holds no more bytes than the texts of the tokens consumed.
    pub closed spec fn wf(&self) -> bool {
        &&& self.index <= self.tokens@.len()
        &&& self.const_data.wf()
        &&& self.const_data.spec_data().len() <= prefix_token_bytes(
            self.tokens@,
            self.index as int,
        )
    }

    /// The cursor sits at the end of the stream or on a token that
    /// starts no statement.
    pub open spec fn spec_at_statement_boundary(&self) -> bool {
        self.spec_index() == self.spec_tokens().len() || (self.spec_tokens()[self.spec_index()]@.0
            != TokenType::Variable && self.spec_tokens()[self.spec_index()]@.0
            != TokenType::FunctionCall)
    }

    spec fn budget_ok(&self) -> bool {
        prefix_token_bytes(self.tokens@, self.tokens@.len() as int) <= u64::MAX
    }

    /// A parser at the start of `toks` with an empty pool.
    pub fn new(toks: &Vec<Token>) -> (p: Parser<'_>)
        ensures
            p.wf(),
            p.spec_tokens() == toks@,
            p.spec_index() == 0,
            !p.spec_failed(),
            p.spec_const_data().spec_entries() == Seq::<
                crate::constdata::ConstEntryModel,
            >::empty(),
            p.spec_const_data().spec_data() == Seq::<u8>::empty(),
            p.spec_const_data().spec_base() == crate::constdata::DEFAULT_DATA_SECTION_ADDRESS,
    {
        Parser { tokens: toks, index: 0, const_data: ConstData::new(), failed: false }
    }

    fn consume(&mut self, token: TokenType) -> (r: bool)
        ensures
            final(self).tokens == old(self).tokens,
            final(self).const_data == old(self).const_data,
            final(self).failed == old(self).failed,
            r == (old(self).index < old(self).tokens@.len() && old(self).tokens@[old(
                self,
            ).index as int]@.0 == token),
            final(self).index as int == old(self).index as int + (if r {
                1int
            } else {
                0int
            }),
    {
        if self.index >= self.tokens.len() {
            false
        } else if self.tokens[self.index].is_type(token) {
            self.index = self.index + 1;
            true
        } else {
            false
        }
    }

    fn consume_token(&mut self, token: TokenType) -> (r: Option<Token>)
        ensures
            final(self).tokens == old(self).tokens,
            final(self).const_data == old(self).const_data,
            final(self).failed == old(self).failed,
            match r {
                Some(t) => {
                    &&& old(self).index < old(self).tokens@.len()
                    &&& old(self).tokens@[old(self).index as int]@.0 == token
                    &&& t@ == old(self).tokens@[old(self).index as int]@
                    &&& final(self).index == old(self).index + 1
                },
                None => {
                    &&& *final(self) == *old(self)
                    &&& !(old(self).index < old(self).tokens@.len() && old(self).tokens@[old(
                        self,
                    ).index as int]@.0 == token)
                },
            },
    {
        if self.index >= self.tokens.len() {
            None
        } else if self.tokens[self.index].is_type(token) {
            self.index = self.index + 1;
            Some(self.tokens[self.index - 1].clone())
        } else {
            None
        }
    }

    fn peek(&self) -> (r: Option<TokenType>)
        ensures
            r == if self.index < self.tokens@.len() {
                Some(self.tokens@[self.index as int]@.0)
            } else {
                None::<TokenType>
            },
    {
        if (self.index) >= self.tokens.len() {
            None
        } else {
            Some(self.tokens[self.index].get_type())
        }
    }

    fn peek_ahead(&self) -> (r: Option<TokenType>)
        requires
            self.index <= self.tokens@.len(),
        ensures
            r == if self.index + 1 < self.tokens@.len() {
                Some(self.tokens@[self.index as int + 1]@.0)
            } else {
                None::<TokenType>
            },
    {
        if self.index >= self.tokens.len() {
            None
        } else if (self.index + 1) >= self.tokens.len() {
            None
        } else {
            Some(self.tokens[self.index + 1].get_type())
        }
    }

    fn variable(&mut self) -> (r: Option<Node>)
        ensures
            final(self).tokens == old(self).tokens,
            final(self).const_data == old(self).const_data,
            final(self).failed == old(self).failed,
            match r {
                Some(node) => {
                    &&& old(self).index < old(self).tokens@.len()
                    &&& old(self).tokens@[old(self).index as int]@.0 == TokenType::Variable
                    &&& final(self).index == old(self).index + 1
                    &&& crate::generator::is_leaf_node(node, ASTNodeKind::Variable)
                    &&& val_view(node) == old(self).tokens@[old(self).index as int]@.1
                },
                None => *final(self) == *old(self) && !(old(self).index < old(
                    self,
                ).tokens@.len() && old(self).tokens@[old(self).index as int]@.0
                    == TokenType::Variable),
            },
    {
        if let Some(t) = self.consume_token(TokenType::Variable) {
            Some(self.make_node(ASTNodeKind::Variable, Some(t.get_val())))
        } else {
            None
        }
    }

    fn equals(&mut self) -> (r: bool)
        ensures
            final(self).tokens == old(self).tokens,
            final(self).const_data == old(self).const_data,
            final(self).failed == old(self).failed,
            r == (old(self).index < old(self).tokens@.len() && old(self).tokens@[old(
                self,
            ).index as int]@.0 == TokenType::EqualSign),
            final(self).index as int == old(self).index as int + (if r {
                1int
            } else {
                0int
            }),
    {
        if self.consume(TokenType::EqualSign) {
            true
        } else {
            false
        }
    }

    fn integer(&mut self) -> (r: Option<Node>)
        requires
            old(self).wf(),
            old(self).budget_ok(),
        ensures
            final(self).tokens == old(self).tokens,
            final(self).failed == old(self).failed,
            final(self).wf(),
            final(self).const_data.spec_base() == old(self).const_data.spec_base(),
            forall|nm: Seq<char>|
                old(self).const_data.spec_contains(nm) ==> final(self).const_data.spec_contains(
                    nm,
                ),
            match r {
                Some(node) => {
                    &&& old(self).index < old(self).tokens@.len()
                    &&& old(self).tokens@[old(self).index as int]@.0 == TokenType::Integer
                    &&& final(self).index == old(self).index + 1
                    &&& crate::generator::is_leaf_node(node, ASTNodeKind::Integer)
                    &&& val_view(node) == old(self).tokens@[old(self).index as int]@.1
                    &&& final(self).const_data.spec_contains(val_view(node))
                },
                None => *final(self) == *old(self),
            },
    {
        let ghost old_self = *self;
        if let Some(t) = self.consume_token(TokenType::Integer) {
            let text = t.get_val();
            proof {
                assert(prefix_token_bytes(self.tokens@, old_self.index as int + 1)
                    == prefix_token_bytes(self.tokens@, old_self.index as int) + encode_utf8(
                    self.tokens@[old_self.index as int]@.1,
                ).len());
                lemma_prefix_monotone(
                    self.tokens@,
                    old_self.index as int + 1,
                    self.tokens@.len() as int,
                );
            }
            self.const_data.insert(text.as_str());
            let node = self.make_node(ASTNodeKind::Integer, Some(text));
            proof {
                let olde = old_self.const_data.spec_entries();
                let newe = self.const_data.spec_entries();
                assert forall|nm: Seq<char>|
                    old_self.const_data.spec_contains(nm) implies self.const_data.spec_contains(
                    nm,
                ) by {
                    lemma_contains_preserved(olde, newe, nm);
                }
            }
            Some(node)
        } else {
            None
        }
    }

    fn assignment(&mut self) -> (r: Option<Node>)
        requires
            old(self).wf(),
            old(self).budget_ok(),
        ensures
            final(self).tokens == old(self).tokens,
            final(self).failed == old(self).failed,
            final(self).wf(),
            final(self).const_data.spec_base() == old(self).const_data.spec_base(),
            final(self).index >= old(self).index,
            (old(self).index < old(self).tokens@.len() && old(self).tokens@[old(
                self,
            ).index as int]@.0 == TokenType::Variable) ==> final(self).index > old(self).index,
            forall|nm: Seq<char>|
                old(self).const_data.spec_contains(nm) ==> final(self).const_data.spec_contains(
                    nm,
                ),
            match r {
                Some(node) => {
                    &&& final(self).index > old(self).index
                    &&& stmt_shape_assignment(node)
                    &&& (tokens_dec_wf(old(self).tokens@) ==> wf_statement(
                        node,
                        final(self).const_data,
                    ))
                },
                None => final(self).const_data == old(self).const_data,
            },
    {
        let ghost old_self = *self;
        let ghost toks = self.tokens@;
        let v = self.variable();
        if !v.is_some() {
            return None;
        }
        let variable_node = match v {
            Some(n) => n,
            None => unreached(),
        };
        let ghost var_leaf = variable_node;

        let mut x = self.make_node(ASTNodeKind::Assignment, None);
        let ghost fresh = x;
        x.append_l(ASTNodeKind::Variable, variable_node);
        let ghost x1 = x;
        proof {
            assert(x1 == spec_append(fresh, true, var_leaf));
        }

        if !self.equals() {
            return None;
        }

        proof {
            lemma_prefix_monotone(self.tokens@, old_self.index as int, self.index as int);
        }
        let ghost int_token_index = self.index as int;
        let int_node = self.integer();
        match int_node {
            Some(r) => {
                let ghost before_append = x;
                x.append_r(ASTNodeKind::Integer, r);
                proof {
                    assert(x == spec_append(before_append, false, r));
                    assert(x1.left is Some && *x1.left.unwrap() == var_leaf);
                    assert(x1.right is None);
                    assert(x.right is Some && *x.right.unwrap() == r);
                    assert(stmt_shape_assignment(x));
                    if tokens_dec_wf(toks) {
                        assert(toks[int_token_index]@.0 == TokenType::Integer);
                        assert(is_dec_string(val_view(r)) && dec_val(val_view(r)) <= u64::MAX);
                        assert(wf_statement(x, self.const_data));
                    }
                }
                Some(x)
            },
            None => None,
        }
    }

    fn funcall(&mut self) -> (r: Option<Node>)
        requires
            old(self).wf(),
            old(self).budget_ok(),
        ensures
            final(self).tokens == old(self).tokens,
            final(self).wf(),
            final(self).const_data.spec_base() == old(self).const_data.spec_base(),
            final(self).index >= old(self).index,
            (old(self).index < old(self).tokens@.len() && old(self).tokens@[old(
                self,
            ).index as int]@.0 == TokenType::FunctionCall) ==> final(self).index > old(self).index,
            old(self).failed ==> final(self).failed,
            forall|nm: Seq<char>|
                old(self).const_data.spec_contains(nm) ==> final(self).const_data.spec_contains(
                    nm,
                ),
            match r {
                Some(node) => {
                    &&& final(self).index > old(self).index
                    &&& node.kind == ASTNodeKind::FunctionCall
                    &&& node.val is Some
                    &&& node.left is None
                    &&& is_param_chain(node.right, final(self).const_data)
                },
                None => true,
            },
    {
        let ghost old_self = *self;
        if let Some(t) = self.consume_token(TokenType::FunctionCall) {
            let funcall = self.make_node(ASTNodeKind::FunctionCall, Some(t.get_val()));

            if self.consume(TokenType::ParenOpen) {
                proof {
                    lemma_prefix_monotone(self.tokens@, old_self.index as int, self.index as int);
                }
                if let Some(function_with_params) = self.append_param_list(funcall) {
                    return Some(function_with_params);
                }
            }
        }
        None
    }

    /// Recurse over the argument list, registering each integer literal in
    /// the pool and appending it to the call's right chain. `None` means
    /// the list was malformed, which ends the parse as a failure.
    fn append_param_list(&mut self, node_list: Node) -> (r: Option<Node>)
        requires
            old(self).wf(),
            old(self).budget_ok(),
            is_param_chain(node_list.right, old(self).const_data),
        ensures
            final(self).tokens == old(self).tokens,
            final(self).wf(),
            final(self).const_data.spec_base() == old(self).const_data.spec_base(),
            final(self).index >= old(self).index,
            old(self).failed ==> final(self).failed,
            forall|nm: Seq<char>|
                old(self).const_data.spec_contains(nm) ==> final(self).const_data.spec_contains(
                    nm,
                ),
            match r {
                Some(out) => {
                    &&& out.kind == node_list.kind
                    &&& out.val == node_list.val
                    &&& out.left == node_list.left
                    &&& is_param_chain(out.right, final(self).const_data)
                },
                None => final(self).failed,
            },
        decreases old(self).tokens@.len() - old(self).index,
    {
        let ghost old_self = *self;
        if self.consume(TokenType::ParenClose) {
            return Some(node_list);
        }
        if let Some(param) = self.consume_token(TokenType::Integer) {
            let mut node_list = node_list;
            let param_val = param.get_val();
            proof {
                assert(prefix_token_bytes(self.tokens@, old_self.index as int + 1)
                    == prefix_token_bytes(self.tokens@, old_self.index as int) + encode_utf8(
                    self.tokens@[old_self.index as int]@.1,
                ).len());
                lemma_prefix_monotone(
                    self.tokens@,
                    old_self.index as int + 1,
                    self.tokens@.len() as int,
                );
            }
            let leaf = self.make_node(ASTNodeKind::Integer, Some(param_val.clone()));
            let ghost before_append = node_list;
            node_list.append_r(ASTNodeKind::Integer, leaf);
            self.const_data.insert(param_val.as_str());
            let ghost mid_self = *self;
            proof {
                let olde = old_self.const_data.spec_entries();
                let newe = self.const_data.spec_entries();
                assert forall|nm: Seq<char>|
                    old_self.const_data.spec_contains(nm) implies self.const_data.spec_contains(
                    nm,
                ) by {
                    lemma_contains_preserved(olde, newe, nm);
                }
                lemma_param_chain_monotone(
                    before_append.right,
                    old_self.const_data,
                    self.const_data,
                );
                lemma_append_param(before_append, leaf, self.const_data);
                assert(node_list == spec_append(before_append, false, leaf));
            }
            match node_list.get_right() {
                Some(right_subtree) => {
                    let sub_result = self.append_param_list(right_subtree);
                    proof {
                        assert forall|nm: Seq<char>|
                            old_self.const_data.spec_contains(
                                nm,
                            ) implies self.const_data.spec_contains(nm) by {
                            assert(mid_self.const_data.spec_contains(nm));
                        }
                    }
                    if sub_result.is_some() {
                        proof {
                            lemma_param_chain_monotone(
                                node_list.right,
                                mid_self.const_data,
                                self.const_data,
                            );
                        }
                        return Some(node_list);
                    } else {
                        return None;
                    }
                },
                None => {
                    return unreached();
                },
            }
        }
        self.failed = true;
        None
    }

    fn terminator(&mut self) -> (r: bool)
        ensures
            final(self).tokens == old(self).tokens,
            final(self).const_data == old(self).const_data,
            final(self).failed == old(self).failed,
            r == (old(self).index < old(self).tokens@.len() && old(self).tokens@[old(
                self,
            ).index as int]@.0 == TokenType::Terminator),
            final(self).index as int == old(self).index as int + (if r {
                1int
            } else {
                0int
            }),
    {
        if self.consume(TokenType::Terminator) {
            true
        } else {
            false
        }
    }

    fn make_node(&self, ast_type: ASTNodeKind, node_val: Option<String>) -> (node: Node)
        ensures
            node.kind == ast_type,
            node.val == node_val,
            node.left is None,
            node.right is None,
    {
        Node { kind: ast_type, val: node_val, left: None, right: None }
    }

    fn token_byte_total(&self) -> (r: Option<u64>)
        ensures
            match r {
                Some(t) => t as int == prefix_token_bytes(
                    self.tokens@,
                    self.tokens@.len() as int,
                ),
                None => prefix_token_bytes(self.tokens@, self.tokens@.len() as int) > u64::MAX,
            },
    {
        let n = self.tokens.len();
        let mut acc: u64 = 0;
        let mut i: usize = 0;
        while i < n
            invariant
                i <= n,
                n == self.tokens@.len(),
                acc as int == prefix_token_bytes(self.tokens@, i as int),
            decreases n - i,
        {
            let text = self.tokens[i].get_val();
            let b = text.as_str().as_bytes().len();
            if acc > u64::MAX - (b as u64) {
                proof {
                    lemma_prefix_monotone(self.tokens@, i as int + 1, n as int);
                }
                return None;
            }
            acc = acc + (b as u64);
            i = i + 1;
        }
        Some(acc)
    }

    /// Parse the whole stream into an ordered list of statement trees,
    /// leaving every literal they reference registered in the pool. `None`
    /// means the parse failed on a malformed argument list; the caller
    /// treats that as fatal.
    pub fn start(&mut self) -> (r: Option<Vec<Node>>)
        requires
            old(self).wf(),
        ensures
            final(self).wf(),
            final(self).spec_tokens() == old(self).spec_tokens(),
            final(self).spec_const_data().spec_base() == old(self).spec_const_data().spec_base(),
            forall|nm: Seq<char>|
                old(self).spec_const_data().spec_contains(nm) ==> final(self).spec_const_data(
                ).spec_contains(nm),
            match r {
                Some(ast) => {
                    &&& !final(self).spec_failed()
                    &&& ast@.len() <= old(self).spec_tokens().len()
                    &&& final(self).spec_at_statement_boundary()
                    &&& (tokens_dec_wf(old(self).spec_tokens()) ==> forall|i: int|
                        0 <= i < ast@.len() ==> wf_statement(
                            #[trigger] ast@[i],
                            final(self).spec_const_data(),
                        ))
                },
                None => final(self).spec_failed(),
            },
    {
        let ghost toks = self.tokens@;
        let ghost base0 = self.const_data.spec_base();
        let ghost cd0 = self.const_data;
        if self.token_byte_total().is_none() {
            self.failed = true;
            return None;
        }
        let mut ast: Vec<Node> = Vec::new();

        let mut last_index = self.index;

        loop
            invariant_except_break
                self.wf(),
                self.budget_ok(),
                self.tokens@ == toks,
                self.const_data.spec_base() == base0,
                ast@.len() <= self.index,
                forall|nm: Seq<char>|
                    cd0.spec_contains(nm) ==> self.const_data.spec_contains(nm),
                forall|i: int|
                    0 <= i < ast@.len() ==> (tokens_dec_wf(toks) ==> wf_statement(
                        #[trigger] ast@[i],
                        self.const_data,
                    )),
            ensures
                self.wf(),
                self.tokens@ == toks,
                self.const_data.spec_base() == base0,
                ast@.len() <= toks.len(),
                self.index == toks.len() || (toks[self.index as int]@.0 != TokenType::Variable
                    && toks[self.index as int]@.0 != TokenType::FunctionCall),
                forall|nm: Seq<char>|
                    cd0.spec_contains(nm) ==> self.const_data.spec_contains(nm),
                forall|i: int|
                    0 <= i < ast@.len() ==> (tokens_dec_wf(toks) ==> wf_statement(
                        #[trigger] ast@[i],
                        self.const_data,
                    )),
            decreases toks.len() - self.index,
        {
            last_index = self.index;
            let ghost iter_self = *self;
            let ghost ast_before = ast@;
            let ass = self.assignment();
            if ass.is_some() && self.terminator() {
                let node = match ass {
                    Some(n) => n,
                    None => unreached(),
                };
                ast.push(node);
            }
            proof {
                assert forall|i: int|
                    0 <= i < ast@.len() && tokens_dec_wf(toks) implies wf_statement(
                    #[trigger] ast@[i],
                    self.const_data,
                ) by {
                    if i < ast_before.len() {
                        assert(ast@[i] == ast_before[i]);
                        lemma_wf_statement_monotone(
                            ast@[i],
                            iter_self.const_data,
                            self.const_data,
                        );
                    }
                }
            }

            let ghost mid_self = *self;
            let ghost ast_mid = ast@;
            if let Some(current_token) = self.peek() {
                match current_token {
                    TokenType::FunctionCall => {
                        let fun = self.funcall();
                        if fun.is_some() && self.terminator() {
                            let node = match fun {
                                Some(n) => n,
                                None => unreached(),
                            };
                            ast.push(node);
                        }
                        proof {
                            assert forall|i: int|
                                0 <= i < ast@.len() && tokens_dec_wf(toks) implies wf_statement(
                                #[trigger] ast@[i],
                                self.const_data,
                            ) by {
                                if i < ast_mid.len() {
                                    assert(ast@[i] == ast_mid[i]);
                                    lemma_wf_statement_monotone(
                                        ast@[i],
                                        mid_self.const_data,
                                        self.const_data,
                                    );
                                }
                            }
                        }
                    },
                    _ => {},
                }
            }

            // Without progress the stream is exhausted or unparseable.
            if self.index == last_index {
                break;
            }
        }

        if self.failed {
            None
        } else {
            Some(ast)
        }
    }

    /// The constant pool populated during parsing.
    pub fn get_const_data(&self) -> (cd: &ConstData)
        ensures
            *cd == self.spec_const_data(),
    {
        &self.const_data
    }
}

/// The shape of a parsed assignment: a variable leaf on the left, an
/// integer leaf on the right.
pub open spec fn stmt_shape_assignment(node: Node) -> bool {
    &&& node.kind == ASTNodeKind::Assignment
    &&& match (node.left, node.right) {
        (Some(l), Some(r)) => crate::generator::is_leaf_node(*l, ASTNodeKind::Variable)
            && crate::generator::is_leaf_node(*r, ASTNodeKind::Integer),
        _ => false,
    }
}

/// Grafting a registered integer leaf onto a call's right chain keeps the
/// chain registered and the call's own fields unchanged.
proof fn lemma_append_param(node: Node, leaf: Node, cd: ConstData)
    requires
        is_param_chain(node.right, cd),
        leaf.kind == ASTNodeKind::Integer,
        leaf.val is Some,
        leaf.left is None,
        leaf.right is None,
        cd.spec_contains(val_view(leaf)),
    ensures
        spec_append(node, false, leaf).kind == node.kind,
        spec_append(node, false, leaf).val == node.val,
        spec_append(node, false, leaf).left == node.left,
        is_param_chain(spec_append(node, false, leaf).right, cd),
    decreases node,
{
    match node.right {
        None => {},
        Some(sub) => {
            lemma_append_param(*sub, leaf, cd);
        },
    }
}

} // verus!

//! Code generator: walks each statement's tree in post order, maintains an
//! operand stack, and drives the instruction emitter to realize assignments
//! and built-in calls; a process-exit sequence always ends the program.

use crate::asm_macro;
use crate::assembler::Assembler;
use crate::constdata::lemma_entry_bounds;
use crate::elfwriter;
use crate::constdata::ConstData;
use crate::strutil::dec_val;
use crate::strutil::is_dec_string;
use crate::strutil::parse_decimal;
use crate::strutil::str_eq;
use crate::tree::spec_postorder;
use crate::tree::ASTNodeKind;
use crate::tree::Node;
use vstd::prelude::*;

verus! {

/// The text carried by a node, empty when it carries none.
pub open spec fn val_view(n: Node) -> Seq<char> {
    match n.val {
        Some(s) => s@,
        None => Seq::<char>::empty(),
    }
}

/// A childless node of the given kind that carries a value.
pub open spec fn is_leaf_node(n: Node, kind: ASTNodeKind) -> bool {
    &&& n.kind == kind
    &&& n.val is Some
    &&& n.left is None
    &&& n.right is None
}

/// The nodes of a function call's argument list, threaded through the
/// `right` chain, first argument first.
spec fn chain_elems(n: Option<Box<Node>>) -> Seq<Node>
    decreases n,
{
    match n {
        None => Seq::<Node>::empty(),
        Some(b) => seq![*b] + chain_elems(b.right),
    }
}

/// An argument chain of integer literals, each registered in the pool.
pub open spec fn is_param_chain(n: Option<Box<Node>>, cd: ConstData) -> bool
    decreases n,
{
    match n {
        None => true,
        Some(b) => {
            &&& b.kind == ASTNodeKind::Integer
            &&& b.val is Some
            &&& b.left is None
            &&& cd.spec_contains(val_view(*b))
            &&& is_param_chain(b.right, cd)
        },
    }
}

/// A statement tree the code generator accepts: an assignment of an integer
/// literal to a variable, or a function call whose arguments are integer
/// literals registered in the pool.
pub open spec fn wf_statement(stmt: Node, cd: ConstData) -> bool {
    if stmt.kind == ASTNodeKind::Assignment {
        match (stmt.left, stmt.right) {
            (Some(l), Some(r)) => {
                &&& is_leaf_node(*l, ASTNodeKind::Variable)
                &&& is_leaf_node(*r, ASTNodeKind::Integer)
                &&& is_dec_string(val_view(*r))
                &&& dec_val(val_view(*r)) <= u64::MAX
            },
            _ => false,
        }
    } else if stmt.kind == ASTNodeKind::FunctionCall {
        &&& stmt.val is Some
        &&& stmt.left is None
        &&& is_param_chain(stmt.right, cd)
    } else {
        false
    }
}

/// A function-call statement must supply the one operand its call consumes.
pub open spec fn stmt_has_operand(stmt: Node) -> bool {
    stmt.kind == ASTNodeKind::FunctionCall ==> stmt.right is Some
}

/// The instruction bytes one statement contributes: a store for an
/// assignment; a print sequence for a `print` call, resolved through the
/// pool; nothing for an unrecognized call name.
pub open spec fn spec_stmt_bytes(stmt: Node, cd: ConstData) -> Seq<u8> {
    if stmt.kind == ASTNodeKind::Assignment {
        match stmt.right {
            Some(r) => asm_macro::spec_store_int_bytes(
                cd.spec_end_of_section() as u64,
                dec_val(val_view(*r)) as u64,
            ),
            None => Seq::<u8>::empty(),
        }
    } else if stmt.kind == ASTNodeKind::FunctionCall {
        match stmt.right {
            Some(p) => {
                if val_view(stmt) == "print"@ {
                    asm_macro::spec_print_str_bytes(
                        cd.spec_address_of(val_view(*p)) as u64,
                        cd.spec_length_of(val_view(*p)) as u64,
                    )
                } else {
                    Seq::<u8>::empty()
                }
            },
            None => Seq::<u8>::empty(),
        }
    } else {
        Seq::<u8>::empty()
    }
}

/// The operand stack after the first `i` post-order nodes: literals push
/// themselves, a call pops its argument, an assignment pops its value and
/// its variable.
spec fn machine_stack(t: Seq<Node>, i: int) -> Seq<Node>
    decreases i,
    when i >= 0
{
    if i == 0 {
        Seq::<Node>::empty()
    } else {
        let prev = machine_stack(t, i - 1);
        match t[i - 1].kind {
            ASTNodeKind::Integer => prev.push(t[i - 1]),
            ASTNodeKind::Variable => prev.push(t[i - 1]),
            ASTNodeKind::FunctionCall => prev.drop_last(),
            ASTNodeKind::Assignment => prev.drop_last().drop_last(),
        }
    }
}

/// The bytes emitted by the first `i` post-order nodes.
spec fn machine_out(t: Seq<Node>, i: int, cd: ConstData) -> Seq<u8>
    decreases i,
    when i >= 0
{
    if i == 0 {
        Seq::<u8>::empty()
    } else {
        let prev_out = machine_out(t, i - 1, cd);
        let prev_stack = machine_stack(t, i - 1);
        let node = t[i - 1];
        match node.kind {
            ASTNodeKind::FunctionCall => {
                if val_view(node) == "print"@ {
                    prev_out + asm_macro::spec_print_str_bytes(
                        cd.spec_address_of(val_view(prev_stack.last())) as u64,
                        cd.spec_length_of(val_view(prev_stack.last())) as u64,
                    )
                } else {
                    prev_out
                }
            },
            ASTNodeKind::Assignment => prev_out + asm_macro::spec_store_int_bytes(
                cd.spec_end_of_section() as u64,
                dec_val(val_view(prev_stack.last())) as u64,
            ),
            _ => prev_out,
        }
    }
}

/// The `j`-th post-order step neither underflows the operand stack nor
/// reads a missing value, and a printed literal is registered.
spec fn machine_step_safe(t: Seq<Node>, j: int, cd: ConstData) -> bool {
    let stack = machine_stack(t, j);
    let node = t[j];
    match node.kind {
        ASTNodeKind::FunctionCall => {
            &&& node.val is Some
            &&& stack.len() >= 1
            &&& stack.last().val is Some
            &&& (val_view(node) == "print"@ ==> cd.spec_contains(val_view(stack.last())))
        },
        ASTNodeKind::Assignment => {
            &&& stack.len() >= 2
            &&& stack.last().val is Some
            &&& stack[stack.len() - 2].val is Some
            &&& is_dec_string(val_view(stack.last()))
            &&& dec_val(val_view(stack.last())) <= u64::MAX
        },
        _ => true,
    }
}

/// A post-order leaf traversal is the leaf itself.
proof fn lemma_postorder_leaf(n: Node)
    requires
        n.left is None,
        n.right is None,
    ensures
        spec_postorder(n) =~= seq![n],
{
}

/// Every element of an argument chain is a registered integer leaf.
proof fn lemma_chain_elems(n: Option<Box<Node>>, cd: ConstData)
    requires
        is_param_chain(n, cd),
    ensures
        forall|k: int|
            0 <= k < chain_elems(n).len() ==> {
                let e = #[trigger] chain_elems(n)[k];
                &&& e.kind == ASTNodeKind::Integer
                &&& e.val is Some
                &&& cd.spec_contains(val_view(e))
            },
        n is Some ==> chain_elems(n).len() >= 1,
        n is Some ==> chain_elems(n)[0] == *n.unwrap(),
    decreases n,
{
    match n {
        None => {},
        Some(b) => {
            lemma_chain_elems(b.right, cd);
            let rest = chain_elems(b.right);
            assert(forall|k: int|
                0 <= k < rest.len() ==> chain_elems(n)[k + 1] == #[trigger] rest[k]);
            assert(chain_elems(n)[0] == *b);
        },
    }
}

/// The post-order traversal of a chain's head is the chain reversed.
proof fn lemma_chain_postorder(n: Option<Box<Node>>, cd: ConstData)
    requires
        is_param_chain(n, cd),
        n is Some,
    ensures
        spec_postorder(*n.unwrap()) =~= chain_elems(n).reverse(),
    decreases n,
{
    let b = n.unwrap();
    match b.right {
        None => {
            lemma_postorder_leaf(*b);
        },
        Some(_) => {
            lemma_chain_postorder(b.right, cd);
        },
    }
}

/// While a traversal prefix holds only literal leaves, the machine stack is
/// exactly that prefix.
proof fn lemma_machine_pushes(t: Seq<Node>, i: int, k: int)
    requires
        0 <= i <= k <= t.len(),
        forall|j: int|
            0 <= j < k ==> (#[trigger] t[j].kind == ASTNodeKind::Integer || t[j].kind
                == ASTNodeKind::Variable),
    ensures
        machine_stack(t, i) =~= t.take(i),
    decreases i,
{
    if i > 0 {
        lemma_machine_pushes(t, i - 1, k);
    }
}

/// While a traversal prefix holds only literal leaves, nothing is emitted.
proof fn lemma_machine_silent(t: Seq<Node>, i: int, k: int, cd: ConstData)
    requires
        0 <= i <= k <= t.len(),
        forall|j: int|
            0 <= j < k ==> (#[trigger] t[j].kind == ASTNodeKind::Integer || t[j].kind
                == ASTNodeKind::Variable),
    ensures
        machine_out(t, i, cd) =~= Seq::<u8>::empty(),
    decreases i,
{
    if i > 0 {
        lemma_machine_silent(t, i - 1, k, cd);
    }
}

/// For a well-formed statement, every post-order step is safe, nothing is
/// emitted before the last step, and the machine's total output is the
/// statement's bytes.
proof fn lemma_statement_machine(stmt: Node, cd: ConstData)
    requires
        wf_statement(stmt, cd),
        stmt_has_operand(stmt),
    ensures
        forall|j: int|
            0 <= j < spec_postorder(stmt).len() ==> machine_step_safe(
                spec_postorder(stmt),
                j,
                cd,
            ),
        forall|j: int|
            0 <= j < spec_postorder(stmt).len() ==> machine_out(spec_postorder(stmt), j, cd)
                == Seq::<u8>::empty(),
        machine_out(spec_postorder(stmt), spec_postorder(stmt).len() as int, cd)
            == spec_stmt_bytes(stmt, cd),
{
    let t = spec_postorder(stmt);
    if stmt.kind == ASTNodeKind::Assignment {
        let l = *stmt.left.unwrap();
        let r = *stmt.right.unwrap();
        lemma_postorder_leaf(l);
        lemma_postorder_leaf(r);
        assert(t =~= seq![l, r, stmt]);
        assert(machine_stack(t, 0) =~= Seq::<Node>::empty());
        assert(machine_stack(t, 1) =~= seq![l]);
        assert(machine_stack(t, 2) =~= seq![l, r]);
        assert(machine_out(t, 0, cd) =~= Seq::<u8>::empty());
        assert(machine_out(t, 1, cd) =~= Seq::<u8>::empty());
        assert(machine_out(t, 2, cd) =~= Seq::<u8>::empty());
        assert(machine_stack(t, 2).last() == r);
        assert(machine_out(t, 3, cd) =~= spec_stmt_bytes(stmt, cd));
        assert forall|j: int| 0 <= j < t.len() implies machine_step_safe(t, j, cd) by {
            if j == 2 {
                assert(machine_stack(t, 2)[0] == l);
            }
        }
    } else {
        let chain = chain_elems(stmt.right);
        let k = chain.len() as int;
        lemma_chain_elems(stmt.right, cd);
        lemma_chain_postorder(stmt.right, cd);
        let rev = chain.reverse();
        assert(t =~= rev + seq![stmt]);
        assert(t.len() == k + 1);
        assert(forall|j: int|
            0 <= j < k ==> #[trigger] t[j].kind == ASTNodeKind::Integer) by {
            assert(forall|j: int| 0 <= j < k ==> t[j] == chain[k - 1 - j]);
        }
        lemma_machine_pushes(t, k, k);
        assert forall|j: int| 0 <= j <= k implies machine_stack(t, j) =~= t.take(j) by {
            lemma_machine_pushes(t, j, k);
        }
        assert forall|j: int| 0 <= j < t.len() implies machine_out(t, j, cd) == Seq::<
            u8,
        >::empty() by {
            lemma_machine_silent(t, j, k, cd);
        }
        let final_stack = machine_stack(t, k);
        assert(final_stack =~= t.take(k));
        assert(final_stack.len() == k);
        assert(final_stack.last() == t[k - 1]);
        assert(t[k - 1] == chain[0]);
        assert(chain[0] == *stmt.right.unwrap());
        assert(machine_out(t, k + 1, cd) =~= machine_out(t, k, cd) + spec_stmt_bytes(stmt, cd)
            || machine_out(t, k + 1, cd) =~= machine_out(t, k, cd));
        lemma_machine_silent(t, k, k, cd);
        assert(machine_out(t, k + 1, cd) =~= spec_stmt_bytes(stmt, cd));
        assert forall|j: int| 0 <= j < t.len() implies machine_step_safe(t, j, cd) by {
            if j == k {
                assert(machine_stack(t, j).last() == chain[0]);
            }
        }
    }
}

/// A registered argument chain stays registered as the pool only grows.
pub proof fn lemma_param_chain_monotone(n: Option<Box<Node>>, cd1: ConstData, cd2: ConstData)
    requires
        is_param_chain(n, cd1),
        forall|nm: Seq<char>| cd1.spec_contains(nm) ==> cd2.spec_contains(nm),
    ensures
        is_param_chain(n, cd2),
    decreases n,
{
    match n {
        None => {},
        Some(b) => {
            assert(cd1.spec_contains(val_view(*b)));
            lemma_param_chain_monotone(b.right, cd1, cd2);
        },
    }
}

/// A well-formed statement stays well-formed as the pool only grows.
pub proof fn lemma_wf_statement_monotone(stmt: Node, cd1: ConstData, cd2: ConstData)
    requires
        wf_statement(stmt, cd1),
        forall|nm: Seq<char>| cd1.spec_contains(nm) ==> cd2.spec_contains(nm),
    ensures
        wf_statement(stmt, cd2),
{
    if stmt.kind == ASTNodeKind::FunctionCall {
        lemma_param_chain_monotone(stmt.right, cd1, cd2);
    }
}

/// Whether a call name is a recognized built-in: only `print` is.
pub fn is_function_builtin(function_name: &str) -> (r: bool)
    ensures
        r == (function_name@ == "print"@),
{
    str_eq(function_name, "print")
}

/// Realize one statement: traverse it in post order, pushing literal
/// leaves onto an operand stack and emitting instructions at the call or
/// assignment node.
pub fn walk_ast(ast: Node, emitter: &mut Assembler<'_>)
    requires
        old(emitter).wf(),
        old(emitter).const_data.wf(),
        wf_statement(ast, *old(emitter).const_data),
        stmt_has_operand(ast),
        old(emitter).const_data.spec_base() + old(emitter).const_data.spec_data().len() <= u64::MAX,
        old(emitter).output@.len() + 32 <= u64::MAX,
    ensures
        final(emitter).wf(),
        final(emitter).const_data == old(emitter).const_data,
        final(emitter).output@ == old(emitter).output@ + spec_stmt_bytes(ast, *old(emitter).const_data),
        final(emitter).output@.len() <= old(emitter).output@.len() + 32,
{
    let ghost cd0: ConstData = *old(emitter).const_data;
    let ghost t = spec_postorder(ast);
    let ghost out0 = old(emitter).output@;
    proof {
        lemma_statement_machine(ast, cd0);
        asm_macro::lemma_print_str_bytes_len(0, 0);
    }
    let mut operands: Vec<&Node> = Vec::new();
    let traversal = ast.traverse_postorder();
    let n = traversal.len();
    let mut idx: usize = 0;
    while idx < n
        invariant
            idx <= n,
            n == t.len(),
            traversal@.map_values(|p: &Node| *p) == t,
            operands@.map_values(|p: &Node| *p) == machine_stack(t, idx as int),
            emitter.output@ == out0 + machine_out(t, idx as int, cd0),
            emitter.wf(),
            emitter.const_data == old(emitter).const_data,
            cd0 == *old(emitter).const_data,
            cd0.wf(),
            cd0.spec_base() + cd0.spec_data().len() <= u64::MAX,
            out0.len() + 32 <= u64::MAX,
            forall|j: int| 0 <= j < t.len() ==> machine_step_safe(t, j, cd0),
            forall|j: int|
                0 <= j < t.len() ==> machine_out(t, j, cd0) == Seq::<u8>::empty(),
            machine_out(t, t.len() as int, cd0) == spec_stmt_bytes(ast, cd0),
        decreases n - idx,
    {
        let node: &Node = traversal[idx];
        proof {
            assert(traversal@.map_values(|p: &Node| *p)[idx as int] == *traversal@[idx as int]);
            assert(*node == t[idx as int]);
            assert(machine_step_safe(t, idx as int, cd0));
            assert(machine_out(t, idx as int, cd0) == Seq::<u8>::empty());
        }
        let ghost stack_before = machine_stack(t, idx as int);
        match node.get_kind() {
            ASTNodeKind::FunctionCall => {
                let func_name: String = match &node.val {
                    Some(s) => s.clone(),
                    None => unreached(),
                };
                let popped: &Node = match operands.pop() {
                    Some(p) => p,
                    None => unreached(),
                };
                proof {
                    assert(*popped == stack_before.last());
                }
                let func_param: String = match &popped.val {
                    Some(s) => s.clone(),
                    None => unreached(),
                };
                if is_function_builtin(func_name.as_str()) {
                    proof {
                        lemma_entry_bounds(&cd0, func_param@);
                    }
                    emitter.builtin_function(func_name.as_str(), func_param.as_str());
                }
                proof {
                    assert(operands@.map_values(|p: &Node| *p) =~= machine_stack(
                        t,
                        idx as int + 1,
                    ));
                    assert(emitter.output@ =~= out0 + machine_out(t, idx as int + 1, cd0));
                }
            },
            ASTNodeKind::Assignment => {
                let value_node: &Node = match operands.pop() {
                    Some(p) => p,
                    None => unreached(),
                };
                proof {
                    assert(*value_node == stack_before.last());
                }
                let value: String = match &value_node.val {
                    Some(s) => s.clone(),
                    None => unreached(),
                };
                let variable_node: &Node = match operands.pop() {
                    Some(p) => p,
                    None => unreached(),
                };
                let variable: String = match &variable_node.val {
                    Some(s) => s.clone(),
                    None => unreached(),
                };
                let parsed: u64 = match parse_decimal(value.as_str()) {
                    Some(v) => v,
                    None => unreached(),
                };
                emitter.assignment_statement(variable.as_str(), parsed);
                proof {
                    assert(operands@.map_values(|p: &Node| *p) =~= machine_stack(
                        t,
                        idx as int + 1,
                    ));
                    assert(emitter.output@ =~= out0 + machine_out(t, idx as int + 1, cd0));
                }
            },
            ASTNodeKind::Integer => {
                operands.push(node);
                proof {
                    assert(operands@.map_values(|p: &Node| *p) =~= machine_stack(
                        t,
                        idx as int + 1,
                    ));
                    assert(emitter.output@ =~= out0 + machine_out(t, idx as int + 1, cd0));
                }
            },
            ASTNodeKind::Variable => {
                operands.push(node);
                proof {
                    assert(operands@.map_values(|p: &Node| *p) =~= machine_stack(
                        t,
                        idx as int + 1,
                    ));
                    assert(emitter.output@ =~= out0 + machine_out(t, idx as int + 1, cd0));
                }
            },
        }
        idx = idx + 1;
    }
    proof {
        lemma_stmt_bytes_len(ast, cd0);
    }
}

/// The concatenated instruction bytes of a statement list.
pub open spec fn spec_statements_bytes(stmts: Seq<Node>, cd: ConstData) -> Seq<u8>
    decreases stmts.len(),
{
    if stmts.len() == 0 {
        Seq::<u8>::empty()
    } else {
        spec_statements_bytes(stmts.drop_last(), cd) + spec_stmt_bytes(stmts.last(), cd)
    }
}

/// The full instruction stream of a program: each statement's bytes in
/// order, then the process-exit sequence.
pub open spec fn spec_program_bytes(stmts: Seq<Node>, cd: ConstData) -> Seq<u8> {
    spec_statements_bytes(stmts, cd) + asm_macro::spec_exit_bytes()
}

/// Generating code for an empty statement list yields exactly the
/// process-exit sequence and nothing else.
pub proof fn lemma_empty_program_bytes(cd: ConstData)
    ensures
        spec_program_bytes(Seq::<Node>::empty(), cd) == asm_macro::spec_exit_bytes(),
{
    assert(spec_program_bytes(Seq::<Node>::empty(), cd) =~= asm_macro::spec_exit_bytes());
}

/// One statement contributes at most 32 bytes.
proof fn lemma_stmt_bytes_len(stmt: Node, cd: ConstData)
    ensures
        spec_stmt_bytes(stmt, cd).len() <= 32,
{
    asm_macro::lemma_print_str_bytes_len(0, 0);
    asm_macro::lemma_store_int_bytes_len(0, 0);
    if stmt.kind == ASTNodeKind::Assignment {
        match stmt.right {
            Some(r) => {
                asm_macro::lemma_store_int_bytes_len(
                    cd.spec_end_of_section() as u64,
                    dec_val(val_view(*r)) as u64,
                );
            },
            None => {},
        }
    } else if stmt.kind == ASTNodeKind::FunctionCall {
        match stmt.right {
            Some(p) => {
                asm_macro::lemma_print_str_bytes_len(
                    cd.spec_address_of(val_view(*p)) as u64,
                    cd.spec_length_of(val_view(*p)) as u64,
                );
            },
            None => {},
        }
    }
}

/// `spec_statements_bytes` over one more statement of a prefix.
proof fn lemma_statements_bytes_take_succ(stmts: Seq<Node>, cd: ConstData, i: int)
    requires
        0 <= i < stmts.len(),
    ensures
        spec_statements_bytes(stmts.take(i + 1), cd) == spec_statements_bytes(stmts.take(i), cd)
            + spec_stmt_bytes(stmts[i], cd),
{
    assert(stmts.take(i + 1).drop_last() =~= stmts.take(i));
    assert(stmts.take(i + 1).last() == stmts[i]);
}

/// Build the full instruction stream for a statement list: each statement
/// realized in order, then the mandatory process-exit sequence.
pub fn build_asm<'a>(ast: Vec<Node>, const_data: &'a ConstData) -> (emitter: Assembler<'a>)
    requires
        const_data.wf(),
        const_data.spec_base() + const_data.spec_data().len() <= u64::MAX,
        forall|i: int|
            0 <= i < ast@.len() ==> wf_statement(#[trigger] ast@[i], *const_data)
                && stmt_has_operand(ast@[i]),
        32 * ast@.len() + 22 <= u64::MAX,
    ensures
        emitter.wf(),
        emitter.const_data == const_data,
        emitter.output@ == spec_program_bytes(ast@, *const_data),
        emitter.length as int == spec_program_bytes(ast@, *const_data).len(),
{
    let ghost stmts = ast@;
    let mut emitter = Assembler { output: Vec::new(), length: 0, const_data };
    let n = ast.len();
    let mut i: usize = 0;
    proof {
        assert(emitter.output@ =~= spec_statements_bytes(stmts.take(0), *const_data));
    }
    while i < n
        invariant
            i <= n,
            n == stmts.len(),
            ast@ == stmts,
            emitter.wf(),
            emitter.const_data == const_data,
            const_data.wf(),
            const_data.spec_base() + const_data.spec_data().len() <= u64::MAX,
            forall|k: int|
                0 <= k < stmts.len() ==> wf_statement(#[trigger] stmts[k], *const_data)
                    && stmt_has_operand(stmts[k]),
            32 * stmts.len() + 22 <= u64::MAX,
            emitter.output@ == spec_statements_bytes(stmts.take(i as int), *const_data),
            emitter.output@.len() <= 32 * i as int,
        decreases n - i,
    {
        let stmt = ast[i].clone();
        walk_ast(stmt, &mut emitter);
        proof {
            lemma_statements_bytes_take_succ(stmts, *const_data, i as int);
        }
        i = i + 1;
    }
    proof {
        assert(stmts.take(n as int) =~= stmts);
    }
    emitter.exit();
    emitter
}

/// A program's instruction stream is at most 32 bytes per statement plus
/// the 22-byte exit sequence.
proof fn lemma_program_bytes_len(stmts: Seq<Node>, cd: ConstData)
    ensures
        spec_statements_bytes(stmts, cd).len() <= 32 * stmts.len(),
        spec_program_bytes(stmts, cd).len() <= 32 * stmts.len() + 22,
    decreases stmts.len(),
{
    asm_macro::lemma_exit_bytes_len();
    if stmts.len() > 0 {
        lemma_program_bytes_len(stmts.drop_last(), cd);
        lemma_stmt_bytes_len(stmts.last(), cd);
    }
}

/// What generating a program needs: a well-formed pool, well-formed
/// statements, and a data section and instruction stream small enough that
/// every address and offset of the fixed layout fits in 64 bits.
pub open spec fn generate_requires(stmts: Seq<Node>, cd: ConstData) -> bool {
    &&& cd.wf()
    &&& forall|i: int|
        0 <= i < stmts.len() ==> wf_statement(#[trigger] stmts[i], cd) && stmt_has_operand(
            stmts[i],
        )
    &&& cd.spec_base() + cd.spec_data().len() <= u64::MAX
    &&& 32 * stmts.len() + 22 <= u64::MAX
    &&& elfwriter::TEXT_SEGMENT_BASE + 0xb0 + cd.spec_data().len() <= u64::MAX
    &&& elfwriter::DATA_SEGMENT_BASE + 0xb0 + cd.spec_data().len() <= u64::MAX
    &&& 0xb0 + cd.spec_data().len() + 32 * stmts.len() + 22 + 256 + 23 <= u64::MAX
}

fn clone_bytes(v: &Vec<u8>) -> (r: Vec<u8>)
    ensures
        r@ == v@,
{
    let r = v.clone();
    proof {
        assert(r@ =~= v@);
    }
    r
}

/// Lay out and serialize the whole executable: ELF header, text and data
/// program headers, the data section, the instruction stream, the four
/// section headers, and the name string table, every offset and address
/// computed from the same two lengths.
fn write_elf(ast: Vec<Node>, const_data: &ConstData) -> (file_bytes: Vec<u8>)
    requires
        generate_requires(ast@, *const_data),
    ensures
        file_bytes@ == elfwriter::spec_elf_image(
            const_data.spec_data(),
            spec_program_bytes(ast@, *const_data),
        ),
{
    let ghost stmts = ast@;
    let ghost cd = *const_data;
    let ghost code = spec_program_bytes(stmts, cd);
    proof {
        lemma_program_bytes_len(stmts, cd);
        elfwriter::lemma_strtab_layout();
    }
    let const_section_data = clone_bytes(const_data.get_data());

    // ELF header (64) + text program header (56) + data program header (56)
    let sh_data_offset: u64 = 176;
    let sh_data_length: u64 = const_section_data.len() as u64;

    let section_header_count: u16 = 4;
    let section_header_size: u16 = 64;

    let assembler = build_asm(ast, const_data);
    let asm_length = assembler.get_length();
    let asm_data = clone_bytes(assembler.get_output());

    let asm_offset = sh_data_offset + sh_data_length;
    let section_header_offset: u64 = asm_offset + asm_length;

    // Instructions start at the end of the data section.
    let mut elf_header = elfwriter::ElfHeader::new();
    elf_header.set_entry(elfwriter::TEXT_SEGMENT_BASE + 0xb0 + sh_data_length);
    elf_header.set_shnum(section_header_count);
    elf_header.set_shentsize(section_header_size);
    elf_header.set_shoff(section_header_offset);
    elf_header.set_shstrndx(3);
    proof {
        assert(elf_header == elfwriter::spec_final_header(
            cd.spec_data().len() as int,
            code.len() as int,
        ));
    }

    // The contents of the name string table.
    let mut elf_string_table = elfwriter::ElfStringTable::new();
    elf_string_table.add_string(".shstrtab".to_owned());
    elf_string_table.add_string(".text".to_owned());
    elf_string_table.add_string(".data".to_owned());
    let strtab_bytes = elf_string_table.to_bytes();
    let sh_strtab_length = strtab_bytes.len() as u64;
    proof {
        assert(strtab_bytes@ =~= elfwriter::spec_strtab_bytes());
    }

    proof {
        let entries = elf_string_table.spec_entries();
        assert(entries.len() == 3);
        assert(entries[0].name == ".shstrtab"@);
        assert(entries[1].name == ".text"@);
        assert(entries[2].name == ".data"@);
        elfwriter::lemma_find_last_string(entries, ".shstrtab"@);
        elfwriter::lemma_find_last_string(entries, ".text"@);
        elfwriter::lemma_find_last_string(entries, ".data"@);
        assert(elfwriter::find_last_string(entries, ".shstrtab"@) == 0);
        assert(elfwriter::find_last_string(entries, ".text"@) == 1);
        assert(elfwriter::find_last_string(entries, ".data"@) == 2);
    }
    let shstrtab_name_index = match elf_string_table.get_string_index(".shstrtab".to_owned()) {
        Some(v) => v,
        None => unreached(),
    };
    let text_name_index = match elf_string_table.get_string_index(".text".to_owned()) {
        Some(v) => v,
        None => unreached(),
    };
    let data_name_index = match elf_string_table.get_string_index(".data".to_owned()) {
        Some(v) => v,
        None => unreached(),
    };

    // The mandatory null section header comes first.
    let mut sh_null = elfwriter::ElfSectionHeader::new();
    sh_null.set_flags(0);
    sh_null.set_align(0);
    sh_null.set_size(0);
    sh_null.set_type(0);

    let mut sh_data = elfwriter::ElfSectionHeader::new();
    sh_data.set_flags(0x3);
    sh_data.set_name(data_name_index as u32);
    sh_data.set_size(sh_data_length);
    sh_data.set_addr(elfwriter::DATA_SEGMENT_BASE + 0xb0);
    sh_data.set_align(0x4);
    sh_data.set_offset(sh_data_offset);
    sh_data.set_type(1);

    let sh_text_offset: u64 = asm_offset;
    let sh_text_length: u64 = asm_length;

    let mut sh_text = elfwriter::ElfSectionHeader::new();
    sh_text.set_flags(0x6);
    sh_text.set_name(text_name_index as u32);
    sh_text.set_align(0x10);
    sh_text.set_addr(elfwriter::TEXT_SEGMENT_BASE + 0xb0 + sh_data_length);
    sh_text.set_size(sh_text_length);
    sh_text.set_offset(sh_text_offset);
    sh_text.set_type(1);

    let sh_strtab_offset: u64 = section_header_offset + (section_header_count as u64
        * section_header_size as u64);
    let mut sh_strtab = elfwriter::ElfSectionHeader::new();
    sh_strtab.set_flags(0);
    sh_strtab.set_name(shstrtab_name_index as u32);
    sh_strtab.set_size(sh_strtab_length);
    sh_strtab.set_offset(sh_strtab_offset);
    sh_strtab.set_align(0x1);
    sh_strtab.set_type(3);

    // The data segment's virtual address is the data-segment base plus the
    // section's file offset.
    let sh_data_virtual_offset: u64 = elfwriter::DATA_SEGMENT_BASE + sh_data_offset;
    let mut elf_data_program_header = elfwriter::ElfProgramHeader::new();
    elf_data_program_header.set_addr(sh_data_virtual_offset);
    elf_data_program_header.set_offset(sh_data_offset);
    elf_data_program_header.set_filesz(sh_data_length);
    elf_data_program_header.set_memsz(sh_data_length);
    elf_data_program_header.set_flags(0x6);  // r+w

    let mut elf_text_program_header = elfwriter::ElfProgramHeader::new();
    elf_text_program_header.set_filesz(section_header_offset);
    elf_text_program_header.set_memsz(section_header_offset);

    proof {
        assert(elf_text_program_header == elfwriter::spec_text_program_header(
            cd.spec_data().len() as int,
            code.len() as int,
        ));
        assert(elf_data_program_header == elfwriter::spec_data_program_header(
            cd.spec_data().len() as int,
        ));
        assert(sh_null == elfwriter::spec_null_section_header());
        assert(sh_data == elfwriter::spec_data_section_header(cd.spec_data().len() as int));
        assert(sh_text == elfwriter::spec_text_section_header(
            cd.spec_data().len() as int,
            code.len() as int,
        ));
        assert(sh_strtab == elfwriter::spec_strtab_section_header(
            cd.spec_data().len() as int,
            code.len() as int,
        ));
    }

    let mut file_bytes = elf_header.to_bytes();
    let mut piece = elf_text_program_header.to_bytes();
    file_bytes.append(&mut piece);
    let mut piece = elf_data_program_header.to_bytes();
    file_bytes.append(&mut piece);
    let mut piece = const_section_data;
    file_bytes.append(&mut piece);
    let mut piece = asm_data;
    file_bytes.append(&mut piece);
    let mut piece = sh_null.to_bytes();
    file_bytes.append(&mut piece);
    let mut piece = sh_data.to_bytes();
    file_bytes.append(&mut piece);
    let mut piece = sh_text.to_bytes();
    file_bytes.append(&mut piece);
    let mut piece = sh_strtab.to_bytes();
    file_bytes.append(&mut piece);
    let mut piece = strtab_bytes;
    file_bytes.append(&mut piece);
    proof {
        assert(file_bytes@ =~= elfwriter::spec_elf_image(cd.spec_data(), code));
    }
    file_bytes
}

/// Turn a parsed program and its populated constant pool into the bytes of
/// a runnable 64-bit ELF executable; the caller writes them to its output
/// path.
pub fn generate(ast: Vec<Node>, const_data: &ConstData) -> (file_bytes: Vec<u8>)
    requires
        generate_requires(ast@, *const_data),
    ensures
        file_bytes@ == elfwriter::spec_elf_image(
            const_data.spec_data(),
            spec_program_bytes(ast@, *const_data),
        ),
{
    write_elf(ast, const_data)
}

} // verus!

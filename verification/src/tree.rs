//! Abstract syntax tree nodes: a tagged kind, an optional literal value,
//! and at most two owned children. For an assignment the left child is the
//! target variable and the right child the value; for a function call the
//! argument list is threaded through the `right` chain.

use vstd::prelude::*;

verus! {

/// The kind tag of an AST node.
#[derive(Debug, Copy, Clone, PartialEq, Eq, Structural)]
pub enum ASTNodeKind {
    Assignment,
    Variable,
    Integer,
    FunctionCall,
}

/// One AST node.
#[derive(Debug)]
pub struct Node {
    pub kind: ASTNodeKind,
    pub val: Option<String>,
    pub left: Option<Box<Node>>,
    pub right: Option<Box<Node>>,
}

/// The post-order traversal of a subtree: left child's traversal, right
/// child's traversal, then the node itself.
pub open spec fn spec_postorder(node: Node) -> Seq<Node>
    decreases node,
{
    (match node.left {
        Some(l) => spec_postorder(*l),
        None => Seq::<Node>::empty(),
    }) + (match node.right {
        Some(r) => spec_postorder(*r),
        None => Seq::<Node>::empty(),
    }) + seq![node]
}

/// The pre-order traversal of a subtree: the node itself, then the left
/// child's traversal, then the right child's.
pub open spec fn spec_preorder(node: Node) -> Seq<Node>
    decreases node,
{
    seq![node] + (match node.left {
        Some(l) => spec_preorder(*l),
        None => Seq::<Node>::empty(),
    }) + (match node.right {
        Some(r) => spec_preorder(*r),
        None => Seq::<Node>::empty(),
    })
}

/// The tree that results from descending the chosen side to its first free
/// slot and placing a fresh leaf there.
pub open spec fn spec_insert(
    node: Node,
    insert_left: bool,
    kind: ASTNodeKind,
    new_val: Option<String>,
) -> Node
    decreases node,
{
    spec_append(node, insert_left, Node { kind, val: new_val, left: None, right: None })
}

/// The tree that results from descending the chosen side to its first free
/// slot and grafting `new_node` there.
pub open spec fn spec_append(node: Node, insert_left: bool, new_node: Node) -> Node
    decreases node,
{
    if insert_left {
        match node.left {
            Some(sub) => Node {
                left: Some(Box::new(spec_append(*sub, insert_left, new_node))),
                ..node
            },
            None => Node { left: Some(Box::new(new_node)), ..node },
        }
    } else {
        match node.right {
            Some(sub) => Node {
                right: Some(Box::new(spec_append(*sub, insert_left, new_node))),
                ..node
            },
            None => Node { right: Some(Box::new(new_node)), ..node },
        }
    }
}

impl Clone for Node {
    /// A deep copy equal to the original tree.
    fn clone(&self) -> (res: Self)
        ensures
            res == *self,
        decreases *self,
    {
        let val = match &self.val {
            Some(s) => Some(s.clone()),
            None => None,
        };
        let left = match &self.left {
            Some(sub) => Some(Box::new((**sub).clone())),
            None => None,
        };
        let right = match &self.right {
            Some(sub) => Some(Box::new((**sub).clone())),
            None => None,
        };
        Node { kind: self.kind, val, left, right }
    }
}

impl Node {
    fn insert(&mut self, insert_left: bool, kind: ASTNodeKind, new_val: Option<String>)
        ensures
            *final(self) == spec_insert(*old(self), insert_left, kind, new_val),
    {
        self.append(insert_left, kind, Node { kind, val: new_val, left: None, right: None });
    }

    /// Place a fresh leaf at the first free slot down the left spine.
    pub fn insert_l(&mut self, kind: ASTNodeKind, new_val: Option<String>)
        ensures
            *final(self) == spec_insert(*old(self), true, kind, new_val),
    {
        self.insert(true, kind, new_val);
    }

    /// Place a fresh leaf at the first free slot down the right spine.
    pub fn insert_r(&mut self, kind: ASTNodeKind, new_val: Option<String>)
        ensures
            *final(self) == spec_insert(*old(self), false, kind, new_val),
    {
        self.insert(false, kind, new_val);
    }

    fn append(&mut self, insert_left: bool, kind: ASTNodeKind, new_node: Node)
        ensures
            *final(self) == spec_append(*old(self), insert_left, new_node),
    {
        let mut node = Node { kind: ASTNodeKind::Assignment, val: None, left: None, right: None };
        core::mem::swap(self, &mut node);
        *self = append_node(node, insert_left, new_node);
    }

    /// Graft a subtree at the first free slot down the left spine; the
    /// subtree carries its own kind tag.
    pub fn append_l(&mut self, kind: ASTNodeKind, new_node: Node)
        ensures
            *final(self) == spec_append(*old(self), true, new_node),
    {
        self.append(true, kind, new_node);
    }

    /// Graft a subtree at the first free slot down the right spine.
    pub fn append_r(&mut self, kind: ASTNodeKind, new_node: Node)
        ensures
            *final(self) == spec_append(*old(self), false, new_node),
    {
        self.append(false, kind, new_node);
    }

    /// The node's kind tag.
    pub fn get_kind(&self) -> (kind: ASTNodeKind)
        ensures
            kind == self.kind,
    {
        self.kind
    }

    /// Whether the node carries a literal value.
    pub fn has_val(&self) -> (r: bool)
        ensures
            r == self.val is Some,
    {
        self.val.is_some()
    }

    /// Whether the node has a left child.
    pub fn has_left(&self) -> (r: bool)
        ensures
            r == self.left is Some,
    {
        self.left.is_some()
    }

    /// Whether the node has a right child.
    pub fn has_right(&self) -> (r: bool)
        ensures
            r == self.right is Some,
    {
        self.right.is_some()
    }

    /// A copy of the left subtree, if any.
    pub fn get_left(&self) -> (r: Option<Node>)
        ensures
            match self.left {
                Some(sub) => r == Some(*sub),
                None => r == None::<Node>,
            },
    {
        match &self.left {
            Some(sub) => Some((**sub).clone()),
            None => None,
        }
    }

    /// A copy of the right subtree, if any.
    pub fn get_right(&self) -> (r: Option<Node>)
        ensures
            match self.right {
                Some(sub) => r == Some(*sub),
                None => r == None::<Node>,
            },
    {
        match &self.right {
            Some(sub) => Some((**sub).clone()),
            None => None,
        }
    }

    /// References to the subtree's nodes in pre-order.
    pub fn traverse_preorder<'b>(&'b self) -> (r: Vec<&'b Node>)
        ensures
            r@.map_values(|p: &Node| *p) == spec_preorder(*self),
    {
        let mut res: Vec<&Node> = Vec::new();
        self.preorder_into(&mut res);
        proof {
            assert(res@.map_values(|p: &Node| *p) =~= spec_preorder(*self));
        }
        res
    }

    fn preorder_into<'b>(&'b self, res: &mut Vec<&'b Node>)
        ensures
            final(res)@.map_values(|p: &Node| *p) == old(res)@.map_values(|p: &Node| *p)
                + spec_preorder(*self),
        decreases *self,
    {
        res.push(self);
        match &self.left {
            Some(sub) => (**sub).preorder_into(res),
            None => {},
        }
        match &self.right {
            Some(sub) => (**sub).preorder_into(res),
            None => {},
        }
        proof {
            assert(res@.map_values(|p: &Node| *p) =~= old(res)@.map_values(|p: &Node| *p)
                + spec_preorder(*self));
        }
    }

    /// References to the subtree's nodes in post-order: children before
    /// parents, left before right.
    pub fn traverse_postorder<'b>(&'b self) -> (r: Vec<&'b Node>)
        ensures
            r@.map_values(|p: &Node| *p) == spec_postorder(*self),
    {
        let mut res: Vec<&Node> = Vec::new();
        self.postorder_into(&mut res);
        proof {
            assert(res@.map_values(|p: &Node| *p) =~= spec_postorder(*self));
        }
        res
    }

    fn postorder_into<'b>(&'b self, res: &mut Vec<&'b Node>)
        ensures
            final(res)@.map_values(|p: &Node| *p) == old(res)@.map_values(|p: &Node| *p)
                + spec_postorder(*self),
        decreases *self,
    {
        match &self.left {
            Some(sub) => (**sub).postorder_into(res),
            None => {},
        }
        let ghost mid = res@;
        match &self.right {
            Some(sub) => (**sub).postorder_into(res),
            None => {},
        }
        let ghost before_push = res@;
        res.push(self);
        proof {
            assert(res@ == before_push.push(self));
            assert(res@.map_values(|p: &Node| *p) =~= before_push.map_values(|p: &Node| *p).push(
                *self,
            ));
            assert(res@.map_values(|p: &Node| *p) =~= old(res)@.map_values(|p: &Node| *p)
                + spec_postorder(*self));
        }
    }
}

fn append_node(node: Node, insert_left: bool, new_node: Node) -> (r: Node)
    ensures
        r == spec_append(node, insert_left, new_node),
    decreases node,
{
    let Node { kind, val, left, right } = node;
    if insert_left {
        match left {
            Some(sub) => Node {
                kind,
                val,
                left: Some(Box::new(append_node(*sub, insert_left, new_node))),
                right,
            },
            None => Node { kind, val, left: Some(Box::new(new_node)), right },
        }
    } else {
        match right {
            Some(sub) => Node {
                kind,
                val,
                left,
                right: Some(Box::new(append_node(*sub, insert_left, new_node))),
            },
            None => Node { kind, val, left, right: Some(Box::new(new_node)) },
        }
    }
}

} // verus!

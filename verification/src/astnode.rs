//! The abstract syntax tree.
use vstd::prelude::*;

verus! {

/// One construct of a parsed program.
#[derive(Debug, PartialEq, Eq)]
pub enum ASTNode {
    /// An integer literal.
    IntegerLiteral(i32),
    /// A boolean literal.
    BooleanLiteral(bool),
    /// A string literal.
    StringLiteral(String),
    /// A reference to a variable.
    Identifier(String),
    /// A binary operation; `op` is the operator token's name.
    BinaryOp { op: String, left: Box<ASTNode>, right: Box<ASTNode> },
    /// The declaration of a variable with its initial value.
    VariableDeclaration { name: String, value: Box<ASTNode>, var_type: String },
    /// A conditional of an older form, which has no evaluation rule.
    Conditional { condition: Box<ASTNode>, if_block: Vec<ASTNode>, else_block: Option<Vec<ASTNode>> },
    /// A loop that runs its body while its condition holds.
    Loop { condition: Box<ASTNode>, body: Vec<ASTNode> },
    /// The declaration of a function; each parameter is a pair of its type
    /// and its name.
    FunctionDeclaration {
        name: String,
        return_type: String,
        parameters: Vec<(String, String)>,
        body: Vec<ASTNode>,
    },
    /// A call of a function.
    FunctionCall { name: String, arguments: Vec<Box<ASTNode>> },
    /// A `return` statement.
    ReturnStatement(Box<ASTNode>),
    /// An assignment to a variable.
    Assignment { identifier: String, value: Box<ASTNode> },
    /// A conditional with an optional `else` block.
    IfElse { condition: Box<ASTNode>, if_block: Vec<ASTNode>, else_block: Option<Vec<ASTNode>> },
    /// An `else` block standing alone, which has no evaluation rule.
    ElseStatement { body: Vec<ASTNode> },
    /// A `print` statement.
    PrintStatement { context: Box<ASTNode> },
    /// An empty statement.
    NoOp,
}

/// The mathematical content of an [`ASTNode`].
pub ghost enum NodeView {
    IntegerLiteral(i32),
    BooleanLiteral(bool),
    StringLiteral(Seq<char>),
    Identifier(Seq<char>),
    BinaryOp { op: Seq<char>, left: Box<NodeView>, right: Box<NodeView> },
    VariableDeclaration { name: Seq<char>, value: Box<NodeView>, var_type: Seq<char> },
    Conditional {
        condition: Box<NodeView>,
        if_block: Seq<NodeView>,
        else_block: Option<Seq<NodeView>>,
    },
    Loop { condition: Box<NodeView>, body: Seq<NodeView> },
    FunctionDeclaration {
        name: Seq<char>,
        return_type: Seq<char>,
        parameters: Seq<(Seq<char>, Seq<char>)>,
        body: Seq<NodeView>,
    },
    FunctionCall { name: Seq<char>, arguments: Seq<NodeView> },
    ReturnStatement(Box<NodeView>),
    Assignment { identifier: Seq<char>, value: Box<NodeView> },
    IfElse { condition: Box<NodeView>, if_block: Seq<NodeView>, else_block: Option<Seq<NodeView>> },
    ElseStatement { body: Seq<NodeView> },
    PrintStatement { context: Box<NodeView> },
    NoOp,
}

/// The contents of a parameter list.
pub open spec fn parameters_view(parameters: Seq<(String, String)>) -> Seq<(Seq<char>, Seq<char>)> {
    Seq::new(parameters.len(), |i: int| (parameters[i].0@, parameters[i].1@))
}

/// The contents of a node.
pub open spec fn node_view(node: ASTNode) -> NodeView
    decreases node,
{
    match node {
        ASTNode::IntegerLiteral(value) => NodeView::IntegerLiteral(value),
        ASTNode::BooleanLiteral(value) => NodeView::BooleanLiteral(value),
        ASTNode::StringLiteral(value) => NodeView::StringLiteral(value@),
        ASTNode::Identifier(name) => NodeView::Identifier(name@),
        ASTNode::BinaryOp { op, left, right } => NodeView::BinaryOp {
            op: op@,
            left: Box::new(node_view(*left)),
            right: Box::new(node_view(*right)),
        },
        ASTNode::VariableDeclaration { name, value, var_type } => NodeView::VariableDeclaration {
            name: name@,
            value: Box::new(node_view(*value)),
            var_type: var_type@,
        },
        ASTNode::Conditional { condition, if_block, else_block } => NodeView::Conditional {
            condition: Box::new(node_view(*condition)),
            if_block: nodes_view(if_block@),
            else_block: match else_block {
                Some(block) => Some(nodes_view(block@)),
                None => None,
            },
        },
        ASTNode::Loop { condition, body } => NodeView::Loop {
            condition: Box::new(node_view(*condition)),
            body: nodes_view(body@),
        },
        ASTNode::FunctionDeclaration { name, return_type, parameters, body } => {
            NodeView::FunctionDeclaration {
                name: name@,
                return_type: return_type@,
                parameters: parameters_view(parameters@),
                body: nodes_view(body@),
            }
        },
        ASTNode::FunctionCall { name, arguments } => NodeView::FunctionCall {
            name: name@,
            arguments: boxed_nodes_view(arguments@),
        },
        ASTNode::ReturnStatement(value) => NodeView::ReturnStatement(Box::new(node_view(*value))),
        ASTNode::Assignment { identifier, value } => NodeView::Assignment {
            identifier: identifier@,
            value: Box::new(node_view(*value)),
        },
        ASTNode::IfElse { condition, if_block, else_block } => NodeView::IfElse {
            condition: Box::new(node_view(*condition)),
            if_block: nodes_view(if_block@),
            else_block: match else_block {
                Some(block) => Some(nodes_view(block@)),
                None => None,
            },
        },
        ASTNode::ElseStatement { body } => NodeView::ElseStatement { body: nodes_view(body@) },
        ASTNode::PrintStatement { context } => NodeView::PrintStatement {
            context: Box::new(node_view(*context)),
        },
        ASTNode::NoOp => NodeView::NoOp,
    }
}

/// The contents of a sequence of nodes, node by node.
pub open spec fn nodes_view(nodes: Seq<ASTNode>) -> Seq<NodeView>
    decreases nodes,
{
    Seq::new(nodes.len(), |i: int| if 0 <= i < nodes.len() { node_view(nodes[i]) } else { NodeView::NoOp })
}

/// The contents of a sequence of boxed nodes, node by node.
pub open spec fn boxed_nodes_view(nodes: Seq<Box<ASTNode>>) -> Seq<NodeView>
    decreases nodes,
{
    Seq::new(nodes.len(), |i: int| if 0 <= i < nodes.len() { node_view(*nodes[i]) } else { NodeView::NoOp })
}

impl View for ASTNode {
    type V = NodeView;

    open spec fn view(&self) -> NodeView {
        node_view(*self)
    }
}

/// A copy of a parameter list.
pub fn clone_parameters(parameters: &Vec<(String, String)>) -> (r: Vec<(String, String)>)
    ensures
        parameters_view(r@) == parameters_view(parameters@),
{
    let mut copy: Vec<(String, String)> = Vec::new();
    let mut i: usize = 0;
    while i < parameters.len()
        invariant
            i <= parameters.len(),
            copy.len() == i,
            forall|j: int|
                0 <= j < i ==> (#[trigger] copy[j]).0@ == parameters[j].0@ && copy[j].1@
                    == parameters[j].1@,
        decreases parameters.len() - i,
    {
        copy.push((parameters[i].0.clone(), parameters[i].1.clone()));
        i += 1;
    }
    assert(parameters_view(copy@) =~= parameters_view(parameters@));
    copy
}

/// A copy of a node and of everything below it.
pub fn clone_node(node: &ASTNode) -> (r: ASTNode)
    ensures
        r@ == node@,
    decreases node,
{
    match node {
        ASTNode::IntegerLiteral(value) => ASTNode::IntegerLiteral(*value),
        ASTNode::BooleanLiteral(value) => ASTNode::BooleanLiteral(*value),
        ASTNode::StringLiteral(value) => ASTNode::StringLiteral(value.clone()),
        ASTNode::Identifier(name) => ASTNode::Identifier(name.clone()),
        ASTNode::BinaryOp { op, left, right } => ASTNode::BinaryOp {
            op: op.clone(),
            left: Box::new(clone_node(left)),
            right: Box::new(clone_node(right)),
        },
        ASTNode::VariableDeclaration { name, value, var_type } => ASTNode::VariableDeclaration {
            name: name.clone(),
            value: Box::new(clone_node(value)),
            var_type: var_type.clone(),
        },
        ASTNode::Conditional { condition, if_block, else_block } => ASTNode::Conditional {
            condition: Box::new(clone_node(condition)),
            if_block: clone_nodes(if_block),
            else_block: match else_block {
                Some(block) => Some(clone_nodes(block)),
                None => None,
            },
        },
        ASTNode::Loop { condition, body } => ASTNode::Loop {
            condition: Box::new(clone_node(condition)),
            body: clone_nodes(body),
        },
        ASTNode::FunctionDeclaration { name, return_type, parameters, body } => {
            ASTNode::FunctionDeclaration {
                name: name.clone(),
                return_type: return_type.clone(),
                parameters: clone_parameters(parameters),
                body: clone_nodes(body),
            }
        },
        ASTNode::FunctionCall { name, arguments } => ASTNode::FunctionCall {
            name: name.clone(),
            arguments: clone_boxed_nodes(arguments),
        },
        ASTNode::ReturnStatement(value) => ASTNode::ReturnStatement(Box::new(clone_node(value))),
        ASTNode::Assignment { identifier, value } => ASTNode::Assignment {
            identifier: identifier.clone(),
            value: Box::new(clone_node(value)),
        },
        ASTNode::IfElse { condition, if_block, else_block } => ASTNode::IfElse {
            condition: Box::new(clone_node(condition)),
            if_block: clone_nodes(if_block),
            else_block: match else_block {
                Some(block) => Some(clone_nodes(block)),
                None => None,
            },
        },
        ASTNode::ElseStatement { body } => ASTNode::ElseStatement { body: clone_nodes(body) },
        ASTNode::PrintStatement { context } => ASTNode::PrintStatement {
            context: Box::new(clone_node(context)),
        },
        ASTNode::NoOp => ASTNode::NoOp,
    }
}

/// A copy of a sequence of nodes.
pub fn clone_nodes(nodes: &Vec<ASTNode>) -> (r: Vec<ASTNode>)
    ensures
        nodes_view(r@) == nodes_view(nodes@),
    decreases nodes,
{
    let mut copy: Vec<ASTNode> = Vec::new();
    let mut i: usize = 0;
    while i < nodes.len()
        invariant
            i <= nodes.len(),
            copy.len() == i,
            forall|j: int| 0 <= j < i ==> (#[trigger] copy[j])@ == nodes[j]@,
        decreases nodes.len() - i,
    {
        proof {
            vstd::std_specs::vec::axiom_vec_index_decreases(*nodes, i as int);
        }
        copy.push(clone_node(&nodes[i]));
        i += 1;
    }
    assert(nodes_view(copy@) =~= nodes_view(nodes@));
    copy
}

/// A copy of a sequence of boxed nodes.
pub fn clone_boxed_nodes(nodes: &Vec<Box<ASTNode>>) -> (r: Vec<Box<ASTNode>>)
    ensures
        boxed_nodes_view(r@) == boxed_nodes_view(nodes@),
    decreases nodes,
{
    let mut copy: Vec<Box<ASTNode>> = Vec::new();
    let mut i: usize = 0;
    while i < nodes.len()
        invariant
            i <= nodes.len(),
            copy.len() == i,
            forall|j: int| 0 <= j < i ==> (*#[trigger] copy[j])@ == (*nodes[j])@,
        decreases nodes.len() - i,
    {
        proof {
            vstd::std_specs::vec::axiom_vec_index_decreases(*nodes, i as int);
        }
        copy.push(Box::new(clone_node(&nodes[i])));
        i += 1;
    }
    assert(boxed_nodes_view(copy@) =~= boxed_nodes_view(nodes@));
    copy
}

impl Clone for ASTNode {
    fn clone(&self) -> (r: Self)
        ensures
            r@ == self@,
    {
        clone_node(self)
    }
}


/// The same nodes, each in a box of its own.
pub fn box_nodes(nodes: Vec<ASTNode>) -> (r: Vec<Box<ASTNode>>)
    ensures
        boxed_nodes_view(r@) == nodes_view(nodes@),
{
    let ghost all = nodes@;
    let mut boxed: Vec<Box<ASTNode>> = Vec::new();
    for node in it: nodes
        invariant
            it.seq() == all,
            boxed.len() == it.index(),
            forall|j: int| 0 <= j < boxed.len() ==> *#[trigger] boxed[j] == all[j],
    {
        boxed.push(Box::new(node));
    }
    assert(boxed_nodes_view(boxed@) =~= nodes_view(all));
    boxed
}

} // verus!

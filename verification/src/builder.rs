//! From the parse tree to the syntax tree.
//!
//! Each kind of parse-tree node builds one kind of syntax-tree node. The end
//! of the input builds none and is passed over in a list; a node of any kind
//! that has no place, or that lacks what its kind needs, ends the building
//! with the kind that was not recognized.

use vstd::prelude::*;
use crate::ast::{
    lemma_if_statement_view, nodes_view, params_view, same_text, ASTNode, Dyadic, ExprView,
    Expression, FunctionCall, FunctionDefinition, FunctionView, IfStatement, NodeView, Operator,
    Type, Value, ValueView,
};
use crate::error::{CompileError, ErrorView};
use crate::literal::{int_of, parse_int};
use crate::syntax::{Rule, SyntaxNode};

verus! {

/// The operator that a symbol stands for, if it stands for one.
pub open spec fn operator_of(text: Seq<char>) -> Option<Operator> {
    if text == "+"@ {
        Some(Operator::Plus)
    } else if text == "-"@ {
        Some(Operator::Minus)
    } else if text == "*"@ {
        Some(Operator::Multiply)
    } else if text == "/"@ {
        Some(Operator::Divide)
    } else if text == "=="@ {
        Some(Operator::Equal)
    } else if text == "!="@ {
        Some(Operator::NotEqual)
    } else if text == "<"@ {
        Some(Operator::LessThan)
    } else if text == "<="@ {
        Some(Operator::LessThanOrEqual)
    } else if text == ">"@ {
        Some(Operator::GreaterThan)
    } else if text == ">="@ {
        Some(Operator::GreaterThanOrEqual)
    } else {
        None
    }
}

/// The operator that a symbol stands for; `None` for any other text.
pub fn parse_operator(text: &str) -> (op: Option<Operator>)
    ensures
        op == operator_of(text@),
{
    if same_text(text, "+") {
        Some(Operator::Plus)
    } else if same_text(text, "-") {
        Some(Operator::Minus)
    } else if same_text(text, "*") {
        Some(Operator::Multiply)
    } else if same_text(text, "/") {
        Some(Operator::Divide)
    } else if same_text(text, "==") {
        Some(Operator::Equal)
    } else if same_text(text, "!=") {
        Some(Operator::NotEqual)
    } else if same_text(text, "<") {
        Some(Operator::LessThan)
    } else if same_text(text, "<=") {
        Some(Operator::LessThanOrEqual)
    } else if same_text(text, ">") {
        Some(Operator::GreaterThan)
    } else if same_text(text, ">=") {
        Some(Operator::GreaterThanOrEqual)
    } else {
        None
    }
}

/// The failure that a node of the given kind was not recognized.
pub open spec fn unrecognized<T>(rule: Rule) -> Result<T, ErrorView> {
    Err(ErrorView::UnrecognizedSyntax(rule))
}

/// The parameters that the children below `n` of a `Params` node add to
/// those collected so far. Each `Param` child gives one parameter: its first
/// child spans the name, its second the name of the type. Children of other
/// kinds are passed over.
pub open spec fn params_into(
    children: Seq<SyntaxNode>,
    n: nat,
    acc: Seq<(Seq<char>, Type)>,
) -> Result<Seq<(Seq<char>, Type)>, ErrorView>
    decreases n,
{
    if n == 0 || n > children.len() {
        Ok(acc)
    } else {
        match params_into(children, (n - 1) as nat, acc) {
            Err(e) => Err(e),
            Ok(params) => {
                let child = children[n - 1];
                if child.rule != Rule::Param {
                    Ok(params)
                } else if child.children@.len() < 2 {
                    unrecognized(Rule::Param)
                } else {
                    match Type::named(child.children@[1].text@) {
                        None => unrecognized(Rule::ValueType),
                        Some(t) => Ok(params.push((child.children@[0].text@, t))),
                    }
                }
            },
        }
    }
}

/// The result type after the children below `n` of a `ReturnType` node: each
/// `ValueType` child names it anew. Children of other kinds are passed over.
pub open spec fn return_type_into(children: Seq<SyntaxNode>, n: nat, acc: Option<Type>) -> Result<
    Option<Type>,
    ErrorView,
>
    decreases n,
{
    if n == 0 || n > children.len() {
        Ok(acc)
    } else {
        match return_type_into(children, (n - 1) as nat, acc) {
            Err(e) => Err(e),
            Ok(before) => {
                let child = children[n - 1];
                if child.rule != Rule::ValueType {
                    Ok(before)
                } else {
                    match Type::named(child.text@) {
                        None => unrecognized(Rule::ValueType),
                        Some(t) => Ok(Some(t)),
                    }
                }
            },
        }
    }
}

/// What the children of a function definition behind its name have given so far.
pub struct FunctionParts {
    pub args: Seq<(Seq<char>, Type)>,
    pub return_type: Option<Type>,
    pub body: Seq<NodeView>,
}

/// The syntax-tree node that a parse-tree node builds.
pub open spec fn tree_of(node: SyntaxNode) -> Result<NodeView, ErrorView>
    decreases node, 0nat,
{
    let children = node.children@;
    match node.rule {
        Rule::Program => match trees_into(children, 0, children.len(), true, Seq::empty()) {
            Err(e) => Err(e),
            Ok(nodes) => Ok(NodeView::Program(nodes)),
        },
        Rule::FunctionDef => if children.len() == 0 {
            unrecognized(Rule::FunctionDef)
        } else {
            match function_parts(children, children.len()) {
                Err(e) => Err(e),
                Ok(parts) => Ok(
                    NodeView::FunctionDefinition(
                        FunctionView {
                            name: children[0].text@,
                            args: parts.args,
                            return_type: parts.return_type,
                            body: parts.body,
                        },
                    ),
                ),
            }
        },
        Rule::FunctionCall => if children.len() < 2 {
            unrecognized(Rule::FunctionCall)
        } else {
            let list = children[1].children@;
            match trees_into(list, 0, list.len(), false, Seq::empty()) {
                Err(e) => Err(e),
                Ok(args) => Ok(NodeView::Expression(ExprView::Call(children[0].text@, args))),
            }
        },
        Rule::ReturnStatement => if children.len() == 0 {
            unrecognized(Rule::ReturnStatement)
        } else {
            match tree_of(children[0]) {
                Err(e) => Err(e),
                Ok(inner) => Ok(NodeView::Return(Box::new(inner))),
            }
        },
        Rule::Expression => if children.len() == 0 {
            unrecognized(Rule::Expression)
        } else {
            tree_of(children[0])
        },
        Rule::PrimaryExpression => if children.len() == 0 {
            unrecognized(Rule::PrimaryExpression)
        } else {
            tree_of(children[0])
        },
        Rule::Dyadic => if children.len() < 3 {
            unrecognized(Rule::Dyadic)
        } else {
            match tree_of(children[0]) {
                Err(e) => Err(e),
                Ok(NodeView::Expression(left)) => match operator_of(children[1].text@) {
                    None => unrecognized(Rule::Dyadic),
                    Some(op) => match tree_of(children[2]) {
                        Err(e) => Err(e),
                        Ok(NodeView::Expression(right)) => Ok(
                            NodeView::Expression(
                                ExprView::Dyadic(Box::new(left), op, Box::new(right)),
                            ),
                        ),
                        Ok(_) => unrecognized(Rule::Dyadic),
                    },
                },
                Ok(_) => unrecognized(Rule::Dyadic),
            }
        },
        Rule::PrimaryIdentifier => Ok(NodeView::Expression(ExprView::Identifier(node.text@))),
        Rule::Value => if children.len() == 0 {
            unrecognized(Rule::Value)
        } else {
            let literal = children[0];
            match literal.rule {
                Rule::Int => match int_of(literal.text@) {
                    None => unrecognized(Rule::Int),
                    Some(v) => Ok(NodeView::Expression(ExprView::Value(ValueView::Int(v)))),
                },
                Rule::String => Ok(
                    NodeView::Expression(ExprView::Value(ValueView::String(literal.text@))),
                ),
                other => unrecognized(other),
            }
        },
        Rule::IfStatement => if children.len() == 0 {
            unrecognized(Rule::IfStatement)
        } else {
            match tree_of(children[0]) {
                Err(e) => Err(e),
                Ok(NodeView::Expression(condition)) => match trees_into(
                    children,
                    1,
                    children.len(),
                    true,
                    Seq::empty(),
                ) {
                    Err(e) => Err(e),
                    Ok(body) => Ok(NodeView::IfStatement(condition, body)),
                },
                Ok(_) => unrecognized(Rule::IfStatement),
            }
        },
        other => unrecognized(other),
    }
}

/// The nodes that the children from `from` up to `n` add, in order, to those
/// built so far. Where `skip_end` holds the end of the input is passed over;
/// elsewhere it is not recognized, as any node that builds nothing.
pub open spec fn trees_into(
    children: Seq<SyntaxNode>,
    from: nat,
    n: nat,
    skip_end: bool,
    acc: Seq<NodeView>,
) -> Result<Seq<NodeView>, ErrorView>
    decreases children, n,
{
    if n <= from || n > children.len() {
        Ok(acc)
    } else {
        match trees_into(children, from, (n - 1) as nat, skip_end, acc) {
            Err(e) => Err(e),
            Ok(nodes) => {
                let child = children[n - 1];
                if skip_end && child.rule == Rule::Eoi {
                    Ok(nodes)
                } else {
                    match tree_of(child) {
                        Err(e) => Err(e),
                        Ok(t) => Ok(nodes.push(t)),
                    }
                }
            },
        }
    }
}

/// What the children below `n` of a function definition give, the first
/// child, which spans the name, left aside: the parameters of every `Params`
/// child, the result type of every `ReturnType` child, and the statements of
/// every `FunctionBody` child. Children of other kinds are passed over.
pub open spec fn function_parts(children: Seq<SyntaxNode>, n: nat) -> Result<
    FunctionParts,
    ErrorView,
>
    decreases children, n,
{
    if n <= 1 || n > children.len() {
        Ok(FunctionParts { args: Seq::empty(), return_type: None, body: Seq::empty() })
    } else {
        match function_parts(children, (n - 1) as nat) {
            Err(e) => Err(e),
            Ok(parts) => {
                let child = children[n - 1];
                let inner = child.children@;
                match child.rule {
                    Rule::Params => match params_into(inner, inner.len(), parts.args) {
                        Err(e) => Err(e),
                        Ok(args) => Ok(FunctionParts { args, ..parts }),
                    },
                    Rule::ReturnType => match return_type_into(
                        inner,
                        inner.len(),
                        parts.return_type,
                    ) {
                        Err(e) => Err(e),
                        Ok(return_type) => Ok(FunctionParts { return_type, ..parts }),
                    },
                    Rule::FunctionBody => match trees_into(
                        inner,
                        0,
                        inner.len(),
                        true,
                        parts.body,
                    ) {
                        Err(e) => Err(e),
                        Ok(body) => Ok(FunctionParts { body, ..parts }),
                    },
                    _ => Ok(parts),
                }
            },
        }
    }
}

/// What building from a parse-tree node gives: no node for the end of the
/// input, and for any other node the syntax-tree node of its kind.
pub open spec fn built(node: SyntaxNode) -> Result<Option<NodeView>, ErrorView> {
    if node.rule == Rule::Eoi {
        Ok(None)
    } else {
        match tree_of(node) {
            Err(e) => Err(e),
            Ok(t) => Ok(Some(t)),
        }
    }
}

/// Once collecting parameters has failed, the children behind the failure do
/// not change the outcome.
pub proof fn lemma_params_into_failed(
    children: Seq<SyntaxNode>,
    i: nat,
    n: nat,
    acc: Seq<(Seq<char>, Type)>,
)
    requires
        i <= n <= children.len(),
        params_into(children, i, acc) is Err,
    ensures
        params_into(children, n, acc) == params_into(children, i, acc),
    decreases n,
{
    if i < n {
        lemma_params_into_failed(children, i, (n - 1) as nat, acc);
    }
}

/// Once reading a result type has failed, the children behind the failure do
/// not change the outcome.
pub proof fn lemma_return_type_into_failed(
    children: Seq<SyntaxNode>,
    i: nat,
    n: nat,
    acc: Option<Type>,
)
    requires
        i <= n <= children.len(),
        return_type_into(children, i, acc) is Err,
    ensures
        return_type_into(children, n, acc) == return_type_into(children, i, acc),
    decreases n,
{
    if i < n {
        lemma_return_type_into_failed(children, i, (n - 1) as nat, acc);
    }
}

/// Once building a list of nodes has failed, the children behind the failure
/// do not change the outcome.
pub proof fn lemma_trees_into_failed(
    children: Seq<SyntaxNode>,
    from: nat,
    i: nat,
    n: nat,
    skip_end: bool,
    acc: Seq<NodeView>,
)
    requires
        from <= i <= n <= children.len(),
        trees_into(children, from, i, skip_end, acc) is Err,
    ensures
        trees_into(children, from, n, skip_end, acc) == trees_into(
            children,
            from,
            i,
            skip_end,
            acc,
        ),
    decreases n,
{
    if i < n {
        lemma_trees_into_failed(children, from, i, (n - 1) as nat, skip_end, acc);
    }
}

/// Once building a function definition has failed, the children behind the
/// failure do not change the outcome.
pub proof fn lemma_function_parts_failed(children: Seq<SyntaxNode>, i: nat, n: nat)
    requires
        i <= n <= children.len(),
        function_parts(children, i) is Err,
    ensures
        function_parts(children, n) == function_parts(children, i),
    decreases n,
{
    if i < n {
        lemma_function_parts_failed(children, i, (n - 1) as nat);
    }
}

/// Adds the parameters that the children of a `Params` node give.
pub fn build_params(children: &Vec<SyntaxNode>, args: &mut Vec<(String, Type)>) -> (r: Result<
    (),
    CompileError,
>)
    ensures
        match params_into(children@, children@.len(), params_view(*old(args))) {
            Ok(params) => r is Ok && params_view(*final(args)) == params,
            Err(e) => r matches Err(x) && x@ == e,
        },
{
    let ghost start = params_view(*args);
    let mut i: usize = 0;
    while i < children.len()
        invariant
            i <= children.len(),
            start == params_view(*old(args)),
            params_into(children@, i as nat, start) == Ok::<Seq<(Seq<char>, Type)>, ErrorView>(
                params_view(*args),
            ),
        decreases children.len() - i,
    {
        let param = &children[i];
        match param.rule {
            Rule::Param => {
                if param.children.len() < 2 {
                    proof {
                        lemma_params_into_failed(
                            children@,
                            (i + 1) as nat,
                            children@.len(),
                            start,
                        );
                    }
                    return Err(CompileError::UnrecognizedSyntax(Rule::Param));
                }
                let name = param.children[0].text.clone();
                let type_enum = match Type::parse(param.children[1].text.as_str()) {
                    Some(t) => t,
                    None => {
                        proof {
                            lemma_params_into_failed(
                                children@,
                                (i + 1) as nat,
                                children@.len(),
                                start,
                            );
                        }
                        return Err(CompileError::UnrecognizedSyntax(Rule::ValueType));
                    },
                };
                let ghost before = params_view(*args);
                args.push((name, type_enum));
                proof {
                    assert(params_view(*args) =~= before.push((name@, type_enum)));
                }
            },
            _ => {},
        }
        i += 1;
    }
    Ok(())
}

/// Reads the result type that the children of a `ReturnType` node name.
pub fn build_return_type(children: &Vec<SyntaxNode>, declared: Option<Type>) -> (r: Result<
    Option<Type>,
    CompileError,
>)
    ensures
        match return_type_into(children@, children@.len(), declared) {
            Ok(t) => r == Ok::<Option<Type>, CompileError>(t),
            Err(e) => r matches Err(x) && x@ == e,
        },
{
    let mut return_type = declared;
    let mut i: usize = 0;
    while i < children.len()
        invariant
            i <= children.len(),
            return_type_into(children@, i as nat, declared) == Ok::<Option<Type>, ErrorView>(
                return_type,
            ),
        decreases children.len() - i,
    {
        let child = &children[i];
        match child.rule {
            Rule::ValueType => {
                match Type::parse(child.text.as_str()) {
                    Some(t) => {
                        return_type = Some(t);
                    },
                    None => {
                        proof {
                            lemma_return_type_into_failed(
                                children@,
                                (i + 1) as nat,
                                children@.len(),
                                declared,
                            );
                        }
                        return Err(CompileError::UnrecognizedSyntax(Rule::ValueType));
                    },
                }
            },
            _ => {},
        }
        i += 1;
    }
    Ok(return_type)
}

/// Whether what was built is what the model gives.
pub open spec fn node_built(
    model: Result<NodeView, ErrorView>,
    r: Result<ASTNode, CompileError>,
) -> bool {
    match model {
        Ok(t) => r matches Ok(node) && node@ == t,
        Err(e) => r matches Err(x) && x@ == e,
    }
}

/// Builds the nodes of the children from `from` on and adds them to `nodes`.
pub fn build_list(
    children: &Vec<SyntaxNode>,
    from: usize,
    skip_end: bool,
    nodes: &mut Vec<ASTNode>,
) -> (r: Result<(), CompileError>)
    ensures
        match trees_into(
            children@,
            from as nat,
            children@.len(),
            skip_end,
            nodes_view(*old(nodes)),
        ) {
            Ok(trees) => r is Ok && nodes_view(*final(nodes)) == trees,
            Err(e) => r matches Err(x) && x@ == e,
        },
    decreases *children, 0nat,
{
    let ghost start = nodes_view(*nodes);
    if from >= children.len() {
        return Ok(());
    }
    let mut i: usize = from;
    while i < children.len()
        invariant
            from <= i <= children.len(),
            start == nodes_view(*old(nodes)),
            trees_into(children@, from as nat, i as nat, skip_end, start) == Ok::<
                Seq<NodeView>,
                ErrorView,
            >(nodes_view(*nodes)),
        decreases children.len() - i,
    {
        let child = &children[i];
        let passed_over = skip_end && child.rule == Rule::Eoi;
        if !passed_over {
            match build_node(child) {
                Ok(node) => {
                    let ghost before = nodes_view(*nodes);
                    nodes.push(node);
                    proof {
                        assert(nodes_view(*nodes) =~= before.push(node@));
                    }
                },
                Err(e) => {
                    proof {
                        lemma_trees_into_failed(
                            children@,
                            from as nat,
                            (i + 1) as nat,
                            children@.len(),
                            skip_end,
                            start,
                        );
                    }
                    return Err(e);
                },
            }
        }
        i += 1;
    }
    Ok(())
}

/// Builds a function definition from a `FunctionDef` node.
pub fn build_function(pair: &SyntaxNode) -> (r: Result<ASTNode, CompileError>)
    requires
        pair.rule == Rule::FunctionDef,
    ensures
        node_built(tree_of(*pair), r),
    decreases *pair, 0nat,
{
    let children = &pair.children;
    if children.len() == 0 {
        return Err(CompileError::UnrecognizedSyntax(Rule::FunctionDef));
    }
    let name = children[0].text.clone();
    let mut args: Vec<(String, Type)> = Vec::new();
    let mut body: Vec<ASTNode> = Vec::new();
    let mut return_type: Option<Type> = None;
    proof {
        assert(params_view(args) =~= Seq::<(Seq<char>, Type)>::empty());
        assert(nodes_view(body) =~= Seq::<NodeView>::empty());
    }
    // keep consuming children until all of them were seen
    let mut i: usize = 1;
    while i < children.len()
        invariant
            1 <= i <= children.len(),
            children == &pair.children,
            pair.rule == Rule::FunctionDef,
            function_parts(children@, i as nat) == Ok::<FunctionParts, ErrorView>(
                FunctionParts {
                    args: params_view(args),
                    return_type,
                    body: nodes_view(body),
                },
            ),
        decreases children.len() - i,
    {
        let inner_pair = &children[i];
        let built = match inner_pair.rule {
            Rule::Params => build_params(&inner_pair.children, &mut args),
            Rule::ReturnType => {
                match build_return_type(&inner_pair.children, return_type) {
                    Ok(t) => {
                        return_type = t;
                        Ok(())
                    },
                    Err(e) => Err(e),
                }
            },
            Rule::FunctionBody => build_list(&inner_pair.children, 0, true, &mut body),
            _ => Ok(()),
        };
        match built {
            Ok(_) => {},
            Err(e) => {
                proof {
                    assert(function_parts(children@, (i + 1) as nat) == Err::<
                        FunctionParts,
                        ErrorView,
                    >(e@));
                    lemma_function_parts_failed(children@, (i + 1) as nat, children@.len());
                }
                return Err(e);
            },
        }
        i += 1;
    }
    Ok(ASTNode::FunctionDefinition(FunctionDefinition::new(name, args, body, return_type)))
}

/// Builds the syntax-tree node of a parse-tree node.
pub fn build_node(pair: &SyntaxNode) -> (r: Result<ASTNode, CompileError>)
    ensures
        node_built(tree_of(*pair), r),
    decreases *pair, 1nat,
{
    let children = &pair.children;
    match pair.rule {
        Rule::Program => {
            let mut nodes: Vec<ASTNode> = Vec::new();
            proof {
                assert(nodes_view(nodes) =~= Seq::<NodeView>::empty());
            }
            match build_list(children, 0, true, &mut nodes) {
                Ok(_) => Ok(ASTNode::Program(nodes)),
                Err(e) => Err(e),
            }
        },
        Rule::FunctionDef => build_function(pair),
        Rule::FunctionCall => {
            if children.len() < 2 {
                return Err(CompileError::UnrecognizedSyntax(Rule::FunctionCall));
            }
            let name = children[0].text.clone();
            let mut args: Vec<ASTNode> = Vec::new();
            proof {
                assert(nodes_view(args) =~= Seq::<NodeView>::empty());
            }
            match build_list(&children[1].children, 0, false, &mut args) {
                Ok(_) => {
                    let call = Expression::FunctionCall(FunctionCall::new(name, args));
                    proof {
                        assert(call@ == ExprView::Call(name@, nodes_view(args)));
                    }
                    Ok(ASTNode::Expression(call))
                },
                Err(e) => Err(e),
            }
        },
        Rule::ReturnStatement => {
            if children.len() == 0 {
                return Err(CompileError::UnrecognizedSyntax(Rule::ReturnStatement));
            }
            match build_node(&children[0]) {
                Ok(inner) => Ok(ASTNode::Return(Box::new(inner))),
                Err(e) => Err(e),
            }
        },
        Rule::Expression => {
            if children.len() == 0 {
                return Err(CompileError::UnrecognizedSyntax(Rule::Expression));
            }
            build_node(&children[0])
        },
        Rule::PrimaryExpression => {
            if children.len() == 0 {
                return Err(CompileError::UnrecognizedSyntax(Rule::PrimaryExpression));
            }
            build_node(&children[0])
        },
        Rule::Dyadic => {
            if children.len() < 3 {
                return Err(CompileError::UnrecognizedSyntax(Rule::Dyadic));
            }
            let left = match build_node(&children[0]) {
                Ok(ASTNode::Expression(p)) => p,
                Ok(ASTNode::IfStatement(s)) => {
                    proof {
                        lemma_if_statement_view(s);
                    }
                    return Err(CompileError::UnrecognizedSyntax(Rule::Dyadic));
                },
                Ok(_) => {
                    return Err(CompileError::UnrecognizedSyntax(Rule::Dyadic));
                },
                Err(e) => {
                    return Err(e);
                },
            };
            let operator = match parse_operator(children[1].text.as_str()) {
                Some(op) => op,
                None => {
                    return Err(CompileError::UnrecognizedSyntax(Rule::Dyadic));
                },
            };
            let right = match build_node(&children[2]) {
                Ok(ASTNode::Expression(p)) => p,
                Ok(ASTNode::IfStatement(s)) => {
                    proof {
                        lemma_if_statement_view(s);
                    }
                    return Err(CompileError::UnrecognizedSyntax(Rule::Dyadic));
                },
                Ok(_) => {
                    return Err(CompileError::UnrecognizedSyntax(Rule::Dyadic));
                },
                Err(e) => {
                    return Err(e);
                },
            };
            let dyadic = Expression::Dyadic(
                Dyadic { left: Box::new(left), operator, right: Box::new(right) },
            );
            proof {
                assert(dyadic@ == ExprView::Dyadic(Box::new(left@), operator, Box::new(right@)));
            }
            Ok(ASTNode::Expression(dyadic))
        },
        Rule::PrimaryIdentifier => {
            let identifier = Expression::Identifier(pair.text.clone());
            proof {
                assert(identifier@ == ExprView::Identifier(pair.text@));
            }
            Ok(ASTNode::Expression(identifier))
        },
        Rule::Value => {
            if children.len() == 0 {
                return Err(CompileError::UnrecognizedSyntax(Rule::Value));
            }
            let inner_pair = &children[0];
            let value = match inner_pair.rule {
                Rule::Int => match parse_int(inner_pair.text.as_str()) {
                    Some(v) => Value::Int(v),
                    None => {
                        return Err(CompileError::UnrecognizedSyntax(Rule::Int));
                    },
                },
                Rule::String => Value::String(inner_pair.text.clone()),
                other => {
                    return Err(CompileError::UnrecognizedSyntax(other));
                },
            };
            let literal = Expression::Value(value);
            proof {
                assert(literal@ == ExprView::Value(value@));
            }
            Ok(ASTNode::Expression(literal))
        },
        Rule::IfStatement => {
            if children.len() == 0 {
                return Err(CompileError::UnrecognizedSyntax(Rule::IfStatement));
            }
            let condition = match build_node(&children[0]) {
                Ok(ASTNode::Expression(p)) => p,
                Ok(ASTNode::IfStatement(s)) => {
                    proof {
                        lemma_if_statement_view(s);
                    }
                    return Err(CompileError::UnrecognizedSyntax(Rule::IfStatement));
                },
                Ok(_) => {
                    return Err(CompileError::UnrecognizedSyntax(Rule::IfStatement));
                },
                Err(e) => {
                    return Err(e);
                },
            };
            let mut body: Vec<ASTNode> = Vec::new();
            proof {
                assert(nodes_view(body) =~= Seq::<NodeView>::empty());
            }
            match build_list(children, 1, true, &mut body) {
                Ok(_) => Ok(ASTNode::IfStatement(IfStatement::new(condition, body))),
                Err(e) => Err(e),
            }
        },
        other => Err(CompileError::UnrecognizedSyntax(other)),
    }
}

/// Whether what was built is what the model gives: no node, the node that
/// the model gives, or the failure that it gives.
pub open spec fn is_built(
    model: Result<Option<NodeView>, ErrorView>,
    r: Result<Option<ASTNode>, CompileError>,
) -> bool {
    match model {
        Ok(None) => r matches Ok(None),
        Ok(Some(t)) => r matches Ok(Some(node)) && node@ == t,
        Err(e) => r matches Err(x) && x@ == e,
    }
}

/// Builds the syntax tree of a parse tree: no node for the end of the
/// input, the node of its kind for any other node, or the kind that was not
/// recognized.
pub fn build_ast(pair: &SyntaxNode) -> (r: Result<Option<ASTNode>, CompileError>)
    ensures
        is_built(built(*pair), r),
{
    match pair.rule {
        Rule::Eoi => Ok(None),
        _ => match build_node(pair) {
            Ok(node) => Ok(Some(node)),
            Err(e) => Err(e),
        },
    }
}

} // verus!

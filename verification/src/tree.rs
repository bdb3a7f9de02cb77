//! The concrete parse tree: what the grammar parser produces and the
//! builder of the syntax tree consumes.
use vstd::prelude::*;

verus! {

/// The rules of the grammar. A node of the parse tree is tagged with the
/// rule that matched it.
#[derive(Debug, Clone, Copy, PartialEq, Eq, Structural)]
pub enum Rule {
    Program,
    EntityDef,
    EntityBody,
    ComponentDef,
    ComponentBody,
    ComponentField,
    FnDef,
    AsyncKeyword,
    ParamList,
    Param,
    ReturnType,
    TypeExpr,
    SimpleType,
    GenericType,
    TypeList,
    SignalDef,
    StateMachineDef,
    StateMachineBody,
    StateDef,
    Block,
    VariableDecl,
    Assignment,
    Lvalue,
    AssignOp,
    IfStmt,
    ElifClause,
    ElseClause,
    WhileStmt,
    ForStmt,
    ReturnStmt,
    EmitStmt,
    ArgList,
    Arg,
    Expression,
    OrExpr,
    AndExpr,
    NotExpr,
    Comparison,
    AddExpr,
    MulExpr,
    UnaryExpr,
    PostfixExpr,
    OrOp,
    AndOp,
    NotOp,
    CompOp,
    AddOp,
    MulOp,
    UnaryOp,
    Call,
    MemberAccess,
    IndexAccess,
    IntLiteral,
    FloatLiteral,
    StringLiteral,
    BoolLiteral,
    Vec2Literal,
    Vec3Literal,
    ListLiteral,
    MapLiteral,
    MapEntry,
    Identifier,
    Indent,
    Dedent,
    Eoi,
    Statement,
    EntityMember,
    Primary,
    Keyword,
    IdentStart,
    IdentCont,
    Digit,
    Whitespace,
    Comment,
    Newline,
    LineEnd,
}

/// A node of the parse tree: the rule that matched, the text it matched,
/// and the nodes of the rules matched inside it, in source order.
#[derive(Debug)]
pub struct ParseNode {
    pub rule: Rule,
    pub text: String,
    pub children: Vec<ParseNode>,
}

/// The mathematical model of a parse tree node.
pub ghost struct Tree {
    pub rule: Rule,
    pub text: Seq<char>,
    pub children: Seq<Tree>,
}

impl ParseNode {
    /// The model of the value.
    pub open spec fn view(&self) -> Tree
        decreases self,
    {
        Tree {
            rule: self.rule,
            text: self.text@,
            children: Seq::new(
                self.children@.len(),
                |i: int|
                    if 0 <= i < self.children@.len() {
                        self.children@[i].view()
                    } else {
                        arbitrary()
                    },
            ),
        }
    }
}

/// The models of a sequence of nodes.
pub open spec fn trees_of(nodes: Seq<ParseNode>) -> Seq<Tree> {
    Seq::new(nodes.len(), |i: int| nodes[i]@)
}

/// The children of a node, seen from outside, are the models of its child
/// nodes.
pub proof fn lemma_children_view(node: ParseNode)
    ensures
        node@.children == trees_of(node.children@),
{
    assert(node@.children =~= trees_of(node.children@));
}

} // verus!

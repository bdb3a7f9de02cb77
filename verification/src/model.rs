//! The mathematical model of the syntax tree: for each node type a ghost
//! twin over `Seq` and `Seq<char>`, and the view that maps a node to it.
//! Every contract of the later stages is stated over these views.
use crate::ast::{
    Arg, AssignOp, Assignment, BinaryOp, ComponentDef, EmitStmt, EntityDef, Expr, FnDef, ForStmt,
    IfStmt, LValue, Param, Program, SignalDef, StateDef, StateMachine, Statement, TypeExpr,
    UnaryOp, VarDecl, WhileStmt,
};
use vstd::prelude::*;

verus! {

/// The model of a type annotation.
pub ghost enum TypeView {
    Simple(Seq<char>),
    Generic { name: Seq<char>, params: Seq<TypeView> },
}

/// The model of an argument.
pub ghost struct ArgView {
    pub name: Option<Seq<char>>,
    pub value: ExprView,
}

/// The model of an expression.
pub ghost enum ExprView {
    Int(int),
    Float(Seq<char>),
    String(Seq<char>),
    Bool(bool),
    Vec2(Box<ExprView>, Box<ExprView>),
    Vec3(Box<ExprView>, Box<ExprView>, Box<ExprView>),
    List(Seq<ExprView>),
    MapLit(Seq<(Seq<char>, ExprView)>),
    Identifier(Seq<char>),
    MemberAccess(Box<ExprView>, Seq<char>),
    Index(Box<ExprView>, Box<ExprView>),
    BinaryOp(Box<ExprView>, BinaryOp, Box<ExprView>),
    UnaryOp(UnaryOp, Box<ExprView>),
    Call { callee: Box<ExprView>, args: Seq<ArgView> },
}

/// The model of a parameter.
pub ghost struct ParamView {
    pub name: Seq<char>,
    pub type_expr: TypeView,
}

/// The model of a signal.
pub ghost struct SignalView {
    pub name: Seq<char>,
    pub params: Seq<ParamView>,
}

/// The model of a variable declaration.
pub ghost struct VarDeclView {
    pub name: Seq<char>,
    pub type_expr: Option<TypeView>,
    pub value: ExprView,
}

/// The model of a component.
pub ghost struct ComponentView {
    pub name: Seq<char>,
    pub fields: Seq<(Seq<char>, ExprView)>,
}

/// The model of an assignment.
pub ghost struct AssignmentView {
    pub target: Seq<Seq<char>>,
    pub op: AssignOp,
    pub value: ExprView,
}

/// The model of an `emit`.
pub ghost struct EmitView {
    pub signal_name: Seq<char>,
    pub args: Seq<ExprView>,
}

/// The model of a function.
pub ghost struct FnView {
    pub name: Seq<char>,
    pub is_async: bool,
    pub params: Seq<ParamView>,
    pub return_type: Option<TypeView>,
    pub body: Seq<StatementView>,
}

/// The model of an entity.
pub ghost struct EntityView {
    pub name: Seq<char>,
    pub components: Seq<ComponentView>,
    pub functions: Seq<FnView>,
    pub signals: Seq<SignalView>,
    pub variables: Seq<VarDeclView>,
}

/// The model of a state.
pub ghost struct StateView {
    pub name: Seq<char>,
    pub body: Seq<StatementView>,
}

/// The model of a state machine.
pub ghost struct StateMachineView {
    pub name: Seq<char>,
    pub initial_state: Option<Seq<char>>,
    pub states: Seq<StateView>,
}

/// The model of a conditional.
pub ghost struct IfView {
    pub condition: ExprView,
    pub then_body: Seq<StatementView>,
    pub elif_clauses: Seq<(ExprView, Seq<StatementView>)>,
    pub else_body: Option<Seq<StatementView>>,
}

/// The model of a `while` loop.
pub ghost struct WhileView {
    pub condition: ExprView,
    pub body: Seq<StatementView>,
}

/// The model of a `for` loop.
pub ghost struct ForView {
    pub var_name: Seq<char>,
    pub iterable: ExprView,
    pub body: Seq<StatementView>,
}

/// The model of a statement.
pub ghost enum StatementView {
    EntityDef(EntityView),
    FnDef(FnView),
    SignalDef(SignalView),
    StateMachine(StateMachineView),
    VarDecl(VarDeclView),
    Assignment(AssignmentView),
    If(IfView),
    While(WhileView),
    For(ForView),
    Return(Option<ExprView>),
    Emit(EmitView),
    Expr(ExprView),
}

/// The model of a program.
pub ghost struct ProgramView {
    pub statements: Seq<StatementView>,
}

impl TypeExpr {
    /// The model of the node.
    pub open spec fn view(&self) -> TypeView
        decreases self,
    {
        match self {
            TypeExpr::Simple(name) => TypeView::Simple(name@),
            TypeExpr::Generic { name, params } => TypeView::Generic {
                name: name@,
                params: Seq::new(
                    params@.len(),
                    |i: int|
                        if 0 <= i < params@.len() {
                            params@[i].view()
                        } else {
                            arbitrary()
                        },
                ),
            },
        }
    }
}

/// The views of a sequence of types.
pub open spec fn types_view(v: Seq<TypeExpr>) -> Seq<TypeView> {
    Seq::new(v.len(), |i: int| v[i]@)
}

/// The view of an optional type.
pub open spec fn opt_type_view(t: Option<TypeExpr>) -> Option<TypeView> {
    match t {
        Some(t) => Some(t@),
        None => None,
    }
}

/// The view of an optional string.
pub open spec fn opt_text_view(t: Option<String>) -> Option<Seq<char>> {
    match t {
        Some(t) => Some(t@),
        None => None,
    }
}

impl Expr {
    /// The model of the node.
    pub open spec fn view(&self) -> ExprView
        decreases self,
    {
        match self {
            Expr::Int(n) => ExprView::Int(*n as int),
            Expr::Float(s) => ExprView::Float(s@),
            Expr::String(s) => ExprView::String(s@),
            Expr::Bool(b) => ExprView::Bool(*b),
            Expr::Vec2(x, y) => ExprView::Vec2(Box::new(x.view()), Box::new(y.view())),
            Expr::Vec3(x, y, z) => ExprView::Vec3(
                Box::new(x.view()),
                Box::new(y.view()),
                Box::new(z.view()),
            ),
            Expr::List(items) => ExprView::List(
                Seq::new(
                    items@.len(),
                    |i: int|
                        if 0 <= i < items@.len() {
                            items@[i].view()
                        } else {
                            arbitrary()
                        },
                ),
            ),
            Expr::MapLit(entries) => ExprView::MapLit(
                Seq::new(
                    entries@.len(),
                    |i: int|
                        if 0 <= i < entries@.len() {
                            (entries@[i].0@, entries@[i].1.view())
                        } else {
                            arbitrary()
                        },
                ),
            ),
            Expr::Identifier(s) => ExprView::Identifier(s@),
            Expr::MemberAccess(base, field) => ExprView::MemberAccess(
                Box::new(base.view()),
                field@,
            ),
            Expr::Index(base, index) => ExprView::Index(
                Box::new(base.view()),
                Box::new(index.view()),
            ),
            Expr::BinaryOp(left, op, right) => ExprView::BinaryOp(
                Box::new(left.view()),
                *op,
                Box::new(right.view()),
            ),
            Expr::UnaryOp(op, operand) => ExprView::UnaryOp(*op, Box::new(operand.view())),
            Expr::Call { callee, args } => ExprView::Call {
                callee: Box::new(callee.view()),
                args: Seq::new(
                    args@.len(),
                    |i: int|
                        if 0 <= i < args@.len() {
                            ArgView { name: opt_text_view(args@[i].name), value: args@[i].value.view() }
                        } else {
                            arbitrary()
                        },
                ),
            },
        }
    }
}

/// The views of a sequence of expressions.
pub open spec fn exprs_view(v: Seq<Expr>) -> Seq<ExprView> {
    Seq::new(v.len(), |i: int| v[i]@)
}

/// The views of a sequence of named expressions.
pub open spec fn entries_view(v: Seq<(String, Expr)>) -> Seq<(Seq<char>, ExprView)> {
    Seq::new(v.len(), |i: int| (v[i].0@, v[i].1@))
}

/// The view of an optional expression.
pub open spec fn opt_expr_view(e: Option<Expr>) -> Option<ExprView> {
    match e {
        Some(e) => Some(e@),
        None => None,
    }
}

impl Arg {
    /// The model of the node.
    pub open spec fn view(&self) -> ArgView {
        ArgView { name: opt_text_view(self.name), value: self.value@ }
    }
}

/// The views of a sequence of arguments.
pub open spec fn args_view(v: Seq<Arg>) -> Seq<ArgView> {
    Seq::new(v.len(), |i: int| v[i]@)
}

impl Param {
    /// The model of the node.
    pub open spec fn view(&self) -> ParamView {
        ParamView { name: self.name@, type_expr: self.type_expr@ }
    }
}

/// The views of a sequence of parameters.
pub open spec fn params_view(v: Seq<Param>) -> Seq<ParamView> {
    Seq::new(v.len(), |i: int| v[i]@)
}

impl SignalDef {
    /// The model of the node.
    pub open spec fn view(&self) -> SignalView {
        SignalView { name: self.name@, params: params_view(self.params@) }
    }
}

/// The views of a sequence of signals.
pub open spec fn signals_view(v: Seq<SignalDef>) -> Seq<SignalView> {
    Seq::new(v.len(), |i: int| v[i]@)
}

impl VarDecl {
    /// The model of the node.
    pub open spec fn view(&self) -> VarDeclView {
        VarDeclView {
            name: self.name@,
            type_expr: opt_type_view(self.type_expr),
            value: self.value@,
        }
    }
}

/// The views of a sequence of variable declarations.
pub open spec fn var_decls_view(v: Seq<VarDecl>) -> Seq<VarDeclView> {
    Seq::new(v.len(), |i: int| v[i]@)
}

impl ComponentDef {
    /// The model of the node.
    pub open spec fn view(&self) -> ComponentView {
        ComponentView { name: self.name@, fields: entries_view(self.fields@) }
    }

    /// No field name occurs twice.
    pub open spec fn well_formed(&self) -> bool {
        distinct_keys(entries_view(self.fields@))
    }
}

/// No key of `entries` occurs twice.
pub open spec fn distinct_keys(entries: Seq<(Seq<char>, ExprView)>) -> bool {
    forall|i: int, j: int|
        0 <= i < j < entries.len() ==> (#[trigger] entries[i]).0 != (#[trigger] entries[j]).0
}

/// The views of a sequence of components.
pub open spec fn components_view(v: Seq<ComponentDef>) -> Seq<ComponentView> {
    Seq::new(v.len(), |i: int| v[i]@)
}

/// The views of the segments of a path.
pub open spec fn parts_view(v: Seq<String>) -> Seq<Seq<char>> {
    Seq::new(v.len(), |i: int| v[i]@)
}

impl LValue {
    /// The model of the node.
    pub open spec fn view(&self) -> Seq<Seq<char>> {
        parts_view(self.parts@)
    }
}

impl Assignment {
    /// The model of the node.
    pub open spec fn view(&self) -> AssignmentView {
        AssignmentView { target: self.target@, op: self.op, value: self.value@ }
    }
}

impl EmitStmt {
    /// The model of the node.
    pub open spec fn view(&self) -> EmitView {
        EmitView { signal_name: self.signal_name@, args: exprs_view(self.args@) }
    }
}

impl Statement {
    /// The model of the node.
    pub open spec fn view(&self) -> StatementView
        decreases self,
    {
        match self {
            Statement::EntityDef(e) => StatementView::EntityDef(e.view()),
            Statement::FnDef(f) => StatementView::FnDef(f.view()),
            Statement::SignalDef(s) => StatementView::SignalDef(s@),
            Statement::StateMachine(m) => StatementView::StateMachine(m.view()),
            Statement::VarDecl(v) => StatementView::VarDecl(v@),
            Statement::Assignment(a) => StatementView::Assignment(a@),
            Statement::If(i) => StatementView::If(i.view()),
            Statement::While(w) => StatementView::While(w.view()),
            Statement::For(f) => StatementView::For(f.view()),
            Statement::Return(e) => StatementView::Return(opt_expr_view(*e)),
            Statement::Emit(e) => StatementView::Emit(e@),
            Statement::Expr(e) => StatementView::Expr(e@),
        }
    }
}

impl FnDef {
    /// The model of the node.
    pub open spec fn view(&self) -> FnView
        decreases self,
    {
        FnView {
            name: self.name@,
            is_async: self.is_async,
            params: params_view(self.params@),
            return_type: opt_type_view(self.return_type),
            body: Seq::new(
                self.body@.len(),
                |i: int|
                    if 0 <= i < self.body@.len() {
                        self.body@[i].view()
                    } else {
                        arbitrary()
                    },
            ),
        }
    }
}

impl EntityDef {
    /// The model of the node.
    pub open spec fn view(&self) -> EntityView
        decreases self,
    {
        EntityView {
            name: self.name@,
            components: components_view(self.components@),
            functions: Seq::new(
                self.functions@.len(),
                |i: int|
                    if 0 <= i < self.functions@.len() {
                        self.functions@[i].view()
                    } else {
                        arbitrary()
                    },
            ),
            signals: signals_view(self.signals@),
            variables: var_decls_view(self.variables@),
        }
    }
}

impl StateDef {
    /// The model of the node.
    pub open spec fn view(&self) -> StateView
        decreases self,
    {
        StateView {
            name: self.name@,
            body: Seq::new(
                self.body@.len(),
                |i: int|
                    if 0 <= i < self.body@.len() {
                        self.body@[i].view()
                    } else {
                        arbitrary()
                    },
            ),
        }
    }
}

impl StateMachine {
    /// The model of the node.
    pub open spec fn view(&self) -> StateMachineView
        decreases self,
    {
        StateMachineView {
            name: self.name@,
            initial_state: opt_text_view(self.initial_state),
            states: Seq::new(
                self.states@.len(),
                |i: int|
                    if 0 <= i < self.states@.len() {
                        self.states@[i].view()
                    } else {
                        arbitrary()
                    },
            ),
        }
    }
}

impl IfStmt {
    /// The model of the node.
    pub open spec fn view(&self) -> IfView
        decreases self,
    {
        IfView {
            condition: self.condition@,
            then_body: Seq::new(
                self.then_body@.len(),
                |i: int|
                    if 0 <= i < self.then_body@.len() {
                        self.then_body@[i].view()
                    } else {
                        arbitrary()
                    },
            ),
            elif_clauses: Seq::new(
                self.elif_clauses@.len(),
                |i: int|
                    if 0 <= i < self.elif_clauses@.len() {
                        (
                            self.elif_clauses@[i].0@,
                            Seq::new(
                                self.elif_clauses@[i].1@.len(),
                                |j: int|
                                    if 0 <= j < self.elif_clauses@[i].1@.len() {
                                        self.elif_clauses@[i].1@[j].view()
                                    } else {
                                        arbitrary()
                                    },
                            ),
                        )
                    } else {
                        arbitrary()
                    },
            ),
            else_body: match self.else_body {
                Some(body) => Some(
                    Seq::new(
                        body@.len(),
                        |i: int|
                            if 0 <= i < body@.len() {
                                body@[i].view()
                            } else {
                                arbitrary()
                            },
                    ),
                ),
                None => None,
            },
        }
    }
}

impl WhileStmt {
    /// The model of the node.
    pub open spec fn view(&self) -> WhileView
        decreases self,
    {
        WhileView {
            condition: self.condition@,
            body: Seq::new(
                self.body@.len(),
                |i: int|
                    if 0 <= i < self.body@.len() {
                        self.body@[i].view()
                    } else {
                        arbitrary()
                    },
            ),
        }
    }
}

impl ForStmt {
    /// The model of the node.
    pub open spec fn view(&self) -> ForView
        decreases self,
    {
        ForView {
            var_name: self.var_name@,
            iterable: self.iterable@,
            body: Seq::new(
                self.body@.len(),
                |i: int|
                    if 0 <= i < self.body@.len() {
                        self.body@[i].view()
                    } else {
                        arbitrary()
                    },
            ),
        }
    }
}

/// The views of a sequence of statements.
pub open spec fn statements_view(v: Seq<Statement>) -> Seq<StatementView> {
    Seq::new(v.len(), |i: int| v[i]@)
}

impl Program {
    /// The model of the node.
    pub open spec fn view(&self) -> ProgramView {
        ProgramView { statements: statements_view(self.statements@) }
    }
}

} // verus!

verus! {

/// The view of a list literal is the list of the views of its items.
pub proof fn lemma_list_view(items: Vec<Expr>)
    ensures
        Expr::List(items)@ == ExprView::List(exprs_view(items@)),
{
    match Expr::List(items)@ {
        ExprView::List(s) => {
            assert(s =~= exprs_view(items@));
        },
        _ => {},
    }
}

/// The view of a map literal is the list of the views of its entries.
pub proof fn lemma_map_view(entries: Vec<(String, Expr)>)
    ensures
        Expr::MapLit(entries)@ == ExprView::MapLit(entries_view(entries@)),
{
    match Expr::MapLit(entries)@ {
        ExprView::MapLit(s) => {
            assert(s =~= entries_view(entries@));
        },
        _ => {},
    }
}

/// The view of a call is made of the views of its callee and arguments.
pub proof fn lemma_call_view(callee: Box<Expr>, args: Vec<Arg>)
    ensures
        (Expr::Call { callee, args })@ == (ExprView::Call {
            callee: Box::new(callee@),
            args: args_view(args@),
        }),
{
    match (Expr::Call { callee, args })@ {
        ExprView::Call { callee: c, args: a } => {
            assert(a =~= args_view(args@));
        },
        _ => {},
    }
}

/// Pushing an item onto a vector pushes its view onto the views.
pub proof fn lemma_exprs_push(v: Seq<Expr>, e: Expr)
    ensures
        exprs_view(v.push(e)) == exprs_view(v).push(e@),
{
    assert(exprs_view(v.push(e)) =~= exprs_view(v).push(e@));
}

/// Pushing an entry onto a vector pushes its view onto the views.
pub proof fn lemma_entries_push(v: Seq<(String, Expr)>, e: (String, Expr))
    ensures
        entries_view(v.push(e)) == entries_view(v).push((e.0@, e.1@)),
{
    assert(entries_view(v.push(e)) =~= entries_view(v).push((e.0@, e.1@)));
}

/// Pushing an argument onto a vector pushes its view onto the views.
pub proof fn lemma_args_push(v: Seq<Arg>, a: Arg)
    ensures
        args_view(v.push(a)) == args_view(v).push(a@),
{
    assert(args_view(v.push(a)) =~= args_view(v).push(a@));
}

} // verus!

verus! {

/// The views of a sequence of functions.
pub open spec fn fns_view(v: Seq<FnDef>) -> Seq<FnView> {
    Seq::new(v.len(), |i: int| v[i]@)
}

/// The views of a sequence of states.
pub open spec fn states_view(v: Seq<StateDef>) -> Seq<StateView> {
    Seq::new(v.len(), |i: int| v[i]@)
}

/// The views of a sequence of `elif` clauses.
pub open spec fn elifs_view(v: Seq<(Expr, Vec<Statement>)>) -> Seq<(ExprView, Seq<StatementView>)> {
    Seq::new(v.len(), |i: int| (v[i].0@, statements_view(v[i].1@)))
}

/// The view of an optional body.
pub open spec fn opt_body_view(b: Option<Vec<Statement>>) -> Option<Seq<StatementView>> {
    match b {
        Some(b) => Some(statements_view(b@)),
        None => None,
    }
}

/// The view of a generic type is made of the views of its parameters.
pub proof fn lemma_generic_view(name: String, params: Vec<TypeExpr>)
    ensures
        (TypeExpr::Generic { name, params })@ == (TypeView::Generic {
            name: name@,
            params: types_view(params@),
        }),
{
    match (TypeExpr::Generic { name, params })@ {
        TypeView::Generic { name: n, params: p } => {
            assert(p =~= types_view(params@));
        },
        _ => {},
    }
}

/// The view of a function is made of the views of its parts.
pub proof fn lemma_fn_view(f: FnDef)
    ensures
        f@ == (FnView {
            name: f.name@,
            is_async: f.is_async,
            params: params_view(f.params@),
            return_type: opt_type_view(f.return_type),
            body: statements_view(f.body@),
        }),
{
    assert(f@.body =~= statements_view(f.body@));
}

/// The view of an entity is made of the views of its parts.
pub proof fn lemma_entity_view(e: EntityDef)
    ensures
        e@ == (EntityView {
            name: e.name@,
            components: components_view(e.components@),
            functions: fns_view(e.functions@),
            signals: signals_view(e.signals@),
            variables: var_decls_view(e.variables@),
        }),
{
    assert(e@.functions =~= fns_view(e.functions@));
}

/// The view of a state is made of the views of its parts.
pub proof fn lemma_state_view(s: StateDef)
    ensures
        s@ == (StateView { name: s.name@, body: statements_view(s.body@) }),
{
    assert(s@.body =~= statements_view(s.body@));
}

/// The view of a state machine is made of the views of its parts.
pub proof fn lemma_state_machine_view(m: StateMachine)
    ensures
        m@ == (StateMachineView {
            name: m.name@,
            initial_state: opt_text_view(m.initial_state),
            states: states_view(m.states@),
        }),
{
    assert(m@.states =~= states_view(m.states@));
}

/// The view of a `while` loop is made of the views of its parts.
pub proof fn lemma_while_view(w: WhileStmt)
    ensures
        w@ == (WhileView { condition: w.condition@, body: statements_view(w.body@) }),
{
    assert(w@.body =~= statements_view(w.body@));
}

/// The view of a `for` loop is made of the views of its parts.
pub proof fn lemma_for_view(f: ForStmt)
    ensures
        f@ == (ForView {
            var_name: f.var_name@,
            iterable: f.iterable@,
            body: statements_view(f.body@),
        }),
{
    assert(f@.body =~= statements_view(f.body@));
}

/// The view of a conditional is made of the views of its parts.
pub proof fn lemma_if_view(i: IfStmt)
    ensures
        i@ == (IfView {
            condition: i.condition@,
            then_body: statements_view(i.then_body@),
            elif_clauses: elifs_view(i.elif_clauses@),
            else_body: opt_body_view(i.else_body),
        }),
{
    assert(i@.then_body =~= statements_view(i.then_body@));
    assert(i@.elif_clauses.len() == i.elif_clauses@.len());
    assert forall|k: int| 0 <= k < i.elif_clauses@.len() implies i@.elif_clauses[k] == elifs_view(
        i.elif_clauses@,
    )[k] by {
        assert(i@.elif_clauses[k].1 =~= statements_view(i.elif_clauses@[k].1@));
    }
    assert(i@.elif_clauses =~= elifs_view(i.elif_clauses@));
    match i.else_body {
        Some(b) => {
            assert(i@.else_body->0 =~= statements_view(b@));
        },
        None => {},
    }
}

/// Pushing an item onto a vector pushes its view onto the views.
pub proof fn lemma_types_push(v: Seq<TypeExpr>, x: TypeExpr)
    ensures
        types_view(v.push(x)) == types_view(v).push(x@),
{
    assert(types_view(v.push(x)) =~= types_view(v).push(x@));
}

/// Pushing an item onto a vector pushes its view onto the views.
pub proof fn lemma_params_push(v: Seq<Param>, x: Param)
    ensures
        params_view(v.push(x)) == params_view(v).push(x@),
{
    assert(params_view(v.push(x)) =~= params_view(v).push(x@));
}

/// Pushing an item onto a vector pushes its view onto the views.
pub proof fn lemma_statements_push(v: Seq<Statement>, x: Statement)
    ensures
        statements_view(v.push(x)) == statements_view(v).push(x@),
{
    assert(statements_view(v.push(x)) =~= statements_view(v).push(x@));
}

/// Pushing an item onto a vector pushes its view onto the views.
pub proof fn lemma_fns_push(v: Seq<FnDef>, x: FnDef)
    ensures
        fns_view(v.push(x)) == fns_view(v).push(x@),
{
    assert(fns_view(v.push(x)) =~= fns_view(v).push(x@));
}

/// Pushing an item onto a vector pushes its view onto the views.
pub proof fn lemma_states_push(v: Seq<StateDef>, x: StateDef)
    ensures
        states_view(v.push(x)) == states_view(v).push(x@),
{
    assert(states_view(v.push(x)) =~= states_view(v).push(x@));
}

/// Pushing an item onto a vector pushes its view onto the views.
pub proof fn lemma_elifs_push(v: Seq<(Expr, Vec<Statement>)>, x: (Expr, Vec<Statement>))
    ensures
        elifs_view(v.push(x)) == elifs_view(v).push((x.0@, statements_view(x.1@))),
{
    assert(elifs_view(v.push(x)) =~= elifs_view(v).push((x.0@, statements_view(x.1@))));
}

/// Pushing an item onto a vector pushes its view onto the views.
pub proof fn lemma_components_push(v: Seq<ComponentDef>, x: ComponentDef)
    ensures
        components_view(v.push(x)) == components_view(v).push(x@),
{
    assert(components_view(v.push(x)) =~= components_view(v).push(x@));
}

/// Pushing an item onto a vector pushes its view onto the views.
pub proof fn lemma_signals_push(v: Seq<SignalDef>, x: SignalDef)
    ensures
        signals_view(v.push(x)) == signals_view(v).push(x@),
{
    assert(signals_view(v.push(x)) =~= signals_view(v).push(x@));
}

/// Pushing an item onto a vector pushes its view onto the views.
pub proof fn lemma_var_decls_push(v: Seq<VarDecl>, x: VarDecl)
    ensures
        var_decls_view(v.push(x)) == var_decls_view(v).push(x@),
{
    assert(var_decls_view(v.push(x)) =~= var_decls_view(v).push(x@));
}

/// Pushing an item onto a vector pushes its view onto the views.
pub proof fn lemma_parts_push(v: Seq<String>, x: String)
    ensures
        parts_view(v.push(x)) == parts_view(v).push(x@),
{
    assert(parts_view(v.push(x)) =~= parts_view(v).push(x@));
}

} // verus!

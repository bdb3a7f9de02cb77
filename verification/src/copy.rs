//! Copies of syntax trees: `Clone` for every node type, each copy having
//! the view of what it was made from.
use crate::ast::{
    Arg, Assignment, ComponentDef, EmitStmt, EntityDef, Expr, FnDef, ForStmt, IfStmt, LValue,
    Param, Program, SignalDef, StateDef, StateMachine, Statement, TypeExpr, VarDecl, WhileStmt,
};
use crate::model::{
    args_view, components_view, elifs_view, entries_view, exprs_view, fns_view, opt_body_view,
    opt_expr_view, opt_type_view, params_view, parts_view, signals_view, statements_view,
    states_view, types_view, var_decls_view,
};
use vstd::prelude::*;
use vstd::string::*;

verus! {

/// A copy of an optional string.
pub fn copy_opt_string(s: &Option<String>) -> (r: Option<String>)
    ensures
        crate::model::opt_text_view(r) == crate::model::opt_text_view(*s),
{
    match s {
        Some(s) => Some(s.clone()),
        None => None,
    }
}

/// A copy of a type.
#[verifier::loop_isolation(false)]
pub fn copy_type(t: &TypeExpr) -> (r: TypeExpr)
    ensures
        r@ == t@,
    decreases t,
{
    match t {
        TypeExpr::Simple(name) => TypeExpr::Simple(name.clone()),
        TypeExpr::Generic { name, params } => {
            let mut copies: Vec<TypeExpr> = Vec::new();
            let mut i: usize = 0;
            while i < params.len()
                invariant
                    i <= params.len(),
                    types_view(copies@) =~= types_view(params@).take(i as int),
                decreases params.len() - i,
            {
                copies.push(copy_type(&params[i]));
                i += 1;
            }
            let name = name.clone();
            proof {
                crate::model::lemma_generic_view(name, copies);
                crate::model::lemma_generic_view(name, *params);
                assert(types_view(params@).take(params.len() as int) =~= types_view(params@));
            }
            TypeExpr::Generic { name, params: copies }
        },
    }
}

/// A copy of an expression.
#[verifier::loop_isolation(false)]
pub fn copy_expr(e: &Expr) -> (r: Expr)
    ensures
        r@ == e@,
    decreases e,
{
    match e {
        Expr::Int(n) => Expr::Int(*n),
        Expr::Float(s) => Expr::Float(s.clone()),
        Expr::String(s) => Expr::String(s.clone()),
        Expr::Bool(b) => Expr::Bool(*b),
        Expr::Vec2(x, y) => Expr::Vec2(Box::new(copy_expr(x)), Box::new(copy_expr(y))),
        Expr::Vec3(x, y, z) => Expr::Vec3(
            Box::new(copy_expr(x)),
            Box::new(copy_expr(y)),
            Box::new(copy_expr(z)),
        ),
        Expr::List(items) => {
            let mut copies: Vec<Expr> = Vec::new();
            let mut i: usize = 0;
            while i < items.len()
                invariant
                    i <= items.len(),
                    exprs_view(copies@) =~= exprs_view(items@).take(i as int),
                decreases items.len() - i,
            {
                copies.push(copy_expr(&items[i]));
                i += 1;
            }
            proof {
                crate::model::lemma_list_view(copies);
                crate::model::lemma_list_view(*items);
                assert(exprs_view(items@).take(items.len() as int) =~= exprs_view(items@));
            }
            Expr::List(copies)
        },
        Expr::MapLit(entries) => {
            let mut copies: Vec<(String, Expr)> = Vec::new();
            let mut i: usize = 0;
            while i < entries.len()
                invariant
                    i <= entries.len(),
                    entries_view(copies@) =~= entries_view(entries@).take(i as int),
                decreases entries.len() - i,
            {
                copies.push((entries[i].0.clone(), copy_expr(&entries[i].1)));
                i += 1;
            }
            proof {
                crate::model::lemma_map_view(copies);
                crate::model::lemma_map_view(*entries);
                assert(entries_view(entries@).take(entries.len() as int) =~= entries_view(
                    entries@,
                ));
            }
            Expr::MapLit(copies)
        },
        Expr::Identifier(s) => Expr::Identifier(s.clone()),
        Expr::MemberAccess(base, field) => Expr::MemberAccess(
            Box::new(copy_expr(base)),
            field.clone(),
        ),
        Expr::Index(base, index) => Expr::Index(
            Box::new(copy_expr(base)),
            Box::new(copy_expr(index)),
        ),
        Expr::BinaryOp(left, op, right) => Expr::BinaryOp(
            Box::new(copy_expr(left)),
            *op,
            Box::new(copy_expr(right)),
        ),
        Expr::UnaryOp(op, operand) => Expr::UnaryOp(*op, Box::new(copy_expr(operand))),
        Expr::Call { callee, args } => {
            let mut copies: Vec<Arg> = Vec::new();
            let mut i: usize = 0;
            while i < args.len()
                invariant
                    i <= args.len(),
                    args_view(copies@) =~= args_view(args@).take(i as int),
                decreases args.len() - i,
            {
                copies.push(
                    Arg { name: copy_opt_string(&args[i].name), value: copy_expr(&args[i].value) },
                );
                i += 1;
            }
            let callee_copy = Box::new(copy_expr(callee));
            proof {
                crate::model::lemma_call_view(callee_copy, copies);
                crate::model::lemma_call_view(*callee, *args);
                assert(args_view(args@).take(args.len() as int) =~= args_view(args@));
            }
            Expr::Call { callee: callee_copy, args: copies }
        },
    }
}

impl Clone for TypeExpr {
    fn clone(&self) -> (r: Self)
        ensures
            r@ == self@,
    {
        copy_type(self)
    }
}

impl Clone for Expr {
    fn clone(&self) -> (r: Self)
        ensures
            r@ == self@,
    {
        copy_expr(self)
    }
}

impl Clone for Arg {
    fn clone(&self) -> (r: Self)
        ensures
            r@ == self@,
    {
        Arg { name: copy_opt_string(&self.name), value: copy_expr(&self.value) }
    }
}

} // verus!

verus! {

/// A copy of an optional type.
pub fn copy_opt_type(t: &Option<TypeExpr>) -> (r: Option<TypeExpr>)
    ensures
        opt_type_view(r) == opt_type_view(*t),
{
    match t {
        Some(t) => Some(copy_type(t)),
        None => None,
    }
}

/// A copy of a parameter.
pub fn copy_param(p: &Param) -> (r: Param)
    ensures
        r@ == p@,
{
    Param { name: p.name.clone(), type_expr: copy_type(&p.type_expr) }
}

/// Copies of parameters.
#[verifier::loop_isolation(false)]
pub fn copy_params(v: &Vec<Param>) -> (r: Vec<Param>)
    ensures
        params_view(r@) == params_view(v@),
{
    let mut copies: Vec<Param> = Vec::new();
    let mut i: usize = 0;
    while i < v.len()
        invariant
            i <= v.len(),
            params_view(copies@) =~= params_view(v@).take(i as int),
        decreases v.len() - i,
    {
        copies.push(copy_param(&v[i]));
        i += 1;
    }
    assert(params_view(v@).take(v.len() as int) =~= params_view(v@));
    copies
}

/// A copy of a signal.
pub fn copy_signal(s: &SignalDef) -> (r: SignalDef)
    ensures
        r@ == s@,
{
    SignalDef { name: s.name.clone(), params: copy_params(&s.params) }
}

/// Copies of signals.
#[verifier::loop_isolation(false)]
pub fn copy_signals(v: &Vec<SignalDef>) -> (r: Vec<SignalDef>)
    ensures
        signals_view(r@) == signals_view(v@),
{
    let mut copies: Vec<SignalDef> = Vec::new();
    let mut i: usize = 0;
    while i < v.len()
        invariant
            i <= v.len(),
            signals_view(copies@) =~= signals_view(v@).take(i as int),
        decreases v.len() - i,
    {
        copies.push(copy_signal(&v[i]));
        i += 1;
    }
    assert(signals_view(v@).take(v.len() as int) =~= signals_view(v@));
    copies
}

/// A copy of a variable declaration.
pub fn copy_var_decl(d: &VarDecl) -> (r: VarDecl)
    ensures
        r@ == d@,
{
    VarDecl {
        name: d.name.clone(),
        type_expr: copy_opt_type(&d.type_expr),
        value: copy_expr(&d.value),
    }
}

/// Copies of variable declarations.
#[verifier::loop_isolation(false)]
pub fn copy_var_decls(v: &Vec<VarDecl>) -> (r: Vec<VarDecl>)
    ensures
        var_decls_view(r@) == var_decls_view(v@),
{
    let mut copies: Vec<VarDecl> = Vec::new();
    let mut i: usize = 0;
    while i < v.len()
        invariant
            i <= v.len(),
            var_decls_view(copies@) =~= var_decls_view(v@).take(i as int),
        decreases v.len() - i,
    {
        copies.push(copy_var_decl(&v[i]));
        i += 1;
    }
    assert(var_decls_view(v@).take(v.len() as int) =~= var_decls_view(v@));
    copies
}

/// Copies of named expressions.
#[verifier::loop_isolation(false)]
pub fn copy_entries(v: &Vec<(String, Expr)>) -> (r: Vec<(String, Expr)>)
    ensures
        entries_view(r@) == entries_view(v@),
{
    let mut copies: Vec<(String, Expr)> = Vec::new();
    let mut i: usize = 0;
    while i < v.len()
        invariant
            i <= v.len(),
            entries_view(copies@) =~= entries_view(v@).take(i as int),
        decreases v.len() - i,
    {
        copies.push((v[i].0.clone(), copy_expr(&v[i].1)));
        i += 1;
    }
    assert(entries_view(v@).take(v.len() as int) =~= entries_view(v@));
    copies
}

/// Copies of expressions.
#[verifier::loop_isolation(false)]
pub fn copy_exprs(v: &Vec<Expr>) -> (r: Vec<Expr>)
    ensures
        exprs_view(r@) == exprs_view(v@),
{
    let mut copies: Vec<Expr> = Vec::new();
    let mut i: usize = 0;
    while i < v.len()
        invariant
            i <= v.len(),
            exprs_view(copies@) =~= exprs_view(v@).take(i as int),
        decreases v.len() - i,
    {
        copies.push(copy_expr(&v[i]));
        i += 1;
    }
    assert(exprs_view(v@).take(v.len() as int) =~= exprs_view(v@));
    copies
}

/// Copies of the segments of a path.
#[verifier::loop_isolation(false)]
pub fn copy_parts(v: &Vec<String>) -> (r: Vec<String>)
    ensures
        parts_view(r@) == parts_view(v@),
{
    let mut copies: Vec<String> = Vec::new();
    let mut i: usize = 0;
    while i < v.len()
        invariant
            i <= v.len(),
            parts_view(copies@) =~= parts_view(v@).take(i as int),
        decreases v.len() - i,
    {
        copies.push(v[i].clone());
        i += 1;
    }
    assert(parts_view(v@).take(v.len() as int) =~= parts_view(v@));
    copies
}

/// A copy of a component; it is well formed where the component is.
pub fn copy_component(c: &ComponentDef) -> (r: ComponentDef)
    ensures
        r@ == c@,
        c.well_formed() ==> r.well_formed(),
{
    ComponentDef { name: c.name.clone(), fields: copy_entries(&c.fields) }
}

/// Copies of components.
#[verifier::loop_isolation(false)]
pub fn copy_components(v: &Vec<ComponentDef>) -> (r: Vec<ComponentDef>)
    ensures
        components_view(r@) == components_view(v@),
{
    let mut copies: Vec<ComponentDef> = Vec::new();
    let mut i: usize = 0;
    while i < v.len()
        invariant
            i <= v.len(),
            components_view(copies@) =~= components_view(v@).take(i as int),
        decreases v.len() - i,
    {
        copies.push(copy_component(&v[i]));
        i += 1;
    }
    assert(components_view(v@).take(v.len() as int) =~= components_view(v@));
    copies
}

/// A copy of an assignment.
pub fn copy_assignment(a: &Assignment) -> (r: Assignment)
    ensures
        r@ == a@,
{
    Assignment {
        target: LValue { parts: copy_parts(&a.target.parts) },
        op: a.op,
        value: copy_expr(&a.value),
    }
}

/// A copy of an `emit`.
pub fn copy_emit(e: &EmitStmt) -> (r: EmitStmt)
    ensures
        r@ == e@,
{
    EmitStmt { signal_name: e.signal_name.clone(), args: copy_exprs(&e.args) }
}

/// A copy of a statement.
pub fn copy_statement(s: &Statement) -> (r: Statement)
    ensures
        r@ == s@,
    decreases s, 1nat,
{
    match s {
        Statement::EntityDef(e) => Statement::EntityDef(copy_entity(e)),
        Statement::FnDef(f) => Statement::FnDef(copy_fn(f)),
        Statement::SignalDef(d) => Statement::SignalDef(copy_signal(d)),
        Statement::StateMachine(m) => Statement::StateMachine(copy_state_machine(m)),
        Statement::VarDecl(d) => Statement::VarDecl(copy_var_decl(d)),
        Statement::Assignment(a) => Statement::Assignment(copy_assignment(a)),
        Statement::If(i) => Statement::If(copy_if(i)),
        Statement::While(w) => Statement::While(copy_while(w)),
        Statement::For(f) => Statement::For(copy_for(f)),
        Statement::Return(value) => match value {
            Some(e) => Statement::Return(Some(copy_expr(e))),
            None => Statement::Return(None),
        },
        Statement::Emit(e) => Statement::Emit(copy_emit(e)),
        Statement::Expr(e) => Statement::Expr(copy_expr(e)),
    }
}

/// Copies of statements.
#[verifier::loop_isolation(false)]
pub fn copy_statements(v: &Vec<Statement>) -> (r: Vec<Statement>)
    ensures
        statements_view(r@) == statements_view(v@),
    decreases v, 0nat,
{
    let mut copies: Vec<Statement> = Vec::new();
    let mut i: usize = 0;
    while i < v.len()
        invariant
            i <= v.len(),
            statements_view(copies@) =~= statements_view(v@).take(i as int),
        decreases v.len() - i,
    {
        copies.push(copy_statement(&v[i]));
        i += 1;
    }
    assert(statements_view(v@).take(v.len() as int) =~= statements_view(v@));
    copies
}

/// A copy of a function.
pub fn copy_fn(f: &FnDef) -> (r: FnDef)
    ensures
        r@ == f@,
    decreases f, 0nat,
{
    let r = FnDef {
        name: f.name.clone(),
        is_async: f.is_async,
        params: copy_params(&f.params),
        return_type: copy_opt_type(&f.return_type),
        body: copy_statements(&f.body),
    };
    proof {
        crate::model::lemma_fn_view(r);
        crate::model::lemma_fn_view(*f);
    }
    r
}

/// Copies of functions.
#[verifier::loop_isolation(false)]
pub fn copy_fns(v: &Vec<FnDef>) -> (r: Vec<FnDef>)
    ensures
        fns_view(r@) == fns_view(v@),
    decreases v, 0nat,
{
    let mut copies: Vec<FnDef> = Vec::new();
    let mut i: usize = 0;
    while i < v.len()
        invariant
            i <= v.len(),
            fns_view(copies@) =~= fns_view(v@).take(i as int),
        decreases v.len() - i,
    {
        copies.push(copy_fn(&v[i]));
        i += 1;
    }
    assert(fns_view(v@).take(v.len() as int) =~= fns_view(v@));
    copies
}

/// A copy of an entity.
pub fn copy_entity(e: &EntityDef) -> (r: EntityDef)
    ensures
        r@ == e@,
    decreases e, 0nat,
{
    let r = EntityDef {
        name: e.name.clone(),
        components: copy_components(&e.components),
        functions: copy_fns(&e.functions),
        signals: copy_signals(&e.signals),
        variables: copy_var_decls(&e.variables),
    };
    proof {
        crate::model::lemma_entity_view(r);
        crate::model::lemma_entity_view(*e);
    }
    r
}

/// A copy of a state.
pub fn copy_state(s: &StateDef) -> (r: StateDef)
    ensures
        r@ == s@,
    decreases s, 0nat,
{
    let r = StateDef { name: s.name.clone(), body: copy_statements(&s.body) };
    proof {
        crate::model::lemma_state_view(r);
        crate::model::lemma_state_view(*s);
    }
    r
}

/// Copies of states.
#[verifier::loop_isolation(false)]
pub fn copy_states(v: &Vec<StateDef>) -> (r: Vec<StateDef>)
    ensures
        states_view(r@) == states_view(v@),
    decreases v, 0nat,
{
    let mut copies: Vec<StateDef> = Vec::new();
    let mut i: usize = 0;
    while i < v.len()
        invariant
            i <= v.len(),
            states_view(copies@) =~= states_view(v@).take(i as int),
        decreases v.len() - i,
    {
        copies.push(copy_state(&v[i]));
        i += 1;
    }
    assert(states_view(v@).take(v.len() as int) =~= states_view(v@));
    copies
}

/// A copy of a state machine.
pub fn copy_state_machine(m: &StateMachine) -> (r: StateMachine)
    ensures
        r@ == m@,
    decreases m, 0nat,
{
    let r = StateMachine {
        name: m.name.clone(),
        initial_state: copy_opt_string(&m.initial_state),
        states: copy_states(&m.states),
    };
    proof {
        crate::model::lemma_state_machine_view(r);
        crate::model::lemma_state_machine_view(*m);
    }
    r
}

/// Copies of `elif` clauses.
#[verifier::loop_isolation(false)]
pub fn copy_elifs(v: &Vec<(Expr, Vec<Statement>)>) -> (r: Vec<(Expr, Vec<Statement>)>)
    ensures
        elifs_view(r@) == elifs_view(v@),
    decreases v, 0nat,
{
    let mut copies: Vec<(Expr, Vec<Statement>)> = Vec::new();
    let mut i: usize = 0;
    while i < v.len()
        invariant
            i <= v.len(),
            elifs_view(copies@) =~= elifs_view(v@).take(i as int),
        decreases v.len() - i,
    {
        copies.push((copy_expr(&v[i].0), copy_statements(&v[i].1)));
        i += 1;
    }
    assert(elifs_view(v@).take(v.len() as int) =~= elifs_view(v@));
    copies
}

/// A copy of a conditional.
pub fn copy_if(i: &IfStmt) -> (r: IfStmt)
    ensures
        r@ == i@,
    decreases i, 0nat,
{
    let else_body = match &i.else_body {
        Some(body) => Some(copy_statements(body)),
        None => None,
    };
    let r = IfStmt {
        condition: copy_expr(&i.condition),
        then_body: copy_statements(&i.then_body),
        elif_clauses: copy_elifs(&i.elif_clauses),
        else_body,
    };
    proof {
        crate::model::lemma_if_view(r);
        crate::model::lemma_if_view(*i);
    }
    r
}

/// A copy of a `while` loop.
pub fn copy_while(w: &WhileStmt) -> (r: WhileStmt)
    ensures
        r@ == w@,
    decreases w, 0nat,
{
    let r = WhileStmt { condition: copy_expr(&w.condition), body: copy_statements(&w.body) };
    proof {
        crate::model::lemma_while_view(r);
        crate::model::lemma_while_view(*w);
    }
    r
}

/// A copy of a `for` loop.
pub fn copy_for(f: &ForStmt) -> (r: ForStmt)
    ensures
        r@ == f@,
    decreases f, 0nat,
{
    let r = ForStmt {
        var_name: f.var_name.clone(),
        iterable: copy_expr(&f.iterable),
        body: copy_statements(&f.body),
    };
    proof {
        crate::model::lemma_for_view(r);
        crate::model::lemma_for_view(*f);
    }
    r
}

impl Clone for Param {
    fn clone(&self) -> (r: Self)
        ensures
            r@ == self@,
    {
        copy_param(self)
    }
}

impl Clone for SignalDef {
    fn clone(&self) -> (r: Self)
        ensures
            r@ == self@,
    {
        copy_signal(self)
    }
}

impl Clone for VarDecl {
    fn clone(&self) -> (r: Self)
        ensures
            r@ == self@,
    {
        copy_var_decl(self)
    }
}

impl Clone for ComponentDef {
    fn clone(&self) -> (r: Self)
        ensures
            r@ == self@,
    {
        copy_component(self)
    }
}

impl Clone for Assignment {
    fn clone(&self) -> (r: Self)
        ensures
            r@ == self@,
    {
        copy_assignment(self)
    }
}

impl Clone for EmitStmt {
    fn clone(&self) -> (r: Self)
        ensures
            r@ == self@,
    {
        copy_emit(self)
    }
}

impl Clone for Statement {
    fn clone(&self) -> (r: Self)
        ensures
            r@ == self@,
    {
        copy_statement(self)
    }
}

impl Clone for FnDef {
    fn clone(&self) -> (r: Self)
        ensures
            r@ == self@,
    {
        copy_fn(self)
    }
}

impl Clone for EntityDef {
    fn clone(&self) -> (r: Self)
        ensures
            r@ == self@,
    {
        copy_entity(self)
    }
}

impl Clone for StateDef {
    fn clone(&self) -> (r: Self)
        ensures
            r@ == self@,
    {
        copy_state(self)
    }
}

impl Clone for StateMachine {
    fn clone(&self) -> (r: Self)
        ensures
            r@ == self@,
    {
        copy_state_machine(self)
    }
}

impl Clone for IfStmt {
    fn clone(&self) -> (r: Self)
        ensures
            r@ == self@,
    {
        copy_if(self)
    }
}

impl Clone for WhileStmt {
    fn clone(&self) -> (r: Self)
        ensures
            r@ == self@,
    {
        copy_while(self)
    }
}

impl Clone for ForStmt {
    fn clone(&self) -> (r: Self)
        ensures
            r@ == self@,
    {
        copy_for(self)
    }
}

impl Clone for LValue {
    fn clone(&self) -> (r: Self)
        ensures
            r@ == self@,
    {
        LValue { parts: copy_parts(&self.parts) }
    }
}

impl Clone for Program {
    fn clone(&self) -> (r: Self)
        ensures
            r@ == self@,
    {
        Program { statements: copy_statements(&self.statements) }
    }
}

} // verus!

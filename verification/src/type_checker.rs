//! Best-effort type inference over expressions. Inference never fails:
//! where nothing can be said of an expression the result is `None`.
use crate::ast::{BinaryOp, Expr, TypeExpr, UnaryOp};
use crate::model::{opt_type_view, types_view, ExprView, TypeView};
use crate::text::str_eq;
use vstd::prelude::*;
use vstd::string::*;

verus! {

/// Whether `t` is the simple type named `name`.
pub open spec fn is_simple(t: TypeView, name: Seq<char>) -> bool {
    t == TypeView::Simple(name)
}

/// Whether an operator is arithmetic: its result type depends on the types
/// of its operands.
pub open spec fn is_arithmetic(op: BinaryOp) -> bool {
    op == BinaryOp::Add || op == BinaryOp::Sub || op == BinaryOp::Mul || op == BinaryOp::Div || op
        == BinaryOp::Mod
}

/// Whether an inferred type is known and is the simple type named
/// `name`.
pub open spec fn has_type(t: Option<TypeView>, name: Seq<char>) -> bool {
    t == Some(TypeView::Simple(name))
}

/// The result type of an arithmetic operator on operands of the inferred
/// types `left` and `right`, each of which may be unknown: `float` if
/// either is `float`; else `int` if both are `int`; else `str` if the
/// operator is `+` and either is `str`; else `Vec2` if either is `Vec2`;
/// else unknown. The first rule that applies decides, whatever the other
/// operand is.
pub open spec fn promote(op: BinaryOp, left: Option<TypeView>, right: Option<TypeView>) -> Option<
    TypeView,
> {
    if has_type(left, "float"@) || has_type(right, "float"@) {
        Some(TypeView::Simple("float"@))
    } else if has_type(left, "int"@) && has_type(right, "int"@) {
        Some(TypeView::Simple("int"@))
    } else if op == BinaryOp::Add && (has_type(left, "str"@) || has_type(right, "str"@)) {
        Some(TypeView::Simple("str"@))
    } else if has_type(left, "Vec2"@) || has_type(right, "Vec2"@) {
        Some(TypeView::Simple("Vec2"@))
    } else {
        None
    }
}

/// The type of a call, known only for the constructors `Vec2`, `Vec3` and
/// `Color` called by name.
pub open spec fn infer_call(callee: ExprView) -> Option<TypeView> {
    match callee {
        ExprView::Identifier(name) => {
            if name == "Vec2"@ {
                Some(TypeView::Simple("Vec2"@))
            } else if name == "Vec3"@ {
                Some(TypeView::Simple("Vec3"@))
            } else if name == "Color"@ {
                Some(TypeView::Simple("Color"@))
            } else {
                None
            }
        },
        _ => None,
    }
}

/// The inferred type of an expression, `None` where it is unknown.
pub open spec fn infer(e: ExprView) -> Option<TypeView>
    decreases e,
{
    match e {
        ExprView::Int(_) => Some(TypeView::Simple("int"@)),
        ExprView::Float(_) => Some(TypeView::Simple("float"@)),
        ExprView::String(_) => Some(TypeView::Simple("str"@)),
        ExprView::Bool(_) => Some(TypeView::Simple("bool"@)),
        ExprView::Vec2(_, _) => Some(TypeView::Simple("Vec2"@)),
        ExprView::Vec3(_, _, _) => Some(TypeView::Simple("Vec3"@)),
        ExprView::List(_) => Some(
            TypeView::Generic { name: "List"@, params: seq![TypeView::Simple("Any"@)] },
        ),
        ExprView::MapLit(_) => Some(
            TypeView::Generic {
                name: "Map"@,
                params: seq![TypeView::Simple("str"@), TypeView::Simple("Any"@)],
            },
        ),
        ExprView::UnaryOp(op, _) => match op {
            UnaryOp::Not => Some(TypeView::Simple("bool"@)),
            UnaryOp::Neg => Some(TypeView::Simple("float"@)),
        },
        ExprView::BinaryOp(left, op, right) => {
            if is_arithmetic(op) {
                promote(op, infer(*left), infer(*right))
            } else {
                Some(TypeView::Simple("bool"@))
            }
        },
        ExprView::Call { callee, args } => infer_call(*callee),
        _ => None,
    }
}

/// The promotion order of arithmetic, for operands of any inferred
/// types, known or not: `float` on either side decides; failing that,
/// `int` on both sides; failing that, `str` on either side of a `+`;
/// failing that, `Vec2` on either side; and failing all of these, the
/// result is unknown.
pub proof fn lemma_promotion_order(left: ExprView, op: BinaryOp, right: ExprView)
    requires
        is_arithmetic(op),
    ensures
        ({
            let result = infer(ExprView::BinaryOp(Box::new(left), op, Box::new(right)));
            let l = infer(left);
            let r = infer(right);
            let any_float = has_type(l, "float"@) || has_type(r, "float"@);
            let both_int = has_type(l, "int"@) && has_type(r, "int"@);
            let any_str = op == BinaryOp::Add && (has_type(l, "str"@) || has_type(r, "str"@));
            let any_vec2 = has_type(l, "Vec2"@) || has_type(r, "Vec2"@);
            &&& any_float ==> result == Some(TypeView::Simple("float"@))
            &&& !any_float && both_int ==> result == Some(TypeView::Simple("int"@))
            &&& !any_float && !both_int && any_str ==> result == Some(TypeView::Simple("str"@))
            &&& !any_float && !both_int && !any_str && any_vec2 ==> result == Some(
                TypeView::Simple("Vec2"@),
            )
            &&& !any_float && !both_int && !any_str && !any_vec2 ==> result is None
        }),
{
}

/// A `float` operand decides the type of an arithmetic operation, also
/// where nothing is known of the other operand.
pub proof fn lemma_float_dominates(left: ExprView, op: BinaryOp, right: ExprView)
    requires
        is_arithmetic(op),
        has_type(infer(left), "float"@) || has_type(infer(right), "float"@),
    ensures
        infer(ExprView::BinaryOp(Box::new(left), op, Box::new(right))) == Some(
            TypeView::Simple("float"@),
        ),
{
}

/// Comparisons and logical operators are always of type `bool`.
pub proof fn lemma_comparison_is_bool(left: ExprView, op: BinaryOp, right: ExprView)
    requires
        !is_arithmetic(op),
    ensures
        infer(ExprView::BinaryOp(Box::new(left), op, Box::new(right))) == Some(
            TypeView::Simple("bool"@),
        ),
{
}

/// Whether `t` is the simple type named `name`.
pub fn is_type(t: &TypeExpr, name: &str) -> (r: bool)
    ensures
        r == is_simple(t@, name@),
{
    match t {
        TypeExpr::Simple(s) => str_eq(s.as_str(), name),
        _ => false,
    }
}

/// Whether an inferred type is known and is the simple type named
/// `name`.
fn has(t: &Option<TypeExpr>, name: &str) -> (r: bool)
    ensures
        r == has_type(opt_type_view(*t), name@),
{
    match t {
        Some(t) => is_type(t, name),
        None => false,
    }
}

fn simple_type(name: &str) -> (t: TypeExpr)
    ensures
        t@ == TypeView::Simple(name@),
{
    TypeExpr::Simple(String::from_str(name))
}

fn is_arithmetic_op(op: BinaryOp) -> (r: bool)
    ensures
        r == is_arithmetic(op),
{
    op == BinaryOp::Add || op == BinaryOp::Sub || op == BinaryOp::Mul || op == BinaryOp::Div || op
        == BinaryOp::Mod
}

/// Infers the type of an expression, `None` where it is unknown.
pub fn infer_type(expr: &Expr) -> (t: Option<TypeExpr>)
    ensures
        opt_type_view(t) == infer(expr@),
    decreases expr,
{
    match expr {
        Expr::Int(_) => Some(simple_type("int")),
        Expr::Float(_) => Some(simple_type("float")),
        Expr::String(_) => Some(simple_type("str")),
        Expr::Bool(_) => Some(simple_type("bool")),
        Expr::Vec2(_, _) => Some(simple_type("Vec2")),
        Expr::Vec3(_, _, _) => Some(simple_type("Vec3")),
        Expr::List(_) => {
            let name = String::from_str("List");
            let mut params: Vec<TypeExpr> = Vec::new();
            params.push(simple_type("Any"));
            proof {
                crate::model::lemma_generic_view(name, params);
                assert(types_view(params@) =~= seq![TypeView::Simple("Any"@)]);
            }
            Some(TypeExpr::Generic { name, params })
        },
        Expr::MapLit(_) => {
            let name = String::from_str("Map");
            let mut params: Vec<TypeExpr> = Vec::new();
            params.push(simple_type("str"));
            params.push(simple_type("Any"));
            proof {
                crate::model::lemma_generic_view(name, params);
                assert(types_view(params@) =~= seq![
                    TypeView::Simple("str"@),
                    TypeView::Simple("Any"@),
                ]);
            }
            Some(TypeExpr::Generic { name, params })
        },
        Expr::UnaryOp(op, _) => match op {
            UnaryOp::Not => Some(simple_type("bool")),
            UnaryOp::Neg => Some(simple_type("float")),
        },
        Expr::BinaryOp(left, op, right) => {
            if is_arithmetic_op(*op) {
                let left_type = infer_type(left);
                let right_type = infer_type(right);
                assert(infer(expr@) == promote(*op, infer(left@), infer(right@)));
                if has(&left_type, "float") || has(&right_type, "float") {
                    Some(simple_type("float"))
                } else if has(&left_type, "int") && has(&right_type, "int") {
                    Some(simple_type("int"))
                } else if *op == BinaryOp::Add && (has(&left_type, "str") || has(
                    &right_type,
                    "str",
                )) {
                    Some(simple_type("str"))
                } else if has(&left_type, "Vec2") || has(&right_type, "Vec2") {
                    Some(simple_type("Vec2"))
                } else {
                    None
                }
            } else {
                Some(simple_type("bool"))
            }
        },
        Expr::Call { callee, args } => {
            assert(infer(expr@) == infer_call(callee@));
            match &**callee {
                Expr::Identifier(name) => {
                    if str_eq(name.as_str(), "Vec2") {
                        Some(simple_type("Vec2"))
                    } else if str_eq(name.as_str(), "Vec3") {
                        Some(simple_type("Vec3"))
                    } else if str_eq(name.as_str(), "Color") {
                        Some(simple_type("Color"))
                    } else {
                        None
                    }
                },
                _ => None,
            }
        },
        _ => None,
    }
}

} // verus!

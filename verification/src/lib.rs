//! NexScript: a small scripting language for game entities, compiled to
//! source text for an entity-component runtime.
//!
//! The pipeline is linear: source text is rewritten so that indentation
//! becomes explicit block markers, the marked text is parsed into a
//! rule-tagged tree, the tree is lowered into a typed syntax tree, and the
//! syntax tree is rendered as target source text.
use vstd::prelude::*;

pub mod ast;
pub mod ast_builder;
pub mod codegen;
pub mod copy;
pub mod error;
pub mod grammar;
pub mod model;
pub mod parser;
pub mod peg;
pub mod preprocess;
pub mod text;
pub mod tree;
pub mod type_checker;

pub use crate::ast::{
    Arg, AssignOp, Assignment, BinaryOp, ComponentDef, EmitStmt, EntityDef, Expr, FnDef, ForStmt,
    IfStmt, LValue, Param, Program, SignalDef, StateDef, StateMachine, Statement, TypeExpr,
    UnaryOp, VarDecl, WhileStmt,
};
pub use crate::ast_builder::{build_ast, parse_binary_op};
pub use crate::codegen::{
    transpile, transpile_entity, transpile_entity_with, transpile_expr, transpile_function,
    transpile_lvalue, transpile_ready_system, transpile_ready_system_with, transpile_statement,
    transpile_statement_in_system, transpile_type, transpile_update_system,
    transpile_update_system_with,
};
pub use crate::error::NexScriptError;
pub use crate::parser::{NexScriptParser, SyntaxError};
pub use crate::preprocess::preprocess_indentation;
pub use crate::tree::{ParseNode, Rule};
pub use crate::type_checker::{infer_type, is_type};

verus! {

/// What parsing a source gives: the program, or the line and the message
/// of the syntax error.
pub ghost enum ParseView {
    Program(crate::model::ProgramView),
    Failure { line: int, message: Seq<char> },
}

/// What parsing `source` gives. The source is preprocessed, the marked
/// text is matched against the rule of a whole program, and the parse tree
/// is lowered. Where the text does not match, the error names the line of
/// the furthest position that the parser reached.
pub open spec fn parse_text(source: Seq<char>) -> ParseView {
    let marked = crate::preprocess::preprocess_text(source);
    let outcome = crate::parser::parse_outcome(Rule::Program, marked);
    if outcome.ok {
        ParseView::Program(crate::ast_builder::lower_program(outcome.nodes))
    } else {
        ParseView::Failure {
            line: crate::parser::line_number(marked, outcome.far),
            message: crate::parser::syntax_message(
                crate::parser::column_number(marked, outcome.far),
            ),
        }
    }
}

/// Parses a source into its program. A source that does not conform to the
/// grammar gives a parse error with its line, and no program.
pub fn parse(source: &str) -> (r: Result<Program, NexScriptError>)
    ensures
        match r {
            Ok(program) => parse_text(source@) == ParseView::Program(program@),
            Err(e) => e matches NexScriptError::ParseError { line, message } && parse_text(source@)
                == (ParseView::Failure { line: line as int, message: message@ }),
        },
{
    let preprocessed = preprocess_indentation(source);
    match NexScriptParser::parse(Rule::Program, preprocessed.as_str()) {
        Ok(pairs) => Ok(build_ast(&pairs)),
        Err(e) => Err(NexScriptError::ParseError { line: e.line, message: e.message() }),
    }
}

} // verus!

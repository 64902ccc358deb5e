//! Expression nodes: identifiers and literals, with their emission text and
//! their inferred types.

use vstd::prelude::*;
use vstd::string::StringExecFns;
use crate::codegen::{Codegen, EmitAdditionalData, EmitError};
use crate::context::Context;
use crate::identifiers::IdentifierTerm;
use crate::inference::{ToType, Type, TypeInferenceMap};

verus! {

/// An expression: an identifier or a literal.  Expressions are immutable,
/// already-parsed facts; literal nodes keep the lexeme of their token.
pub enum Expression {
    Identifier(Box<IdentifierTerm>),
    StringLiteral(String),
    IntegerLiteral(String),
    BooleanLiteral(bool),
}

/// The text an expression emits: the identifier's text, a string literal in
/// double quotes, an integer literal's lexeme, or `true`/`false`.
pub open spec fn expr_text(e: Expression) -> Seq<char> {
    match e {
        Expression::Identifier(term) => term.text@,
        Expression::StringLiteral(s) => "\""@ + s@ + "\""@,
        Expression::IntegerLiteral(s) => s@,
        Expression::BooleanLiteral(b) => if b {
            "true"@
        } else {
            "false"@
        },
    }
}

impl Codegen for Expression {
    open spec fn emit_spec(&self, context: &Context) -> Seq<char> {
        expr_text(*self)
    }

    fn emit(&self, context: &Context, output: &mut String, data: &Option<EmitAdditionalData>) -> (r: Result<(), EmitError>) {
        let ghost pre = output@;
        match self {
            Expression::Identifier(term) => {
                term.emit(context, output, data)?;
            },
            Expression::StringLiteral(s) => {
                output.append("\"");
                output.append(s.as_str());
                output.append("\"");
            },
            Expression::IntegerLiteral(s) => {
                output.append(s.as_str());
            },
            Expression::BooleanLiteral(b) => {
                if *b {
                    output.append("true");
                } else {
                    output.append("false");
                }
            },
        }
        proof {
            assert(output@ =~= pre + expr_text(*self));
        }
        Ok(())
    }

    fn emit_join(&self, context: &Context, output: &mut String, join_str: &'static str, data: &Option<EmitAdditionalData>) -> (r: Result<(), EmitError>) {
        self.emit(context, output, data)
    }
}

impl ToType for IdentifierTerm {
    /// An identifier has the type the caller's map records for it.
    open spec fn resulting_type_spec(&self, context: &Context, map: &TypeInferenceMap) -> Type {
        map.lookup(self.text@)
    }

    fn resulting_type(&self, context: &Context, map: &TypeInferenceMap) -> (t: Type) {
        match map.get(&self.text) {
            Some(t) => t.clone(),
            None => Type::Unknown,
        }
    }
}

impl ToType for Expression {
    /// Literals carry their own type; an identifier is resolved through the
    /// caller's map.
    open spec fn resulting_type_spec(&self, context: &Context, map: &TypeInferenceMap) -> Type {
        match self {
            Expression::Identifier(term) => map.lookup(term.text@),
            Expression::StringLiteral(_) => Type::String,
            Expression::IntegerLiteral(_) => Type::Int,
            Expression::BooleanLiteral(_) => Type::Bool,
        }
    }

    fn resulting_type(&self, context: &Context, map: &TypeInferenceMap) -> (t: Type) {
        match self {
            Expression::Identifier(term) => (&**term).resulting_type(context, map),
            Expression::StringLiteral(_) => Type::String,
            Expression::IntegerLiteral(_) => Type::Int,
            Expression::BooleanLiteral(_) => Type::Bool,
        }
    }
}

} // verus!

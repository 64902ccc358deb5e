//! Function declarations: scope-introducing nodes that own the `Context` of
//! their body and emit it under the `Function` scope policy.

use vstd::prelude::*;
use vstd::string::StringExecFns;
use crate::codegen::{names_join, Codegen, EmitAdditionalData, EmitError};
use crate::context::{Context, ContextType};
use crate::identifiers::{lemma_typed_identifier_join, typed_identifier_text, TypedIdentifier};
use crate::variables::{assignment_text, var_decl_text, VariableDeclarationOrAssignment};

verus! {

/// A function declaration: its name, parameters, body statements, and its
/// own `Context`.  The node creates the context; the context-building pass
/// fills it and hoists the body's declarations into the enclosing class.
pub struct FunctionDeclaration {
    pub name: String,
    pub parameters: Vec<TypedIdentifier>,
    pub body_statements: Vec<VariableDeclarationOrAssignment>,
    pub context: Context,
}

/// The parameter list's text: the typed identifiers joined by `", "`.
pub open spec fn params_text(params: Seq<TypedIdentifier>) -> Seq<char> {
    names_join(params.map_values(|d: TypedIdentifier| typed_identifier_text(d.model())), ", "@)
}

/// The text of one body statement: a declaration under the given scope
/// policy, or an assignment terminated by `;`.
pub open spec fn fn_stmt_text(s: VariableDeclarationOrAssignment, ct: ContextType) -> Seq<char> {
    match s {
        VariableDeclarationOrAssignment::Declaration(d) => var_decl_text(d, ct),
        VariableDeclarationOrAssignment::Assignement(a) => assignment_text(a) + ";\n"@,
    }
}

/// The text of a function body: its statements in order, each under the
/// function's own scope policy.
pub open spec fn fn_body_text(stmts: Seq<VariableDeclarationOrAssignment>, ct: ContextType) -> Seq<char>
    decreases stmts.len(),
{
    if stmts.len() == 0 {
        Seq::<char>::empty()
    } else {
        fn_body_text(stmts.drop_last(), ct) + fn_stmt_text(stmts.last(), ct)
    }
}

/// The whole text a function declaration emits.  The body is emitted against
/// the function's own context, so its declarations follow the `Function`
/// scope policy once the context-building pass has run.
pub open spec fn fn_text(f: FunctionDeclaration) -> Seq<char> {
    "function "@ + f.name@ + "("@ + params_text(f.parameters@) + ") {\n"@ + fn_body_text(
        f.body_statements@,
        f.context.context_type,
    ) + "}"@
}

impl Codegen for FunctionDeclaration {
    open spec fn emit_spec(&self, context: &Context) -> Seq<char> {
        fn_text(*self)
    }

    fn emit(&self, context: &Context, output: &mut String, data: &Option<EmitAdditionalData>) -> (r: Result<(), EmitError>) {
        let ghost pre = output@;
        output.append("function ");
        output.append(self.name.as_str());
        output.append("(");
        self.parameters.emit_join(context, output, ", ", data)?;
        proof {
            lemma_typed_identifier_join(self.parameters@, context, ", "@);
        }
        output.append(") {\n");
        let ghost mid = output@;
        let ghost ct = self.context.context_type;
        let mut i: usize = 0;
        while i < self.body_statements.len()
            invariant
                i <= self.body_statements@.len(),
                ct == self.context.context_type,
                output@ == mid + fn_body_text(self.body_statements@.take(i as int), ct),
            decreases self.body_statements@.len() - i,
        {
            match &self.body_statements[i] {
                VariableDeclarationOrAssignment::Declaration(d) => {
                    d.emit(&self.context, output, data)?;
                },
                VariableDeclarationOrAssignment::Assignement(a) => {
                    a.emit(&self.context, output, data)?;
                    output.append(";\n");
                },
            }
            proof {
                assert(self.body_statements@.take(i + 1 as int).drop_last()
                    =~= self.body_statements@.take(i as int));
                assert(self.body_statements@.take(i + 1 as int).last() == self.body_statements@[
                    i as int
                ]);
                assert(output@ =~= mid + fn_body_text(
                    self.body_statements@.take(i + 1 as int),
                    ct,
                ));
            }
            i = i + 1;
        }
        output.append("}");
        proof {
            assert(self.body_statements@.take(self.body_statements@.len() as int)
                =~= self.body_statements@);
            assert(output@ =~= pre + fn_text(*self));
        }
        Ok(())
    }

    fn emit_join(&self, context: &Context, output: &mut String, join_str: &'static str, data: &Option<EmitAdditionalData>) -> (r: Result<(), EmitError>) {
        self.emit(context, output, data)
    }
}

} // verus!

//! Variable assignments and declarations, and the scope-dependent emission
//! policy for declarations.
//!
//! At `Global` or `ClassOrStruct` scope a declaration emits a field line,
//! followed by one `default <name> = <expr>;` statement per declared name
//! when it carries an initializer.  At `Function` scope it emits no field
//! line at all — the field was hoisted to the enclosing class context by the
//! context-building pass — but one plain `<name> = <expr>;` assignment per
//! declared name at the declaration's original position, and nothing when it
//! has no initializer.

use vstd::prelude::*;
use vstd::string::StringExecFns;
use std::rc::Rc;
use crate::codegen::{Codegen, EmitAdditionalData, EmitError};
use crate::context::{Context, ContextType};
use crate::expressions::{expr_text, Expression};
use crate::identifiers::{typed_identifier_text, IdentifierTerm, TypedIdentifier};

verus! {

/// The operator of an assignment statement.
pub enum AssignmentType {
    Equal,
    PlusEqual,
    MinusEqual,
}

/// The operator's text.
pub open spec fn assign_op_text(op: AssignmentType) -> Seq<char> {
    match op {
        AssignmentType::Equal => "="@,
        AssignmentType::PlusEqual => "+="@,
        AssignmentType::MinusEqual => "-="@,
    }
}

impl Codegen for AssignmentType {
    open spec fn emit_spec(&self, context: &Context) -> Seq<char> {
        assign_op_text(*self)
    }

    fn emit(&self, context: &Context, output: &mut String, data: &Option<EmitAdditionalData>) -> (r: Result<(), EmitError>) {
        match self {
            AssignmentType::Equal => output.append("="),
            AssignmentType::PlusEqual => output.append("+="),
            AssignmentType::MinusEqual => output.append("-="),
        }
        Ok(())
    }

    fn emit_join(&self, context: &Context, output: &mut String, join_str: &'static str, data: &Option<EmitAdditionalData>) -> (r: Result<(), EmitError>) {
        self.emit(context, output, data)
    }
}

/// An assignment: a target identifier, an operator, and the assigned
/// expression.  The expression is shared, so a declaration and a later
/// default-value statement can read the same subtree.
pub struct VariableAssignment {
    pub variable_name: Box<IdentifierTerm>,
    pub assignment_type: AssignmentType,
    pub following_expression: Rc<Expression>,
}

/// The text an assignment emits: `<target> <op> <expr>`, with no terminator;
/// the surrounding statement supplies it.
pub open spec fn assignment_text(a: VariableAssignment) -> Seq<char> {
    (*a.variable_name).text@ + " "@ + assign_op_text(a.assignment_type) + " "@ + expr_text(
        *a.following_expression,
    )
}

impl Codegen for VariableAssignment {
    open spec fn emit_spec(&self, context: &Context) -> Seq<char> {
        assignment_text(*self)
    }

    fn emit(&self, context: &Context, output: &mut String, data: &Option<EmitAdditionalData>) -> (r: Result<(), EmitError>) {
        let ghost pre = output@;
        self.variable_name.emit(context, output, data)?;
        output.append(" ");
        self.assignment_type.emit(context, output, data)?;
        output.append(" ");
        self.following_expression.emit(context, output, data)?;
        proof {
            assert(output@ =~= pre + assignment_text(*self));
        }
        Ok(())
    }

    fn emit_join(&self, context: &Context, output: &mut String, join_str: &'static str, data: &Option<EmitAdditionalData>) -> (r: Result<(), EmitError>) {
        self.emit(context, output, data)
    }
}

/// A declaration: a typed identifier and an optional initializer expression.
/// The same record is read once when the enclosing class's field block is
/// emitted and again, under the scope-dependent policy, at its original
/// position.
pub struct VariableDeclaration {
    pub declaration: TypedIdentifier,
    pub following_expression: Option<Rc<Expression>>,
}

/// One `<name> = <expr>;` line per name, in declaration order.
pub open spec fn assignment_statement_lines(names: Seq<Seq<char>>, expr: Seq<char>) -> Seq<char>
    decreases names.len(),
{
    if names.len() == 0 {
        Seq::<char>::empty()
    } else {
        assignment_statement_lines(names.drop_last(), expr) + names.last() + " = "@ + expr
            + ";\n"@
    }
}

/// One `default <name> = <expr>;` line per name, in declaration order.
pub open spec fn default_statement_lines(names: Seq<Seq<char>>, expr: Seq<char>) -> Seq<char>
    decreases names.len(),
{
    if names.len() == 0 {
        Seq::<char>::empty()
    } else {
        default_statement_lines(names.drop_last(), expr) + "default "@ + names.last() + " = "@
            + expr + ";\n"@
    }
}

/// The scope-dependent text of a declaration (see the module description).
pub open spec fn var_decl_text(d: VariableDeclaration, ct: ContextType) -> Seq<char> {
    match ct {
        ContextType::Function => match d.following_expression {
            Some(e) => assignment_statement_lines(d.declaration.model().names, expr_text(*e)),
            None => Seq::<char>::empty(),
        },
        _ => "var "@ + typed_identifier_text(d.declaration.model()) + ";\n"@ + match d
            .following_expression {
            Some(e) => default_statement_lines(d.declaration.model().names, expr_text(*e)),
            None => Seq::<char>::empty(),
        },
    }
}

impl Codegen for VariableDeclaration {
    open spec fn emit_spec(&self, context: &Context) -> Seq<char> {
        var_decl_text(*self, context.context_type)
    }

    fn emit(&self, context: &Context, output: &mut String, data: &Option<EmitAdditionalData>) -> (r: Result<(), EmitError>) {
        let ghost pre = output@;
        let ghost names = self.declaration.model().names;
        match context.context_type {
            ContextType::Function => {
                if let Some(e) = &self.following_expression {
                    let ghost expr = (**e).emit_spec(context);
                    let mut j: usize = 0;
                    while j < self.declaration.names.len()
                        invariant
                            j <= names.len(),
                            names == self.declaration.model().names,
                            expr == (**e).emit_spec(context),
                            names.len() == self.declaration.names@.len(),
                            output@ == pre + assignment_statement_lines(
                                names.take(j as int),
                                expr,
                            ),
                        decreases self.declaration.names@.len() - j,
                    {
                        output.append(self.declaration.names[j].as_str());
                        output.append(" = ");
                        e.emit(context, output, data)?;
                        output.append(";\n");
                        proof {
                            assert(names.take(j + 1 as int).drop_last() =~= names.take(
                                j as int,
                            ));
                            assert(names.take(j + 1 as int).last() == self.declaration.names@[
                                j as int
                            ]@);
                            assert(output@ =~= pre + assignment_statement_lines(
                                names.take(j + 1 as int),
                                expr,
                            ));
                        }
                        j = j + 1;
                    }
                    proof {
                        assert(names.take(names.len() as int) =~= names);
                    }
                }
                proof {
                    assert(output@ =~= pre + var_decl_text(*self, context.context_type));
                }
            },
            _ => {
                output.append("var ");
                self.declaration.emit(context, output, data)?;
                output.append(";\n");
                let ghost mid = output@;
                if let Some(e) = &self.following_expression {
                    let ghost expr = (**e).emit_spec(context);
                    let mut j: usize = 0;
                    while j < self.declaration.names.len()
                        invariant
                            j <= names.len(),
                            names == self.declaration.model().names,
                            expr == (**e).emit_spec(context),
                            names.len() == self.declaration.names@.len(),
                            output@ == mid + default_statement_lines(names.take(j as int), expr),
                        decreases self.declaration.names@.len() - j,
                    {
                        output.append("default ");
                        output.append(self.declaration.names[j].as_str());
                        output.append(" = ");
                        e.emit(context, output, data)?;
                        output.append(";\n");
                        proof {
                            assert(names.take(j + 1 as int).drop_last() =~= names.take(
                                j as int,
                            ));
                            assert(names.take(j + 1 as int).last() == self.declaration.names@[
                                j as int
                            ]@);
                            assert(output@ =~= mid + default_statement_lines(
                                names.take(j + 1 as int),
                                expr,
                            ));
                        }
                        j = j + 1;
                    }
                    proof {
                        assert(names.take(names.len() as int) =~= names);
                    }
                }
                proof {
                    assert(output@ =~= pre + var_decl_text(*self, context.context_type));
                }
            },
        }
        Ok(())
    }

    fn emit_join(&self, context: &Context, output: &mut String, join_str: &'static str, data: &Option<EmitAdditionalData>) -> (r: Result<(), EmitError>) {
        self.emit(context, output, data)
    }
}

/// Law: scope-dependent variable policy.  At `Function` scope a declaration
/// emits no field line at all: with an initializer it emits exactly one
/// plain assignment statement per declared name, and without one it emits
/// nothing — the field line for each name is produced once, at class scope,
/// by the enclosing class's deduplicating field block.  At class scope the
/// declaration emits its field line and then one `default` statement per
/// name when it has an initializer.
pub proof fn lemma_scope_dependent_policy(d: VariableDeclaration)
    ensures
        d.following_expression is Some ==> var_decl_text(d, ContextType::Function)
            == assignment_statement_lines(
            d.declaration.model().names,
            expr_text(*d.following_expression.unwrap()),
        ),
        d.following_expression is None ==> var_decl_text(d, ContextType::Function) == Seq::<
            char,
        >::empty(),
        d.following_expression is Some ==> var_decl_text(d, ContextType::ClassOrStruct) == "var "@
            + typed_identifier_text(d.declaration.model()) + ";\n"@ + default_statement_lines(
            d.declaration.model().names,
            expr_text(*d.following_expression.unwrap()),
        ),
        d.following_expression is None ==> var_decl_text(d, ContextType::ClassOrStruct) == "var "@
            + typed_identifier_text(d.declaration.model()) + ";\n"@,
{
    if d.following_expression is None {
        assert(var_decl_text(d, ContextType::ClassOrStruct) =~= "var "@ + typed_identifier_text(
            d.declaration.model(),
        ) + ";\n"@);
    }
}

/// Either a declaration or an assignment, as function bodies hold them.
pub enum VariableDeclarationOrAssignment {
    Declaration(VariableDeclaration),
    Assignement(VariableAssignment),
}

/// The text of a declaration-or-assignment under the given scope kind.
pub open spec fn decl_or_assign_text(s: VariableDeclarationOrAssignment, ct: ContextType) -> Seq<char> {
    match s {
        VariableDeclarationOrAssignment::Declaration(d) => var_decl_text(d, ct),
        VariableDeclarationOrAssignment::Assignement(a) => assignment_text(a),
    }
}

impl Codegen for VariableDeclarationOrAssignment {
    open spec fn emit_spec(&self, context: &Context) -> Seq<char> {
        decl_or_assign_text(*self, context.context_type)
    }

    fn emit(&self, context: &Context, output: &mut String, data: &Option<EmitAdditionalData>) -> (r: Result<(), EmitError>) {
        match self {
            VariableDeclarationOrAssignment::Declaration(d) => d.emit(context, output, data),
            VariableDeclarationOrAssignment::Assignement(a) => a.emit(context, output, data),
        }
    }

    fn emit_join(&self, context: &Context, output: &mut String, join_str: &'static str, data: &Option<EmitAdditionalData>) -> (r: Result<(), EmitError>) {
        self.emit(context, output, data)
    }
}

} // verus!

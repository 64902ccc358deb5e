//! The context-building pass: walks a class declaration, gives the class and
//! each of its methods their own `Context`, records every variable
//! declaration in the scope that lexically holds it, and hoists each
//! function-local declaration into the enclosing class context so the class
//! can later emit it as a field.
//!
//! Scope isolation holds by construction: a function's context records
//! exactly the declarations of its own body, and the class context receives
//! a nested declaration only through the explicit hoist below — never by a
//! descent leaking records across a scope boundary.

use vstd::prelude::*;
use std::mem::swap;
use crate::classes::{ClassBodyStatement, ClassDeclaration};
use crate::context::{decl_models, Context, ContextType};
use crate::functions::FunctionDeclaration;
use crate::identifiers::DeclModel;
use crate::variables::VariableDeclarationOrAssignment;

verus! {

/// The declaration models a function body records into its own context:
/// exactly the declarations lexically inside that body, in order.
pub open spec fn fn_recorded_models(stmts: Seq<VariableDeclarationOrAssignment>) -> Seq<DeclModel>
    decreases stmts.len(),
{
    if stmts.len() == 0 {
        Seq::<DeclModel>::empty()
    } else {
        fn_recorded_models(stmts.drop_last()) + match stmts.last() {
            VariableDeclarationOrAssignment::Declaration(d) => seq![d.declaration.model()],
            VariableDeclarationOrAssignment::Assignement(a) => Seq::<DeclModel>::empty(),
        }
    }
}

/// The declaration models hoisted into a class context: the function-local
/// declarations of every method body, in body order.  Properties and
/// `default` statements hoist nothing; their records stay on their nodes.
pub open spec fn class_hoisted_models(stmts: Seq<ClassBodyStatement>) -> Seq<DeclModel>
    decreases stmts.len(),
{
    if stmts.len() == 0 {
        Seq::<DeclModel>::empty()
    } else {
        class_hoisted_models(stmts.drop_last()) + match stmts.last() {
            ClassBodyStatement::Method { encapsulation, function_declaration } =>
                fn_recorded_models((*function_declaration).body_statements@),
            ClassBodyStatement::Property { encapsulation, property_declaration } => Seq::<
                DeclModel,
            >::empty(),
            ClassBodyStatement::DefaultValue(a) => Seq::<DeclModel>::empty(),
        }
    }
}

/// How one class body statement comes out of the pass: a method's function
/// gets its own freshly built `Function` context holding exactly its body's
/// declarations, and everything else is untouched.
pub open spec fn stmt_built(before: ClassBodyStatement, after: ClassBodyStatement) -> bool {
    match (before, after) {
        (
            ClassBodyStatement::Method { encapsulation: e1, function_declaration: f1 },
            ClassBodyStatement::Method { encapsulation: e2, function_declaration: f2 },
        ) => {
            &&& e2 == e1
            &&& (*f2).name == (*f1).name
            &&& (*f2).parameters == (*f1).parameters
            &&& (*f2).body_statements == (*f1).body_statements
            &&& (*f2).context.context_type is Function
            &&& (*f2).context.mangled_accessor is None
            &&& (*f2).context.generic_context is None
            &&& decl_models((*f2).context.variable_declarations@) == fn_recorded_models(
                (*f1).body_statements@,
            )
        },
        _ => after == before,
    }
}

/// Builds the context of one function: a fresh `Function` scope that records
/// exactly the declarations of the function's own body, each of which is
/// also hoisted — as an equal record — into the enclosing class context.
#[verifier::loop_isolation(false)]
#[verifier::rlimit(60)]
pub fn build_function_context(function: FunctionDeclaration, class_context: &mut Context) -> (r: FunctionDeclaration)
    ensures
        r.name == function.name,
        r.parameters == function.parameters,
        r.body_statements == function.body_statements,
        r.context.context_type is Function,
        r.context.mangled_accessor is None,
        r.context.generic_context is None,
        decl_models(r.context.variable_declarations@) == fn_recorded_models(
            function.body_statements@,
        ),
        final(class_context).context_type == old(class_context).context_type,
        final(class_context).mangled_accessor == old(class_context).mangled_accessor,
        final(class_context).generic_context == old(class_context).generic_context,
        decl_models(final(class_context).variable_declarations@) == decl_models(
            old(class_context).variable_declarations@,
        ) + fn_recorded_models(function.body_statements@),
{
    let mut function = function;
    function.context = Context::create_scope(ContextType::Function);
    let ghost f0 = function;
    let ghost stmts0 = function.body_statements@;
    let ghost cc0 = decl_models(old(class_context).variable_declarations@);
    proof {
        assert(stmts0.take(0) =~= Seq::<VariableDeclarationOrAssignment>::empty());
        assert(decl_models(function.context.variable_declarations@) =~= Seq::<DeclModel>::empty());
        assert(cc0 + fn_recorded_models(stmts0.take(0)) =~= cc0);
    }
    let mut i: usize = 0;
    while i < function.body_statements.len()
        invariant
            i <= stmts0.len(),
            function.body_statements == f0.body_statements,
            function.name == f0.name,
            function.parameters == f0.parameters,
            function.context.context_type is Function,
            function.context.mangled_accessor is None,
            function.context.generic_context is None,
            decl_models(function.context.variable_declarations@) == fn_recorded_models(
                stmts0.take(i as int),
            ),
            class_context.context_type == old(class_context).context_type,
            class_context.mangled_accessor == old(class_context).mangled_accessor,
            class_context.generic_context == old(class_context).generic_context,
            decl_models(class_context.variable_declarations@) == cc0 + fn_recorded_models(
                stmts0.take(i as int),
            ),
        decreases stmts0.len() - i,
    {
        let copies = match &function.body_statements[i] {
            VariableDeclarationOrAssignment::Declaration(d) => Some(
                (d.declaration.duplicate(), d.declaration.duplicate()),
            ),
            VariableDeclarationOrAssignment::Assignement(a) => None,
        };
        let ghost own_before = function.context.variable_declarations@;
        let ghost hoist_before = class_context.variable_declarations@;
        match copies {
            Some(pair) => {
                let (own_copy, hoisted_copy) = pair;
                function.context.record_variable_declaration(own_copy);
                class_context.record_variable_declaration(hoisted_copy);
            },
            None => {},
        }
        proof {
            assert(stmts0.take(i + 1 as int).drop_last() =~= stmts0.take(i as int));
            assert(stmts0.take(i + 1 as int).last() == stmts0[i as int]);
            match stmts0[i as int] {
                VariableDeclarationOrAssignment::Declaration(d) => {
                    assert(decl_models(function.context.variable_declarations@) =~= decl_models(
                        own_before,
                    ) + seq![d.declaration.model()]);
                    assert(decl_models(class_context.variable_declarations@) =~= decl_models(
                        hoist_before,
                    ) + seq![d.declaration.model()]);
                    assert(fn_recorded_models(stmts0.take(i + 1 as int)) =~= fn_recorded_models(
                        stmts0.take(i as int),
                    ) + seq![d.declaration.model()]);
                },
                VariableDeclarationOrAssignment::Assignement(a) => {
                    assert(fn_recorded_models(stmts0.take(i + 1 as int)) =~= fn_recorded_models(
                        stmts0.take(i as int),
                    ));
                },
            }
            assert(decl_models(function.context.variable_declarations@) =~= fn_recorded_models(
                stmts0.take(i + 1 as int),
            ));
            assert(decl_models(class_context.variable_declarations@) =~= cc0 + fn_recorded_models(
                stmts0.take(i + 1 as int),
            ));
        }
        i = i + 1;
    }
    proof {
        assert(stmts0.take(stmts0.len() as int) =~= stmts0);
    }
    function
}

/// The context-building pass over one class declaration: creates the class's
/// own scope, then builds each method's `Function` scope in body order,
/// hoisting every function-local declaration into the class context.  The
/// generic-expansion record, when wanted, is installed afterwards through
/// [`Context::begin_generic_expansion`].
#[verifier::loop_isolation(false)]
#[verifier::rlimit(100)]
#[verifier::spinoff_prover]
pub fn build_class_context(class: &mut ClassDeclaration)
    ensures
        final(class).class_type == old(class).class_type,
        final(class).name == old(class).name,
        final(class).extended_class_name == old(class).extended_class_name,
        final(class).parent_class_name == old(class).parent_class_name,
        final(class).generic_types == old(class).generic_types,
        final(class).context.context_type is ClassOrStruct,
        final(class).context.mangled_accessor is None,
        final(class).context.generic_context is None,
        decl_models(final(class).context.variable_declarations@) == class_hoisted_models(
            old(class).body_statements@,
        ),
        final(class).body_statements@.len() == old(class).body_statements@.len(),
        forall|k: int|
            0 <= k < old(class).body_statements@.len() ==> stmt_built(
                old(class).body_statements@[k],
                #[trigger] final(class).body_statements@[k],
            ),
{
    class.context = Context::create_scope(ContextType::ClassOrStruct);
    let mut pending: Vec<ClassBodyStatement> = Vec::new();
    swap(&mut class.body_statements, &mut pending);
    let ghost stmts0 = pending@;
    let n = pending.len();
    proof {
        assert(stmts0 == old(class).body_statements@);
        assert(stmts0.take(0) =~= Seq::<ClassBodyStatement>::empty());
        assert(stmts0.skip(0) =~= stmts0);
        assert(decl_models(class.context.variable_declarations@) =~= Seq::<DeclModel>::empty());
    }
    let mut i: usize = 0;
    while i < n
        invariant
            i <= stmts0.len(),
            n == stmts0.len(),
            pending@ == stmts0.skip(i as int),
            class.body_statements@.len() == i as int,
            forall|k: int|
                0 <= k < i as int ==> stmt_built(
                    stmts0[k],
                    #[trigger] class.body_statements@[k],
                ),
            class.class_type == old(class).class_type,
            class.name == old(class).name,
            class.extended_class_name == old(class).extended_class_name,
            class.parent_class_name == old(class).parent_class_name,
            class.generic_types == old(class).generic_types,
            class.context.context_type is ClassOrStruct,
            class.context.mangled_accessor is None,
            class.context.generic_context is None,
            decl_models(class.context.variable_declarations@) == class_hoisted_models(
                stmts0.take(i as int),
            ),
        decreases n - i,
    {
        let stmt = pending.remove(0);
        proof {
            assert(stmt == stmts0[i as int]);
            assert(pending@ =~= stmts0.skip(i + 1 as int));
            assert(stmts0.take(i + 1 as int).drop_last() =~= stmts0.take(i as int));
            assert(stmts0.take(i + 1 as int).last() == stmts0[i as int]);
        }
        let ghost hoist_before = decl_models(class.context.variable_declarations@);
        let built = match stmt {
            ClassBodyStatement::Method { encapsulation, function_declaration } => {
                let rebuilt = build_function_context(*function_declaration, &mut class.context);
                ClassBodyStatement::Method {
                    encapsulation,
                    function_declaration: Box::new(rebuilt),
                }
            },
            other_stmt => other_stmt,
        };
        class.body_statements.push(built);
        proof {
            assert(stmt_built(stmts0[i as int], built));
            assert(decl_models(class.context.variable_declarations@) =~= class_hoisted_models(
                stmts0.take(i + 1 as int),
            ));
        }
        i = i + 1;
    }
    proof {
        assert(stmts0.take(stmts0.len() as int) =~= stmts0);
    }
}

} // verus!

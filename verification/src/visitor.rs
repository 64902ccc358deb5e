//! The dual-mode visitor protocol: a double-dispatch traversal over the
//! tree.  Two traversal modes share one dispatch interface but differ in
//! continuation policy: an ordinary visitor always recurses into a node's
//! children, while a context-building visitor stops ordinary descent at
//! every scope-introducing node, because the construction of the new scope's
//! context owns the continuation of the walk (see [`crate::builder`]) — a
//! descendant must never be visited against a partly initialized parent
//! context.
//!
//! The protocol is contracted through a model of the visitor's state: each
//! hook declares a transition function ([`Visitor::class_hook_spec`] and its
//! siblings, no-ops unless a pass overrides them), and every node's `accept`
//! ensures that the visitor ends in exactly the state those transitions
//! give — the hook applied once and, depending on the mode the visitor
//! reports after it, either no descent at a scope boundary or the fold of
//! the walk over the children in order.

use vstd::prelude::*;
use std::rc::Rc;
use crate::classes::{ClassBodyStatement, ClassDeclaration};
use crate::expressions::Expression;
use crate::functions::FunctionDeclaration;
use crate::identifiers::{IdentifierTerm, TypedIdentifier};
use crate::variables::{VariableAssignment, VariableDeclaration, VariableDeclarationOrAssignment};

verus! {

/// The traversal mode of a visitor: ordinary recursive descent, or the
/// context-building mode that takes over traversal at scope boundaries.
#[derive(Clone, Copy)]
pub enum VisitorType {
    GenericVisitor,
    ContextBuildingVisitor,
}

/// One pass over the tree: a hook per node kind and the mode that decides
/// the continuation policy.  Each hook's effect on the pass's state is
/// pinned by its transition spec function; a transition defaults to a no-op,
/// so a pass states only what it cares about.
pub trait Visitor: Sized {
    /// The traversal mode this pass reports.  By default a pass is an
    /// ordinary visitor; a context-building pass overrides this together
    /// with `visitor_type`.
    open spec fn mode_spec(&self) -> VisitorType {
        VisitorType::GenericVisitor
    }

    /// The state after the class-declaration hook.
    open spec fn class_hook_spec(&self, node: &ClassDeclaration) -> Self {
        *self
    }

    /// The state after the function-declaration hook.
    open spec fn function_hook_spec(&self, node: &FunctionDeclaration) -> Self {
        *self
    }

    /// The state after the variable-declaration hook.
    open spec fn variable_hook_spec(&self, node: &VariableDeclaration) -> Self {
        *self
    }

    /// The state after the expression hook.
    open spec fn expression_hook_spec(&self, node: &Expression) -> Self {
        *self
    }

    /// The state after the identifier-term hook.
    open spec fn identifier_hook_spec(&self, node: &IdentifierTerm) -> Self {
        *self
    }

    /// The state after the typed-identifier hook.
    open spec fn typed_identifier_hook_spec(&self, node: &TypedIdentifier) -> Self {
        *self
    }

    fn visitor_type(&self) -> (t: VisitorType)
        ensures
            t == self.mode_spec(),
    ;

    fn visit_class_declaration(&mut self, node: &ClassDeclaration)
        ensures
            *final(self) == old(self).class_hook_spec(node),
    ;

    fn visit_function_declaration(&mut self, node: &FunctionDeclaration)
        ensures
            *final(self) == old(self).function_hook_spec(node),
    ;

    fn visit_variable_declaration(&mut self, node: &VariableDeclaration)
        ensures
            *final(self) == old(self).variable_hook_spec(node),
    ;

    fn visit_expression(&mut self, node: &Expression)
        ensures
            *final(self) == old(self).expression_hook_spec(node),
    ;

    fn visit_identifier_term(&mut self, node: &IdentifierTerm)
        ensures
            *final(self) == old(self).identifier_hook_spec(node),
    ;

    fn visit_typed_identifier(&mut self, node: &TypedIdentifier)
        ensures
            *final(self) == old(self).typed_identifier_hook_spec(node),
    ;
}

/// A node a visitor can be driven over.  `accept` leaves the visitor in
/// exactly the state that `accept_spec` folds out of the hook transitions.
pub trait Visited<T: Visitor> {
    /// The visitor state after this node's walk.
    spec fn accept_spec(&self, v: T) -> T;

    fn accept(&self, visitor: &mut T)
        ensures
            *final(visitor) == self.accept_spec(*old(visitor)),
    ;
}

/// The visitor state after walking each element of `s` in order.
pub open spec fn seq_accept_spec<T: Visitor, A: Visited<T>>(s: Seq<A>, v: T) -> T
    decreases s.len(),
{
    if s.len() == 0 {
        v
    } else {
        s.last().accept_spec(seq_accept_spec(s.drop_last(), v))
    }
}

impl<T: Visitor, A: Visited<T>> Visited<T> for Vec<A> {
    open spec fn accept_spec(&self, v: T) -> T {
        seq_accept_spec(self@, v)
    }

    fn accept(&self, visitor: &mut T) {
        let mut i: usize = 0;
        while i < self.len()
            invariant
                i <= self@.len(),
                *visitor == seq_accept_spec(self@.take(i as int), *old(visitor)),
            decreases self@.len() - i,
        {
            (&self[i]).accept(visitor);
            proof {
                assert(self@.take(i + 1 as int).drop_last() =~= self@.take(i as int));
                assert(self@.take(i + 1 as int).last() == self@[i as int]);
            }
            i = i + 1;
        }
        proof {
            assert(self@.take(self@.len() as int) =~= self@);
        }
    }
}

impl<T: Visitor, A: Visited<T>> Visited<T> for Option<A> {
    open spec fn accept_spec(&self, v: T) -> T {
        match self {
            Some(inner) => inner.accept_spec(v),
            None => v,
        }
    }

    fn accept(&self, visitor: &mut T) {
        match self {
            Some(inner) => inner.accept(visitor),
            None => {},
        }
    }
}

impl<T: Visitor, A: Visited<T>> Visited<T> for Box<A> {
    open spec fn accept_spec(&self, v: T) -> T {
        (**self).accept_spec(v)
    }

    fn accept(&self, visitor: &mut T) {
        (&**self).accept(visitor);
    }
}

impl<T: Visitor, A: Visited<T>> Visited<T> for Rc<A> {
    open spec fn accept_spec(&self, v: T) -> T {
        (**self).accept_spec(v)
    }

    fn accept(&self, visitor: &mut T) {
        (&**self).accept(visitor);
    }
}

impl<T: Visitor> Visited<T> for ClassDeclaration {
    /// The class hook fires once; then, if the visitor reports the
    /// context-building mode, the descent stops at this scope boundary,
    /// else the walk folds over the body statements in order.
    open spec fn accept_spec(&self, v: T) -> T {
        let after_hook = v.class_hook_spec(self);
        if after_hook.mode_spec() is ContextBuildingVisitor {
            after_hook
        } else {
            self.body_statements.accept_spec(after_hook)
        }
    }

    fn accept(&self, visitor: &mut T) {
        visitor.visit_class_declaration(self);
        // don't go further: a context-building visitor creates the new
        // scope's context and continues the traversal itself.
        match visitor.visitor_type() {
            VisitorType::ContextBuildingVisitor => {
                return;
            },
            VisitorType::GenericVisitor => {},
        }
        self.body_statements.accept(visitor);
    }
}

impl<T: Visitor> Visited<T> for ClassBodyStatement {
    open spec fn accept_spec(&self, v: T) -> T {
        match self {
            ClassBodyStatement::Method { encapsulation, function_declaration } =>
                function_declaration.accept_spec(v),
            ClassBodyStatement::Property { encapsulation, property_declaration } =>
                property_declaration.accept_spec(v),
            ClassBodyStatement::DefaultValue(x) => v,
        }
    }

    fn accept(&self, visitor: &mut T) {
        match self {
            ClassBodyStatement::Method { encapsulation, function_declaration } =>
                function_declaration.accept(visitor),
            ClassBodyStatement::Property { encapsulation, property_declaration } =>
                property_declaration.accept(visitor),
            ClassBodyStatement::DefaultValue(x) => {},
        }
    }
}

impl<T: Visitor> Visited<T> for FunctionDeclaration {
    /// A function introduces a scope too: the function hook fires once, and
    /// a context-building visitor owns the descent into parameters and body.
    open spec fn accept_spec(&self, v: T) -> T {
        let after_hook = v.function_hook_spec(self);
        if after_hook.mode_spec() is ContextBuildingVisitor {
            after_hook
        } else {
            self.body_statements.accept_spec(self.parameters.accept_spec(after_hook))
        }
    }

    fn accept(&self, visitor: &mut T) {
        visitor.visit_function_declaration(self);
        match visitor.visitor_type() {
            VisitorType::ContextBuildingVisitor => {
                return;
            },
            VisitorType::GenericVisitor => {},
        }
        self.parameters.accept(visitor);
        self.body_statements.accept(visitor);
    }
}

impl<T: Visitor> Visited<T> for VariableDeclarationOrAssignment {
    open spec fn accept_spec(&self, v: T) -> T {
        match self {
            VariableDeclarationOrAssignment::Declaration(x) => x.accept_spec(v),
            VariableDeclarationOrAssignment::Assignement(x) => x.accept_spec(v),
        }
    }

    fn accept(&self, visitor: &mut T) {
        match self {
            VariableDeclarationOrAssignment::Declaration(x) => x.accept(visitor),
            VariableDeclarationOrAssignment::Assignement(x) => x.accept(visitor),
        }
    }
}

impl<T: Visitor> Visited<T> for VariableDeclaration {
    open spec fn accept_spec(&self, v: T) -> T {
        self.following_expression.accept_spec(
            self.declaration.accept_spec(v.variable_hook_spec(self)),
        )
    }

    fn accept(&self, visitor: &mut T) {
        visitor.visit_variable_declaration(self);
        self.declaration.accept(visitor);
        self.following_expression.accept(visitor);
    }
}

impl<T: Visitor> Visited<T> for VariableAssignment {
    open spec fn accept_spec(&self, v: T) -> T {
        self.following_expression.accept_spec(self.variable_name.accept_spec(v))
    }

    fn accept(&self, visitor: &mut T) {
        self.variable_name.accept(visitor);
        self.following_expression.accept(visitor);
    }
}

impl<T: Visitor> Visited<T> for TypedIdentifier {
    open spec fn accept_spec(&self, v: T) -> T {
        v.typed_identifier_hook_spec(self)
    }

    fn accept(&self, visitor: &mut T) {
        visitor.visit_typed_identifier(self);
    }
}

impl<T: Visitor> Visited<T> for IdentifierTerm {
    open spec fn accept_spec(&self, v: T) -> T {
        v.identifier_hook_spec(self)
    }

    fn accept(&self, visitor: &mut T) {
        visitor.visit_identifier_term(self);
    }
}

impl<T: Visitor> Visited<T> for Expression {
    open spec fn accept_spec(&self, v: T) -> T {
        let after_hook = v.expression_hook_spec(self);
        match self {
            Expression::Identifier(term) => term.accept_spec(after_hook),
            Expression::StringLiteral(s) => after_hook,
            Expression::IntegerLiteral(s) => after_hook,
            Expression::BooleanLiteral(b) => after_hook,
        }
    }

    fn accept(&self, visitor: &mut T) {
        visitor.visit_expression(self);
        match self {
            Expression::Identifier(term) => term.accept(visitor),
            Expression::StringLiteral(s) => {},
            Expression::IntegerLiteral(s) => {},
            Expression::BooleanLiteral(b) => {},
        }
    }
}

/// A small ordinary-mode analysis pass: it counts the variable declarations
/// a walk reaches, saturating at the machine limit.  It is also the crate's
/// verified witness that a pass's hooks meet their transition contracts.
pub struct DeclarationCounter {
    pub declarations: usize,
}

impl Visitor for DeclarationCounter {
    open spec fn mode_spec(&self) -> VisitorType {
        VisitorType::GenericVisitor
    }

    open spec fn variable_hook_spec(&self, node: &VariableDeclaration) -> Self {
        if self.declarations < usize::MAX {
            DeclarationCounter { declarations: (self.declarations + 1) as usize }
        } else {
            DeclarationCounter { declarations: self.declarations }
        }
    }

    fn visitor_type(&self) -> (t: VisitorType) {
        VisitorType::GenericVisitor
    }

    fn visit_class_declaration(&mut self, node: &ClassDeclaration) {
    }

    fn visit_function_declaration(&mut self, node: &FunctionDeclaration) {
    }

    fn visit_variable_declaration(&mut self, node: &VariableDeclaration) {
        if self.declarations < usize::MAX {
            self.declarations = self.declarations + 1;
        }
    }

    fn visit_expression(&mut self, node: &Expression) {
    }

    fn visit_identifier_term(&mut self, node: &IdentifierTerm) {
    }

    fn visit_typed_identifier(&mut self, node: &TypedIdentifier) {
    }
}

} // verus!

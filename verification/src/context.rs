//! The per-scope `Context` record: one per lexical scope, accumulated by the
//! context-building pass and consulted by inference and code emission.

use vstd::prelude::*;
use crate::identifiers::{DeclModel, TypedIdentifier};

verus! {

/// The kind of lexical scope a [`Context`] describes.  It decides the
/// emission policy of variable declarations: at `Global` or `ClassOrStruct`
/// scope a declaration emits a field line (and a `default` statement when it
/// has an initializer), while at `Function` scope only a plain assignment is
/// emitted, the field line having been hoisted to the enclosing class.
#[derive(Clone, Copy)]
pub enum ContextType {
    Global,
    ClassOrStruct,
    Function,
}

/// The generic-expansion record of a generic class scope: the registered
/// variants, each a variant identifier with its concrete type substitution,
/// in registration order, and the scratch selection of the variant currently
/// being emitted.  The variants are a mapping: each identifier occurs once,
/// which is what keeps the emitted variant names collision-free.
pub struct GenericContext {
    pub translation_variants: Vec<(String, String)>,
    pub currently_used_variant: Option<String>,
}

/// One lexical scope: its kind, the variable declarations recorded while
/// building it, an optional mangled accessor that replaces the owning node's
/// declared name at emission time, and the optional generic-expansion record
/// of a generic class scope.
pub struct Context {
    pub context_type: ContextType,
    pub variable_declarations: Vec<TypedIdentifier>,
    pub mangled_accessor: Option<String>,
    pub generic_context: Option<GenericContext>,
}

/// Whether each variant identifier occurs at most once: the registered
/// variants form a mapping from identifier to substitution.
pub open spec fn distinct_variant_ids(variants: Seq<(String, String)>) -> bool {
    forall|i: int, j: int|
        0 <= i < j < variants.len() ==> (#[trigger] variants[i]).0@ != (
        #[trigger] variants[j]).0@
}

/// The models of a sequence of recorded declarations, in recorded order.
pub open spec fn decl_models(decls: Seq<TypedIdentifier>) -> Seq<DeclModel> {
    decls.map_values(|d: TypedIdentifier| d.model())
}

impl Context {
    /// A fresh scope of the given kind: no declarations recorded yet, no
    /// mangled accessor, no generic-expansion record.
    pub fn create_scope(kind: ContextType) -> (c: Context)
        ensures
            c.context_type == kind,
            c.variable_declarations@ =~= Seq::<TypedIdentifier>::empty(),
            c.mangled_accessor is None,
            c.generic_context is None,
    {
        Context {
            context_type: kind,
            variable_declarations: Vec::new(),
            mangled_accessor: None,
            generic_context: None,
        }
    }

    /// Appends one declaration record to this scope.  No operation ever
    /// removes a recorded declaration.
    pub fn record_variable_declaration(&mut self, decl: TypedIdentifier)
        ensures
            final(self).variable_declarations@ == old(self).variable_declarations@.push(decl),
            final(self).context_type == old(self).context_type,
            final(self).mangled_accessor == old(self).mangled_accessor,
            final(self).generic_context == old(self).generic_context,
    {
        self.variable_declarations.push(decl);
    }

    /// Installs the generic-expansion record of this scope, with the given
    /// variants in registration order and no variant selected yet.  The
    /// identifiers must be pairwise distinct: they key the variants and
    /// become the emitted variants' name-mangling suffixes.
    pub fn begin_generic_expansion(&mut self, variants: Vec<(String, String)>)
        requires
            distinct_variant_ids(variants@),
        ensures
            final(self).generic_context is Some,
            final(self).generic_context.unwrap().translation_variants == variants,
            final(self).generic_context.unwrap().currently_used_variant is None,
            final(self).context_type == old(self).context_type,
            final(self).variable_declarations == old(self).variable_declarations,
            final(self).mangled_accessor == old(self).mangled_accessor,
    {
        self.generic_context = Some(GenericContext {
            translation_variants: variants,
            currently_used_variant: None,
        });
    }

    /// Selects the variant that an emission pass is about to produce.  This
    /// is scratch state: it is overwritten before each variant's emission and
    /// nothing may read it across variant boundaries, so the emitted text of
    /// a variant never depends on it.
    pub fn select_variant(&mut self, id: String)
        requires
            old(self).generic_context is Some,
        ensures
            final(self).generic_context is Some,
            final(self).generic_context.unwrap().currently_used_variant == Some(id),
            final(self).generic_context.unwrap().translation_variants == old(
                self,
            ).generic_context.unwrap().translation_variants,
            final(self).context_type == old(self).context_type,
            final(self).variable_declarations == old(self).variable_declarations,
            final(self).mangled_accessor == old(self).mangled_accessor,
    {
        if let Some(generic_context) = &mut self.generic_context {
            generic_context.currently_used_variant = Some(id);
        }
    }
}

} // verus!

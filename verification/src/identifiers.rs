//! The small identifier vocabulary of the tree: identifier terms, type
//! annotations, and typed identifiers (one or more names sharing one type).

use vstd::prelude::*;
use vstd::string::StringExecFns;
use crate::codegen::{lemma_string_join, names_join, seq_emit_join_spec, Codegen, EmitAdditionalData, EmitError};
use crate::context::Context;

verus! {

/// A single identifier as it appears in an expression or assignment target.
pub struct IdentifierTerm {
    pub text: String,
}

/// A type annotation as written in the source, kept as its textual name.
pub struct TypeDeclaration {
    pub name: String,
}

/// One or more names sharing a single type annotation, as produced by a
/// multi-name variable declaration.
pub struct TypedIdentifier {
    pub names: Vec<String>,
    pub type_declaration: TypeDeclaration,
}

/// The mathematical model of one declaration record: the declared names, in
/// declaration order, and the text of the shared type annotation.
#[verifier::ext_equal]
pub struct DeclModel {
    pub names: Seq<Seq<char>>,
    pub ty: Seq<char>,
}

impl TypedIdentifier {
    /// The model of this record: its names as character sequences, in order,
    /// together with its type annotation's text.
    pub open spec fn model(&self) -> DeclModel {
        DeclModel {
            names: self.names@.map_values(|n: String| n@),
            ty: self.type_declaration.name@,
        }
    }

    /// A record equal to this one under [`TypedIdentifier::model`].  Scope
    /// contexts accumulate such copies, so that the tree node keeps its own
    /// record while the enclosing scope records the declaration as well.
    pub fn duplicate(&self) -> (r: TypedIdentifier)
        ensures
            r.model() == self.model(),
    {
        let mut names: Vec<String> = Vec::new();
        let mut i: usize = 0;
        while i < self.names.len()
            invariant
                i <= self.names@.len(),
                names@.len() == i as int,
                forall|k: int| 0 <= k < i as int ==> names@[k] == self.names@[k],
            decreases self.names@.len() - i,
        {
            names.push(self.names[i].clone());
            i = i + 1;
        }
        let r = TypedIdentifier {
            names,
            type_declaration: TypeDeclaration {
                name: self.type_declaration.name.clone(),
            },
        };
        proof {
            assert(r.names@ =~= self.names@);
            assert(r.model() =~= self.model());
        }
        r
    }
}

/// The text of a typed identifier: its names joined by `", "`, a colon, and
/// the type annotation's text.
pub open spec fn typed_identifier_text(m: DeclModel) -> Seq<char> {
    names_join(m.names, ", "@) + ": "@ + m.ty
}

impl Codegen for IdentifierTerm {
    open spec fn emit_spec(&self, context: &Context) -> Seq<char> {
        self.text@
    }

    fn emit(&self, context: &Context, output: &mut String, data: &Option<EmitAdditionalData>) -> (r: Result<(), EmitError>) {
        output.append(self.text.as_str());
        Ok(())
    }

    fn emit_join(&self, context: &Context, output: &mut String, join_str: &'static str, data: &Option<EmitAdditionalData>) -> (r: Result<(), EmitError>) {
        self.emit(context, output, data)
    }
}

impl Codegen for TypeDeclaration {
    open spec fn emit_spec(&self, context: &Context) -> Seq<char> {
        self.name@
    }

    fn emit(&self, context: &Context, output: &mut String, data: &Option<EmitAdditionalData>) -> (r: Result<(), EmitError>) {
        output.append(self.name.as_str());
        Ok(())
    }

    fn emit_join(&self, context: &Context, output: &mut String, join_str: &'static str, data: &Option<EmitAdditionalData>) -> (r: Result<(), EmitError>) {
        self.emit(context, output, data)
    }
}

impl Codegen for TypedIdentifier {
    open spec fn emit_spec(&self, context: &Context) -> Seq<char> {
        typed_identifier_text(self.model())
    }

    fn emit(&self, context: &Context, output: &mut String, data: &Option<EmitAdditionalData>) -> (r: Result<(), EmitError>) {
        let ghost pre = output@;
        self.names.emit_join(context, output, ", ", data)?;
        proof {
            lemma_string_join(self.names@, context, ", "@);
        }
        output.append(": ");
        self.type_declaration.emit(context, output, data)?;
        proof {
            assert(output@ =~= pre + typed_identifier_text(self.model()));
        }
        Ok(())
    }

    fn emit_join(&self, context: &Context, output: &mut String, join_str: &'static str, data: &Option<EmitAdditionalData>) -> (r: Result<(), EmitError>) {
        self.emit(context, output, data)
    }
}

/// Joining a sequence of typed identifiers emits exactly their texts joined
/// with the separator.
pub proof fn lemma_typed_identifier_join(s: Seq<TypedIdentifier>, context: &Context, sep: Seq<char>)
    ensures
        seq_emit_join_spec(s, context, sep) == names_join(
            s.map_values(|d: TypedIdentifier| typed_identifier_text(d.model())),
            sep,
        ),
    decreases s.len(),
{
    let mapped = s.map_values(|d: TypedIdentifier| typed_identifier_text(d.model()));
    if s.len() == 0 {
    } else {
        lemma_typed_identifier_join(s.drop_last(), context, sep);
        assert(s.drop_last().map_values(|d: TypedIdentifier| typed_identifier_text(d.model()))
            =~= mapped.drop_last());
        assert(mapped.last() == typed_identifier_text(s.last().model()));
    }
}

} // verus!

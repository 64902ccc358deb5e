//! The recursive text-producing pass: every tree node exposes an `emit`
//! operation that appends target-dialect source text to an output buffer.
//!
//! Each implementation's contract pins the appended text exactly, through the
//! [`Codegen::emit_spec`] function of the node: emission is therefore a pure
//! function of the node and its context, which is what makes the whole pass
//! deterministic (see [`lemma_emission_deterministic`]).  Composite emission
//! is structural and total: sequences emit each child in order, optionally
//! joined by a separator; optional values emit nothing when absent; owned and
//! shared indirections delegate to the wrapped value.

use vstd::prelude::*;
use vstd::string::StringExecFns;
use std::rc::Rc;
use crate::context::Context;

verus! {

/// An output-write failure.  Emission into the in-memory buffer used by this
/// core is total, so verified emission always returns `Ok`; the variant
/// exists because every `emit` contract is stated over a `Result`.
#[derive(Debug)]
pub enum EmitError {
    OutputWrite,
}

/// An opaque side-channel value threaded through every `emit` call, available
/// for passes outside this core to carry auxiliary directives.  Nothing in
/// this core reads it.
pub struct EmitAdditionalData {}

/// The text appended by emitting each element of `s` in order.
pub open spec fn seq_emit_spec<A: Codegen>(s: Seq<A>, context: &Context) -> Seq<char>
    decreases s.len(),
{
    if s.len() == 0 {
        Seq::<char>::empty()
    } else {
        seq_emit_spec(s.drop_last(), context) + s.last().emit_spec(context)
    }
}

/// The text appended by emitting each element of `s` in order with `sep`
/// between neighbours: no separator before the first element and none after
/// the last.
pub open spec fn seq_emit_join_spec<A: Codegen>(s: Seq<A>, context: &Context, sep: Seq<char>) -> Seq<char>
    decreases s.len(),
{
    if s.len() == 0 {
        Seq::<char>::empty()
    } else if s.len() == 1 {
        s.last().emit_spec(context)
    } else {
        seq_emit_join_spec(s.drop_last(), context, sep) + sep + s.last().emit_spec(context)
    }
}

/// The code-emission capability.  `emit` appends exactly the text that
/// `emit_spec` describes, given the ambient context of the node.
pub trait Codegen: Sized {
    /// The text this node emits under the given ambient context.
    spec fn emit_spec(&self, context: &Context) -> Seq<char>;

    /// The text this node emits when asked to join its parts with `sep`.
    /// Only sequences have parts to join; every other node emits as `emit`.
    open spec fn emit_join_spec(&self, context: &Context, sep: Seq<char>) -> Seq<char> {
        self.emit_spec(context)
    }

    /// Appends this node's text to `output`.
    fn emit(&self, context: &Context, output: &mut String, data: &Option<EmitAdditionalData>) -> (r: Result<(), EmitError>)
        ensures
            r is Ok,
            final(output)@ == old(output)@ + self.emit_spec(context),
    ;

    /// Appends this node's text to `output`, joining parts with `join_str`.
    fn emit_join(&self, context: &Context, output: &mut String, join_str: &'static str, data: &Option<EmitAdditionalData>) -> (r: Result<(), EmitError>)
        ensures
            r is Ok,
            final(output)@ == old(output)@ + self.emit_join_spec(context, join_str@),
    ;
}

impl Codegen for String {
    open spec fn emit_spec(&self, context: &Context) -> Seq<char> {
        self@
    }

    fn emit(&self, context: &Context, output: &mut String, data: &Option<EmitAdditionalData>) -> (r: Result<(), EmitError>) {
        output.append(self.as_str());
        Ok(())
    }

    fn emit_join(&self, context: &Context, output: &mut String, join_str: &'static str, data: &Option<EmitAdditionalData>) -> (r: Result<(), EmitError>) {
        self.emit(context, output, data)
    }
}

impl<A: Codegen> Codegen for Vec<A> {
    /// A sequence emits each child in order.
    open spec fn emit_spec(&self, context: &Context) -> Seq<char> {
        seq_emit_spec(self@, context)
    }

    open spec fn emit_join_spec(&self, context: &Context, sep: Seq<char>) -> Seq<char> {
        seq_emit_join_spec(self@, context, sep)
    }

    fn emit(&self, context: &Context, output: &mut String, data: &Option<EmitAdditionalData>) -> (r: Result<(), EmitError>) {
        let ghost pre = output@;
        let mut i: usize = 0;
        while i < self.len()
            invariant
                i <= self@.len(),
                output@ == pre + seq_emit_spec(self@.take(i as int), context),
            decreases self@.len() - i,
        {
            (&self[i]).emit(context, output, data)?;
            proof {
                assert(self@.take(i + 1 as int).drop_last() =~= self@.take(i as int));
                assert(self@.take(i + 1 as int).last() == self@[i as int]);
                assert(output@ =~= pre + seq_emit_spec(self@.take(i + 1 as int), context));
            }
            i = i + 1;
        }
        proof {
            assert(self@.take(self@.len() as int) =~= self@);
        }
        Ok(())
    }

    fn emit_join(&self, context: &Context, output: &mut String, join_str: &'static str, data: &Option<EmitAdditionalData>) -> (r: Result<(), EmitError>) {
        let ghost pre = output@;
        let mut i: usize = 0;
        while i < self.len()
            invariant
                i <= self@.len(),
                output@ == pre + seq_emit_join_spec(self@.take(i as int), context, join_str@),
            decreases self@.len() - i,
        {
            if i > 0 {
                output.append(join_str);
            }
            (&self[i]).emit(context, output, data)?;
            proof {
                assert(self@.take(i + 1 as int).drop_last() =~= self@.take(i as int));
                assert(self@.take(i + 1 as int).last() == self@[i as int]);
                assert(output@ =~= pre + seq_emit_join_spec(self@.take(i + 1 as int), context, join_str@));
            }
            i = i + 1;
        }
        proof {
            assert(self@.take(self@.len() as int) =~= self@);
        }
        Ok(())
    }
}

impl<A: Codegen> Codegen for Option<A> {
    /// An optional child emits nothing when absent.
    open spec fn emit_spec(&self, context: &Context) -> Seq<char> {
        match self {
            Some(inner) => inner.emit_spec(context),
            None => Seq::<char>::empty(),
        }
    }

    fn emit(&self, context: &Context, output: &mut String, data: &Option<EmitAdditionalData>) -> (r: Result<(), EmitError>) {
        match self {
            Some(inner) => inner.emit(context, output, data),
            None => {
                proof {
                    assert(output@ =~= output@ + Seq::<char>::empty());
                }
                Ok(())
            },
        }
    }

    fn emit_join(&self, context: &Context, output: &mut String, join_str: &'static str, data: &Option<EmitAdditionalData>) -> (r: Result<(), EmitError>) {
        self.emit(context, output, data)
    }
}

impl<A: Codegen> Codegen for Box<A> {
    /// An owned indirection delegates to the wrapped value.
    open spec fn emit_spec(&self, context: &Context) -> Seq<char> {
        (**self).emit_spec(context)
    }

    fn emit(&self, context: &Context, output: &mut String, data: &Option<EmitAdditionalData>) -> (r: Result<(), EmitError>) {
        (&**self).emit(context, output, data)
    }

    fn emit_join(&self, context: &Context, output: &mut String, join_str: &'static str, data: &Option<EmitAdditionalData>) -> (r: Result<(), EmitError>) {
        self.emit(context, output, data)
    }
}

impl<A: Codegen> Codegen for Rc<A> {
    /// A shared indirection delegates to the wrapped value, so every reader
    /// of a shared subtree emits the same text.
    open spec fn emit_spec(&self, context: &Context) -> Seq<char> {
        (**self).emit_spec(context)
    }

    fn emit(&self, context: &Context, output: &mut String, data: &Option<EmitAdditionalData>) -> (r: Result<(), EmitError>) {
        (&**self).emit(context, output, data)
    }

    fn emit_join(&self, context: &Context, output: &mut String, join_str: &'static str, data: &Option<EmitAdditionalData>) -> (r: Result<(), EmitError>) {
        self.emit(context, output, data)
    }
}

/// The given character sequences joined with `sep` between neighbours.
pub open spec fn names_join(names: Seq<Seq<char>>, sep: Seq<char>) -> Seq<char>
    decreases names.len(),
{
    if names.len() == 0 {
        Seq::<char>::empty()
    } else if names.len() == 1 {
        names.last()
    } else {
        names_join(names.drop_last(), sep) + sep + names.last()
    }
}

/// Joining a sequence of strings emits exactly their texts joined with the
/// separator.
pub proof fn lemma_string_join(s: Seq<String>, context: &Context, sep: Seq<char>)
    ensures
        seq_emit_join_spec(s, context, sep) == names_join(
            s.map_values(|n: String| n@),
            sep,
        ),
    decreases s.len(),
{
    let mapped = s.map_values(|n: String| n@);
    if s.len() == 0 {
    } else {
        lemma_string_join(s.drop_last(), context, sep);
        assert(s.drop_last().map_values(|n: String| n@) =~= mapped.drop_last());
        assert(mapped.last() == s.last()@);
    }
}

/// Law: emission is deterministic.  The text a node appends is a pure
/// function of the node and its context, so emitting the same tree and
/// contexts into equal buffers produces byte-identical buffers.
pub proof fn lemma_emission_deterministic<A: Codegen>(
    node: &A,
    context: &Context,
    before1: Seq<char>,
    before2: Seq<char>,
)
    requires
        before1 == before2,
    ensures
        before1 + node.emit_spec(context) == before2 + node.emit_spec(context),
{
}

/// Law: idempotent composite emission.  An empty sequence and an absent
/// optional child each emit zero bytes (and their `emit` returns success, as
/// every `emit` contract states).
pub proof fn lemma_empty_composites_emit_nothing<A: Codegen>(context: &Context)
    ensures
        seq_emit_spec(Seq::<A>::empty(), context) == Seq::<char>::empty(),
        forall|o: Option<A>| o is None ==> #[trigger] o.emit_spec(context) == Seq::<char>::empty(),
{
}

} // verus!

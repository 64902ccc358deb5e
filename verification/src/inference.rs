//! The type-inference interface: a closed set of scripting-language types, a
//! caller-supplied map from identifiers to types, and the `ToType` capability
//! that any expression node can implement, defaulting to "unknown".

use vstd::prelude::*;
use crate::context::Context;

verus! {

/// The closed set of types the inference interface can report.
pub enum Type {
    String,
    Name,
    Bool,
    Int,
    Float,
    Identifier(String),
    Void,
    Unknown,
}

impl Type {
    /// The textual name of this type in the target dialect.
    pub open spec fn text(&self) -> Seq<char> {
        match self {
            Type::String => "string"@,
            Type::Name => "name"@,
            Type::Bool => "bool"@,
            Type::Int => "int"@,
            Type::Float => "float"@,
            Type::Identifier(s) => s@,
            Type::Void => "void"@,
            Type::Unknown => "unknown"@,
        }
    }

    /// This type's textual name, as an owned string.
    pub fn to_string(&self) -> (r: String)
        ensures
            r@ == self.text(),
    {
        match self {
            Type::String => "string".to_owned(),
            Type::Name => "name".to_owned(),
            Type::Bool => "bool".to_owned(),
            Type::Int => "int".to_owned(),
            Type::Float => "float".to_owned(),
            Type::Identifier(s) => s.clone(),
            Type::Void => "void".to_owned(),
            Type::Unknown => "unknown".to_owned(),
        }
    }
}

impl Clone for Type {
    fn clone(&self) -> (r: Self)
        ensures
            r == *self,
    {
        match self {
            Type::String => Type::String,
            Type::Name => Type::Name,
            Type::Bool => Type::Bool,
            Type::Int => Type::Int,
            Type::Float => Type::Float,
            Type::Identifier(s) => Type::Identifier(s.clone()),
            Type::Void => Type::Void,
            Type::Unknown => Type::Unknown,
        }
    }
}

/// The first type recorded for `name` in `entries`, or `Unknown` when none is.
pub open spec fn lookup_entries(entries: Seq<(String, Type)>, name: Seq<char>) -> Type
    decreases entries.len(),
{
    if entries.len() == 0 {
        Type::Unknown
    } else if entries.first().0@ == name {
        entries.first().1
    } else {
        lookup_entries(entries.drop_first(), name)
    }
}

/// A caller-supplied mapping from identifiers to their declared types (for
/// example declared variable types and function return types).  The inference
/// pass only reads it.
pub struct TypeInferenceMap {
    pub entries: Vec<(String, Type)>,
}

impl TypeInferenceMap {
    /// The type this map gives to `name`: the first entry recorded for it, or
    /// `Unknown` when the map has none.
    pub open spec fn lookup(&self, name: Seq<char>) -> Type {
        lookup_entries(self.entries@, name)
    }

    /// Looks `name` up: the first entry recorded for it, and `None` exactly
    /// when no entry carries it.
    pub fn get(&self, name: &String) -> (r: Option<&Type>)
        ensures
            match r {
                Some(t) => *t == self.lookup(name@),
                None => self.lookup(name@) == Type::Unknown && forall|k: int|
                    0 <= k < self.entries@.len() ==> (#[trigger] self.entries@[k]).0@ != name@,
            },
    {
        let mut i: usize = 0;
        proof {
            assert(self.entries@.skip(0) =~= self.entries@);
        }
        while i < self.entries.len()
            invariant
                i <= self.entries@.len(),
                forall|k: int| 0 <= k < i as int ==> (#[trigger] self.entries@[k]).0@ != name@,
                lookup_entries(self.entries@, name@) == lookup_entries(
                    self.entries@.skip(i as int),
                    name@,
                ),
            decreases self.entries@.len() - i,
        {
            proof {
                assert(self.entries@.skip(i as int).first() == self.entries@[i as int]);
                assert(self.entries@.skip(i as int).drop_first() =~= self.entries@.skip(
                    i + 1 as int,
                ));
            }
            if self.entries[i].0 == *name {
                return Some(&self.entries[i].1);
            }
            i = i + 1;
        }
        proof {
            assert(self.entries@.skip(self.entries@.len() as int) =~= Seq::<(
                String,
                Type,
            )>::empty());
        }
        None
    }
}

/// The inference capability: any expression node may report the type it
/// evaluates to, given the enclosing context and the caller's type map.  A
/// node that does not override the hook is treated as untyped rather than as
/// an error: its result is `Unknown`.
pub trait ToType {
    /// The type this node is inferred to have.  By default: `Unknown`.
    open spec fn resulting_type_spec(&self, context: &Context, map: &TypeInferenceMap) -> Type {
        Type::Unknown
    }

    /// Reports this node's inferred type.  The map is only read.
    fn resulting_type(&self, context: &Context, map: &TypeInferenceMap) -> (t: Type)
        ensures
            t == self.resulting_type_spec(context, map),
    ;
}

} // verus!

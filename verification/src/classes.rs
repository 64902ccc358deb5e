//! Class declarations and the class emission algorithm: generic-variant
//! expansion, field-block deduplication, and body-statement emission.

use vstd::prelude::*;
use vstd::string::StringExecFns;
use crate::codegen::{Codegen, EmitAdditionalData, EmitError};
use crate::context::{decl_models, distinct_variant_ids, Context, ContextType};
use crate::functions::{fn_text, FunctionDeclaration};
use crate::identifiers::DeclModel;
use crate::variables::{assignment_text, var_decl_text, VariableAssignment, VariableDeclaration};

verus! {

/// The kind of a class declaration in the target dialect.
pub enum ClassType {
    Class,
    StatemachineClass,
    State,
    Abstract,
}

/// The keyword text of a class kind.
pub open spec fn class_type_text(t: ClassType) -> Seq<char> {
    match t {
        ClassType::Class => "class"@,
        ClassType::StatemachineClass => "statemachine class"@,
        ClassType::State => "state"@,
        ClassType::Abstract => "abstract class"@,
    }
}

impl ClassType {
    /// This kind's keyword, as an owned string.
    pub fn to_string(&self) -> (r: String)
        ensures
            r@ == class_type_text(*self),
    {
        match self {
            ClassType::Class => "class".to_owned(),
            ClassType::StatemachineClass => "statemachine class".to_owned(),
            ClassType::State => "state".to_owned(),
            ClassType::Abstract => "abstract class".to_owned(),
        }
    }
}

/// A visibility modifier on a class body statement.
pub enum EncapsulationType {
    Private,
    Public,
    Protected,
}

/// The keyword text of a visibility modifier.
pub open spec fn encapsulation_text(e: EncapsulationType) -> Seq<char> {
    match e {
        EncapsulationType::Private => "private"@,
        EncapsulationType::Public => "public"@,
        EncapsulationType::Protected => "protected"@,
    }
}

impl Codegen for EncapsulationType {
    open spec fn emit_spec(&self, context: &Context) -> Seq<char> {
        encapsulation_text(*self)
    }

    fn emit(&self, context: &Context, output: &mut String, data: &Option<EmitAdditionalData>) -> (r: Result<(), EmitError>) {
        match self {
            EncapsulationType::Private => output.append("private"),
            EncapsulationType::Public => output.append("public"),
            EncapsulationType::Protected => output.append("protected"),
        }
        Ok(())
    }

    fn emit_join(&self, context: &Context, output: &mut String, join_str: &'static str, data: &Option<EmitAdditionalData>) -> (r: Result<(), EmitError>) {
        self.emit(context, output, data)
    }
}

/// One statement in a class body: a method, a property, or a `default`
/// field-initializer statement.
pub enum ClassBodyStatement {
    Method { encapsulation: Option<EncapsulationType>, function_declaration: Box<FunctionDeclaration> },
    Property { encapsulation: Option<EncapsulationType>, property_declaration: VariableDeclaration },
    DefaultValue(VariableAssignment),
}

/// The text of an optional visibility modifier: the keyword and a space, or
/// nothing.
pub open spec fn opt_encapsulation_text(e: Option<EncapsulationType>) -> Seq<char> {
    match e {
        Some(x) => encapsulation_text(x) + " "@,
        None => Seq::<char>::empty(),
    }
}

/// The text of one class body statement under the ambient scope kind.
pub open spec fn class_stmt_text(s: ClassBodyStatement, ct: ContextType) -> Seq<char> {
    match s {
        ClassBodyStatement::Method { encapsulation, function_declaration } =>
            opt_encapsulation_text(encapsulation) + fn_text(*function_declaration),
        ClassBodyStatement::Property { encapsulation, property_declaration } =>
            opt_encapsulation_text(encapsulation) + var_decl_text(property_declaration, ct),
        ClassBodyStatement::DefaultValue(a) => "default "@ + assignment_text(a) + ";\n"@,
    }
}

impl Codegen for ClassBodyStatement {
    open spec fn emit_spec(&self, context: &Context) -> Seq<char> {
        class_stmt_text(*self, context.context_type)
    }

    fn emit(&self, context: &Context, output: &mut String, data: &Option<EmitAdditionalData>) -> (r: Result<(), EmitError>) {
        let ghost pre = output@;
        match self {
            ClassBodyStatement::Method { encapsulation, function_declaration } => {
                if let Some(encapsulation) = encapsulation {
                    encapsulation.emit(context, output, data)?;
                    output.append(" ");
                }
                function_declaration.emit(context, output, data)?;
            },
            ClassBodyStatement::Property { encapsulation, property_declaration } => {
                if let Some(encapsulation) = encapsulation {
                    encapsulation.emit(context, output, data)?;
                    output.append(" ");
                }
                property_declaration.emit(context, output, data)?;
            },
            ClassBodyStatement::DefaultValue(x) => {
                output.append("default ");
                x.emit(context, output, data)?;
                output.append(";\n");
            },
        }
        proof {
            assert(output@ =~= pre + class_stmt_text(*self, context.context_type));
        }
        Ok(())
    }

    fn emit_join(&self, context: &Context, output: &mut String, join_str: &'static str, data: &Option<EmitAdditionalData>) -> (r: Result<(), EmitError>) {
        self.emit(context, output, data)
    }
}

/// The text of a class body block: every statement in original order, each
/// followed by a line break.
pub open spec fn class_body_text(stmts: Seq<ClassBodyStatement>, ct: ContextType) -> Seq<char>
    decreases stmts.len(),
{
    if stmts.len() == 0 {
        Seq::<char>::empty()
    } else {
        class_body_text(stmts.drop_last(), ct) + class_stmt_text(stmts.last(), ct) + "\n"@
    }
}

/// One field declaration line.
pub open spec fn field_line(name: Seq<char>, ty: Seq<char>) -> Seq<char> {
    "var "@ + name + ": "@ + ty + ";\n"@
}

/// The set of names in a name sequence.
pub open spec fn name_set(names: Seq<Seq<char>>) -> Set<Seq<char>>
    decreases names.len(),
{
    if names.len() == 0 {
        Set::<Seq<char>>::empty()
    } else {
        name_set(names.drop_last()).insert(names.last())
    }
}

/// The set of all names declared by a sequence of declaration records.
pub open spec fn decls_name_set(decls: Seq<DeclModel>) -> Set<Seq<char>>
    decreases decls.len(),
{
    if decls.len() == 0 {
        Set::<Seq<char>>::empty()
    } else {
        decls_name_set(decls.drop_last()).union(name_set(decls.last().names))
    }
}

/// The field lines produced by one declaration record: one line per name, in
/// order, skipping any name already seen earlier in the field block.
pub open spec fn names_lines(names: Seq<Seq<char>>, ty: Seq<char>, seen: Set<Seq<char>>) -> Seq<char>
    decreases names.len(),
{
    if names.len() == 0 {
        Seq::<char>::empty()
    } else {
        names_lines(names.drop_last(), ty, seen) + if seen.contains(names.last()) || name_set(
            names.drop_last(),
        ).contains(names.last()) {
            Seq::<char>::empty()
        } else {
            field_line(names.last(), ty)
        }
    }
}

/// The deduplicated field block of a scope's accumulated declarations: one
/// `var <name>: <type>;` line for the first occurrence of each name, in
/// recorded order, and no line for any later occurrence.
pub open spec fn fields_text(decls: Seq<DeclModel>) -> Seq<char>
    decreases decls.len(),
{
    if decls.len() == 0 {
        Seq::<char>::empty()
    } else {
        fields_text(decls.drop_last()) + names_lines(
            decls.last().names,
            decls.last().ty,
            decls_name_set(decls.drop_last()),
        )
    }
}

/// The entries behind one declaration record's field lines: one
/// `(name, type)` pair per emitted line, in emission order.
pub open spec fn names_entries(names: Seq<Seq<char>>, ty: Seq<char>, seen: Set<Seq<char>>) -> Seq<(Seq<char>, Seq<char>)>
    decreases names.len(),
{
    if names.len() == 0 {
        Seq::<(Seq<char>, Seq<char>)>::empty()
    } else {
        names_entries(names.drop_last(), ty, seen) + if seen.contains(names.last()) || name_set(
            names.drop_last(),
        ).contains(names.last()) {
            Seq::<(Seq<char>, Seq<char>)>::empty()
        } else {
            seq![(names.last(), ty)]
        }
    }
}

/// The entries behind a field block: one `(name, type)` pair per emitted
/// line, in emission order.
pub open spec fn field_entries(decls: Seq<DeclModel>) -> Seq<(Seq<char>, Seq<char>)>
    decreases decls.len(),
{
    if decls.len() == 0 {
        Seq::<(Seq<char>, Seq<char>)>::empty()
    } else {
        field_entries(decls.drop_last()) + names_entries(
            decls.last().names,
            decls.last().ty,
            decls_name_set(decls.drop_last()),
        )
    }
}

/// The field lines of a sequence of entries.
pub open spec fn entries_lines(es: Seq<(Seq<char>, Seq<char>)>) -> Seq<char>
    decreases es.len(),
{
    if es.len() == 0 {
        Seq::<char>::empty()
    } else {
        entries_lines(es.drop_last()) + field_line(es.last().0, es.last().1)
    }
}

/// The type annotation of the first declaration record, in recorded order,
/// that declares `n`.
pub open spec fn first_type(decls: Seq<DeclModel>, n: Seq<char>) -> Seq<char>
    decreases decls.len(),
{
    if decls.len() == 0 {
        Seq::<char>::empty()
    } else if decls_name_set(decls.drop_last()).contains(n) {
        first_type(decls.drop_last(), n)
    } else {
        decls.last().ty
    }
}

proof fn lemma_entries_lines_concat(a: Seq<(Seq<char>, Seq<char>)>, b: Seq<(Seq<char>, Seq<char>)>)
    ensures
        entries_lines(a + b) == entries_lines(a) + entries_lines(b),
    decreases b.len(),
{
    if b.len() == 0 {
        assert(a + b =~= a);
        assert(entries_lines(a) + entries_lines(b) =~= entries_lines(a));
    } else {
        lemma_entries_lines_concat(a, b.drop_last());
        assert((a + b).drop_last() =~= a + b.drop_last());
        assert((a + b).last() == b.last());
        assert(entries_lines(a + b) =~= entries_lines(a) + entries_lines(b));
    }
}

proof fn lemma_names_lines_are_entries(names: Seq<Seq<char>>, ty: Seq<char>, seen: Set<Seq<char>>)
    ensures
        names_lines(names, ty, seen) == entries_lines(names_entries(names, ty, seen)),
    decreases names.len(),
{
    if names.len() > 0 {
        lemma_names_lines_are_entries(names.drop_last(), ty, seen);
        let prev = names_entries(names.drop_last(), ty, seen);
        if seen.contains(names.last()) || name_set(names.drop_last()).contains(names.last()) {
            assert(prev + Seq::<(Seq<char>, Seq<char>)>::empty() =~= prev);
            assert(names_lines(names, ty, seen) =~= entries_lines(names_entries(names, ty, seen)));
        } else {
            let e = (names.last(), ty);
            assert((prev + seq![e]).drop_last() =~= prev);
            assert((prev + seq![e]).last() == e);
            assert(names_lines(names, ty, seen) =~= entries_lines(names_entries(names, ty, seen)));
        }
    }
}

proof fn lemma_names_entries_props(names: Seq<Seq<char>>, ty: Seq<char>, seen: Set<Seq<char>>)
    ensures
        forall|k: int|
            0 <= k < names_entries(names, ty, seen).len() ==> {
                &&& !seen.contains((#[trigger] names_entries(names, ty, seen)[k]).0)
                &&& name_set(names).contains(names_entries(names, ty, seen)[k].0)
                &&& names_entries(names, ty, seen)[k].1 == ty
            },
        forall|i: int, j: int|
            0 <= i < j < names_entries(names, ty, seen).len() ==> (#[trigger] names_entries(
                names,
                ty,
                seen,
            )[i]).0 != (#[trigger] names_entries(names, ty, seen)[j]).0,
        forall|n: Seq<char>|
            #[trigger] name_set(names).contains(n) && !seen.contains(n) ==> exists|k: int|
                0 <= k < names_entries(names, ty, seen).len() && names_entries(
                    names,
                    ty,
                    seen,
                )[k].0 == n,
    decreases names.len(),
{
    if names.len() > 0 {
        lemma_names_entries_props(names.drop_last(), ty, seen);
        lemma_name_set_exists(names);
        lemma_name_set_exists(names.drop_last());
        let prev = names_entries(names.drop_last(), ty, seen);
        let whole = names_entries(names, ty, seen);
        let skipped = seen.contains(names.last()) || name_set(names.drop_last()).contains(
            names.last(),
        );
        assert(forall|k: int| 0 <= k < prev.len() ==> whole[k] == prev[k]);
        if !skipped {
            assert(whole.last() == (names.last(), ty));
        }
        assert forall|n: Seq<char>| #[trigger]
            name_set(names).contains(n) && !seen.contains(n) implies exists|k: int|
            0 <= k < whole.len() && whole[k].0 == n by {
            if name_set(names.drop_last()).contains(n) {
                let k = choose|k: int| 0 <= k < prev.len() && prev[k].0 == n;
                assert(whole[k].0 == n);
            } else {
                assert(n == names.last());
                assert(whole[whole.len() - 1].0 == n);
            }
        }
    }
}

proof fn lemma_fields_text_is_entries(decls: Seq<DeclModel>)
    ensures
        fields_text(decls) == entries_lines(field_entries(decls)),
    decreases decls.len(),
{
    if decls.len() > 0 {
        lemma_fields_text_is_entries(decls.drop_last());
        lemma_names_lines_are_entries(
            decls.last().names,
            decls.last().ty,
            decls_name_set(decls.drop_last()),
        );
        lemma_entries_lines_concat(
            field_entries(decls.drop_last()),
            names_entries(decls.last().names, decls.last().ty, decls_name_set(decls.drop_last())),
        );
    }
}

/// Law: field deduplication.  The field block of a scope's accumulated
/// declarations consists of one `var <name>: <type>;` line per entry of
/// [`field_entries`]; those entries carry pairwise distinct names; a name
/// has an entry exactly when some accumulated declaration declares it; and
/// each entry's type is the one of the first declaration, in recorded
/// order, that declares its name.
pub proof fn lemma_field_dedup(decls: Seq<DeclModel>)
    ensures
        fields_text(decls) == entries_lines(field_entries(decls)),
        forall|i: int, j: int|
            0 <= i < j < field_entries(decls).len() ==> (#[trigger] field_entries(decls)[i]).0 != (
            #[trigger] field_entries(decls)[j]).0,
        forall|n: Seq<char>|
            #[trigger] decls_name_set(decls).contains(n) <==> exists|k: int|
                0 <= k < field_entries(decls).len() && field_entries(decls)[k].0 == n,
        forall|k: int|
            0 <= k < field_entries(decls).len() ==> (#[trigger] field_entries(decls)[k]).1
                == first_type(decls, field_entries(decls)[k].0),
    decreases decls.len(),
{
    lemma_fields_text_is_entries(decls);
    if decls.len() > 0 {
        lemma_field_dedup(decls.drop_last());
        let seen = decls_name_set(decls.drop_last());
        lemma_names_entries_props(decls.last().names, decls.last().ty, seen);
        let prev = field_entries(decls.drop_last());
        let extra = names_entries(decls.last().names, decls.last().ty, seen);
        let whole = field_entries(decls);
        assert(forall|k: int| 0 <= k < prev.len() ==> whole[k] == prev[k]);
        assert(forall|k: int|
            prev.len() <= k < whole.len() ==> whole[k] == extra[k - prev.len()]);
        // names of earlier entries all lie in the seen set; the new ones do not
        assert forall|k: int| 0 <= k < prev.len() implies seen.contains(
            (#[trigger] whole[k]).0,
        ) by {
            assert(exists|k2: int| 0 <= k2 < prev.len() && prev[k2].0 == prev[k].0);
        }
        // distinctness across the boundary
        assert forall|i: int, j: int|
            0 <= i < j < whole.len() implies (#[trigger] whole[i]).0 != (
        #[trigger] whole[j]).0 by {
            if i < prev.len() && j >= prev.len() {
                assert(seen.contains(whole[i].0));
                assert(!seen.contains(whole[j].0));
            }
        }
        // coverage in both directions
        assert forall|n: Seq<char>| #[trigger]
            decls_name_set(decls).contains(n) implies exists|k: int|
            0 <= k < whole.len() && whole[k].0 == n by {
            if seen.contains(n) {
                let k = choose|k: int| 0 <= k < prev.len() && prev[k].0 == n;
                assert(whole[k].0 == n);
            } else {
                assert(name_set(decls.last().names).contains(n));
                let k = choose|k: int| 0 <= k < extra.len() && extra[k].0 == n;
                assert(whole[prev.len() + k].0 == n);
            }
        }
        assert forall|n: Seq<char>|
            (exists|k: int| 0 <= k < whole.len() && whole[k].0 == n) implies #[trigger]
        decls_name_set(decls).contains(n) by {
            let k = choose|k: int| 0 <= k < whole.len() && whole[k].0 == n;
            if k < prev.len() {
                assert(decls_name_set(decls.drop_last()).contains(n));
            } else {
                assert(name_set(decls.last().names).contains(n));
            }
        }
        // each entry keeps the type of its name's first declaring record
        assert forall|k: int| 0 <= k < whole.len() implies (#[trigger] whole[k]).1 == first_type(
            decls,
            whole[k].0,
        ) by {
            if k < prev.len() {
                assert(seen.contains(whole[k].0));
                assert(first_type(decls, whole[k].0) == first_type(decls.drop_last(), whole[k].0));
            } else {
                assert(!seen.contains(whole[k].0));
                assert(whole[k].1 == decls.last().ty);
            }
        }
    }
}

/// A name is in a name sequence's set exactly when some position holds it.
pub proof fn lemma_name_set_exists(names: Seq<Seq<char>>)
    ensures
        forall|x: Seq<char>|
            #[trigger] name_set(names).contains(x) <==> exists|k: int|
                0 <= k < names.len() && names[k] == x,
    decreases names.len(),
{
    if names.len() > 0 {
        lemma_name_set_exists(names.drop_last());
        assert forall|x: Seq<char>| #[trigger]
            name_set(names).contains(x) implies exists|k: int|
            0 <= k < names.len() && names[k] == x by {
            if names.last() == x {
                assert(names[names.len() - 1] == x);
            } else {
                assert(name_set(names.drop_last()).contains(x));
                let k = choose|k: int| 0 <= k < names.drop_last().len() && names.drop_last()[k] == x;
                assert(names.drop_last()[k] == names[k]);
                assert(names[k] == x);
            }
        }
        assert forall|x: Seq<char>|
            (exists|k: int| 0 <= k < names.len() && names[k] == x) implies #[trigger] name_set(
            names,
        ).contains(x) by {
            let k = choose|k: int| 0 <= k < names.len() && names[k] == x;
            if k == names.len() - 1 {
                assert(name_set(names).contains(names.last()));
            } else {
                assert(names.drop_last()[k] == x);
                assert(name_set(names.drop_last()).contains(x));
            }
        }
    }
}

/// The views of a sequence of strings.
pub open spec fn string_views(s: Seq<String>) -> Seq<Seq<char>> {
    s.map_values(|n: String| n@)
}

/// Whether `name`'s text is among the already-emitted names held in `seen`.
#[verifier::loop_isolation(false)]
fn contains_name(seen: &Vec<String>, name: &String) -> (r: bool)
    ensures
        r == name_set(string_views(seen@)).contains(name@),
{
    proof {
        lemma_name_set_exists(string_views(seen@));
    }
    let mut i: usize = 0;
    while i < seen.len()
        invariant
            i <= seen@.len(),
            forall|k: int| 0 <= k < i as int ==> seen@[k]@ != name@,
        decreases seen@.len() - i,
    {
        if seen[i] == *name {
            proof {
                assert(string_views(seen@)[i as int] == name@);
            }
            return true;
        }
        i = i + 1;
    }
    proof {
        assert(forall|k: int|
            0 <= k < string_views(seen@).len() ==> string_views(seen@)[k] == seen@[k]@);
    }
    false
}

/// A class declaration: its kind, name, optional extended class, optional
/// parent class (for `state X in Y`), optional generic type parameters, body
/// statements, and its own `Context`.
pub struct ClassDeclaration {
    pub class_type: ClassType,
    pub name: String,
    pub extended_class_name: Option<String>,
    pub parent_class_name: Option<String>,
    pub generic_types: Option<Vec<String>>,
    pub body_statements: Vec<ClassBodyStatement>,
    pub context: Context,
}

/// The name a class block is emitted under: the context's mangled accessor
/// when present, else the declared name, followed by the variant suffix.
pub open spec fn emitted_class_name(c: ClassDeclaration, mangled: Option<Seq<char>>, suffix: Seq<char>) -> Seq<char> {
    (match mangled {
        Some(m) => m,
        None => c.name@,
    }) + suffix
}

/// The view of an optional mangled accessor.
pub open spec fn mangled_view(m: Option<String>) -> Option<Seq<char>> {
    match m {
        Some(s) => Some(s@),
        None => None,
    }
}

/// One complete class block, over the projections of the governing context
/// that emission reads: the mangled accessor, the accumulated declarations'
/// models, and the scope kind.  The generic-expansion scratch state is not
/// among them, so a variant's block can never depend on it.
pub open spec fn class_block_core(
    c: ClassDeclaration,
    mangled: Option<Seq<char>>,
    decls: Seq<DeclModel>,
    ct: ContextType,
    suffix: Seq<char>,
) -> Seq<char> {
    class_type_text(c.class_type) + " "@ + emitted_class_name(c, mangled, suffix) + (match c
        .parent_class_name {
        Some(p) => " in "@ + p@,
        None => Seq::<char>::empty(),
    }) + (match c.extended_class_name {
        Some(x) => " extends "@ + x@,
        None => Seq::<char>::empty(),
    }) + " {\n"@ + fields_text(decls) + class_body_text(c.body_statements@, ct) + "}\n"@
}

/// One complete class block under the given governing context and variant
/// suffix.
pub open spec fn class_block_text(c: ClassDeclaration, context: Context, suffix: Seq<char>) -> Seq<char> {
    class_block_core(
        c,
        mangled_view(context.mangled_accessor),
        decl_models(context.variable_declarations@),
        context.context_type,
        suffix,
    )
}

/// The blocks of every registered variant, in registration order, each a
/// complete, independent emission of the class under that variant's
/// identifier as suffix.
pub open spec fn variants_text(c: ClassDeclaration, variants: Seq<(String, String)>) -> Seq<char>
    decreases variants.len(),
{
    if variants.len() == 0 {
        Seq::<char>::empty()
    } else {
        variants_text(c, variants.drop_last()) + class_block_text(
            c,
            c.context,
            variants.last().0@,
        )
    }
}

/// Emits one complete class block: header (kind, emitted name, optional
/// `in`/`extends` clauses), the deduplicated field block of the context's
/// accumulated declarations, and every body statement in order.
#[verifier::loop_isolation(false)]
#[verifier::rlimit(100)]
#[verifier::spinoff_prover]
fn emit_field_block(context: &Context, f: &mut String, data: &Option<EmitAdditionalData>) -> (r: Result<(), EmitError>)
    ensures
        r is Ok,
        final(f)@ == old(f)@ + fields_text(decl_models(context.variable_declarations@)),
{
    let ghost decls = decl_models(context.variable_declarations@);
    let ghost pre_fields = f@;
    let mut seen: Vec<String> = Vec::new();
    let mut i: usize = 0;
    proof {
        assert(decls.take(0) =~= Seq::<DeclModel>::empty());
        assert(string_views(seen@) =~= Seq::<Seq<char>>::empty());
        assert(name_set(string_views(seen@)) =~= decls_name_set(decls.take(0)));
    }
    while i < context.variable_declarations.len()
        invariant
            i <= decls.len(),
            f@ == pre_fields + fields_text(decls.take(i as int)),
            name_set(string_views(seen@)) == decls_name_set(decls.take(i as int)),
        decreases decls.len() - i,
    {
        let declaration = &context.variable_declarations[i];
        let ghost dm = context.variable_declarations@[i as int].model();
        let ghost seen0 = name_set(string_views(seen@));
        let ghost after_outer = f@;
        proof {
            assert(dm == decls[i as int]);
            assert(dm.names.take(0) =~= Seq::<Seq<char>>::empty());
            assert(seen0.union(name_set(dm.names.take(0))) =~= seen0);
        }
        let mut j: usize = 0;
        while j < declaration.names.len()
            invariant
                j <= dm.names.len(),
                f@ == after_outer + names_lines(dm.names.take(j as int), dm.ty, seen0),
                name_set(string_views(seen@)) == seen0.union(name_set(dm.names.take(j as int))),
            decreases dm.names.len() - j,
        {
            let name = &declaration.names[j];
            proof {
                assert(dm.names[j as int] == declaration.names@[j as int]@);
            }
            if !contains_name(&seen, name) {
                f.append("var ");
                f.append(name.as_str());
                f.append(": ");
                declaration.type_declaration.emit(context, f, data)?;
                f.append(";\n");
                let ghost seen_before = seen@;
                seen.push(name.clone());
                proof {
                    assert(string_views(seen@).drop_last() =~= string_views(seen_before));
                    assert(string_views(seen@).last() == name@);
                    assert(name_set(string_views(seen@)) == name_set(string_views(seen_before))
                        .insert(name@));
                }
            }
            proof {
                let taken = dm.names.take(j + 1 as int);
                assert(taken.drop_last() =~= dm.names.take(j as int));
                assert(taken.last() == dm.names[j as int]);
                // the skip condition of the spec matches what the seen list held
                assert(seen0.union(name_set(dm.names.take(j as int))).contains(dm.names[j as int])
                    == (seen0.contains(dm.names[j as int]) || name_set(dm.names.take(j as int))
                    .contains(dm.names[j as int])));
                assert(f@ =~= after_outer + names_lines(taken, dm.ty, seen0));
                assert(name_set(dm.names.take(j + 1 as int)) == name_set(dm.names.take(j as int))
                    .insert(dm.names[j as int]));
                assert(seen0.union(name_set(dm.names.take(j + 1 as int))) =~= seen0.union(
                    name_set(dm.names.take(j as int)),
                ).insert(dm.names[j as int]));
                if seen0.union(name_set(dm.names.take(j as int))).contains(dm.names[j as int]) {
                    assert(seen0.union(name_set(dm.names.take(j + 1 as int))) =~= seen0.union(
                        name_set(dm.names.take(j as int)),
                    ));
                }
            }
            j = j + 1;
        }
        proof {
            assert(dm.names.take(dm.names.len() as int) =~= dm.names);
            assert(decls.take(i + 1 as int).drop_last() =~= decls.take(i as int));
            assert(decls.take(i + 1 as int).last() == decls[i as int]);
            assert(f@ =~= pre_fields + fields_text(decls.take(i + 1 as int)));
            assert(decls_name_set(decls.take(i + 1 as int)) =~= decls_name_set(decls.take(i as int))
                .union(name_set(dm.names)));
        }
        i = i + 1;
    }
    proof {
        assert(decls.take(decls.len() as int) =~= decls);
    }
    Ok(())
}

#[verifier::loop_isolation(false)]
#[verifier::rlimit(60)]
#[verifier::spinoff_prover]
fn emit_body_block(this: &ClassDeclaration, context: &Context, f: &mut String, data: &Option<EmitAdditionalData>) -> (r: Result<(), EmitError>)
    ensures
        r is Ok,
        final(f)@ == old(f)@ + class_body_text(this.body_statements@, context.context_type),
{
    let ghost pre_body = f@;
    let ghost ct = context.context_type;
    let mut k: usize = 0;
    while k < this.body_statements.len()
        invariant
            k <= this.body_statements@.len(),
            f@ == pre_body + class_body_text(this.body_statements@.take(k as int), ct),
        decreases this.body_statements@.len() - k,
    {
        (&this.body_statements[k]).emit(context, f, data)?;
        f.append("\n");
        proof {
            assert(this.body_statements@.take(k + 1 as int).drop_last() =~= this.body_statements@
                .take(k as int));
            assert(this.body_statements@.take(k + 1 as int).last() == this.body_statements@[
                k as int
            ]);
            assert(f@ =~= pre_body + class_body_text(this.body_statements@.take(k + 1 as int), ct));
        }
        k = k + 1;
    }
    proof {
        assert(this.body_statements@.take(this.body_statements@.len() as int)
            =~= this.body_statements@);
    }
    Ok(())
}

/// Emits one complete class block: header (kind, emitted name, optional
/// `in`/`extends` clauses), the deduplicated field block of the context's
/// accumulated declarations, and every body statement in order.
#[verifier::loop_isolation(false)]
#[verifier::rlimit(60)]
#[verifier::spinoff_prover]
pub fn emit_class(
    this: &ClassDeclaration,
    context: &Context,
    f: &mut String,
    data: &Option<EmitAdditionalData>,
    generic_variant_suffix: &str,
) -> (r: Result<(), EmitError>)
    ensures
        r is Ok,
        final(f)@ == old(f)@ + class_block_text(*this, *context, generic_variant_suffix@),
{
    let ghost pre = f@;
    match &this.class_type {
        ClassType::Class => f.append("class"),
        ClassType::StatemachineClass => f.append("statemachine class"),
        ClassType::State => f.append("state"),
        ClassType::Abstract => f.append("abstract class"),
    }
    f.append(" ");
    if let Some(mangled_accessor) = &context.mangled_accessor {
        f.append(mangled_accessor.as_str());
    } else {
        f.append(this.name.as_str());
    }
    f.append(generic_variant_suffix);
    if let Some(parent_class_name) = &this.parent_class_name {
        f.append(" in ");
        f.append(parent_class_name.as_str());
    }
    if let Some(extended_class_name) = &this.extended_class_name {
        f.append(" extends ");
        f.append(extended_class_name.as_str());
    }
    f.append(" {\n");
    emit_field_block(context, f, data)?;
    emit_body_block(this, context, f, data)?;
    f.append("}\n");
    proof {
        assert(f@ =~= pre + class_block_text(*this, *context, generic_variant_suffix@));
    }
    Ok(())
}

impl Codegen for ClassDeclaration {
    /// A class with a generic-expansion record emits one complete block per
    /// registered variant, in registration order; a plain class emits one
    /// block with the empty variant suffix.  Both read the class's own
    /// context.
    open spec fn emit_spec(&self, context: &Context) -> Seq<char> {
        match self.context.generic_context {
            Some(g) => variants_text(*self, g.translation_variants@),
            None => class_block_text(*self, self.context, Seq::<char>::empty()),
        }
    }

    fn emit(&self, context: &Context, output: &mut String, data: &Option<EmitAdditionalData>) -> (r: Result<(), EmitError>) {
        let ghost pre = output@;
        match &self.context.generic_context {
            Some(generic_context) => {
                let ghost variants = generic_context.translation_variants@;
                let mut i: usize = 0;
                proof {
                    assert(variants.take(0) =~= Seq::<(String, String)>::empty());
                }
                while i < generic_context.translation_variants.len()
                    invariant
                        i <= variants.len(),
                        variants == generic_context.translation_variants@,
                        self.context.generic_context == Some(*generic_context),
                        output@ == pre + variants_text(*self, variants.take(i as int)),
                    decreases variants.len() - i,
                {
                    // the variant identifier is threaded explicitly as the
                    // name-mangling suffix of this variant's emission.
                    emit_class(
                        self,
                        &self.context,
                        output,
                        data,
                        generic_context.translation_variants[i].0.as_str(),
                    )?;
                    proof {
                        assert(variants.take(i + 1 as int).drop_last() =~= variants.take(i as int));
                        assert(variants.take(i + 1 as int).last() == variants[i as int]);
                        assert(output@ =~= pre + variants_text(*self, variants.take(i + 1 as int)));
                    }
                    i = i + 1;
                }
                proof {
                    assert(variants.take(variants.len() as int) =~= variants);
                }
            },
            None => {
                emit_class(self, &self.context, output, data, "")?;
                proof {
                    reveal_strlit("");
                    assert(""@ =~= Seq::<char>::empty());
                }
            },
        }
        Ok(())
    }

    fn emit_join(&self, context: &Context, output: &mut String, join_str: &'static str, data: &Option<EmitAdditionalData>) -> (r: Result<(), EmitError>) {
        self.emit(context, output, data)
    }
}

proof fn lemma_append_cancel(s: Seq<char>, a: Seq<char>, b: Seq<char>)
    requires
        s + a == s + b,
    ensures
        a == b,
{
    assert((s + a).skip(s.len() as int) =~= a);
    assert((s + b).skip(s.len() as int) =~= b);
}

/// Law: a class block never reads the generic-expansion scratch state.  Two
/// governing contexts that agree on everything emission reads — the mangled
/// accessor, the accumulated declarations' models, and the scope kind — give
/// the same block, whatever their generic-expansion records (in particular
/// their `currently_used_variant` selections) hold.
pub proof fn lemma_block_ignores_variant_scratch(
    c: ClassDeclaration,
    ctx1: Context,
    ctx2: Context,
    suffix: Seq<char>,
)
    requires
        ctx1.mangled_accessor == ctx2.mangled_accessor,
        decl_models(ctx1.variable_declarations@) == decl_models(ctx2.variable_declarations@),
        ctx1.context_type == ctx2.context_type,
    ensures
        class_block_text(c, ctx1, suffix) == class_block_text(c, ctx2, suffix),
{
}

/// Law: variant completeness.  A generic class with exactly two registered
/// variants emits exactly two complete class blocks, in registration order,
/// each a full, independent emission of the class under its own variant
/// suffix, and — the identifiers being distinct, as
/// [`Context::begin_generic_expansion`] requires — the two blocks are
/// emitted under distinct mangled names.
pub proof fn lemma_variant_completeness(c: ClassDeclaration, ambient: &Context)
    requires
        c.context.generic_context is Some,
        c.context.generic_context.unwrap().translation_variants@.len() == 2,
        distinct_variant_ids(c.context.generic_context.unwrap().translation_variants@),
    ensures
        c.emit_spec(ambient) == class_block_text(
            c,
            c.context,
            c.context.generic_context.unwrap().translation_variants@[0].0@,
        ) + class_block_text(
            c,
            c.context,
            c.context.generic_context.unwrap().translation_variants@[1].0@,
        ),
        emitted_class_name(
            c,
            mangled_view(c.context.mangled_accessor),
            c.context.generic_context.unwrap().translation_variants@[0].0@,
        ) != emitted_class_name(
            c,
            mangled_view(c.context.mangled_accessor),
            c.context.generic_context.unwrap().translation_variants@[1].0@,
        ),
{
    let vs = c.context.generic_context.unwrap().translation_variants@;
    assert(vs.drop_last().len() == 1);
    assert(vs.drop_last().drop_last() =~= Seq::<(String, String)>::empty());
    assert(vs.drop_last().last() == vs[0]);
    assert(vs.last() == vs[1]);
    assert(variants_text(c, vs.drop_last().drop_last()) == Seq::<char>::empty());
    assert(variants_text(c, vs.drop_last()) == variants_text(c, vs.drop_last().drop_last())
        + class_block_text(c, c.context, vs.drop_last().last().0@));
    assert(variants_text(c, vs.drop_last()) =~= class_block_text(c, c.context, vs[0].0@));
    assert(variants_text(c, vs) == variants_text(c, vs.drop_last()) + class_block_text(
        c,
        c.context,
        vs.last().0@,
    ));
    let base = match mangled_view(c.context.mangled_accessor) {
        Some(m) => m,
        None => c.name@,
    };
    assert(vs[0].0@ != vs[1].0@);
    if emitted_class_name(c, mangled_view(c.context.mangled_accessor), vs[0].0@)
        == emitted_class_name(c, mangled_view(c.context.mangled_accessor), vs[1].0@) {
        lemma_append_cancel(base, vs[0].0@, vs[1].0@);
    }
}

} // verus!

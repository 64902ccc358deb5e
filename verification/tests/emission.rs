use scriptgen::builder::build_class_context;
use scriptgen::classes::{emit_class, ClassBodyStatement, ClassDeclaration, ClassType, EncapsulationType};
use scriptgen::codegen::Codegen;
use scriptgen::context::{Context, ContextType};
use scriptgen::expressions::Expression;
use scriptgen::functions::FunctionDeclaration;
use scriptgen::identifiers::{IdentifierTerm, TypeDeclaration, TypedIdentifier};
use scriptgen::variables::{AssignmentType, VariableAssignment, VariableDeclaration, VariableDeclarationOrAssignment};
use std::rc::Rc;

fn typed(names: &[&str], ty: &str) -> TypedIdentifier {
    TypedIdentifier {
        names: names.iter().map(|n| n.to_string()).collect(),
        type_declaration: TypeDeclaration { name: ty.to_string() },
    }
}

fn int_decl(name: &str, value: &str) -> VariableDeclaration {
    VariableDeclaration {
        declaration: typed(&[name], "Int"),
        following_expression: Some(Rc::new(Expression::IntegerLiteral(value.to_string()))),
    }
}

fn function(name: &str, body: Vec<VariableDeclarationOrAssignment>) -> FunctionDeclaration {
    FunctionDeclaration {
        name: name.to_string(),
        parameters: Vec::new(),
        body_statements: body,
        context: Context::create_scope(ContextType::Function),
    }
}

fn bare_class(class_type: ClassType, name: &str, body: Vec<ClassBodyStatement>) -> ClassDeclaration {
    ClassDeclaration {
        class_type,
        name: name.to_string(),
        extended_class_name: None,
        parent_class_name: None,
        generic_types: None,
        body_statements: body,
        context: Context::create_scope(ContextType::ClassOrStruct),
    }
}

fn scenario_class() -> ClassDeclaration {
    bare_class(
        ClassType::Class,
        "Foo",
        vec![ClassBodyStatement::Method {
            encapsulation: None,
            function_declaration: Box::new(function(
                "init",
                vec![
                    VariableDeclarationOrAssignment::Declaration(int_decl("x", "5")),
                    VariableDeclarationOrAssignment::Declaration(int_decl("x", "7")),
                ],
            )),
        }],
    )
}

#[test]
fn hoisted_declaration_emits_one_field_and_two_assignments() {
    let mut class = scenario_class();
    build_class_context(&mut class);
    let ambient = Context::create_scope(ContextType::Global);
    let mut out = String::new();
    let r = class.emit(&ambient, &mut out, &None);
    assert!(r.is_ok());
    assert_eq!(
        out,
        "class Foo {\nvar x: Int;\nfunction init() {\nx = 5;\nx = 7;\n}\n}\n"
    );
}

#[test]
fn emitting_twice_is_byte_identical() {
    let mut class = scenario_class();
    build_class_context(&mut class);
    let ambient = Context::create_scope(ContextType::Global);
    let mut first = String::new();
    let mut second = String::new();
    class.emit(&ambient, &mut first, &None).unwrap();
    class.emit(&ambient, &mut second, &None).unwrap();
    assert_eq!(first, second);
}

#[test]
fn generic_class_emits_every_variant_in_order() {
    let mut class = bare_class(ClassType::Class, "Pair", Vec::new());
    class.generic_types = Some(vec!["T".to_string()]);
    build_class_context(&mut class);
    class.context.begin_generic_expansion(vec![
        ("A".to_string(), "int".to_string()),
        ("B".to_string(), "string".to_string()),
    ]);
    let ambient = Context::create_scope(ContextType::Global);
    let mut out = String::new();
    class.emit(&ambient, &mut out, &None).unwrap();
    assert_eq!(out, "class PairA {\n}\nclass PairB {\n}\n");
}

#[test]
fn variant_emission_ignores_selected_scratch_variant() {
    let mut class = bare_class(ClassType::Class, "Pair", Vec::new());
    build_class_context(&mut class);
    class.context.begin_generic_expansion(vec![
        ("A".to_string(), "int".to_string()),
        ("B".to_string(), "string".to_string()),
    ]);
    let ambient = Context::create_scope(ContextType::Global);
    let mut plain = String::new();
    class.emit(&ambient, &mut plain, &None).unwrap();
    class.context.select_variant("B".to_string());
    let mut selected = String::new();
    class.emit(&ambient, &mut selected, &None).unwrap();
    assert_eq!(plain, selected);
}

#[test]
fn mangled_accessor_replaces_declared_name() {
    let mut class = bare_class(ClassType::Class, "Pair", Vec::new());
    build_class_context(&mut class);
    class.context.mangled_accessor = Some("Pair_mangled".to_string());
    class.context.begin_generic_expansion(vec![("A".to_string(), "int".to_string())]);
    let ambient = Context::create_scope(ContextType::Global);
    let mut out = String::new();
    class.emit(&ambient, &mut out, &None).unwrap();
    assert_eq!(out, "class Pair_mangledA {\n}\n");
}

#[test]
fn state_class_header_has_parent_and_extends_clauses() {
    let mut class = bare_class(ClassType::State, "Idle", Vec::new());
    class.parent_class_name = Some("Guard".to_string());
    class.extended_class_name = Some("BaseState".to_string());
    build_class_context(&mut class);
    let ambient = Context::create_scope(ContextType::Global);
    let mut out = String::new();
    class.emit(&ambient, &mut out, &None).unwrap();
    assert_eq!(out, "state Idle in Guard extends BaseState {\n}\n");
}

#[test]
fn statemachine_and_abstract_keywords() {
    assert_eq!(ClassType::StatemachineClass.to_string(), "statemachine class");
    assert_eq!(ClassType::Abstract.to_string(), "abstract class");
    assert_eq!(ClassType::Class.to_string(), "class");
    assert_eq!(ClassType::State.to_string(), "state");
}

#[test]
fn property_and_default_value_statements() {
    let property = ClassBodyStatement::Property {
        encapsulation: Some(EncapsulationType::Public),
        property_declaration: int_decl("hp", "5"),
    };
    let default_value = ClassBodyStatement::DefaultValue(VariableAssignment {
        variable_name: Box::new(IdentifierTerm { text: "hp".to_string() }),
        assignment_type: AssignmentType::Equal,
        following_expression: Rc::new(Expression::IntegerLiteral("100".to_string())),
    });
    let mut class = bare_class(ClassType::Class, "Unit", vec![property, default_value]);
    build_class_context(&mut class);
    let ambient = Context::create_scope(ContextType::Global);
    let mut out = String::new();
    class.emit(&ambient, &mut out, &None).unwrap();
    assert_eq!(
        out,
        "class Unit {\npublic var hp: Int;\ndefault hp = 5;\n\ndefault hp = 100;\n\n}\n"
    );
}

#[test]
fn field_block_keeps_type_of_first_occurrence() {
    // two recorded declarations sharing a name but not a type: one line,
    // with the first type.
    let mut context = Context::create_scope(ContextType::ClassOrStruct);
    context.record_variable_declaration(typed(&["x"], "Int"));
    context.record_variable_declaration(typed(&["x"], "Float"));
    context.record_variable_declaration(typed(&["y"], "Bool"));
    let class = bare_class(ClassType::Class, "Mixed", Vec::new());
    let mut out = String::new();
    emit_class(&class, &context, &mut out, &None, "").unwrap();
    assert_eq!(out, "class Mixed {\nvar x: Int;\nvar y: Bool;\n}\n");
}

#[test]
fn multi_name_declaration_dedups_within_one_record() {
    let mut context = Context::create_scope(ContextType::ClassOrStruct);
    context.record_variable_declaration(typed(&["a", "b", "a"], "Int"));
    let class = bare_class(ClassType::Class, "Twice", Vec::new());
    let mut out = String::new();
    emit_class(&class, &context, &mut out, &None, "").unwrap();
    assert_eq!(out, "class Twice {\nvar a: Int;\nvar b: Int;\n}\n");
}

#[test]
fn function_scope_declaration_without_initializer_emits_nothing() {
    let decl = VariableDeclaration {
        declaration: typed(&["x"], "Int"),
        following_expression: None,
    };
    let function_context = Context::create_scope(ContextType::Function);
    let mut out = String::new();
    decl.emit(&function_context, &mut out, &None).unwrap();
    assert_eq!(out, "");
}

#[test]
fn class_scope_declaration_emits_field_then_default() {
    let decl = int_decl("hp", "5");
    let class_context = Context::create_scope(ContextType::ClassOrStruct);
    let mut out = String::new();
    decl.emit(&class_context, &mut out, &None).unwrap();
    assert_eq!(out, "var hp: Int;\ndefault hp = 5;\n");
}

#[test]
fn assignment_operators_emit_their_signs() {
    let assignment = VariableAssignment {
        variable_name: Box::new(IdentifierTerm { text: "count".to_string() }),
        assignment_type: AssignmentType::PlusEqual,
        following_expression: Rc::new(Expression::IntegerLiteral("1".to_string())),
    };
    let context = Context::create_scope(ContextType::Function);
    let mut out = String::new();
    assignment.emit(&context, &mut out, &None).unwrap();
    assert_eq!(out, "count += 1");
}

#[test]
fn expressions_emit_their_lexemes() {
    let context = Context::create_scope(ContextType::Function);
    let mut out = String::new();
    Expression::StringLiteral("hi".to_string()).emit(&context, &mut out, &None).unwrap();
    Expression::BooleanLiteral(true).emit(&context, &mut out, &None).unwrap();
    Expression::BooleanLiteral(false).emit(&context, &mut out, &None).unwrap();
    Expression::Identifier(Box::new(IdentifierTerm { text: "it".to_string() }))
        .emit(&context, &mut out, &None)
        .unwrap();
    assert_eq!(out, "\"hi\"truefalseit");
}

#[test]
fn empty_sequence_and_absent_child_emit_zero_bytes() {
    let context = Context::create_scope(ContextType::Global);
    let mut out = String::new();
    let empty: Vec<Expression> = Vec::new();
    assert!(empty.emit(&context, &mut out, &None).is_ok());
    let absent: Option<Expression> = None;
    assert!(absent.emit(&context, &mut out, &None).is_ok());
    assert_eq!(out, "");
}

#[test]
fn join_separates_neighbours_only() {
    let context = Context::create_scope(ContextType::Global);
    let names: Vec<String> = vec!["a".to_string(), "b".to_string(), "c".to_string()];
    let mut out = String::new();
    names.emit_join(&context, &mut out, ", ", &None).unwrap();
    assert_eq!(out, "a, b, c");
    let single: Vec<String> = vec!["only".to_string()];
    let mut one = String::new();
    single.emit_join(&context, &mut one, ", ", &None).unwrap();
    assert_eq!(one, "only");
}

#[test]
fn typed_identifier_joins_names_before_type() {
    let context = Context::create_scope(ContextType::Global);
    let mut out = String::new();
    typed(&["a", "b"], "int").emit(&context, &mut out, &None).unwrap();
    assert_eq!(out, "a, b: int");
}

#[test]
fn function_parameters_are_joined() {
    let mut f = function("add_points", Vec::new());
    f.parameters.push(typed(&["amount"], "Int"));
    f.parameters.push(typed(&["silent"], "Bool"));
    let ambient = Context::create_scope(ContextType::ClassOrStruct);
    let mut out = String::new();
    f.emit(&ambient, &mut out, &None).unwrap();
    assert_eq!(out, "function add_points(amount: Int, silent: Bool) {\n}");
}

#[test]
fn generic_class_with_zero_variants_emits_nothing() {
    let mut class = bare_class(ClassType::Class, "Ghostly", Vec::new());
    build_class_context(&mut class);
    class.context.begin_generic_expansion(Vec::new());
    let ambient = Context::create_scope(ContextType::Global);
    let mut out = String::new();
    assert!(class.emit(&ambient, &mut out, &None).is_ok());
    assert_eq!(out, "");
}

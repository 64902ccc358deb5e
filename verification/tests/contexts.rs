use scriptgen::builder::{build_class_context, build_function_context};
use scriptgen::classes::{ClassBodyStatement, ClassDeclaration, ClassType};
use scriptgen::context::{Context, ContextType};
use scriptgen::expressions::Expression;
use scriptgen::functions::FunctionDeclaration;
use scriptgen::identifiers::{TypeDeclaration, TypedIdentifier};
use scriptgen::variables::{VariableDeclaration, VariableDeclarationOrAssignment};
use std::rc::Rc;

fn typed(name: &str, ty: &str) -> TypedIdentifier {
    TypedIdentifier {
        names: vec![name.to_string()],
        type_declaration: TypeDeclaration { name: ty.to_string() },
    }
}

fn local_decl(name: &str, value: &str) -> VariableDeclarationOrAssignment {
    VariableDeclarationOrAssignment::Declaration(VariableDeclaration {
        declaration: typed(name, "Int"),
        following_expression: Some(Rc::new(Expression::IntegerLiteral(value.to_string()))),
    })
}

fn method(name: &str, body: Vec<VariableDeclarationOrAssignment>) -> ClassBodyStatement {
    ClassBodyStatement::Method {
        encapsulation: None,
        function_declaration: Box::new(FunctionDeclaration {
            name: name.to_string(),
            parameters: Vec::new(),
            body_statements: body,
            context: Context::create_scope(ContextType::Function),
        }),
    }
}

fn class_with(body: Vec<ClassBodyStatement>) -> ClassDeclaration {
    ClassDeclaration {
        class_type: ClassType::Class,
        name: "Holder".to_string(),
        extended_class_name: None,
        parent_class_name: None,
        generic_types: None,
        body_statements: body,
        context: Context::create_scope(ContextType::ClassOrStruct),
    }
}

#[test]
fn create_scope_starts_empty() {
    let context = Context::create_scope(ContextType::Function);
    assert!(context.variable_declarations.is_empty());
    assert!(context.mangled_accessor.is_none());
    assert!(context.generic_context.is_none());
}

#[test]
fn recorded_declarations_accumulate_in_order() {
    let mut context = Context::create_scope(ContextType::ClassOrStruct);
    context.record_variable_declaration(typed("a", "Int"));
    context.record_variable_declaration(typed("b", "Bool"));
    assert_eq!(context.variable_declarations.len(), 2);
    assert_eq!(context.variable_declarations[0].names[0], "a");
    assert_eq!(context.variable_declarations[1].names[0], "b");
}

#[test]
fn begin_generic_expansion_and_select_variant() {
    let mut context = Context::create_scope(ContextType::ClassOrStruct);
    context.begin_generic_expansion(vec![("A".to_string(), "int".to_string())]);
    let generic = context.generic_context.as_ref().unwrap();
    assert_eq!(generic.translation_variants.len(), 1);
    assert!(generic.currently_used_variant.is_none());
    context.select_variant("A".to_string());
    let generic = context.generic_context.as_ref().unwrap();
    assert_eq!(generic.currently_used_variant.as_deref(), Some("A"));
}

#[test]
fn function_context_records_only_its_own_declarations() {
    let mut class = class_with(vec![
        method("first", vec![local_decl("a", "1")]),
        method("second", vec![local_decl("b", "2"), local_decl("c", "3")]),
    ]);
    build_class_context(&mut class);
    match &class.body_statements[0] {
        ClassBodyStatement::Method { function_declaration, .. } => {
            let recorded = &function_declaration.context.variable_declarations;
            assert_eq!(recorded.len(), 1);
            assert_eq!(recorded[0].names[0], "a");
            assert!(matches!(
                function_declaration.context.context_type,
                ContextType::Function
            ));
        }
        _ => panic!("first statement should stay a method"),
    }
    match &class.body_statements[1] {
        ClassBodyStatement::Method { function_declaration, .. } => {
            let recorded = &function_declaration.context.variable_declarations;
            assert_eq!(recorded.len(), 2);
            assert_eq!(recorded[0].names[0], "b");
            assert_eq!(recorded[1].names[0], "c");
        }
        _ => panic!("second statement should stay a method"),
    }
}

#[test]
fn class_context_receives_hoisted_declarations_in_body_order() {
    let mut class = class_with(vec![
        method("first", vec![local_decl("a", "1")]),
        method("second", vec![local_decl("b", "2")]),
    ]);
    build_class_context(&mut class);
    let hoisted = &class.context.variable_declarations;
    assert_eq!(hoisted.len(), 2);
    assert_eq!(hoisted[0].names[0], "a");
    assert_eq!(hoisted[1].names[0], "b");
    assert!(matches!(class.context.context_type, ContextType::ClassOrStruct));
}

#[test]
fn build_function_context_hoists_copies_into_class_context() {
    let function = FunctionDeclaration {
        name: "step".to_string(),
        parameters: Vec::new(),
        body_statements: vec![local_decl("x", "1")],
        context: Context::create_scope(ContextType::Function),
    };
    let mut class_context = Context::create_scope(ContextType::ClassOrStruct);
    let rebuilt = build_function_context(function, &mut class_context);
    assert_eq!(rebuilt.context.variable_declarations.len(), 1);
    assert_eq!(class_context.variable_declarations.len(), 1);
    assert_eq!(class_context.variable_declarations[0].names[0], "x");
}

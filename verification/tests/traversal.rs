use scriptgen::classes::{ClassBodyStatement, ClassDeclaration, ClassType};
use scriptgen::context::{Context, ContextType};
use scriptgen::expressions::Expression;
use scriptgen::functions::FunctionDeclaration;
use scriptgen::identifiers::{TypeDeclaration, TypedIdentifier};
use scriptgen::variables::{VariableDeclaration, VariableDeclarationOrAssignment};
use scriptgen::expressions::Expression as ExpressionNode;
use scriptgen::identifiers::IdentifierTerm;
use scriptgen::visitor::{DeclarationCounter, Visited, Visitor, VisitorType};
use std::rc::Rc;

struct CountingVisitor {
    mode: VisitorType,
    classes: usize,
    functions: usize,
    declarations: usize,
}

impl CountingVisitor {
    fn new(mode: VisitorType) -> CountingVisitor {
        CountingVisitor { mode, classes: 0, functions: 0, declarations: 0 }
    }
}

impl Visitor for CountingVisitor {
    fn visitor_type(&self) -> VisitorType {
        self.mode
    }

    fn visit_class_declaration(&mut self, _node: &ClassDeclaration) {
        self.classes += 1;
    }

    fn visit_function_declaration(&mut self, _node: &FunctionDeclaration) {
        self.functions += 1;
    }

    fn visit_variable_declaration(&mut self, _node: &VariableDeclaration) {
        self.declarations += 1;
    }

    fn visit_expression(&mut self, _node: &ExpressionNode) {}

    fn visit_identifier_term(&mut self, _node: &IdentifierTerm) {}

    fn visit_typed_identifier(&mut self, _node: &TypedIdentifier) {}
}

fn sample_class() -> ClassDeclaration {
    ClassDeclaration {
        class_type: ClassType::Class,
        name: "Walked".to_string(),
        extended_class_name: None,
        parent_class_name: None,
        generic_types: None,
        body_statements: vec![ClassBodyStatement::Method {
            encapsulation: None,
            function_declaration: Box::new(FunctionDeclaration {
                name: "go".to_string(),
                parameters: Vec::new(),
                body_statements: vec![VariableDeclarationOrAssignment::Declaration(
                    VariableDeclaration {
                        declaration: TypedIdentifier {
                            names: vec!["x".to_string()],
                            type_declaration: TypeDeclaration { name: "Int".to_string() },
                        },
                        following_expression: Some(Rc::new(Expression::IntegerLiteral(
                            "1".to_string(),
                        ))),
                    },
                )],
                context: Context::create_scope(ContextType::Function),
            }),
        }],
        context: Context::create_scope(ContextType::ClassOrStruct),
    }
}

#[test]
fn ordinary_mode_recurses_into_children() {
    let class = sample_class();
    let mut visitor = CountingVisitor::new(VisitorType::GenericVisitor);
    class.accept(&mut visitor);
    assert_eq!(visitor.classes, 1);
    assert_eq!(visitor.functions, 1);
    assert_eq!(visitor.declarations, 1);
}

#[test]
fn context_building_mode_stops_at_the_scope_boundary() {
    let class = sample_class();
    let mut visitor = CountingVisitor::new(VisitorType::ContextBuildingVisitor);
    class.accept(&mut visitor);
    assert_eq!(visitor.classes, 1);
    assert_eq!(visitor.functions, 0);
    assert_eq!(visitor.declarations, 0);
}

#[test]
fn function_scope_boundary_also_short_circuits() {
    let class = sample_class();
    let function = match &class.body_statements[0] {
        ClassBodyStatement::Method { function_declaration, .. } => function_declaration,
        _ => panic!("sample class should hold a method"),
    };
    let mut visitor = CountingVisitor::new(VisitorType::ContextBuildingVisitor);
    function.accept(&mut visitor);
    assert_eq!(visitor.functions, 1);
    assert_eq!(visitor.declarations, 0);
}

#[test]
fn declaration_counter_counts_reached_declarations() {
    let class = sample_class();
    let mut counter = DeclarationCounter { declarations: 0 };
    class.accept(&mut counter);
    assert_eq!(counter.declarations, 1);
}

use scriptgen::context::{Context, ContextType};
use scriptgen::expressions::Expression;
use scriptgen::identifiers::IdentifierTerm;
use scriptgen::inference::{ToType, Type, TypeInferenceMap};

fn empty_map() -> TypeInferenceMap {
    TypeInferenceMap { entries: Vec::new() }
}

#[test]
fn literals_carry_their_own_types() {
    let context = Context::create_scope(ContextType::Function);
    let map = empty_map();
    let int = Expression::IntegerLiteral("3".to_string()).resulting_type(&context, &map);
    assert!(matches!(int, Type::Int));
    let s = Expression::StringLiteral("hi".to_string()).resulting_type(&context, &map);
    assert!(matches!(s, Type::String));
    let b = Expression::BooleanLiteral(true).resulting_type(&context, &map);
    assert!(matches!(b, Type::Bool));
}

#[test]
fn unmapped_identifier_is_unknown() {
    let context = Context::create_scope(ContextType::Function);
    let map = empty_map();
    let e = Expression::Identifier(Box::new(IdentifierTerm { text: "mystery".to_string() }));
    assert!(matches!(e.resulting_type(&context, &map), Type::Unknown));
}

#[test]
fn mapped_identifier_uses_first_entry() {
    let context = Context::create_scope(ContextType::Function);
    let map = TypeInferenceMap {
        entries: vec![
            ("hp".to_string(), Type::Int),
            ("hp".to_string(), Type::Float),
            ("who".to_string(), Type::Identifier("Actor".to_string())),
        ],
    };
    let hp = Expression::Identifier(Box::new(IdentifierTerm { text: "hp".to_string() }));
    assert!(matches!(hp.resulting_type(&context, &map), Type::Int));
    let who = Expression::Identifier(Box::new(IdentifierTerm { text: "who".to_string() }));
    match who.resulting_type(&context, &map) {
        Type::Identifier(name) => assert_eq!(name, "Actor"),
        other => panic!("expected an identifier type, got {}", other.to_string()),
    }
}

#[test]
fn map_get_reports_absence() {
    let map = empty_map();
    assert!(map.get(&"nothing".to_string()).is_none());
}

#[test]
fn type_names_round_into_strings() {
    assert_eq!(Type::String.to_string(), "string");
    assert_eq!(Type::Name.to_string(), "name");
    assert_eq!(Type::Bool.to_string(), "bool");
    assert_eq!(Type::Int.to_string(), "int");
    assert_eq!(Type::Float.to_string(), "float");
    assert_eq!(Type::Void.to_string(), "void");
    assert_eq!(Type::Unknown.to_string(), "unknown");
    assert_eq!(Type::Identifier("Actor".to_string()).to_string(), "Actor");
}

#[test]
fn identifier_term_infers_through_the_map() {
    let context = Context::create_scope(ContextType::Function);
    let map = TypeInferenceMap {
        entries: vec![("flag".to_string(), Type::Bool)],
    };
    let term = IdentifierTerm { text: "flag".to_string() };
    assert!(matches!(term.resulting_type(&context, &map), Type::Bool));
}

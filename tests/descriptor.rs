use sway_sema::decl_engine::{DeclEngine, DeclPayload, TyStructDeclaration, Visibility};
use sway_sema::declaration::{Engines, TyDeclaration};
use sway_sema::descriptor::Descriptor;
use sway_sema::span::{Ident, Span};
use sway_sema::type_engine::{IntegerBits, TyStructField, TypeEngine, TypeInfo};

#[test]
fn private_struct_is_documented_only_on_request() {
    let source = "struct Foo { x: u64 }";
    let mut te = TypeEngine::new();
    let mut de = DeclEngine::new();
    let u = te.insert(TypeInfo::UnsignedInteger(IntegerBits::SixtyFour));
    let name = Ident::new("Foo".to_string(), Span::new(7, 10));
    let id = de.insert(DeclPayload::Struct(TyStructDeclaration {
        name: name.clone(),
        fields: vec![TyStructField {
            name: Ident::new("x".to_string(), Span::new(13, 14)),
            type_id: u,
            span: Span::new(13, 19),
        }],
        visibility: Visibility::Private,
        span: Span::new(0, source.len()),
    }));
    let decl = TyDeclaration::StructDeclaration { name, decl_id: id, decl_span: Span::new(0, source.len()) };
    let engines = Engines { te: &te, de: &de };
    assert!(matches!(
        Descriptor::from_typed_decl(&engines, &decl, source, false),
        Ok(Descriptor::NonDocumentable)
    ));
    match Descriptor::from_typed_decl(&engines, &decl, source, true) {
        Ok(Descriptor::Documentable(doc)) => {
            assert_eq!(doc.item_name.as_str(), "Foo");
            assert_eq!(doc.friendly_name, "Foo");
            assert_eq!(doc.code_str, "struct Foo { x: u64 ,\n}");
            assert!(doc.attrs_opt.is_none());
        }
        _ => panic!("expected a documentable struct"),
    }
}

#[test]
fn generic_parameters_are_not_documented() {
    let mut te = TypeEngine::new();
    let de = DeclEngine::new();
    let b = te.insert(TypeInfo::Boolean);
    let g = TyDeclaration::GenericTypeForFunctionScope { name: Ident::new("T".to_string(), Span::new(0, 1)), type_id: b };
    let engines = Engines { te: &te, de: &de };
    assert!(matches!(
        Descriptor::from_typed_decl(&engines, &g, "T", true),
        Ok(Descriptor::NonDocumentable)
    ));
}

use sway_sema::decl_engine::{
    CompileError, DeclEngine, DeclPayload, TyAbiDeclaration, TyConstantDeclaration,
    TyExpression, TyFunctionDeclaration, TyFunctionParameter, TyImplTrait, TyStorageDeclaration,
    TyStructDeclaration, TyTraitDeclaration, Visibility,
};
use sway_sema::declaration::{
    Engines, TyDeclaration, TyVariableDeclaration, TypeMetadata, VariableMutability,
};
use sway_sema::span::{Ident, Span};
use sway_sema::toplevel::{parse_top_level, Item};
use sway_sema::type_engine::{
    IntegerBits, TyStructField, TypeArgument, TypeEngine, TypeId, TypeInfo, TypeSubstMap,
};

fn ident(name: &str, start: usize) -> Ident {
    Ident::new(name.to_string(), Span::new(start, start + name.len()))
}

fn u64_type(te: &mut TypeEngine) -> TypeId {
    te.insert(TypeInfo::UnsignedInteger(IntegerBits::SixtyFour))
}

fn struct_decl(de: &mut DeclEngine, name: &str, fields: Vec<TyStructField>, vis: Visibility) -> TyDeclaration {
    let span = Span::new(0, 30);
    let id = de.insert(DeclPayload::Struct(TyStructDeclaration {
        name: ident(name, 7),
        fields,
        visibility: vis,
        span,
    }));
    TyDeclaration::StructDeclaration { name: ident(name, 7), decl_id: id, decl_span: span }
}

fn function_decl(de: &mut DeclEngine, name: &str, ret: TypeId, span: Span) -> TyDeclaration {
    let id = de.insert(DeclPayload::Function(TyFunctionDeclaration {
        name: ident(name, span.start + 3),
        parameters: vec![],
        return_type: ret,
        visibility: Visibility::Private,
        span,
    }));
    TyDeclaration::FunctionDeclaration { name: ident(name, span.start + 3), decl_id: id, decl_span: span }
}

#[test]
fn independent_inserts_compare_equal() {
    let mut te = TypeEngine::new();
    let a = u64_type(&mut te);
    let b = u64_type(&mut te);
    assert_ne!(a, b);
    assert!(te.types_eq(a, b));
    assert_eq!(te.hash_type(a), te.hash_type(b));
    let c = te.insert(TypeInfo::UnsignedInteger(IntegerBits::ThirtyTwo));
    assert!(!te.types_eq(a, c));
}

#[test]
fn ref_chains_are_transparent() {
    let mut te = TypeEngine::new();
    let t = te.insert(TypeInfo::Boolean);
    let r1 = te.insert(TypeInfo::Ref(t));
    let r2 = te.insert(TypeInfo::Ref(r1));
    assert!(te.types_eq(r2, t));
    assert!(te.types_eq(t, r2));
    assert_eq!(te.look_up_type_id(r2), t);
    assert_eq!(te.hash_type(r2), te.hash_type(t));
}

#[test]
fn nested_types_compare_through_handles() {
    let mut te = TypeEngine::new();
    let a = u64_type(&mut te);
    let b = u64_type(&mut te);
    let s = Span::dummy();
    let t1 = te.insert(TypeInfo::Tuple(vec![TypeArgument { type_id: a, span: s }]));
    let t2 = te.insert(TypeInfo::Tuple(vec![TypeArgument { type_id: b, span: s }]));
    let t3 = te.insert(TypeInfo::Tuple(vec![]));
    assert!(te.types_eq(t1, t2));
    assert!(!te.types_eq(t1, t3));
    let arr1 = te.insert(TypeInfo::Array(a, 3));
    let arr2 = te.insert(TypeInfo::Array(b, 4));
    assert!(!te.types_eq(arr1, arr2));
}

#[test]
fn abi_strings_render_types() {
    let mut te = TypeEngine::new();
    let a = u64_type(&mut te);
    let b = te.insert(TypeInfo::Boolean);
    let s = Span::dummy();
    let tup = te.insert(TypeInfo::Tuple(vec![
        TypeArgument { type_id: a, span: s },
        TypeArgument { type_id: b, span: s },
    ]));
    assert_eq!(te.json_abi_str(tup), "(u64, bool)");
    let arr = te.insert(TypeInfo::Array(b, 12));
    assert_eq!(te.json_abi_str(arr), "[bool; 12]");
    let st = te.insert(TypeInfo::Str(5));
    assert_eq!(te.json_abi_str(st), "str[5]");
}

#[test]
fn error_recovery_suppresses_diagnostics() {
    let de = DeclEngine::new();
    let d = TyDeclaration::ErrorRecovery(Span::new(3, 9));
    match d.expect_struct(&de, Span::dummy()) {
        Err(es) => assert!(es.is_empty()),
        Ok(_) => panic!("error recovery resolved as a struct"),
    }
    assert!(matches!(d.expect_function(&de, Span::dummy()), Err(es) if es.is_empty()));
    assert!(matches!(d.expect_variable(), Err(es) if es.is_empty()));
}

#[test]
fn function_is_not_a_struct() {
    let mut te = TypeEngine::new();
    let mut de = DeclEngine::new();
    let b = te.insert(TypeInfo::Boolean);
    let stmt = parse_top_level("fn f() -> bool { false }").unwrap();
    assert!(matches!(stmt.item, Item::Fn(_)));
    let fn_span = stmt.item.span();
    assert_eq!(fn_span, Span::new(0, 24));
    let f = function_decl(&mut de, "f", b, fn_span);
    let payload = f.expect_function(&de, Span::dummy()).unwrap();
    assert_eq!(payload.name.as_str(), "f");
    assert_eq!(payload.return_type, b);
    assert_eq!(payload.span, fn_span);
    match f.expect_struct(&de, Span::dummy()) {
        Err(es) => {
            assert_eq!(es.len(), 1);
            match &es[0] {
                CompileError::DeclIsNotAStruct { actually, span } => {
                    assert_eq!(actually, "function");
                    assert_eq!(*span, fn_span);
                }
                other => panic!("unexpected diagnostic {:?}", other),
            }
        }
        Ok(_) => panic!("a function resolved as a struct"),
    }
    assert!(matches!(f.expect_enum(&de, Span::dummy()), Err(es) if es.len() == 1));
    assert!(matches!(f.expect_abi(&de, Span::dummy()), Err(es) if es.len() == 1));
    assert!(matches!(f.expect_const(&de, Span::dummy()), Err(es) if es.len() == 1));
    assert!(matches!(f.expect_variable(), Err(es) if es.len() == 1));
}

#[test]
fn dangling_handle_is_an_internal_error() {
    let de = DeclEngine::new();
    let d = TyDeclaration::StructDeclaration {
        name: ident("S", 0),
        decl_id: sway_sema::decl_engine::DeclId(4),
        decl_span: Span::new(0, 1),
    };
    match d.expect_struct(&de, Span::new(7, 8)) {
        Err(es) => assert!(matches!(es[0], CompileError::InvalidDeclHandle { span } if span == Span::new(7, 8))),
        Ok(_) => panic!("dangling handle resolved"),
    }
}

#[test]
fn function_and_constant_never_equal() {
    let mut te = TypeEngine::new();
    let mut de = DeclEngine::new();
    let b = te.insert(TypeInfo::Boolean);
    let f = function_decl(&mut de, "x", b, Span::new(0, 10));
    let cid = de.insert(DeclPayload::Constant(TyConstantDeclaration {
        name: ident("x", 0),
        type_ascription: b,
        value: None,
        visibility: Visibility::Private,
        span: Span::new(0, 10),
    }));
    let c = TyDeclaration::ConstantDeclaration { name: ident("x", 0), decl_id: cid, decl_span: Span::new(0, 10) };
    let engines = Engines { te: &te, de: &de };
    assert!(!f.eq(&c, &engines));
    assert!(!c.eq(&f, &engines));
    assert!(f.eq(&f, &engines));
    assert!(c.eq(&c, &engines));
}

#[test]
fn equal_declarations_hash_alike() {
    let mut te = TypeEngine::new();
    let mut de = DeclEngine::new();
    let a = u64_type(&mut te);
    let b = u64_type(&mut te);
    let s1 = struct_decl(&mut de, "Foo", vec![TyStructField { name: ident("x", 13), type_id: a, span: Span::new(13, 19) }], Visibility::Private);
    let s2 = struct_decl(&mut de, "Foo", vec![TyStructField { name: ident("x", 40), type_id: b, span: Span::new(40, 46) }], Visibility::Private);
    let s3 = struct_decl(&mut de, "Bar", vec![], Visibility::Private);
    let engines = Engines { te: &te, de: &de };
    assert!(s1.eq(&s2, &engines));
    assert_eq!(s1.hash(&engines), s2.hash(&engines));
    assert!(!s1.eq(&s3, &engines));
    let g1 = TyDeclaration::GenericTypeForFunctionScope { name: ident("T", 0), type_id: a };
    let g2 = TyDeclaration::GenericTypeForFunctionScope { name: ident("T", 9), type_id: b };
    assert!(g1.eq(&g2, &engines));
    assert_eq!(g1.hash(&engines), g2.hash(&engines));
    let e1 = TyDeclaration::ErrorRecovery(Span::new(1, 2));
    let e2 = TyDeclaration::ErrorRecovery(Span::new(1, 2));
    let e3 = TyDeclaration::ErrorRecovery(Span::new(1, 3));
    assert!(e1.eq(&e2, &engines));
    assert!(!e1.eq(&e3, &engines));
    assert_eq!(e1.hash(&engines), e3.hash(&engines));
}

#[test]
fn substitution_leaves_untouched_struct_alone() {
    let mut te = TypeEngine::new();
    let mut de = DeclEngine::new();
    let a = u64_type(&mut te);
    let t = te.insert(TypeInfo::UnknownGeneric { name: ident("T", 0) });
    let b = te.insert(TypeInfo::Boolean);
    let mut d = struct_decl(&mut de, "Foo", vec![TyStructField { name: ident("x", 13), type_id: a, span: Span::new(13, 19) }], Visibility::Public);
    let before = match &d { TyDeclaration::StructDeclaration { decl_id, .. } => *decl_id, _ => unreachable!() };
    let m = TypeSubstMap { mapping: vec![(t, b)] };
    let decls_before = de.len();
    d.subst(&m, &mut te, &mut de);
    let after = match &d { TyDeclaration::StructDeclaration { decl_id, .. } => *decl_id, _ => unreachable!() };
    assert_eq!(before, after);
    assert_eq!(de.len(), decls_before);
}

#[test]
fn substitution_instantiates_a_fresh_struct() {
    let mut te = TypeEngine::new();
    let mut de = DeclEngine::new();
    let t = te.insert(TypeInfo::UnknownGeneric { name: ident("T", 0) });
    let b = te.insert(TypeInfo::Boolean);
    let mut d = struct_decl(&mut de, "Foo", vec![TyStructField { name: ident("x", 13), type_id: t, span: Span::new(13, 19) }], Visibility::Public);
    let template = d.clone();
    let before = match &d { TyDeclaration::StructDeclaration { decl_id, .. } => *decl_id, _ => unreachable!() };
    let m = TypeSubstMap { mapping: vec![(t, b)] };
    d.subst(&m, &mut te, &mut de);
    let after = match &d { TyDeclaration::StructDeclaration { decl_id, .. } => *decl_id, _ => unreachable!() };
    assert_ne!(before, after);
    let new_payload = d.expect_struct(&de, Span::dummy()).unwrap();
    assert_eq!(new_payload.fields[0].type_id, b);
    assert_eq!(new_payload.fields[0].name.as_str(), "x");
    let old_payload = template.expect_struct(&de, Span::dummy()).unwrap();
    assert_eq!(old_payload.fields[0].type_id, t);
}

#[test]
fn substitution_reaches_into_tuples() {
    let mut te = TypeEngine::new();
    let t = te.insert(TypeInfo::UnknownGeneric { name: ident("T", 0) });
    let b = te.insert(TypeInfo::Boolean);
    let s = Span::dummy();
    let tup = te.insert(TypeInfo::Tuple(vec![TypeArgument { type_id: b, span: s }, TypeArgument { type_id: t, span: s }]));
    let m = TypeSubstMap { mapping: vec![(t, b)] };
    let n = te.subst_type(tup, &m).unwrap();
    assert_eq!(te.json_abi_str(n), "(bool, bool)");
    assert_eq!(te.json_abi_str(tup), "(bool, T)");
    assert!(te.subst_type(b, &m).is_none());
}

#[test]
fn self_type_is_replaced_in_impls() {
    let mut te = TypeEngine::new();
    let mut de = DeclEngine::new();
    let self_ty = te.insert(TypeInfo::SelfType);
    let concrete = u64_type(&mut te);
    let id = de.insert(DeclPayload::ImplTrait(TyImplTrait { trait_name: ident("Eq", 5), implementing_for: self_ty, span: Span::new(0, 20) }));
    let mut d = TyDeclaration::ImplTrait { name: ident("Eq", 5), decl_id: id, decl_span: Span::new(0, 20) };
    d.replace_self_type(&mut te, &mut de, concrete);
    let engines = Engines { te: &te, de: &de };
    assert_eq!(d.friendly_name(&engines), "Eq for u64");
}

#[test]
fn visibility_defaults_to_public() {
    let mut te = TypeEngine::new();
    let mut de = DeclEngine::new();
    let b = te.insert(TypeInfo::Boolean);
    let abi = de.insert(DeclPayload::Abi(TyAbiDeclaration { name: ident("A", 4), span: Span::new(0, 9) }));
    let st = de.insert(DeclPayload::Storage(TyStorageDeclaration { fields: vec![], span: Span::new(0, 9) }));
    let it = de.insert(DeclPayload::ImplTrait(TyImplTrait { trait_name: ident("Eq", 5), implementing_for: b, span: Span::new(0, 20) }));
    let decls = vec![
        TyDeclaration::GenericTypeForFunctionScope { name: ident("T", 0), type_id: b },
        TyDeclaration::ImplTrait { name: ident("Eq", 5), decl_id: it, decl_span: Span::new(0, 20) },
        TyDeclaration::StorageDeclaration { decl_id: st, decl_span: Span::new(0, 9) },
        TyDeclaration::AbiDeclaration { name: ident("A", 4), decl_id: abi, decl_span: Span::new(0, 9) },
        TyDeclaration::ErrorRecovery(Span::new(0, 1)),
    ];
    for d in &decls {
        assert_eq!(d.visibility(&de).unwrap(), Visibility::Public);
    }
    let s = struct_decl(&mut de, "Foo", vec![], Visibility::Private);
    assert_eq!(s.visibility(&de).unwrap(), Visibility::Private);
    let tid = de.insert(DeclPayload::Trait(TyTraitDeclaration { name: ident("Tr", 6), visibility: Visibility::Public, span: Span::new(0, 9) }));
    let tr = TyDeclaration::TraitDeclaration { name: ident("Tr", 6), decl_id: tid, decl_span: Span::new(0, 9) };
    assert_eq!(tr.visibility(&de).unwrap(), Visibility::Public);
}

#[test]
fn labels_and_names() {
    let mut te = TypeEngine::new();
    let mut de = DeclEngine::new();
    let a = u64_type(&mut te);
    let s = struct_decl(&mut de, "Foo", vec![], Visibility::Private);
    assert_eq!(s.friendly_type_name(), "struct");
    assert_eq!(s.doc_name(), "struct");
    assert_eq!(s.get_decl_ident().unwrap().as_str(), "Foo");
    let r = s.get_decl_ref().unwrap();
    assert_eq!(r.name.as_str(), "Foo");
    let g = TyDeclaration::GenericTypeForFunctionScope { name: ident("T", 4), type_id: a };
    assert_eq!(g.friendly_type_name(), "generic type parameter");
    assert!(g.get_decl_ref().is_none());
    assert_eq!(g.span(), Span::new(4, 5));
    let st = TyDeclaration::StorageDeclaration { decl_id: sway_sema::decl_engine::DeclId(0), decl_span: Span::new(0, 2) };
    assert!(st.get_decl_ident().is_none());
    assert_eq!(st.friendly_type_name(), "contract storage declaration");
    assert_eq!(st.doc_name(), "contract_storage");
    let v = TyDeclaration::VariableDeclaration(Box::new(TyVariableDeclaration {
        name: ident("v", 3),
        body: TyExpression { return_type: a, span: Span::new(7, 9) },
        mutability: VariableMutability::Mutable,
        type_ascription: TypeArgument { type_id: a, span: Span::new(5, 6) },
    }));
    assert!(v.get_decl_ref().is_none());
    assert_eq!(v.friendly_name(&Engines { te: &te, de: &de }), "v");
    assert_eq!(v.visibility(&de).unwrap(), Visibility::Private);
    assert_eq!(TyDeclaration::ErrorRecovery(Span::dummy()).friendly_type_name(), "error");
}

#[test]
fn return_types() {
    let mut te = TypeEngine::new();
    let mut de = DeclEngine::new();
    let a = u64_type(&mut te);
    let s = struct_decl(&mut de, "Foo", vec![TyStructField { name: ident("x", 13), type_id: a, span: Span::new(13, 19) }], Visibility::Private);
    let n = te.len();
    let t = s.return_type(&mut te, &de, Span::dummy()).unwrap();
    assert_eq!(t.0, n);
    assert_eq!(te.json_abi_str(t), "struct Foo");
    let f = function_decl(&mut de, "f", a, Span::new(0, 9));
    assert_eq!(f.return_type(&mut te, &de, Span::dummy()).unwrap(), a);
    let tid = de.insert(DeclPayload::Trait(TyTraitDeclaration { name: ident("Tr", 6), visibility: Visibility::Public, span: Span::new(0, 9) }));
    let tr = TyDeclaration::TraitDeclaration { name: ident("Tr", 6), decl_id: tid, decl_span: Span::new(0, 9) };
    match tr.return_type(&mut te, &de, Span::dummy()) {
        Err(es) => match &es[0] {
            CompileError::NotAType { span, name, actually_is } => {
                assert_eq!(*span, Span::new(0, 9));
                assert_eq!(name, "trait declaration (Tr)");
                assert_eq!(actually_is, "trait");
            }
            other => panic!("unexpected diagnostic {:?}", other),
        },
        Ok(_) => panic!("a trait is not a type"),
    }
}

#[test]
fn metadata_lists_unresolved_generics() {
    let mut te = TypeEngine::new();
    let mut de = DeclEngine::new();
    let t = te.insert(TypeInfo::UnknownGeneric { name: ident("T", 0) });
    let b = te.insert(TypeInfo::Boolean);
    let id = de.insert(DeclPayload::Function(TyFunctionDeclaration {
        name: ident("f", 3),
        parameters: vec![TyFunctionParameter { name: ident("p", 5), type_id: t }],
        return_type: b,
        visibility: Visibility::Public,
        span: Span::new(0, 20),
    }));
    let f = TyDeclaration::FunctionDeclaration { name: ident("f", 3), decl_id: id, decl_span: Span::new(0, 20) };
    let md = f.collect_types_metadata(&te, &de).unwrap();
    assert_eq!(md.len(), 1);
    match &md[0] {
        TypeMetadata::UnresolvedType(n) => assert_eq!(n.as_str(), "T"),
    }
    let cid = de.insert(DeclPayload::Constant(TyConstantDeclaration {
        name: ident("C", 0),
        type_ascription: b,
        value: None,
        visibility: Visibility::Public,
        span: Span::new(0, 9),
    }));
    let c = TyDeclaration::ConstantDeclaration { name: ident("C", 0), decl_id: cid, decl_span: Span::new(0, 9) };
    assert!(c.collect_types_metadata(&te, &de).unwrap().is_empty());
}

#[test]
fn substitution_rebuilds_struct_shapes() {
    let mut te = TypeEngine::new();
    let t = te.insert(TypeInfo::UnknownGeneric { name: ident("T", 0) });
    let b = te.insert(TypeInfo::Boolean);
    let shape = te.insert(TypeInfo::Struct {
        name: ident("Foo", 7),
        fields: vec![TyStructField { name: ident("x", 13), type_id: t, span: Span::new(13, 19) }],
    });
    let m = TypeSubstMap { mapping: vec![(t, b)] };
    let n = te.subst_type(shape, &m).unwrap();
    assert_ne!(n, shape);
    match te.get(n) {
        TypeInfo::Struct { name, fields } => {
            assert_eq!(name.as_str(), "Foo");
            assert_eq!(fields[0].type_id, b);
        }
        other => panic!("unexpected shape {:?}", other),
    }
    match te.get(shape) {
        TypeInfo::Struct { fields, .. } => assert_eq!(fields[0].type_id, t),
        other => panic!("unexpected shape {:?}", other),
    }
}

#[test]
fn hashes_follow_the_mixing_formula() {
    let mut te = TypeEngine::new();
    let b = te.insert(TypeInfo::Boolean);
    let u = u64_type(&mut te);
    assert_eq!(te.hash_type(b), 4);
    assert_eq!(te.hash_type(u), 2 * 31 + 64);
    let s = Span::dummy();
    let tup = te.insert(TypeInfo::Tuple(vec![TypeArgument { type_id: u, span: s }]));
    assert_eq!(te.hash_type(tup), ((5 * 31 + 1) * 31) + 126);
    let tup_b = te.insert(TypeInfo::Tuple(vec![TypeArgument { type_id: b, span: s }]));
    assert_ne!(te.hash_type(tup), te.hash_type(tup_b));
}

#[test]
fn variable_return_type_is_its_ascription() {
    let mut te = TypeEngine::new();
    let de = DeclEngine::new();
    let a = u64_type(&mut te);
    let b = te.insert(TypeInfo::Boolean);
    let v = TyDeclaration::VariableDeclaration(Box::new(TyVariableDeclaration {
        name: ident("v", 3),
        body: TyExpression { return_type: b, span: Span::new(7, 9) },
        mutability: VariableMutability::Immutable,
        type_ascription: TypeArgument { type_id: a, span: Span::new(5, 6) },
    }));
    let n = te.len();
    assert_eq!(v.return_type(&mut te, &de, Span::dummy()).unwrap(), a);
    assert_eq!(te.len(), n);
}

#[test]
fn ignored_kinds_leave_engines_alone() {
    let mut te = TypeEngine::new();
    let mut de = DeclEngine::new();
    let t = te.insert(TypeInfo::UnknownGeneric { name: ident("T", 0) });
    let b = te.insert(TypeInfo::Boolean);
    let abi = de.insert(DeclPayload::Abi(TyAbiDeclaration { name: ident("A", 4), span: Span::new(0, 9) }));
    let mut d = TyDeclaration::AbiDeclaration { name: ident("A", 4), decl_id: abi, decl_span: Span::new(0, 9) };
    let m = TypeSubstMap { mapping: vec![(t, b)] };
    let (nt, nd) = (te.len(), de.len());
    d.subst(&m, &mut te, &mut de);
    d.replace_self_type(&mut te, &mut de, b);
    assert_eq!((te.len(), de.len()), (nt, nd));
    assert!(matches!(d, TyDeclaration::AbiDeclaration { decl_id, .. } if decl_id == abi));
}

use sway_sema::toplevel::{parse_top_level, Item, TopLevelStatement};

fn parse_stmt(input: &str) -> TopLevelStatement {
    match parse_top_level(input) {
        Ok(item) => item,
        Err(e) => panic!("Parse error: {:?}", e),
    }
}

#[test]
fn parse_attributes_none() {
    let stmt = parse_stmt(
        r#"
            fn f() -> bool {
                false
            }
            "#,
    );

    assert!(matches!(stmt.item, Item::Fn(_)));
    assert!(stmt.attribute_list.is_empty());
}

#[test]
fn parse_attributes_fn_basic() {
    let stmt = parse_stmt(
        r#"
            #[foo]
            fn f() -> bool {
                false
            }
            "#,
    );

    assert!(matches!(stmt.item, Item::Fn(_)));

    assert_eq!(stmt.attribute_list.len(), 1);

    let attrib = stmt.attribute_list.get(0).unwrap();
    assert_eq!(attrib.attribute.get().name.as_str(), "foo");
    assert!(attrib.attribute.get().args.is_none());
}

#[test]
fn parse_attributes_fn_two_basic() {
    let stmt = parse_stmt(
        r#"
            #[foo]
            #[bar]
            fn f() -> bool {
                false
            }
            "#,
    );

    assert!(matches!(stmt.item, Item::Fn(_)));

    assert_eq!(stmt.attribute_list.len(), 2);

    let attrib = stmt.attribute_list.get(0).unwrap();
    assert_eq!(attrib.attribute.get().name.as_str(), "foo");
    assert!(attrib.attribute.get().args.is_none());

    let attrib = stmt.attribute_list.get(1).unwrap();
    assert_eq!(attrib.attribute.get().name.as_str(), "bar");
    assert!(attrib.attribute.get().args.is_none());
}

#[test]
fn parse_attributes_fn_one_arg() {
    let stmt = parse_stmt(
        r#"
            #[foo(one)]
            fn f() -> bool {
                false
            }
            "#,
    );

    assert!(matches!(stmt.item, Item::Fn(_)));

    assert_eq!(stmt.attribute_list.len(), 1);

    let attrib = stmt.attribute_list.get(0).unwrap();
    assert_eq!(attrib.attribute.get().name.as_str(), "foo");
    assert!(attrib.attribute.get().args.is_some());

    let mut args = attrib
        .attribute
        .get()
        .args
        .as_ref()
        .unwrap()
        .get()
        .into_iter();
    assert_eq!(args.next().map(|arg| arg.as_str()), Some("one"));
    assert_eq!(args.next().map(|arg| arg.as_str()), None);
}

#[test]
fn parse_attributes_fn_empty_parens() {
    let stmt = parse_stmt(
        r#"
            #[foo()]
            fn f() -> bool {
                false
            }
            "#,
    );

    assert!(matches!(stmt.item, Item::Fn(_)));

    assert_eq!(stmt.attribute_list.len(), 1);

    let attrib = stmt.attribute_list.get(0).unwrap();
    assert_eq!(attrib.attribute.get().name.as_str(), "foo");

    // Args are still parsed as 'some' but with an empty collection.
    assert!(attrib.attribute.get().args.is_some());

    let mut args = attrib
        .attribute
        .get()
        .args
        .as_ref()
        .unwrap()
        .get()
        .into_iter();
    assert_eq!(args.next().map(|arg| arg.as_str()), None);
}

#[test]
fn parse_attributes_fn_zero_and_one_arg() {
    let stmt = parse_stmt(
        r#"
            #[bar]
            #[foo(one)]
            fn f() -> bool {
                false
            }
            "#,
    );

    assert!(matches!(stmt.item, Item::Fn(_)));

    assert_eq!(stmt.attribute_list.len(), 2);

    let attrib = stmt.attribute_list.get(0).unwrap();
    assert_eq!(attrib.attribute.get().name.as_str(), "bar");
    assert!(attrib.attribute.get().args.is_none());

    let attrib = stmt.attribute_list.get(1).unwrap();
    assert_eq!(attrib.attribute.get().name.as_str(), "foo");
    assert!(attrib.attribute.get().args.is_some());

    let mut args = attrib
        .attribute
        .get()
        .args
        .as_ref()
        .unwrap()
        .get()
        .into_iter();
    assert_eq!(args.next().map(|arg| arg.as_str()), Some("one"));
    assert_eq!(args.next().map(|arg| arg.as_str()), None);
}

#[test]
fn parse_attributes_fn_one_and_zero_arg() {
    let stmt = parse_stmt(
        r#"
            #[foo(one)]
            #[bar]
            fn f() -> bool {
                false
            }
            "#,
    );

    assert!(matches!(stmt.item, Item::Fn(_)));

    assert_eq!(stmt.attribute_list.len(), 2);

    let attrib = stmt.attribute_list.get(0).unwrap();
    assert_eq!(attrib.attribute.get().name.as_str(), "foo");
    assert!(attrib.attribute.get().args.is_some());

    let mut args = attrib
        .attribute
        .get()
        .args
        .as_ref()
        .unwrap()
        .get()
        .into_iter();
    assert_eq!(args.next().map(|arg| arg.as_str()), Some("one"));
    assert_eq!(args.next().map(|arg| arg.as_str()), None);

    let attrib = stmt.attribute_list.get(1).unwrap();
    assert_eq!(attrib.attribute.get().name.as_str(), "bar");
    assert!(attrib.attribute.get().args.is_none());
}

#[test]
fn parse_attributes_fn_two_args() {
    let stmt = parse_stmt(
        r#"
            #[foo(one, two)]
            fn f() -> bool {
                false
            }
            "#,
    );

    assert!(matches!(stmt.item, Item::Fn(_)));

    assert_eq!(stmt.attribute_list.len(), 1);

    let attrib = stmt.attribute_list.get(0).unwrap();
    assert_eq!(attrib.attribute.get().name.as_str(), "foo");
    assert!(attrib.attribute.get().args.is_some());

    let mut args = attrib
        .attribute
        .get()
        .args
        .as_ref()
        .unwrap()
        .get()
        .into_iter();
    assert_eq!(args.next().map(|arg| arg.as_str()), Some("one"));
    assert_eq!(args.next().map(|arg| arg.as_str()), Some("two"));
    assert_eq!(args.next().map(|arg| arg.as_str()), None);
}

#[test]
fn parse_attributes_fn_zero_one_and_three_args() {
    let stmt = parse_stmt(
        r#"
            #[bar]
            #[foo(one)]
            #[baz(two,three,four)]
            fn f() -> bool {
                false
            }
            "#,
    );

    assert!(matches!(stmt.item, Item::Fn(_)));

    assert_eq!(stmt.attribute_list.len(), 3);

    let attrib = stmt.attribute_list.get(0).unwrap();
    assert_eq!(attrib.attribute.get().name.as_str(), "bar");
    assert!(attrib.attribute.get().args.is_none());

    let attrib = stmt.attribute_list.get(1).unwrap();
    assert_eq!(attrib.attribute.get().name.as_str(), "foo");
    assert!(attrib.attribute.get().args.is_some());

    let mut args = attrib
        .attribute
        .get()
        .args
        .as_ref()
        .unwrap()
        .get()
        .into_iter();
    assert_eq!(args.next().map(|arg| arg.as_str()), Some("one"));
    assert_eq!(args.next().map(|arg| arg.as_str()), None);

    let attrib = stmt.attribute_list.get(2).unwrap();
    assert_eq!(attrib.attribute.get().name.as_str(), "baz");
    assert!(attrib.attribute.get().args.is_some());

    let mut args = attrib
        .attribute
        .get()
        .args
        .as_ref()
        .unwrap()
        .get()
        .into_iter();
    assert_eq!(args.next().map(|arg| arg.as_str()), Some("two"));
    assert_eq!(args.next().map(|arg| arg.as_str()), Some("three"));
    assert_eq!(args.next().map(|arg| arg.as_str()), Some("four"));
    assert_eq!(args.next().map(|arg| arg.as_str()), None);
}

#[test]
fn statement_span_runs_from_first_attribute_to_item_end() {
    let src = "  #[foo]\nstruct S { x: u64 }\n";
    let stmt = parse_stmt(src);
    assert!(matches!(stmt.item, Item::Struct(_)));
    let span = stmt.span();
    assert_eq!(span.start, 2);
    assert_eq!(span.end, 28);
    assert_eq!(stmt.item.span().start, 9);
}

#[test]
fn malformed_attribute_is_an_error() {
    assert!(parse_top_level("#[foo(one two)] fn f() {}").is_err());
    assert!(parse_top_level("#foo fn f() {}").is_err());
    assert!(parse_top_level("fn f() {").is_err());
    assert!(parse_top_level("widget w {}").is_err());
}

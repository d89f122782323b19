use sway_sema::fmt::{
    format_data_types, format_delineated_path, format_include_statement, format_use_statement,
    format_use_stmnt_length, sort_and_filter_use_expression, tokenize, MAX_LINE_LENGTH,
};

#[test]
fn test_sort_and_filter_use_expression() {
    assert_eq!(sort_and_filter_use_expression("::a::b::c;"), "::a::b::c;");
    assert_eq!(
        sort_and_filter_use_expression("::a::c::b::{c, b, ba};"),
        "::a::c::b::{b, ba, c};"
    );
    assert_eq!(
        sort_and_filter_use_expression("{s,e,l,f,self};"),
        "{self, e, f, l, s};"
    );
    assert_eq!(
        sort_and_filter_use_expression("a::{d::{f, self}, c, b};"),
        "a::{b, c, d::{self, f}};"
    );
    assert_eq!(
        sort_and_filter_use_expression("a::b::{c,d::{self,f}};"),
        "a::b::{c, d::{self, f}};"
    );
    assert_eq!(sort_and_filter_use_expression("a::b::{c};"), "a::b::c;");
    assert_eq!(
        sort_and_filter_use_expression("a::b::{c,d::{e}};"),
        "a::b::{c, d::e};"
    );
    assert_eq!(
        sort_and_filter_use_expression("a::{foo,bar,};"),
        "a::{bar, foo};"
    );
    assert_eq!(
        sort_and_filter_use_expression(
            "a::{
    foo,
    bar,
};"
        ),
        "a::{bar, foo};"
    );
}

#[test]
fn test_format_use_stmnt_length_properly_leaves_strings_shorter_than_max_line_length_untouched() {
    let sort_and_filter_result = "a::b::{c, d::e};";
    assert_eq!(
        format_use_stmnt_length(sort_and_filter_result).concat(),
        sort_and_filter_result
    );
}

#[test]
fn test_format_use_stmnt_length_returns_vec_of_strings_with_length_lte_max_line_length() {
    let long_use_stmt = "std::{address::*, assert::assert, block::*, chain::auth::*, context::{* , call_frames::*}, contract_id::ContractId, hash::* , panic::panic, storage::* , token::*};";
    let expected_result = "std::{address::*, assert::assert, block::*, chain::auth::*, context::{*, call_frames::*}, contract_id::ContractId, \n    hash::*, panic::panic, storage::*, token::*};";
    let lines = format_use_stmnt_length(long_use_stmt);

    assert_eq!(lines.len(), 2);
    assert_eq!(lines.concat(), expected_result);

    for line in lines {
        let tolerance: usize = (0.3 * MAX_LINE_LENGTH as f32) as usize;
        assert!(line.len() <= MAX_LINE_LENGTH + tolerance);
    }
}

#[test]
fn tokenize_keeps_separators_and_strips_inner_space() {
    assert_eq!(
        tokenize("a::{ b , c };"),
        vec!["a::", "{", "b", ",", "c", "}", ";"]
    );
    assert_eq!(tokenize(""), Vec::<String>::new());
    assert_eq!(tokenize("x ;"), vec!["x ;"]);
}

#[test]
fn delineated_path_loses_all_white_space() {
    assert_eq!(format_delineated_path("std :: hash :: sha256"), "std::hash::sha256");
    assert_eq!(format_delineated_path(""), "");
}

#[test]
fn include_statement_is_marked_and_compacted() {
    assert_eq!(format_include_statement("dep foo / bar ;"), "#___#dep foo/bar;");
}

#[test]
fn use_statement_is_sorted_and_marked() {
    assert_eq!(format_use_statement("use a::{c, b};"), "#___#use a::{b, c};");
    assert_eq!(format_use_statement("use"), "#___#use ");
}

#[test]
fn long_use_statement_marks_each_line() {
    let stmt = "use std::{address::*, assert::assert, block::*, chain::auth::*, context::{* , call_frames::*}, contract_id::ContractId, hash::* , panic::panic, storage::* , token::*};";
    let expected = "#___#use std::{address::*, assert::assert, block::*, chain::auth::*, context::{*, call_frames::*}, contract_id::ContractId, \n    #___#hash::*, panic::panic, storage::*, token::*};";
    assert_eq!(format_use_statement(stmt), expected);
}

#[test]
fn data_types_get_commas_and_newlines() {
    assert_eq!(format_data_types("struct Foo {x:u64 y:bool}"), "struct Foo {x:u64 y:bool,\n}");
    assert_eq!(format_data_types("struct Foo {x:u64,}"), "struct Foo {x:u64,\n}");
    assert_eq!(format_data_types("a:u8 // note\n"), "a:u8 ,// note\n");
    assert_eq!(format_data_types("/* x:y */"), "/* x:y */");
    assert_eq!(format_data_types("} }"), "},}");
}

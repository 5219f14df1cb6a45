use for_tuple::{expand, for_tuple, parse_descriptor, ExpandError, RangeSpec, TupleEntry};

#[test]
fn two_arities_inclusive() {
    assert_eq!(
        for_tuple("cb! for 1..=2"),
        Ok("cb!(0=>_0:T0);cb!(0=>_0:T0,1=>_1:T1);".to_string())
    );
}

#[test]
fn inclusive_range_gives_each_arity_in_order() {
    let out = for_tuple("some_callback! for 1..=3").unwrap();
    assert_eq!(
        out,
        "some_callback!(0=>_0:T0);\
         some_callback!(0=>_0:T0,1=>_1:T1);\
         some_callback!(0=>_0:T0,1=>_1:T1,2=>_2:T2);"
    );
    assert_eq!(out.matches("some_callback!(").count(), 3);
}

#[test]
fn exclusive_range_leaves_out_the_end() {
    assert_eq!(
        for_tuple("m! for 2..4"),
        Ok("m!(0=>_0:T0,1=>_1:T1);m!(0=>_0:T0,1=>_1:T1,2=>_2:T2);".to_string())
    );
}

#[test]
fn single_arity_zero() {
    assert_eq!(for_tuple("m! for 0..=0"), Ok("m!();".to_string()));
}

#[test]
fn empty_exclusive_range_is_not_an_error() {
    assert_eq!(for_tuple("cb! for 0..0"), Ok(String::new()));
    assert_eq!(for_tuple("cb! for 5..5"), Ok(String::new()));
}

#[test]
fn reversed_ranges_expand_to_nothing() {
    assert_eq!(for_tuple("cb! for 3..=2"), Ok(String::new()));
    assert_eq!(for_tuple("cb! for 4..1"), Ok(String::new()));
}

#[test]
fn arity_counts_match_the_range() {
    let out = for_tuple("t! for 1..=8").unwrap();
    assert_eq!(out.matches("t!(").count(), 8);
    let out = for_tuple("t! for 1..8").unwrap();
    assert_eq!(out.matches("t!(").count(), 7);
    let out = for_tuple("t! for 3..=12").unwrap();
    assert_eq!(out.matches("t!(").count(), 10);
}

#[test]
fn entries_are_consistent_across_arities() {
    let out = for_tuple("t! for 11..=12").unwrap();
    let calls: Vec<&str> = out.split(';').filter(|c| !c.is_empty()).collect();
    assert_eq!(calls.len(), 2);
    let first: Vec<&str> = calls[0]
        .trim_start_matches("t!(")
        .trim_end_matches(')')
        .split(',')
        .collect();
    let second: Vec<&str> = calls[1]
        .trim_start_matches("t!(")
        .trim_end_matches(')')
        .split(',')
        .collect();
    assert_eq!(first.len(), 11);
    assert_eq!(second.len(), 12);
    for i in 0..11 {
        assert_eq!(first[i], second[i]);
        assert_eq!(first[i], format!("{i}=>_{i}:T{i}"));
    }
    assert_eq!(second[11], "11=>_11:T11");
}

#[test]
fn dot_equals_is_a_grammar_error() {
    assert_eq!(for_tuple("cb! for 1.=3"), Err(ExpandError::Grammar));
}

#[test]
fn letters_for_an_endpoint_are_a_range_literal_error() {
    assert_eq!(for_tuple("cb! for abc..3"), Err(ExpandError::RangeLiteral));
    assert_eq!(for_tuple("cb! for 1..=x"), Err(ExpandError::RangeLiteral));
}

#[test]
fn missing_endpoints_are_range_literal_errors() {
    assert_eq!(for_tuple("cb! for ..3"), Err(ExpandError::RangeLiteral));
    assert_eq!(for_tuple("cb! for 1.."), Err(ExpandError::RangeLiteral));
    assert_eq!(for_tuple("cb! for 1..="), Err(ExpandError::RangeLiteral));
}

#[test]
fn negative_endpoint_is_a_range_literal_error() {
    assert_eq!(for_tuple("cb! for -1..3"), Err(ExpandError::RangeLiteral));
}

#[test]
fn endpoint_too_large_is_a_range_literal_error() {
    assert_eq!(
        for_tuple("cb! for 0..99999999999999999999999"),
        Err(ExpandError::RangeLiteral)
    );
}

#[test]
fn trailing_tokens_are_refused() {
    assert_eq!(for_tuple("foo! for 1..=3 extra"), Err(ExpandError::TrailingTokens));
    assert_eq!(for_tuple("foo! for 1..3;"), Err(ExpandError::TrailingTokens));
}

#[test]
fn missing_bang_or_keyword_is_a_grammar_error() {
    assert_eq!(for_tuple("foo for 1..3"), Err(ExpandError::Grammar));
    assert_eq!(for_tuple("foo! 1..3"), Err(ExpandError::Grammar));
    assert_eq!(for_tuple("foo! for1..3"), Err(ExpandError::Grammar));
    assert_eq!(for_tuple("foo! for 1 3"), Err(ExpandError::Grammar));
    assert_eq!(for_tuple(""), Err(ExpandError::Grammar));
}

#[test]
fn callback_must_be_an_identifier() {
    assert_eq!(for_tuple("for! for 1..3"), Err(ExpandError::Grammar));
    assert_eq!(for_tuple("a b! for 1..3"), Err(ExpandError::Grammar));
    assert_eq!(for_tuple("! for 1..3"), Err(ExpandError::Grammar));
    assert_eq!(for_tuple("1x! for 1..3"), Err(ExpandError::Grammar));
}

#[test]
fn blanks_between_tokens_are_accepted() {
    assert_eq!(
        for_tuple("  cb ! for 1 ..= 2 \n"),
        Ok("cb!(0=>_0:T0);cb!(0=>_0:T0,1=>_1:T1);".to_string())
    );
}

#[test]
fn same_input_gives_same_output() {
    let a = for_tuple("impl_tuple! for 1..=8");
    let b = for_tuple("impl_tuple! for 1..=8");
    assert_eq!(a, b);
    assert!(a.is_ok());
    let e1 = for_tuple("impl_tuple! for 1..=8 x");
    let e2 = for_tuple("impl_tuple! for 1..=8 x");
    assert_eq!(e1, e2);
}

#[test]
fn parse_reads_name_and_range() {
    let d = parse_descriptor(" my_cb ! for 3 .. 17").ok().unwrap();
    assert_eq!(d.callback, "my_cb");
    assert_eq!(d.range, RangeSpec { start: 3, end: 17, inclusive: false });
    let d = parse_descriptor("x! for 0..=18446744073709551615").ok().unwrap();
    assert_eq!(d.range, RangeSpec { start: 0, end: usize::MAX, inclusive: true });
}

#[test]
fn parse_leaves_the_name_unchecked() {
    let d = parse_descriptor("for! for 1..2").ok().unwrap();
    assert_eq!(d.callback, "for");
}

#[test]
fn expand_writes_each_invocation() {
    assert_eq!(
        expand("f", RangeSpec { start: 2, end: 2, inclusive: true }),
        "f!(0=>_0:T0,1=>_1:T1);"
    );
    assert_eq!(expand("f", RangeSpec { start: 2, end: 2, inclusive: false }), "");
}

#[test]
fn tuple_entry_names_follow_the_index() {
    let e = TupleEntry::new(12);
    assert_eq!(e.index, 12);
    assert_eq!(e.name, "_12");
    assert_eq!(e.ty, "T12");
    let mut out = String::from("<");
    e.append_to(&mut out);
    assert_eq!(out, "<12=>_12:T12");
    let z = TupleEntry::new(0);
    assert_eq!(z.name, "_0");
    assert_eq!(z.ty, "T0");
}

#[test]
fn decimal_spelling() {
    let mut out = String::from("n=");
    for_tuple::decimal::append_decimal(&mut out, 1090);
    assert_eq!(out, "n=1090");
    let mut zero = String::new();
    for_tuple::decimal::append_decimal(&mut zero, 0);
    assert_eq!(zero, "0");
    let mut max = String::new();
    for_tuple::decimal::append_decimal(&mut max, usize::MAX);
    assert_eq!(max, usize::MAX.to_string());
}

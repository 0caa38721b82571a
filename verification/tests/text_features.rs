use workspace_model::features::{
    parse_aggregation, parse_flow_direction, parse_multiplicity, parse_parameter_direction,
    AggregationKind, FlowDirection, Multiplicity, MultiplicityError, ParameterDirection,
};
use workspace_model::text::{
    chars_of, find_chars, parse_u32, rfind_chars, split_lines, starts_with, string_from_chars,
    text_before, trimmed,
};

fn text(v: &[char]) -> String {
    string_from_chars(v)
}

#[test]
fn trimming_drops_surrounding_whitespace_only() {
    let v = chars_of("  \t north = 1 \r\n");
    assert_eq!(text(&trimmed(&v)), "north = 1");
    assert_eq!(text(&trimmed(&chars_of("   "))), "");
}

#[test]
fn lines_split_like_str_lines() {
    let v = chars_of("a = 1\r\nb = 2\n\nc");
    let ls: Vec<String> = split_lines(&v).iter().map(|l| text(l)).collect();
    assert_eq!(ls, vec!["a = 1", "b = 2", "", "c"]);
    let trailing: Vec<String> = split_lines(&chars_of("x\n")).iter().map(|l| text(l)).collect();
    assert_eq!(trailing, vec!["x"]);
    assert!(split_lines(&chars_of("")).is_empty());
}

#[test]
fn u32_parsing_accepts_plain_digits_only() {
    assert_eq!(parse_u32(&chars_of("42")), Some(42));
    assert_eq!(parse_u32(&chars_of("+7")), Some(7));
    assert_eq!(parse_u32(&chars_of("4294967295")), Some(u32::MAX));
    assert_eq!(parse_u32(&chars_of("4294967296")), None);
    assert_eq!(parse_u32(&chars_of("-1")), None);
    assert_eq!(parse_u32(&chars_of("")), None);
    assert_eq!(parse_u32(&chars_of("1 2")), None);
}

#[test]
fn searching_finds_first_and_last_occurrence() {
    let s = chars_of("abcabc");
    assert_eq!(find_chars(&s, &chars_of("bc")), Some(1));
    assert_eq!(rfind_chars(&s, &chars_of("bc")), Some(4));
    assert_eq!(find_chars(&s, &chars_of("x")), None);
    assert!(starts_with(&s, &chars_of("abc")));
    assert!(!starts_with(&s, &chars_of("bc")));
}

#[test]
fn text_order_matches_str_order() {
    let words = ["", "a", "ab", "b", "B", "é", "z", "za"];
    for x in words {
        for y in words {
            assert_eq!(text_before(x, y), x < y, "{x:?} < {y:?}");
        }
    }
}

#[test]
fn aggregation_and_direction_values() {
    assert_eq!(parse_aggregation("none"), Ok(AggregationKind::NoAggregation));
    assert_eq!(parse_aggregation("shared"), Ok(AggregationKind::Shared));
    assert_eq!(parse_aggregation("composite"), Ok(AggregationKind::Composite));
    assert_eq!(parse_aggregation("Composite"), Err("invalid aggregation: Composite".to_string()));
    assert_eq!(parse_parameter_direction("inout"), Ok(ParameterDirection::InOut));
    assert_eq!(parse_parameter_direction("return"), Ok(ParameterDirection::Return));
    assert_eq!(
        parse_parameter_direction("sideways"),
        Err("invalid parameter direction: sideways".to_string())
    );
    assert_eq!(parse_flow_direction("out"), Ok(FlowDirection::Out));
    assert_eq!(parse_flow_direction("return"), Err("invalid flow direction: return".to_string()));
}

#[test]
fn multiplicity_texts() {
    assert_eq!(parse_multiplicity("0..*"), Ok(Multiplicity { lower: 0, upper: None }));
    assert_eq!(parse_multiplicity(" 2 .. 5 "), Ok(Multiplicity { lower: 2, upper: Some(5) }));
    assert_eq!(parse_multiplicity("*"), Ok(Multiplicity { lower: 0, upper: None }));
    assert_eq!(parse_multiplicity("4"), Ok(Multiplicity { lower: 4, upper: Some(4) }));
    assert_eq!(parse_multiplicity("8..2"), Err(MultiplicityError::Bounds));
    assert_eq!(parse_multiplicity("x..2"), Err(MultiplicityError::LowerBound));
    assert_eq!(parse_multiplicity("1..y"), Err(MultiplicityError::UpperBound));
    assert_eq!(parse_multiplicity("many"), Err(MultiplicityError::Format));
}

#[test]
fn multiplicity_bounds_rule() {
    assert_eq!(Multiplicity::new(2, Some(1)), None);
    assert_eq!(Multiplicity::new(2, Some(2)), Some(Multiplicity { lower: 2, upper: Some(2) }));
    assert_eq!(Multiplicity::new(7, None), Some(Multiplicity { lower: 7, upper: None }));
    assert_eq!(Multiplicity::one(), Multiplicity { lower: 1, upper: Some(1) });
}

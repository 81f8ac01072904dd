use lich::{create_environment, eval, parse, Environment, Node};

fn value_of(source: &str) -> Node {
    let mut env = Environment::new();
    create_environment(&mut env);
    let nodes = parse(source).expect("source parses");
    let mut last = Node::Bool(false);
    for node in nodes.iter() {
        last = eval(node, &mut env).expect("evaluation succeeds");
    }
    last
}

fn check(expression: &str, expected: &str) {
    assert_eq!(value_of(expression), value_of(expected), "{} should give {}", expression, expected);
}

#[test]
fn case_add_1() {
    check(r#"(+ 1 2)"#, r#"3"#);
}

#[test]
fn case_add_2() {
    check(r#"(+ 0 0)"#, r#"0"#);
}

#[test]
fn case_add_3() {
    check(r#"(+ -1 1)"#, r#"0"#);
}

#[test]
fn case_sub_1() {
    check(r#"(- 1 2)"#, r#"-1"#);
}

#[test]
fn case_sub_2() {
    check(r#"(- 0 0)"#, r#"0"#);
}

#[test]
fn case_sub_3() {
    check(r#"(- -1 1)"#, r#"-2"#);
}

#[test]
fn case_mult_1() {
    check(r#"(* 1 2)"#, r#"2"#);
}

#[test]
fn case_mult_2() {
    check(r#"(* 0 0)"#, r#"0"#);
}

#[test]
fn case_mult_3() {
    check(r#"(* -1 1)"#, r#"-1"#);
}

#[test]
fn case_even_p_1() {
    check(r#"(even? 2)"#, r#"true"#);
}

#[test]
fn case_even_p_2() {
    check(r#"(even? 3)"#, r#"false"#);
}

#[test]
fn case_even_p_3() {
    check(r#"(even? 0)"#, r#"true"#);
}

#[test]
fn case_odd_p_1() {
    check(r#"(odd? 2)"#, r#"false"#);
}

#[test]
fn case_odd_p_2() {
    check(r#"(odd? 3)"#, r#"true"#);
}

#[test]
fn case_odd_p_3() {
    check(r#"(odd? 0)"#, r#"false"#);
}

#[test]
fn case_inc_1() {
    check(r#"(inc 1)"#, r#"2"#);
}

#[test]
fn case_inc_2() {
    check(r#"(inc 0)"#, r#"1"#);
}

#[test]
fn case_inc_3() {
    check(r#"(inc -1)"#, r#"0"#);
}

#[test]
fn case_dec_1() {
    check(r#"(dec 1)"#, r#"0"#);
}

#[test]
fn case_dec_2() {
    check(r#"(dec 0)"#, r#"-1"#);
}

#[test]
fn case_dec_3() {
    check(r#"(dec -1)"#, r#"-2"#);
}

#[test]
fn case_abs_1() {
    check(r#"(abs 1)"#, r#"1"#);
}

#[test]
fn case_abs_2() {
    check(r#"(abs -1)"#, r#"1"#);
}

#[test]
fn case_abs_3() {
    check(r#"(abs 0)"#, r#"0"#);
}

#[test]
fn case_pow_1() {
    check(r#"(pow 2 3)"#, r#"8"#);
}

#[test]
fn case_pow_2() {
    check(r#"(pow 2 0)"#, r#"1"#);
}

#[test]
fn case_pow_3() {
    check(r#"(pow 0 2)"#, r#"0"#);
}

#[test]
fn case_negate_1() {
    check(r#"(negate 1)"#, r#"-1"#);
}

#[test]
fn case_negate_2() {
    check(r#"(negate -1)"#, r#"1"#);
}

#[test]
fn case_negate_3() {
    check(r#"(negate 0)"#, r#"0"#);
}

#[test]
fn case_equal_1() {
    check(r#"(= 1 2)"#, r#"false"#);
}

#[test]
fn case_equal_2() {
    check(r#"(= "foo" "bar")"#, r#"false"#);
}

#[test]
fn case_equal_3() {
    check(r#"(= 1 1)"#, r#"true"#);
}

#[test]
fn case_less_1() {
    check(r#"(< 1 2)"#, r#"true"#);
}

#[test]
fn case_less_2() {
    check(r#"(< 2 1)"#, r#"false"#);
}

#[test]
fn case_less_3() {
    check(r#"(< 1 1)"#, r#"false"#);
}

#[test]
fn case_greater_1() {
    check(r#"(> 1 2)"#, r#"false"#);
}

#[test]
fn case_greater_2() {
    check(r#"(> 2 1)"#, r#"true"#);
}

#[test]
fn case_greater_3() {
    check(r#"(> 1 1)"#, r#"false"#);
}

#[test]
fn case_less_or_equal_1() {
    check(r#"(<= 1 2)"#, r#"true"#);
}

#[test]
fn case_less_or_equal_2() {
    check(r#"(<= 2 1)"#, r#"false"#);
}

#[test]
fn case_less_or_equal_3() {
    check(r#"(<= 1 1)"#, r#"true"#);
}

#[test]
fn case_greater_or_equal_1() {
    check(r#"(>= 1 2)"#, r#"false"#);
}

#[test]
fn case_greater_or_equal_2() {
    check(r#"(>= 2 1)"#, r#"true"#);
}

#[test]
fn case_greater_or_equal_3() {
    check(r#"(>= 1 1)"#, r#"true"#);
}

#[test]
fn case_not_1() {
    check(r#"(not true)"#, r#"false"#);
}

#[test]
fn case_not_2() {
    check(r#"(not false)"#, r#"true"#);
}

#[test]
fn case_and_1() {
    check(r#"(and true true)"#, r#"true"#);
}

#[test]
fn case_and_2() {
    check(r#"(and true false)"#, r#"false"#);
}

#[test]
fn case_and_3() {
    check(r#"(and false true)"#, r#"false"#);
}

#[test]
fn case_or_1() {
    check(r#"(or true true)"#, r#"true"#);
}

#[test]
fn case_or_2() {
    check(r#"(or true false)"#, r#"true"#);
}

#[test]
fn case_or_3() {
    check(r#"(or false false)"#, r#"false"#);
}

#[test]
fn case_number_to_string_1() {
    check(r#"(number->string 1)"#, r#""1""#);
}

#[test]
fn case_number_to_string_2() {
    check(r#"(number->string 10000)"#, r#""10000""#);
}

#[test]
fn case_number_to_string_3() {
    check(r#"(number->string -1)"#, r#""-1""#);
}

#[test]
fn case_string_to_number_1() {
    check(r#"(string->number "1")"#, r#"1"#);
}

#[test]
fn case_string_to_number_2() {
    check(r#"(string->number "10000")"#, r#"10000"#);
}

#[test]
fn case_string_to_number_3() {
    check(r#"(string->number "-1")"#, r#"-1"#);
}

#[test]
fn case_string_to_list_1() {
    check(r#"(string->list "foo")"#, r#"(quote ("f" "o" "o"))"#);
}

#[test]
fn case_string_to_list_2() {
    check(r#"(string->list "")"#, r#"(quote ())"#);
}

#[test]
fn case_string_to_list_3() {
    check(r#"(string->list "foo bar")"#, r#"(quote ("f" "o" "o" " " "b" "a" "r"))"#);
}

#[test]
fn case_list_to_string_1() {
    check(r#"(list->string (quote ("f" "o" "o")))"#, r#""foo""#);
}

#[test]
fn case_list_to_string_2() {
    check(r#"(list->string (quote ()))"#, r#""""#);
}

#[test]
fn case_list_to_string_3() {
    check(r#"(list->string (quote ("f" "o" "o" " " "b" "a" "r")))"#, r#""foo bar""#);
}

#[test]
fn case_string_to_symbol_1() {
    check(r#"(string->symbol "foo")"#, r#"(quote foo)"#);
}

#[test]
fn case_symbol_to_string_1() {
    check(r#"(symbol->string (quote foo))"#, r#""foo""#);
}

#[test]
fn case_boolean_to_string_1() {
    check(r#"(boolean->string true)"#, r#""true""#);
}

#[test]
fn case_boolean_to_string_2() {
    check(r#"(boolean->string false)"#, r#""false""#);
}

#[test]
fn case_map_1() {
    check(r#"(map inc (quote (1 2 3)))"#, r#"(quote (2 3 4))"#);
}

#[test]
fn case_map_2() {
    check(r#"(map inc (quote ()))"#, r#"(quote ())"#);
}

#[test]
fn case_map_3() {
    check(r#"(map inc (quote (1)))"#, r#"(quote (2))"#);
}

#[test]
fn case_filter_1() {
    check(r#"(filter even? (quote (1 2 3 4)))"#, r#"(quote (2 4))"#);
}

#[test]
fn case_filter_2() {
    check(r#"(filter even? (quote ()))"#, r#"(quote ())"#);
}

#[test]
fn case_filter_3() {
    check(r#"(filter even? (quote (1)))"#, r#"(quote ())"#);
}

#[test]
fn case_fold_1() {
    check(r#"(fold + 0 (quote (1 2 3)))"#, r#"6"#);
}

#[test]
fn case_fold_2() {
    check(r#"(fold + 0 (quote ()))"#, r#"0"#);
}

#[test]
fn case_fold_3() {
    check(r#"(fold + 0 (quote (1)))"#, r#"1"#);
}

#[test]
fn case_car_1() {
    check(r#"(car (quote (1 2 3)))"#, r#"1"#);
}

#[test]
fn case_car_2() {
    check(r#"(car (quote ()))"#, r#"()"#);
}

#[test]
fn case_car_3() {
    check(r#"(car (quote (1)))"#, r#"1"#);
}

#[test]
fn case_cdr_1() {
    check(r#"(cdr (quote (1 2 3)))"#, r#"(quote (2 3))"#);
}

#[test]
fn case_cdr_2() {
    check(r#"(cdr (quote ()))"#, r#"()"#);
}

#[test]
fn case_cdr_3() {
    check(r#"(cdr (quote (1)))"#, r#"()"#);
}

#[test]
fn case_cons_1() {
    check(r#"(cons 1 (quote (2 3)))"#, r#"(quote (1 2 3))"#);
}

#[test]
fn case_cons_2() {
    check(r#"(cons 1 (quote ()))"#, r#"(quote (1))"#);
}

#[test]
fn case_cons_3() {
    check(r#"(cons (quote (1)) (quote (2)))"#, r#"(quote ((1) 2))"#);
}

#[test]
fn case_length_1() {
    check(r#"(length (quote (1 2 3)))"#, r#"3"#);
}

#[test]
fn case_length_2() {
    check(r#"(length (quote ()))"#, r#"0"#);
}

#[test]
fn case_length_3() {
    check(r#"(length (quote (1)))"#, r#"1"#);
}

#[test]
fn case_null_p_1() {
    check(r#"(null? (quote ()))"#, r#"true"#);
}

#[test]
fn case_null_p_2() {
    check(r#"(null? (quote (1)))"#, r#"false"#);
}

#[test]
fn case_null_p_3() {
    check(r#"(null? (quote "foo"))"#, r#"false"#);
}

#[test]
fn case_list_1() {
    check(r#"(list 1 2 3)"#, r#"(quote (1 2 3))"#);
}

#[test]
fn case_list_2() {
    check(r#"(list)"#, r#"(quote ())"#);
}

#[test]
fn case_list_3() {
    check(r#"(list 1)"#, r#"(quote (1))"#);
}

#[test]
fn case_last_1() {
    check(r#"(last (quote (1 2 3)))"#, r#"3"#);
}

#[test]
fn case_last_2() {
    check(r#"(last (quote ()))"#, r#"()"#);
}

#[test]
fn case_last_3() {
    check(r#"(last (quote (1)))"#, r#"1"#);
}

#[test]
fn case_nth_1() {
    check(r#"(nth 1 (quote (1 2 3)))"#, r#"2"#);
}

#[test]
fn case_nth_2() {
    check(r#"(nth 0 (quote ()))"#, r#"()"#);
}

#[test]
fn case_nth_3() {
    check(r#"(nth 0 (quote (1)))"#, r#"1"#);
}

#[test]
fn case_regex_match_1() {
    check(r#"(regex-match (regex "^foo$") "foo")"#, r#"true"#);
}

#[test]
fn case_regex_match_2() {
    check(r#"(regex-match (regex "^foo$") "bar")"#, r#"false"#);
}

#[test]
fn case_regex_match_3() {
    check(r#"(regex-match (regex "foo") "foo bar")"#, r#"true"#);
}

#[test]
fn case_regex_match_4() {
    check(r#"(regex-match (regex "foob") "foo bar")"#, r#"false"#);
}

#[test]
fn case_regex_replace_1() {
    check(r#"(regex-replace (regex "^foo$") "foo" "bar")"#, r#""bar""#);
}

#[test]
fn case_regex_replace_2() {
    check(r#"(regex-replace (regex "^foo$") "bar" "foo")"#, r#""bar""#);
}

#[test]
fn case_regex_replace_3() {
    check(r#"(regex-replace (regex "foo") "foo bar" "bar")"#, r#""bar bar""#);
}

#[test]
fn case_regex_split_1() {
    check(r#"(regex-split (regex "a") "bar")"#, r#"(quote ("b" "r"))"#);
}

#[test]
fn case_regex_split_2() {
    check(r#"(regex-split (regex "a") "foo bar")"#, r#"(quote ("foo b" "r"))"#);
}

#[test]
fn case_regex_split_3() {
    check(r#"(regex-split (regex "a") "foo bar baz")"#, r#"(quote ("foo b" "r b" "z"))"#);
}

#[test]
fn case_zip_1() {
    check(r#"(zip (quote (1 2 3)) (quote (4 5 6)))"#, r#"(quote ((1 4) (2 5) (3 6)))"#);
}

#[test]
fn case_zip_2() {
    check(r#"(zip (quote ()) (quote ()))"#, r#"(quote ())"#);
}

#[test]
fn case_zip_3() {
    check(r#"(zip (quote (1)) (quote (2)))"#, r#"(quote ((1 2)))"#);
}

#[test]
fn case_range_1() {
    check(r#"(range 1 5)"#, r#"(quote (1 2 3 4))"#);
}

#[test]
fn case_range_2() {
    check(r#"(range 5)"#, r#"(quote (0 1 2 3 4))"#);
}

#[test]
fn case_range_3() {
    check(r#"(range 0 0)"#, r#"(quote ())"#);
}

#[test]
fn case_concat_1() {
    check(r#"(concat (quote (1 2)) (quote (3 4)))"#, r#"(quote (1 2 3 4))"#);
}

#[test]
fn case_concat_2() {
    check(r#"(concat "Foo" "Bar")"#, r#""FooBar""#);
}

#[test]
fn case_concat_3() {
    check(r#"(concat (quote ()) (quote (1)))"#, r#"(quote (1))"#);
}

#[test]
fn case_concat_4() {
    check(r#"(concat (quote (1 2)) (quote (4 1)) (quote (1)))"#, r#"(quote (1 2 4 1 1))"#);
}

#[test]
fn case_concat_5() {
    check(r#"(concat "Foo" "Bar" "Baz")"#, r#""FooBarBaz""#);
}

#[test]
fn case_split_1() {
    check(r#"(split "," "foo,bar,baz")"#, r#"(quote ("foo" "bar" "baz"))"#);
}

#[test]
fn case_split_2() {
    check(r#"(split "," "foo")"#, r#"(quote ("foo"))"#);
}

#[test]
fn case_split_3() {
    check(r#"(split "," "")"#, r#"(quote (""))"#);
}

#[test]
fn case_strip_1() {
    check(r#"(strip " foo ")"#, r#""foo""#);
}

#[test]
fn case_strip_2() {
    check(r#"(strip "foo")"#, r#""foo""#);
}

#[test]
fn case_strip_3() {
    check(r#"(strip "")"#, r#""""#);
}

#[test]
fn case_join_1() {
    check(r#"(join "," (quote ("foo" "bar" "baz")))"#, r#""foo,bar,baz""#);
}

#[test]
fn case_join_2() {
    check(r#"(join "," (quote ("foo")))"#, r#""foo""#);
}

#[test]
fn case_join_3() {
    check(r#"(join "," (quote ()))"#, r#""""#);
}

#[test]
fn case_index_of_1() {
    check(r#"(index-of "foo" "foobar")"#, r#"0"#);
}

#[test]
fn case_index_of_2() {
    check(r#"(index-of "bar" "foobar")"#, r#"3"#);
}

#[test]
fn case_substring_1() {
    check(r#"(substring "foobar" 0 3)"#, r#""foo""#);
}

#[test]
fn case_substring_2() {
    check(r#"(substring "foobar" 3 6)"#, r#""bar""#);
}

#[test]
fn case_substring_3() {
    check(r#"(substring "foobar" 3 3)"#, r#""""#);
}

#[test]
fn case_replace_1() {
    check(r#"(replace "foo" "bar" "foobar")"#, r#""barbar""#);
}

#[test]
fn case_replace_2() {
    check(r#"(replace "bar" "foo" "foobar")"#, r#""foofoo""#);
}

#[test]
fn case_replace_3() {
    check(r#"(replace "baz" "foo" "foobar")"#, r#""foobar""#);
}

#[test]
fn case_upper_1() {
    check(r#"(upper "foo")"#, r#""FOO""#);
}

#[test]
fn case_upper_2() {
    check(r#"(upper "FOO")"#, r#""FOO""#);
}

#[test]
fn case_upper_3() {
    check(r#"(upper "")"#, r#""""#);
}

#[test]
fn case_lower_1() {
    check(r#"(lower "foo")"#, r#""foo""#);
}

#[test]
fn case_lower_2() {
    check(r#"(lower "FOO")"#, r#""foo""#);
}

#[test]
fn case_lower_3() {
    check(r#"(lower "")"#, r#""""#);
}

#[test]
fn case_starts_with_p_1() {
    check(r#"(starts-with? "foo" "foobar")"#, r#"true"#);
}

#[test]
fn case_starts_with_p_2() {
    check(r#"(starts-with? "bar" "foobar")"#, r#"false"#);
}

#[test]
fn case_starts_with_p_3() {
    check(r#"(starts-with? "" "foobar")"#, r#"true"#);
}

#[test]
fn case_ends_with_p_1() {
    check(r#"(ends-with? "bar" "foobar")"#, r#"true"#);
}

#[test]
fn case_ends_with_p_2() {
    check(r#"(ends-with? "foo" "foobar")"#, r#"false"#);
}

#[test]
fn case_ends_with_p_3() {
    check(r#"(ends-with? "" "foobar")"#, r#"true"#);
}

#[test]
fn case_time_1() {
    check(r#"(time->string (time 2025 1 1 12 0 0 -5))"#, r#""2025-01-01 12:00:00 UTC-05:00""#);
}

#[test]
fn case_time_2() {
    check(r#"(time->number (time 1970 1 1 0 0 0 0))"#, r#"0"#);
}

#[test]
fn case_add_days_1() {
    check(r#"(add-days 1 (time 2025 1 1 12 0 0 -5))"#, r#"(time 2025 1 2 12 0 0 -5)"#);
}

#[test]
fn case_add_days_2() {
    check(r#"(add-days -1 (time 2025 1 1 12 0 0 -5))"#, r#"(time 2024 12 31 12 0 0 -5)"#);
}

#[test]
fn case_add_hours_1() {
    check(r#"(add-hours 1 (time 2025 1 1 12 0 0 -5))"#, r#"(time 2025 1 1 13 0 0 -5)"#);
}

#[test]
fn case_add_hours_2() {
    check(r#"(add-hours -1 (time 2025 1 1 12 0 0 -5))"#, r#"(time 2025 1 1 11 0 0 -5)"#);
}

#[test]
fn case_add_minutes_1() {
    check(r#"(add-minutes 1 (time 2025 1 1 12 0 0 -5))"#, r#"(time 2025 1 1 12 1 0 -5)"#);
}

#[test]
fn case_add_minutes_2() {
    check(r#"(add-minutes -1 (time 2025 1 1 12 0 0 -5))"#, r#"(time 2025 1 1 11 59 0 -5)"#);
}

#[test]
fn case_add_seconds_1() {
    check(r#"(add-seconds 1 (time 2025 1 1 12 0 0 -5))"#, r#"(time 2025 1 1 12 0 1 -5)"#);
}

#[test]
fn case_add_seconds_2() {
    check(r#"(add-seconds -1 (time 2025 1 1 12 0 0 -5))"#, r#"(time 2025 1 1 11 59 59 -5)"#);
}

#[test]
fn case_leaves_1() {
    check(r#"(leaves (quote (1 2)))"#, r#"(quote (1 2))"#);
}

#[test]
fn case_leaves_2() {
    check(r#"(leaves (quote (1 2 3)))"#, r#"(quote (1 2 3))"#);
}

#[test]
fn case_leaves_3() {
    check(r#"(leaves (quote (1 2 (3 4))))"#, r#"(quote (1 2 3 4))"#);
}

#[test]
fn case_depth_1() {
    check(r#"(depth (quote (1 2)))"#, r#"1"#);
}

#[test]
fn case_depth_2() {
    check(r#"(depth (quote (1 2 3)))"#, r#"1"#);
}

#[test]
fn case_depth_3() {
    check(r#"(depth (quote (1 2 (3 4))))"#, r#"2"#);
}

#[test]
fn case_depth_4() {
    check(r#"(depth (quote (1 2 (3 4) (5 6))))"#, r#"2"#);
}

#[test]
fn case_depth_5() {
    check(r#"(depth (quote (1 2 (3 4) (5 6 (7 8)))))"#, r#"3"#);
}

#[test]
fn case_begin_1() {
    check(r#"(begin 1 2 3)"#, r#"3"#);
}

#[test]
fn case_begin_2() {
    check(r#"(begin)"#, r#"()"#);
}

#[test]
fn case_begin_3() {
    check(r#"(begin (define x 1) (define x (+ x 1)) x)"#, r#"2"#);
}

#[test]
fn case_type_p_1() {
    check(r#"(type? (quote ()))"#, r#""list""#);
}

#[test]
fn case_type_p_2() {
    check(r#"(type? (quote 1))"#, r#""number""#);
}

#[test]
fn case_type_p_3() {
    check(r#"(type? (quote "foo"))"#, r#""text""#);
}

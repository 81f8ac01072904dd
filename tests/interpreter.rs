use lich::{create_environment, eval, eval_with, parse, Builtin, Environment, EvalError, NativeHost, Node, ParseError};

fn root() -> Environment {
    let mut env = Environment::new();
    create_environment(&mut env);
    env
}

fn run_in(env: &mut Environment, source: &str) -> Result<Node, EvalError> {
    let nodes = parse(source).expect("source parses");
    let mut last = Ok(Node::Bool(false));
    for node in nodes.iter() {
        last = eval(node, env);
        if last.is_err() {
            return last;
        }
    }
    last
}

fn run(source: &str) -> Result<Node, EvalError> {
    let mut env = root();
    run_in(&mut env, source)
}

fn sym(s: &str) -> Node {
    Node::Symbol(s.to_string())
}

#[test]
fn nested_let_sees_outer_bindings() {
    assert_eq!(run("(let ((x 1)) (let ((y 2)) (+ x y)))"), Ok(Node::Number(3)));
}

#[test]
fn let_binding_is_gone_after_the_let() {
    let mut env = root();
    assert_eq!(run_in(&mut env, "(let ((y 2)) y)"), Ok(Node::Number(2)));
    assert_eq!(run_in(&mut env, "y"), Err(EvalError::UndefinedVariable("y".to_string())));
}

#[test]
fn restricted_let_hides_outer_bindings() {
    let mut env = root();
    run_in(&mut env, "(define x 1)").unwrap();
    assert_eq!(
        run_in(&mut env, "(let-restricted ((y 2)) x)"),
        Err(EvalError::UndefinedVariable("x".to_string()))
    );
    assert_eq!(run_in(&mut env, "(let ((y 2)) x)"), Ok(Node::Number(1)));
}

#[test]
fn restricted_let_passes_named_bindings_through() {
    let mut env = root();
    run_in(&mut env, "(define x 5)").unwrap();
    assert_eq!(run_in(&mut env, "(let-restricted ((x)) x)"), Ok(Node::Number(5)));
}

#[test]
fn closure_definition_and_call() {
    let mut env = root();
    run_in(&mut env, "(define inc (lambda (n) (+ n 1)))").unwrap();
    assert_eq!(run_in(&mut env, "(inc 5)"), Ok(Node::Number(6)));
    assert_eq!(
        run_in(&mut env, "(inc)"),
        Err(EvalError::ArityMismatch { expected: 1, got: 0 })
    );
    assert_eq!(
        run_in(&mut env, "(inc 1 2)"),
        Err(EvalError::ArityMismatch { expected: 1, got: 2 })
    );
}

#[test]
fn quote_returns_the_form_unevaluated() {
    assert_eq!(
        run("(quote (+ 1 2))"),
        Ok(Node::List(vec![sym("+"), Node::Number(1), Node::Number(2)]))
    );
    assert_eq!(run("(+ 1 2)"), Ok(Node::Number(3)));
}

#[test]
fn cond_without_a_true_clause_fails() {
    assert_eq!(run("(cond (false 1) (false 2))"), Err(EvalError::NoTrueCondition));
    assert_eq!(
        run("(cond (false 1) (false 2))").unwrap_err().message(),
        "No true condition found in cond"
    );
    assert_eq!(run("(cond (true 1) (false 2))"), Ok(Node::Number(1)));
}

#[test]
fn cond_rejects_a_malformed_clause() {
    assert_eq!(run("(cond (true))"), Err(EvalError::InvalidClause));
    assert_eq!(run("(cond 1)"), Err(EvalError::InvalidClause));
}

#[test]
fn parser_reports_unbalanced_parentheses() {
    assert_eq!(parse("(+ 1 2"), Err(ParseError::UnmatchedLeftParen));
    assert_eq!(parse("+ 1 2)"), Err(ParseError::UnmatchedRightParen));
}

#[test]
fn literal_evaluates_to_itself_twice() {
    let mut env = root();
    for source in ["42", "\"hi\"", "true"] {
        let first = run_in(&mut env, source);
        let second = run_in(&mut env, source);
        assert_eq!(first, second);
        assert_eq!(first, Ok(parse(source).unwrap()[0].clone()));
    }
}

#[test]
fn display_round_trips_literal_lists() {
    let node = Node::List(vec![
        Node::Number(-12),
        Node::Bool(true),
        sym("foo"),
        Node::List(vec![Node::Number(3), Node::Float("2.5".to_string())]),
    ]);
    let text = node.to_text();
    assert_eq!(text, "(-12 true foo (3 2.5))");
    assert_eq!(parse(&text).unwrap()[0], node);
}

#[test]
fn empty_list_displays_as_nil() {
    assert_eq!(Node::List(vec![]).to_text(), "nil");
    assert_eq!(Node::Regex("a+".to_string()).to_text(), "regex(a+)");
    assert_eq!(Node::Function(Builtin::Add).to_text(), "function");
}

#[test]
fn time_display_with_positive_offset() {
    assert_eq!(Node::Time(0, 3600 * 2 + 1800).to_text(), "1970-01-01 00:00:00 UTC+02:30");
}

#[test]
fn tokenizer_classifies_words() {
    let nodes = parse("12 -7 +3 1.5 .5 1e3 inf true false foo - \"a\\nb\" `x y`").unwrap();
    assert_eq!(
        nodes,
        vec![
            Node::Number(12),
            Node::Number(-7),
            Node::Number(3),
            Node::Float("1.5".to_string()),
            Node::Float(".5".to_string()),
            Node::Float("1e3".to_string()),
            Node::Float("inf".to_string()),
            Node::Bool(true),
            Node::Bool(false),
            sym("foo"),
            sym("-"),
            Node::Text("a\nb".to_string()),
            Node::Text("x y".to_string()),
        ]
    );
}

#[test]
fn tokenizer_skips_comments_and_shebang() {
    assert_eq!(parse("#!/usr/bin/lich\n1 ; two\n3").unwrap(), vec![Node::Number(1), Node::Number(3)]);
}

#[test]
fn tokenizer_errors() {
    assert_eq!(parse("\"open"), Err(ParseError::UnterminatedText));
    assert_eq!(parse("(a #)"), Err(ParseError::UnexpectedCharacter('#', 3)));
}

#[test]
fn number_too_large_is_a_float_literal_or_symbol() {
    assert_eq!(parse("9223372036854775807").unwrap(), vec![Node::Number(i64::MAX)]);
    assert_eq!(parse("-9223372036854775808").unwrap(), vec![Node::Number(i64::MIN)]);
    assert_eq!(
        parse("9223372036854775808").unwrap(),
        vec![Node::Float("9223372036854775808".to_string())]
    );
}

#[test]
fn undefined_names() {
    assert_eq!(run("nope"), Err(EvalError::UndefinedVariable("nope".to_string())));
    assert_eq!(run("(nope 1)"), Err(EvalError::UndefinedFunction("nope".to_string())));
}

#[test]
fn calling_a_non_function() {
    let mut env = root();
    run_in(&mut env, "(define x 1)").unwrap();
    assert_eq!(run_in(&mut env, "(x 2)"), Err(EvalError::NotCallable));
    assert_eq!(run_in(&mut env, "(1 2)"), Err(EvalError::InvalidExpression));
}

#[test]
fn if_forms() {
    assert_eq!(run("(if true 1 2)"), Ok(Node::Number(1)));
    assert_eq!(run("(if false 1 2)"), Ok(Node::Number(2)));
    assert_eq!(run("(if false 1)"), Ok(Node::List(vec![])));
    assert_eq!(run("(if 0 1 2)"), Err(EvalError::NonBooleanCondition));
    assert_eq!(run("(if true)"), Err(EvalError::InvalidArguments("if".to_string())));
}

#[test]
fn define_undefine_and_defined() {
    let mut env = root();
    assert_eq!(run_in(&mut env, "(define flag)"), Ok(Node::Bool(true)));
    assert_eq!(run_in(&mut env, "flag"), Ok(Node::Bool(true)));
    assert_eq!(run_in(&mut env, "(defined? flag)"), Ok(Node::Bool(true)));
    assert_eq!(run_in(&mut env, "(undefine flag)"), Ok(Node::Bool(true)));
    assert_eq!(run_in(&mut env, "(defined? flag)"), Ok(Node::Bool(false)));
    assert_eq!(run_in(&mut env, "(define 1 2)"), Err(EvalError::InvalidArguments("define".to_string())));
}

#[test]
fn type_names() {
    assert_eq!(run("(type? 1.5)"), Ok(Node::Text("float".to_string())));
    assert_eq!(run("(type? +)"), Ok(Node::Text("function".to_string())));
    assert_eq!(run("(type? (quote a))"), Ok(Node::Text("symbol".to_string())));
}

#[test]
fn lambda_value_shape() {
    assert_eq!(
        run("(lambda (x) x)"),
        Ok(Node::List(vec![sym("lambda"), Node::List(vec![sym("x")]), sym("x")]))
    );
    assert_eq!(run("(lambda (x))"), Err(EvalError::ArityMismatch { expected: 2, got: 1 }));
}

#[test]
fn recursion_with_closures() {
    let mut env = root();
    run_in(&mut env, "(define fact (lambda (n) (if (= n 0) 1 (* n (fact (- n 1))))))").unwrap();
    assert_eq!(run_in(&mut env, "(fact 10)"), Ok(Node::Number(3628800)));
}

#[test]
fn runaway_recursion_stops() {
    let mut env = root();
    run_in(&mut env, "(define f (lambda (n) (f n)))").unwrap();
    assert_eq!(run_in(&mut env, "(f 1)"), Err(EvalError::DepthExceeded));
}

#[test]
fn map_with_extra_arguments_and_closures() {
    assert_eq!(
        run("(map + (quote (1 2)) (quote (10)))"),
        Ok(Node::List(vec![Node::Number(11), Node::Number(12)]))
    );
    assert_eq!(
        run("(map (lambda (x) (* x x)) (quote (1 2 3)))"),
        Ok(Node::List(vec![Node::Number(1), Node::Number(4), Node::Number(9)]))
    );
    assert_eq!(run("(map inc 1)"), Err(EvalError::InvalidArguments("map".to_string())));
}

#[test]
fn native_errors_are_passed_on() {
    assert!(matches!(run("(+ 1 \"a\")"), Err(EvalError::Native(_))));
    assert!(matches!(run("(+ 9223372036854775807 1)"), Err(EvalError::Native(_))));
}

#[test]
fn time_ms_gives_a_number() {
    assert!(matches!(run("(time-ms (+ 1 2))"), Ok(Node::Number(n)) if n >= 0));
}

#[test]
fn random_numbers_stay_in_range() {
    for _ in 0..20 {
        match run("(random-number 3 5)") {
            Ok(Node::Number(n)) => assert!((3..=5).contains(&n)),
            other => panic!("unexpected {:?}", other),
        }
    }
    assert!(run("(random-number 5 3)").is_err());
}

#[test]
fn wrappers_change_their_input() {
    assert_eq!(run("(upper \"abc\")"), Ok(Node::Text("ABC".to_string())));
    assert_eq!(run("(url-encode \"a b&c\")"), Ok(Node::Text("a+b%26c".to_string())));
    assert_eq!(run("(url-decode \"a=1&b=x+y\")"), Ok(Node::Text("a=1&b=x y".to_string())));
    assert_eq!(
        run("(lines \"a\nb\")"),
        Ok(Node::List(vec![Node::Text("a".to_string()), Node::Text("b".to_string())]))
    );
    assert_eq!(run("(string->number \"+7\")"), Ok(Node::Number(7)));
    assert!(run("(string->number \"7x\")").is_err());
}

#[test]
fn substring_needs_char_boundaries() {
    assert_eq!(run("(substring \"héllo\" 0 1)"), Ok(Node::Text("h".to_string())));
    assert!(run("(substring \"héllo\" 0 2)").is_err());
    assert_eq!(run("(substring \"héllo\" 1 3)"), Ok(Node::Text("é".to_string())));
}

#[test]
fn range_with_step_and_pow_limits() {
    assert_eq!(
        run("(range 10 0 -4)"),
        Ok(Node::List(vec![Node::Number(10), Node::Number(6), Node::Number(2)]))
    );
    assert!(run("(range 1 2 0)").is_err());
    assert_eq!(run("(pow -1 3)"), Ok(Node::Number(-1)));
    assert!(run("(pow 2 64)").is_err());
    assert_eq!(run("(pow 2 62)"), Ok(Node::Number(1 << 62)));
}

#[test]
fn parse_builtin_reads_text() {
    assert_eq!(
        run("(parse \"(a 1)\")"),
        Ok(Node::List(vec![Node::List(vec![sym("a"), Node::Number(1)])]))
    );
    assert!(run("(parse \"(a\")").is_err());
}

struct Recorder {
    seen: Vec<Node>,
}

impl NativeHost for Recorder {
    fn arithmetic(&mut self, op: Builtin, arguments: &[Node]) -> Result<Node, String> {
        self.seen.extend(arguments.iter().cloned());
        if op == Builtin::Add {
            Ok(Node::Float("3.5".to_string()))
        } else {
            Err("no".to_string())
        }
    }

    fn call(&mut self, id: u32, arguments: &[Node]) -> Result<Node, String> {
        if id == 7 {
            self.seen.extend(arguments.iter().cloned());
            Ok(Node::Number(arguments.len() as i64))
        } else {
            Err("unknown".to_string())
        }
    }
}

#[test]
fn host_operations_are_called_with_evaluated_arguments() {
    let mut env = root();
    env.add_native("record", 7);
    env.add_native("broken", 8);
    let mut host = Recorder { seen: vec![] };
    let node = &parse("(record (+ 1 2) \"x\")").unwrap()[0];
    assert_eq!(eval_with(node, &mut env, &mut host), Ok(Node::Number(2)));
    assert_eq!(host.seen, vec![Node::Number(3), Node::Text("x".to_string())]);
    let node = &parse("(broken)").unwrap()[0];
    assert_eq!(eval_with(node, &mut env, &mut host), Err(EvalError::External("unknown".to_string())));
    assert!(matches!(eval(node, &mut env), Err(EvalError::External(_))));
}

#[test]
fn tokenize_builtin_names_each_token() {
    assert_eq!(
        run("(tokenize \"(a 1 true)\")"),
        Ok(Node::List(vec![
            Node::Text("(".to_string()),
            Node::Text("Symbol(a)".to_string()),
            Node::Text("Number(1)".to_string()),
            Node::Text("Bool(true)".to_string()),
            Node::Text(")".to_string()),
        ]))
    );
}

#[test]
fn unicode_letters_form_symbols() {
    assert_eq!(parse("héllo").unwrap(), vec![sym("héllo")]);
    assert_eq!(parse("→"), Err(ParseError::UnexpectedCharacter('→', 0)));
}

#[test]
fn builtins_are_bound_in_the_root_frame() {
    let mut env = Environment::new();
    create_environment(&mut env);
    assert_eq!(env.lookup(&sym("car")), Some(Node::Function(Builtin::Car)));
    assert_eq!(env.lookup(&sym("map")), Some(Node::Function(Builtin::MapItems)));
    assert_eq!(env.lookup(&sym("no-such-name")), None);
    assert_eq!(env.depth(), 1);
}

#[test]
fn pipe_threads_a_value_through_calls() {
    assert_eq!(run("(pipe 3 (+ 1) (* 2))"), Ok(Node::Number(8)));
    assert_eq!(run("(| (quote (1 2)) (map inc))"), Ok(Node::List(vec![Node::Number(2), Node::Number(3)])));
    assert_eq!(run("(pipe 1 2)"), Err(EvalError::InvalidArguments("pipe".to_string())));
    assert_eq!(run("(pipe)"), Err(EvalError::InvalidArguments("pipe".to_string())));
}

#[test]
fn format_tree_indents_by_depth() {
    assert_eq!(
        run("(format-tree (quote (1 (a \"x\"))))"),
        Ok(Node::Text("  Number(1)\n    Symbol(a)\n    Text(x)\n".to_string()))
    );
    assert!(run("(format-tree 1)").is_err());
}

#[test]
fn remainder_and_extremes() {
    assert_eq!(run("(% -7 3)"), Ok(Node::Number(-1)));
    assert_eq!(run("(% 7 -3)"), Ok(Node::Number(1)));
    assert!(run("(% 1 0)").is_err());
    assert_eq!(run("(max 3 9 -2)"), Ok(Node::Number(9)));
    assert_eq!(run("(min 3 9 -2)"), Ok(Node::Number(-2)));
    assert!(run("(max)").is_err());
}

#[test]
fn float_arithmetic_goes_to_the_host_and_integers_do_not() {
    let mut env = root();
    let mut host = Recorder { seen: vec![] };
    let node = &parse("(+ 1.5 2.0)").unwrap()[0];
    assert_eq!(eval_with(node, &mut env, &mut host), Ok(Node::Float("3.5".to_string())));
    assert_eq!(host.seen.len(), 2);
    let node = &parse("(+ 1 2)").unwrap()[0];
    assert_eq!(eval_with(node, &mut env, &mut host), Ok(Node::Number(3)));
    assert_eq!(host.seen.len(), 2);
    assert!(matches!(run("(/ 1.0 2.0)"), Err(EvalError::External(_))));
    assert!(matches!(run("(/ 1 2)"), Err(EvalError::Native(_))));
}

#[test]
fn eval_form_evaluates_each_element() {
    let mut env = root();
    assert_eq!(
        run_in(&mut env, "(eval (quote ((define z 4) (+ z 1))))"),
        Ok(Node::List(vec![
            Node::List(vec![sym("define"), sym("z"), Node::Number(4)]),
            Node::List(vec![sym("+"), sym("z"), Node::Number(1)]),
        ]))
    );
    assert_eq!(run_in(&mut env, "z"), Ok(Node::Number(4)));
    assert_eq!(run("(eval 1)"), Err(EvalError::InvalidArguments("eval".to_string())));
}

#[test]
fn time_ms_runs_its_argument() {
    let mut env = root();
    assert!(matches!(run_in(&mut env, "(time-ms (define w 1))"), Ok(Node::Number(n)) if n >= 0));
    assert_eq!(run_in(&mut env, "w"), Ok(Node::Number(1)));
    assert_eq!(lich::eval::elapsed_ms(10, 25), 15);
    assert_eq!(lich::eval::elapsed_ms(25, 10), 0);
    assert_eq!(lich::eval::elapsed_ms(0, u64::MAX), i64::MAX);
}

#[test]
fn length_of_text_counts_bytes() {
    assert_eq!(run("(length \"héllo\")"), Ok(Node::Number(6)));
    assert_eq!(run("(length \"\")"), Ok(Node::Number(0)));
    assert!(matches!(run("(length 1)"), Err(EvalError::Native(_))));
}

#[test]
fn random_boolean_in_if_gives_one_branch() {
    for _ in 0..10 {
        let v = run("(if (random-boolean) 1 2)").unwrap();
        assert!(v == Node::Number(1) || v == Node::Number(2));
    }
    assert_eq!(run("(length (map random-number (quote (1 2 3))))"), Ok(Node::Number(3)));
}

#[test]
fn color_codes() {
    assert_eq!(lich::misc::color_code("red", false), Some("\x1b[31m".to_string()));
    assert_eq!(lich::misc::color_code("white", true), Some("\x1b[47m".to_string()));
    assert_eq!(lich::misc::color_code("pink", true), None);
}

#[test]
fn local_time_shifts_by_the_offset() {
    assert_eq!(lich::time::local_time(100, -40), Some(Node::Time(60, -40)));
    assert_eq!(lich::time::local_time(i64::MAX, 1), None);
}

#[test]
fn native_messages_reach_the_caller_unchanged() {
    assert_eq!(run("(range 1 2 0)"), Err(EvalError::Native("Step cannot be zero".to_string())));
    assert_eq!(run("(car 1)"), Err(EvalError::Native("Invalid arguments for car".to_string())));
}

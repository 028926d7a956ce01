use compute::value::{Value, BasicOperator};
use compute::machine::{Machine, Answer, Request, EvalOut, EvalError};
use compute::machine::Function;
use compute::eval::{process_stack, process_function, run_program};
use compute::eq::value_eq;

fn fresh_machine() -> Machine {
    Machine::start(Vec::new())
}

fn machine_with(answers: Vec<Answer>) -> Machine {
    Machine::start(answers)
}

const FUEL: u64 = 100_000;

fn eval_tokens(tokens: Vec<Value>, answers: Vec<Answer>) -> (EvalOut, Machine) {
    let env = Vec::new();
    let funcs = Vec::new();
    let mut m = machine_with(answers);
    let r = process_stack(&tokens, &env, &funcs, &mut m, FUEL);
    (r, m)
}

#[test]
fn integer_division_requests_real_division() {
    let tokens = vec![
        Value::Integer(1),
        Value::Operation(BasicOperator::Divide),
        Value::Integer(2),
    ];
    let (r, _) = eval_tokens(
        vec![
            Value::Integer(1),
            Value::Operation(BasicOperator::Divide),
            Value::Integer(2),
        ],
        Vec::new(),
    );
    // Without an answer the engine stops at the division request.
    let req = match r {
        EvalOut::Need(Request::BinOp(BasicOperator::Divide, Value::Integer(1), Value::Integer(2))) => true,
        _ => false,
    };
    assert!(req);
    // The host computes the real division and the engine returns it.
    let bits = (1.0f64 / 2.0f64).to_bits();
    let (r2, _) = eval_tokens(tokens, vec![Answer::Hit(Value::Float(bits))]);
    match r2 {
        EvalOut::Val(Value::Float(got)) => {
            assert_eq!(got, bits);
            assert_eq!(f64::from_bits(got), 0.5f64);
        },
        _ => panic!("expected a Float"),
    }
}

#[test]
fn integer_division_by_zero_is_fatal() {
    let (r, _) = eval_tokens(
        vec![
            Value::Integer(7),
            Value::Operation(BasicOperator::Divide),
            Value::Integer(0),
        ],
        Vec::new(),
    );
    assert!(matches!(r, EvalOut::Fatal(EvalError::DivisionByZero)));
}

#[test]
fn string_addition_concatenates() {
    let (r, _) = eval_tokens(
        vec![
            Value::Str(String::from("foo")),
            Value::Operation(BasicOperator::Add),
            Value::Str(String::from("bar")),
        ],
        Vec::new(),
    );
    match r {
        EvalOut::Val(Value::Str(s)) => assert_eq!(s, "foobar"),
        _ => panic!("expected a Str"),
    }
}

#[test]
fn string_subtraction_is_fatal() {
    let (r, _) = eval_tokens(
        vec![
            Value::Str(String::from("foo")),
            Value::Operation(BasicOperator::Sub),
            Value::Str(String::from("bar")),
        ],
        Vec::new(),
    );
    assert!(matches!(r, EvalOut::Fatal(EvalError::OpTypes(BasicOperator::Sub, _, _))));
}

fn literal_array(items: Vec<Value>) -> Value {
    Value::Array(items, true, false)
}

#[test]
fn array_indexing_is_left_associative_and_zero_based() {
    // [[1,2],[3,4]][1][0] yields 3
    let base = literal_array(vec![
        literal_array(vec![Value::Integer(1), Value::Integer(2)]),
        literal_array(vec![Value::Integer(3), Value::Integer(4)]),
    ]);
    let suite = Value::Array(
        vec![
            base,
            literal_array(vec![Value::Integer(1)]),
            literal_array(vec![Value::Integer(0)]),
        ],
        false,
        true,
    );
    let (r, _) = eval_tokens(vec![suite], Vec::new());
    assert!(matches!(r, EvalOut::Val(Value::Integer(3))));
}

#[test]
fn string_indexing_yields_single_character_string() {
    // "hello"[1] yields "e"
    let suite = Value::Array(
        vec![
            Value::Str(String::from("hello")),
            literal_array(vec![Value::Integer(1)]),
        ],
        false,
        true,
    );
    let (r, _) = eval_tokens(vec![suite], Vec::new());
    match r {
        EvalOut::Val(Value::Str(s)) => assert_eq!(s, "e"),
        _ => panic!("expected a Str"),
    }
}

#[test]
fn index_out_of_range_is_fatal() {
    let suite = Value::Array(
        vec![
            Value::Str(String::from("hi")),
            literal_array(vec![Value::Integer(9)]),
        ],
        false,
        true,
    );
    let (r, _) = eval_tokens(vec![suite], Vec::new());
    assert!(matches!(r, EvalOut::Fatal(EvalError::IndexOutOfRange)));
}

fn main_with_body(body: Vec<Vec<Value>>) -> Vec<Function> {
    vec![Function {
        name: String::from("main"),
        params: Vec::new(),
        body,
    }]
}

#[test]
fn while_loop_mutation_is_visible_after_the_loop() {
    // x = 0; while x < 3 { x = x + 1 }; return x  ==> 3
    let body = vec![
        vec![Value::VariableDeclaration(
            String::from("x"),
            vec![Value::Integer(0)],
            false,
        )],
        vec![Value::While(
            vec![
                Value::VariableIdentifier(String::from("x")),
                Value::Operation(BasicOperator::Inferior),
                Value::Integer(3),
            ],
            vec![Value::VariableDeclaration(
                String::from("x"),
                vec![
                    Value::VariableIdentifier(String::from("x")),
                    Value::Operation(BasicOperator::Add),
                    Value::Integer(1),
                ],
                true,
            )],
        )],
        vec![Value::FunctionReturn(vec![Value::VariableIdentifier(
            String::from("x"),
        )])],
    ];
    let funcs = main_with_body(body);
    let mut m = fresh_machine();
    let r = run_program(&funcs, &mut m, FUEL);
    assert!(matches!(r, EvalOut::Val(Value::Integer(3))));
}

#[test]
fn redeclaring_an_undeclared_name_is_fatal() {
    let body = vec![vec![Value::VariableDeclaration(
        String::from("y"),
        vec![Value::Integer(1)],
        true,
    )]];
    let funcs = main_with_body(body);
    let mut m = fresh_machine();
    let r = run_program(&funcs, &mut m, FUEL);
    match r {
        EvalOut::Fatal(EvalError::RedeclareMissing(n)) => assert_eq!(n, "y"),
        _ => panic!("expected the does-not-exist error"),
    }
}

#[test]
fn declaring_twice_shadows_instead_of_erring() {
    let body = vec![
        vec![Value::VariableDeclaration(
            String::from("x"),
            vec![Value::Integer(1)],
            false,
        )],
        vec![Value::VariableDeclaration(
            String::from("x"),
            vec![Value::Integer(2)],
            false,
        )],
        vec![Value::FunctionReturn(vec![Value::VariableIdentifier(
            String::from("x"),
        )])],
    ];
    let funcs = main_with_body(body);
    let mut m = fresh_machine();
    let r = run_program(&funcs, &mut m, FUEL);
    assert!(matches!(r, EvalOut::Val(Value::Integer(2))));
}

fn call_builtin(name: &str, args: Vec<Value>, answers: Vec<Answer>) -> EvalOut {
    let funcs = Vec::new();
    let mut m = machine_with(answers);
    process_function(&String::from(name), args, &funcs, &mut m, FUEL)
}

fn ints(items: &[i64]) -> Value {
    Value::Array(items.iter().map(|n| Value::Integer(*n)).collect(), false, false)
}

#[test]
fn range_counts_up_by_the_step() {
    let r = call_builtin(
        "range",
        vec![Value::Integer(0), Value::Integer(5), Value::Integer(2)],
        Vec::new(),
    );
    match r {
        EvalOut::Val(v) => assert!(value_eq(&v, &ints(&[0, 2, 4]))),
        _ => panic!("expected an Array"),
    }
}

#[test]
fn range_counts_down_by_a_negative_step() {
    let r = call_builtin(
        "range",
        vec![Value::Integer(5), Value::Integer(0), Value::Integer(-2)],
        Vec::new(),
    );
    match r {
        EvalOut::Val(v) => assert!(value_eq(&v, &ints(&[5, 3, 1]))),
        _ => panic!("expected an Array"),
    }
}

#[test]
fn range_with_zero_step_is_fatal() {
    let r = call_builtin(
        "range",
        vec![Value::Integer(3), Value::Integer(9), Value::Integer(0)],
        Vec::new(),
    );
    assert!(matches!(r, EvalOut::Fatal(EvalError::ZeroStep)));
}

#[test]
fn abs_of_a_negative_integer() {
    let r = call_builtin("abs", vec![Value::Integer(-3)], Vec::new());
    assert!(matches!(r, EvalOut::Val(Value::Integer(3))));
}

#[test]
fn abs_of_a_negative_float_clears_the_sign() {
    let r = call_builtin(
        "abs",
        vec![Value::Float((-3.5f64).to_bits())],
        Vec::new(),
    );
    match r {
        EvalOut::Val(Value::Float(bits)) => assert_eq!(f64::from_bits(bits), 3.5f64),
        _ => panic!("expected a Float"),
    }
}

#[test]
fn abs_of_a_string_is_fatal() {
    let r = call_builtin("abs", vec![Value::Str(String::from("x"))], Vec::new());
    assert!(matches!(r, EvalOut::Fatal(EvalError::BadBuiltinArg(_, _))));
}

#[test]
fn int_conversion_parses_decimal_strings_exactly() {
    let r = call_builtin("int", vec![Value::Str(String::from("-42"))], Vec::new());
    assert!(matches!(r, EvalOut::Val(Value::Integer(-42))));
    let bad = call_builtin("int", vec![Value::Str(String::from("4x"))], Vec::new());
    assert!(matches!(bad, EvalOut::Fatal(EvalError::ConvertFailed(_))));
}

#[test]
fn str_of_an_array_renders_its_elements() {
    let r = call_builtin(
        "str",
        vec![ints(&[1, 2])],
        Vec::new(),
    );
    match r {
        EvalOut::Val(Value::Str(s)) => assert_eq!(s, "[1, 2]"),
        _ => panic!("expected a Str"),
    }
}

#[test]
fn print_appends_to_the_output_log() {
    let funcs = Vec::new();
    let mut m = fresh_machine();
    let r = process_function(
        &String::from("print"),
        vec![Value::Integer(-7)],
        &funcs,
        &mut m,
        FUEL,
    );
    assert!(matches!(r, EvalOut::Val(Value::Null)));
    assert_eq!(m.log.len(), 1);
    assert_eq!(m.log[0], "-7");
}

#[test]
fn type_names_the_value_kind() {
    let r = call_builtin("type", vec![Value::Integer(1)], Vec::new());
    match r {
        EvalOut::Val(Value::Str(s)) => assert_eq!(s, "Integer"),
        _ => panic!("expected a Str"),
    }
}

#[test]
fn unknown_function_is_fatal() {
    let r = call_builtin("nosuch", vec![], Vec::new());
    assert!(matches!(r, EvalOut::Fatal(EvalError::UnknownFunction(_))));
}

#[test]
fn user_function_arity_is_checked() {
    let funcs = vec![Function {
        name: String::from("f"),
        params: vec![String::from("a")],
        body: vec![vec![Value::FunctionReturn(vec![Value::VariableIdentifier(
            String::from("a"),
        )])]],
    }];
    let mut m = fresh_machine();
    let r = process_function(&String::from("f"), vec![], &funcs, &mut m, FUEL);
    assert!(matches!(r, EvalOut::Fatal(EvalError::WrongArgCount(_, 1, 0))));
}

#[test]
fn executeline_evaluates_the_host_parsed_line() {
    let r = call_builtin(
        "executeline",
        vec![Value::Str(String::from("5"))],
        vec![Answer::Hit(Value::Wrap(vec![Value::Integer(5)]))],
    );
    assert!(matches!(r, EvalOut::Val(Value::Integer(5))));
}

#[test]
fn uppercase_member_uses_the_real_case_folding() {
    let (r, _) = eval_tokens(
        vec![
            Value::Str(String::from("hello")),
            Value::Property(String::from("uppercase"), Vec::new()),
        ],
        Vec::new(),
    );
    match r {
        EvalOut::Val(Value::Str(s)) => assert_eq!(s, "hello".to_uppercase()),
        _ => panic!("expected a Str"),
    }
}

#[test]
fn capitalize_member_uses_the_real_sentence_case() {
    let (r, _) = eval_tokens(
        vec![
            Value::Str(String::from("hello world")),
            Value::Property(String::from("capitalize"), Vec::new()),
        ],
        Vec::new(),
    );
    match r {
        EvalOut::Val(Value::Str(s)) => {
            assert_eq!(s, inflector::cases::sentencecase::to_sentence_case("hello world"));
            assert_eq!(s, "Hello world");
        },
        _ => panic!("expected a Str"),
    }
}

#[test]
fn replace_member_replaces_every_occurrence() {
    let (r, _) = eval_tokens(
        vec![
            Value::Str(String::from("aXbXc")),
            Value::Property(
                String::from("replace"),
                vec![
                    Value::Str(String::from("X")),
                    Value::Separator,
                    Value::Str(String::from("-")),
                ],
            ),
        ],
        Vec::new(),
    );
    match r {
        EvalOut::Val(Value::Str(s)) => assert_eq!(s, "a-b-c"),
        _ => panic!("expected a Str"),
    }
}

#[test]
fn contains_member_finds_a_deeply_equal_element() {
    let (r, _) = eval_tokens(
        vec![
            ints(&[1, 2, 3]),
            Value::Property(String::from("contains"), vec![Value::Integer(2)]),
        ],
        Vec::new(),
    );
    assert!(matches!(r, EvalOut::Val(Value::Bool(true))));
}

#[test]
fn boolean_or_short_circuit_forms_combine() {
    let (r, _) = eval_tokens(
        vec![
            Value::Bool(false),
            Value::Or(vec![Value::Bool(true)]),
        ],
        Vec::new(),
    );
    assert!(matches!(r, EvalOut::Val(Value::Bool(true))));
}

#[test]
fn comparing_null_to_null_is_identity() {
    let (r, _) = eval_tokens(
        vec![
            Value::Null,
            Value::Operation(BasicOperator::Equal),
            Value::Null,
        ],
        Vec::new(),
    );
    assert!(matches!(r, EvalOut::Val(Value::Bool(true))));
}

#[test]
fn integer_overflow_is_fatal_not_silent() {
    let (r, _) = eval_tokens(
        vec![
            Value::Integer(i64::MAX),
            Value::Operation(BasicOperator::Add),
            Value::Integer(1),
        ],
        Vec::new(),
    );
    assert!(matches!(r, EvalOut::Fatal(EvalError::Overflow)));
}

#[test]
fn integer_power_is_exact() {
    let (r, _) = eval_tokens(
        vec![
            Value::Integer(2),
            Value::Operation(BasicOperator::Power),
            Value::Integer(10),
        ],
        Vec::new(),
    );
    assert!(matches!(r, EvalOut::Val(Value::Integer(1024))));
}

use compute::value::{Value, BasicOperator};
use compute::machine::Function;
use compute::cache::{cache_key, serialize_table, deserialize_table, link_unit};
use compute::codec::encode_value;
use compute::machine::{EvalOut, EvalError};
use compute::eval::process_function;
use compute::machine::Machine;

fn sample_table() -> Vec<Function> {
    vec![
        Function {
            name: String::from("main"),
            params: Vec::new(),
            body: vec![
                vec![Value::VariableDeclaration(
                    String::from("x"),
                    vec![Value::Integer(1), Value::Operation(BasicOperator::Add), Value::Integer(2)],
                    false,
                )],
                vec![Value::Condition(
                    vec![Value::Bool(true)],
                    vec![Value::Wrap(vec![Value::FunctionCall(
                        String::from("print"),
                        vec![Value::Str(String::from("hi"))],
                    )])],
                    vec![(Vec::new(), vec![Value::Break])],
                )],
                vec![Value::FunctionReturn(vec![Value::Null])],
            ],
        },
        Function {
            name: String::from("helper"),
            params: vec![String::from("a"), String::from("b")],
            body: vec![vec![Value::While(
                vec![Value::Bool(false)],
                vec![Value::Separator],
            )]],
        },
    ]
}

fn table_eq(a: &Vec<Function>, b: &Vec<Function>) -> bool {
    if a.len() != b.len() {
        return false;
    }
    for i in 0..a.len() {
        if a[i].name != b[i].name || a[i].params != b[i].params {
            return false;
        }
        if a[i].body.len() != b[i].body.len() {
            return false;
        }
        for j in 0..a[i].body.len() {
            if a[i].body[j].len() != b[i].body[j].len() {
                return false;
            }
            for k in 0..a[i].body[j].len() {
                let mut ea = Vec::new();
                compute::codec::put_value(&mut ea, &a[i].body[j][k]);
                let mut eb = Vec::new();
                compute::codec::put_value(&mut eb, &b[i].body[j][k]);
                if ea != eb {
                    return false;
                }
            }
        }
    }
    true
}

#[test]
fn a_persisted_table_reads_back_identically() {
    let t = sample_table();
    let bytes = serialize_table(&t);
    let back = deserialize_table(&bytes).expect("the encoding must read back");
    assert!(table_eq(&t, &back));
}

#[test]
fn a_corrupt_entry_is_rejected() {
    let t = sample_table();
    let mut bytes = serialize_table(&t);
    bytes.pop();
    assert!(matches!(deserialize_table(&bytes), Err(EvalError::CorruptCache)));
}

#[test]
fn the_cache_key_is_the_blake3_digest_of_the_text() {
    let text = "func main() { return 0; }";
    let key = cache_key(text);
    let expect = blake3::hash(text.as_bytes()).to_hex();
    assert_eq!(key, expect.as_str());
    assert_eq!(key.len(), 64);
}

#[test]
fn imported_functions_are_appended_after_the_units_own() {
    let own = sample_table();
    let imports = vec![Function {
        name: String::from("imported"),
        params: Vec::new(),
        body: vec![vec![Value::FunctionReturn(vec![Value::Integer(9)])]],
    }];
    let linked = link_unit(own, imports, true, &String::from("main")).expect("main exists");
    assert_eq!(linked.len(), 3);
    assert_eq!(linked[0].name, "main");
    assert_eq!(linked[2].name, "imported");
    // an imported function is callable after linking
    let mut m = Machine::start(Vec::new());
    let r = process_function(&String::from("imported"), Vec::new(), &linked, &mut m, 10_000);
    assert!(matches!(r, EvalOut::Val(Value::Integer(9))));
}

#[test]
fn a_missing_entry_function_is_fatal_for_the_top_unit() {
    let own = vec![Function {
        name: String::from("not_main"),
        params: Vec::new(),
        body: Vec::new(),
    }];
    let r = link_unit(own, Vec::new(), true, &String::from("main"));
    assert!(matches!(r, Err(EvalError::MissingEntry(_))));
}

#[test]
fn the_hash_builtin_digests_the_stable_encoding() {
    let funcs = Vec::new();
    let mut m = Machine::start(Vec::new());
    let r = process_function(
        &String::from("hash"),
        vec![Value::Integer(7)],
        &funcs,
        &mut m,
        10_000,
    );
    let enc = encode_value(&Value::Integer(7));
    let expect = blake3::hash(&enc).to_hex();
    match r {
        EvalOut::Val(Value::Str(s)) => assert_eq!(s, expect.as_str()),
        _ => panic!("expected a Str"),
    }
}

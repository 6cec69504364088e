use sanctifier::analyzer::Analyzer;
use sanctifier::ast::{BinOp, Expr, FnDef, Item, Lit, SourceFile, Stmt, TyExpr};
use sanctifier::config::SanctifyConfig;
use sanctifier::findings::SizeWarningLevel;

fn path(segments: &[&str]) -> Expr {
    Expr::Path {
        segments: segments.iter().map(|s| s.to_string()).collect(),
    }
}

fn mcall(name: &str, receiver: Expr, args: Vec<Expr>) -> Expr {
    Expr::MethodCall {
        name: name.to_string(),
        receiver: Box::new(receiver),
        args,
    }
}

fn call(func: Expr, args: Vec<Expr>, line: usize) -> Expr {
    Expr::Call {
        func: Box::new(func),
        args,
        line,
    }
}

fn binary(op: BinOp, left: Expr, right: Expr, line: usize) -> Expr {
    Expr::Binary {
        op,
        left: Box::new(left),
        right: Box::new(right),
        line,
    }
}

fn int_lit(v: u64) -> Expr {
    Expr::Literal { lit: Lit::Int(v) }
}

fn str_lit(s: &str) -> Expr {
    Expr::Literal {
        lit: Lit::Str(s.to_string()),
    }
}

fn expr_stmt(expr: Expr) -> Stmt {
    Stmt::ExprStmt { expr }
}

fn local_init(expr: Expr) -> Stmt {
    Stmt::Local {
        ty: None,
        init: Some(expr),
    }
}

fn pub_method(name: &str, param_count: usize, body: Vec<Stmt>) -> FnDef {
    FnDef {
        name: name.to_string(),
        is_public: true,
        param_count,
        loc: 3,
        body,
    }
}

fn file_of(items: Vec<Item>) -> SourceFile {
    SourceFile { items }
}

fn named_ty(name: &str, args: Vec<TyExpr>) -> TyExpr {
    TyExpr::Named {
        name: name.to_string(),
        args,
    }
}

/// `env.storage().instance()` — a storage-like receiver chain.
fn storage_receiver() -> Expr {
    mcall(
        "instance",
        mcall("storage", path(&["env"]), vec![]),
        vec![],
    )
}

fn analyzer() -> Analyzer {
    Analyzer::new(SanctifyConfig::default())
}

#[test]
fn test_scan_auth_gaps() {
    // impl MyContract {
    //     pub fn set_data(env: Env, val: u32) {
    //         env.storage().instance().set(&DataKey::Val, &val);
    //     }
    //     pub fn set_data_secure(env: Env, val: u32) {
    //         env.require_auth();
    //         env.storage().instance().set(&DataKey::Val, &val);
    //     }
    //     pub fn get_data(env: Env) -> u32 {
    //         env.storage().instance().get(&DataKey::Val).unwrap_or(0)
    //     }
    //     pub fn no_storage(env: Env) {
    //         let x = 1 + 1;
    //     }
    // }
    let set_call = || {
        mcall(
            "set",
            storage_receiver(),
            vec![
                Expr::Unknown {
                    children: vec![path(&["DataKey", "Val"])],
                },
                Expr::Unknown {
                    children: vec![path(&["val"])],
                },
            ],
        )
    };
    let set_data = pub_method("set_data", 2, vec![expr_stmt(set_call())]);
    let set_data_secure = pub_method(
        "set_data_secure",
        2,
        vec![
            expr_stmt(mcall("require_auth", path(&["env"]), vec![])),
            expr_stmt(set_call()),
        ],
    );
    let get_data = pub_method(
        "get_data",
        1,
        vec![expr_stmt(mcall(
            "unwrap_or",
            mcall(
                "get",
                storage_receiver(),
                vec![Expr::Unknown {
                    children: vec![path(&["DataKey", "Val"])],
                }],
            ),
            vec![int_lit(0)],
        ))],
    );
    let no_storage = pub_method(
        "no_storage",
        1,
        vec![local_init(binary(BinOp::Add, int_lit(1), int_lit(1), 14))],
    );
    let file = file_of(vec![Item::Impl {
        fns: vec![set_data, set_data_secure, get_data, no_storage],
    }]);
    let gaps = analyzer().scan_auth_gaps(&file);
    assert_eq!(gaps.len(), 1);
    assert_eq!(gaps[0], "set_data");
}

#[test]
fn test_auth_gap_via_free_call_and_macro() {
    // An authorization primitive as a free call or a statement macro also
    // suppresses the finding.
    let set_call = || mcall("set", storage_receiver(), vec![]);
    let free_call_auth = pub_method(
        "free_call_auth",
        1,
        vec![
            expr_stmt(call(path(&["require_auth"]), vec![], 2)),
            expr_stmt(set_call()),
        ],
    );
    let macro_auth = pub_method(
        "macro_auth",
        1,
        vec![
            Stmt::MacroStmt {
                path: vec!["require_auth_for_args".to_string()],
            },
            expr_stmt(set_call()),
        ],
    );
    let private_mutator = FnDef {
        name: "private_mutator".to_string(),
        is_public: false,
        param_count: 1,
        loc: 3,
        body: vec![expr_stmt(set_call())],
    };
    let file = file_of(vec![Item::Impl {
        fns: vec![free_call_auth, macro_auth, private_mutator],
    }]);
    let gaps = analyzer().scan_auth_gaps(&file);
    assert!(gaps.is_empty());
}

#[test]
fn test_scan_panics() {
    // impl MyContract {
    //     pub fn unsafe_fn(env: Env) { panic!("Something went wrong"); }
    //     pub fn unsafe_unwrap(env: Env) { let x = None; let y = x.unwrap(); }
    //     pub fn unsafe_expect(env: Env) { let x = None; let y = x.expect("..."); }
    //     pub fn safe_fn(env: Env) -> Result<(), u32> { Ok(()) }
    // }
    let unsafe_fn = pub_method(
        "unsafe_fn",
        1,
        vec![Stmt::MacroStmt {
            path: vec!["panic".to_string()],
        }],
    );
    let unsafe_unwrap = pub_method(
        "unsafe_unwrap",
        1,
        vec![
            local_init(path(&["None"])),
            local_init(mcall("unwrap", path(&["x"]), vec![])),
        ],
    );
    let unsafe_expect = pub_method(
        "unsafe_expect",
        1,
        vec![
            local_init(path(&["None"])),
            local_init(mcall("expect", path(&["x"]), vec![str_lit("Failed to get x")])),
        ],
    );
    let safe_fn = pub_method(
        "safe_fn",
        1,
        vec![expr_stmt(call(path(&["Ok"]), vec![], 12))],
    );
    let file = file_of(vec![Item::Impl {
        fns: vec![unsafe_fn, unsafe_unwrap, unsafe_expect, safe_fn],
    }]);
    let issues = analyzer().scan_panics(&file);
    assert_eq!(issues.len(), 3);

    let types: Vec<String> = issues.iter().map(|i| i.issue_type.clone()).collect();
    assert!(types.contains(&"panic!".to_string()));
    assert!(types.contains(&"unwrap".to_string()));
    assert!(types.contains(&"expect".to_string()));
}

#[test]
fn test_scan_panics_nested_chain() {
    // a.b().unwrap().c() — the unwrap in the middle of a chain is found.
    let chain = mcall(
        "c",
        mcall("unwrap", mcall("b", path(&["a"]), vec![]), vec![]),
        vec![],
    );
    let file = file_of(vec![Item::Impl {
        fns: vec![pub_method("chained", 0, vec![expr_stmt(chain)])],
    }]);
    let issues = analyzer().scan_panics(&file);
    assert_eq!(issues.len(), 1);
    assert_eq!(issues[0].issue_type, "unwrap");
    assert_eq!(issues[0].function_name, "chained");
    assert_eq!(issues[0].location, "chained");
}

#[test]
fn test_scan_arithmetic_overflow_basic() {
    let add_balances = pub_method(
        "add_balances",
        3,
        vec![expr_stmt(binary(BinOp::Add, path(&["a"]), path(&["b"]), 4))],
    );
    let subtract = pub_method(
        "subtract",
        3,
        vec![expr_stmt(binary(
            BinOp::Sub,
            path(&["total"]),
            path(&["amount"]),
            8,
        ))],
    );
    let multiply = pub_method(
        "multiply",
        3,
        vec![expr_stmt(binary(
            BinOp::Mul,
            path(&["price"]),
            path(&["qty"]),
            12,
        ))],
    );
    let safe_add = pub_method(
        "safe_add",
        3,
        vec![expr_stmt(mcall(
            "checked_add",
            path(&["a"]),
            vec![path(&["b"])],
        ))],
    );
    let file = file_of(vec![Item::Impl {
        fns: vec![add_balances, subtract, multiply, safe_add],
    }]);
    let issues = analyzer().scan_arithmetic_overflow(&file);
    // Three distinct (function, operator) pairs flagged
    assert_eq!(issues.len(), 3);

    let ops: Vec<&str> = issues.iter().map(|i| i.operation.as_str()).collect();
    assert!(ops.contains(&"+"));
    assert!(ops.contains(&"-"));
    assert!(ops.contains(&"*"));

    // safe_add uses checked_add — no bare + operator, so not flagged
    assert!(issues.iter().all(|i| i.function_name != "safe_add"));
}

#[test]
fn test_scan_arithmetic_overflow_compound_assign() {
    let accumulate = pub_method(
        "accumulate",
        3,
        vec![
            expr_stmt(binary(
                BinOp::AddAssign,
                path(&["balance"]),
                path(&["amount"]),
                3,
            )),
            expr_stmt(binary(BinOp::SubAssign, path(&["balance"]), int_lit(1), 4)),
            expr_stmt(binary(BinOp::MulAssign, path(&["balance"]), int_lit(2), 5)),
        ],
    );
    let file = file_of(vec![Item::Impl {
        fns: vec![accumulate],
    }]);
    let issues = analyzer().scan_arithmetic_overflow(&file);
    // One issue per compound operator per function
    assert_eq!(issues.len(), 3);
    let ops: Vec<&str> = issues.iter().map(|i| i.operation.as_str()).collect();
    assert!(ops.contains(&"+="));
    assert!(ops.contains(&"-="));
    assert!(ops.contains(&"*="));
}

#[test]
fn test_scan_arithmetic_overflow_deduplication() {
    // pub fn sum_three(env: Env, a: u64, b: u64, c: u64) -> u64 { a + b + c }
    // Two `+` operations — should produce only ONE issue for this function
    let sum = binary(
        BinOp::Add,
        binary(BinOp::Add, path(&["a"]), path(&["b"]), 5),
        path(&["c"]),
        5,
    );
    let file = file_of(vec![Item::Impl {
        fns: vec![pub_method("sum_three", 4, vec![expr_stmt(sum)])],
    }]);
    let issues = analyzer().scan_arithmetic_overflow(&file);
    assert_eq!(issues.len(), 1);
    assert_eq!(issues[0].operation, "+");
    assert_eq!(issues[0].function_name, "sum_three");
}

#[test]
fn test_scan_arithmetic_overflow_no_false_positive_safe_code() {
    let compare = pub_method(
        "compare",
        3,
        vec![expr_stmt(binary(BinOp::Other, path(&["a"]), path(&["b"]), 4))],
    );
    let bitwise = pub_method(
        "bitwise",
        2,
        vec![expr_stmt(binary(BinOp::Other, path(&["a"]), int_lit(0xff), 8))],
    );
    let file = file_of(vec![Item::Impl {
        fns: vec![compare, bitwise],
    }]);
    let issues = analyzer().scan_arithmetic_overflow(&file);
    assert!(issues.is_empty(), "Expected no issues but found some");
}

#[test]
fn test_scan_arithmetic_overflow_string_concat_skipped() {
    // `"a" + x` — a string-literal operand is no overflow risk.
    let concat = binary(BinOp::Add, str_lit("a"), path(&["x"]), 3);
    let file = file_of(vec![Item::Impl {
        fns: vec![pub_method("greet", 1, vec![expr_stmt(concat)])],
    }]);
    let issues = analyzer().scan_arithmetic_overflow(&file);
    assert!(issues.is_empty());
}

#[test]
fn test_scan_arithmetic_overflow_custom_wrapper_types() {
    // pub fn add_shares(...) -> Shares { Shares(current.0 + delta.0) }
    let sum = binary(
        BinOp::Add,
        Expr::Field {
            base: Box::new(path(&["current"])),
            member: "0".to_string(),
        },
        Expr::Field {
            base: Box::new(path(&["delta"])),
            member: "0".to_string(),
        },
        4,
    );
    let wrapped = call(path(&["Shares"]), vec![sum], 4);
    let file = file_of(vec![Item::Impl {
        fns: vec![pub_method("add_shares", 3, vec![expr_stmt(wrapped)])],
    }]);
    let issues = analyzer().scan_arithmetic_overflow(&file);
    assert_eq!(issues.len(), 1);
    assert_eq!(issues[0].operation, "+");
}

#[test]
fn test_scan_arithmetic_overflow_suggestion_content() {
    let risky = pub_method(
        "risky",
        3,
        vec![expr_stmt(binary(BinOp::Add, path(&["a"]), path(&["b"]), 4))],
    );
    let file = file_of(vec![Item::Impl { fns: vec![risky] }]);
    let issues = analyzer().scan_arithmetic_overflow(&file);
    assert_eq!(issues.len(), 1);
    // Suggestion should mention checked_add
    assert!(issues[0].suggestion.contains("checked_add"));
    // Location should include function name and the left operand's line
    assert!(issues[0].location.starts_with("risky:"));
    assert_eq!(issues[0].location, "risky:4");
}

#[test]
fn test_scan_storage_collisions() {
    // const KEY1: &str = "collision";
    // const KEY2: &str = "collision";
    // impl Contract {
    //     pub fn x() {
    //         let s = symbol_short!("other");
    //         let s2 = symbol_short!("other");
    //     }
    // }
    let x_fn = pub_method(
        "x",
        0,
        vec![
            local_init(Expr::MacroCall {
                path: vec!["symbol_short".to_string()],
                str_arg: Some("other".to_string()),
                line: 8,
            }),
            local_init(Expr::MacroCall {
                path: vec!["symbol_short".to_string()],
                str_arg: Some("other".to_string()),
                line: 9,
            }),
        ],
    );
    let file = file_of(vec![
        Item::Const {
            name: "KEY1".to_string(),
            str_value: Some("collision".to_string()),
            line: 2,
        },
        Item::Const {
            name: "KEY2".to_string(),
            str_value: Some("collision".to_string()),
            line: 3,
        },
        Item::Impl { fns: vec![x_fn] },
    ]);
    let issues = analyzer().scan_storage_collisions(&file);
    // 2 for "collision" (KEY1, KEY2) + 2 for "other" (two symbol_short! calls)
    assert_eq!(issues.len(), 4);
    assert!(issues.iter().any(|i| i.key_value == "collision"));
    assert!(issues.iter().any(|i| i.key_value == "other"));
}

#[test]
fn test_three_collision_occurrences_cross_reference() {
    // Two constants plus one Symbol::new call, all carrying "collision":
    // three issues, each cross-referencing the other two.
    let sym_new = call(
        path(&["Symbol", "new"]),
        vec![path(&["env"]), str_lit("collision")],
        9,
    );
    let file = file_of(vec![
        Item::Const {
            name: "KEY1".to_string(),
            str_value: Some("collision".to_string()),
            line: 2,
        },
        Item::Const {
            name: "KEY2".to_string(),
            str_value: Some("collision".to_string()),
            line: 3,
        },
        Item::Impl {
            fns: vec![pub_method("store", 1, vec![expr_stmt(sym_new)])],
        },
    ]);
    let issues = analyzer().scan_storage_collisions(&file);
    assert_eq!(issues.len(), 3);
    for issue in &issues {
        assert_eq!(issue.key_value, "collision");
        assert!(issue
            .message
            .starts_with("Potential storage key collision: value 'collision' is also used in: "));
    }
    assert_eq!(issues[0].key_type, "const");
    assert_eq!(issues[0].location, "KEY1:2");
    assert!(issues[0].message.contains("KEY2 (line 3)"));
    assert!(issues[0].message.contains("inline (line 9)"));
    assert!(!issues[0].message.contains("KEY1 (line 2)"));
    assert_eq!(issues[1].location, "KEY2:3");
    assert!(issues[1].message.contains("KEY1 (line 2)"));
    assert!(issues[1].message.contains("inline (line 9)"));
    assert_eq!(issues[2].key_type, "Symbol::new");
    assert_eq!(issues[2].location, "inline:9");
    assert!(issues[2].message.contains("KEY1 (line 2)"));
    assert!(issues[2].message.contains("KEY2 (line 3)"));
}

#[test]
fn test_unique_keys_no_collision() {
    let file = file_of(vec![
        Item::Const {
            name: "A".to_string(),
            str_value: Some("alpha".to_string()),
            line: 1,
        },
        Item::Const {
            name: "B".to_string(),
            str_value: Some("beta".to_string()),
            line: 2,
        },
    ]);
    let issues = analyzer().scan_storage_collisions(&file);
    assert!(issues.is_empty());
}

#[test]
fn test_analyze_with_macros() {
    // Small persisted types stay well under the stock 64000-byte limit.
    let small = Item::Struct {
        name: "SmallData".to_string(),
        persisted: true,
        fields: vec![named_ty("u32", vec![])],
    };
    let big = Item::Struct {
        name: "BigData".to_string(),
        persisted: true,
        fields: vec![named_ty("Bytes", vec![]), named_ty("u128", vec![])],
    };
    let warnings = analyzer().analyze_ledger_size(&file_of(vec![small, big]));
    // SmallData: 4 bytes — BigData: 64 + 16 = 80 bytes — both under 64 KB
    assert!(warnings.is_empty());
}

#[test]
fn test_analyze_with_limit() {
    let mut config = SanctifyConfig::default();
    config.ledger_limit = 50;
    let analyzer = Analyzer::new(config);
    // #[contracttype] pub struct ExceedsLimit { buffer: Bytes } — 64 bytes
    let file = file_of(vec![Item::Struct {
        name: "ExceedsLimit".to_string(),
        persisted: true,
        fields: vec![named_ty("Bytes", vec![])],
    }]);
    let warnings = analyzer.analyze_ledger_size(&file);
    assert_eq!(warnings.len(), 1);
    assert_eq!(warnings[0].struct_name, "ExceedsLimit");
    assert_eq!(warnings[0].estimated_size, 64);
    assert_eq!(warnings[0].level, SizeWarningLevel::ExceedsLimit);
}

#[test]
fn test_ledger_three_way_classification() {
    // Limit 100, threshold 800 parts per thousand: 80 approaches, 68 passes.
    let mut config = SanctifyConfig::default();
    config.ledger_limit = 100;
    let analyzer = Analyzer::new(config);
    let file = file_of(vec![
        Item::Struct {
            name: "Approaching".to_string(),
            persisted: true,
            fields: vec![named_ty("Bytes", vec![]), named_ty("u128", vec![])],
        },
        Item::Struct {
            name: "Comfortable".to_string(),
            persisted: true,
            fields: vec![named_ty("Bytes", vec![]), named_ty("bool", vec![])],
        },
        Item::Struct {
            name: "Unmarked".to_string(),
            persisted: false,
            fields: (0..10).map(|_| named_ty("Bytes", vec![])).collect(),
        },
    ]);
    let warnings = analyzer.analyze_ledger_size(&file);
    assert_eq!(warnings.len(), 1);
    assert_eq!(warnings[0].struct_name, "Approaching");
    assert_eq!(warnings[0].estimated_size, 80);
    assert_eq!(warnings[0].level, SizeWarningLevel::ApproachingLimit);
}

#[test]
fn test_ledger_strict_mode_halves_limit() {
    let mut config = SanctifyConfig::default();
    config.ledger_limit = 200;
    config.strict_mode = true;
    let analyzer = Analyzer::new(config);
    // 64 + 32 + 4 = 100 bytes: half of 200 already exceeds in strict mode.
    let file = file_of(vec![Item::Struct {
        name: "Borderline".to_string(),
        persisted: true,
        fields: vec![
            named_ty("Bytes", vec![]),
            named_ty("Address", vec![]),
            named_ty("bool", vec![]),
        ],
    }]);
    let warnings = analyzer.analyze_ledger_size(&file);
    assert_eq!(warnings.len(), 1);
    assert_eq!(warnings[0].level, SizeWarningLevel::ExceedsLimit);
}

#[test]
fn test_ledger_enum_sizes_largest_variant() {
    let mut config = SanctifyConfig::default();
    config.ledger_limit = 30;
    let analyzer = Analyzer::new(config);
    // enum DataKey { Balance(Address), Admin } — 4 + max(32, 0) = 36 bytes.
    let file = file_of(vec![Item::Enum {
        name: "DataKey".to_string(),
        persisted: true,
        variants: vec![vec![named_ty("Address", vec![])], vec![]],
    }]);
    let warnings = analyzer.analyze_ledger_size(&file);
    assert_eq!(warnings.len(), 1);
    assert_eq!(warnings[0].struct_name, "DataKey");
    assert_eq!(warnings[0].estimated_size, 36);
    assert_eq!(warnings[0].level, SizeWarningLevel::ExceedsLimit);
}

#[test]
fn test_ledger_type_size_table() {
    // One single-field struct per type shape; limit 1 classifies each as
    // exceeding, exposing the estimated sizes.
    let mut config = SanctifyConfig::default();
    config.ledger_limit = 1;
    let analyzer = Analyzer::new(config);
    let shapes: Vec<(TyExpr, usize)> = vec![
        (named_ty("u32", vec![]), 4),
        (named_ty("i64", vec![]), 8),
        (named_ty("i128", vec![]), 16),
        (named_ty("Address", vec![]), 32),
        (named_ty("Symbol", vec![]), 64),
        (named_ty("Vec", vec![named_ty("u64", vec![])]), 16),
        (named_ty("Vec", vec![]), 128),
        (
            named_ty("Map", vec![named_ty("u32", vec![]), named_ty("u64", vec![])]),
            40,
        ),
        (named_ty("Map", vec![]), 128),
        (named_ty("Option", vec![named_ty("u128", vec![])]), 17),
        (named_ty("Option", vec![]), 32),
        (named_ty("Custom", vec![]), 32),
        (
            TyExpr::Array {
                elem: Box::new(named_ty("u32", vec![])),
                len: Some(10),
            },
            40,
        ),
        (
            TyExpr::Array {
                elem: Box::new(named_ty("u32", vec![])),
                len: None,
            },
            64,
        ),
        (TyExpr::Other, 8),
    ];
    let items: Vec<Item> = shapes
        .into_iter()
        .enumerate()
        .map(|(i, (ty, _))| Item::Struct {
            name: format!("S{}", i),
            persisted: true,
            fields: vec![ty],
        })
        .collect();
    let expected = [4, 8, 16, 32, 64, 16, 128, 40, 128, 17, 32, 32, 40, 64, 8];
    let warnings = analyzer.analyze_ledger_size(&file_of(items));
    assert_eq!(warnings.len(), expected.len());
    for (w, e) in warnings.iter().zip(expected.iter()) {
        assert_eq!(w.estimated_size, *e);
    }
}

#[test]
fn test_gas_base_and_local_costs() {
    // pub fn f() { let x: u32 = 1; } — 50 + 2 instructions, 32 + 4 bytes.
    let f = pub_method(
        "f",
        0,
        vec![Stmt::Local {
            ty: Some(named_ty("u32", vec![])),
            init: Some(int_lit(1)),
        }],
    );
    let reports = analyzer().scan_gas_estimation(&file_of(vec![Item::Impl { fns: vec![f] }]));
    assert_eq!(reports.len(), 1);
    assert_eq!(reports[0].function_name, "f");
    assert_eq!(reports[0].estimated_instructions, 52);
    assert_eq!(reports[0].estimated_memory_bytes, 36);
}

#[test]
fn test_gas_storage_and_auth_costs() {
    // pub fn g(env) { env.storage().set(k, v); env.require_auth(); a + b; h(); }
    let body = vec![
        expr_stmt(mcall(
            "set",
            mcall("storage", path(&["env"]), vec![]),
            vec![path(&["k"]), path(&["v"])],
        )),
        expr_stmt(mcall("require_auth", path(&["env"]), vec![])),
        expr_stmt(binary(BinOp::Add, path(&["a"]), path(&["b"]), 4)),
        expr_stmt(call(path(&["h"]), vec![], 5)),
    ];
    let g = pub_method("g", 1, body);
    let reports = analyzer().scan_gas_estimation(&file_of(vec![Item::Impl { fns: vec![g] }]));
    // 50 base + (1000 set + 25 storage) + 500 require_auth + 5 binary + 20 call
    assert_eq!(reports[0].estimated_instructions, 1600);
    assert_eq!(reports[0].estimated_memory_bytes, 32);
}

#[test]
fn test_gas_loop_body_times_ten() {
    // pub fn looping(xs) { for x in xs { let y = 1; } }
    // Body in isolation: 50 + 2 instructions, 32 + 8 bytes.  The loop adds
    // 50 + 10×52 instructions and 10×40 bytes.
    let body = vec![expr_stmt(Expr::ForLoop {
        iter: Box::new(path(&["xs"])),
        body: vec![Stmt::Local {
            ty: None,
            init: Some(int_lit(1)),
        }],
    })];
    let f = pub_method("looping", 1, body);
    let reports = analyzer().scan_gas_estimation(&file_of(vec![Item::Impl { fns: vec![f] }]));
    assert_eq!(reports[0].estimated_instructions, 50 + 50 + 520);
    assert_eq!(reports[0].estimated_memory_bytes, 32 + 400);
}

#[test]
fn test_gas_macro_costs() {
    // vec! costs 50 instructions and 128 bytes; symbol_short! costs 10 and 32;
    // any other macro 10 instructions.
    let body = vec![
        expr_stmt(Expr::MacroCall {
            path: vec!["vec".to_string()],
            str_arg: None,
            line: 2,
        }),
        expr_stmt(Expr::MacroCall {
            path: vec!["symbol_short".to_string()],
            str_arg: Some("k".to_string()),
            line: 3,
        }),
        expr_stmt(Expr::MacroCall {
            path: vec!["log".to_string()],
            str_arg: None,
            line: 4,
        }),
    ];
    let f = pub_method("macros", 0, body);
    let reports = analyzer().scan_gas_estimation(&file_of(vec![Item::Impl { fns: vec![f] }]));
    assert_eq!(reports[0].estimated_instructions, 50 + 50 + 10 + 10);
    assert_eq!(reports[0].estimated_memory_bytes, 32 + 128 + 32);
}

#[test]
fn test_gas_only_public_impl_fns() {
    let private_fn = FnDef {
        name: "hidden".to_string(),
        is_public: false,
        param_count: 0,
        loc: 1,
        body: vec![],
    };
    let free_fn = pub_method("free", 0, vec![]);
    let file = file_of(vec![
        Item::Impl {
            fns: vec![private_fn, pub_method("shown", 0, vec![])],
        },
        Item::FreeFn { func: free_fn },
    ]);
    let reports = analyzer().scan_gas_estimation(&file);
    assert_eq!(reports.len(), 1);
    assert_eq!(reports[0].function_name, "shown");
}

#[test]
fn test_end_to_end_add_function() {
    // pub fn add(a: u64, b: u64) -> u64 { a + b } inside an impl block:
    // no auth gap, one arithmetic finding, no panic finding.
    let add_fn = pub_method(
        "add",
        2,
        vec![expr_stmt(binary(BinOp::Add, path(&["a"]), path(&["b"]), 1))],
    );
    let file = file_of(vec![Item::Impl { fns: vec![add_fn] }]);
    let a = analyzer();
    assert!(a.scan_auth_gaps(&file).is_empty());
    let arith = a.scan_arithmetic_overflow(&file);
    assert_eq!(arith.len(), 1);
    assert_eq!(arith[0].operation, "+");
    assert!(arith[0].suggestion.contains("checked_add"));
    assert!(a.scan_panics(&file).is_empty());
}

#[test]
fn test_detectors_repeat_identically() {
    // Running any detector twice on identical input yields identical output.
    let file = file_of(vec![Item::Impl {
        fns: vec![
            pub_method(
                "noisy",
                1,
                vec![
                    expr_stmt(binary(BinOp::Add, path(&["a"]), path(&["b"]), 2)),
                    expr_stmt(mcall("unwrap", path(&["x"]), vec![])),
                    expr_stmt(mcall("set", storage_receiver(), vec![])),
                ],
            ),
        ],
    }]);
    let a = analyzer();

    let gaps1 = a.scan_auth_gaps(&file);
    let gaps2 = a.scan_auth_gaps(&file);
    assert_eq!(gaps1, gaps2);

    let p1 = a.scan_panics(&file);
    let p2 = a.scan_panics(&file);
    assert_eq!(p1.len(), p2.len());
    for (x, y) in p1.iter().zip(p2.iter()) {
        assert_eq!(x.function_name, y.function_name);
        assert_eq!(x.issue_type, y.issue_type);
        assert_eq!(x.location, y.location);
    }

    let r1 = a.scan_arithmetic_overflow(&file);
    let r2 = a.scan_arithmetic_overflow(&file);
    assert_eq!(r1.len(), r2.len());
    for (x, y) in r1.iter().zip(r2.iter()) {
        assert_eq!(x.function_name, y.function_name);
        assert_eq!(x.operation, y.operation);
        assert_eq!(x.suggestion, y.suggestion);
        assert_eq!(x.location, y.location);
    }

    let g1 = a.scan_gas_estimation(&file);
    let g2 = a.scan_gas_estimation(&file);
    assert_eq!(g1.len(), g2.len());
    for (x, y) in g1.iter().zip(g2.iter()) {
        assert_eq!(x.function_name, y.function_name);
        assert_eq!(x.estimated_instructions, y.estimated_instructions);
        assert_eq!(x.estimated_memory_bytes, y.estimated_memory_bytes);
    }
}

#[test]
fn test_custom_rules_match_lines() {
    let a = analyzer();
    let rules = vec![sanctifier::config::CustomRule {
        name: "no_unsafe_block".to_string(),
        pattern: "unsafe\\s*\\{".to_string(),
    }];
    let source = "fn main() {\n    unsafe { x }\n}\n";
    let matches = a.analyze_custom_rules(source, &rules);
    assert_eq!(matches.len(), 1);
    assert_eq!(matches[0].rule_name, "no_unsafe_block");
    assert_eq!(matches[0].line, 2);
    assert_eq!(matches[0].snippet, "unsafe { x }");
}

#[test]
fn test_custom_rules_invalid_pattern_skipped() {
    // The broken rule is skipped; the valid one still runs.
    let a = analyzer();
    let rules = vec![
        sanctifier::config::CustomRule {
            name: "broken".to_string(),
            pattern: "(".to_string(),
        },
        sanctifier::config::CustomRule {
            name: "finds_forget".to_string(),
            pattern: "std::mem::forget".to_string(),
        },
    ];
    let source = "a\nstd::mem::forget(x);\n";
    let matches = a.analyze_custom_rules(source, &rules);
    assert_eq!(matches.len(), 1);
    assert_eq!(matches[0].rule_name, "finds_forget");
    assert_eq!(matches[0].line, 2);
}

#[test]
fn test_custom_rules_anchored_pattern() {
    // An anchored pattern matches only the exact line, so the regex engine is
    // really consulted.
    let a = analyzer();
    let rules = vec![sanctifier::config::CustomRule {
        name: "exact".to_string(),
        pattern: "^abc$".to_string(),
    }];
    let matches = a.analyze_custom_rules("xabc\nabc\nabcx\n", &rules);
    assert_eq!(matches.len(), 1);
    assert_eq!(matches[0].line, 2);
}

#[test]
fn test_empty_file_yields_no_findings() {
    let a = analyzer();
    let file = file_of(vec![]);
    assert!(a.scan_auth_gaps(&file).is_empty());
    assert!(a.scan_panics(&file).is_empty());
    assert!(a.scan_arithmetic_overflow(&file).is_empty());
    assert!(a.analyze_ledger_size(&file).is_empty());
    assert!(a.scan_storage_collisions(&file).is_empty());
    assert!(a.scan_gas_estimation(&file).is_empty());
    assert!(a.analyze_custom_rules("", &[]).is_empty());
}

#[test]
fn test_gas_estimator_type_front_door() {
    let estimator = sanctifier::gas::GasEstimator::new();
    let file = file_of(vec![Item::Impl {
        fns: vec![pub_method("noop", 0, vec![])],
    }]);
    let reports = estimator.estimate_contract(&file);
    assert_eq!(reports.len(), 1);
    assert_eq!(reports[0].estimated_instructions, 50);
    assert_eq!(reports[0].estimated_memory_bytes, 32);
}

#[test]
fn test_storage_visitor_groups_and_checks() {
    let mut visitor = sanctifier::storage_collision::StorageVisitor::new();
    visitor.add_key(
        "dup".to_string(),
        "const".to_string(),
        "K1".to_string(),
        1,
    );
    visitor.add_key(
        "dup".to_string(),
        "const".to_string(),
        "K2".to_string(),
        2,
    );
    visitor.add_key(
        "lone".to_string(),
        "symbol_short!".to_string(),
        "inline".to_string(),
        3,
    );
    assert_eq!(visitor.keys.len(), 2);
    assert_eq!(visitor.keys[0].infos.len(), 2);
    visitor.final_check();
    assert_eq!(visitor.collisions.len(), 2);
    assert_eq!(visitor.collisions[0].location, "K1:1");
    assert!(visitor.collisions[0].message.contains("K2 (line 2)"));
    assert_eq!(visitor.collisions[1].location, "K2:2");
    assert!(visitor.collisions[1].message.contains("K1 (line 1)"));
}

#[test]
fn test_scan_panics_in_free_functions() {
    // Free function bodies are scanned like impl functions: a free helper
    // whose body is panic!(..) yields its own issue.
    let helper = FnDef {
        name: "bail".to_string(),
        is_public: false,
        param_count: 0,
        loc: 3,
        body: vec![Stmt::MacroStmt {
            path: vec!["panic".to_string()],
        }],
    };
    let reader = pub_method(
        "read_or_die",
        1,
        vec![expr_stmt(mcall("unwrap", path(&["input"]), vec![]))],
    );
    let file = file_of(vec![
        Item::FreeFn { func: helper },
        Item::FreeFn { func: reader },
    ]);
    let issues = analyzer().scan_panics(&file);
    assert_eq!(issues.len(), 2);
    assert_eq!(issues[0].function_name, "bail");
    assert_eq!(issues[0].issue_type, "panic!");
    assert_eq!(issues[1].function_name, "read_or_die");
    assert_eq!(issues[1].issue_type, "unwrap");
}

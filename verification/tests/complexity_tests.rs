use sanctifier::ast::{BinOp, Expr, FnDef, Item, Lit, SourceFile, Stmt};
use sanctifier::complexity::analyze_complexity;

fn path(segments: &[&str]) -> Expr {
    Expr::Path {
        segments: segments.iter().map(|s| s.to_string()).collect(),
    }
}

fn mcall(name: &str, receiver: Expr, args: Vec<Expr>) -> Expr {
    Expr::MethodCall {
        name: name.to_string(),
        receiver: Box::new(receiver),
        args,
    }
}

fn int_lit(v: u64) -> Expr {
    Expr::Literal { lit: Lit::Int(v) }
}

fn expr_stmt(expr: Expr) -> Stmt {
    Stmt::ExprStmt { expr }
}

fn pub_fn(name: &str, param_count: usize, loc: usize, body: Vec<Stmt>) -> FnDef {
    FnDef {
        name: name.to_string(),
        is_public: true,
        param_count,
        loc,
        body,
    }
}

fn file_of(items: Vec<Item>) -> SourceFile {
    SourceFile { items }
}

#[test]
fn test_simple_fn_has_cc_of_one() {
    // pub fn get_balance(env: Env, addr: Address) -> i128 {
    //     env.storage().persistent().get(&addr).unwrap_or(0)
    // }
    let chain = mcall(
        "unwrap_or",
        mcall(
            "get",
            mcall(
                "persistent",
                mcall("storage", path(&["env"]), vec![]),
                vec![],
            ),
            vec![Expr::Unknown {
                children: vec![path(&["addr"])],
            }],
        ),
        vec![int_lit(0)],
    );
    let file = file_of(vec![Item::FreeFn {
        func: pub_fn("get_balance", 2, 3, vec![expr_stmt(chain)]),
    }]);
    let metrics = analyze_complexity(&file, "test.rs");
    let f = &metrics.functions[0];
    assert_eq!(f.cyclomatic_complexity, 1);
    assert!(f.warnings.is_empty());
}

#[test]
fn test_if_increments_cc() {
    // pub fn transfer(env: Env, amount: i128) {
    //     if amount > 0 {
    //         env.storage().persistent().set(&"k", &amount);
    //     }
    // }
    let set_call = mcall(
        "set",
        mcall(
            "persistent",
            mcall("storage", path(&["env"]), vec![]),
            vec![],
        ),
        vec![
            Expr::Unknown {
                children: vec![Expr::Literal {
                    lit: Lit::Str("k".to_string()),
                }],
            },
            Expr::Unknown {
                children: vec![path(&["amount"])],
            },
        ],
    );
    let body = vec![expr_stmt(Expr::If {
        cond: Box::new(Expr::Binary {
            op: BinOp::Other,
            left: Box::new(path(&["amount"])),
            right: Box::new(int_lit(0)),
            line: 3,
        }),
        then_branch: vec![expr_stmt(set_call)],
        else_branch: None,
    })];
    let file = file_of(vec![Item::FreeFn {
        func: pub_fn("transfer", 2, 5, body),
    }]);
    let metrics = analyze_complexity(&file, "test.rs");
    let f = &metrics.functions[0];
    assert_eq!(f.cyclomatic_complexity, 2);
}

#[test]
fn test_nesting_depth_tracked() {
    // pub fn nested(env: Env, x: i128) -> i128 {
    //     if x > 0 {
    //         for i in 0..x {
    //             if i > 5 {
    //                 return i;
    //             }
    //         }
    //     }
    //     0
    // }
    let inner_if = Expr::If {
        cond: Box::new(Expr::Binary {
            op: BinOp::Other,
            left: Box::new(path(&["i"])),
            right: Box::new(int_lit(5)),
            line: 4,
        }),
        then_branch: vec![expr_stmt(Expr::Unknown {
            children: vec![path(&["i"])],
        })],
        else_branch: None,
    };
    let for_loop = Expr::ForLoop {
        iter: Box::new(Expr::Unknown {
            children: vec![int_lit(0), path(&["x"])],
        }),
        body: vec![expr_stmt(inner_if)],
    };
    let outer_if = Expr::If {
        cond: Box::new(Expr::Binary {
            op: BinOp::Other,
            left: Box::new(path(&["x"])),
            right: Box::new(int_lit(0)),
            line: 2,
        }),
        then_branch: vec![expr_stmt(for_loop)],
        else_branch: None,
    };
    let body = vec![expr_stmt(outer_if), expr_stmt(int_lit(0))];
    let file = file_of(vec![Item::FreeFn {
        func: pub_fn("nested", 2, 10, body),
    }]);
    let metrics = analyze_complexity(&file, "test.rs");
    let f = &metrics.functions[0];
    assert!(f.max_nesting_depth >= 3);
}

#[test]
fn test_param_count() {
    // pub fn many_params(env: Env, a: i128, b: i128, c: i128, d: i128, e: i128) {}
    let file = file_of(vec![Item::FreeFn {
        func: pub_fn("many_params", 7, 1, vec![]),
    }]);
    let metrics = analyze_complexity(&file, "test.rs");
    let f = &metrics.functions[0];
    assert_eq!(f.param_count, 7); // env + 6
    assert!(f.warnings.iter().any(|w| w.contains("parameters")));
}

#[test]
fn test_use_counts_as_dependency() {
    // use soroban_sdk::{Env, Address};
    // use soroban_sdk::token::TokenClient;
    // pub fn foo(env: Env) {}
    let file = file_of(vec![
        Item::Use,
        Item::Use,
        Item::FreeFn {
            func: pub_fn("foo", 1, 1, vec![]),
        },
    ]);
    let metrics = analyze_complexity(&file, "test.rs");
    assert_eq!(metrics.dependency_count, 2);
}

#[test]
fn test_match_arms_add_to_cc() {
    // pub fn route(env: Env, action: u32) {
    //     match action { 0 => {}, 1 => {}, 2 => {}, _ => {} }
    // }
    let arms = vec![
        Expr::Block { stmts: vec![] },
        Expr::Block { stmts: vec![] },
        Expr::Block { stmts: vec![] },
        Expr::Block { stmts: vec![] },
    ];
    let body = vec![expr_stmt(Expr::Match {
        scrutinee: Box::new(path(&["action"])),
        arms,
    })];
    let file = file_of(vec![Item::FreeFn {
        func: pub_fn("route", 2, 8, body),
    }]);
    let metrics = analyze_complexity(&file, "test.rs");
    let f = &metrics.functions[0];
    // 1 base + 3 extra arms
    assert_eq!(f.cyclomatic_complexity, 4);
}

#[test]
fn test_complexity_warnings_each_threshold() {
    // Eleven `if` statements push cyclomatic complexity over 10; a deep chain
    // of nested loops pushes nesting over 4; the loc field over 50 warns too.
    let mut body: Vec<Stmt> = Vec::new();
    for _ in 0..11 {
        body.push(expr_stmt(Expr::If {
            cond: Box::new(path(&["c"])),
            then_branch: vec![],
            else_branch: None,
        }));
    }
    let mut nest = Expr::Loop { body: vec![] };
    for _ in 0..5 {
        nest = Expr::Loop {
            body: vec![expr_stmt(nest)],
        };
    }
    body.push(expr_stmt(nest));
    let file = file_of(vec![Item::FreeFn {
        func: pub_fn("busy", 6, 60, body),
    }]);
    let metrics = analyze_complexity(&file, "test.rs");
    let f = &metrics.functions[0];
    assert!(f.cyclomatic_complexity > 10);
    assert!(f.max_nesting_depth > 4);
    assert_eq!(f.warnings.len(), 4);
    assert!(f.warnings[0].contains("Cyclomatic complexity"));
    assert!(f.warnings[1].contains("parameters"));
    assert!(f.warnings[2].contains("Nesting depth"));
    assert!(f.warnings[3].contains("LOC"));
}

#[test]
fn test_impl_fns_and_private_free_fns() {
    // Private free functions are skipped; impl functions are always measured.
    let private_fn = FnDef {
        name: "hidden".to_string(),
        is_public: false,
        param_count: 0,
        loc: 1,
        body: vec![],
    };
    let file = file_of(vec![
        Item::FreeFn { func: private_fn },
        Item::Impl {
            fns: vec![FnDef {
                name: "method".to_string(),
                is_public: false,
                param_count: 1,
                loc: 2,
                body: vec![],
            }],
        },
    ]);
    let metrics = analyze_complexity(&file, "lib.rs");
    assert_eq!(metrics.functions.len(), 1);
    assert_eq!(metrics.functions[0].name, "method");
    assert_eq!(metrics.contract_path, "lib.rs");
}

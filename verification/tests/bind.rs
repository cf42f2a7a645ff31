use jslex::bind::{
    extern_names, Binder, Reference, Resolution,
    block_declared_names, function_declared_names, module_declared_names, lexically_declared_names, pattern_declared_names, var_declared_names, BindingPattern, Catch,
    ForInit, Stmt, VarDeclType, VarDecls,
};

fn name(s: &str) -> BindingPattern {
    BindingPattern::Name(s.to_string())
}

fn decls(typ: VarDeclType, patterns: Vec<BindingPattern>) -> VarDecls {
    VarDecls { typ, patterns }
}

fn var_names(stmt: &Stmt) -> Vec<String> {
    let mut names = Vec::new();
    var_declared_names(stmt, &mut names);
    names
}

fn lexical_names(stmt: &Stmt) -> Vec<String> {
    let mut names = Vec::new();
    lexically_declared_names(stmt, &mut names);
    names
}

#[test]
fn patterns_declare_names_left_to_right() {
    let pat = BindingPattern::Array(vec![
        name("a"),
        BindingPattern::Object(vec![name("b"), BindingPattern::Array(vec![name("c")])]),
        name("d"),
    ]);
    let mut names = vec!["x".to_string()];
    pattern_declared_names(&pat, &mut names);
    assert_eq!(names, vec!["x", "a", "b", "c", "d"]);
}

#[test]
fn var_and_lexical_declarations() {
    let v = Stmt::Var(decls(VarDeclType::Var, vec![name("a"), name("b")]));
    let l = Stmt::Var(decls(VarDeclType::Let, vec![name("c")]));
    let c = Stmt::Var(decls(VarDeclType::Const, vec![name("d")]));
    assert_eq!(var_names(&v), vec!["a", "b"]);
    assert!(var_names(&l).is_empty());
    assert!(var_names(&c).is_empty());
    assert!(lexical_names(&v).is_empty());
    assert_eq!(lexical_names(&l), vec!["c"]);
    assert_eq!(lexical_names(&c), vec!["d"]);
}

#[test]
fn var_names_inside_control_flow() {
    let stmt = Stmt::If {
        iftrue: Box::new(Stmt::While {
            body: Box::new(Stmt::Var(decls(VarDeclType::Var, vec![name("a")]))),
        }),
        else_: Some(Box::new(Stmt::For {
            init: ForInit::Decls(decls(VarDeclType::Let, vec![name("i")])),
            body: Box::new(Stmt::Label {
                stmt: Box::new(Stmt::DoWhile {
                    body: Box::new(Stmt::Var(decls(VarDeclType::Var, vec![name("b")]))),
                }),
            }),
        })),
    };
    assert_eq!(var_names(&stmt), vec!["a", "b"]);
    assert!(lexical_names(&stmt).is_empty());
    let for_var = Stmt::For {
        init: ForInit::Decls(decls(VarDeclType::Var, vec![name("j")])),
        body: Box::new(Stmt::Expr),
    };
    assert_eq!(var_names(&for_var), vec!["j"]);
    let for_expr = Stmt::For { init: ForInit::Expr, body: Box::new(Stmt::Empty) };
    assert!(var_names(&for_expr).is_empty());
}

#[test]
fn var_names_reach_into_blocks_and_find_hoisted_names() {
    let block = Stmt::Block(vec![
        Stmt::Var(decls(VarDeclType::Var, vec![name("x")])),
        Stmt::Var(decls(VarDeclType::Let, vec![name("y")])),
        Stmt::Block(vec![Stmt::Var(decls(VarDeclType::Var, vec![name("z")]))]),
    ]);
    assert_eq!(var_names(&block), vec!["x", "z"]);
    let guarded = Stmt::If { iftrue: Box::new(block), else_: None };
    assert_eq!(var_names(&guarded), vec!["x", "z"]);
    let f = Stmt::Function { name: Some("f".to_string()) };
    let anon = Stmt::Function { name: None };
    let k = Stmt::Class { name: Some("K".to_string()) };
    assert_eq!(var_names(&f), vec!["f"]);
    assert!(var_names(&anon).is_empty());
    assert_eq!(var_names(&k), vec!["K"]);
    assert!(var_names(&Stmt::Return).is_empty());
}

#[test]
fn var_names_in_switch_try_and_for_in() {
    let sw = Stmt::Switch {
        cases: vec![
            vec![Stmt::Var(decls(VarDeclType::Var, vec![name("a")])), Stmt::Break],
            vec![],
            vec![Stmt::Function { name: Some("g".to_string()) }],
        ],
    };
    assert_eq!(var_names(&sw), vec!["a", "g"]);
    let t = Stmt::Try {
        block: Box::new(Stmt::Var(decls(VarDeclType::Var, vec![name("x")]))),
        catch: Some(Catch {
            pattern: name("e"),
            body: Box::new(Stmt::Var(decls(VarDeclType::Var, vec![name("y")]))),
        }),
        finally: Some(Box::new(Stmt::Var(decls(VarDeclType::Var, vec![name("z")])))),
    };
    assert_eq!(var_names(&t), vec!["x", "e", "y", "z"]);
    let declared = Stmt::ForInOf {
        decl_type: Some(VarDeclType::Const),
        loop_var: name("k"),
        body: Box::new(Stmt::Expr),
    };
    let assigned = Stmt::ForInOf { decl_type: None, loop_var: name("k"), body: Box::new(Stmt::Expr) };
    assert!(var_names(&declared).is_empty());
    assert!(var_names(&assigned).is_empty());
    let var_loop = Stmt::ForInOf {
        decl_type: Some(VarDeclType::Var),
        loop_var: name("k"),
        body: Box::new(Stmt::Expr),
    };
    assert_eq!(var_names(&var_loop), vec!["k"]);
}

#[test]
fn scope_names_of_blocks_modules_and_functions() {
    let body = vec![
        Stmt::Block(vec![Stmt::Var(decls(VarDeclType::Var, vec![name("h")]))]),
        Stmt::Var(decls(VarDeclType::Let, vec![name("a")])),
        Stmt::Var(decls(VarDeclType::Var, vec![name("b")])),
        Stmt::Function { name: Some("f".to_string()) },
        Stmt::Var(decls(VarDeclType::Const, vec![name("c")])),
    ];
    assert_eq!(block_declared_names(&body), vec!["a", "c"]);
    assert_eq!(module_declared_names(&body), vec!["h", "b", "f"]);
    let params = vec![name("p"), BindingPattern::Array(vec![name("q")])];
    let own = Some("g".to_string());
    let scope = function_declared_names(&own, true, &params, &body);
    assert_eq!(scope.names, vec!["g", "arguments", "p", "q", "h", "a", "b", "f", "c"]);
    assert_eq!(scope.renameable, vec![true, false, true, true, true, true, true, true, true]);
    let scope = function_declared_names(&own, false, &params, &vec![]);
    assert_eq!(scope.names, vec!["arguments", "p", "q"]);
    assert_eq!(scope.renameable, vec![false, true, true]);
}

fn names(v: &[&str]) -> Vec<String> {
    v.iter().map(|s| s.to_string()).collect()
}

#[test]
fn resolve_finds_the_innermost_declaration() {
    let mut b = Binder::new(names(&["window", "x"]));
    b.enter(names(&["x", "y"]));
    b.enter(names(&["z"]));
    assert_eq!(b.resolve(&"x".to_string(), false), Resolution::Declared(1));
    assert_eq!(b.resolve(&"z".to_string(), false), Resolution::Declared(2));
    assert_eq!(b.resolve(&"window".to_string(), true), Resolution::Declared(0));
    assert!(b.warnings.is_empty());
    assert_eq!(b.leave(), names(&["z"]));
    assert_eq!(b.scopes.len(), 2);
}

#[test]
fn resolve_adds_undeclared_globals_with_a_warning() {
    let mut b = Binder::new(names(&["window"]));
    b.enter(names(&["a"]));
    assert_eq!(b.resolve(&"foo".to_string(), false), Resolution::Global);
    assert_eq!(b.resolve(&"exports".to_string(), true), Resolution::Global);
    assert_eq!(
        b.warnings,
        names(&["global referenced without declaration: foo", "inferred global: exports"])
    );
    assert_eq!(b.scopes[0], names(&["window", "foo", "exports"]));
    // once added, the global resolves without another warning
    assert_eq!(b.resolve(&"foo".to_string(), false), Resolution::Declared(0));
    assert_eq!(b.warnings.len(), 2);
}

#[test]
fn declarations_inside_blocks_are_not_hoisted() {
    let inner = Stmt::Block(vec![
        Stmt::Function { name: Some("f".to_string()) },
        Stmt::Class { name: Some("K".to_string()) },
        Stmt::Try {
            block: Box::new(Stmt::Block(vec![])),
            catch: Some(Catch {
                pattern: BindingPattern::Array(vec![name("e")]),
                body: Box::new(Stmt::Var(decls(VarDeclType::Var, vec![name("v")]))),
            }),
            finally: None,
        },
    ]);
    assert_eq!(var_names(&inner), vec!["v"]);
    let top = Stmt::If { iftrue: Box::new(Stmt::Function { name: Some("g".to_string()) }), else_: None };
    assert_eq!(var_names(&top), vec!["g"]);
}

#[test]
fn the_extern_globals() {
    let names = extern_names();
    assert_eq!(names.len(), 59);
    assert_eq!(names[0], "Array");
    assert_eq!(names[58], "window");
    assert!(names.iter().any(|n| n == "exports"));
    let mut b = Binder::new(names);
    assert_eq!(b.resolve(&"console".to_string(), false), Resolution::Declared(0));
    assert!(b.warnings.is_empty());
}

#[test]
fn only_typeof_infers_a_global() {
    let mut b = Binder::new(names(&[]));
    assert_eq!(b.resolve_reference(&Reference::TypeOf("exports".to_string())), Resolution::Global);
    assert_eq!(b.resolve_reference(&Reference::Ident("zz".to_string())), Resolution::Global);
    assert_eq!(
        b.warnings,
        names(&["inferred global: exports", "global referenced without declaration: zz"])
    );
    assert_eq!(b.resolve_reference(&Reference::Ident("exports".to_string())), Resolution::Declared(0));
}

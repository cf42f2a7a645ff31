//! The names that statements declare, as the binder gathers them before resolving
//! references.

use vstd::prelude::*;
use vstd::pervasive::unreached;
use vstd::string::StringExecFns;

verus! {

/// The binding patterns that declare names, holding just the names and nested patterns
/// (defaults and property keys are left out: declaring reads none of them).
pub enum BindingPattern {
    Name(String),
    Array(Vec<BindingPattern>),
    Object(Vec<BindingPattern>),
}

/// The keyword of a declaration.
pub enum VarDeclType {
    Var,
    Let,
    Const,
}

/// A declaration list: its keyword and the pattern of each declarator.
pub struct VarDecls {
    pub typ: VarDeclType,
    pub patterns: Vec<BindingPattern>,
}

/// A `for` loop's initializer.
pub enum ForInit {
    Empty,
    Expr,
    Decls(VarDecls),
}

/// The `catch` part of a `try` statement: the caught value's pattern and the handler.
pub struct Catch {
    pub pattern: BindingPattern,
    pub body: Box<Stmt>,
}

/// Statements, holding what declaring names reads of them: nested statements, declaration
/// lists and patterns, and the names of declared functions and classes. Expressions are
/// left out.
pub enum Stmt {
    Block(Vec<Stmt>),
    Var(VarDecls),
    If { iftrue: Box<Stmt>, else_: Option<Box<Stmt>> },
    While { body: Box<Stmt> },
    DoWhile { body: Box<Stmt> },
    For { init: ForInit, body: Box<Stmt> },
    ForInOf { decl_type: Option<VarDeclType>, loop_var: BindingPattern, body: Box<Stmt> },
    Switch { cases: Vec<Vec<Stmt>> },
    Try { block: Box<Stmt>, catch: Option<Catch>, finally: Option<Box<Stmt>> },
    Label { stmt: Box<Stmt> },
    Function { name: Option<String> },
    Class { name: Option<String> },
    Empty,
    Expr,
    Continue,
    Break,
    Return,
    Throw,
}

/// Spec: the names that a pattern declares, left to right.
pub open spec fn pattern_names(p: BindingPattern) -> Seq<Seq<char>>
    decreases p, 0int,
{
    match p {
        BindingPattern::Name(s) => seq![s@],
        BindingPattern::Array(ps) => patterns_names(ps@, ps@.len() as int),
        BindingPattern::Object(ps) => patterns_names(ps@, ps@.len() as int),
    }
}

/// Spec: the names that the first `n` patterns of `ps` declare, left to right.
pub open spec fn patterns_names(ps: Seq<BindingPattern>, n: int) -> Seq<Seq<char>>
    decreases ps, n,
{
    if n <= 0 || n > ps.len() {
        Seq::empty()
    } else {
        patterns_names(ps, n - 1) + pattern_names(ps[n - 1])
    }
}

/// The text of each name in a list of names.
pub open spec fn names_of(v: Seq<String>) -> Seq<Seq<char>> {
    v.map_values(|s: String| s@)
}

proof fn lemma_names_of_push(v: Seq<String>, s: String)
    ensures
        names_of(v.push(s)) == names_of(v) + seq![s@],
{
    assert(names_of(v.push(s)) =~= names_of(v) + seq![s@]);
}

/// Adds the names that a pattern declares to `names`.
pub fn pattern_declared_names(pat: &BindingPattern, names: &mut Vec<String>)
    ensures
        names_of(final(names)@) == names_of(old(names)@) + pattern_names(*pat),
    decreases pat,
{
    match pat {
        BindingPattern::Name(sym) => {
            let ghost before = names@;
            names.push(sym.clone());
            proof {
                lemma_names_of_push(before, *sym);
            }
        },
        BindingPattern::Array(pats) => patterns_declared_names(pats, names),
        BindingPattern::Object(pats) => patterns_declared_names(pats, names),
    }
}

/// Adds the names that each of `pats` declares to `names`, left to right.
pub fn patterns_declared_names(pats: &Vec<BindingPattern>, names: &mut Vec<String>)
    ensures
        names_of(final(names)@) == names_of(old(names)@) + patterns_names(pats@, pats@.len() as int),
    decreases pats, 0int,
{
    let mut i: usize = 0;
    while i < pats.len()
        invariant
            i <= pats@.len(),
            names_of(names@) == names_of(old(names)@) + patterns_names(pats@, i as int),
        decreases pats@.len() - i,
    {
        pattern_declared_names(&pats[i], names);
        proof {
            assert(names_of(old(names)@) + patterns_names(pats@, i as int) + pattern_names(pats@[i as int])
                =~= names_of(old(names)@) + patterns_names(pats@, i + 1));
        }
        i = i + 1;
    }
}

/// The names declared by the patterns of a declaration list.
pub open spec fn decls_names(decls: VarDecls) -> Seq<Seq<char>> {
    patterns_names(decls.patterns@, decls.patterns@.len() as int)
}

/// Spec: the names a statement declares with `var`, reached through all nested
/// statements, blocks included: the statement's VarDeclaredNames. `let` and `const`
/// declarations, in loop heads too, add nothing.
pub open spec fn var_names(s: Stmt) -> Seq<Seq<char>> {
    var_names_in(s, true)
}

/// Spec: the `var` names of a statement, where `hoist` says whether the statement stands
/// outside every nested block. Only there do function and class declarations and a
/// `catch` binding add their names; inside a block they belong to the block.
pub open spec fn var_names_in(s: Stmt, hoist: bool) -> Seq<Seq<char>>
    decreases s, 0int,
{
    match s {
        Stmt::Block(stmts) => stmts_var_names(stmts@, stmts@.len() as int, false),
        Stmt::Var(decls) => match decls.typ {
            VarDeclType::Var => decls_names(decls),
            _ => Seq::empty(),
        },
        Stmt::If { iftrue, else_ } => var_names_in(*iftrue, hoist) + (match else_ {
            Some(e) => var_names_in(*e, hoist),
            None => Seq::empty(),
        }),
        Stmt::While { body } => var_names_in(*body, hoist),
        Stmt::DoWhile { body } => var_names_in(*body, hoist),
        Stmt::For { init, body } => (match init {
            ForInit::Decls(decls) => match decls.typ {
                VarDeclType::Var => decls_names(decls),
                _ => Seq::empty(),
            },
            _ => Seq::empty(),
        }) + var_names_in(*body, hoist),
        Stmt::ForInOf { decl_type, loop_var, body } => (if decl_type matches Some(VarDeclType::Var) {
            pattern_names(loop_var)
        } else {
            Seq::empty()
        }) + var_names_in(*body, hoist),
        Stmt::Switch { cases } => cases_var_names(cases@, cases@.len() as int, hoist),
        Stmt::Try { block, catch, finally } => var_names_in(*block, hoist) + (match catch {
            Some(c) => (match c.pattern {
                BindingPattern::Name(n) => if hoist {
                    seq![n@]
                } else {
                    Seq::empty()
                },
                _ => Seq::empty(),
            }) + var_names_in(*c.body, hoist),
            None => Seq::empty(),
        }) + (match finally {
            Some(f) => var_names_in(*f, hoist),
            None => Seq::empty(),
        }),
        Stmt::Label { stmt } => var_names_in(*stmt, hoist),
        Stmt::Function { name } => match name {
            Some(n) => if hoist {
                seq![n@]
            } else {
                Seq::empty()
            },
            None => Seq::empty(),
        },
        Stmt::Class { name } => match name {
            Some(n) => if hoist {
                seq![n@]
            } else {
                Seq::empty()
            },
            None => Seq::empty(),
        },
        _ => Seq::empty(),
    }
}

/// Spec: the `var` names of the first `n` statements of `ss`.
pub open spec fn stmts_var_names(ss: Seq<Stmt>, n: int, hoist: bool) -> Seq<Seq<char>>
    decreases ss, n,
{
    if n <= 0 || n > ss.len() {
        Seq::empty()
    } else {
        stmts_var_names(ss, n - 1, hoist) + var_names_in(ss[n - 1], hoist)
    }
}

/// Spec: the `var` names of the statements of the first `n` cases of a `switch`.
pub open spec fn cases_var_names(cases: Seq<Vec<Stmt>>, n: int, hoist: bool) -> Seq<Seq<char>>
    decreases cases, n,
{
    if n <= 0 || n > cases.len() {
        Seq::empty()
    } else {
        cases_var_names(cases, n - 1, hoist) + stmts_var_names(cases[n - 1]@, cases[n - 1]@.len() as int, hoist)
    }
}

/// Whether every `catch` whose binding gathering `var` names adds binds a plain name (the
/// binder does not handle destructuring there).
pub open spec fn catches_named(s: Stmt) -> bool {
    catches_named_in(s, true)
}

/// `catches_named` for a statement inside (`hoist` false) or outside every nested block;
/// inside a block a `catch` binding is not added, so its pattern is not read.
pub open spec fn catches_named_in(s: Stmt, hoist: bool) -> bool
    decreases s, 0int,
{
    match s {
        Stmt::Block(stmts) => stmts_catches_named(stmts@, stmts@.len() as int, false),
        Stmt::If { iftrue, else_ } => catches_named_in(*iftrue, hoist) && (match else_ {
            Some(e) => catches_named_in(*e, hoist),
            None => true,
        }),
        Stmt::While { body } => catches_named_in(*body, hoist),
        Stmt::DoWhile { body } => catches_named_in(*body, hoist),
        Stmt::For { init, body } => catches_named_in(*body, hoist),
        Stmt::ForInOf { decl_type, loop_var, body } => catches_named_in(*body, hoist),
        Stmt::Switch { cases } => cases_catches_named(cases@, cases@.len() as int, hoist),
        Stmt::Try { block, catch, finally } => catches_named_in(*block, hoist) && (match catch {
            Some(c) => (!hoist || c.pattern is Name) && catches_named_in(*c.body, hoist),
            None => true,
        }) && (match finally {
            Some(f) => catches_named_in(*f, hoist),
            None => true,
        }),
        Stmt::Label { stmt } => catches_named_in(*stmt, hoist),
        _ => true,
    }
}

/// Whether the first `n` statements of `ss` satisfy `catches_named`.
pub open spec fn stmts_catches_named(ss: Seq<Stmt>, n: int, hoist: bool) -> bool
    decreases ss, n,
{
    if n <= 0 || n > ss.len() {
        true
    } else {
        stmts_catches_named(ss, n - 1, hoist) && catches_named_in(ss[n - 1], hoist)
    }
}

/// Whether the statements of the first `n` cases satisfy `catches_named`.
pub open spec fn cases_catches_named(cases: Seq<Vec<Stmt>>, n: int, hoist: bool) -> bool
    decreases cases, n,
{
    if n <= 0 || n > cases.len() {
        true
    } else {
        cases_catches_named(cases, n - 1, hoist) && stmts_catches_named(
            cases[n - 1]@,
            cases[n - 1]@.len() as int,
            hoist,
        )
    }
}

/// Spec: the names a statement declares with `let` or `const`.
pub open spec fn lexical_names(s: Stmt) -> Seq<Seq<char>> {
    match s {
        Stmt::Var(decls) => match decls.typ {
            VarDeclType::Var => Seq::empty(),
            _ => decls_names(decls),
        },
        _ => Seq::empty(),
    }
}

/// Adds the names that a statement declares with `var` to `names`, in source order,
/// together with the names of functions and classes declared, and of `catch` bindings,
/// outside every nested block.
pub fn var_declared_names(stmt: &Stmt, names: &mut Vec<String>)
    requires
        catches_named(*stmt),
    ensures
        names_of(final(names)@) == names_of(old(names)@) + var_names(*stmt),
{
    var_declared_names_in(stmt, true, names);
}

/// Adds the `var` names of a statement to `names`; `hoist` says whether the statement
/// stands outside every nested block.
fn var_declared_names_in(stmt: &Stmt, hoist: bool, names: &mut Vec<String>)
    requires
        catches_named_in(*stmt, hoist),
    ensures
        names_of(final(names)@) == names_of(old(names)@) + var_names_in(*stmt, hoist),
    decreases stmt, 0int,
{
    let ghost start = names_of(names@);
    match stmt {
        Stmt::Block(stmts) => stmts_var_declared_names(stmts, false, names),
        Stmt::Var(decls) => match decls.typ {
            VarDeclType::Var => patterns_declared_names(&decls.patterns, names),
            _ => {},
        },
        Stmt::If { iftrue, else_ } => {
            var_declared_names_in(iftrue, hoist, names);
            if let Some(e) = else_ {
                var_declared_names_in(e, hoist, names);
            }
            assert(names_of(names@) =~= start + var_names_in(*stmt, hoist));
        },
        Stmt::While { body } => var_declared_names_in(body, hoist, names),
        Stmt::DoWhile { body } => var_declared_names_in(body, hoist, names),
        Stmt::For { init, body } => {
            match init {
                ForInit::Decls(decls) => match decls.typ {
                    VarDeclType::Var => patterns_declared_names(&decls.patterns, names),
                    _ => {},
                },
                _ => {},
            }
            var_declared_names_in(body, hoist, names);
            assert(names_of(names@) =~= start + var_names_in(*stmt, hoist));
        },
        Stmt::ForInOf { decl_type, loop_var, body } => {
            match decl_type {
                Some(VarDeclType::Var) => pattern_declared_names(loop_var, names),
                _ => {},
            }
            var_declared_names_in(body, hoist, names);
            assert(names_of(names@) =~= start + var_names_in(*stmt, hoist));
        },
        Stmt::Switch { cases } => cases_var_declared_names(cases, hoist, names),
        Stmt::Try { block, catch, finally } => {
            var_declared_names_in(block, hoist, names);
            if let Some(c) = catch {
                if hoist {
                    match &c.pattern {
                        BindingPattern::Name(sym) => {
                            let ghost before = names@;
                            names.push(sym.clone());
                            proof {
                                lemma_names_of_push(before, *sym);
                            }
                        },
                        _ => {
                            unreached::<()>();
                        },
                    }
                }
                var_declared_names_in(&c.body, hoist, names);
            }
            if let Some(f) = finally {
                var_declared_names_in(f, hoist, names);
            }
            assert(names_of(names@) =~= start + var_names_in(*stmt, hoist));
        },
        Stmt::Label { stmt: inner } => var_declared_names_in(inner, hoist, names),
        Stmt::Function { name } => {
            if !hoist {
                assert(names_of(names@) =~= start + var_names_in(*stmt, hoist));
            } else if let Some(n) = name {
                let ghost before = names@;
                names.push(n.clone());
                proof {
                    lemma_names_of_push(before, *n);
                }
            }
        },
        Stmt::Class { name } => {
            if !hoist {
                assert(names_of(names@) =~= start + var_names_in(*stmt, hoist));
            } else if let Some(n) = name {
                let ghost before = names@;
                names.push(n.clone());
                proof {
                    lemma_names_of_push(before, *n);
                }
            }
        },
        Stmt::Empty | Stmt::Expr | Stmt::Continue | Stmt::Break | Stmt::Return | Stmt::Throw => {},
    }
}

/// Adds the `var` names of each statement of `stmts` to `names`, in order.
fn stmts_var_declared_names(stmts: &Vec<Stmt>, hoist: bool, names: &mut Vec<String>)
    requires
        stmts_catches_named(stmts@, stmts@.len() as int, hoist),
    ensures
        names_of(final(names)@) == names_of(old(names)@) + stmts_var_names(stmts@, stmts@.len() as int, hoist),
    decreases stmts, 0int,
{
    let mut i: usize = 0;
    while i < stmts.len()
        invariant
            i <= stmts@.len(),
            stmts_catches_named(stmts@, stmts@.len() as int, hoist),
            names_of(names@) == names_of(old(names)@) + stmts_var_names(stmts@, i as int, hoist),
        decreases stmts@.len() - i,
    {
        proof {
            lemma_stmts_catches_named(stmts@, stmts@.len() as int, i as int, hoist);
        }
        var_declared_names_in(&stmts[i], hoist, names);
        proof {
            assert(names_of(old(names)@) + stmts_var_names(stmts@, i as int, hoist) + var_names_in(
                stmts@[i as int],
                hoist,
            ) =~= names_of(old(names)@) + stmts_var_names(stmts@, i + 1, hoist));
        }
        i = i + 1;
    }
}

/// Adds the `var` names of the statements of each case to `names`, in order.
fn cases_var_declared_names(cases: &Vec<Vec<Stmt>>, hoist: bool, names: &mut Vec<String>)
    requires
        cases_catches_named(cases@, cases@.len() as int, hoist),
    ensures
        names_of(final(names)@) == names_of(old(names)@) + cases_var_names(cases@, cases@.len() as int, hoist),
    decreases cases, 0int,
{
    let mut i: usize = 0;
    while i < cases.len()
        invariant
            i <= cases@.len(),
            cases_catches_named(cases@, cases@.len() as int, hoist),
            names_of(names@) == names_of(old(names)@) + cases_var_names(cases@, i as int, hoist),
        decreases cases@.len() - i,
    {
        proof {
            lemma_cases_catches_named(cases@, cases@.len() as int, i as int, hoist);
        }
        stmts_var_declared_names(&cases[i], hoist, names);
        proof {
            assert(names_of(old(names)@) + cases_var_names(cases@, i as int, hoist) + stmts_var_names(
                cases@[i as int]@,
                cases@[i as int]@.len() as int,
                hoist,
            ) =~= names_of(old(names)@) + cases_var_names(cases@, i + 1, hoist));
        }
        i = i + 1;
    }
}

proof fn lemma_stmts_catches_named(ss: Seq<Stmt>, n: int, i: int, hoist: bool)
    requires
        stmts_catches_named(ss, n, hoist),
        0 <= i < n <= ss.len(),
    ensures
        catches_named_in(ss[i], hoist),
    decreases n,
{
    if i < n - 1 {
        lemma_stmts_catches_named(ss, n - 1, i, hoist);
    }
}

proof fn lemma_cases_catches_named(cases: Seq<Vec<Stmt>>, n: int, i: int, hoist: bool)
    requires
        cases_catches_named(cases, n, hoist),
        0 <= i < n <= cases.len(),
    ensures
        stmts_catches_named(cases[i]@, cases[i]@.len() as int, hoist),
    decreases n,
{
    if i < n - 1 {
        lemma_cases_catches_named(cases, n - 1, i, hoist);
    }
}

/// Adds the names that a statement declares with `let` or `const` to `names`.
pub fn lexically_declared_names(stmt: &Stmt, names: &mut Vec<String>)
    ensures
        names_of(final(names)@) == names_of(old(names)@) + lexical_names(*stmt),
{
    match stmt {
        Stmt::Var(decls) => match decls.typ {
            VarDeclType::Const | VarDeclType::Let => patterns_declared_names(&decls.patterns, names),
            _ => {
                assert(names_of(names@) =~= names_of(old(names)@) + lexical_names(*stmt));
            },
        },
        _ => {
            assert(names_of(names@) =~= names_of(old(names)@) + lexical_names(*stmt));
        },
    }
}

/// Spec: the `let` and `const` names of the first `n` statements of `ss`.
pub open spec fn stmts_lexical_names(ss: Seq<Stmt>, n: int) -> Seq<Seq<char>>
    decreases n,
{
    if n <= 0 || n > ss.len() {
        Seq::empty()
    } else {
        stmts_lexical_names(ss, n - 1) + lexical_names(ss[n - 1])
    }
}

/// Spec: the names that the first `n` statements of a function body declare, each
/// statement's `var` names followed by its `let` and `const` names.
pub open spec fn body_names(ss: Seq<Stmt>, n: int) -> Seq<Seq<char>>
    decreases n,
{
    if n <= 0 || n > ss.len() {
        Seq::empty()
    } else {
        body_names(ss, n - 1) + var_names(ss[n - 1]) + lexical_names(ss[n - 1])
    }
}

/// The names that a block's own scope declares: its statements' `let` and `const` names.
pub fn block_declared_names(stmts: &Vec<Stmt>) -> (names: Vec<String>)
    ensures
        names_of(names@) == stmts_lexical_names(stmts@, stmts@.len() as int),
{
    let mut names: Vec<String> = Vec::new();
    let mut i: usize = 0;
    while i < stmts.len()
        invariant
            i <= stmts@.len(),
            names_of(names@) == stmts_lexical_names(stmts@, i as int),
        decreases stmts@.len() - i,
    {
        lexically_declared_names(&stmts[i], &mut names);
        i = i + 1;
    }
    names
}

/// The names that a module's scope declares: its statements' `var` names.
pub fn module_declared_names(stmts: &Vec<Stmt>) -> (names: Vec<String>)
    requires
        stmts_catches_named(stmts@, stmts@.len() as int, true),
    ensures
        names_of(names@) == stmts_var_names(stmts@, stmts@.len() as int, true),
{
    let mut names: Vec<String> = Vec::new();
    stmts_var_declared_names(stmts, true, &mut names);
    names
}

/// A function's scope as declared before its body is bound: its names in order, and for
/// each whether the renamer may rename it.
pub struct FunctionScope {
    pub names: Vec<String>,
    pub renameable: Vec<bool>,
}

/// Where `arguments` stands in a function's scope: after the function's own name, which
/// only a function expression has in scope.
pub open spec fn arguments_index(name: Option<String>, expr: bool) -> int {
    if expr && name is Some {
        1
    } else {
        0
    }
}

/// The scope `scope` that a function declares: its names in order, and `arguments` alone
/// kept from renaming.
pub open spec fn function_scope_declared(
    name: Option<String>,
    expr: bool,
    params: Vec<BindingPattern>,
    body: Vec<Stmt>,
    scope: FunctionScope,
) -> bool {
    &&& names_of(scope.names@) == (if expr && name is Some {
        seq![name->0@]
    } else {
        Seq::empty()
    }) + seq!["arguments"@] + patterns_names(params@, params@.len() as int) + body_names(
        body@,
        body@.len() as int,
    )
    &&& scope.renameable@.len() == scope.names@.len()
    &&& forall|i: int|
        0 <= i < scope.renameable@.len() ==> (#[trigger] scope.renameable@[i] <==> i
            != arguments_index(name, expr))
}

/// The scope that a function declares before its body is bound: its own name when it is
/// a function expression, `arguments`, its parameters' names, then the names that its
/// body declares. `arguments` must keep its name; the other names may be renamed.
pub fn function_declared_names(
    name: &Option<String>,
    expr: bool,
    params: &Vec<BindingPattern>,
    body: &Vec<Stmt>,
) -> (scope: FunctionScope)
    requires
        stmts_catches_named(body@, body@.len() as int, true),
    ensures
        function_scope_declared(*name, expr, *params, *body, scope),
{
    let mut names: Vec<String> = Vec::new();
    if let Some(n) = name {
        if expr {
            names.push(n.clone());
        }
    }
    let ghost own = names_of(names@);
    assert(own =~= (if expr && name is Some {
        seq![name->0@]
    } else {
        Seq::empty()
    }));
    let ghost before_args = names@;
    let args = "arguments".to_owned();
    names.push(args);
    proof {
        lemma_names_of_push(before_args, args);
    }
    patterns_declared_names(params, &mut names);
    let ghost head = names_of(names@);
    let mut i: usize = 0;
    while i < body.len()
        invariant
            i <= body@.len(),
            stmts_catches_named(body@, body@.len() as int, true),
            names_of(names@) == head + body_names(body@, i as int),
        decreases body@.len() - i,
    {
        proof {
            lemma_stmts_catches_named(body@, body@.len() as int, i as int, true);
        }
        var_declared_names(&body[i], &mut names);
        lexically_declared_names(&body[i], &mut names);
        proof {
            assert(head + body_names(body@, i as int) + var_names(body@[i as int]) + lexical_names(body@[i as int])
                =~= head + body_names(body@, i + 1));
        }
        i = i + 1;
    }
    let args_at: usize = if expr && name.is_some() {
        1
    } else {
        0
    };
    let mut renameable: Vec<bool> = Vec::new();
    let mut j: usize = 0;
    while j < names.len()
        invariant
            j <= names@.len(),
            args_at == arguments_index(*name, expr),
            renameable@.len() == j,
            forall|k: int| 0 <= k < j ==> (#[trigger] renameable@[k] <==> k != args_at),
        decreases names@.len() - j,
    {
        renameable.push(j != args_at);
        j = j + 1;
    }
    FunctionScope { names, renameable }
}

/// The globals that the binder knows without a declaration: the environment's
/// built-in objects and functions.
pub open spec fn extern_list() -> Seq<Seq<char>> {
    seq![
        "Array"@,
        "ArrayBuffer"@,
        "Boolean"@,
        "Date"@,
        "Document"@,
        "DocumentFragment"@,
        "Element"@,
        "Error"@,
        "Event"@,
        "Function"@,
        "HTMLBodyElement"@,
        "HTMLElement"@,
        "HTMLFrameElement"@,
        "HTMLFrameSetElement"@,
        "HTMLIFrameElement"@,
        "HTMLMediaElement"@,
        "Hammer"@,
        "IDBCursor"@,
        "IDBDatabase"@,
        "IDBOpenDBRequest"@,
        "IDBRequest"@,
        "IDBTransaction"@,
        "Infinity"@,
        "Intl"@,
        "JSON"@,
        "Map"@,
        "Math"@,
        "MessageChannel"@,
        "NaN"@,
        "Node"@,
        "Number"@,
        "Object"@,
        "Promise"@,
        "Proxy"@,
        "RegExp"@,
        "Set"@,
        "String"@,
        "Symbol"@,
        "TypeError"@,
        "Uint8Array"@,
        "WeakMap"@,
        "XMLHttpRequest"@,
        "Zone"@,
        "console"@,
        "decodeURIComponent"@,
        "document"@,
        "encodeURIComponent"@,
        "eval"@,
        "exports"@,
        "getComputedStyle"@,
        "global"@,
        "isFinite"@,
        "isNaN"@,
        "module"@,
        "parseFloat"@,
        "parseInt"@,
        "setImmediate"@,
        "setTimeout"@,
        "window"@,
    ]
}

/// Appends `text` to `names`.
fn push_name(names: &mut Vec<String>, text: &str)
    ensures
        names_of(final(names)@) == names_of(old(names)@).push(text@),
{
    let ghost before = names@;
    let t = String::from_str(text);
    names.push(t);
    proof {
        lemma_names_of_push(before, t);
    }
}

/// The globals that the binder knows without a declaration, which make up its global
/// scope at the start.
pub fn extern_names() -> (names: Vec<String>)
    ensures
        names_of(names@) == extern_list(),
{
    let mut names: Vec<String> = Vec::new();
    push_name(&mut names, "Array");
    push_name(&mut names, "ArrayBuffer");
    push_name(&mut names, "Boolean");
    push_name(&mut names, "Date");
    push_name(&mut names, "Document");
    push_name(&mut names, "DocumentFragment");
    push_name(&mut names, "Element");
    push_name(&mut names, "Error");
    push_name(&mut names, "Event");
    push_name(&mut names, "Function");
    push_name(&mut names, "HTMLBodyElement");
    push_name(&mut names, "HTMLElement");
    push_name(&mut names, "HTMLFrameElement");
    push_name(&mut names, "HTMLFrameSetElement");
    push_name(&mut names, "HTMLIFrameElement");
    push_name(&mut names, "HTMLMediaElement");
    push_name(&mut names, "Hammer");
    push_name(&mut names, "IDBCursor");
    push_name(&mut names, "IDBDatabase");
    push_name(&mut names, "IDBOpenDBRequest");
    push_name(&mut names, "IDBRequest");
    push_name(&mut names, "IDBTransaction");
    push_name(&mut names, "Infinity");
    push_name(&mut names, "Intl");
    push_name(&mut names, "JSON");
    push_name(&mut names, "Map");
    push_name(&mut names, "Math");
    push_name(&mut names, "MessageChannel");
    push_name(&mut names, "NaN");
    push_name(&mut names, "Node");
    push_name(&mut names, "Number");
    push_name(&mut names, "Object");
    push_name(&mut names, "Promise");
    push_name(&mut names, "Proxy");
    push_name(&mut names, "RegExp");
    push_name(&mut names, "Set");
    push_name(&mut names, "String");
    push_name(&mut names, "Symbol");
    push_name(&mut names, "TypeError");
    push_name(&mut names, "Uint8Array");
    push_name(&mut names, "WeakMap");
    push_name(&mut names, "XMLHttpRequest");
    push_name(&mut names, "Zone");
    push_name(&mut names, "console");
    push_name(&mut names, "decodeURIComponent");
    push_name(&mut names, "document");
    push_name(&mut names, "encodeURIComponent");
    push_name(&mut names, "eval");
    push_name(&mut names, "exports");
    push_name(&mut names, "getComputedStyle");
    push_name(&mut names, "global");
    push_name(&mut names, "isFinite");
    push_name(&mut names, "isNaN");
    push_name(&mut names, "module");
    push_name(&mut names, "parseFloat");
    push_name(&mut names, "parseInt");
    push_name(&mut names, "setImmediate");
    push_name(&mut names, "setTimeout");
    push_name(&mut names, "window");
    assert(names_of(names@) =~= extern_list());
    names
}

/// Every name of a declaration list is gathered exactly once: by the `var` gathering when
/// the keyword is `var`, by the `let`/`const` gathering otherwise.
pub proof fn law_declaration_gathered_once(decls: VarDecls)
    ensures
        var_names(Stmt::Var(decls)) + lexical_names(Stmt::Var(decls)) == decls_names(decls),
        var_names(Stmt::Var(decls)).len() == 0 || lexical_names(Stmt::Var(decls)).len() == 0,
{
    assert(var_names(Stmt::Var(decls)) + lexical_names(Stmt::Var(decls)) =~= decls_names(decls));
}

/// The text of each name of each scope.
pub open spec fn scopes_of(scopes: Seq<Vec<String>>) -> Seq<Seq<Seq<char>>> {
    scopes.map_values(|v: Vec<String>| names_of(v@))
}

/// The innermost of the first `n` scopes (outermost first) that declares `name`.
pub open spec fn innermost_in(scopes: Seq<Seq<Seq<char>>>, name: Seq<char>, n: int) -> Option<int>
    decreases n,
{
    if n <= 0 || n > scopes.len() {
        None
    } else if scopes[n - 1].contains(name) {
        Some(n - 1)
    } else {
        innermost_in(scopes, name, n - 1)
    }
}

/// The innermost scope that declares `name`.
pub open spec fn innermost(scopes: Seq<Seq<Seq<char>>>, name: Seq<char>) -> Option<int> {
    innermost_in(scopes, name, scopes.len() as int)
}

/// The warning for a reference to a name that no scope declares: an inferred global where
/// the reference may create one (as `typeof x` does), else an undeclared global.
pub open spec fn global_warning(create_global: bool, name: Seq<char>) -> Seq<char> {
    if create_global {
        "inferred global: "@ + name
    } else {
        "global referenced without declaration: "@ + name
    }
}

/// Where a reference resolves: to a declaration in the scope at this index (outermost is
/// 0), or to an undeclared global, which is then added to the global scope and must keep
/// its name.
#[derive(PartialEq, Eq, Structural, Debug, Clone, Copy)]
pub enum Resolution {
    Declared(usize),
    Global,
}

/// Resolving `name` takes binder `before` to `after` with result `r`: the innermost scope
/// that declares the name, with nothing changed; or, where none does, a global, which is
/// added to the global scope with a warning.
pub open spec fn resolved(before: Binder, after: Binder, name: Seq<char>, create_global: bool, r: Resolution) -> bool {
    match innermost(scopes_of(before.scopes@), name) {
        Some(i) => {
            &&& r == Resolution::Declared(i as usize)
            &&& scopes_of(after.scopes@) == scopes_of(before.scopes@)
            &&& names_of(after.warnings@) == names_of(before.warnings@)
        },
        None => {
            &&& r == Resolution::Global
            &&& scopes_of(after.scopes@) == scopes_of(before.scopes@).update(
                0,
                scopes_of(before.scopes@)[0].push(name),
            )
            &&& names_of(after.warnings@) == names_of(before.warnings@).push(
                global_warning(create_global, name),
            )
        },
    }
}

/// A reference to a name, as the binder meets it: a plain identifier, or the operand
/// of `typeof`, which may name a global that nothing declares (as `typeof exports`).
pub enum Reference {
    Ident(String),
    TypeOf(String),
}

/// The scopes in effect while binding references, outermost (the global scope) first,
/// and the warnings so far.
pub struct Binder {
    pub scopes: Vec<Vec<String>>,
    pub warnings: Vec<String>,
}

/// Whether `scope` declares `name`.
fn scope_declares(scope: &Vec<String>, name: &String) -> (r: bool)
    ensures
        r == names_of(scope@).contains(name@),
{
    let mut j: usize = 0;
    while j < scope.len()
        invariant
            j <= scope@.len(),
            forall|k: int| 0 <= k < j ==> scope@[k]@ != name@,
        decreases scope@.len() - j,
    {
        if scope[j] == *name {
            assert(names_of(scope@)[j as int] == name@);
            return true;
        }
        j = j + 1;
    }
    assert forall|k: int| 0 <= k < names_of(scope@).len() implies names_of(scope@)[k] != name@ by {
    }
    false
}

impl Binder {
    /// A binder whose only scope is the global one, holding `globals`.
    pub fn new(globals: Vec<String>) -> (b: Binder)
        ensures
            scopes_of(b.scopes@) == seq![names_of(globals@)],
            b.warnings@.len() == 0,
    {
        let mut scopes: Vec<Vec<String>> = Vec::new();
        scopes.push(globals);
        let b = Binder { scopes, warnings: Vec::new() };
        assert(scopes_of(b.scopes@) =~= seq![names_of(globals@)]);
        b
    }

    /// Enters a scope that declares `names`.
    pub fn enter(&mut self, names: Vec<String>)
        ensures
            scopes_of(final(self).scopes@) == scopes_of(old(self).scopes@).push(names_of(names@)),
            final(self).warnings == old(self).warnings,
    {
        self.scopes.push(names);
        assert(scopes_of(self.scopes@) =~= scopes_of(old(self).scopes@).push(names_of(names@)));
    }

    /// Leaves the innermost scope and returns it.
    pub fn leave(&mut self) -> (scope: Vec<String>)
        requires
            old(self).scopes@.len() > 1,
        ensures
            scopes_of(final(self).scopes@) == scopes_of(old(self).scopes@).drop_last(),
            names_of(scope@) == scopes_of(old(self).scopes@).last(),
            final(self).warnings == old(self).warnings,
    {
        let scope = self.scopes.pop().unwrap();
        assert(scopes_of(self.scopes@) =~= scopes_of(old(self).scopes@).drop_last());
        scope
    }

    /// Resolves a reference to `name` against the scopes, innermost first. A name that no
    /// scope declares is a global: it gets a warning and is added to the global scope.
    pub fn resolve(&mut self, name: &String, create_global: bool) -> (r: Resolution)
        requires
            old(self).scopes@.len() > 0,
        ensures
            resolved(*old(self), *final(self), name@, create_global, r),
    {
        let ghost view = scopes_of(self.scopes@);
        let mut i: usize = self.scopes.len();
        while i > 0
            invariant
                i <= self.scopes@.len(),
                self.scopes == old(self).scopes,
                self.warnings == old(self).warnings,
                view == scopes_of(self.scopes@),
                innermost(view, name@) == innermost_in(view, name@, i as int),
            decreases i,
        {
            if scope_declares(&self.scopes[i - 1], name) {
                return Resolution::Declared(i - 1);
            }
            i = i - 1;
        }
        let mut text = if create_global {
            String::from_str("inferred global: ")
        } else {
            String::from_str("global referenced without declaration: ")
        };
        text.append(name.as_str());
        let ghost old_warnings = self.warnings@;
        self.warnings.push(text);
        proof {
            lemma_names_of_push(old_warnings, text);
        }
        let ghost scopes_before = self.scopes@;
        let mut global = self.scopes.remove(0);
        assert(global == scopes_before[0]);
        let ghost old_global = global@;
        global.push(name.clone());
        proof {
            lemma_names_of_push(old_global, *name);
        }
        self.scopes.insert(0, global);
        assert(self.scopes@ =~= old(self).scopes@.update(0, global));
        assert(names_of(global@) == view[0].push(name@));
        assert(scopes_of(self.scopes@) =~= view.update(0, view[0].push(name@)));
        assert(text@ == global_warning(create_global, name@));
        assert(names_of(self.warnings@) =~= names_of(old(self).warnings@).push(
            global_warning(create_global, name@),
        ));
        Resolution::Global
    }

    /// Resolves a reference: only the operand of `typeof` may create a global, so only it
    /// is warned about as an inferred global.
    pub fn resolve_reference(&mut self, reference: &Reference) -> (r: Resolution)
        requires
            old(self).scopes@.len() > 0,
        ensures
            match *reference {
                Reference::Ident(name) => resolved(*old(self), *final(self), name@, false, r),
                Reference::TypeOf(name) => resolved(*old(self), *final(self), name@, true, r),
            },
    {
        match reference {
            Reference::Ident(name) => self.resolve(name, false),
            Reference::TypeOf(name) => self.resolve(name, true),
        }
    }
}

/// The innermost declaration wins: a name that the innermost scope declares resolves to
/// it, whatever outer scopes declare.
pub proof fn law_innermost_declaration_wins(scopes: Seq<Seq<Seq<char>>>, name: Seq<char>)
    requires
        scopes.len() > 0,
        scopes.last().contains(name),
    ensures
        innermost(scopes, name) == Some(scopes.len() - 1),
{
}

/// A resolved scope index names a scope that declares the name, and no scope inside it
/// does.
pub proof fn law_innermost_is_innermost(scopes: Seq<Seq<Seq<char>>>, name: Seq<char>, n: int)
    requires
        0 <= n <= scopes.len(),
    ensures
        innermost_in(scopes, name, n) matches Some(i) ==> {
            &&& 0 <= i < n
            &&& scopes[i].contains(name)
            &&& forall|j: int| i < j < n ==> !(#[trigger] scopes[j]).contains(name)
        },
        innermost_in(scopes, name, n) is None ==> forall|j: int| 0 <= j < n ==> !(#[trigger] scopes[j]).contains(name),
    decreases n,
{
    if n > 0 && !scopes[n - 1].contains(name) {
        law_innermost_is_innermost(scopes, name, n - 1);
    }
}

/// After an undeclared name has been resolved as a global, it is declared in the global
/// scope, so resolving it again finds a declaration and warns no more.
pub proof fn law_global_declared_after_warning(scopes: Seq<Seq<Seq<char>>>, name: Seq<char>)
    requires
        scopes.len() > 0,
        innermost(scopes, name) is None,
    ensures
        innermost(scopes.update(0, scopes[0].push(name)), name) is Some,
{
    let updated = scopes.update(0, scopes[0].push(name));
    assert(updated[0].contains(name)) by {
        assert(updated[0][scopes[0].len() as int] == name);
    }
    law_innermost_is_innermost(updated, name, updated.len() as int);
}

/// In a function's scope exactly one entry may not be renamed: the implicit `arguments`,
/// which stands first, or second after the function's own name when the function is a
/// named function expression.
pub proof fn law_only_arguments_keeps_its_name(
    name: Option<String>,
    expr: bool,
    params: Vec<BindingPattern>,
    body: Vec<Stmt>,
    scope: FunctionScope,
)
    requires
        function_scope_declared(name, expr, params, body, scope),
    ensures
        ({
            let at: int = if expr && name is Some {
                1
            } else {
                0
            };
            &&& 0 <= at < scope.names@.len()
            &&& scope.names@[at]@ == "arguments"@
            &&& forall|i: int| 0 <= i < scope.names@.len() ==> (!scope.renameable@[i] <==> i == at)
        }),
{
    let at: int = if expr && name is Some {
        1
    } else {
        0
    };
    let own: Seq<Seq<char>> = if expr && name is Some {
        seq![name->0@]
    } else {
        Seq::empty()
    };
    assert(names_of(scope.names@)[at] == "arguments"@);
    assert(names_of(scope.names@).len() == scope.names@.len());
    assert(scope.names@[at]@ == names_of(scope.names@)[at]);
    assert forall|i: int| 0 <= i < scope.names@.len() implies (!scope.renameable@[i] <==> i == at) by {
        assert(scope.renameable@[i] <==> i != arguments_index(name, expr));
    }
}

/// Function and class declarations add their names only outside blocks: at the
/// statement itself they are hoisted, while a block made of such declarations adds none.
pub proof fn law_declarations_in_blocks_stay(f: String, stmts: Vec<Stmt>)
    requires
        forall|i: int| 0 <= i < stmts@.len() ==> (#[trigger] stmts@[i] is Function || stmts@[i] is Class),
    ensures
        var_names(Stmt::Function { name: Some(f) }) == seq![f@],
        var_names(Stmt::Class { name: Some(f) }) == seq![f@],
        var_names(Stmt::Block(stmts)) == Seq::<Seq<char>>::empty(),
{
    lemma_only_declarations_add_nothing(stmts@, stmts@.len() as int);
}

proof fn lemma_only_declarations_add_nothing(ss: Seq<Stmt>, n: int)
    requires
        0 <= n <= ss.len(),
        forall|i: int| 0 <= i < ss.len() ==> (#[trigger] ss[i] is Function || ss[i] is Class),
    ensures
        stmts_var_names(ss, n, false) == Seq::<Seq<char>>::empty(),
    decreases n,
{
    if n > 0 {
        lemma_only_declarations_add_nothing(ss, n - 1);
        assert(ss[n - 1] is Function || ss[n - 1] is Class);
        assert(var_names_in(ss[n - 1], false) =~= Seq::<Seq<char>>::empty());
    }
}

} // verus!

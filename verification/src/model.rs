//! Algorithm statements, declarations, modifications and class definitions,
//! with their mathematical views.

use vstd::prelude::*;
use crate::ast::{Equation, Expression, SEquation, SExpr, clone_equations, clone_expr, clone_exprs, eqs_view, exprs_view, group_ast_views};
use crate::parse_class::{clone_mods, clone_opt_expr, clone_opt_string};
use crate::text::str_eq;


verus! {

broadcast use group_ast_views;

/// A statement of an algorithm section.
pub enum AlgorithmStatement {
    NoOp,
    Assignment(Expression, Expression),
    MultiAssign(Vec<Expression>, Expression),
    CallStmt(Expression),
    If(Expression, Vec<AlgorithmStatement>, Vec<(Expression, Vec<AlgorithmStatement>)>, Option<Vec<AlgorithmStatement>>),
    For(String, Box<Expression>, Vec<AlgorithmStatement>),
    While(Expression, Vec<AlgorithmStatement>),
    When(Expression, Vec<AlgorithmStatement>, Vec<(Expression, Vec<AlgorithmStatement>)>),
    Reinit(String, Expression),
    Assert(Expression, Expression),
    Terminate(Expression),
}

/// Mathematical value of an [`AlgorithmStatement`].
pub enum SStmt {
    NoOp,
    Assignment(SExpr, SExpr),
    MultiAssign(Seq<SExpr>, SExpr),
    CallStmt(SExpr),
    If(SExpr, Seq<SStmt>, Seq<(SExpr, Seq<SStmt>)>, Option<Seq<SStmt>>),
    For(Seq<char>, SExpr, Seq<SStmt>),
    While(SExpr, Seq<SStmt>),
    When(SExpr, Seq<SStmt>, Seq<(SExpr, Seq<SStmt>)>),
    Reinit(Seq<char>, SExpr),
    Assert(SExpr, SExpr),
    Terminate(SExpr),
}

impl AlgorithmStatement {
    pub open spec fn view(&self) -> SStmt
        decreases self,
    {
        match self {
            AlgorithmStatement::NoOp => SStmt::NoOp,
            AlgorithmStatement::Assignment(l, r) => SStmt::Assignment(l@, r@),
            AlgorithmStatement::MultiAssign(l, r) => SStmt::MultiAssign(exprs_view(l@), r@),
            AlgorithmStatement::CallStmt(e) => SStmt::CallStmt(e@),
            AlgorithmStatement::If(c, body, elifs, els) => SStmt::If(
                c@,
                stmts_view(body@),
                stmt_branches_view(elifs@),
                match els {
                    Some(v) => Some(stmts_view(v@)),
                    None => None,
                },
            ),
            AlgorithmStatement::For(v, r, body) => SStmt::For(v@, r.view(), stmts_view(body@)),
            AlgorithmStatement::While(c, body) => SStmt::While(c@, stmts_view(body@)),
            AlgorithmStatement::When(c, body, elses) => SStmt::When(c@, stmts_view(body@), stmt_branches_view(elses@)),
            AlgorithmStatement::Reinit(v, e) => SStmt::Reinit(v@, e@),
            AlgorithmStatement::Assert(c, m) => SStmt::Assert(c@, m@),
            AlgorithmStatement::Terminate(m) => SStmt::Terminate(m@),
        }
    }
}

/// The views of a sequence of statements.
pub open spec fn stmts_view(s: Seq<AlgorithmStatement>) -> Seq<SStmt>
    decreases s,
{
    if s.len() == 0 {
        Seq::empty()
    } else {
        stmts_view(s.drop_last()).push(s.last().view())
    }
}

/// The views of a sequence of guarded branches of statements.
pub open spec fn stmt_branches_view(s: Seq<(Expression, Vec<AlgorithmStatement>)>) -> Seq<(SExpr, Seq<SStmt>)>
    decreases s,
{
    if s.len() == 0 {
        Seq::empty()
    } else {
        stmt_branches_view(s.drop_last()).push((s.last().0@, stmts_view(s.last().1@)))
    }
}

pub broadcast proof fn lemma_stmts_view(s: Seq<AlgorithmStatement>)
    ensures
        #[trigger] stmts_view(s).len() == s.len(),
        forall|i: int| 0 <= i < s.len() ==> #[trigger] stmts_view(s)[i] == s[i]@,
    decreases s.len(),
{
    if s.len() > 0 {
        lemma_stmts_view(s.drop_last());
    }
}

pub broadcast proof fn lemma_stmt_branches_view(s: Seq<(Expression, Vec<AlgorithmStatement>)>)
    ensures
        #[trigger] stmt_branches_view(s).len() == s.len(),
        forall|i: int| 0 <= i < s.len() ==> #[trigger] stmt_branches_view(s)[i] == (s[i].0@, stmts_view(s[i].1@)),
    decreases s.len(),
{
    if s.len() > 0 {
        lemma_stmt_branches_view(s.drop_last());
    }
}

pub proof fn lemma_stmts_view_push(s: Seq<AlgorithmStatement>, x: AlgorithmStatement)
    ensures
        stmts_view(s.push(x)) == stmts_view(s).push(x@),
{
    assert(s.push(x).drop_last() =~= s);
}

pub proof fn lemma_stmt_branches_view_push(s: Seq<(Expression, Vec<AlgorithmStatement>)>, x: (Expression, Vec<AlgorithmStatement>))
    ensures
        stmt_branches_view(s.push(x)) == stmt_branches_view(s).push((x.0@, stmts_view(x.1@))),
{
    assert(s.push(x).drop_last() =~= s);
}

/// A modification `name = value` of a component, a class or an extends clause.
pub struct Modification {
    pub name: String,
    pub value: Option<Expression>,
    pub each: bool,
    pub redeclare: bool,
    pub redeclare_type: Option<String>,
}

/// Mathematical value of a [`Modification`].
pub struct SMod {
    pub name: Seq<char>,
    pub value: Option<SExpr>,
    pub each: bool,
    pub redeclare: bool,
    pub redeclare_type: Option<Seq<char>>,
}

/// The view of an optional expression.
pub open spec fn opt_expr_view(o: Option<Expression>) -> Option<SExpr> {
    match o {
        Some(e) => Some(e@),
        None => None,
    }
}

/// The view of an optional string.
pub open spec fn opt_str_view(o: Option<String>) -> Option<Seq<char>> {
    match o {
        Some(s) => Some(s@),
        None => None,
    }
}

impl Modification {
    pub open spec fn view(&self) -> SMod {
        SMod {
            name: self.name@,
            value: opt_expr_view(self.value),
            each: self.each,
            redeclare: self.redeclare,
            redeclare_type: opt_str_view(self.redeclare_type),
        }
    }
}

pub open spec fn mods_view(s: Seq<Modification>) -> Seq<SMod> {
    s.map_values(|m: Modification| m@)
}

/// A component declaration.
pub struct Declaration {
    pub type_path: String,
    pub name: String,
    pub replaceable: bool,
    pub is_parameter: bool,
    pub is_flow: bool,
    pub is_discrete: bool,
    pub is_input: bool,
    pub is_output: bool,
    pub start_value: Option<Expression>,
    pub array_size: Option<Expression>,
    pub modifications: Vec<Modification>,
    pub is_rest: bool,
    pub annotation: Option<String>,
    pub condition: Option<Expression>,
}

/// Mathematical value of a [`Declaration`].
pub struct SDecl {
    pub type_path: Seq<char>,
    pub name: Seq<char>,
    pub replaceable: bool,
    pub is_parameter: bool,
    pub is_flow: bool,
    pub is_discrete: bool,
    pub is_input: bool,
    pub is_output: bool,
    pub start_value: Option<SExpr>,
    pub array_size: Option<SExpr>,
    pub modifications: Seq<SMod>,
    pub is_rest: bool,
    pub annotation: Option<Seq<char>>,
    pub condition: Option<SExpr>,
}

impl Declaration {
    pub open spec fn view(&self) -> SDecl {
        SDecl {
            type_path: self.type_path@,
            name: self.name@,
            replaceable: self.replaceable,
            is_parameter: self.is_parameter,
            is_flow: self.is_flow,
            is_discrete: self.is_discrete,
            is_input: self.is_input,
            is_output: self.is_output,
            start_value: opt_expr_view(self.start_value),
            array_size: opt_expr_view(self.array_size),
            modifications: mods_view(self.modifications@),
            is_rest: self.is_rest,
            annotation: opt_str_view(self.annotation),
            condition: opt_expr_view(self.condition),
        }
    }
}

pub open spec fn decls_view(s: Seq<Declaration>) -> Seq<SDecl> {
    s.map_values(|d: Declaration| d@)
}

/// An `extends` clause.
pub struct ExtendsClause {
    pub model_name: String,
    pub modifications: Vec<Modification>,
}

/// Mathematical value of an [`ExtendsClause`].
pub struct SExtends {
    pub model_name: Seq<char>,
    pub modifications: Seq<SMod>,
}

impl ExtendsClause {
    pub open spec fn view(&self) -> SExtends {
        SExtends { model_name: self.model_name@, modifications: mods_view(self.modifications@) }
    }
}

pub open spec fn extends_view(s: Seq<ExtendsClause>) -> Seq<SExtends> {
    s.map_values(|e: ExtendsClause| e@)
}

/// The `external` clause of a function: its language and the C function called.
pub struct ExternalDecl {
    pub language: Option<String>,
    pub c_name: Option<String>,
}

/// Mathematical value of an [`ExternalDecl`].
pub struct SExternal {
    pub language: Option<Seq<char>>,
    pub c_name: Option<Seq<char>>,
}

impl ExternalDecl {
    pub open spec fn view(&self) -> SExternal {
        SExternal { language: opt_str_view(self.language), c_name: opt_str_view(self.c_name) }
    }
}

pub open spec fn opt_ext_view(o: Option<ExternalDecl>) -> Option<SExternal> {
    match o {
        Some(e) => Some(e@),
        None => None,
    }
}

/// The views of pairs of strings.
pub open spec fn pairs_view(s: Seq<(String, String)>) -> Seq<(Seq<char>, Seq<char>)> {
    s.map_values(|p: (String, String)| (p.0@, p.1@))
}

/// A class definition (model, block, connector, record, package, ...).
pub struct Model {
    pub name: String,
    pub is_connector: bool,
    pub is_function: bool,
    pub is_operator_function: bool,
    pub is_record: bool,
    pub is_block: bool,
    pub is_expandable: bool,
    pub is_partial: bool,
    pub is_encapsulated: bool,
    pub is_pure: bool,
    pub is_impure: bool,
    pub extends: Vec<ExtendsClause>,
    pub declarations: Vec<Declaration>,
    pub equations: Vec<Equation>,
    pub algorithms: Vec<AlgorithmStatement>,
    pub initial_equations: Vec<Equation>,
    pub initial_algorithms: Vec<AlgorithmStatement>,
    pub annotation: Option<String>,
    pub inner_classes: Vec<Model>,
    pub is_operator_record: bool,
    pub type_aliases: Vec<(String, String)>,
    pub imports: Vec<(String, String)>,
    pub external_info: Option<ExternalDecl>,
}

/// Mathematical value of a [`Model`].
pub struct SModel {
    pub name: Seq<char>,
    pub is_connector: bool,
    pub is_function: bool,
    pub is_operator_function: bool,
    pub is_record: bool,
    pub is_block: bool,
    pub is_expandable: bool,
    pub is_partial: bool,
    pub is_encapsulated: bool,
    pub is_pure: bool,
    pub is_impure: bool,
    pub extends: Seq<SExtends>,
    pub declarations: Seq<SDecl>,
    pub equations: Seq<SEquation>,
    pub algorithms: Seq<SStmt>,
    pub initial_equations: Seq<SEquation>,
    pub initial_algorithms: Seq<SStmt>,
    pub annotation: Option<Seq<char>>,
    pub inner_classes: Seq<SModel>,
    pub is_operator_record: bool,
    pub type_aliases: Seq<(Seq<char>, Seq<char>)>,
    pub imports: Seq<(Seq<char>, Seq<char>)>,
    pub external_info: Option<SExternal>,
}

impl Model {
    pub open spec fn view(&self) -> SModel
        decreases self,
    {
        SModel {
            name: self.name@,
            is_connector: self.is_connector,
            is_function: self.is_function,
            is_operator_function: self.is_operator_function,
            is_record: self.is_record,
            is_block: self.is_block,
            is_expandable: self.is_expandable,
            is_partial: self.is_partial,
            is_encapsulated: self.is_encapsulated,
            is_pure: self.is_pure,
            is_impure: self.is_impure,
            extends: extends_view(self.extends@),
            declarations: decls_view(self.declarations@),
            equations: eqs_view(self.equations@),
            algorithms: stmts_view(self.algorithms@),
            initial_equations: eqs_view(self.initial_equations@),
            initial_algorithms: stmts_view(self.initial_algorithms@),
            annotation: opt_str_view(self.annotation),
            inner_classes: models_view(self.inner_classes@),
            is_operator_record: self.is_operator_record,
            type_aliases: pairs_view(self.type_aliases@),
            imports: pairs_view(self.imports@),
            external_info: opt_ext_view(self.external_info),
        }
    }
}

/// The views of a sequence of class definitions.
pub open spec fn models_view(s: Seq<Model>) -> Seq<SModel>
    decreases s,
{
    if s.len() == 0 {
        Seq::empty()
    } else {
        models_view(s.drop_last()).push(s.last().view())
    }
}

pub broadcast proof fn lemma_models_view(s: Seq<Model>)
    ensures
        #[trigger] models_view(s).len() == s.len(),
        forall|i: int| 0 <= i < s.len() ==> #[trigger] models_view(s)[i] == s[i]@,
    decreases s.len(),
{
    if s.len() > 0 {
        lemma_models_view(s.drop_last());
    }
}

pub proof fn lemma_models_view_push(s: Seq<Model>, x: Model)
    ensures
        models_view(s.push(x)) == models_view(s).push(x@),
{
    assert(s.push(x).drop_last() =~= s);
}

pub broadcast group group_model_views {
    lemma_stmts_view,
    lemma_stmt_branches_view,
    lemma_models_view,
}

/// A function definition.
pub struct Function {
    pub name: String,
    pub is_operator_function: bool,
    pub extends: Vec<ExtendsClause>,
    pub declarations: Vec<Declaration>,
    pub algorithms: Vec<AlgorithmStatement>,
    pub initial_algorithms: Vec<AlgorithmStatement>,
    pub external_info: Option<ExternalDecl>,
}

/// Mathematical value of a [`Function`].
pub struct SFunction {
    pub name: Seq<char>,
    pub is_operator_function: bool,
    pub extends: Seq<SExtends>,
    pub declarations: Seq<SDecl>,
    pub algorithms: Seq<SStmt>,
    pub initial_algorithms: Seq<SStmt>,
    pub external_info: Option<SExternal>,
}

impl Function {
    pub open spec fn view(&self) -> SFunction {
        SFunction {
            name: self.name@,
            is_operator_function: self.is_operator_function,
            extends: extends_view(self.extends@),
            declarations: decls_view(self.declarations@),
            algorithms: stmts_view(self.algorithms@),
            initial_algorithms: stmts_view(self.initial_algorithms@),
            external_info: opt_ext_view(self.external_info),
        }
    }
}

/// A top-level class: a function or any other class.
pub enum ClassItem {
    Model(Model),
    Function(Function),
}

/// Mathematical value of a [`ClassItem`].
pub enum SClassItem {
    Model(SModel),
    Function(SFunction),
}

impl ClassItem {
    pub open spec fn view(&self) -> SClassItem {
        match self {
            ClassItem::Model(m) => SClassItem::Model(m@),
            ClassItem::Function(f) => SClassItem::Function(f@),
        }
    }
}

pub open spec fn items_view(s: Seq<ClassItem>) -> Seq<SClassItem> {
    s.map_values(|c: ClassItem| c@)
}

/// A class with nothing in it but its name.
pub open spec fn empty_model(name: Seq<char>) -> SModel {
    SModel {
        name,
        is_connector: false,
        is_function: false,
        is_operator_function: false,
        is_record: false,
        is_block: false,
        is_expandable: false,
        is_partial: false,
        is_encapsulated: false,
        is_pure: false,
        is_impure: false,
        extends: Seq::empty(),
        declarations: Seq::empty(),
        equations: Seq::empty(),
        algorithms: Seq::empty(),
        initial_equations: Seq::empty(),
        initial_algorithms: Seq::empty(),
        annotation: None,
        inner_classes: Seq::empty(),
        is_operator_record: false,
        type_aliases: Seq::empty(),
        imports: Seq::empty(),
        external_info: None,
    }
}

/// An empty class named `name`.
pub fn new_model(name: String) -> (m: Model)
    ensures
        m@ == empty_model(name@),
{
    let m = Model {
        name,
        is_connector: false,
        is_function: false,
        is_operator_function: false,
        is_record: false,
        is_block: false,
        is_expandable: false,
        is_partial: false,
        is_encapsulated: false,
        is_pure: false,
        is_impure: false,
        extends: Vec::new(),
        declarations: Vec::new(),
        equations: Vec::new(),
        algorithms: Vec::new(),
        initial_equations: Vec::new(),
        initial_algorithms: Vec::new(),
        annotation: None,
        inner_classes: Vec::new(),
        is_operator_record: false,
        type_aliases: Vec::new(),
        imports: Vec::new(),
        external_info: None,
    };
    proof {
        assert(extends_view(m.extends@) =~= Seq::empty());
        assert(decls_view(m.declarations@) =~= Seq::empty());
        assert(eqs_view(m.equations@) =~= Seq::empty());
        assert(stmts_view(m.algorithms@) =~= Seq::empty());
        assert(eqs_view(m.initial_equations@) =~= Seq::empty());
        assert(stmts_view(m.initial_algorithms@) =~= Seq::empty());
        assert(models_view(m.inner_classes@) =~= Seq::empty());
        assert(pairs_view(m.type_aliases@) =~= Seq::empty());
        assert(pairs_view(m.imports@) =~= Seq::empty());
    }
    m
}

/// The class that a function definition stands for: a function class with the
/// function's name, extends clauses, declarations, algorithms and external clause.
pub open spec fn spec_model_from_function(f: SFunction) -> SModel {
    SModel {
        is_function: true,
        is_operator_function: f.is_operator_function,
        extends: f.extends,
        declarations: f.declarations,
        algorithms: f.algorithms,
        initial_algorithms: f.initial_algorithms,
        external_info: f.external_info,
        ..empty_model(f.name)
    }
}

/// Turns a function definition into the class that stands for it.
pub fn model_from_function(f: Function) -> (m: Model)
    ensures
        m@ == spec_model_from_function(f@),
{
    let mut m = new_model(f.name);
    m.is_function = true;
    m.is_operator_function = f.is_operator_function;
    m.extends = f.extends;
    m.declarations = f.declarations;
    m.algorithms = f.algorithms;
    m.initial_algorithms = f.initial_algorithms;
    m.external_info = f.external_info;
    m
}

/// Turns a top-level class into a class definition.
pub fn class_item_model(c: ClassItem) -> (m: Model)
    ensures
        m@ == (match c@ {
            SClassItem::Model(x) => x,
            SClassItem::Function(f) => spec_model_from_function(f),
        }),
{
    match c {
        ClassItem::Model(m) => m,
        ClassItem::Function(f) => model_from_function(f),
    }
}

} // verus!

verus! {

/// A copy of a statement with the same view.
pub fn clone_stmt(s: &AlgorithmStatement) -> (r: AlgorithmStatement)
    ensures
        r@ == s@,
    decreases s,
{
    match s {
        AlgorithmStatement::NoOp => AlgorithmStatement::NoOp,
        AlgorithmStatement::Assignment(l, r) => AlgorithmStatement::Assignment(clone_expr(l), clone_expr(r)),
        AlgorithmStatement::MultiAssign(l, r) => AlgorithmStatement::MultiAssign(clone_exprs(l), clone_expr(r)),
        AlgorithmStatement::CallStmt(e) => AlgorithmStatement::CallStmt(clone_expr(e)),
        AlgorithmStatement::If(c, body, elifs, els) => {
            let e2 = match els {
                Some(v) => Some(clone_stmts(v)),
                None => None,
            };
            AlgorithmStatement::If(clone_expr(c), clone_stmts(body), clone_stmt_branches(elifs), e2)
        },
        AlgorithmStatement::For(v, range, body) => AlgorithmStatement::For(
            v.clone(),
            Box::new(clone_expr(range)),
            clone_stmts(body),
        ),
        AlgorithmStatement::While(c, body) => AlgorithmStatement::While(clone_expr(c), clone_stmts(body)),
        AlgorithmStatement::When(c, body, elses) => AlgorithmStatement::When(
            clone_expr(c),
            clone_stmts(body),
            clone_stmt_branches(elses),
        ),
        AlgorithmStatement::Reinit(v, e) => AlgorithmStatement::Reinit(v.clone(), clone_expr(e)),
        AlgorithmStatement::Assert(c, m) => AlgorithmStatement::Assert(clone_expr(c), clone_expr(m)),
        AlgorithmStatement::Terminate(m) => AlgorithmStatement::Terminate(clone_expr(m)),
    }
}

/// A copy of a vector of statements with the same views.
pub fn clone_stmts(v: &Vec<AlgorithmStatement>) -> (r: Vec<AlgorithmStatement>)
    ensures
        stmts_view(r@) == stmts_view(v@),
    decreases v,
{
    broadcast use group_model_views;
    let mut out: Vec<AlgorithmStatement> = Vec::new();
    let mut i: usize = 0;
    while i < v.len()
        invariant
            i <= v@.len(),
            out@.len() == i,
            forall|j: int| 0 <= j < i ==> #[trigger] out@[j]@ == v@[j]@,
        decreases v@.len() - i,
    {
        proof {
            assert(decreases_to!(v => v@[i as int]));
        }
        let c = clone_stmt(&v[i]);
        out.push(c);
        i += 1;
    }
    assert(stmts_view(out@) =~= stmts_view(v@));
    out
}

/// A copy of a vector of guarded statement branches with the same views.
pub fn clone_stmt_branches(v: &Vec<(Expression, Vec<AlgorithmStatement>)>) -> (r: Vec<(Expression, Vec<AlgorithmStatement>)>)
    ensures
        stmt_branches_view(r@) == stmt_branches_view(v@),
    decreases v,
{
    broadcast use group_model_views;
    let mut out: Vec<(Expression, Vec<AlgorithmStatement>)> = Vec::new();
    let mut i: usize = 0;
    while i < v.len()
        invariant
            i <= v@.len(),
            out@.len() == i,
            forall|j: int| 0 <= j < i ==> #[trigger] out@[j].0@ == v@[j].0@ && stmts_view(out@[j].1@) == stmts_view(v@[j].1@),
        decreases v@.len() - i,
    {
        proof {
            assert(decreases_to!(v => v@[i as int]));
        }
        let c = clone_expr(&v[i].0);
        let b = clone_stmts(&v[i].1);
        out.push((c, b));
        i += 1;
    }
    assert(stmt_branches_view(out@) =~= stmt_branches_view(v@));
    out
}

/// A copy of a component declaration.
pub fn clone_decl(d: &Declaration) -> (r: Declaration)
    ensures
        r@ == d@,
{
    Declaration {
        type_path: d.type_path.clone(),
        name: d.name.clone(),
        replaceable: d.replaceable,
        is_parameter: d.is_parameter,
        is_flow: d.is_flow,
        is_discrete: d.is_discrete,
        is_input: d.is_input,
        is_output: d.is_output,
        start_value: clone_opt_expr(&d.start_value),
        array_size: clone_opt_expr(&d.array_size),
        modifications: clone_mods(&d.modifications),
        is_rest: d.is_rest,
        annotation: clone_opt_string(&d.annotation),
        condition: clone_opt_expr(&d.condition),
    }
}

/// A copy of component declarations.
pub fn clone_decls(v: &Vec<Declaration>) -> (r: Vec<Declaration>)
    ensures
        decls_view(r@) == decls_view(v@),
{
    broadcast use group_model_views;
    let mut out: Vec<Declaration> = Vec::new();
    let mut i: usize = 0;
    while i < v.len()
        invariant
            i <= v@.len(),
            out@.len() == i,
            forall|j: int| 0 <= j < i ==> #[trigger] out@[j]@ == v@[j]@,
        decreases v@.len() - i,
    {
        let c = clone_decl(&v[i]);
        out.push(c);
        i += 1;
    }
    assert(decls_view(out@) =~= decls_view(v@));
    out
}

/// A copy of extends clauses.
pub fn clone_extends(v: &Vec<ExtendsClause>) -> (r: Vec<ExtendsClause>)
    ensures
        extends_view(r@) == extends_view(v@),
{
    broadcast use group_model_views;
    let mut out: Vec<ExtendsClause> = Vec::new();
    let mut i: usize = 0;
    while i < v.len()
        invariant
            i <= v@.len(),
            out@.len() == i,
            forall|j: int| 0 <= j < i ==> #[trigger] out@[j]@ == v@[j]@,
        decreases v@.len() - i,
    {
        let c = ExtendsClause { model_name: v[i].model_name.clone(), modifications: clone_mods(&v[i].modifications) };
        out.push(c);
        i += 1;
    }
    assert(extends_view(out@) =~= extends_view(v@));
    out
}

/// A copy of pairs of strings.
pub fn clone_pairs(v: &Vec<(String, String)>) -> (r: Vec<(String, String)>)
    ensures
        pairs_view(r@) == pairs_view(v@),
{
    broadcast use group_model_views;
    let mut out: Vec<(String, String)> = Vec::new();
    let mut i: usize = 0;
    while i < v.len()
        invariant
            i <= v@.len(),
            out@.len() == i,
            forall|j: int| 0 <= j < i ==> #[trigger] out@[j].0@ == v@[j].0@ && out@[j].1@ == v@[j].1@,
        decreases v@.len() - i,
    {
        out.push((v[i].0.clone(), v[i].1.clone()));
        i += 1;
    }
    assert(pairs_view(out@) =~= pairs_view(v@));
    out
}

/// A copy of an external clause.
pub fn clone_opt_external(o: &Option<ExternalDecl>) -> (r: Option<ExternalDecl>)
    ensures
        opt_ext_view(r) == opt_ext_view(*o),
{
    match o {
        Some(x) => Some(ExternalDecl { language: clone_opt_string(&x.language), c_name: clone_opt_string(&x.c_name) }),
        None => None,
    }
}

/// A copy of a class definition with the given inner classes in place of its own.
pub fn clone_model_with(m: &Model, inner: Vec<Model>) -> (r: Model)
    ensures
        r@ == (SModel { inner_classes: models_view(inner@), ..m@ }),
{
    Model {
        name: m.name.clone(),
        is_connector: m.is_connector,
        is_function: m.is_function,
        is_operator_function: m.is_operator_function,
        is_record: m.is_record,
        is_block: m.is_block,
        is_expandable: m.is_expandable,
        is_partial: m.is_partial,
        is_encapsulated: m.is_encapsulated,
        is_pure: m.is_pure,
        is_impure: m.is_impure,
        extends: clone_extends(&m.extends),
        declarations: clone_decls(&m.declarations),
        equations: clone_equations(&m.equations),
        algorithms: clone_stmts(&m.algorithms),
        initial_equations: clone_equations(&m.initial_equations),
        initial_algorithms: clone_stmts(&m.initial_algorithms),
        annotation: clone_opt_string(&m.annotation),
        inner_classes: inner,
        is_operator_record: m.is_operator_record,
        type_aliases: clone_pairs(&m.type_aliases),
        imports: clone_pairs(&m.imports),
        external_info: clone_opt_external(&m.external_info),
    }
}

/// A copy of a class definition, inner classes included.
pub fn clone_model(m: &Model) -> (r: Model)
    ensures
        r@ == m@,
    decreases m,
{
    let inner = clone_models(&m.inner_classes);
    let r = clone_model_with(m, inner);
    assert(r@ =~= m@);
    r
}

/// A copy of class definitions.
pub fn clone_models(v: &Vec<Model>) -> (r: Vec<Model>)
    ensures
        models_view(r@) == models_view(v@),
    decreases v,
{
    broadcast use group_model_views;
    let mut out: Vec<Model> = Vec::new();
    let mut i: usize = 0;
    while i < v.len()
        invariant
            i <= v@.len(),
            out@.len() == i,
            forall|j: int| 0 <= j < i ==> #[trigger] out@[j]@ == v@[j]@,
        decreases v@.len() - i,
    {
        proof {
            assert(decreases_to!(v => v@[i as int]));
        }
        let c = clone_model(&v[i]);
        out.push(c);
        i += 1;
    }
    assert(models_view(out@) =~= models_view(v@));
    out
}

/// Whether a class only renames another one: a single extends clause and no
/// declarations, equations or inner classes.
pub open spec fn is_leaf_alias(m: SModel) -> bool {
    m.extends.len() == 1 && m.declarations.len() == 0 && m.equations.len() == 0 && m.inner_classes.len() == 0
}

/// The classes of `s` that only rename another one, in order.
pub open spec fn leaf_aliases(s: Seq<SModel>) -> Seq<SModel>
    decreases s.len(),
{
    if s.len() == 0 {
        Seq::empty()
    } else if is_leaf_alias(s.last()) {
        leaf_aliases(s.drop_last()).push(s.last())
    } else {
        leaf_aliases(s.drop_last())
    }
}

/// A class definition as the cache holds an inner class: its own inner classes
/// kept only where they rename another class.
pub open spec fn shallow_view(m: SModel) -> SModel {
    SModel { inner_classes: leaf_aliases(m.inner_classes), ..m }
}

/// A copy of a class whose inner classes are kept only where they rename
/// another class.
pub fn clone_model_without_inner_classes(m: &Model) -> (r: Model)
    ensures
        r@ == shallow_view(m@),
{
    broadcast use group_model_views;
    let mut keep: Vec<Model> = Vec::new();
    let mut i: usize = 0;
    while i < m.inner_classes.len()
        invariant
            i <= m.inner_classes@.len(),
            models_view(keep@) == leaf_aliases(models_view(m.inner_classes@).take(i as int)),
        decreases m.inner_classes@.len() - i,
    {
        let ic = &m.inner_classes[i];
        let ghost s = models_view(m.inner_classes@);
        proof {
            lemma_models_view(m.inner_classes@);
            assert(s.len() == m.inner_classes@.len());
            assert(s.take(i + 1).drop_last() =~= s.take(i as int));
            assert(s.take(i + 1).last() == ic@);
        }
        if ic.extends.len() == 1 && ic.declarations.len() == 0 && ic.equations.len() == 0 && ic.inner_classes.len() == 0 {
            let c = clone_model(ic);
            proof {
                lemma_models_view_push(keep@, c);
            }
            keep.push(c);
        }
        i += 1;
    }
    proof {
        assert(models_view(m.inner_classes@).take(m.inner_classes@.len() as int) =~= models_view(m.inner_classes@));
    }
    clone_model_with(m, keep)
}

/// The position of the first class named `name` in `s`, or -1.
pub open spec fn first_named(s: Seq<SModel>, name: Seq<char>) -> int
    decreases s.len(),
{
    if s.len() == 0 {
        -1
    } else if s[0].name == name {
        0
    } else {
        let r = first_named(s.drop_first(), name);
        if r < 0 { -1 } else { r + 1 }
    }
}

impl Model {
    /// The first inner class named `name`.
    pub fn find_inner_class(&self, name: &str) -> (r: Option<&Model>)
        ensures
            first_named(models_view(self.inner_classes@), name@) < 0 ==> r is None,
            first_named(models_view(self.inner_classes@), name@) >= 0 ==> (r matches Some(m)
                && m@ == models_view(self.inner_classes@)[first_named(models_view(self.inner_classes@), name@)]),
    {
        broadcast use group_model_views;
        let ghost s = models_view(self.inner_classes@);
        assert(s.len() == self.inner_classes@.len());
        assert(s.skip(0) =~= s);
        let mut i: usize = 0;
        while i < self.inner_classes.len()
            invariant
                i <= self.inner_classes@.len(),
                s == models_view(self.inner_classes@),
                s.len() == self.inner_classes@.len(),
                first_named(s, name@) == first_named(s.skip(i as int), name@) + (if first_named(s.skip(i as int), name@) < 0 { 0 } else { i as int }),
            decreases self.inner_classes@.len() - i,
        {
            proof {
                lemma_models_view(self.inner_classes@);
                assert(s.skip(i as int).drop_first() =~= s.skip(i + 1));
                assert(s.skip(i as int)[0] == self.inner_classes@[i as int]@);
            }
            if str_eq(self.inner_classes[i].name.as_str(), name) {
                return Some(&self.inner_classes[i]);
            }
            i += 1;
        }
        None
    }
}

} // verus!

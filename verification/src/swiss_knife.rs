//! Computed nodes: a formula over constants, the values of other nodes and
//! named intermediate formulas.

use crate::elem_type::NumericKind;
use crate::error::ParseError;
use crate::formula::formula_of;
use crate::formula::lookup;
use crate::formula::BinaryOp;
use crate::number::fits_i64;
use crate::number::REAL_SCALE;
use crate::formula::parse_formula;
use crate::formula::value_of;
use crate::formula::Bindings;
use crate::formula::Expr;
use crate::formula::ExprView;
use crate::formula::SymbolTable;
use crate::node_base::attr_base_of;
use crate::node_base::node_name;
use crate::node_store::lemma_id_kept;
use crate::node_base::elem_base_of;
use crate::node_store::NodeStore;
use crate::node_store::NodeStoreView;
use crate::number::EvalError;
use crate::parse::intern_name;
use crate::parse::Parse;
use crate::parse::interned_name;
use crate::text::str_eq;
use crate::text::trimmed;
use crate::xml::attribute_value;
use crate::xml::child_has_tag;
use crate::xml::Element;
use crate::node_base::NodeAttributeBase;
use crate::node_base::NodeBase;
use crate::node_base::NodeElementBase;
use crate::node_base::NodeElementBaseView;
use crate::node_store::NodeId;
use crate::number::Number;
use vstd::prelude::*;

verus! {

/// A computed node. Its formulas are held parsed.
#[derive(Debug, PartialEq, Eq)]
pub struct SwissKnifeNode {
    pub(crate) attr_base: NodeAttributeBase,
    pub(crate) elem_base: NodeElementBase,
    pub(crate) kind: NumericKind,
    pub(crate) p_variables: Vec<(String, NodeId)>,
    pub(crate) constants: Vec<(String, Number)>,
    pub(crate) expressions: Vec<(String, Expr)>,
    pub(crate) formula: Expr,
}

/// The model of a `SwissKnifeNode`.
pub struct SwissKnifeView {
    pub attr_base: NodeAttributeBase,
    pub elem_base: NodeElementBaseView,
    /// The kind of number that the node yields.
    pub kind: NumericKind,
    /// The names that stand for the values of other nodes, in document order.
    pub p_variables: Seq<(Seq<char>, NodeId)>,
    /// The names that stand for fixed numbers, in document order.
    pub constants: Seq<(Seq<char>, Number)>,
    /// The names that stand for intermediate formulas, in document order.
    pub expressions: Seq<(Seq<char>, ExprView)>,
    /// The formula that gives the value of the node.
    pub formula: ExprView,
}

/// The model of a list of named node references.
pub open spec fn variables_view(v: Seq<(String, NodeId)>) -> Seq<(Seq<char>, NodeId)> {
    Seq::new(v.len(), |i: int| (v[i].0@, v[i].1))
}

/// The model of a list of named numbers.
pub open spec fn constants_view(v: Seq<(String, Number)>) -> Seq<(Seq<char>, Number)> {
    Seq::new(v.len(), |i: int| (v[i].0@, v[i].1))
}

/// The model of a list of named formulas.
pub open spec fn expressions_view(v: Seq<(String, Expr)>) -> Seq<(Seq<char>, ExprView)> {
    Seq::new(v.len(), |i: int| (v[i].0@, v[i].1@))
}

impl View for SwissKnifeNode {
    type V = SwissKnifeView;

    closed spec fn view(&self) -> SwissKnifeView {
        SwissKnifeView {
            attr_base: self.attr_base,
            elem_base: self.elem_base@,
            kind: self.kind,
            p_variables: variables_view(self.p_variables@),
            constants: constants_view(self.constants@),
            expressions: expressions_view(self.expressions@),
            formula: self.formula@,
        }
    }
}

/// The names of a list of definitions.
pub open spec fn names_of<T>(definitions: Seq<(Seq<char>, T)>) -> Seq<Seq<char>> {
    Seq::new(definitions.len(), |i: int| definitions[i].0)
}

impl SwissKnifeView {
    /// Every name that the node defines: those of its variables, then those
    /// of its constants, then those of its intermediate formulas.
    pub open spec fn defined_names(self) -> Seq<Seq<char>> {
        names_of(self.p_variables) + names_of(self.constants) + names_of(self.expressions)
    }

    /// Whether the node defines no name twice.
    pub open spec fn names_unique(self) -> bool {
        self.defined_names().no_duplicates()
    }
}

/// The symbol table that holds `env` and then each variable with its value.
pub open spec fn with_variables(
    env: Bindings,
    variables: Seq<(Seq<char>, NodeId)>,
    values: Seq<Number>,
) -> Bindings {
    env + Seq::new(variables.len(), |i: int| (variables[i].0, values[i]))
}

/// The symbol table that holds `env` and then each intermediate formula from
/// `from` on with its value. A formula is evaluated under the table made so
/// far, so it can use what stands before it and nothing that comes after.
pub open spec fn with_expressions(
    env: Bindings,
    expressions: Seq<(Seq<char>, ExprView)>,
    from: int,
) -> Result<Bindings, EvalError>
    decreases expressions.len() - from,
{
    if 0 <= from < expressions.len() {
        match value_of(expressions[from].1, env) {
            Ok(v) => with_expressions(env.push((expressions[from].0, v)), expressions, from + 1),
            Err(e) => Err(e),
        }
    } else {
        Ok(env)
    }
}

/// A number as the kind of number that a node yields: an integer node
/// rounds a real toward zero, a real node promotes an integer.
pub open spec fn as_kind(kind: NumericKind, v: Number) -> Result<Number, EvalError> {
    match kind {
        NumericKind::Integer => match v.spec_to_integer() {
            Ok(i) => Ok(Number::Integer(i)),
            Err(e) => Err(e),
        },
        NumericKind::Real => Ok(Number::Real(v.scaled() as i128)),
    }
}

/// The value of a computed node, given the values of the nodes that its
/// variables stand for, in the order of the variables.
pub open spec fn knife_value(knife: SwissKnifeView, values: Seq<Number>) -> Result<
    Number,
    EvalError,
> {
    match with_expressions(
        with_variables(knife.constants, knife.p_variables, values),
        knife.expressions,
        0,
    ) {
        Ok(env) => match value_of(knife.formula, env) {
            Ok(v) => as_kind(knife.kind, v),
            Err(e) => Err(e),
        },
        Err(e) => Err(e),
    }
}

/// The number that the text of a constant denotes: the value of the text as
/// a formula without names.
pub open spec fn constant_of(text: Seq<char>) -> Option<Number> {
    match formula_of(text) {
        Ok(e) => match value_of(e, Seq::empty()) {
            Ok(n) => Some(n),
            Err(_) => None,
        },
        Err(_) => None,
    }
}

/// The variables that the `pVariable` children from `pos` on define, after
/// those in `found`.
pub open spec fn variables_from(
    children: Seq<Element>,
    pos: int,
    st: NodeStoreView,
    found: Seq<(Seq<char>, NodeId)>,
) -> Result<(Seq<(Seq<char>, NodeId)>, int, NodeStoreView), ParseError>
    decreases children.len() - pos,
{
    if child_has_tag(children, pos, "pVariable"@) {
        match attribute_value(children[pos].attributes@, "Name"@) {
            None => Err(ParseError::MissingAttribute),
            Some(name) => match interned_name(st, trimmed(children[pos].text@)) {
                Ok((id, after)) => variables_from(children, pos + 1, after, found.push((name, id))),
                Err(e) => Err(e),
            },
        }
    } else {
        Ok((found, pos, st))
    }
}

/// The constants that the `Constant` children from `pos` on define, after
/// those in `found`.
pub open spec fn constants_from(
    children: Seq<Element>,
    pos: int,
    found: Seq<(Seq<char>, Number)>,
) -> Result<(Seq<(Seq<char>, Number)>, int), ParseError>
    decreases children.len() - pos,
{
    if child_has_tag(children, pos, "Constant"@) {
        match attribute_value(children[pos].attributes@, "Name"@) {
            None => Err(ParseError::MissingAttribute),
            Some(name) => match constant_of(children[pos].text@) {
                Some(n) => constants_from(children, pos + 1, found.push((name, n))),
                None => Err(ParseError::InvalidValue),
            },
        }
    } else {
        Ok((found, pos))
    }
}

/// The intermediate formulas that the `Expression` children from `pos` on
/// define, after those in `found`.
pub open spec fn expressions_from(
    children: Seq<Element>,
    pos: int,
    found: Seq<(Seq<char>, ExprView)>,
) -> Result<(Seq<(Seq<char>, ExprView)>, int), ParseError>
    decreases children.len() - pos,
{
    if child_has_tag(children, pos, "Expression"@) {
        match attribute_value(children[pos].attributes@, "Name"@) {
            None => Err(ParseError::MissingAttribute),
            Some(name) => match formula_of(children[pos].text@) {
                Ok(e) => expressions_from(children, pos + 1, found.push((name, e))),
                Err(e) => Err(ParseError::InvalidFormula(e)),
            },
        }
    } else {
        Ok((found, pos))
    }
}

/// The kind of number that a computed node with the given tag yields.
pub open spec fn kind_of_tag(tag: Seq<char>) -> Option<NumericKind> {
    if tag == "IntSwissKnife"@ {
        Some(NumericKind::Integer)
    } else if tag == "SwissKnife"@ {
        Some(NumericKind::Real)
    } else {
        None
    }
}

/// The computed node that `elem` describes, and the store after interning
/// the names it refers to. After the descriptive children the element holds
/// its `pVariable` children, then its `Constant` children, then its
/// `Expression` children, then one `Formula` and nothing else.
pub open spec fn swiss_knife_of(elem: Element, st: NodeStoreView) -> Result<
    (SwissKnifeView, NodeStoreView),
    ParseError,
> {
    let children = elem.children@;
    match kind_of_tag(elem.tag@) {
        None => Err(ParseError::UnexpectedTag),
        Some(kind) => match attr_base_of(elem, st) {
            Err(e) => Err(e),
            Ok((attr_base, st1)) => match elem_base_of(children, 0) {
                Err(e) => Err(e),
                Ok((elem_base, at1)) => match variables_from(children, at1, st1, Seq::empty()) {
                    Err(e) => Err(e),
                    Ok((p_variables, at2, st2)) => match constants_from(
                        children,
                        at2,
                        Seq::empty(),
                    ) {
                        Err(e) => Err(e),
                        Ok((constants, at3)) => match expressions_from(
                            children,
                            at3,
                            Seq::empty(),
                        ) {
                            Err(e) => Err(e),
                            Ok((expressions, at4)) => if !child_has_tag(
                                children,
                                at4,
                                "Formula"@,
                            ) {
                                Err(ParseError::MissingElement)
                            } else {
                                match formula_of(children[at4].text@) {
                                    Err(e) => Err(ParseError::InvalidFormula(e)),
                                    Ok(formula) => {
                                        let knife = SwissKnifeView {
                                            attr_base,
                                            elem_base,
                                            kind,
                                            p_variables,
                                            constants,
                                            expressions,
                                            formula,
                                        };
                                        if at4 + 1 != children.len() {
                                            Err(ParseError::UnexpectedElement)
                                        } else if !knife.names_unique() {
                                            Err(ParseError::DuplicateName)
                                        } else {
                                            Ok((knife, st2))
                                        }
                                    },
                                }
                            },
                        },
                    },
                },
            },
        },
    }
}

impl SwissKnifeNode {
    /// The identity and description of the node.
    pub fn node_base(&self) -> (base: NodeBase)
        ensures
            base.attr_base() == self@.attr_base,
            base.elem_base() == self@.elem_base,
    {
        NodeBase::new(&self.attr_base, &self.elem_base)
    }

    /// The kind of number that the node yields.
    pub fn kind(&self) -> (kind: NumericKind)
        ensures
            kind == self@.kind,
    {
        self.kind
    }

    /// The number of variables.
    pub fn variable_count(&self) -> (n: usize)
        ensures
            n == self@.p_variables.len(),
    {
        self.p_variables.len()
    }

    /// The node that the variable at `i` stands for.
    pub fn variable_node(&self, i: usize) -> (id: NodeId)
        requires
            i < self@.p_variables.len(),
        ensures
            id == self@.p_variables[i as int].1,
    {
        self.p_variables[i].1
    }

    /// The name of the variable at `i`.
    pub fn variable_name(&self, i: usize) -> (name: &str)
        requires
            i < self@.p_variables.len(),
        ensures
            name@ == self@.p_variables[i as int].0,
    {
        self.p_variables[i].0.as_str()
    }

    /// The formula that gives the value of the node.
    pub fn formula(&self) -> (formula: &Expr)
        ensures
            formula@ == self@.formula,
    {
        &self.formula
    }
}

/// What three definitions and a fourth one after them give for their names,
/// where the names differ.
proof fn lemma_lookup_in_four(
    c: (Seq<char>, Number),
    a: (Seq<char>, Number),
    b: (Seq<char>, Number),
    e: (Seq<char>, Number),
)
    requires
        c.0 != a.0 && c.0 != b.0 && c.0 != e.0 && a.0 != b.0 && a.0 != e.0 && b.0 != e.0,
    ensures
        lookup(seq![c, a, b], c.0) == Some(c.1),
        lookup(seq![c, a, b].push(e), a.0) == Some(a.1),
        lookup(seq![c, a, b].push(e), b.0) == Some(b.1),
        lookup(seq![c, a, b].push(e), e.0) == Some(e.1),
{
    let three = seq![c, a, b];
    let four = three.push(e);
    assert(three.drop_last() =~= seq![c, a]);
    assert(seq![c, a].drop_last() =~= seq![c]);
    assert(four.drop_last() =~= three);
    assert(lookup(seq![c], c.0) == Some(c.1));
    assert(lookup(seq![c, a], c.0) == Some(c.1));
    assert(lookup(seq![c, a], a.0) == Some(a.1));
    assert(lookup(three, c.0) == Some(c.1));
    assert(lookup(three, a.0) == Some(a.1));
    assert(lookup(three, b.0) == Some(b.1));
}

/// The value of `2.0 * c` where `c` stands for the integer 10.
proof fn lemma_scaled_constant(env: Bindings, c: Seq<char>)
    requires
        lookup(env, c) == Some(Number::Integer(10)),
    ensures
        value_of(
            ExprView::Binary(
                BinaryOp::Mul,
                Box::new(ExprView::Literal(Number::Real(2_000_000_000))),
                Box::new(ExprView::Ident(c)),
            ),
            env,
        ) == Ok::<Number, EvalError>(Number::Real(20_000_000_000)),
{
    reveal_with_fuel(value_of, 2);
    let two = Number::Real(2_000_000_000);
    let ten = Number::Integer(10);
    assert(two.scaled() * ten.scaled() == 20_000_000_000_000_000_000int);
    assert(two.spec_times(ten) == Ok::<Number, EvalError>(Number::Real(20_000_000_000)));
}

/// The value of `a + b + e` where `a` and `b` stand for integers and `e`
/// for the real twenty.
proof fn lemma_sum_of_three(env: Bindings, a: Seq<char>, b: Seq<char>, e: Seq<char>, v1: i64, v2: i64)
    requires
        lookup(env, a) == Some(Number::Integer(v1)),
        lookup(env, b) == Some(Number::Integer(v2)),
        lookup(env, e) == Some(Number::Real(20_000_000_000)),
        fits_i64(v1 + v2),
    ensures
        value_of(
            ExprView::Binary(
                BinaryOp::Add,
                Box::new(
                    ExprView::Binary(
                        BinaryOp::Add,
                        Box::new(ExprView::Ident(a)),
                        Box::new(ExprView::Ident(b)),
                    ),
                ),
                Box::new(ExprView::Ident(e)),
            ),
            env,
        ) == Ok::<Number, EvalError>(Number::Real(((v1 + v2 + 20) * REAL_SCALE) as i128)),
{
    reveal_with_fuel(value_of, 3);
    let inner = ExprView::Binary(
        BinaryOp::Add,
        Box::new(ExprView::Ident(a)),
        Box::new(ExprView::Ident(b)),
    );
    let sum = Number::Integer((v1 + v2) as i64);
    assert(value_of(inner, env) == Ok::<Number, EvalError>(sum));
    let twenty = Number::Real(20_000_000_000);
    assert(sum.scaled() + twenty.scaled() == (v1 + v2 + 20) * REAL_SCALE);
    assert(sum.spec_plus(twenty) == Ok::<Number, EvalError>(
        Number::Real(((v1 + v2 + 20) * REAL_SCALE) as i128),
    ));
}

/// A node with the constant `c` = 10, the variables `a` and `b`, the
/// intermediate formula `e` = 2.0 * `c` and the formula `a` + `b` + `e`
/// yields the sum of the values of its two variables and twenty: as a real
/// if it is a real node, as an integer if it is an integer node.
pub proof fn lemma_sum_with_scaled_constant(
    knife: SwissKnifeView,
    c: Seq<char>,
    a: Seq<char>,
    b: Seq<char>,
    e: Seq<char>,
    v1: i64,
    v2: i64,
)
    requires
        c != a && c != b && c != e && a != b && a != e && b != e,
        knife.constants == seq![(c, Number::Integer(10))],
        knife.p_variables.len() == 2,
        knife.p_variables[0].0 == a,
        knife.p_variables[1].0 == b,
        knife.expressions == seq![
            (
                e,
                ExprView::Binary(
                    BinaryOp::Mul,
                    Box::new(ExprView::Literal(Number::Real(2_000_000_000))),
                    Box::new(ExprView::Ident(c)),
                ),
            ),
        ],
        knife.formula == ExprView::Binary(
            BinaryOp::Add,
            Box::new(
                ExprView::Binary(
                    BinaryOp::Add,
                    Box::new(ExprView::Ident(a)),
                    Box::new(ExprView::Ident(b)),
                ),
            ),
            Box::new(ExprView::Ident(e)),
        ),
        fits_i64(v1 + v2),
        fits_i64(v1 + v2 + 20),
    ensures
        knife_value(knife, seq![Number::Integer(v1), Number::Integer(v2)]) == Ok::<
            Number,
            EvalError,
        >(
            match knife.kind {
                NumericKind::Integer => Number::Integer((v1 + v2 + 20) as i64),
                NumericKind::Real => Number::Real(((v1 + v2 + 20) * REAL_SCALE) as i128),
            },
        ),
{
    let values = seq![Number::Integer(v1), Number::Integer(v2)];
    let env = with_variables(knife.constants, knife.p_variables, values);
    let twenty = Number::Real(20_000_000_000);
    let dc = (c, Number::Integer(10));
    let da = (a, Number::Integer(v1));
    let db = (b, Number::Integer(v2));
    let de = (e, twenty);
    assert(env =~= seq![dc, da, db]);
    lemma_lookup_in_four(dc, da, db, de);
    lemma_scaled_constant(env, c);
    let env2 = env.push(de);
    assert(with_expressions(env, knife.expressions, 0) == Ok::<Bindings, EvalError>(env2)) by {
        reveal_with_fuel(with_expressions, 2);
    }
    lemma_sum_of_three(env2, a, b, e, v1, v2);
    let total = Number::Real(((v1 + v2 + 20) * REAL_SCALE) as i128);
    assert(value_of(knife.formula, env2) == Ok::<Number, EvalError>(total));
    assert(total.spec_to_integer() == Ok::<i64, EvalError>((v1 + v2 + 20) as i64)) by {
        let s = (v1 + v2 + 20) * REAL_SCALE;
        assert(crate::number::trunc_div(s, REAL_SCALE as int) == v1 + v2 + 20);
    }
    assert(total.scaled() == (v1 + v2 + 20) * REAL_SCALE);
}

/// Reads the text of a constant.
fn read_constant(text: &str) -> (r: Option<Number>)
    ensures
        r == constant_of(text@),
{
    match parse_formula(text) {
        Ok(e) => {
            let env = SymbolTable::new();
            match e.evaluate(&env) {
                Ok(n) => Some(n),
                Err(_) => None,
            }
        },
        Err(_) => None,
    }
}

/// Whether no two of the given names are the same.
fn all_distinct(names: &Vec<&str>) -> (b: bool)
    ensures
        b == Seq::new(names@.len(), |i: int| names@[i]@).no_duplicates(),
{
    let ghost views = Seq::new(names@.len(), |i: int| names@[i]@);
    let mut i: usize = 0;
    while i < names.len()
        invariant
            i <= names.len(),
            views == Seq::new(names@.len(), |i: int| names@[i]@),
            forall|a: int, b: int| 0 <= a < b < names.len() && b < i ==> views[a] != views[b],
        decreases names.len() - i,
    {
        let mut j: usize = 0;
        while j < i
            invariant
                j <= i < names.len(),
                views == Seq::new(names@.len(), |i: int| names@[i]@),
                forall|a: int| 0 <= a < j ==> views[a] != views[i as int],
            decreases i - j,
        {
            if str_eq(names[j], names[i]) {
                assert(views[j as int] == views[i as int]);
                return false;
            }
            j = j + 1;
        }
        i = i + 1;
    }
    assert forall|a: int, b: int|
        0 <= a < views.len() && 0 <= b < views.len() && a != b implies views[a] != views[b] by {
        if a < b {
        } else {
            assert(views[b] != views[a]);
        }
    }
    true
}

impl SwissKnifeNode {
    /// Whether the node defines no name twice.
    #[verifier::loop_isolation(false)]
    fn has_unique_names(&self) -> (b: bool)
        ensures
            b == self@.names_unique(),
    {
        let mut names: Vec<&str> = Vec::new();
        let ghost vars = self@.p_variables;
        let ghost consts = self@.constants;
        let ghost exprs = self@.expressions;
        let mut i: usize = 0;
        while i < self.p_variables.len()
            invariant
                i <= self.p_variables.len(),
                names@.len() == i,
                forall|k: int| 0 <= k < i ==> (#[trigger] names@[k])@ == vars[k].0,
            decreases self.p_variables.len() - i,
        {
            names.push(self.p_variables[i].0.as_str());
            i = i + 1;
        }
        let mut i: usize = 0;
        while i < self.constants.len()
            invariant
                i <= self.constants.len(),
                names@.len() == vars.len() + i,
                forall|k: int| 0 <= k < vars.len() ==> (#[trigger] names@[k])@ == vars[k].0,
                forall|k: int| 0 <= k < i ==> (#[trigger] names@[vars.len() + k])@ == consts[k].0,
            decreases self.constants.len() - i,
        {
            names.push(self.constants[i].0.as_str());
            i = i + 1;
        }
        let mut i: usize = 0;
        while i < self.expressions.len()
            invariant
                i <= self.expressions.len(),
                names@.len() == vars.len() + consts.len() + i,
                forall|k: int| 0 <= k < vars.len() ==> (#[trigger] names@[k])@ == vars[k].0,
                forall|k: int|
                    0 <= k < consts.len() ==> (#[trigger] names@[vars.len() + k])@ == consts[k].0,
                forall|k: int|
                    0 <= k < i ==> (#[trigger] names@[vars.len() + consts.len() + k])@
                        == exprs[k].0,
            decreases self.expressions.len() - i,
        {
            names.push(self.expressions[i].0.as_str());
            i = i + 1;
        }
        proof {
            let listed = Seq::new(names@.len(), |k: int| names@[k]@);
            let defined = self@.defined_names();
            assert(listed.len() == defined.len());
            assert forall|k: int| 0 <= k < listed.len() implies listed[k] == defined[k] by {
                if k < vars.len() {
                    assert(names@[k]@ == vars[k].0);
                } else if k < vars.len() + consts.len() {
                    assert(names@[vars.len() + (k - vars.len())]@ == consts[k - vars.len()].0);
                } else {
                    let m = k - vars.len() - consts.len();
                    assert(names@[vars.len() + consts.len() + m]@ == exprs[m].0);
                }
            }
            assert(listed =~= defined);
        }
        all_distinct(&names)
    }

    /// The value of the node, given the values of the nodes that its
    /// variables stand for, in the order of the variables.
    #[verifier::loop_isolation(false)]
    pub fn evaluate(&self, values: &[Number]) -> (r: Result<Number, EvalError>)
        requires
            values@.len() == self@.p_variables.len(),
        ensures
            r == knife_value(self@, values@),
    {
        let mut env = SymbolTable::new();
        let mut i: usize = 0;
        while i < self.constants.len()
            invariant
                i <= self.constants.len(),
                env@ == constants_view(self.constants@).take(i as int),
            decreases self.constants.len() - i,
        {
            env.define(self.constants[i].0.clone(), self.constants[i].1);
            i = i + 1;
            assert(env@ =~= constants_view(self.constants@).take(i as int));
        }
        assert(constants_view(self.constants@).take(i as int) =~= self@.constants);
        let ghost bound = with_variables(self@.constants, self@.p_variables, values@);
        let mut i: usize = 0;
        while i < self.p_variables.len()
            invariant
                i <= self.p_variables.len(),
                values@.len() == self.p_variables@.len(),
                bound == with_variables(self@.constants, self@.p_variables, values@),
                env@ == bound.take(self@.constants.len() + i),
            decreases self.p_variables.len() - i,
        {
            env.define(self.p_variables[i].0.clone(), values[i]);
            i = i + 1;
            assert(env@ =~= bound.take(self@.constants.len() + i));
        }
        assert(bound.take(self@.constants.len() + i) =~= bound);
        let mut i: usize = 0;
        while i < self.expressions.len()
            invariant
                i <= self.expressions.len(),
                with_expressions(bound, self@.expressions, 0) == with_expressions(
                    env@,
                    self@.expressions,
                    i as int,
                ),
            decreases self.expressions.len() - i,
        {
            let v = match self.expressions[i].1.evaluate(&env) {
                Ok(v) => v,
                Err(e) => {
                    return Err(e);
                },
            };
            env.define(self.expressions[i].0.clone(), v);
            i = i + 1;
        }
        let v = match self.formula.evaluate(&env) {
            Ok(v) => v,
            Err(e) => {
                return Err(e);
            },
        };
        match self.kind {
            NumericKind::Integer => match v.to_integer() {
                Ok(i) => Ok(Number::Integer(i)),
                Err(e) => Err(e),
            },
            NumericKind::Real => Ok(Number::Real(v.to_scaled())),
        }
    }
}

impl Parse for SwissKnifeNode {
    open spec fn described(elem: Element, st: NodeStoreView) -> Result<
        (SwissKnifeView, NodeStoreView),
        ParseError,
    > {
        swiss_knife_of(elem, st)
    }

    /// Reads a computed node from its element.
    #[verifier::loop_isolation(false)]
    fn parse(elem: &Element, store: &mut NodeStore) -> (r: Result<SwissKnifeNode, ParseError>)
        ensures
            r matches Ok(node) ==> node@.names_unique() && final(store)@.id_of(node_name(*elem))
                == Some(node@.attr_base.id),
    {
        let kind = if elem.has_tag("IntSwissKnife") {
            NumericKind::Integer
        } else if elem.has_tag("SwissKnife") {
            NumericKind::Real
        } else {
            return Err(ParseError::UnexpectedTag);
        };
        let attr_base = match crate::node_base::NodeAttributeBase::parse(elem, store) {
            Ok(base) => base,
            Err(e) => {
                return Err(e);
            },
        };
        let (elem_base, at1) = match NodeElementBase::parse(elem, 0) {
            Ok(found) => found,
            Err(e) => {
                return Err(e);
            },
        };
        let ghost children = elem.children@;
        let ghost st1 = store@;
        let mut p_variables: Vec<(String, NodeId)> = Vec::new();
        let mut p: usize = at1;
        assert(variables_view(p_variables@) =~= Seq::empty());
        while elem.child_is(p, "pVariable")
            invariant
                store.wf(),
                store@.extends(old(store)@),
                store@.extends(st1),
                children == elem.children@,
                at1 <= p <= children.len(),
                variables_from(children, at1 as int, st1, Seq::empty()) == variables_from(
                    children,
                    p as int,
                    store@,
                    variables_view(p_variables@),
                ),
            decreases children.len() - p,
        {
            let child = &elem.children[p];
            let name = match child.attribute("Name") {
                Some(name) => name,
                None => {
                    return Err(ParseError::MissingAttribute);
                },
            };
            let id = match intern_name(store, child.trimmed_text()) {
                Ok(id) => id,
                Err(e) => {
                    return Err(e);
                },
            };
            let ghost before = variables_view(p_variables@);
            p_variables.push((name.to_owned(), id));
            assert(variables_view(p_variables@) =~= before.push((name@, id)));
            p = p + 1;
        }
        let at2 = p;
        let mut constants: Vec<(String, Number)> = Vec::new();
        assert(constants_view(constants@) =~= Seq::empty());
        while elem.child_is(p, "Constant")
            invariant
                children == elem.children@,
                at2 <= p <= children.len(),
                constants_from(children, at2 as int, Seq::empty()) == constants_from(
                    children,
                    p as int,
                    constants_view(constants@),
                ),
            decreases children.len() - p,
        {
            let child = &elem.children[p];
            let name = match child.attribute("Name") {
                Some(name) => name,
                None => {
                    return Err(ParseError::MissingAttribute);
                },
            };
            let n = match read_constant(child.text.as_str()) {
                Some(n) => n,
                None => {
                    return Err(ParseError::InvalidValue);
                },
            };
            let ghost before = constants_view(constants@);
            constants.push((name.to_owned(), n));
            assert(constants_view(constants@) =~= before.push((name@, n)));
            p = p + 1;
        }
        let at3 = p;
        let mut expressions: Vec<(String, Expr)> = Vec::new();
        assert(expressions_view(expressions@) =~= Seq::empty());
        while elem.child_is(p, "Expression")
            invariant
                children == elem.children@,
                at3 <= p <= children.len(),
                expressions_from(children, at3 as int, Seq::empty()) == expressions_from(
                    children,
                    p as int,
                    expressions_view(expressions@),
                ),
            decreases children.len() - p,
        {
            let child = &elem.children[p];
            let name = match child.attribute("Name") {
                Some(name) => name,
                None => {
                    return Err(ParseError::MissingAttribute);
                },
            };
            let e = match parse_formula(child.text.as_str()) {
                Ok(e) => e,
                Err(e) => {
                    return Err(ParseError::InvalidFormula(e));
                },
            };
            let ghost before = expressions_view(expressions@);
            let ghost ev = e@;
            expressions.push((name.to_owned(), e));
            assert(expressions_view(expressions@) =~= before.push((name@, ev)));
            p = p + 1;
        }
        if !elem.child_is(p, "Formula") {
            return Err(ParseError::MissingElement);
        }
        let formula = match parse_formula(elem.children[p].text.as_str()) {
            Ok(e) => e,
            Err(e) => {
                return Err(ParseError::InvalidFormula(e));
            },
        };
        let node = SwissKnifeNode {
            attr_base,
            elem_base,
            kind,
            p_variables,
            constants,
            expressions,
            formula,
        };
        if p + 1 != elem.children.len() {
            return Err(ParseError::UnexpectedElement);
        }
        if !node.has_unique_names() {
            return Err(ParseError::DuplicateName);
        }
        proof {
            lemma_id_kept(st1, store@, node_name(*elem));
        }
        Ok(node)
    }
}

} // verus!

//! Clue constraints: expression trees of disjunctions over element
//! references, and the deduction evaluator that derives forced states.

use vstd::prelude::*;
use vstd::seq_lib::*;

use crate::element::{ElementIdentifier, ElementState, Elements, ProcesResult};

verus! {

/// The boolean operators a clue can use.
#[derive(Debug, Clone, Copy, PartialEq, Eq, Hash)]
pub enum Ops {
    Or,
}

/// One token of a clue: an operator, a leaf referencing an element, or an
/// internal tree node. Flat token sequences (tokenizer output) never hold
/// tree nodes; those appear only once the tree builder has run.
#[derive(Debug, PartialEq, Eq, Hash)]
pub enum Token {
    Op(Ops),
    Element(ElementIdentifier),
    Tree(Ops, Box<Token>, Box<Token>),
}

/// A token guaranteed by construction to be a well-formed tree: a tree node
/// whose descendants are leaves or tree nodes, never bare operators.
#[derive(Debug, PartialEq, Eq, Hash)]
pub struct Constraint(Token);

/// The pre-check verdict on a clue: exactly one unresolved leaf (and which),
/// none, or too many to conclude anything.
#[derive(Debug, Clone, Copy, PartialEq, Eq)]
pub enum Solvable {
    Yes(ElementIdentifier),
    AlreadySolved,
    No,
}

/// The engine's verdict for the one unresolved leaf of a clue: a forced
/// state, or `Any` when the clue already holds regardless of that leaf.
#[derive(Debug, Clone, Copy, PartialEq, Eq)]
pub enum SolvedState {
    Confirmed,
    Dismissed,
    Any,
}

/// Whether a token may stand as an operand: anything but a bare operator.
pub open spec fn wf_operand(t: Token) -> bool
    decreases t,
{
    match t {
        Token::Op(_) => false,
        Token::Element(_) => true,
        Token::Tree(_, l, r) => wf_operand(*l) && wf_operand(*r),
    }
}

/// A well-formed constraint tree: a tree node all of whose descendants are
/// well-formed operands.
pub open spec fn wf_tree(t: Token) -> bool {
    &&& t matches Token::Tree(_, _, _)
    &&& wf_operand(t)
}

/// The element references of a token, left to right; tree nodes contribute
/// no entry of their own, bare operators none at all.
pub open spec fn leaf_ids(t: Token) -> Seq<ElementIdentifier>
    decreases t,
{
    match t {
        Token::Op(_) => Seq::empty(),
        Token::Element(id) => seq![id],
        Token::Tree(_, l, r) => leaf_ids(*l) + leaf_ids(*r),
    }
}

/// The flattened token sequence of a token: leaves of the left subtree, then
/// of the right, recursively.
pub open spec fn flatten_spec(t: Token) -> Seq<Token>
    decreases t,
{
    match t {
        Token::Tree(_, l, r) => flatten_spec(*l) + flatten_spec(*r),
        _ => seq![t],
    }
}

/// The identifiers of `ids` whose registry state is still `Unknown`.
pub open spec fn unknown_in(ids: Seq<ElementIdentifier>, e: Elements) -> Seq<ElementIdentifier> {
    ids.filter(|id: ElementIdentifier| e.spec_state(id) == ElementState::Unknown)
}

/// The leaves of `t` whose registry state is still `Unknown`, in order.
pub open spec fn unknown_leaves(t: Token, e: Elements) -> Seq<ElementIdentifier> {
    unknown_in(leaf_ids(t), e)
}

/// The pre-check verdict a tree and a registry snapshot determine: `No` with
/// two or more unresolved leaves, `AlreadySolved` with none, and otherwise
/// `Yes` naming the unique unresolved leaf.
pub open spec fn solvable_spec(t: Token, e: Elements) -> Solvable {
    let u = unknown_leaves(t, e);
    if u.len() == 0 {
        Solvable::AlreadySolved
    } else if u.len() == 1 {
        Solvable::Yes(u[0])
    } else {
        Solvable::No
    }
}

/// Strict disjunction semantics of a tree against the hypothetical snapshot
/// that fixes leaf `x` to `s` and keeps every other leaf at its recorded
/// state: a leaf is true iff its state resolves to `Confirmed`, a tree node
/// is the disjunction of its children.
pub open spec fn eval_with(t: Token, e: Elements, x: ElementIdentifier, s: ElementState) -> bool
    decreases t,
{
    match t {
        Token::Op(_) => false,
        Token::Element(id) => (if id == x {
            s
        } else {
            e.spec_state(id)
        }) == ElementState::Confirmed,
        Token::Tree(_, l, r) => eval_with(*l, e, x, s) || eval_with(*r, e, x, s),
    }
}

/// Deriving a verdict fixes the unique unresolved leaf in both hypotheses,
/// which is only possible when that leaf lies inside the registry; an
/// out-of-range leaf would stay `Unknown` under both.
pub open spec fn solve_safe(t: Token, e: Elements) -> bool {
    solvable_spec(t, e) matches Solvable::Yes(x) ==> e.in_range(x)
}

/// The verdict the two trial evaluations determine: `Any` when fixing the
/// leaf either way yields the same value, otherwise the state under which
/// the clue holds.
pub open spec fn verdict_spec(t: Token, e: Elements, x: ElementIdentifier) -> SolvedState {
    let tt = eval_with(t, e, x, ElementState::Confirmed);
    let ff = eval_with(t, e, x, ElementState::Dismissed);
    if tt == ff {
        SolvedState::Any
    } else if tt {
        SolvedState::Confirmed
    } else {
        SolvedState::Dismissed
    }
}

/// How an operator renders.
pub open spec fn render_op_spec(o: Ops) -> Seq<char> {
    seq!['|']
}

/// How a token renders: leaves as their identifier, trees as the left
/// subtree, the operator and the right subtree separated by spaces.
pub open spec fn render_token_spec(t: Token) -> Seq<char>
    decreases t,
{
    match t {
        Token::Op(o) => render_op_spec(o),
        Token::Element(id) => crate::element::render_id_spec(id),
        Token::Tree(o, l, r) => render_token_spec(*l) + seq![' '] + render_op_spec(o) + seq![' ']
            + render_token_spec(*r),
    }
}

impl Ops {
    /// Renders for display.
    pub fn render(&self) -> (s: String)
        ensures
            s@ == render_op_spec(*self),
    {
        proof {
            reveal_strlit("|");
            assert("|"@ =~= seq!['|']);
        }
        String::from_str("|")
    }
}

impl Clone for Token {
    fn clone(&self) -> (r: Self)
        ensures
            r == *self,
        decreases *self,
    {
        match self {
            Token::Op(o) => Token::Op(*o),
            Token::Element(id) => Token::Element(*id),
            Token::Tree(o, l, r) => Token::Tree(
                *o,
                Box::new((&**l).clone()),
                Box::new((&**r).clone()),
            ),
        }
    }
}

impl Token {
    /// Renders for display, e.g. `w1 | l3 | p5`.
    pub fn render(&self) -> (s: String)
        ensures
            s@ == render_token_spec(*self),
        decreases *self,
    {
        proof {
            reveal_strlit(" ");
            assert(" "@ =~= seq![' ']);
        }
        match self {
            Token::Op(op) => op.render(),
            Token::Element(id) => id.render(),
            Token::Tree(op, left, right) => {
                let mut s = left.render();
                s.append(" ");
                let o = op.render();
                s.append(o.as_str());
                s.append(" ");
                let r = right.render();
                s.append(r.as_str());
                s
            },
        }
    }

    /// The flattened view of this token, as references into it.
    pub fn flatten_tree(&self) -> (r: Vec<&Token>)
        ensures
            r@.len() == flatten_spec(*self).len(),
            forall|i: int| 0 <= i < r@.len() ==> *#[trigger] r@[i] == flatten_spec(*self)[i],
        decreases *self,
    {
        match self {
            Token::Tree(_, left, right) => {
                let mut out = left.flatten_tree();
                let mut rest = right.flatten_tree();
                out.append(&mut rest);
                out
            },
            x => {
                let mut out: Vec<&Token> = Vec::new();
                out.push(x);
                out
            },
        }
    }
}

/// Under well-formedness, the flattened token sequence is exactly the leaf
/// identifier sequence, wrapped as leaves.
proof fn lemma_flatten_leaves(t: Token)
    requires
        wf_operand(t),
    ensures
        flatten_spec(t).len() == leaf_ids(t).len(),
        forall|i: int|
            0 <= i < flatten_spec(t).len() ==> #[trigger] flatten_spec(t)[i] == Token::Element(
                leaf_ids(t)[i],
            ),
    decreases t,
{
    match t {
        Token::Tree(_, l, r) => {
            lemma_flatten_leaves(*l);
            lemma_flatten_leaves(*r);
        },
        _ => {},
    }
}

/// One scanning step: the unresolved leaves of a one-longer prefix.
proof fn lemma_unknown_in_step(ids: Seq<ElementIdentifier>, e: Elements, k: int)
    requires
        0 <= k < ids.len(),
    ensures
        unknown_in(ids.take(k + 1), e) == unknown_in(ids.take(k), e) + (if e.spec_state(ids[k])
            == ElementState::Unknown {
            seq![ids[k]]
        } else {
            Seq::<ElementIdentifier>::empty()
        }),
{
    broadcast use Seq::filter_distributes_over_add;

    reveal_with_fuel(Seq::<ElementIdentifier>::filter, 3);
    let single = seq![ids[k]];
    assert(ids.take(k + 1) =~= ids.take(k) + single);
    assert(single.drop_last() =~= Seq::<ElementIdentifier>::empty());
    assert(single.last() == ids[k]);
    if e.spec_state(ids[k]) == ElementState::Unknown {
        assert(unknown_in(single, e) =~= single);
    } else {
        assert(unknown_in(single, e) =~= Seq::<ElementIdentifier>::empty());
    }
    assert(unknown_in(ids.take(k) + single, e) == unknown_in(ids.take(k), e) + unknown_in(
        single,
        e,
    ));
}

/// Every unresolved leaf is a leaf.
proof fn lemma_unknown_in_subset(ids: Seq<ElementIdentifier>, e: Elements)
    ensures
        forall|x: ElementIdentifier| #[trigger] unknown_in(ids, e).contains(x) ==> ids.contains(x),
    decreases ids.len(),
{
    reveal(Seq::filter);
    if ids.len() > 0 {
        lemma_unknown_in_subset(ids.drop_last(), e);
        assert forall|x: ElementIdentifier| #[trigger]
            unknown_in(ids, e).contains(x) implies ids.contains(x) by {
            let u = unknown_in(ids, e);
            let j = choose|j: int| 0 <= j < u.len() && u[j] == x;
            if ids.last() == x {
                assert(ids[ids.len() - 1] == x);
            } else {
                assert(unknown_in(ids.drop_last(), e).contains(x));
                let m = choose|m: int| 0 <= m < ids.drop_last().len() && ids.drop_last()[m] == x;
                assert(ids[m] == x);
            }
        }
    }
}

/// Disjunction holds outright once the targeted leaf itself is confirmed.
proof fn lemma_eval_with_leaf_confirmed(t: Token, e: Elements, x: ElementIdentifier)
    requires
        leaf_ids(t).contains(x),
    ensures
        eval_with(t, e, x, ElementState::Confirmed),
    decreases t,
{
    match t {
        Token::Op(_) => {},
        Token::Element(_) => {},
        Token::Tree(_, l, r) => {
            let ids = leaf_ids(t);
            let ll = leaf_ids(*l);
            let lr = leaf_ids(*r);
            let j = choose|j: int| 0 <= j < ids.len() && ids[j] == x;
            if j < ll.len() {
                assert(ll[j] == x);
                assert(ll.contains(x));
                lemma_eval_with_leaf_confirmed(*l, e, x);
            } else {
                assert(lr[j - ll.len()] == x);
                assert(lr.contains(x));
                lemma_eval_with_leaf_confirmed(*r, e, x);
            }
        },
    }
}

/// When a clue still holds with a leaf `x` fixed `Dismissed` and every other
/// leaf at its recorded state, some leaf other than `x` is already recorded
/// `Confirmed`: the `Any` verdict never hides a forced value.
pub proof fn lemma_any_has_confirmed(t: Token, e: Elements, x: ElementIdentifier)
    requires
        eval_with(t, e, x, ElementState::Dismissed),
    ensures
        exists|i: int|
            0 <= i < leaf_ids(t).len() && leaf_ids(t)[i] != x && e.spec_state(
                #[trigger] leaf_ids(t)[i],
            ) == ElementState::Confirmed,
    decreases t,
{
    match t {
        Token::Op(_) => {},
        Token::Element(id) => {
            assert(leaf_ids(t)[0] == id);
        },
        Token::Tree(_, l, r) => {
            let ll = leaf_ids(*l);
            let lr = leaf_ids(*r);
            if eval_with(*l, e, x, ElementState::Dismissed) {
                lemma_any_has_confirmed(*l, e, x);
                let i = choose|i: int|
                    0 <= i < ll.len() && ll[i] != x && e.spec_state(ll[i])
                        == ElementState::Confirmed;
                assert(leaf_ids(t)[i] == ll[i]);
            } else {
                lemma_any_has_confirmed(*r, e, x);
                let i = choose|i: int|
                    0 <= i < lr.len() && lr[i] != x && e.spec_state(lr[i])
                        == ElementState::Confirmed;
                assert(leaf_ids(t)[ll.len() + i] == lr[i]);
            }
        },
    }
}

/// Trial evaluation of a tree against the hypothetical snapshot fixing
/// `target` to `forced`; every other leaf must already be fixed.
fn evaluate(token: &Token, elements: &Elements, target: &ElementIdentifier, forced: ElementState) -> (r:
    bool)
    requires
        wf_operand(*token),
        forced != ElementState::Unknown,
        forall|i: int|
            0 <= i < leaf_ids(*token).len() && #[trigger] leaf_ids(*token)[i] != *target
                ==> elements.spec_state(leaf_ids(*token)[i]) != ElementState::Unknown,
    ensures
        r == eval_with(*token, *elements, *target, forced),
    decreases *token,
{
    match token {
        Token::Tree(op, a, b) => {
            proof {
                let la = leaf_ids(**a);
                let lb = leaf_ids(**b);
                assert forall|i: int|
                    0 <= i < la.len() && #[trigger] la[i] != *target implies elements.spec_state(
                    la[i],
                ) != ElementState::Unknown by {
                    assert(leaf_ids(*token)[i] == la[i]);
                }
                assert forall|i: int|
                    0 <= i < lb.len() && #[trigger] lb[i] != *target implies elements.spec_state(
                    lb[i],
                ) != ElementState::Unknown by {
                    assert(leaf_ids(*token)[la.len() + i] == lb[i]);
                }
            }
            let ra = evaluate(a, elements, target, forced);
            let rb = evaluate(b, elements, target, forced);
            match op {
                Ops::Or => ra || rb,
            }
        },
        Token::Element(id) => {
            let state = if *id == *target {
                forced
            } else {
                elements.get_state(id)
            };
            proof {
                assert(leaf_ids(*token)[0] == *id);
            }
            match state {
                ElementState::Confirmed => true,
                ElementState::Dismissed => false,
                ElementState::Unknown => vstd::pervasive::unreached(),
            }
        },
        Token::Op(_) => vstd::pervasive::unreached(),
    }
}

impl Constraint {
    /// The underlying expression tree.
    pub closed spec fn view(self) -> Token {
        self.0
    }

    #[verifier::type_invariant]
    pub closed spec fn wf(self) -> bool {
        wf_tree(self.0)
    }

    pub(crate) fn from_tree(t: Token) -> (c: Constraint)
        requires
            wf_tree(t),
        ensures
            c@ == t,
    {
        Constraint(t)
    }

    /// A borrow of the underlying expression tree.
    pub fn tree(&self) -> (t: &Token)
        ensures
            *t == self@,
    {
        &self.0
    }

    /// Renders for display, e.g. `w1 | l3 | p5`.
    pub fn render(&self) -> (s: String)
        ensures
            s@ == render_token_spec(self@),
    {
        self.0.render()
    }

    /// Parses a clue string such as `w1 | l3 | p5` into a constraint:
    /// tokenize, then fold into a tree.
    pub fn parse(raw: &str) -> (r: Result<Constraint, ProcesResult>)
        ensures
            match r {
                Ok(c) => {
                    &&& crate::tokenize::tokenize_spec(raw@) matches Ok(ts)
                    &&& crate::tree::valid_form(ts)
                    &&& c@ == crate::tree::fold_tokens(ts)
                },
                Err(e) => {
                    ||| crate::tokenize::tokenize_spec(raw@) == Err::<Seq<Token>, ProcesResult>(e)
                    ||| (crate::tokenize::tokenize_spec(raw@) matches Ok(ts)
                        && !crate::tree::valid_form(ts) && e == ProcesResult::InvalidConstraint)
                },
            },
    {
        let tokens = match crate::tokenize::tokenize(raw) {
            Ok(v) => v,
            Err(e) => {
                return Err(e);
            },
        };
        let tree = match crate::tree::parse(tokens) {
            Ok(c) => c,
            Err(e) => {
                return Err(e);
            },
        };
        Ok(tree)
    }

    /// Walks the flattened leaves and classifies the clue: `No` as soon as a
    /// second unresolved leaf turns up, `AlreadySolved` with none, and
    /// otherwise `Yes` naming the single unresolved leaf.
    pub fn solveable(&self, elements: &Elements) -> (r: Solvable)
        ensures
            r == solvable_spec(self@, *elements),
            r is No <==> unknown_leaves(self@, *elements).len() >= 2,
            r is AlreadySolved <==> unknown_leaves(self@, *elements).len() == 0,
            r matches Solvable::Yes(id) ==> unknown_leaves(self@, *elements).len() == 1
                && unknown_leaves(self@, *elements)[0] == id,
    {
        proof {
            use_type_invariant(self);
            lemma_flatten_leaves(self@);
        }
        let ghost lids = leaf_ids(self@);
        let flat = self.0.flatten_tree();
        let mut missing: Option<ElementIdentifier> = None;
        let mut k: usize = 0;

        proof {
            assert(lids.take(0) =~= Seq::<ElementIdentifier>::empty());
            reveal(Seq::filter);
        }
        while k < flat.len()
            invariant
                k <= flat.len(),
                lids == leaf_ids(self@),
                wf_operand(self@),
                flat@.len() == lids.len(),
                forall|i: int|
                    0 <= i < flat@.len() ==> *#[trigger] flat@[i] == Token::Element(lids[i]),
                unknown_in(lids.take(k as int), *elements) == match missing {
                    None => Seq::<ElementIdentifier>::empty(),
                    Some(id) => seq![id],
                },
            decreases flat@.len() - k,
        {
            proof {
                lemma_unknown_in_step(lids, *elements, k as int);
            }
            match flat[k] {
                Token::Element(id) => {
                    if elements.get_state(id) == ElementState::Unknown {
                        if missing.is_some() {
                            proof {
                                broadcast use Seq::filter_distributes_over_add;

                                assert(lids =~= lids.take(k + 1 as int) + lids.skip(k + 1 as int));
                                assert(unknown_in(lids, *elements).len() >= unknown_in(
                                    lids.take(k + 1 as int),
                                    *elements,
                                ).len());
                            }
                            return Solvable::No;
                        }
                        missing = Some(*id);
                    }
                },
                _ => {},
            }
            k += 1;
        }

        proof {
            assert(lids.take(flat@.len() as int) =~= lids);
        }
        match missing {
            Some(x) => Solvable::Yes(x),
            None => Solvable::AlreadySolved,
        }
    }

    /// Derives the forced state of the unique unresolved leaf by trial
    /// evaluation: the whole tree is evaluated once with that leaf fixed
    /// `Confirmed` and once fixed `Dismissed`, and the pair of outcomes
    /// decides the verdict. Any other pre-check outcome is propagated as the
    /// error.
    pub fn solve(&self, elements: &Elements) -> (r: Result<
        (ElementIdentifier, SolvedState),
        Solvable,
    >)
        requires
            solve_safe(self@, *elements),
        ensures
            match r {
                Err(v) => v == solvable_spec(self@, *elements) && !(v matches Solvable::Yes(_)),
                Ok((x, st)) => {
                    let tt = eval_with(self@, *elements, x, ElementState::Confirmed);
                    let ff = eval_with(self@, *elements, x, ElementState::Dismissed);
                    &&& solvable_spec(self@, *elements) == Solvable::Yes(x)
                    &&& tt
                    &&& (st == SolvedState::Confirmed <==> tt && !ff)
                    &&& (st == SolvedState::Dismissed <==> !tt && ff)
                    &&& (st == SolvedState::Any <==> tt && ff)
                    &&& st == verdict_spec(self@, *elements, x)
                },
            },
    {
        proof {
            use_type_invariant(self);
        }
        let solve_for = match self.solveable(elements) {
            Solvable::Yes(x) => x,
            x => {
                return Err(x);
            },
        };

        proof {
            broadcast use vstd::seq_lib::group_filter_ensures;

            let lids = leaf_ids(self@);
            let u = unknown_leaves(self@, *elements);
            lemma_unknown_in_subset(lids, *elements);
            assert(u.contains(u[0]));
            assert(lids.contains(solve_for));
            assert forall|i: int|
                0 <= i < lids.len() && #[trigger] lids[i] != solve_for implies elements.spec_state(
                lids[i],
            ) != ElementState::Unknown by {
                if elements.spec_state(lids[i]) == ElementState::Unknown {
                    assert(u.contains(lids[i]));
                    let j = choose|j: int| 0 <= j < u.len() && u[j] == lids[i];
                }
            }
            lemma_eval_with_leaf_confirmed(self@, *elements, solve_for);
        }

        let tt = evaluate(&self.0, elements, &solve_for, ElementState::Confirmed);
        let ff = evaluate(&self.0, elements, &solve_for, ElementState::Dismissed);

        let verdict = if tt && !ff {
            SolvedState::Confirmed
        } else if !tt && ff {
            SolvedState::Dismissed
        } else if tt && ff {
            SolvedState::Any
        } else {
            vstd::pervasive::unreached()
        };
        Ok((solve_for, verdict))
    }
}

impl Clone for Constraint {
    fn clone(&self) -> (r: Self)
        ensures
            r == *self,
    {
        proof {
            use_type_invariant(self);
        }
        Constraint(self.0.clone())
    }
}

} // verus!

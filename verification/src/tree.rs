//! The tree builder: folds a flat token sequence into a strictly binary,
//! left-associated expression tree.

use vstd::prelude::*;

use crate::constraints::{leaf_ids, wf_operand, Constraint, Ops, Token};
use crate::element::ProcesResult;

verus! {

/// Whether a token may appear at an operand position of a flat sequence.
pub open spec fn is_operand(t: Token) -> bool {
    !(t matches Token::Op(_))
}

/// A buildable token sequence: operands at even positions, operators at odd
/// ones, starting and ending with an operand, with at least one operator.
pub open spec fn valid_form(ts: Seq<Token>) -> bool {
    &&& ts.len() >= 3
    &&& ts.len() % 2 == 1
    &&& forall|i: int|
        0 <= i < ts.len() ==> (if i % 2 == 0 {
            is_operand(#[trigger] ts[i])
        } else {
            ts[i] matches Token::Op(_)
        })
}

/// The operator a token carries, defaulting to disjunction.
pub open spec fn op_code(t: Token) -> Ops {
    match t {
        Token::Op(o) => o,
        _ => Ops::Or,
    }
}

/// The left-associated fold of a token sequence: `a | b | c` builds as
/// `(a | b) | c`. Meaningful only on sequences in `valid_form`.
pub open spec fn fold_tokens(ts: Seq<Token>) -> Token
    decreases ts.len(),
{
    if ts.len() == 0 {
        Token::Op(Ops::Or)
    } else if ts.len() == 1 {
        ts[0]
    } else {
        Token::Tree(
            op_code(ts[ts.len() - 2]),
            Box::new(fold_tokens(ts.take(ts.len() - 2))),
            Box::new(ts[ts.len() - 1]),
        )
    }
}

/// A sequence of one token (or none) is never buildable: a constraint needs
/// at least one operator between two operands.
pub proof fn lemma_single_leaf_invalid(ts: Seq<Token>)
    requires
        ts.len() <= 1,
    ensures
        !valid_form(ts),
{
}

/// Building keeps the leaves in their original left-to-right order,
/// whatever the associativity of the fold: on a sequence of element leaves
/// at even positions, the built tree flattens back to exactly those leaves.
pub proof fn lemma_fold_leaf_order(ts: Seq<Token>)
    requires
        ts.len() % 2 == 1,
        forall|i: int|
            0 <= i < ts.len() && i % 2 == 0 ==> #[trigger] ts[i] matches Token::Element(_),
    ensures
        leaf_ids(fold_tokens(ts)) == Seq::new(
            ((ts.len() + 1) / 2) as nat,
            |k: int| ts[2 * k]->Element_0,
        ),
    decreases ts.len(),
{
    let want = Seq::new(((ts.len() + 1) / 2) as nat, |k: int| ts[2 * k]->Element_0);
    if ts.len() == 1 {
        assert(leaf_ids(fold_tokens(ts)) =~= want);
    } else {
        let head = ts.take(ts.len() - 2);
        lemma_fold_leaf_order(head);
        let prev = Seq::new(((head.len() + 1) / 2) as nat, |k: int| head[2 * k]->Element_0);
        assert(ts[ts.len() - 1] matches Token::Element(_));
        assert(fold_tokens(ts) matches Token::Tree(o, l, r) && *l == fold_tokens(head) && *r == ts[
            ts.len() - 1]);
        assert(leaf_ids(ts[ts.len() - 1]) =~= seq![ts[ts.len() - 1]->Element_0]);
        assert(leaf_ids(fold_tokens(ts)) == prev + leaf_ids(ts[ts.len() - 1]));
        assert(leaf_ids(fold_tokens(ts)) =~= want);
    }
}

/// Folds a flat token sequence into a constraint.
///
/// Scanning left to right, each operator must have an operand on both
/// sides; a dangling operator, an empty or single-token sequence, or
/// adjacent operands reject the whole sequence as an invalid constraint.
pub fn parse(tokens: Vec<Token>) -> (r: Result<Constraint, ProcesResult>)
    requires
        forall|i: int| 0 <= i < tokens@.len() ==> !(#[trigger] tokens@[i] matches Token::Tree(_, _, _)),
    ensures
        match r {
            Ok(c) => valid_form(tokens@) && c@ == fold_tokens(tokens@),
            Err(e) => !valid_form(tokens@) && e == ProcesResult::InvalidConstraint,
        },
{
    if tokens.len() <= 1 {
        return Err(ProcesResult::InvalidConstraint);
    }

    let first = &tokens[0];
    if matches!(first, Token::Op(_)) {
        return Err(ProcesResult::InvalidConstraint);
    }

    let mut acc = tokens[0].clone();
    let mut i: usize = 1;
    proof {
        assert(tokens@.take(1) =~= seq![tokens@[0]]);
    }

    while i < tokens.len()
        invariant
            1 <= i <= tokens@.len(),
            i % 2 == 1,
            tokens@.len() >= 2,
            forall|k: int|
                0 <= k < tokens@.len() ==> !(#[trigger] tokens@[k] matches Token::Tree(_, _, _)),
            forall|k: int|
                0 <= k < i && k < tokens@.len() ==> (if k % 2 == 0 {
                    is_operand(#[trigger] tokens@[k])
                } else {
                    tokens@[k] matches Token::Op(_)
                }),
            acc == fold_tokens(tokens@.take(i as int)),
            wf_operand(acc),
            i >= 3 ==> acc matches Token::Tree(_, _, _),
        decreases tokens@.len() - i,
    {
        let op = match &tokens[i] {
            Token::Op(o) => *o,
            _ => {
                return Err(ProcesResult::InvalidConstraint);
            },
        };
        if i + 1 >= tokens.len() {
            proof {
                assert(tokens@.len() == i + 1);
                assert(tokens@.len() % 2 == 0);
            }
            return Err(ProcesResult::InvalidConstraint);
        }
        let operand = match &tokens[i + 1] {
            Token::Op(_) => {
                return Err(ProcesResult::InvalidConstraint);
            },
            t => t.clone(),
        };
        proof {
            assert(tokens@[i + 1 as int] matches Token::Element(_));
            assert(tokens@.take(i + 2 as int).take(i as int) =~= tokens@.take(i as int));
            assert(tokens@.take(i + 2 as int)[i as int] == tokens@[i as int]);
            assert(tokens@.take(i + 2 as int)[i + 1 as int] == tokens@[i + 1 as int]);
        }
        let next = Token::Tree(op, Box::new(acc), Box::new(operand));
        proof {
            assert(next matches Token::Tree(o, l, r) && wf_operand(*l) && wf_operand(*r));
        }
        acc = next;
        i += 2;
    }

    proof {
        assert(i == tokens@.len());
        assert(tokens@.take(i as int) =~= tokens@);
        assert(valid_form(tokens@));
    }
    Ok(Constraint::from_tree(acc))
}

} // verus!

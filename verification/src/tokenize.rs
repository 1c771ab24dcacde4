//! The tokenizer: turns a clue string into a flat sequence of element
//! leaves and disjunction operators.

use vstd::prelude::*;

use crate::constraints::{Ops, Token};
use crate::element::{section_letter, ElementIdentifier, ProcesResult};
use crate::scan::{digit_run, digits_value, is_space, is_space_char, parse_digit_run, sat_sub_one};

verus! {

/// The leaf token an operand substring denotes: its first character selects
/// the category, the following digit run gives the 1-based index (clamped to
/// zero after the off-by-one shift; anything after the digits is ignored).
pub open spec fn leaf_of(w: Seq<char>) -> Result<Token, ProcesResult>
    recommends
        w.len() > 0,
{
    match section_letter(w[0]) {
        None => Err(ProcesResult::InvalidSection),
        Some(t) => {
            let run = digit_run(w.skip(1));
            if run.len() == 0 || digits_value(run) > usize::MAX {
                Err(ProcesResult::InvalidIndex)
            } else {
                Ok(
                    Token::Element(
                        ElementIdentifier {
                            element_type: t,
                            index: sat_sub_one(digits_value(run)) as usize,
                        },
                    ),
                )
            }
        },
    }
}

/// The tokens an accumulated operand substring flushes into: none when it is
/// empty, otherwise its single leaf.
pub open spec fn flush_spec(w: Seq<char>) -> Result<Seq<Token>, ProcesResult> {
    if w.len() == 0 {
        Ok(Seq::empty())
    } else {
        match leaf_of(w) {
            Ok(t) => Ok(seq![t]),
            Err(e) => Err(e),
        }
    }
}

/// What tokenizing yields on the rest of the input `s`, given the operand
/// characters accumulated so far (`working`) and the tokens already emitted
/// (`out`): whitespace is skipped, `|` flushes the operand and emits an
/// operator, every other character extends the operand.
pub open spec fn tokenize_rec(s: Seq<char>, working: Seq<char>, out: Seq<Token>) -> Result<
    Seq<Token>,
    ProcesResult,
>
    decreases s.len(),
{
    if s.len() == 0 {
        match flush_spec(working) {
            Ok(ts) => Ok(out + ts),
            Err(e) => Err(e),
        }
    } else if is_space_char(s[0]) {
        tokenize_rec(s.skip(1), working, out)
    } else if s[0] == '|' {
        match flush_spec(working) {
            Ok(ts) => tokenize_rec(s.skip(1), Seq::empty(), out + ts + seq![Token::Op(Ops::Or)]),
            Err(e) => Err(e),
        }
    } else {
        tokenize_rec(s.skip(1), working.push(s[0]), out)
    }
}

/// The token sequence a clue string denotes, or the reason it is rejected.
pub open spec fn tokenize_spec(s: Seq<char>) -> Result<Seq<Token>, ProcesResult> {
    tokenize_rec(s, Seq::empty(), Seq::empty())
}

struct TokenizeContext {
    out: Vec<Token>,
    working: Vec<char>,
}

impl TokenizeContext {
    fn new() -> (ctx: Self)
        ensures
            ctx.out@ == Seq::<Token>::empty(),
            ctx.working@ == Seq::<char>::empty(),
    {
        Self { out: Vec::new(), working: Vec::new() }
    }

    fn flush(&mut self) -> (r: Result<(), ProcesResult>)
        ensures
            match r {
                Ok(_) => {
                    &&& flush_spec(old(self).working@) matches Ok(ts) && final(self).out@ == old(
                        self,
                    ).out@ + ts
                    &&& final(self).working@ == Seq::<char>::empty()
                },
                Err(e) => flush_spec(old(self).working@) == Err::<Seq<Token>, ProcesResult>(e)
                    && *final(self) == *old(self),
            },
    {
        if self.working.len() == 0 {
            proof {
                assert(self.out@ =~= self.out@ + Seq::<Token>::empty());
            }
            return Ok(());
        }

        let c0 = self.working[0];
        let element_type = if c0 == 'w' {
            crate::element::ElementType::Weapon
        } else if c0 == 'l' {
            crate::element::ElementType::Location
        } else if c0 == 'p' {
            crate::element::ElementType::Person
        } else {
            return Err(ProcesResult::InvalidSection);
        };

        let (_, parsed) = parse_digit_run(&self.working, 1);
        let index = match parsed {
            Some(x) => x.saturating_sub(1),
            None => return Err(ProcesResult::InvalidIndex),
        };

        self.working.clear();
        let t = Token::Element(ElementIdentifier { element_type, index });
        proof {
            assert(flush_spec(old(self).working@) == Ok::<Seq<Token>, ProcesResult>(seq![t]));
            assert(self.out@.push(t) =~= self.out@ + seq![t]);
        }
        self.out.push(t);
        Ok(())
    }

    fn operator(&mut self, op: Ops) -> (r: Result<(), ProcesResult>)
        ensures
            match r {
                Ok(_) => {
                    &&& flush_spec(old(self).working@) matches Ok(ts) && final(self).out@ == old(
                        self,
                    ).out@ + ts + seq![Token::Op(op)]
                    &&& final(self).working@ == Seq::<char>::empty()
                },
                Err(e) => flush_spec(old(self).working@) == Err::<Seq<Token>, ProcesResult>(e)
                    && *final(self) == *old(self),
            },
    {
        let r = self.flush();
        match r {
            Ok(_) => {},
            Err(e) => return Err(e),
        }
        proof {
            assert(self.out@.push(Token::Op(op)) =~= self.out@ + seq![Token::Op(op)]);
        }
        self.out.push(Token::Op(op));
        Ok(())
    }
}

/// Tokenizes a clue string such as `w1 | l3 | p5`.
pub fn tokenize(raw: &str) -> (r: Result<Vec<Token>, ProcesResult>)
    ensures
        match r {
            Ok(v) => tokenize_spec(raw@) == Ok::<Seq<Token>, ProcesResult>(v@) && forall|i: int|
                0 <= i < v@.len() ==> !(#[trigger] v@[i] matches Token::Tree(_, _, _)),
            Err(e) => tokenize_spec(raw@) == Err::<Seq<Token>, ProcesResult>(e),
        },
{
    let mut ctx = TokenizeContext::new();
    let n = raw.unicode_len();
    let mut i: usize = 0;

    proof {
        assert(raw@.skip(0) =~= raw@);
    }
    while i < n
        invariant
            n == raw@.len(),
            i <= n,
            tokenize_rec(raw@.skip(i as int), ctx.working@, ctx.out@) == tokenize_spec(raw@),
            forall|k: int|
                0 <= k < ctx.out@.len() ==> !(#[trigger] ctx.out@[k] matches Token::Tree(_, _, _)),
        decreases n - i,
    {
        let c = raw.get_char(i);
        proof {
            assert(raw@.skip(i as int)[0] == raw@[i as int]);
            assert(raw@.skip(i as int).skip(1) =~= raw@.skip(i + 1 as int));
        }
        if is_space(c) {
            // skipped
        } else if c == '|' {
            match ctx.operator(Ops::Or) {
                Ok(_) => {},
                Err(e) => {
                    return Err(e);
                },
            }
        } else {
            ctx.working.push(c);
        }
        i += 1;
    }

    proof {
        assert(raw@.skip(n as int) =~= Seq::<char>::empty());
    }
    match ctx.flush() {
        Ok(_) => Ok(ctx.out),
        Err(e) => Err(e),
    }
}

} // verus!

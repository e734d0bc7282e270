//! The operand stack: stack-manipulation primitives and the binary operator
//! library with its coercion rules.

use vstd::prelude::*;

use crate::utils::i64_to_string;
use crate::utils::most_generic_model;
use crate::utils::ordinal;
use crate::utils::plain_text;
use crate::utils::repeat_str;
use crate::utils::repeat_text;
use crate::utils::str_eq;
use crate::utils::ErrorModel;
use crate::utils::EvalError;
use crate::utils::Token;
use crate::utils::TokenModel;

verus! {

// ---------------------------------------------------------------------------
// Stack primitives
// ---------------------------------------------------------------------------
/// `DROP`: the stack with its top element removed.
pub open spec fn drop_model(s: Seq<TokenModel>) -> Result<Seq<TokenModel>, ErrorModel> {
    if s.len() >= 1 {
        Ok(s.drop_last())
    } else {
        Err(ErrorModel::StackUnderflow)
    }
}

/// `DROP`: removes the top element.
pub fn drop(stack: &mut Vec<Token>) -> (r: Result<(), EvalError>)
    ensures
        match r {
            Ok(_) => drop_model(old(stack).deep_view()) == Ok::<_, ErrorModel>(final(stack).deep_view()),
            Err(e) => drop_model(old(stack).deep_view()) == Err::<Seq<TokenModel>, _>(e@)
                && final(stack).deep_view() == old(stack).deep_view(),
        },
{
    if stack.len() == 0 {
        return Err(EvalError::StackUnderflow);
    }
    let _ = stack.pop();
    proof {
        assert(stack.deep_view() =~= old(stack).deep_view().drop_last());
    }
    Ok(())
}

/// `DUP`: the stack with a copy of its top element pushed.
pub open spec fn dup_model(s: Seq<TokenModel>) -> Result<Seq<TokenModel>, ErrorModel> {
    if s.len() >= 1 {
        Ok(s.push(s.last()))
    } else {
        Err(ErrorModel::StackUnderflow)
    }
}

/// `DUP`: pushes a copy of the top element.
pub fn dup(stack: &mut Vec<Token>) -> (r: Result<(), EvalError>)
    ensures
        match r {
            Ok(_) => dup_model(old(stack).deep_view()) == Ok::<_, ErrorModel>(final(stack).deep_view()),
            Err(e) => dup_model(old(stack).deep_view()) == Err::<Seq<TokenModel>, _>(e@)
                && final(stack).deep_view() == old(stack).deep_view(),
        },
{
    if stack.len() == 0 {
        return Err(EvalError::StackUnderflow);
    }
    let t = stack[stack.len() - 1].clone();
    stack.push(t);
    proof {
        assert(stack.deep_view() =~= old(stack).deep_view().push(
            old(stack).deep_view().last(),
        ));
    }
    Ok(())
}

/// `SWAP`: the stack with its two topmost elements exchanged.
pub open spec fn swap_model(s: Seq<TokenModel>) -> Result<Seq<TokenModel>, ErrorModel> {
    if s.len() >= 2 {
        Ok(s.take(s.len() - 2).push(s.last()).push(s[s.len() - 2]))
    } else {
        Err(ErrorModel::StackUnderflow)
    }
}

/// `SWAP`: exchanges the two topmost elements.
pub fn swap(stack: &mut Vec<Token>) -> (r: Result<(), EvalError>)
    ensures
        match r {
            Ok(_) => swap_model(old(stack).deep_view()) == Ok::<_, ErrorModel>(final(stack).deep_view()),
            Err(e) => swap_model(old(stack).deep_view()) == Err::<Seq<TokenModel>, _>(e@)
                && final(stack).deep_view() == old(stack).deep_view(),
        },
{
    if stack.len() < 2 {
        return Err(EvalError::StackUnderflow);
    }
    let b = stack.pop().unwrap();
    let a = stack.pop().unwrap();
    stack.push(b);
    stack.push(a);
    proof {
        assert(stack.deep_view() =~= old(stack).deep_view().take(
            old(stack).deep_view().len() - 2,
        ).push(old(stack).deep_view().last()).push(
            old(stack).deep_view()[old(stack).deep_view().len() - 2],
        ));
    }
    Ok(())
}

/// Left-rotation of the top `n` elements: the `n`-th element from the top is
/// removed and re-pushed as the new top.  A rotation wider than the stack is
/// an underflow; rotating zero elements leaves the stack unchanged.
pub open spec fn rot_model(s: Seq<TokenModel>, n: int) -> Result<Seq<TokenModel>, ErrorModel> {
    if n > s.len() {
        Err(ErrorModel::StackUnderflow)
    } else if n == 0 {
        Ok(s)
    } else {
        Ok(s.take(s.len() - n) + s.skip(s.len() - n + 1) + seq![s[s.len() - n]])
    }
}

/// `ROT` and the rotation core of `ROLL`: left-rotates the top `num_to_rot`
/// elements.
pub fn rot(stack: &mut Vec<Token>, num_to_rot: usize) -> (r: Result<(), EvalError>)
    ensures
        match r {
            Ok(_) => rot_model(old(stack).deep_view(), num_to_rot as int) == Ok::<
                _,
                ErrorModel,
            >(final(stack).deep_view()),
            Err(e) => rot_model(old(stack).deep_view(), num_to_rot as int) == Err::<
                Seq<TokenModel>,
                _,
            >(e@) && final(stack).deep_view() == old(stack).deep_view(),
        },
{
    if num_to_rot > stack.len() {
        return Err(EvalError::StackUnderflow);
    }
    if num_to_rot == 0 {
        return Ok(());
    }
    let t = stack.remove(stack.len() - num_to_rot);
    stack.push(t);
    proof {
        let s0 = old(stack).deep_view();
        let p = s0.len() - num_to_rot;
        assert(stack.deep_view() =~= s0.take(p) + s0.skip(p + 1) + seq![s0[p]]);
    }
    Ok(())
}

/// `ROLL`: pops the top element as a non-negative integer count `n`, then
/// left-rotates the top `n` elements of the remaining stack.  The whole
/// stack, count included, must hold at least four elements.
pub open spec fn rol_model(s: Seq<TokenModel>) -> Result<Seq<TokenModel>, ErrorModel> {
    if s.len() < 4 {
        Err(ErrorModel::StackUnderflow)
    } else if !(s.last() is Int) {
        Err(ErrorModel::TypeMismatch)
    } else {
        let n = s.last()->Int_0;
        if n < 0 {
            Err(ErrorModel::NegativeRepeatCount)
        } else {
            rot_model(s.drop_last(), n)
        }
    }
}

/// `ROLL`: pops a count `n` and left-rotates the top `n` remaining elements.
pub fn rol(stack: &mut Vec<Token>) -> (r: Result<(), EvalError>)
    ensures
        match r {
            Ok(_) => rol_model(old(stack).deep_view()) == Ok::<_, ErrorModel>(final(stack).deep_view()),
            Err(e) => rol_model(old(stack).deep_view()) == Err::<Seq<TokenModel>, _>(e@)
                && final(stack).deep_view() == old(stack).deep_view(),
        },
{
    if stack.len() < 4 {
        return Err(EvalError::StackUnderflow);
    }
    let n: i64 = match &stack[stack.len() - 1] {
        Token::Int(i) => *i,
        _ => {
            return Err(EvalError::TypeMismatch);
        },
    };
    if n < 0 {
        return Err(EvalError::NegativeRepeatCount);
    }
    if (n as u64) > (stack.len() as u64) - 1 {
        return Err(EvalError::StackUnderflow);
    }
    let _ = stack.pop();
    proof {
        assert(stack.deep_view() =~= old(stack).deep_view().drop_last());
    }
    let r = rot(stack, n as usize);
    proof {
        assert(r is Ok);
    }
    r
}

/// `ROLLD`: pops the top element as a non-negative integer count `n`, then
/// right-rotates the top `n` elements of the remaining stack — the top
/// element moves down to position `n` from the top.
pub open spec fn rold_model(s: Seq<TokenModel>) -> Result<Seq<TokenModel>, ErrorModel> {
    if s.len() < 4 {
        Err(ErrorModel::StackUnderflow)
    } else if !(s.last() is Int) {
        Err(ErrorModel::TypeMismatch)
    } else {
        let n = s.last()->Int_0;
        if n < 0 {
            Err(ErrorModel::NegativeRepeatCount)
        } else {
            let rest = s.drop_last();
            if n > rest.len() {
                Err(ErrorModel::StackUnderflow)
            } else if n == 0 {
                Ok(rest)
            } else {
                let body = rest.drop_last();
                let p = rest.len() - n;
                Ok(body.take(p) + seq![rest.last()] + body.skip(p))
            }
        }
    }
}

/// `ROLLD`: pops a count `n` and right-rotates the top `n` remaining
/// elements.
pub fn rold(stack: &mut Vec<Token>) -> (r: Result<(), EvalError>)
    ensures
        match r {
            Ok(_) => rold_model(old(stack).deep_view()) == Ok::<_, ErrorModel>(final(stack).deep_view()),
            Err(e) => rold_model(old(stack).deep_view()) == Err::<Seq<TokenModel>, _>(e@)
                && final(stack).deep_view() == old(stack).deep_view(),
        },
{
    if stack.len() < 4 {
        return Err(EvalError::StackUnderflow);
    }
    let n: i64 = match &stack[stack.len() - 1] {
        Token::Int(i) => *i,
        _ => {
            return Err(EvalError::TypeMismatch);
        },
    };
    if n < 0 {
        return Err(EvalError::NegativeRepeatCount);
    }
    if (n as u64) > (stack.len() as u64) - 1 {
        return Err(EvalError::StackUnderflow);
    }
    let _ = stack.pop();
    proof {
        assert(stack.deep_view() =~= old(stack).deep_view().drop_last());
    }
    if n == 0 {
        return Ok(());
    }
    let t = stack.pop().unwrap();
    let at = stack.len() + 1 - (n as usize);
    stack.insert(at, t);
    proof {
        let rest = old(stack).deep_view().drop_last();
        let body = rest.drop_last();
        let p = rest.len() - n;
        assert(stack.deep_view() =~= body.take(p) + seq![rest.last()] + body.skip(p));
    }
    Ok(())
}

/// `IFELSE`: pops a boolean condition; of the two elements below it, keeps
/// the lower one when the condition is true and the upper one otherwise.
pub open spec fn ifelse_model(s: Seq<TokenModel>) -> Result<Seq<TokenModel>, ErrorModel> {
    if s.len() < 3 {
        Err(ErrorModel::StackUnderflow)
    } else if !(s.last() is Bool) {
        Err(ErrorModel::TypeMismatch)
    } else {
        let c = s.last()->Bool_0;
        Ok(
            s.take(s.len() - 3).push(
                if c {
                    s[s.len() - 3]
                } else {
                    s[s.len() - 2]
                },
            ),
        )
    }
}

/// `IFELSE`: selects one of the two values below the popped boolean
/// condition.
pub fn ifelse(stack: &mut Vec<Token>) -> (r: Result<(), EvalError>)
    ensures
        match r {
            Ok(_) => ifelse_model(old(stack).deep_view()) == Ok::<_, ErrorModel>(final(stack).deep_view()),
            Err(e) => ifelse_model(old(stack).deep_view()) == Err::<Seq<TokenModel>, _>(e@)
                && final(stack).deep_view() == old(stack).deep_view(),
        },
{
    if stack.len() < 3 {
        return Err(EvalError::StackUnderflow);
    }
    let c: bool = match &stack[stack.len() - 1] {
        Token::Bool(b) => *b,
        _ => {
            return Err(EvalError::TypeMismatch);
        },
    };
    let _ = stack.pop();
    let b = stack.pop().unwrap();
    let a = stack.pop().unwrap();
    stack.push(
        if c {
            a
        } else {
            b
        },
    );
    proof {
        let s0 = old(stack).deep_view();
        assert(stack.deep_view() =~= s0.take(s0.len() - 3).push(
            if c {
                s0[s0.len() - 3]
            } else {
                s0[s0.len() - 2]
            },
        ));
    }
    Ok(())
}

// ---------------------------------------------------------------------------
// Binary operator outcomes
// ---------------------------------------------------------------------------
/// A float arithmetic operation delegated to the embedder.
#[derive(Clone, Copy, Debug, PartialEq, Eq, Structural)]
pub enum ArithOp {
    Add,
    Sub,
    Mul,
    Div,
    Rem,
    Pow,
}

/// A float comparison delegated to the embedder.
#[derive(Clone, Copy, Debug, PartialEq, Eq, Structural)]
pub enum CmpRel {
    Eq,
    Ne,
    Lt,
    Gt,
    Le,
    Ge,
}

/// A numeric operand of a float-branch operation: an integer still to be
/// widened, or float bits.
#[derive(Clone, Copy, Debug, PartialEq, Eq, Structural)]
pub enum NumOperand {
    IntVal(i64),
    FloatBits(u64),
}

/// A text operand of a string-branch operation: ready text, or float bits
/// still to be rendered.
#[derive(Debug, PartialEq, Eq)]
pub enum TextOperand {
    Ready(String),
    FloatBits(u64),
}

/// The mathematical value of a [`TextOperand`].
#[verifier::ext_equal]
pub enum TextModel {
    Ready(Seq<char>),
    FloatBits(u64),
}

impl View for TextOperand {
    type V = TextModel;

    open spec fn view(&self) -> TextModel {
        match self {
            TextOperand::Ready(s) => TextModel::Ready(s@),
            TextOperand::FloatBits(b) => TextModel::FloatBits(*b),
        }
    }
}

impl DeepView for TextOperand {
    type V = TextModel;

    open spec fn deep_view(&self) -> TextModel {
        self.view()
    }
}

/// What a binary operator decided: a finished value to push, or an operation
/// on floats that the embedder must carry out.
#[derive(Debug, PartialEq, Eq)]
pub enum BinOutcome {
    Value(Token),
    FloatArith(ArithOp, NumOperand, NumOperand),
    FloatCompare(CmpRel, NumOperand, NumOperand),
    StrJoin(TextOperand, TextOperand),
    StrCompare(bool, TextOperand, TextOperand),
}

/// The mathematical value of a [`BinOutcome`].
#[verifier::ext_equal]
pub enum OutcomeModel {
    Value(TokenModel),
    FloatArith(ArithOp, NumOperand, NumOperand),
    FloatCompare(CmpRel, NumOperand, NumOperand),
    StrJoin(TextModel, TextModel),
    StrCompare(bool, TextModel, TextModel),
}

impl View for BinOutcome {
    type V = OutcomeModel;

    open spec fn view(&self) -> OutcomeModel {
        match self {
            BinOutcome::Value(t) => OutcomeModel::Value(t@),
            BinOutcome::FloatArith(op, a, b) => OutcomeModel::FloatArith(*op, *a, *b),
            BinOutcome::FloatCompare(rel, a, b) => OutcomeModel::FloatCompare(*rel, *a, *b),
            BinOutcome::StrJoin(a, b) => OutcomeModel::StrJoin(a@, b@),
            BinOutcome::StrCompare(neg, a, b) => OutcomeModel::StrCompare(*neg, a@, b@),
        }
    }
}

impl DeepView for BinOutcome {
    type V = OutcomeModel;

    open spec fn deep_view(&self) -> OutcomeModel {
        self.view()
    }
}

// ---------------------------------------------------------------------------
// Spec helpers
// ---------------------------------------------------------------------------
/// Whether `v` fits the 64-bit signed range.
pub open spec fn fits_i64(v: int) -> bool {
    i64::MIN <= v <= i64::MAX
}

/// The integer payload of an `Int` value.
pub open spec fn as_int(t: TokenModel) -> int {
    match t {
        TokenModel::Int(i) => i,
        _ => 0,
    }
}

/// The boolean payload of a `Bool` value.
pub open spec fn as_bool(t: TokenModel) -> bool {
    match t {
        TokenModel::Bool(b) => b,
        _ => false,
    }
}

/// The text payload of a `Str` value.
pub open spec fn as_text(t: TokenModel) -> Seq<char> {
    match t {
        TokenModel::Str(s) => s,
        _ => Seq::empty(),
    }
}

/// A numeric value as a float-branch operand.
pub open spec fn num_operand(t: TokenModel) -> NumOperand {
    match t {
        TokenModel::Int(i) => NumOperand::IntVal(i as i64),
        TokenModel::Float(b) => NumOperand::FloatBits(b),
        _ => NumOperand::IntVal(0),
    }
}

/// A value as a string-branch operand: its plain text, or its float bits.
pub open spec fn text_operand(t: TokenModel) -> TextModel {
    match t {
        TokenModel::Float(b) => TextModel::FloatBits(b),
        _ => TextModel::Ready(plain_text(t)),
    }
}

/// Whether these are the bits of an IEEE-754 double equal to zero (positive
/// or negative zero).
pub open spec fn float_zero_bits(x: u64) -> bool {
    x == 0 || x == 0x8000_0000_0000_0000
}

/// Whether a float-branch divisor is zero: the integer zero (which widens to
/// zero) or zero float bits.
pub open spec fn is_zero_num(n: NumOperand) -> bool {
    match n {
        NumOperand::IntVal(i) => i == 0,
        NumOperand::FloatBits(x) => float_zero_bits(x),
    }
}

/// Whether the executable result `r` denotes the model result `m`.
pub open spec fn matches_bin(
    r: Result<BinOutcome, EvalError>,
    m: Result<OutcomeModel, ErrorModel>,
) -> bool {
    match r {
        Ok(o) => m == Ok::<OutcomeModel, ErrorModel>(o@),
        Err(e) => m == Err::<OutcomeModel, ErrorModel>(e@),
    }
}

fn to_num_operand(t: &Token) -> (r: NumOperand)
    ensures
        (t@ is Int || t@ is Float) ==> r == num_operand(t@),
{
    match t {
        Token::Int(i) => NumOperand::IntVal(*i),
        Token::Float(b) => NumOperand::FloatBits(*b),
        _ => NumOperand::IntVal(0),
    }
}

fn to_text_operand(t: Token) -> (r: TextOperand)
    ensures
        r@ == text_operand(t@),
{
    match t {
        Token::Int(i) => TextOperand::Ready(i64_to_string(i)),
        Token::Float(b) => TextOperand::FloatBits(b),
        Token::Str(s) => TextOperand::Ready(s),
        Token::Bool(b) => {
            if b {
                TextOperand::Ready(String::from_str("true"))
            } else {
                TextOperand::Ready(String::from_str("false"))
            }
        },
    }
}

/// A string-branch join: finished text when both sides are ready, else a
/// delegated join.
pub open spec fn join_out(a: TextModel, b: TextModel) -> OutcomeModel {
    match (a, b) {
        (TextModel::Ready(x), TextModel::Ready(y)) => OutcomeModel::Value(TokenModel::Str(x + y)),
        _ => OutcomeModel::StrJoin(a, b),
    }
}

fn join_outcome(a: TextOperand, b: TextOperand) -> (r: BinOutcome)
    ensures
        r@ == join_out(a@, b@),
{
    match (a, b) {
        (TextOperand::Ready(x), TextOperand::Ready(y)) => BinOutcome::Value(
            Token::Str(x.concat(y.as_str())),
        ),
        (a2, b2) => BinOutcome::StrJoin(a2, b2),
    }
}

/// A string-branch equality: a finished boolean when both sides are ready,
/// else a delegated comparison (`neg` selects inequality).
pub open spec fn str_cmp_out(neg: bool, a: TextModel, b: TextModel) -> OutcomeModel {
    match (a, b) {
        (TextModel::Ready(x), TextModel::Ready(y)) => OutcomeModel::Value(
            TokenModel::Bool((x == y) != neg),
        ),
        _ => OutcomeModel::StrCompare(neg, a, b),
    }
}

fn str_cmp_outcome(neg: bool, a: TextOperand, b: TextOperand) -> (r: BinOutcome)
    ensures
        r@ == str_cmp_out(neg, a@, b@),
{
    match (a, b) {
        (TextOperand::Ready(x), TextOperand::Ready(y)) => {
            let eq = str_eq(x.as_str(), y.as_str());
            BinOutcome::Value(Token::Bool(eq != neg))
        },
        (a2, b2) => BinOutcome::StrCompare(neg, a2, b2),
    }
}

// ---------------------------------------------------------------------------
// Integer exponentiation
// ---------------------------------------------------------------------------
/// The magnitude of an integer.
pub open spec fn abs_int(x: int) -> int {
    if x < 0 {
        -x
    } else {
        x
    }
}

/// `base` raised to the `e`-th power.
pub open spec fn pow_nat(base: int, e: nat) -> int
    decreases e,
{
    if e == 0 {
        1
    } else {
        pow_nat(base, (e - 1) as nat) * base
    }
}

proof fn lemma_pow_split(a: int, e: nat)
    ensures
        pow_nat(abs_int(a), e) >= 0,
        pow_nat(a, e) == (if a < 0 && e % 2 == 1 {
            -pow_nat(abs_int(a), e)
        } else {
            pow_nat(abs_int(a), e)
        }),
    decreases e,
{
    if e > 0 {
        lemma_pow_split(a, (e - 1) as nat);
        let p1 = pow_nat(a, (e - 1) as nat);
        let q1 = pow_nat(abs_int(a), (e - 1) as nat);
        let m = abs_int(a);
        assert(q1 * m >= 0) by (nonlinear_arith)
            requires
                q1 >= 0,
                m >= 0,
        ;
        if a < 0 {
            if (e - 1) % 2 == 1 {
                assert(p1 * a == q1 * m) by (nonlinear_arith)
                    requires
                        p1 == -q1,
                        m == -a,
                ;
            } else {
                assert(p1 * a == -(q1 * m)) by (nonlinear_arith)
                    requires
                        p1 == q1,
                        m == -a,
                ;
            }
        }
    }
}

/// Raises `a` to the power `e` with overflow detection: `None` exactly when
/// the true power does not fit the 64-bit signed range.
fn exp_int(a: i64, e: u32) -> (r: Option<i64>)
    ensures
        match r {
            Some(v) => fits_i64(pow_nat(a as int, e as nat)) && v as int == pow_nat(
                a as int,
                e as nat,
            ),
            None => !fits_i64(pow_nat(a as int, e as nat)),
        },
{
    if a == 0 {
        if e == 0 {
            return Some(1);
        }
        proof {
            assert(pow_nat(0, e as nat) == pow_nat(0, (e - 1) as nat) * 0);
        }
        return Some(0);
    }
    let mag_a: u128 = if a < 0 {
        (-(a as i128)) as u128
    } else {
        a as u128
    };
    proof {
        assert(mag_a as int == abs_int(a as int));
    }
    let mut m: u128 = 1;
    let mut i: u32 = 0;
    while i < e
        invariant
            i <= e,
            a != 0,
            mag_a as int == abs_int(a as int),
            1 <= mag_a <= 0x8000_0000_0000_0000,
            m <= 0x8000_0000_0000_0001,
            ({
                let p = pow_nat(mag_a as int, i as nat);
                if p <= 0x8000_0000_0000_0000 {
                    m as int == p
                } else {
                    m == 0x8000_0000_0000_0001u128 && p > 0x8000_0000_0000_0000
                }
            }),
        decreases e - i,
    {
        let ghost p = pow_nat(mag_a as int, i as nat);
        proof {
            assert(pow_nat(mag_a as int, (i + 1) as nat) == p * mag_a);
            assert(p >= 1) by {
                lemma_pow_split(mag_a as int, i as nat);
                assert(abs_int(mag_a as int) == mag_a as int);
                if p < 1 {
                    assert(pow_nat(mag_a as int, i as nat) >= 0);
                    if p == 0 {
                        lemma_pow_nonzero(mag_a as int, i as nat);
                    }
                }
            };
        }
        if m > 0x8000_0000_0000_0000 {
            // The magnitude has already left the representable range and can
            // only grow: the power cannot fit.
            proof {
                lemma_pow_mono(mag_a as int, i as nat, e as nat);
                lemma_pow_split(a as int, e as nat);
            }
            return None;
        } else {
            proof {
                assert(m * mag_a <= 0x8000_0000_0000_0000u128 * 0x8000_0000_0000_0000u128)
                    by (nonlinear_arith)
                    requires
                        m <= 0x8000_0000_0000_0000u128,
                        mag_a <= 0x8000_0000_0000_0000u128,
                ;
            }
            m = m * mag_a;
            if m > 0x8000_0000_0000_0000 {
                m = 0x8000_0000_0000_0001;
            }
        }
        i = i + 1;
    }
    let ghost pabs = pow_nat(mag_a as int, e as nat);
    proof {
        lemma_pow_split(a as int, e as nat);
        assert(abs_int(a as int) == mag_a as int);
    }
    let neg = a < 0 && e % 2 == 1;
    if neg {
        if m > 0x8000_0000_0000_0000 {
            None
        } else if m == 0x8000_0000_0000_0000 {
            Some(i64::MIN)
        } else {
            Some(-(m as i64))
        }
    } else {
        if m >= 0x8000_0000_0000_0000 {
            None
        } else {
            Some(m as i64)
        }
    }
}

proof fn lemma_pow_mono(base: int, i: nat, j: nat)
    requires
        base >= 1,
        i <= j,
    ensures
        pow_nat(base, i) <= pow_nat(base, j),
    decreases j - i,
{
    if i < j {
        lemma_pow_mono(base, i, (j - 1) as nat);
        lemma_pow_nonzero(base, (j - 1) as nat);
        assert(pow_nat(base, (j - 1) as nat) * base >= pow_nat(base, (j - 1) as nat))
            by (nonlinear_arith)
            requires
                base >= 1,
                pow_nat(base, (j - 1) as nat) >= 1,
        ;
    }
}

proof fn lemma_pow_nonzero(base: int, e: nat)
    requires
        base >= 1,
    ensures
        pow_nat(base, e) >= 1,
    decreases e,
{
    if e > 0 {
        lemma_pow_nonzero(base, (e - 1) as nat);
        assert(pow_nat(base, (e - 1) as nat) * base >= pow_nat(base, (e - 1) as nat))
            by (nonlinear_arith)
            requires
                base >= 1,
                pow_nat(base, (e - 1) as nat) >= 1,
        ;
    }
}

// ---------------------------------------------------------------------------
// Truncated signed division and remainder
// ---------------------------------------------------------------------------
/// Division truncated toward zero, as 64-bit signed division behaves.
pub open spec fn trunc_div(x: int, d: int) -> int {
    if x == 0 {
        0
    } else if x > 0 && d > 0 {
        x / d
    } else if x < 0 && d < 0 {
        (x * -1) / (d * -1)
    } else if x < 0 {
        ((x * -1) / d) * -1
    } else {
        (x / (d * -1)) * -1
    }
}

/// Remainder of truncated division: its sign follows the dividend.
pub open spec fn trunc_rem(x: int, d: int) -> int {
    if x == 0 {
        0
    } else if x > 0 && d > 0 {
        x % d
    } else if x < 0 && d < 0 {
        ((x * -1) % (d * -1)) * -1
    } else if x < 0 {
        ((x * -1) % d) * -1
    } else {
        x % (d * -1)
    }
}

// ---------------------------------------------------------------------------
// The binary operators
// ---------------------------------------------------------------------------
/// `+`: integer or float addition; the string branch concatenates, after
/// stringifying a non-string operand; the boolean branch is invalid.
pub open spec fn add_model(a: TokenModel, b: TokenModel) -> Result<OutcomeModel, ErrorModel> {
    let o = ordinal(most_generic_model(a, b));
    if o == 1 {
        if fits_i64(as_int(a) + as_int(b)) {
            Ok(OutcomeModel::Value(TokenModel::Int(as_int(a) + as_int(b))))
        } else {
            Err(ErrorModel::Overflow)
        }
    } else if o == 2 {
        Ok(OutcomeModel::FloatArith(ArithOp::Add, num_operand(a), num_operand(b)))
    } else if o == 3 {
        Ok(join_out(text_operand(a), text_operand(b)))
    } else {
        Err(ErrorModel::TypeMismatch)
    }
}

/// `+` on two popped operands.
pub fn add(first: Token, second: Token) -> (r: Result<BinOutcome, EvalError>)
    ensures
        matches_bin(r, add_model(first@, second@)),
{
    match (first, second) {
        (Token::Int(x), Token::Int(y)) => match x.checked_add(y) {
            Some(v) => Ok(BinOutcome::Value(Token::Int(v))),
            None => Err(EvalError::Overflow),
        },
        (Token::Bool(_), _) => Err(EvalError::TypeMismatch),
        (_, Token::Bool(_)) => Err(EvalError::TypeMismatch),
        (Token::Str(x), b) => Ok(join_outcome(TextOperand::Ready(x), to_text_operand(b))),
        (a, Token::Str(y)) => Ok(join_outcome(to_text_operand(a), TextOperand::Ready(y))),
        (a, b) => Ok(
            BinOutcome::FloatArith(ArithOp::Add, to_num_operand(&a), to_num_operand(&b)),
        ),
    }
}

/// `-`: integer or float subtraction; string and boolean branches are
/// invalid.
pub open spec fn sub_model(a: TokenModel, b: TokenModel) -> Result<OutcomeModel, ErrorModel> {
    let o = ordinal(most_generic_model(a, b));
    if o == 1 {
        if fits_i64(as_int(a) - as_int(b)) {
            Ok(OutcomeModel::Value(TokenModel::Int(as_int(a) - as_int(b))))
        } else {
            Err(ErrorModel::Overflow)
        }
    } else if o == 2 {
        Ok(OutcomeModel::FloatArith(ArithOp::Sub, num_operand(a), num_operand(b)))
    } else {
        Err(ErrorModel::TypeMismatch)
    }
}

/// `-` on two popped operands.
pub fn sub(first: Token, second: Token) -> (r: Result<BinOutcome, EvalError>)
    ensures
        matches_bin(r, sub_model(first@, second@)),
{
    match (first, second) {
        (Token::Int(x), Token::Int(y)) => match x.checked_sub(y) {
            Some(v) => Ok(BinOutcome::Value(Token::Int(v))),
            None => Err(EvalError::Overflow),
        },
        (a, b) => {
            let num = matches!(a, Token::Int(_) | Token::Float(_)) && matches!(
                b,
                Token::Int(_) | Token::Float(_),
            );
            if num {
                Ok(BinOutcome::FloatArith(ArithOp::Sub, to_num_operand(&a), to_num_operand(&b)))
            } else {
                Err(EvalError::TypeMismatch)
            }
        },
    }
}

/// `*`: integer or float multiplication; the string branch repeats the
/// string by the integer count, rejecting a negative count; the boolean
/// branch is invalid.
pub open spec fn mul_model(a: TokenModel, b: TokenModel) -> Result<OutcomeModel, ErrorModel> {
    let o = ordinal(most_generic_model(a, b));
    if o == 1 {
        if fits_i64(as_int(a) * as_int(b)) {
            Ok(OutcomeModel::Value(TokenModel::Int(as_int(a) * as_int(b))))
        } else {
            Err(ErrorModel::Overflow)
        }
    } else if o == 2 {
        Ok(OutcomeModel::FloatArith(ArithOp::Mul, num_operand(a), num_operand(b)))
    } else if o == 3 {
        if a is Str && b is Int {
            if as_int(b) < 0 {
                Err(ErrorModel::NegativeRepeatCount)
            } else {
                Ok(OutcomeModel::Value(TokenModel::Str(repeat_text(as_text(a), as_int(b) as nat))))
            }
        } else {
            Err(ErrorModel::TypeMismatch)
        }
    } else {
        Err(ErrorModel::TypeMismatch)
    }
}

/// `*` on two popped operands.
pub fn mul(first: Token, second: Token) -> (r: Result<BinOutcome, EvalError>)
    ensures
        matches_bin(r, mul_model(first@, second@)),
{
    match (first, second) {
        (Token::Int(x), Token::Int(y)) => match x.checked_mul(y) {
            Some(v) => Ok(BinOutcome::Value(Token::Int(v))),
            None => Err(EvalError::Overflow),
        },
        (Token::Bool(_), _) => Err(EvalError::TypeMismatch),
        (_, Token::Bool(_)) => Err(EvalError::TypeMismatch),
        (Token::Str(sa), Token::Int(n)) => {
            if n < 0 {
                Err(EvalError::NegativeRepeatCount)
            } else {
                Ok(BinOutcome::Value(Token::Str(repeat_str(sa.as_str(), n as u64))))
            }
        },
        (Token::Str(_), _) => Err(EvalError::TypeMismatch),
        (_, Token::Str(_)) => Err(EvalError::TypeMismatch),
        (a, b) => Ok(
            BinOutcome::FloatArith(ArithOp::Mul, to_num_operand(&a), to_num_operand(&b)),
        ),
    }
}

fn num_is_zero(n: NumOperand) -> (r: bool)
    ensures
        r == is_zero_num(n),
{
    match n {
        NumOperand::IntVal(i) => i == 0,
        NumOperand::FloatBits(x) => x == 0 || x == 0x8000_0000_0000_0000,
    }
}

/// `/`: integer or float division, failing on a zero divisor; string and
/// boolean branches are invalid.
pub open spec fn div_model(a: TokenModel, b: TokenModel) -> Result<OutcomeModel, ErrorModel> {
    let o = ordinal(most_generic_model(a, b));
    if o == 1 {
        if as_int(b) == 0 {
            Err(ErrorModel::DivideByZero)
        } else {
            let q = trunc_div(as_int(a), as_int(b));
            if fits_i64(q) {
                Ok(OutcomeModel::Value(TokenModel::Int(q)))
            } else {
                Err(ErrorModel::Overflow)
            }
        }
    } else if o == 2 {
        if is_zero_num(num_operand(b)) {
            Err(ErrorModel::DivideByZero)
        } else {
            Ok(OutcomeModel::FloatArith(ArithOp::Div, num_operand(a), num_operand(b)))
        }
    } else {
        Err(ErrorModel::TypeMismatch)
    }
}

/// `/` on two popped operands.
pub fn div(first: Token, second: Token) -> (r: Result<BinOutcome, EvalError>)
    ensures
        matches_bin(r, div_model(first@, second@)),
{
    match (first, second) {
        (Token::Int(x), Token::Int(y)) => {
            if y == 0 {
                Err(EvalError::DivideByZero)
            } else {
                match x.checked_div(y) {
                    Some(v) => Ok(BinOutcome::Value(Token::Int(v))),
                    None => Err(EvalError::Overflow),
                }
            }
        },
        (Token::Bool(_), _) => Err(EvalError::TypeMismatch),
        (_, Token::Bool(_)) => Err(EvalError::TypeMismatch),
        (Token::Str(_), _) => Err(EvalError::TypeMismatch),
        (_, Token::Str(_)) => Err(EvalError::TypeMismatch),
        (a, b) => {
            let nb = to_num_operand(&b);
            if num_is_zero(nb) {
                Err(EvalError::DivideByZero)
            } else {
                Ok(BinOutcome::FloatArith(ArithOp::Div, to_num_operand(&a), nb))
            }
        },
    }
}

/// `%`: remainder of truncated integer division, or float remainder,
/// failing on a zero divisor; string and boolean branches are invalid.
pub open spec fn modu_model(a: TokenModel, b: TokenModel) -> Result<OutcomeModel, ErrorModel> {
    let o = ordinal(most_generic_model(a, b));
    if o == 1 {
        if as_int(b) == 0 {
            Err(ErrorModel::DivideByZero)
        } else if as_int(a) == i64::MIN && as_int(b) == -1 {
            Err(ErrorModel::Overflow)
        } else {
            let q = trunc_rem(as_int(a), as_int(b));
            if fits_i64(q) {
                Ok(OutcomeModel::Value(TokenModel::Int(q)))
            } else {
                Err(ErrorModel::Overflow)
            }
        }
    } else if o == 2 {
        if is_zero_num(num_operand(b)) {
            Err(ErrorModel::DivideByZero)
        } else {
            Ok(OutcomeModel::FloatArith(ArithOp::Rem, num_operand(a), num_operand(b)))
        }
    } else {
        Err(ErrorModel::TypeMismatch)
    }
}

/// `%` on two popped operands.
pub fn modu(first: Token, second: Token) -> (r: Result<BinOutcome, EvalError>)
    ensures
        matches_bin(r, modu_model(first@, second@)),
{
    match (first, second) {
        (Token::Int(x), Token::Int(y)) => {
            if y == 0 {
                Err(EvalError::DivideByZero)
            } else {
                match x.checked_rem(y) {
                    Some(v) => Ok(BinOutcome::Value(Token::Int(v))),
                    None => Err(EvalError::Overflow),
                }
            }
        },
        (Token::Bool(_), _) => Err(EvalError::TypeMismatch),
        (_, Token::Bool(_)) => Err(EvalError::TypeMismatch),
        (Token::Str(_), _) => Err(EvalError::TypeMismatch),
        (_, Token::Str(_)) => Err(EvalError::TypeMismatch),
        (a, b) => {
            let nb = to_num_operand(&b);
            if num_is_zero(nb) {
                Err(EvalError::DivideByZero)
            } else {
                Ok(BinOutcome::FloatArith(ArithOp::Rem, to_num_operand(&a), nb))
            }
        },
    }
}

/// The exponent a 64-bit signed value yields when coerced to an unsigned
/// 32-bit count: its value modulo `2^32`, two's-complement style.
pub open spec fn wrap_u32(v: int) -> nat {
    if v >= 0 {
        (v % 0x1_0000_0000) as nat
    } else {
        let m = (-v) % 0x1_0000_0000;
        if m == 0 {
            0
        } else {
            (0x1_0000_0000 - m) as nat
        }
    }
}

/// `**`: the integer branch raises to the exponent coerced to an unsigned
/// 32-bit count; the float branch is real exponentiation; string and
/// boolean branches are invalid.
pub open spec fn exp_model(a: TokenModel, b: TokenModel) -> Result<OutcomeModel, ErrorModel> {
    let o = ordinal(most_generic_model(a, b));
    if o == 1 {
        let p = pow_nat(as_int(a), wrap_u32(as_int(b)));
        if fits_i64(p) {
            Ok(OutcomeModel::Value(TokenModel::Int(p)))
        } else {
            Err(ErrorModel::Overflow)
        }
    } else if o == 2 {
        Ok(OutcomeModel::FloatArith(ArithOp::Pow, num_operand(a), num_operand(b)))
    } else {
        Err(ErrorModel::TypeMismatch)
    }
}

/// `**` on two popped operands.
pub fn exp(first: Token, second: Token) -> (r: Result<BinOutcome, EvalError>)
    ensures
        matches_bin(r, exp_model(first@, second@)),
{
    match (first, second) {
        (Token::Int(x), Token::Int(y)) => {
            let e: u32 = if y >= 0 {
                ((y as u64) % 0x1_0000_0000) as u32
            } else {
                let m: u64 = ((-(y as i128)) as u64) % 0x1_0000_0000;
                if m == 0 {
                    0
                } else {
                    (0x1_0000_0000u64 - m) as u32
                }
            };
            proof {
                assert(e as nat == wrap_u32(y as int));
            }
            match exp_int(x, e) {
                Some(v) => Ok(BinOutcome::Value(Token::Int(v))),
                None => Err(EvalError::Overflow),
            }
        },
        (Token::Bool(_), _) => Err(EvalError::TypeMismatch),
        (_, Token::Bool(_)) => Err(EvalError::TypeMismatch),
        (Token::Str(_), _) => Err(EvalError::TypeMismatch),
        (_, Token::Str(_)) => Err(EvalError::TypeMismatch),
        (a, b) => Ok(
            BinOutcome::FloatArith(ArithOp::Pow, to_num_operand(&a), to_num_operand(&b)),
        ),
    }
}

/// `<<`: integer-only logical left shift; a shift amount outside `0..64`
/// would abort unchecked code and is an overflow here.
pub open spec fn bitl_model(a: TokenModel, b: TokenModel) -> Result<OutcomeModel, ErrorModel> {
    let o = ordinal(most_generic_model(a, b));
    if o == 1 {
        if 0 <= as_int(b) < 64 {
            Ok(
                OutcomeModel::Value(
                    TokenModel::Int(((as_int(a) as i64) << (as_int(b) as i64)) as int),
                ),
            )
        } else {
            Err(ErrorModel::Overflow)
        }
    } else {
        Err(ErrorModel::TypeMismatch)
    }
}

/// `<<` on two popped operands.
pub fn bitl(first: Token, second: Token) -> (r: Result<BinOutcome, EvalError>)
    ensures
        matches_bin(r, bitl_model(first@, second@)),
{
    match (first, second) {
        (Token::Int(x), Token::Int(y)) => {
            if 0 <= y && y < 64 {
                Ok(BinOutcome::Value(Token::Int(x << y)))
            } else {
                Err(EvalError::Overflow)
            }
        },
        _ => Err(EvalError::TypeMismatch),
    }
}

/// `>>`: integer-only arithmetic right shift; a shift amount outside
/// `0..64` would abort unchecked code and is an overflow here.
pub open spec fn bitr_model(a: TokenModel, b: TokenModel) -> Result<OutcomeModel, ErrorModel> {
    let o = ordinal(most_generic_model(a, b));
    if o == 1 {
        if 0 <= as_int(b) < 64 {
            Ok(
                OutcomeModel::Value(
                    TokenModel::Int(((as_int(a) as i64) >> (as_int(b) as i64)) as int),
                ),
            )
        } else {
            Err(ErrorModel::Overflow)
        }
    } else {
        Err(ErrorModel::TypeMismatch)
    }
}

/// `>>` on two popped operands.
pub fn bitr(first: Token, second: Token) -> (r: Result<BinOutcome, EvalError>)
    ensures
        matches_bin(r, bitr_model(first@, second@)),
{
    match (first, second) {
        (Token::Int(x), Token::Int(y)) => {
            if 0 <= y && y < 64 {
                Ok(BinOutcome::Value(Token::Int(x >> y)))
            } else {
                Err(EvalError::Overflow)
            }
        },
        _ => Err(EvalError::TypeMismatch),
    }
}

/// Equality across every branch: both operands are coerced to the more
/// generic kind and compared; `neg` selects inequality.  In the boolean
/// branch both operands must already be booleans.
pub open spec fn eq_model(a: TokenModel, b: TokenModel, neg: bool) -> Result<
    OutcomeModel,
    ErrorModel,
> {
    let o = ordinal(most_generic_model(a, b));
    if o == 1 {
        Ok(OutcomeModel::Value(TokenModel::Bool((as_int(a) == as_int(b)) != neg)))
    } else if o == 2 {
        Ok(
            OutcomeModel::FloatCompare(
                if neg {
                    CmpRel::Ne
                } else {
                    CmpRel::Eq
                },
                num_operand(a),
                num_operand(b),
            ),
        )
    } else if o == 3 {
        Ok(str_cmp_out(neg, text_operand(a), text_operand(b)))
    } else {
        if a is Bool && b is Bool {
            Ok(OutcomeModel::Value(TokenModel::Bool((as_bool(a) == as_bool(b)) != neg)))
        } else {
            Err(ErrorModel::TypeMismatch)
        }
    }
}

fn eq_impl(first: Token, second: Token, neg: bool) -> (r: Result<BinOutcome, EvalError>)
    ensures
        matches_bin(r, eq_model(first@, second@, neg)),
{
    match (first, second) {
        (Token::Int(x), Token::Int(y)) => Ok(BinOutcome::Value(Token::Bool((x == y) != neg))),
        (Token::Bool(x), Token::Bool(y)) => Ok(BinOutcome::Value(Token::Bool((x == y) != neg))),
        (Token::Bool(_), _) => Err(EvalError::TypeMismatch),
        (_, Token::Bool(_)) => Err(EvalError::TypeMismatch),
        (Token::Str(sx), b) => Ok(str_cmp_outcome(neg, TextOperand::Ready(sx), to_text_operand(b))),
        (a, Token::Str(sy)) => Ok(str_cmp_outcome(neg, to_text_operand(a), TextOperand::Ready(sy))),
        (a, b) => Ok(
            BinOutcome::FloatCompare(
                if neg {
                    CmpRel::Ne
                } else {
                    CmpRel::Eq
                },
                to_num_operand(&a),
                to_num_operand(&b),
            ),
        ),
    }
}

/// `==` on two popped operands.
pub fn equequ(first: Token, second: Token) -> (r: Result<BinOutcome, EvalError>)
    ensures
        matches_bin(r, eq_model(first@, second@, false)),
{
    eq_impl(first, second, false)
}

/// `!=` on two popped operands.
pub fn notequ(first: Token, second: Token) -> (r: Result<BinOutcome, EvalError>)
    ensures
        matches_bin(r, eq_model(first@, second@, true)),
{
    eq_impl(first, second, true)
}

/// Whether `rel` holds of two integers.
pub open spec fn int_rel(rel: CmpRel, x: int, y: int) -> bool {
    match rel {
        CmpRel::Eq => x == y,
        CmpRel::Ne => x != y,
        CmpRel::Lt => x < y,
        CmpRel::Gt => x > y,
        CmpRel::Le => x <= y,
        CmpRel::Ge => x >= y,
    }
}

/// An order comparison: valid for the integer and float branches only.
pub open spec fn ord_cmp_model(rel: CmpRel, a: TokenModel, b: TokenModel) -> Result<
    OutcomeModel,
    ErrorModel,
> {
    let o = ordinal(most_generic_model(a, b));
    if o == 1 {
        Ok(OutcomeModel::Value(TokenModel::Bool(int_rel(rel, as_int(a), as_int(b)))))
    } else if o == 2 {
        Ok(OutcomeModel::FloatCompare(rel, num_operand(a), num_operand(b)))
    } else {
        Err(ErrorModel::TypeMismatch)
    }
}

fn ord_cmp_impl(rel: CmpRel, first: Token, second: Token) -> (r: Result<BinOutcome, EvalError>)
    ensures
        matches_bin(r, ord_cmp_model(rel, first@, second@)),
{
    match (first, second) {
        (Token::Int(x), Token::Int(y)) => {
            let v = match rel {
                CmpRel::Eq => x == y,
                CmpRel::Ne => x != y,
                CmpRel::Lt => x < y,
                CmpRel::Gt => x > y,
                CmpRel::Le => x <= y,
                CmpRel::Ge => x >= y,
            };
            Ok(BinOutcome::Value(Token::Bool(v)))
        },
        (Token::Bool(_), _) => Err(EvalError::TypeMismatch),
        (_, Token::Bool(_)) => Err(EvalError::TypeMismatch),
        (Token::Str(_), _) => Err(EvalError::TypeMismatch),
        (_, Token::Str(_)) => Err(EvalError::TypeMismatch),
        (a, b) => Ok(BinOutcome::FloatCompare(rel, to_num_operand(&a), to_num_operand(&b))),
    }
}

/// `>` on two popped operands.
pub fn gt(first: Token, second: Token) -> (r: Result<BinOutcome, EvalError>)
    ensures
        matches_bin(r, ord_cmp_model(CmpRel::Gt, first@, second@)),
{
    ord_cmp_impl(CmpRel::Gt, first, second)
}

/// `<` on two popped operands.
pub fn lt(first: Token, second: Token) -> (r: Result<BinOutcome, EvalError>)
    ensures
        matches_bin(r, ord_cmp_model(CmpRel::Lt, first@, second@)),
{
    ord_cmp_impl(CmpRel::Lt, first, second)
}

/// `>=` on two popped operands.
pub fn ge(first: Token, second: Token) -> (r: Result<BinOutcome, EvalError>)
    ensures
        matches_bin(r, ord_cmp_model(CmpRel::Ge, first@, second@)),
{
    ord_cmp_impl(CmpRel::Ge, first, second)
}

/// `<=` on two popped operands.
pub fn le(first: Token, second: Token) -> (r: Result<BinOutcome, EvalError>)
    ensures
        matches_bin(r, ord_cmp_model(CmpRel::Le, first@, second@)),
{
    ord_cmp_impl(CmpRel::Le, first, second)
}

/// `&`: logical conjunction, valid only when both operands are booleans.
pub open spec fn and_model(a: TokenModel, b: TokenModel) -> Result<OutcomeModel, ErrorModel> {
    if a is Bool && b is Bool {
        Ok(OutcomeModel::Value(TokenModel::Bool(as_bool(a) && as_bool(b))))
    } else {
        Err(ErrorModel::TypeMismatch)
    }
}

/// `&` on two popped operands.
pub fn and(first: Token, second: Token) -> (r: Result<BinOutcome, EvalError>)
    ensures
        matches_bin(r, and_model(first@, second@)),
{
    match (first, second) {
        (Token::Bool(x), Token::Bool(y)) => Ok(BinOutcome::Value(Token::Bool(x && y))),
        _ => Err(EvalError::TypeMismatch),
    }
}

/// `|`: logical disjunction, valid only when both operands are booleans.
pub open spec fn or_model(a: TokenModel, b: TokenModel) -> Result<OutcomeModel, ErrorModel> {
    if a is Bool && b is Bool {
        Ok(OutcomeModel::Value(TokenModel::Bool(as_bool(a) || as_bool(b))))
    } else {
        Err(ErrorModel::TypeMismatch)
    }
}

/// `|` on two popped operands.
pub fn or(first: Token, second: Token) -> (r: Result<BinOutcome, EvalError>)
    ensures
        matches_bin(r, or_model(first@, second@)),
{
    match (first, second) {
        (Token::Bool(x), Token::Bool(y)) => Ok(BinOutcome::Value(Token::Bool(x || y))),
        _ => Err(EvalError::TypeMismatch),
    }
}

/// `^`: bitwise xor on two integers, logical xor on two booleans; all other
/// operand combinations are invalid.
pub open spec fn xor_model(a: TokenModel, b: TokenModel) -> Result<OutcomeModel, ErrorModel> {
    if a is Int && b is Int {
        Ok(OutcomeModel::Value(TokenModel::Int(((as_int(a) as i64) ^ (as_int(b) as i64)) as int)))
    } else if a is Bool && b is Bool {
        Ok(OutcomeModel::Value(TokenModel::Bool(as_bool(a) != as_bool(b))))
    } else {
        Err(ErrorModel::TypeMismatch)
    }
}

/// `^` on two popped operands.
pub fn xor(first: Token, second: Token) -> (r: Result<BinOutcome, EvalError>)
    ensures
        matches_bin(r, xor_model(first@, second@)),
{
    match (first, second) {
        (Token::Int(x), Token::Int(y)) => Ok(BinOutcome::Value(Token::Int(x ^ y))),
        (Token::Bool(x), Token::Bool(y)) => Ok(BinOutcome::Value(Token::Bool(x != y))),
        _ => Err(EvalError::TypeMismatch),
    }
}

// ---------------------------------------------------------------------------
// Dispatch
// ---------------------------------------------------------------------------
/// A binary operator keyword.
#[derive(Clone, Copy, Debug, PartialEq, Eq, Structural)]
pub enum BinOp {
    Add,
    Sub,
    Mul,
    Div,
    Exp,
    Mod,
    Shl,
    Shr,
    CmpEq,
    CmpNe,
    CmpGt,
    CmpLt,
    CmpGe,
    CmpLe,
    And,
    Or,
    Xor,
}

/// What the operator `op` decides on the operands `a` (pushed earlier) and
/// `b` (top of stack).
pub open spec fn bin_model(op: BinOp, a: TokenModel, b: TokenModel) -> Result<
    OutcomeModel,
    ErrorModel,
> {
    match op {
        BinOp::Add => add_model(a, b),
        BinOp::Sub => sub_model(a, b),
        BinOp::Mul => mul_model(a, b),
        BinOp::Div => div_model(a, b),
        BinOp::Exp => exp_model(a, b),
        BinOp::Mod => modu_model(a, b),
        BinOp::Shl => bitl_model(a, b),
        BinOp::Shr => bitr_model(a, b),
        BinOp::CmpEq => eq_model(a, b, false),
        BinOp::CmpNe => eq_model(a, b, true),
        BinOp::CmpGt => ord_cmp_model(CmpRel::Gt, a, b),
        BinOp::CmpLt => ord_cmp_model(CmpRel::Lt, a, b),
        BinOp::CmpGe => ord_cmp_model(CmpRel::Ge, a, b),
        BinOp::CmpLe => ord_cmp_model(CmpRel::Le, a, b),
        BinOp::And => and_model(a, b),
        BinOp::Or => or_model(a, b),
        BinOp::Xor => xor_model(a, b),
    }
}

fn dispatch_bin(op: BinOp, first: Token, second: Token) -> (r: Result<BinOutcome, EvalError>)
    ensures
        matches_bin(r, bin_model(op, first@, second@)),
{
    match op {
        BinOp::Add => crate::stack::add(first, second),
        BinOp::Sub => crate::stack::sub(first, second),
        BinOp::Mul => crate::stack::mul(first, second),
        BinOp::Div => div(first, second),
        BinOp::Exp => exp(first, second),
        BinOp::Mod => modu(first, second),
        BinOp::Shl => bitl(first, second),
        BinOp::Shr => bitr(first, second),
        BinOp::CmpEq => equequ(first, second),
        BinOp::CmpNe => notequ(first, second),
        BinOp::CmpGt => gt(first, second),
        BinOp::CmpLt => lt(first, second),
        BinOp::CmpGe => ge(first, second),
        BinOp::CmpLe => le(first, second),
        BinOp::And => and(first, second),
        BinOp::Or => or(first, second),
        BinOp::Xor => xor(first, second),
    }
}

/// What applying `op` does to the whole stack: pops two operands and either
/// pushes the finished value, or leaves the operands popped and hands back
/// the float work.
pub open spec fn apply_model(s: Seq<TokenModel>, op: BinOp) -> Result<
    (Seq<TokenModel>, Option<OutcomeModel>),
    ErrorModel,
> {
    if s.len() < 2 {
        Err(ErrorModel::StackUnderflow)
    } else {
        match bin_model(op, s[s.len() - 2], s.last()) {
            Err(e) => Err(e),
            Ok(OutcomeModel::Value(t)) => Ok((s.take(s.len() - 2).push(t), None)),
            Ok(o) => Ok((s.take(s.len() - 2), Some(o))),
        }
    }
}

/// Pops the two topmost operands and applies the binary operator `op`: a
/// finished value is pushed; float work is returned for the embedder.  On
/// any error the stack is left unchanged.
pub fn apply_bin_op(stack: &mut Vec<Token>, op: BinOp) -> (r: Result<Option<BinOutcome>, EvalError>)
    ensures
        match r {
            Ok(out) => apply_model(old(stack).deep_view(), op) == Ok::<_, ErrorModel>(
                (
                    final(stack).deep_view(),
                    match out {
                        Some(o) => Some(o@),
                        None => None::<OutcomeModel>,
                    },
                ),
            ),
            Err(e) => apply_model(old(stack).deep_view(), op) == Err::<
                (Seq<TokenModel>, Option<OutcomeModel>),
                _,
            >(e@) && final(stack).deep_view() == old(stack).deep_view(),
        },
{
    if stack.len() < 2 {
        return Err(EvalError::StackUnderflow);
    }
    let second = stack[stack.len() - 1].clone();
    let first = stack[stack.len() - 2].clone();
    match dispatch_bin(op, first, second) {
        Err(e) => Err(e),
        Ok(BinOutcome::Value(t)) => {
            let _ = stack.pop();
            let _ = stack.pop();
            stack.push(t);
            proof {
                let s0 = old(stack).deep_view();
                assert(stack.deep_view() =~= s0.take(s0.len() - 2).push(t@));
            }
            Ok(None)
        },
        Ok(o) => {
            let _ = stack.pop();
            let _ = stack.pop();
            proof {
                let s0 = old(stack).deep_view();
                assert(stack.deep_view() =~= s0.take(s0.len() - 2));
            }
            Ok(Some(o))
        },
    }
}

} // verus!

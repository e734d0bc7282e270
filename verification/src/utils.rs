//! The value model: the tagged value type, its coercion ordinal, the error
//! kinds, and the textual rendering of values.

use vstd::prelude::*;

verus! {

/// A value on the operand stack.
///
/// `Float` carries the IEEE-754 bit pattern of a 64-bit float.  The evaluator
/// never interprets those bits arithmetically; float arithmetic is delegated
/// to the embedding program (see `machine`).
#[derive(Debug, PartialEq, Eq)]
pub enum Token {
    Int(i64),
    Float(u64),
    Str(String),
    Bool(bool),
}

/// The mathematical value of a [`Token`].
#[verifier::ext_equal]
pub enum TokenModel {
    Int(int),
    Float(u64),
    Str(Seq<char>),
    Bool(bool),
}

impl View for Token {
    type V = TokenModel;

    open spec fn view(&self) -> TokenModel {
        match self {
            Token::Int(i) => TokenModel::Int(*i as int),
            Token::Float(b) => TokenModel::Float(*b),
            Token::Str(s) => TokenModel::Str(s@),
            Token::Bool(b) => TokenModel::Bool(*b),
        }
    }
}

impl DeepView for Token {
    type V = TokenModel;

    open spec fn deep_view(&self) -> TokenModel {
        self.view()
    }
}

impl Clone for Token {
    fn clone(&self) -> (r: Token)
        ensures
            r@ == self@,
    {
        match self {
            Token::Int(i) => Token::Int(*i),
            Token::Float(b) => Token::Float(*b),
            Token::Str(s) => Token::Str(s.clone()),
            Token::Bool(b) => Token::Bool(*b),
        }
    }
}

/// The coercion rank of a value kind; a binary operator runs the branch of
/// the operand with the higher ordinal.
pub open spec fn ordinal(t: TokenModel) -> int {
    match t {
        TokenModel::Int(_) => 1,
        TokenModel::Float(_) => 2,
        TokenModel::Str(_) => 3,
        TokenModel::Bool(_) => 4,
    }
}

impl Token {
    /// The coercion rank of this value's kind.
    pub fn ord(&self) -> (r: u8)
        ensures
            r as int == ordinal(self@),
    {
        match self {
            Token::Int(_) => 1,
            Token::Float(_) => 2,
            Token::Str(_) => 3,
            Token::Bool(_) => 4,
        }
    }
}

/// Of two operands, the one whose kind decides the operator branch: the one
/// with the higher ordinal, the first on a tie.
pub open spec fn most_generic_model(a: TokenModel, b: TokenModel) -> TokenModel {
    if ordinal(a) >= ordinal(b) {
        a
    } else {
        b
    }
}

/// Of two operands, the one with the higher coercion ordinal (the first on a
/// tie): its kind selects the implementation branch of a binary operator.
pub fn most_generic_type(first: &Token, second: &Token) -> (r: Token)
    ensures
        r@ == most_generic_model(first@, second@),
{
    if first.ord() >= second.ord() {
        first.clone()
    } else {
        second.clone()
    }
}

/// The conditions that abort an evaluation.  `Overflow` stands for integer
/// arithmetic whose result does not fit a 64-bit signed integer (or a shift
/// amount outside `0..64`), where an unchecked evaluator would abort the
/// process.
#[derive(Debug, PartialEq, Eq)]
pub enum EvalError {
    UnsupportedToken(String),
    StackUnderflow,
    TypeMismatch,
    DivideByZero,
    NegativeRepeatCount,
    Overflow,
}

/// The mathematical value of an [`EvalError`].
#[verifier::ext_equal]
pub enum ErrorModel {
    UnsupportedToken(Seq<char>),
    StackUnderflow,
    TypeMismatch,
    DivideByZero,
    NegativeRepeatCount,
    Overflow,
}

impl View for EvalError {
    type V = ErrorModel;

    open spec fn view(&self) -> ErrorModel {
        match self {
            EvalError::UnsupportedToken(s) => ErrorModel::UnsupportedToken(s@),
            EvalError::StackUnderflow => ErrorModel::StackUnderflow,
            EvalError::TypeMismatch => ErrorModel::TypeMismatch,
            EvalError::DivideByZero => ErrorModel::DivideByZero,
            EvalError::NegativeRepeatCount => ErrorModel::NegativeRepeatCount,
            EvalError::Overflow => ErrorModel::Overflow,
        }
    }
}

impl DeepView for EvalError {
    type V = ErrorModel;

    open spec fn deep_view(&self) -> ErrorModel {
        self.view()
    }
}

impl Clone for EvalError {
    fn clone(&self) -> (r: EvalError)
        ensures
            r@ == self@,
    {
        match self {
            EvalError::UnsupportedToken(s) => EvalError::UnsupportedToken(s.clone()),
            EvalError::StackUnderflow => EvalError::StackUnderflow,
            EvalError::TypeMismatch => EvalError::TypeMismatch,
            EvalError::DivideByZero => EvalError::DivideByZero,
            EvalError::NegativeRepeatCount => EvalError::NegativeRepeatCount,
            EvalError::Overflow => EvalError::Overflow,
        }
    }
}

/// The decimal digit character for `d` (where `d < 10`).
pub open spec fn digit_char(d: nat) -> char {
    if d == 0 {
        '0'
    } else if d == 1 {
        '1'
    } else if d == 2 {
        '2'
    } else if d == 3 {
        '3'
    } else if d == 4 {
        '4'
    } else if d == 5 {
        '5'
    } else if d == 6 {
        '6'
    } else if d == 7 {
        '7'
    } else if d == 8 {
        '8'
    } else {
        '9'
    }
}

/// The decimal digits of `n`, most significant first, with no leading zeros
/// (a lone `0` for zero).
pub open spec fn dec_digits(n: nat) -> Seq<char>
    decreases n,
{
    if n < 10 {
        seq![digit_char(n)]
    } else {
        dec_digits(n / 10) + seq![digit_char(n % 10)]
    }
}

/// The canonical decimal rendering of an integer: a `-` sign for negative
/// values, then the digits of its magnitude.
pub open spec fn int_text(i: int) -> Seq<char> {
    if i < 0 {
        seq!['-'] + dec_digits((-i) as nat)
    } else {
        dec_digits(i as nat)
    }
}

/// The text of a digit sequence read from the last element to the first.
pub open spec fn rev_text(ds: Seq<u64>) -> Seq<char>
    decreases ds.len(),
{
    if ds.len() == 0 {
        Seq::empty()
    } else {
        seq![digit_char(ds.last() as nat)] + rev_text(ds.drop_last())
    }
}

fn digit_str(d: u64) -> (r: &'static str)
    requires
        d < 10,
    ensures
        r@ == seq![digit_char(d as nat)],
{
    let r: &'static str = if d == 0 {
        "0"
    } else if d == 1 {
        "1"
    } else if d == 2 {
        "2"
    } else if d == 3 {
        "3"
    } else if d == 4 {
        "4"
    } else if d == 5 {
        "5"
    } else if d == 6 {
        "6"
    } else if d == 7 {
        "7"
    } else if d == 8 {
        "8"
    } else {
        "9"
    };
    proof {
        reveal_strlit("0");
        reveal_strlit("1");
        reveal_strlit("2");
        reveal_strlit("3");
        reveal_strlit("4");
        reveal_strlit("5");
        reveal_strlit("6");
        reveal_strlit("7");
        reveal_strlit("8");
        reveal_strlit("9");
        assert(r@ =~= seq![digit_char(d as nat)]);
    }
    r
}

/// Renders an integer in its canonical decimal form.
pub fn i64_to_string(i: i64) -> (r: String)
    ensures
        r@ == int_text(i as int),
{
    let m: u64 = if i < 0 {
        (-(i as i128)) as u64
    } else {
        i as u64
    };
    let mut ds: Vec<u64> = Vec::new();
    let mut n: u64 = m;
    ds.push(n % 10);
    proof {
        assert(ds@.last() == m % 10 && ds@.drop_last() =~= Seq::<u64>::empty());
        assert(rev_text(Seq::<u64>::empty()) == Seq::<char>::empty());
        assert(rev_text(ds@) =~= seq![digit_char((m % 10) as nat)]);
        if m < 10 {
            assert(dec_digits(m as nat) == seq![digit_char(m as nat)]);
        } else {
            assert(dec_digits(m as nat) == dec_digits((m / 10) as nat) + seq![
                digit_char((m % 10) as nat),
            ]);
        }
    }
    n = n / 10;
    while n > 0
        invariant
            n > 0 ==> dec_digits(m as nat) == dec_digits(n as nat) + rev_text(ds@),
            n == 0 ==> dec_digits(m as nat) == rev_text(ds@),
            forall|k: int| 0 <= k < ds@.len() ==> ds@[k] < 10,
        decreases n,
    {
        let ghost ds0 = ds@;
        ds.push(n % 10);
        proof {
            assert(ds@.last() == n % 10 && ds@.drop_last() =~= ds0);
            assert(rev_text(ds@) == seq![digit_char((n % 10) as nat)] + rev_text(ds0));
            if n < 10 {
                assert(dec_digits(n as nat) == seq![digit_char(n as nat)]);
            } else {
                assert(dec_digits(n as nat) == dec_digits((n / 10) as nat) + seq![
                    digit_char((n % 10) as nat),
                ]);
            }
        }
        n = n / 10;
    }
    let mut s = String::new();
    if i < 0 {
        s.append("-");
    }
    let ghost pre = s@;
    proof {
        reveal_strlit("-");
        if i < 0 {
            assert(pre =~= seq!['-']);
        }
    }
    let mut k: usize = ds.len();
    proof {
        assert(ds@.subrange(0, ds@.len() as int) =~= ds@);
    }
    while k > 0
        invariant
            k <= ds.len(),
            s@ + rev_text(ds@.subrange(0, k as int)) == pre + rev_text(ds@),
            forall|j: int| 0 <= j < ds@.len() ==> ds@[j] < 10,
        decreases k,
    {
        let ghost s0 = s@;
        let ghost pk = ds@.subrange(0, k as int);
        k = k - 1;
        s.append(digit_str(ds[k]));
        proof {
            assert(pk.last() == ds@[k as int] && pk.drop_last() =~= ds@.subrange(0, k as int));
            assert(rev_text(pk) == seq![digit_char(ds@[k as int] as nat)] + rev_text(
                ds@.subrange(0, k as int),
            ));
            assert(s0 + rev_text(pk) =~= s@ + rev_text(ds@.subrange(0, k as int)));
        }
    }
    proof {
        assert(ds@.subrange(0, 0) =~= Seq::<u64>::empty());
        assert(s@ + Seq::<char>::empty() =~= s@);
        assert(s@ == pre + dec_digits(m as nat));
        if i < 0 {
            assert(s@ =~= int_text(i as int));
        } else {
            assert(pre =~= Seq::<char>::empty());
            assert(pre + dec_digits(m as nat) =~= dec_digits(m as nat));
        }
    }
    s
}

/// The textual rendering of a non-float value: integers in decimal, strings
/// verbatim, booleans as `true`/`false`.  (A float's text depends on its
/// bits and is supplied by the embedder.)
pub open spec fn plain_text(t: TokenModel) -> Seq<char>
    recommends
        !(t is Float),
{
    match t {
        TokenModel::Int(i) => int_text(i),
        TokenModel::Float(_) => Seq::empty(),
        TokenModel::Str(s) => s,
        TokenModel::Bool(b) => if b {
            "true"@
        } else {
            "false"@
        },
    }
}

/// Renders a value as text, or reports that it is a float, whose rendering
/// the embedder must supply.
pub fn token_text(t: &Token) -> (r: Option<String>)
    ensures
        match r {
            Some(s) => !(t@ is Float) && s@ == plain_text(t@),
            None => t@ is Float,
        },
{
    match t {
        Token::Int(i) => Some(i64_to_string(*i)),
        Token::Float(_) => None,
        Token::Str(s) => Some(s.clone()),
        Token::Bool(b) => {
            if *b {
                Some(String::from_str("true"))
            } else {
                Some(String::from_str("false"))
            }
        },
    }
}

/// `s` repeated `n` times.
pub open spec fn repeat_text(s: Seq<char>, n: nat) -> Seq<char>
    decreases n,
{
    if n == 0 {
        Seq::empty()
    } else {
        repeat_text(s, (n - 1) as nat) + s
    }
}

/// Builds the `n`-fold repetition of `s`.
pub fn repeat_str(s: &str, n: u64) -> (r: String)
    ensures
        r@ == repeat_text(s@, n as nat),
{
    let mut r = String::new();
    let mut i: u64 = 0;
    proof {
        assert(r@ =~= repeat_text(s@, 0));
    }
    while i < n
        invariant
            i <= n,
            r@ == repeat_text(s@, i as nat),
        decreases n - i,
    {
        r.append(s);
        i = i + 1;
    }
    r
}

/// The text denoted by a quoted-string lexeme, if any: the lexeme must be
/// at least two characters long and begin and end with a double quote, which
/// are stripped.
pub open spec fn string_literal_model(s: Seq<char>) -> Option<Seq<char>> {
    if s.len() >= 2 && s[0] == '"' && s[s.len() - 1] == '"' {
        Some(s.subrange(1, s.len() - 1))
    } else {
        None
    }
}

/// Parses a quoted-string literal, stripping the enclosing double quotes.
pub fn parse_string(val: &str) -> (r: Result<String, ()>)
    ensures
        match r {
            Ok(s) => string_literal_model(val@) == Some(s@),
            Err(_) => string_literal_model(val@) is None,
        },
{
    let len = val.unicode_len();
    if len < 2 {
        return Err(());
    }
    let c0 = val.get_char(0);
    let c1 = val.get_char(len - 1);
    if c0 == '"' && c1 == '"' {
        Ok(String::from_str(val.substring_char(1, len - 1)))
    } else {
        Err(())
    }
}

/// The boolean denoted by a lexeme, if any: exactly `true` or `false`.
pub open spec fn bool_literal_model(s: Seq<char>) -> Option<bool> {
    if s == "true"@ {
        Some(true)
    } else if s == "false"@ {
        Some(false)
    } else {
        None
    }
}

/// Parses a boolean literal: exactly the text `true` or `false`.
pub fn parse_bool(val: &str) -> (r: Result<bool, ()>)
    ensures
        match r {
            Ok(b) => bool_literal_model(val@) == Some(b),
            Err(_) => bool_literal_model(val@) is None,
        },
{
    proof {
        reveal_strlit("true");
        reveal_strlit("false");
    }
    if str_eq(val, "true") {
        Ok(true)
    } else if str_eq(val, "false") {
        Ok(false)
    } else {
        Err(())
    }
}

/// Compares two strings character by character.
pub fn str_eq(a: &str, b: &str) -> (r: bool)
    ensures
        r == (a@ == b@),
{
    let la = a.unicode_len();
    let lb = b.unicode_len();
    if la != lb {
        return false;
    }
    let mut i: usize = 0;
    while i < la
        invariant
            i <= la,
            la == a@.len(),
            la == b@.len(),
            forall|k: int| 0 <= k < i ==> a@[k] == b@[k],
        decreases la - i,
    {
        if a.get_char(i) != b.get_char(i) {
            return false;
        }
        i = i + 1;
    }
    proof {
        assert(a@ =~= b@);
    }
    true
}

} // verus!

//! Lexing and literal classification: splitting input text into
//! whitespace-delimited lexemes, and resolving a lexeme as an integer,
//! float, quoted-string or boolean literal.

use vstd::prelude::*;

use crate::utils::bool_literal_model;
use crate::utils::parse_bool;
use crate::utils::parse_string;
use crate::utils::string_literal_model;
use crate::utils::Token;
use crate::utils::TokenModel;

verus! {

/// Whether `c` has the Unicode `White_Space` property (the separator set
/// used when splitting input into lexemes).
pub open spec fn is_ws(c: char) -> bool {
    c == ' ' || c == '\t' || c == '\n' || c == '\r' || c == '\u{B}' || c == '\u{C}' || c == '\u{85}'
        || c == '\u{A0}' || c == '\u{1680}' || c == '\u{2000}' || c == '\u{2001}' || c == '\u{2002}'
        || c == '\u{2003}' || c == '\u{2004}' || c == '\u{2005}' || c == '\u{2006}' || c
        == '\u{2007}' || c == '\u{2008}' || c == '\u{2009}' || c == '\u{200A}' || c == '\u{2028}'
        || c == '\u{2029}' || c == '\u{202F}' || c == '\u{205F}' || c == '\u{3000}'
}

fn is_ws_exec(c: char) -> (r: bool)
    ensures
        r == is_ws(c),
{
    c == ' ' || c == '\t' || c == '\n' || c == '\r' || c == '\u{B}' || c == '\u{C}' || c == '\u{85}'
        || c == '\u{A0}' || c == '\u{1680}' || c == '\u{2000}' || c == '\u{2001}' || c == '\u{2002}'
        || c == '\u{2003}' || c == '\u{2004}' || c == '\u{2005}' || c == '\u{2006}' || c
        == '\u{2007}' || c == '\u{2008}' || c == '\u{2009}' || c == '\u{200A}' || c == '\u{2028}'
        || c == '\u{2029}' || c == '\u{202F}' || c == '\u{205F}' || c == '\u{3000}'
}

/// The lexemes of `s` from position `i` on, given the partial lexeme `cur`
/// read so far: maximal runs of non-whitespace characters, in order.
pub open spec fn lex(s: Seq<char>, i: int, cur: Seq<char>) -> Seq<Seq<char>>
    decreases s.len() - i,
    when 0 <= i <= s.len()
{
    if i >= s.len() {
        if cur.len() == 0 {
            seq![]
        } else {
            seq![cur]
        }
    } else if is_ws(s[i]) {
        (if cur.len() == 0 {
            seq![]
        } else {
            seq![cur]
        }) + lex(s, i + 1, Seq::empty())
    } else {
        lex(s, i + 1, cur.push(s[i]))
    }
}

/// The whitespace-delimited lexemes of `s`, in order.
pub open spec fn tokens_of(s: Seq<char>) -> Seq<Seq<char>> {
    lex(s, 0, Seq::empty())
}

/// Splits input text into its whitespace-delimited lexemes, preserving
/// their left-to-right order across lines.
pub fn read_stack(fstr: &String) -> (r: Vec<String>)
    ensures
        r.deep_view() == tokens_of(fstr@),
{
    let s = fstr.as_str();
    let len = s.unicode_len();
    let mut acc: Vec<String> = Vec::new();
    let mut start: usize = 0;
    let mut i: usize = 0;
    proof {
        assert(s@.subrange(0, 0) =~= Seq::<char>::empty());
        assert(acc.deep_view() =~= Seq::<Seq<char>>::empty());
        assert(acc.deep_view() + tokens_of(fstr@) =~= tokens_of(fstr@));
    }
    while i < len
        invariant
            i <= len,
            start <= i,
            len == s@.len(),
            fstr@ == s@,
            forall|k: int| start <= k < i ==> !is_ws(s@[k]),
            tokens_of(fstr@) == acc.deep_view() + lex(
                s@,
                i as int,
                s@.subrange(start as int, i as int),
            ),
        decreases len - i,
    {
        let ghost cur = s@.subrange(start as int, i as int);
        let c = s.get_char(i);
        if is_ws_exec(c) {
            if start < i {
                let tok = String::from_str(s.substring_char(start, i));
                let ghost acc0 = acc.deep_view();
                acc.push(tok);
                proof {
                    assert(acc.deep_view() =~= acc0.push(cur));
                    assert(lex(s@, i as int, cur) == seq![cur] + lex(
                        s@,
                        i as int + 1,
                        Seq::empty(),
                    ));
                    assert(acc0 + (seq![cur] + lex(s@, i as int + 1, Seq::empty())) =~= acc0.push(
                        cur,
                    ) + lex(s@, i as int + 1, Seq::empty()));
                }
            } else {
                proof {
                    assert(cur =~= Seq::<char>::empty());
                    assert(lex(s@, i as int, cur) == Seq::<Seq<char>>::empty() + lex(
                        s@,
                        i as int + 1,
                        Seq::empty(),
                    ));
                    assert(Seq::<Seq<char>>::empty() + lex(s@, i as int + 1, Seq::empty()) =~= lex(
                        s@,
                        i as int + 1,
                        Seq::empty(),
                    ));
                }
            }
            start = i + 1;
            i = i + 1;
            proof {
                assert(s@.subrange(start as int, i as int) =~= Seq::<char>::empty());
            }
        } else {
            i = i + 1;
            proof {
                assert(s@.subrange(start as int, i as int) =~= cur.push(s@[i as int - 1]));
            }
        }
    }
    let ghost cur = s@.subrange(start as int, i as int);
    if start < len {
        let tok = String::from_str(s.substring_char(start, len));
        let ghost acc0 = acc.deep_view();
        acc.push(tok);
        proof {
            assert(lex(s@, len as int, cur) == seq![cur]);
            assert(acc.deep_view() =~= acc0.push(cur));
            assert(acc0 + seq![cur] =~= acc0.push(cur));
        }
    } else {
        proof {
            assert(cur =~= Seq::<char>::empty());
            assert(lex(s@, len as int, cur) =~= Seq::<Seq<char>>::empty());
            assert(acc.deep_view() + Seq::<Seq<char>>::empty() =~= acc.deep_view());
        }
    }
    acc
}

/// Whether `c` is a decimal digit.
pub open spec fn is_digit(c: char) -> bool {
    48 <= c as u32 <= 57
}

/// The numeric value of a decimal digit character.
pub open spec fn digit_val(c: char) -> nat {
    (c as u32 - 48) as nat
}

/// Whether every character of `s` is a decimal digit.
pub open spec fn all_digits(s: Seq<char>) -> bool {
    forall|k: int| 0 <= k < s.len() ==> is_digit(s[k])
}

/// The value of a digit string read in base ten.
pub open spec fn digits_value(s: Seq<char>) -> nat
    decreases s.len(),
{
    if s.len() == 0 {
        0
    } else {
        digits_value(s.drop_last()) * 10 + digit_val(s.last())
    }
}

/// The 64-bit signed integer denoted by `s`, if any: an optional sign, one
/// or more digits, and a value within the 64-bit signed range.
pub open spec fn int_literal_model(s: Seq<char>) -> Option<int> {
    let body = if s.len() > 0 && (s[0] == '+' || s[0] == '-') {
        s.drop_first()
    } else {
        s
    };
    let neg = s.len() > 0 && s[0] == '-';
    if body.len() == 0 || !all_digits(body) {
        None
    } else {
        let v = if neg {
            -(digits_value(body) as int)
        } else {
            digits_value(body) as int
        };
        if i64::MIN <= v <= i64::MAX {
            Some(v)
        } else {
            None
        }
    }
}

/// Parses a 64-bit signed integer literal: an optional sign followed by one
/// or more decimal digits, rejected when the value is out of range.
pub fn parse_int(s: &str) -> (r: Option<i64>)
    ensures
        match r {
            Some(v) => int_literal_model(s@) == Some(v as int),
            None => int_literal_model(s@) is None,
        },
{
    let len = s.unicode_len();
    let mut j: usize = 0;
    let mut neg = false;
    if len > 0 {
        let c0 = s.get_char(0);
        if c0 == '+' {
            j = 1;
        } else if c0 == '-' {
            j = 1;
            neg = true;
        }
    }
    let ghost body = if j == 1 {
        s@.drop_first()
    } else {
        s@
    };
    proof {
        if j == 1 {
            assert(body =~= s@.subrange(1, len as int));
        }
    }
    if j >= len {
        return None;
    }
    let mut acc: u128 = 0;
    let mut i: usize = j;
    proof {
        assert(s@.subrange(j as int, j as int) =~= Seq::<char>::empty());
    }
    while i < len
        invariant
            j <= i <= len,
            j <= 1,
            len == s@.len(),
            body == (if j == 1 {
                s@.drop_first()
            } else {
                s@
            }),
            body.len() == len - j,
            (j == 1) <==> (s@.len() > 0 && (s@[0] == '+' || s@[0] == '-')),
            neg <==> (s@.len() > 0 && s@[0] == '-'),
            forall|k: int| j <= k < i ==> is_digit(s@[k]),
            ({
                let pv = digits_value(s@.subrange(j as int, i as int));
                if pv <= 0x8000_0000_0000_0000 {
                    acc == pv
                } else {
                    acc == 0x8000_0000_0000_0001u128
                }
            }),
        decreases len - i,
    {
        let ghost pfx = s@.subrange(j as int, i as int);
        let c = s.get_char(i);
        let cu = c as u32;
        if cu < 48 || cu > 57 {
            proof {
                assert(!is_digit(s@[i as int]));
                if j == 1 {
                    assert(body[i as int - 1] == s@[i as int]);
                    assert(!is_digit(body[i as int - 1]));
                } else {
                    assert(!is_digit(body[i as int]));
                }
                assert(!all_digits(body));
            }
            return None;
        }
        let d: u128 = (cu - 48) as u128;
        acc = acc * 10 + d;
        if acc > 0x8000_0000_0000_0000 {
            acc = 0x8000_0000_0000_0001;
        }
        i = i + 1;
        proof {
            let pfx2 = s@.subrange(j as int, i as int);
            assert(pfx2.last() == s@[i as int - 1] && pfx2.drop_last() =~= pfx);
            assert(digits_value(pfx2) == digits_value(pfx) * 10 + digit_val(s@[i as int - 1]));
        }
    }
    proof {
        let pfx = s@.subrange(j as int, i as int);
        assert(pfx =~= body);
        assert(all_digits(body));
    }
    if neg {
        if acc > 0x8000_0000_0000_0000 {
            None
        } else if acc == 0x8000_0000_0000_0000 {
            Some(i64::MIN)
        } else {
            Some(-(acc as i64))
        }
    } else {
        if acc >= 0x8000_0000_0000_0000 {
            None
        } else {
            Some(acc as i64)
        }
    }
}

/// The first position at or after `i` where `s` has a non-digit (or the end
/// of `s`).
pub open spec fn digit_run_end(s: Seq<char>, i: int) -> int
    decreases s.len() - i,
    when 0 <= i <= s.len()
{
    if i >= s.len() {
        i
    } else if !is_digit(s[i]) {
        i
    } else {
        digit_run_end(s, i + 1)
    }
}

proof fn lemma_digit_run_end(s: Seq<char>, i: int)
    requires
        0 <= i <= s.len(),
    ensures
        i <= digit_run_end(s, i) <= s.len(),
    decreases s.len() - i,
{
    if i < s.len() && is_digit(s[i]) {
        lemma_digit_run_end(s, i + 1);
    }
}

fn scan_digits(s: &str, i: usize) -> (r: usize)
    requires
        i <= s@.len(),
    ensures
        r == digit_run_end(s@, i as int),
        i <= r <= s@.len(),
{
    let len = s.unicode_len();
    let mut k: usize = i;
    while k < len
        invariant
            i <= k <= len,
            len == s@.len(),
            digit_run_end(s@, i as int) == digit_run_end(s@, k as int),
        decreases len - k,
    {
        let c = s.get_char(k);
        let cu = c as u32;
        if cu < 48 || cu > 57 {
            return k;
        }
        k = k + 1;
    }
    k
}

/// Whether `s` (after its optional sign) spells `inf`, ignoring case.
pub open spec fn is_ci_inf(s: Seq<char>) -> bool {
    s.len() == 3 && (s[0] == 'i' || s[0] == 'I') && (s[1] == 'n' || s[1] == 'N') && (s[2] == 'f'
        || s[2] == 'F')
}

/// Whether `s` spells `infinity`, ignoring case.
pub open spec fn is_ci_infinity(s: Seq<char>) -> bool {
    s.len() == 8 && (s[0] == 'i' || s[0] == 'I') && (s[1] == 'n' || s[1] == 'N') && (s[2] == 'f'
        || s[2] == 'F') && (s[3] == 'i' || s[3] == 'I') && (s[4] == 'n' || s[4] == 'N') && (s[5]
        == 'i' || s[5] == 'I') && (s[6] == 't' || s[6] == 'T') && (s[7] == 'y' || s[7] == 'Y')
}

/// Whether `s` spells `nan`, ignoring case.
pub open spec fn is_ci_nan(s: Seq<char>) -> bool {
    s.len() == 3 && (s[0] == 'n' || s[0] == 'N') && (s[1] == 'a' || s[1] == 'A') && (s[2] == 'n'
        || s[2] == 'N')
}

/// Whether `s[i..]` is a well-formed exponent part: `e` or `E`, an optional
/// sign, and one or more digits reaching the end of `s`.
pub open spec fn float_exp_model(s: Seq<char>, i: int) -> bool {
    0 <= i < s.len() && (s[i] == 'e' || s[i] == 'E') && {
        let j = if i + 1 < s.len() && (s[i + 1] == '+' || s[i + 1] == '-') {
            i + 2
        } else {
            i + 1
        };
        j < s.len() && digit_run_end(s, j) == s.len()
    }
}

/// Whether `s` is a well-formed unsigned float number: digits, an optional
/// point with further digits (at least one digit in all), and an optional
/// exponent part.
pub open spec fn float_number_model(s: Seq<char>) -> bool {
    let d1 = digit_run_end(s, 0);
    if d1 == s.len() {
        d1 > 0
    } else if s[d1] == '.' {
        let d2 = digit_run_end(s, d1 + 1);
        (d1 > 0 || d2 > d1 + 1) && (d2 == s.len() || float_exp_model(s, d2))
    } else {
        d1 > 0 && float_exp_model(s, d1)
    }
}

/// Whether `s` is a well-formed 64-bit float literal: an optional sign, then
/// `inf`, `infinity` or `nan` (ignoring case) or a number with an optional
/// point and exponent.
pub open spec fn float_literal_model(s: Seq<char>) -> bool {
    let body = if s.len() > 0 && (s[0] == '+' || s[0] == '-') {
        s.drop_first()
    } else {
        s
    };
    is_ci_inf(body) || is_ci_infinity(body) || is_ci_nan(body) || float_number_model(body)
}

fn float_exp_check(s: &str, i: usize) -> (r: bool)
    requires
        i <= s@.len(),
    ensures
        r == float_exp_model(s@, i as int),
{
    let len = s.unicode_len();
    if i >= len {
        return false;
    }
    let c = s.get_char(i);
    if c != 'e' && c != 'E' {
        return false;
    }
    let j: usize = if i + 1 < len {
        let c1 = s.get_char(i + 1);
        if c1 == '+' || c1 == '-' {
            i + 2
        } else {
            i + 1
        }
    } else {
        i + 1
    };
    if j >= len {
        return false;
    }
    let e = scan_digits(s, j);
    e == len
}

/// Decides whether a lexeme is a well-formed 64-bit float literal.
pub fn is_float_literal(s: &str) -> (r: bool)
    ensures
        r == float_literal_model(s@),
{
    let len = s.unicode_len();
    let j0: usize = if len > 0 {
        let c = s.get_char(0);
        if c == '+' || c == '-' {
            1
        } else {
            0
        }
    } else {
        0
    };
    let body = s.substring_char(j0, len);
    proof {
        if j0 == 1 {
            assert(s@.drop_first() =~= s@.subrange(1, len as int));
        } else {
            assert(s@.subrange(0, len as int) =~= s@);
        }
    }
    let blen = body.unicode_len();
    if blen == 3 {
        let c0 = body.get_char(0);
        let c1 = body.get_char(1);
        let c2 = body.get_char(2);
        if (c0 == 'i' || c0 == 'I') && (c1 == 'n' || c1 == 'N') && (c2 == 'f' || c2 == 'F') {
            return true;
        }
        if (c0 == 'n' || c0 == 'N') && (c1 == 'a' || c1 == 'A') && (c2 == 'n' || c2 == 'N') {
            return true;
        }
    }
    if blen == 8 {
        let c0 = body.get_char(0);
        let c1 = body.get_char(1);
        let c2 = body.get_char(2);
        let c3 = body.get_char(3);
        let c4 = body.get_char(4);
        let c5 = body.get_char(5);
        let c6 = body.get_char(6);
        let c7 = body.get_char(7);
        if (c0 == 'i' || c0 == 'I') && (c1 == 'n' || c1 == 'N') && (c2 == 'f' || c2 == 'F') && (c3
            == 'i' || c3 == 'I') && (c4 == 'n' || c4 == 'N') && (c5 == 'i' || c5 == 'I') && (c6
            == 't' || c6 == 'T') && (c7 == 'y' || c7 == 'Y') {
            return true;
        }
    }
    let d1 = scan_digits(body, 0);
    if d1 == blen {
        return d1 > 0;
    }
    let cd = body.get_char(d1);
    if cd == '.' {
        let d2 = scan_digits(body, d1 + 1);
        if !(d1 > 0 || d2 > d1 + 1) {
            return false;
        }
        if d2 == blen {
            return true;
        }
        float_exp_check(body, d2)
    } else {
        if d1 == 0 {
            return false;
        }
        float_exp_check(body, d1)
    }
}

/// A resolved literal lexeme: either a ready value, or a float literal
/// whose bits the embedder must parse.
#[derive(Debug, PartialEq, Eq)]
pub enum Literal {
    Value(Token),
    FloatText,
}

/// The mathematical value of a [`Literal`].
#[verifier::ext_equal]
pub enum LiteralModel {
    Value(TokenModel),
    FloatText,
}

impl View for Literal {
    type V = LiteralModel;

    open spec fn view(&self) -> LiteralModel {
        match self {
            Literal::Value(t) => LiteralModel::Value(t@),
            Literal::FloatText => LiteralModel::FloatText,
        }
    }
}

impl DeepView for Literal {
    type V = LiteralModel;

    open spec fn deep_view(&self) -> LiteralModel {
        self.view()
    }
}

/// The literal denoted by a lexeme, if any.  The classifications are tried
/// in a strict order: 64-bit signed integer, 64-bit float, quoted string,
/// boolean; the first that fits wins.
pub open spec fn literal_model(s: Seq<char>) -> Option<LiteralModel> {
    if int_literal_model(s) is Some {
        Some(LiteralModel::Value(TokenModel::Int(int_literal_model(s).unwrap())))
    } else if float_literal_model(s) {
        Some(LiteralModel::FloatText)
    } else if string_literal_model(s) is Some {
        Some(LiteralModel::Value(TokenModel::Str(string_literal_model(s).unwrap())))
    } else if bool_literal_model(s) is Some {
        Some(LiteralModel::Value(TokenModel::Bool(bool_literal_model(s).unwrap())))
    } else {
        None
    }
}

/// Classifies a lexeme as a literal, trying integer, float, quoted string
/// and boolean in that order; a lexeme that fits none of them is an
/// operator or command keyword (or is unsupported).
pub fn parse_data_type(val: &String) -> (r: Option<Literal>)
    ensures
        match r {
            Some(l) => literal_model(val@) == Some(l@),
            None => literal_model(val@) is None,
        },
{
    if let Some(i) = parse_int(val.as_str()) {
        Some(Literal::Value(Token::Int(i)))
    } else if is_float_literal(val.as_str()) {
        Some(Literal::FloatText)
    } else if let Ok(s) = parse_string(val.as_str()) {
        Some(Literal::Value(Token::Str(s)))
    } else if let Ok(b) = parse_bool(val.as_str()) {
        Some(Literal::Value(Token::Bool(b)))
    } else {
        None
    }
}

} // verus!

// End-to-end tests of the evaluator: the embedding side services float
// requests with real 64-bit float arithmetic and drives the machine to
// completion.

use rpn_stack::machine::exec;
use rpn_stack::machine::exec_stack;
use rpn_stack::machine::FloatReq;
use rpn_stack::machine::FloatResp;
use rpn_stack::machine::Machine;
use rpn_stack::lexer::read_stack;
use rpn_stack::stack::apply_bin_op;
use rpn_stack::stack::ArithOp;
use rpn_stack::stack::BinOp;
use rpn_stack::stack::BinOutcome;
use rpn_stack::stack::CmpRel;
use rpn_stack::stack::NumOperand;
use rpn_stack::stack::TextOperand;
use rpn_stack::utils::EvalError;
use rpn_stack::utils::Token;

fn num_as_f64(n: NumOperand) -> f64 {
    match n {
        NumOperand::IntVal(i) => i as f64,
        NumOperand::FloatBits(b) => f64::from_bits(b),
    }
}

fn text_of(t: TextOperand) -> String {
    match t {
        TextOperand::Ready(s) => s,
        TextOperand::FloatBits(b) => f64::from_bits(b).to_string(),
    }
}

fn service(req: FloatReq) -> FloatResp {
    match req {
        FloatReq::Parse(s) => FloatResp::Bits(s.parse::<f64>().unwrap().to_bits()),
        FloatReq::Widen(i) => FloatResp::Bits((i as f64).to_bits()),
        FloatReq::Arith(op, a, b) => {
            let x = f64::from_bits(a);
            let y = f64::from_bits(b);
            let r = match op {
                ArithOp::Add => x + y,
                ArithOp::Sub => x - y,
                ArithOp::Mul => x * y,
                ArithOp::Div => x / y,
                ArithOp::Rem => x % y,
                ArithOp::Pow => x.powf(y),
            };
            FloatResp::Bits(r.to_bits())
        }
        FloatReq::Compare(rel, a, b) => {
            let x = f64::from_bits(a);
            let y = f64::from_bits(b);
            let r = match rel {
                CmpRel::Eq => x == y,
                CmpRel::Ne => x != y,
                CmpRel::Lt => x < y,
                CmpRel::Gt => x > y,
                CmpRel::Le => x <= y,
                CmpRel::Ge => x >= y,
            };
            FloatResp::Flag(r)
        }
        FloatReq::Render(b) => FloatResp::Text(f64::from_bits(b).to_string()),
    }
}

fn run_all(m: &mut Machine) {
    loop {
        match m.request() {
            Some(req) => {
                m.resume(service(req));
                m.run();
            }
            None => break,
        }
    }
}

fn eval(text: &str) -> Machine {
    let mut m = exec(&text.to_string());
    run_all(&mut m);
    m
}

// Completes a delegated binary outcome the way the machine's embedder
// would, pushing the finished value.
fn complete(stack: &mut Vec<Token>, r: Result<Option<BinOutcome>, EvalError>) {
    match r.unwrap() {
        None => {}
        Some(out) => {
            let t = match out {
                BinOutcome::Value(t) => t,
                BinOutcome::FloatArith(op, a, b) => {
                    let x = num_as_f64(a);
                    let y = num_as_f64(b);
                    let v = match op {
                        ArithOp::Add => x + y,
                        ArithOp::Sub => x - y,
                        ArithOp::Mul => x * y,
                        ArithOp::Div => x / y,
                        ArithOp::Rem => x % y,
                        ArithOp::Pow => x.powf(y),
                    };
                    Token::Float(v.to_bits())
                }
                BinOutcome::FloatCompare(rel, a, b) => {
                    let x = num_as_f64(a);
                    let y = num_as_f64(b);
                    let v = match rel {
                        CmpRel::Eq => x == y,
                        CmpRel::Ne => x != y,
                        CmpRel::Lt => x < y,
                        CmpRel::Gt => x > y,
                        CmpRel::Le => x <= y,
                        CmpRel::Ge => x >= y,
                    };
                    Token::Bool(v)
                }
                BinOutcome::StrJoin(a, b) => Token::Str(format!("{}{}", text_of(a), text_of(b))),
                BinOutcome::StrCompare(neg, a, b) => {
                    Token::Bool((text_of(a) == text_of(b)) != neg)
                }
            };
            stack.push(t);
        }
    }
}

#[test]
fn test_binary_add() {
    // test 5 + 5.0 = 10.0
    let mut stack = vec![Token::Int(5), Token::Float(5.0f64.to_bits())];
    let r = apply_bin_op(&mut stack, BinOp::Add);
    complete(&mut stack, r);
    assert!(stack[0] == Token::Float(10.0f64.to_bits()));

    // test numbers can be concatenated as strings
    stack = vec![
        Token::Str("Hello".to_string()),
        Token::Int(5),
        Token::Str("World".to_string()),
    ];
    let r = apply_bin_op(&mut stack, BinOp::Add);
    complete(&mut stack, r);
    let r = apply_bin_op(&mut stack, BinOp::Add);
    complete(&mut stack, r);

    assert!(stack[0] == Token::Str("Hello5World".to_string()))
}

#[test]
fn test_binary_mul() {
    let mut stack = vec![Token::Str("HI".to_string()), Token::Int(5)];
    let r = apply_bin_op(&mut stack, BinOp::Mul);
    complete(&mut stack, r);
    assert!(stack[0] == Token::Str("HIHIHIHIHI".to_string()));

    // test that multiplying a string by a float is an error
    let mut stack2 = vec![Token::Str("HI".to_string()), Token::Float(1.0f64.to_bits())];
    let re = apply_bin_op(&mut stack2, BinOp::Mul);
    assert!(re.is_err());

    // float chain: 3.0 * 5 * 1.5 == 22.5
    stack = vec![
        Token::Float(3.0f64.to_bits()),
        Token::Int(5),
        Token::Float(1.5f64.to_bits()),
    ];
    let r = apply_bin_op(&mut stack, BinOp::Mul);
    complete(&mut stack, r);
    let r = apply_bin_op(&mut stack, BinOp::Mul);
    complete(&mut stack, r);

    assert!(stack[0] == Token::Float(22.5f64.to_bits()))
}

#[test]
fn test_binary_div() {
    // test that dividing by 0 is an error
    let mut z = vec![Token::Int(1), Token::Int(0)];
    let re = apply_bin_op(&mut z, BinOp::Div);
    assert!(re.is_err());

    let mut stack = vec![
        Token::Float(10.0f64.to_bits()),
        Token::Int(5),
        Token::Int(1),
    ];
    let r = apply_bin_op(&mut stack, BinOp::Div);
    complete(&mut stack, r);
    assert_eq!(Token::Int(5), stack[stack.len() - 1]);

    let r = apply_bin_op(&mut stack, BinOp::Div);
    complete(&mut stack, r);
    assert_eq!(Token::Float(2.0f64.to_bits()), stack[stack.len() - 1]);
}

#[test]
fn test_binary_pow() {
    let mut stack = vec![Token::Float(10.0f64.to_bits()), Token::Int(3)];
    let r = apply_bin_op(&mut stack, BinOp::Exp);
    complete(&mut stack, r);
    assert_eq!(Token::Float(1000.0f64.to_bits()), stack[0]);

    let mut stack = vec![Token::Int(7), Token::Int(2)];
    let r = apply_bin_op(&mut stack, BinOp::Exp);
    complete(&mut stack, r);
    assert_eq!(Token::Int(49), stack[0]);
}

#[test]
fn test_exec_drop_dup() {
    let input = "1 2 3 DROP DUP".to_string();
    let lexemes = read_stack(&input);

    let mut m = exec_stack(&lexemes);
    run_all(&mut m);
    assert_eq!(
        m.stack_values(),
        &vec![Token::Int(1), Token::Int(2), Token::Int(2)]
    )
}

#[test]
fn test_exec_full_expr() {
    let input = "1.0 2 3 9 - + 2 * + 3 *".to_string();
    let lexemes = read_stack(&input);

    let mut m = exec_stack(&lexemes);
    run_all(&mut m);
    assert_eq!(m.stack_values(), &vec![Token::Float((-21.0f64).to_bits())])
}

#[test]
fn test_exec_rolld() {
    let input = "0 1 2 3 4 4 ROLLD".to_string();
    let lexemes = read_stack(&input);

    let mut m = exec_stack(&lexemes);
    run_all(&mut m);
    assert_eq!(
        m.stack_values(),
        &vec![
            Token::Int(0),
            Token::Int(4),
            Token::Int(1),
            Token::Int(2),
            Token::Int(3)
        ]
    )
}

#[test]
fn test_exec_equ() {
    let input = "1.0 1 ==".to_string();
    let lexemes = read_stack(&input);

    let mut m = exec_stack(&lexemes);
    run_all(&mut m);
    assert_eq!(m.stack_values()[0], Token::Bool(true))
}

#[test]
fn concat_stringifies_and_renders() {
    let m = eval("\"Hello\" 5 \"World\" + +");
    assert!(m.is_finished());
    assert_eq!(m.output(), vec!["Hello5World".to_string()]);
}

#[test]
fn float_concat_renders_operand() {
    let m = eval("\"x=\" 1.5 +");
    assert!(m.is_finished());
    assert_eq!(m.output(), vec!["x=1.5".to_string()]);
}

#[test]
fn divide_chain_renders() {
    let m = eval("10.0 5 1 / /");
    assert!(m.is_finished());
    assert_eq!(m.output(), vec!["2".to_string()]);
}

#[test]
fn string_repeat_scenario() {
    let m = eval("\"HI\" 5 *");
    assert!(m.is_finished());
    assert_eq!(m.output(), vec!["HIHIHIHIHI".to_string()]);
}

#[test]
fn string_repeat_negative_fails() {
    let m = eval("\"HI\" -1 *");
    assert_eq!(m.failure(), Some(EvalError::NegativeRepeatCount));
}

#[test]
fn divide_by_zero_fails() {
    let m = eval("1 0 /");
    assert_eq!(m.failure(), Some(EvalError::DivideByZero));
}

#[test]
fn float_divide_by_zero_fails() {
    let m = eval("1.5 0 /");
    assert_eq!(m.failure(), Some(EvalError::DivideByZero));
}

#[test]
fn unsupported_token_fails() {
    let m = eval("1 2 bogus");
    assert_eq!(
        m.failure(),
        Some(EvalError::UnsupportedToken("bogus".to_string()))
    );
}

#[test]
fn underflow_fails_operator() {
    let m = eval("1 +");
    assert_eq!(m.failure(), Some(EvalError::StackUnderflow));
}

#[test]
fn underflow_fails_primitive() {
    let m = eval("DROP");
    assert_eq!(m.failure(), Some(EvalError::StackUnderflow));
}

#[test]
fn ifelse_selects_branch() {
    let m = eval("1 2 true IFELSE");
    assert_eq!(m.stack_values(), &vec![Token::Int(1)]);
    let m = eval("1 2 false IFELSE");
    assert_eq!(m.stack_values(), &vec![Token::Int(2)]);
}

#[test]
fn ifelse_needs_bool() {
    let m = eval("1 2 3 IFELSE");
    assert_eq!(m.failure(), Some(EvalError::TypeMismatch));
}

#[test]
fn swap_rot_roll() {
    let m = eval("1 2 SWAP");
    assert_eq!(m.stack_values(), &vec![Token::Int(2), Token::Int(1)]);
    let m = eval("1 2 3 ROT");
    assert_eq!(
        m.stack_values(),
        &vec![Token::Int(2), Token::Int(3), Token::Int(1)]
    );
    let m = eval("0 1 2 3 3 ROLL");
    assert_eq!(
        m.stack_values(),
        &vec![Token::Int(0), Token::Int(2), Token::Int(3), Token::Int(1)]
    );
}

#[test]
fn roll_count_beyond_depth_underflows() {
    let m = eval("1 2 3 9 ROLL");
    assert_eq!(m.failure(), Some(EvalError::StackUnderflow));
}

#[test]
fn roll_negative_count_fails() {
    let m = eval("1 2 3 4 -1 ROLL");
    assert_eq!(m.failure(), Some(EvalError::NegativeRepeatCount));
}

#[test]
fn bool_and_or_xor() {
    assert_eq!(eval("true false &").output(), vec!["false".to_string()]);
    assert_eq!(eval("true false |").output(), vec!["true".to_string()]);
    assert_eq!(eval("true false ^").output(), vec!["true".to_string()]);
    assert_eq!(eval("true 1 &").failure(), Some(EvalError::TypeMismatch));
}

#[test]
fn int_bit_ops() {
    assert_eq!(eval("1 3 <<").output(), vec!["8".to_string()]);
    assert_eq!(eval("8 2 >>").output(), vec!["2".to_string()]);
    assert_eq!(eval("1 3 ^").output(), vec!["2".to_string()]);
    assert_eq!(eval("7 3 %").output(), vec!["1".to_string()]);
    assert_eq!(eval("1 64 <<").failure(), Some(EvalError::Overflow));
}

#[test]
fn int_pow_and_overflow() {
    assert_eq!(eval("2 62 **").output(), vec!["4611686018427387904".to_string()]);
    assert_eq!(eval("10 30 **").failure(), Some(EvalError::Overflow));
    assert_eq!(
        eval("9223372036854775807 1 +").failure(),
        Some(EvalError::Overflow)
    );
    assert_eq!(
        eval("-9223372036854775808 -1 /").failure(),
        Some(EvalError::Overflow)
    );
    assert_eq!(
        eval("-9223372036854775808 -1 %").failure(),
        Some(EvalError::Overflow)
    );
}

#[test]
fn comparisons() {
    assert_eq!(eval("1 2 <").output(), vec!["true".to_string()]);
    assert_eq!(eval("2.5 2 >=").output(), vec!["true".to_string()]);
    assert_eq!(eval("1 2 !=").output(), vec!["true".to_string()]);
    assert_eq!(eval("\"a\" \"b\" ==").output(), vec!["false".to_string()]);
    assert_eq!(eval("\"5\" 5 ==").output(), vec!["true".to_string()]);
    assert_eq!(eval("1 true ==").failure(), Some(EvalError::TypeMismatch));
    assert_eq!(eval("\"a\" \"b\" <").failure(), Some(EvalError::TypeMismatch));
}

#[test]
fn big_int_literal_becomes_float() {
    let m = eval("9223372036854775808");
    assert!(matches!(m.stack_values()[0], Token::Float(_)));
    let m = eval("9223372036854775807");
    assert_eq!(m.stack_values(), &vec![Token::Int(9223372036854775807)]);
}

#[test]
fn quirky_float_literals_evaluate() {
    assert_eq!(eval("5. 1 +").output(), vec!["6".to_string()]);
    assert_eq!(eval(".5 2 *").output(), vec!["1".to_string()]);
    assert_eq!(eval("1e3 0 +").output(), vec!["1000".to_string()]);
    assert_eq!(eval("2.5e-1 0 +").output(), vec!["0.25".to_string()]);
    let m = eval("nan");
    assert!(matches!(m.stack_values()[0], Token::Float(_)));
}

#[test]
fn exponent_wraps_to_unsigned_32_bits() {
    assert_eq!(eval("2 4294967298 **").output(), vec!["4".to_string()]);
}

#[test]
fn string_repeat_zero_is_empty() {
    let m = eval("\"HI\" 0 *");
    assert_eq!(m.stack_values(), &vec![Token::Str("".to_string())]);
}

#[test]
fn float_rem_and_pow() {
    assert_eq!(eval("7.5 2 %").output(), vec!["1.5".to_string()]);
    assert_eq!(eval("2.0 10 **").output(), vec!["1024".to_string()]);
}

#[test]
fn ifelse_underflow() {
    let m = eval("1 true IFELSE");
    assert_eq!(m.failure(), Some(EvalError::StackUnderflow));
}

#[test]
fn dup_then_add_twice() {
    let m = eval("1 2 DUP + +");
    assert_eq!(m.stack_values(), &vec![Token::Int(5)]);
    assert_eq!(m.output(), vec!["5".to_string()]);
}

#[test]
fn rerun_is_idempotent() {
    let text = "1.0 2 3 9 - + 2 * + 3 *";
    let a = eval(text);
    let b = eval(text);
    assert_eq!(a.output(), b.output());
    assert_eq!(a.stack_values(), b.stack_values());
}

//! Laws of the evaluator, stated and proved over the machine's model: how
//! coercion selects an operator branch, when operators fail, that underflow
//! never mutates the stack, and that evaluation is deterministic.

use vstd::prelude::*;

use crate::lexer::tokens_of;
use crate::machine::accepts;
use crate::machine::cmd_step;
use crate::machine::fail_with;
use crate::machine::init_model;
use crate::machine::resume_model;
use crate::machine::run_spec;
use crate::machine::Command;
use crate::machine::MachineModel;
use crate::machine::RespModel;
use crate::stack::add_model;
use crate::stack::as_int;
use crate::stack::as_text;
use crate::stack::div_model;
use crate::stack::is_zero_num;
use crate::stack::modu_model;
use crate::stack::mul_model;
use crate::stack::num_operand;
use crate::stack::ArithOp;
use crate::stack::OutcomeModel;
use crate::utils::most_generic_model;
use crate::utils::ErrorModel;
use crate::utils::ordinal;
use crate::utils::plain_text;
use crate::utils::repeat_text;
use crate::utils::TokenModel;

verus! {

/// Coercion picks the higher-ordinal operand: the kind that decides a binary
/// operator's branch always has the larger of the two ordinals.
pub proof fn lemma_coercion_picks_higher_ordinal(a: TokenModel, b: TokenModel)
    ensures
        ordinal(most_generic_model(a, b)) == (if ordinal(a) >= ordinal(b) {
            ordinal(a)
        } else {
            ordinal(b)
        }),
{
}

/// For numeric operands with at least one float, addition runs the float
/// branch on both operands.
pub proof fn lemma_numeric_add_uses_float_branch(a: TokenModel, b: TokenModel)
    requires
        ordinal(a) <= 2,
        ordinal(b) <= 2,
        a is Float || b is Float,
    ensures
        add_model(a, b) == Ok::<OutcomeModel, ErrorModel>(
            OutcomeModel::FloatArith(ArithOp::Add, num_operand(a), num_operand(b)),
        ),
{
}

/// String concatenation stringifies a non-string operand: in the string
/// branch, `+` of two non-float operands yields the concatenation of their
/// textual renderings.
pub proof fn lemma_concat_stringifies(a: TokenModel, b: TokenModel)
    requires
        ordinal(most_generic_model(a, b)) == 3,
        !(a is Float),
        !(b is Float),
    ensures
        add_model(a, b) == Ok::<OutcomeModel, ErrorModel>(
            OutcomeModel::Value(TokenModel::Str(plain_text(a) + plain_text(b))),
        ),
{
}

/// String repetition: a string times a non-negative integer repeats it that
/// many times; a negative count fails with `NegativeRepeatCount`.
pub proof fn lemma_string_repeat(a: TokenModel, b: TokenModel)
    requires
        a is Str,
        b is Int,
    ensures
        as_int(b) >= 0 ==> mul_model(a, b) == Ok::<OutcomeModel, ErrorModel>(
            OutcomeModel::Value(TokenModel::Str(repeat_text(as_text(a), as_int(b) as nat))),
        ),
        as_int(b) < 0 ==> mul_model(a, b) == Err::<OutcomeModel, ErrorModel>(
            ErrorModel::NegativeRepeatCount,
        ),
{
}

/// Division and remainder fail with `DivideByZero` exactly when the divisor
/// is zero, for every pair of numeric operands.
pub proof fn lemma_divide_by_zero(a: TokenModel, b: TokenModel)
    requires
        ordinal(a) <= 2,
        ordinal(b) <= 2,
        b is Int ==> crate::stack::fits_i64(as_int(b)),
    ensures
        (div_model(a, b) == Err::<OutcomeModel, ErrorModel>(ErrorModel::DivideByZero))
            <==> is_zero_num(num_operand(b)),
        (modu_model(a, b) == Err::<OutcomeModel, ErrorModel>(ErrorModel::DivideByZero))
            <==> is_zero_num(num_operand(b)),
{
}

/// The number of stack elements a command consumes (for `ROLL` and `ROLLD`,
/// counting the count argument and the minimum it requires below it).
pub open spec fn arity(cmd: Command) -> int {
    match cmd {
        Command::Op(_) => 2,
        Command::Drop => 1,
        Command::Dup => 1,
        Command::Swap => 2,
        Command::Rot => 3,
        Command::Roll => 4,
        Command::Rolld => 4,
        Command::Ifelse => 3,
    }
}

/// Underflow: any command on a stack with insufficient depth fails with
/// `StackUnderflow`, and the machine keeps its stack unchanged — no partial
/// mutation is observable.
pub proof fn lemma_underflow(m: MachineModel, cmd: Command)
    requires
        m.stack.len() < arity(cmd),
    ensures
        cmd_step(m, cmd) == fail_with(m, ErrorModel::StackUnderflow),
        cmd_step(m, cmd).stack == m.stack,
{
}

/// A finished machine has rendered exactly one line of output per value
/// left on the stack, bottom to top.
pub proof fn lemma_output_covers_stack(m: MachineModel)
    requires
        crate::machine::wf_model(m),
        crate::machine::finished(m),
    ensures
        m.out.len() == m.stack.len(),
{
}

/// Evaluation driven by a sequence of float responses: the machine runs,
/// takes the next response whenever it is acceptable, and runs on.
pub open spec fn drive(m: MachineModel, resps: Seq<RespModel>) -> MachineModel
    decreases resps.len(),
{
    let m1 = run_spec(m);
    if resps.len() == 0 || !accepts(m1.pending, resps[0]) {
        m1
    } else {
        drive(resume_model(m1, resps[0]), resps.drop_first())
    }
}

/// Idempotence: evaluation holds no hidden state.  Its outcome is a function
/// of the input text and the float responses alone, so re-running the same
/// input with the same responses always yields the same machine state.
pub proof fn lemma_evaluation_deterministic(
    s1: Seq<char>,
    s2: Seq<char>,
    rs1: Seq<RespModel>,
    rs2: Seq<RespModel>,
)
    requires
        s1 == s2,
        rs1 == rs2,
    ensures
        drive(init_model(tokens_of(s1)), rs1) == drive(init_model(tokens_of(s2)), rs2),
{
}

} // verus!

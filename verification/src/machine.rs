//! The execution loop: a resumable stack machine that processes lexemes in
//! order, pushing literals and dispatching keywords, then renders the final
//! stack bottom-to-top.  All float work (parsing a float literal, widening
//! an integer, arithmetic, comparison, rendering) is delegated: the machine
//! suspends with a [`FloatReq`] and the embedder answers via [`resume`]
//! (see [`Machine::resume`]) with a [`FloatResp`].
//!
//! Every transition is specified exactly: `run` drives the machine to
//! [`run_spec`] of its previous state, and `resume` to [`resume_model`].

use vstd::prelude::*;

use crate::lexer::literal_model;
use crate::lexer::parse_data_type;
use crate::lexer::read_stack;
use crate::lexer::tokens_of;
use crate::lexer::Literal;
use crate::lexer::LiteralModel;
use crate::stack::apply_bin_op;
use crate::stack::apply_model;
use crate::stack::drop_model;
use crate::stack::dup_model;
use crate::stack::ifelse_model;
use crate::stack::rol_model;
use crate::stack::rold_model;
use crate::stack::rot_model;
use crate::stack::swap_model;
use crate::stack::ArithOp;
use crate::stack::BinOp;
use crate::stack::BinOutcome;
use crate::stack::CmpRel;
use crate::stack::NumOperand;
use crate::stack::OutcomeModel;
use crate::stack::TextModel;
use crate::stack::TextOperand;
use crate::utils::plain_text;
use crate::utils::str_eq;
use crate::utils::token_text;
use crate::utils::ErrorModel;
use crate::utils::EvalError;
use crate::utils::Token;
use crate::utils::TokenModel;

verus! {

// ---------------------------------------------------------------------------
// Commands
// ---------------------------------------------------------------------------
/// An operator or stack-primitive keyword.
#[derive(Clone, Copy, Debug, PartialEq, Eq, Structural)]
pub enum Command {
    Op(BinOp),
    Drop,
    Dup,
    Swap,
    Rot,
    Roll,
    Rolld,
    Ifelse,
}

/// The command a keyword lexeme denotes, if any.
pub open spec fn command_model(s: Seq<char>) -> Option<Command> {
    if s == "+"@ {
        Some(Command::Op(BinOp::Add))
    } else if s == "-"@ {
        Some(Command::Op(BinOp::Sub))
    } else if s == "*"@ {
        Some(Command::Op(BinOp::Mul))
    } else if s == "/"@ {
        Some(Command::Op(BinOp::Div))
    } else if s == "**"@ {
        Some(Command::Op(BinOp::Exp))
    } else if s == "%"@ {
        Some(Command::Op(BinOp::Mod))
    } else if s == "<<"@ {
        Some(Command::Op(BinOp::Shl))
    } else if s == ">>"@ {
        Some(Command::Op(BinOp::Shr))
    } else if s == "=="@ {
        Some(Command::Op(BinOp::CmpEq))
    } else if s == "!="@ {
        Some(Command::Op(BinOp::CmpNe))
    } else if s == ">"@ {
        Some(Command::Op(BinOp::CmpGt))
    } else if s == "<"@ {
        Some(Command::Op(BinOp::CmpLt))
    } else if s == ">="@ {
        Some(Command::Op(BinOp::CmpGe))
    } else if s == "<="@ {
        Some(Command::Op(BinOp::CmpLe))
    } else if s == "&"@ {
        Some(Command::Op(BinOp::And))
    } else if s == "|"@ {
        Some(Command::Op(BinOp::Or))
    } else if s == "^"@ {
        Some(Command::Op(BinOp::Xor))
    } else if s == "DROP"@ {
        Some(Command::Drop)
    } else if s == "DUP"@ {
        Some(Command::Dup)
    } else if s == "SWAP"@ {
        Some(Command::Swap)
    } else if s == "ROT"@ {
        Some(Command::Rot)
    } else if s == "ROLL"@ {
        Some(Command::Roll)
    } else if s == "ROLLD"@ {
        Some(Command::Rolld)
    } else if s == "IFELSE"@ {
        Some(Command::Ifelse)
    } else {
        None
    }
}

/// Recognizes an operator or stack-primitive keyword.
pub fn parse_command(s: &str) -> (r: Option<Command>)
    ensures
        r == command_model(s@),
{
    proof {
        reveal_strlit("+");
        reveal_strlit("-");
        reveal_strlit("*");
        reveal_strlit("/");
        reveal_strlit("**");
        reveal_strlit("%");
        reveal_strlit("<<");
        reveal_strlit(">>");
        reveal_strlit("==");
        reveal_strlit("!=");
        reveal_strlit(">");
        reveal_strlit("<");
        reveal_strlit(">=");
        reveal_strlit("<=");
        reveal_strlit("&");
        reveal_strlit("|");
        reveal_strlit("^");
        reveal_strlit("DROP");
        reveal_strlit("DUP");
        reveal_strlit("SWAP");
        reveal_strlit("ROT");
        reveal_strlit("ROLL");
        reveal_strlit("ROLLD");
        reveal_strlit("IFELSE");
    }
    if str_eq(s, "+") {
        Some(Command::Op(BinOp::Add))
    } else if str_eq(s, "-") {
        Some(Command::Op(BinOp::Sub))
    } else if str_eq(s, "*") {
        Some(Command::Op(BinOp::Mul))
    } else if str_eq(s, "/") {
        Some(Command::Op(BinOp::Div))
    } else if str_eq(s, "**") {
        Some(Command::Op(BinOp::Exp))
    } else if str_eq(s, "%") {
        Some(Command::Op(BinOp::Mod))
    } else if str_eq(s, "<<") {
        Some(Command::Op(BinOp::Shl))
    } else if str_eq(s, ">>") {
        Some(Command::Op(BinOp::Shr))
    } else if str_eq(s, "==") {
        Some(Command::Op(BinOp::CmpEq))
    } else if str_eq(s, "!=") {
        Some(Command::Op(BinOp::CmpNe))
    } else if str_eq(s, ">") {
        Some(Command::Op(BinOp::CmpGt))
    } else if str_eq(s, "<") {
        Some(Command::Op(BinOp::CmpLt))
    } else if str_eq(s, ">=") {
        Some(Command::Op(BinOp::CmpGe))
    } else if str_eq(s, "<=") {
        Some(Command::Op(BinOp::CmpLe))
    } else if str_eq(s, "&") {
        Some(Command::Op(BinOp::And))
    } else if str_eq(s, "|") {
        Some(Command::Op(BinOp::Or))
    } else if str_eq(s, "^") {
        Some(Command::Op(BinOp::Xor))
    } else if str_eq(s, "DROP") {
        Some(Command::Drop)
    } else if str_eq(s, "DUP") {
        Some(Command::Dup)
    } else if str_eq(s, "SWAP") {
        Some(Command::Swap)
    } else if str_eq(s, "ROT") {
        Some(Command::Rot)
    } else if str_eq(s, "ROLL") {
        Some(Command::Roll)
    } else if str_eq(s, "ROLLD") {
        Some(Command::Rolld)
    } else if str_eq(s, "IFELSE") {
        Some(Command::Ifelse)
    } else {
        None
    }
}

// ---------------------------------------------------------------------------
// Requests and responses
// ---------------------------------------------------------------------------
/// Float work the embedder must carry out.
#[derive(Debug, PartialEq, Eq)]
pub enum FloatReq {
    /// Parse this float literal into its IEEE-754 bits.
    Parse(String),
    /// Widen this integer to a float, returning its bits.
    Widen(i64),
    /// Combine two floats, given and returned as bits.
    Arith(ArithOp, u64, u64),
    /// Compare two floats, given as bits.
    Compare(CmpRel, u64, u64),
    /// Render the float with these bits as text.
    Render(u64),
}

/// The mathematical value of a [`FloatReq`].
#[verifier::ext_equal]
pub enum ReqModel {
    Parse(Seq<char>),
    Widen(i64),
    Arith(ArithOp, u64, u64),
    Compare(CmpRel, u64, u64),
    Render(u64),
}

impl View for FloatReq {
    type V = ReqModel;

    open spec fn view(&self) -> ReqModel {
        match self {
            FloatReq::Parse(s) => ReqModel::Parse(s@),
            FloatReq::Widen(i) => ReqModel::Widen(*i),
            FloatReq::Arith(op, a, b) => ReqModel::Arith(*op, *a, *b),
            FloatReq::Compare(rel, a, b) => ReqModel::Compare(*rel, *a, *b),
            FloatReq::Render(b) => ReqModel::Render(*b),
        }
    }
}

impl Clone for FloatReq {
    fn clone(&self) -> (r: FloatReq)
        ensures
            r@ == self@,
    {
        match self {
            FloatReq::Parse(s) => FloatReq::Parse(s.clone()),
            FloatReq::Widen(i) => FloatReq::Widen(*i),
            FloatReq::Arith(op, a, b) => FloatReq::Arith(*op, *a, *b),
            FloatReq::Compare(rel, a, b) => FloatReq::Compare(*rel, *a, *b),
            FloatReq::Render(b) => FloatReq::Render(*b),
        }
    }
}

/// The embedder's answer to a [`FloatReq`].
#[derive(Debug, PartialEq, Eq)]
pub enum FloatResp {
    Bits(u64),
    Flag(bool),
    Text(String),
}

/// The mathematical value of a [`FloatResp`].
#[verifier::ext_equal]
pub enum RespModel {
    Bits(u64),
    Flag(bool),
    Text(Seq<char>),
}

impl View for FloatResp {
    type V = RespModel;

    open spec fn view(&self) -> RespModel {
        match self {
            FloatResp::Bits(b) => RespModel::Bits(*b),
            FloatResp::Flag(f) => RespModel::Flag(*f),
            FloatResp::Text(s) => RespModel::Text(s@),
        }
    }
}

// ---------------------------------------------------------------------------
// Suspension state
// ---------------------------------------------------------------------------
/// What a suspended float-branch operation will do once its operands are
/// widened.
#[derive(Clone, Copy, Debug, PartialEq, Eq, Structural)]
pub enum FloatTask {
    Arith(ArithOp),
    Compare(CmpRel),
}

/// What a suspended string-branch operation will do once its operands are
/// rendered.
#[derive(Clone, Copy, Debug, PartialEq, Eq, Structural)]
pub enum StrTask {
    Join,
    CmpEq(bool),
}

/// The continuation of a suspended machine: what to do with the next
/// response.
#[derive(Debug, PartialEq, Eq)]
pub enum Pending {
    Idle,
    AwaitParse,
    AwaitWidenFirst(FloatTask, NumOperand),
    AwaitWidenSecond(FloatTask, u64),
    AwaitArith,
    AwaitCompare,
    AwaitTextFirst(StrTask, TextOperand),
    AwaitTextSecond(StrTask, String),
    AwaitRender,
}

/// The mathematical value of a [`Pending`] continuation.
#[verifier::ext_equal]
pub enum PendingModel {
    Idle,
    AwaitParse,
    AwaitWidenFirst(FloatTask, NumOperand),
    AwaitWidenSecond(FloatTask, u64),
    AwaitArith,
    AwaitCompare,
    AwaitTextFirst(StrTask, TextModel),
    AwaitTextSecond(StrTask, Seq<char>),
    AwaitRender,
}

impl View for Pending {
    type V = PendingModel;

    open spec fn view(&self) -> PendingModel {
        match self {
            Pending::Idle => PendingModel::Idle,
            Pending::AwaitParse => PendingModel::AwaitParse,
            Pending::AwaitWidenFirst(t, o) => PendingModel::AwaitWidenFirst(*t, *o),
            Pending::AwaitWidenSecond(t, x) => PendingModel::AwaitWidenSecond(*t, *x),
            Pending::AwaitArith => PendingModel::AwaitArith,
            Pending::AwaitCompare => PendingModel::AwaitCompare,
            Pending::AwaitTextFirst(t, o) => PendingModel::AwaitTextFirst(*t, o@),
            Pending::AwaitTextSecond(t, s) => PendingModel::AwaitTextSecond(*t, s@),
            Pending::AwaitRender => PendingModel::AwaitRender,
        }
    }
}

// ---------------------------------------------------------------------------
// The machine model
// ---------------------------------------------------------------------------
/// The mathematical state of a [`Machine`].
#[verifier::ext_equal]
pub struct MachineModel {
    pub lexemes: Seq<Seq<char>>,
    pub pos: int,
    pub stack: Seq<TokenModel>,
    pub out: Seq<Seq<char>>,
    pub opos: int,
    pub pending: PendingModel,
    pub req: Option<ReqModel>,
    pub fail: Option<ErrorModel>,
}

/// Well-formedness of a machine state.
pub open spec fn wf_model(m: MachineModel) -> bool {
    &&& 0 <= m.pos <= m.lexemes.len()
    &&& 0 <= m.opos <= m.stack.len()
    &&& m.out.len() == m.opos
    &&& (m.pending is Idle <==> m.req is None)
    &&& (m.opos != 0 ==> m.pos == m.lexemes.len())
    &&& (m.pending is AwaitRender ==> m.pos == m.lexemes.len() && m.opos < m.stack.len())
}

/// The initial machine state for a lexeme sequence.
pub open spec fn init_model(lexemes: Seq<Seq<char>>) -> MachineModel {
    MachineModel {
        lexemes,
        pos: 0,
        stack: Seq::empty(),
        out: Seq::empty(),
        opos: 0,
        pending: PendingModel::Idle,
        req: None,
        fail: None,
    }
}

/// A machine that has stopped with an error.
pub open spec fn fail_with(m: MachineModel, e: ErrorModel) -> MachineModel {
    MachineModel { fail: Some(e), ..m }
}

/// The machine after a stack primitive: the new stack on success, a halt on
/// error.
pub open spec fn prim_result(m: MachineModel, r: Result<Seq<TokenModel>, ErrorModel>) -> MachineModel {
    match r {
        Ok(s2) => MachineModel { stack: s2, pos: m.pos + 1, ..m },
        Err(e) => fail_with(m, e),
    }
}

/// The continuation and request a delegated binary outcome installs.
pub open spec fn install_model(o: OutcomeModel) -> (PendingModel, ReqModel) {
    match o {
        OutcomeModel::FloatArith(op, NumOperand::IntVal(i), b) => (
            PendingModel::AwaitWidenFirst(FloatTask::Arith(op), b),
            ReqModel::Widen(i),
        ),
        OutcomeModel::FloatArith(op, NumOperand::FloatBits(x), NumOperand::IntVal(j)) => (
            PendingModel::AwaitWidenSecond(FloatTask::Arith(op), x),
            ReqModel::Widen(j),
        ),
        OutcomeModel::FloatArith(op, NumOperand::FloatBits(x), NumOperand::FloatBits(y)) => (
            PendingModel::AwaitArith,
            ReqModel::Arith(op, x, y),
        ),
        OutcomeModel::FloatCompare(rel, NumOperand::IntVal(i), b) => (
            PendingModel::AwaitWidenFirst(FloatTask::Compare(rel), b),
            ReqModel::Widen(i),
        ),
        OutcomeModel::FloatCompare(rel, NumOperand::FloatBits(x), NumOperand::IntVal(j)) => (
            PendingModel::AwaitWidenSecond(FloatTask::Compare(rel), x),
            ReqModel::Widen(j),
        ),
        OutcomeModel::FloatCompare(rel, NumOperand::FloatBits(x), NumOperand::FloatBits(y)) => (
            PendingModel::AwaitCompare,
            ReqModel::Compare(rel, x, y),
        ),
        OutcomeModel::StrJoin(TextModel::FloatBits(x), b) => (
            PendingModel::AwaitTextFirst(StrTask::Join, b),
            ReqModel::Render(x),
        ),
        OutcomeModel::StrJoin(TextModel::Ready(t), TextModel::FloatBits(y)) => (
            PendingModel::AwaitTextSecond(StrTask::Join, t),
            ReqModel::Render(y),
        ),
        OutcomeModel::StrCompare(neg, TextModel::FloatBits(x), b) => (
            PendingModel::AwaitTextFirst(StrTask::CmpEq(neg), b),
            ReqModel::Render(x),
        ),
        OutcomeModel::StrCompare(neg, TextModel::Ready(t), TextModel::FloatBits(y)) => (
            PendingModel::AwaitTextSecond(StrTask::CmpEq(neg), t),
            ReqModel::Render(y),
        ),
        _ => (PendingModel::Idle, ReqModel::Widen(0)),
    }
}

/// One command applied to the machine.
pub open spec fn cmd_step(m: MachineModel, cmd: Command) -> MachineModel {
    match cmd {
        Command::Drop => prim_result(m, drop_model(m.stack)),
        Command::Dup => prim_result(m, dup_model(m.stack)),
        Command::Swap => prim_result(m, swap_model(m.stack)),
        Command::Rot => prim_result(m, rot_model(m.stack, 3)),
        Command::Roll => prim_result(m, rol_model(m.stack)),
        Command::Rolld => prim_result(m, rold_model(m.stack)),
        Command::Ifelse => prim_result(m, ifelse_model(m.stack)),
        Command::Op(op) => match apply_model(m.stack, op) {
            Err(e) => fail_with(m, e),
            Ok((s2, None)) => MachineModel { stack: s2, pos: m.pos + 1, ..m },
            Ok((s2, Some(o))) => {
                let (p, rq) = install_model(o);
                MachineModel {
                    stack: s2,
                    pos: m.pos + 1,
                    pending: p,
                    req: if p is Idle {
                        None
                    } else {
                        Some(rq)
                    },
                    ..m
                }
            },
        },
    }
}

/// One lexeme processed: a literal is pushed (a float literal suspends for
/// parsing), a keyword is dispatched, anything else is unsupported.
pub open spec fn lex_step(m: MachineModel, s: Seq<char>) -> MachineModel {
    match literal_model(s) {
        Some(LiteralModel::Value(t)) => MachineModel {
            stack: m.stack.push(t),
            pos: m.pos + 1,
            ..m
        },
        Some(LiteralModel::FloatText) => MachineModel {
            pos: m.pos + 1,
            pending: PendingModel::AwaitParse,
            req: Some(ReqModel::Parse(s)),
            ..m
        },
        None => match command_model(s) {
            Some(cmd) => cmd_step(m, cmd),
            None => fail_with(m, ErrorModel::UnsupportedToken(s)),
        },
    }
}

/// One rendering step: the next stack value becomes text (a float suspends
/// for rendering).
pub open spec fn render_step(m: MachineModel) -> MachineModel {
    match m.stack[m.opos] {
        TokenModel::Float(b) => MachineModel {
            pending: PendingModel::AwaitRender,
            req: Some(ReqModel::Render(b)),
            ..m
        },
        t => MachineModel { out: m.out.push(plain_text(t)), opos: m.opos + 1, ..m },
    }
}

/// One machine step where work remains and the machine is not blocked.
pub open spec fn step_model(m: MachineModel) -> MachineModel {
    if m.pos < m.lexemes.len() {
        lex_step(m, m.lexemes[m.pos])
    } else {
        render_step(m)
    }
}

/// Whether the machine cannot advance on its own: it has failed or awaits a
/// response.
pub open spec fn blocked(m: MachineModel) -> bool {
    m.fail is Some || !(m.pending is Idle)
}

/// Whether the machine has consumed every lexeme and rendered every value.
pub open spec fn finished(m: MachineModel) -> bool {
    !blocked(m) && m.pos == m.lexemes.len() && m.opos == m.stack.len()
}

/// The machine driven as far as it can go on its own: until it finishes,
/// fails, or awaits a response.
pub open spec fn run_spec(m: MachineModel) -> MachineModel
    decreases m.lexemes.len() - m.pos, m.stack.len() - m.opos,
    when wf_model(m)
{
    if blocked(m) {
        m
    } else if m.pos < m.lexemes.len() {
        let m2 = lex_step(m, m.lexemes[m.pos]);
        if blocked(m2) {
            m2
        } else {
            run_spec(m2)
        }
    } else if m.opos < m.stack.len() {
        let m2 = render_step(m);
        if blocked(m2) {
            m2
        } else {
            run_spec(m2)
        }
    } else {
        m
    }
}

/// What each response kind may answer: bits for parse, widen and
/// arithmetic; a flag for a comparison; text for rendering.
pub open spec fn accepts(p: PendingModel, r: RespModel) -> bool {
    match (p, r) {
        (PendingModel::AwaitParse, RespModel::Bits(_)) => true,
        (PendingModel::AwaitWidenFirst(_, _), RespModel::Bits(_)) => true,
        (PendingModel::AwaitWidenSecond(_, _), RespModel::Bits(_)) => true,
        (PendingModel::AwaitArith, RespModel::Bits(_)) => true,
        (PendingModel::AwaitCompare, RespModel::Flag(_)) => true,
        (PendingModel::AwaitTextFirst(_, _), RespModel::Text(_)) => true,
        (PendingModel::AwaitTextSecond(_, _), RespModel::Text(_)) => true,
        (PendingModel::AwaitRender, RespModel::Text(_)) => true,
        _ => false,
    }
}

/// A float-branch task fired once both operands are widened.
pub open spec fn fire_task(m: MachineModel, task: FloatTask, x: u64, y: u64) -> MachineModel {
    match task {
        FloatTask::Arith(op) => MachineModel {
            pending: PendingModel::AwaitArith,
            req: Some(ReqModel::Arith(op, x, y)),
            ..m
        },
        FloatTask::Compare(rel) => MachineModel {
            pending: PendingModel::AwaitCompare,
            req: Some(ReqModel::Compare(rel, x, y)),
            ..m
        },
    }
}

/// A string-branch task finished once both operands are text.
pub open spec fn finish_text(m: MachineModel, task: StrTask, a: Seq<char>, b: Seq<char>) -> MachineModel {
    match task {
        StrTask::Join => MachineModel {
            stack: m.stack.push(TokenModel::Str(a + b)),
            pending: PendingModel::Idle,
            req: None,
            ..m
        },
        StrTask::CmpEq(neg) => MachineModel {
            stack: m.stack.push(TokenModel::Bool((a == b) != neg)),
            pending: PendingModel::Idle,
            req: None,
            ..m
        },
    }
}

/// The machine after a response is delivered to its continuation.
pub open spec fn resume_model(m: MachineModel, r: RespModel) -> MachineModel {
    match (m.pending, r) {
        (PendingModel::AwaitParse, RespModel::Bits(b)) => MachineModel {
            stack: m.stack.push(TokenModel::Float(b)),
            pending: PendingModel::Idle,
            req: None,
            ..m
        },
        (PendingModel::AwaitWidenFirst(task, other), RespModel::Bits(b)) => match other {
            NumOperand::IntVal(j) => MachineModel {
                pending: PendingModel::AwaitWidenSecond(task, b),
                req: Some(ReqModel::Widen(j)),
                ..m
            },
            NumOperand::FloatBits(y) => fire_task(m, task, b, y),
        },
        (PendingModel::AwaitWidenSecond(task, x), RespModel::Bits(b)) => fire_task(m, task, x, b),
        (PendingModel::AwaitArith, RespModel::Bits(b)) => MachineModel {
            stack: m.stack.push(TokenModel::Float(b)),
            pending: PendingModel::Idle,
            req: None,
            ..m
        },
        (PendingModel::AwaitCompare, RespModel::Flag(f)) => MachineModel {
            stack: m.stack.push(TokenModel::Bool(f)),
            pending: PendingModel::Idle,
            req: None,
            ..m
        },
        (PendingModel::AwaitTextFirst(task, other), RespModel::Text(t)) => match other {
            TextModel::FloatBits(y) => MachineModel {
                pending: PendingModel::AwaitTextSecond(task, t),
                req: Some(ReqModel::Render(y)),
                ..m
            },
            TextModel::Ready(s2) => finish_text(m, task, t, s2),
        },
        (PendingModel::AwaitTextSecond(task, s1), RespModel::Text(t)) => finish_text(m, task, s1, t),
        (PendingModel::AwaitRender, RespModel::Text(t)) => MachineModel {
            out: m.out.push(t),
            opos: m.opos + 1,
            pending: PendingModel::Idle,
            req: None,
            ..m
        },
        _ => m,
    }
}

// ---------------------------------------------------------------------------
// The machine
// ---------------------------------------------------------------------------
/// A resumable evaluation of one lexeme sequence.
pub struct Machine {
    lexemes: Vec<String>,
    pos: usize,
    stack: Vec<Token>,
    out: Vec<String>,
    opos: usize,
    pending: Pending,
    req: Option<FloatReq>,
    fail: Option<EvalError>,
}

impl View for Machine {
    type V = MachineModel;

    closed spec fn view(&self) -> MachineModel {
        MachineModel {
            lexemes: self.lexemes.deep_view(),
            pos: self.pos as int,
            stack: self.stack.deep_view(),
            out: self.out.deep_view(),
            opos: self.opos as int,
            pending: self.pending@,
            req: match self.req {
                Some(q) => Some(q@),
                None => None,
            },
            fail: match self.fail {
                Some(e) => Some(e@),
                None => None,
            },
        }
    }
}

fn install(o: BinOutcome) -> (r: (Pending, FloatReq))
    ensures
        (r.0@, r.1@) == install_model(o@),
{
    match o {
        BinOutcome::FloatArith(op, NumOperand::IntVal(i), b) => (
            Pending::AwaitWidenFirst(FloatTask::Arith(op), b),
            FloatReq::Widen(i),
        ),
        BinOutcome::FloatArith(op, NumOperand::FloatBits(x), NumOperand::IntVal(j)) => (
            Pending::AwaitWidenSecond(FloatTask::Arith(op), x),
            FloatReq::Widen(j),
        ),
        BinOutcome::FloatArith(op, NumOperand::FloatBits(x), NumOperand::FloatBits(y)) => (
            Pending::AwaitArith,
            FloatReq::Arith(op, x, y),
        ),
        BinOutcome::FloatCompare(rel, NumOperand::IntVal(i), b) => (
            Pending::AwaitWidenFirst(FloatTask::Compare(rel), b),
            FloatReq::Widen(i),
        ),
        BinOutcome::FloatCompare(rel, NumOperand::FloatBits(x), NumOperand::IntVal(j)) => (
            Pending::AwaitWidenSecond(FloatTask::Compare(rel), x),
            FloatReq::Widen(j),
        ),
        BinOutcome::FloatCompare(rel, NumOperand::FloatBits(x), NumOperand::FloatBits(y)) => (
            Pending::AwaitCompare,
            FloatReq::Compare(rel, x, y),
        ),
        BinOutcome::StrJoin(TextOperand::FloatBits(x), b) => (
            Pending::AwaitTextFirst(StrTask::Join, b),
            FloatReq::Render(x),
        ),
        BinOutcome::StrJoin(TextOperand::Ready(t), TextOperand::FloatBits(y)) => (
            Pending::AwaitTextSecond(StrTask::Join, t),
            FloatReq::Render(y),
        ),
        BinOutcome::StrCompare(neg, TextOperand::FloatBits(x), b) => (
            Pending::AwaitTextFirst(StrTask::CmpEq(neg), b),
            FloatReq::Render(x),
        ),
        BinOutcome::StrCompare(neg, TextOperand::Ready(t), TextOperand::FloatBits(y)) => (
            Pending::AwaitTextSecond(StrTask::CmpEq(neg), t),
            FloatReq::Render(y),
        ),
        _ => (Pending::Idle, FloatReq::Widen(0)),
    }
}

impl Machine {
    /// Well-formedness of this machine.
    pub open spec fn wf(&self) -> bool {
        wf_model(self@)
    }

    /// A fresh machine over a lexeme sequence.
    pub fn new(lexemes: Vec<String>) -> (m: Machine)
        ensures
            m@ == init_model(lexemes.deep_view()),
            m.wf(),
    {
        let m = Machine {
            lexemes,
            pos: 0,
            stack: Vec::new(),
            out: Vec::new(),
            opos: 0,
            pending: Pending::Idle,
            req: None,
            fail: None,
        };
        proof {
            assert(m.stack.deep_view() =~= Seq::<TokenModel>::empty());
            assert(m.out.deep_view() =~= Seq::<Seq<char>>::empty());
            assert(m@ =~= init_model(m.lexemes.deep_view()));
        }
        m
    }

    fn do_command(&mut self, cmd: Command)
        requires
            old(self).wf(),
            !blocked(old(self)@),
            old(self)@.pos < old(self)@.lexemes.len(),
        ensures
            final(self).wf(),
            final(self)@ == cmd_step(old(self)@, cmd),
            final(self)@.lexemes == old(self)@.lexemes,
    {
        let n = self.lexemes.len();
        proof {
            assert(old(self)@.lexemes.len() == n as int);
        }
        match cmd {
            Command::Drop => match crate::stack::drop(&mut self.stack) {
                Ok(_) => {
                    self.pos = self.pos + 1;
                },
                Err(e) => {
                    self.fail = Some(e);
                },
            },
            Command::Dup => match crate::stack::dup(&mut self.stack) {
                Ok(_) => {
                    self.pos = self.pos + 1;
                },
                Err(e) => {
                    self.fail = Some(e);
                },
            },
            Command::Swap => match crate::stack::swap(&mut self.stack) {
                Ok(_) => {
                    self.pos = self.pos + 1;
                },
                Err(e) => {
                    self.fail = Some(e);
                },
            },
            Command::Rot => match crate::stack::rot(&mut self.stack, 3) {
                Ok(_) => {
                    self.pos = self.pos + 1;
                },
                Err(e) => {
                    self.fail = Some(e);
                },
            },
            Command::Roll => match crate::stack::rol(&mut self.stack) {
                Ok(_) => {
                    self.pos = self.pos + 1;
                },
                Err(e) => {
                    self.fail = Some(e);
                },
            },
            Command::Rolld => match crate::stack::rold(&mut self.stack) {
                Ok(_) => {
                    self.pos = self.pos + 1;
                },
                Err(e) => {
                    self.fail = Some(e);
                },
            },
            Command::Ifelse => match crate::stack::ifelse(&mut self.stack) {
                Ok(_) => {
                    self.pos = self.pos + 1;
                },
                Err(e) => {
                    self.fail = Some(e);
                },
            },
            Command::Op(op) => match apply_bin_op(&mut self.stack, op) {
                Ok(None) => {
                    self.pos = self.pos + 1;
                },
                Ok(Some(o)) => {
                    self.pos = self.pos + 1;
                    match install(o) {
                        (Pending::Idle, _) => {},
                        (p, rq) => {
                            self.pending = p;
                            self.req = Some(rq);
                        },
                    }
                },
                Err(e) => {
                    self.fail = Some(e);
                },
            },
        }
        proof {
            assert(self@ =~= cmd_step(old(self)@, cmd));
        }
    }

    fn step_once(&mut self)
        requires
            old(self).wf(),
            !blocked(old(self)@),
            !finished(old(self)@),
        ensures
            final(self).wf(),
            final(self)@ == step_model(old(self)@),
            final(self)@.lexemes == old(self)@.lexemes,
    {
        if self.pos < self.lexemes.len() {
            let lexeme = self.lexemes[self.pos].clone();
            proof {
                assert(lexeme@ == old(self)@.lexemes[old(self)@.pos]);
            }
            match parse_data_type(&lexeme) {
                Some(Literal::Value(t)) => {
                    self.stack.push(t);
                    self.pos = self.pos + 1;
                    proof {
                        assert(self@ =~= step_model(old(self)@));
                    }
                },
                Some(Literal::FloatText) => {
                    self.pos = self.pos + 1;
                    self.pending = Pending::AwaitParse;
                    self.req = Some(FloatReq::Parse(lexeme));
                    proof {
                        assert(self@ =~= step_model(old(self)@));
                    }
                },
                None => match parse_command(lexeme.as_str()) {
                    Some(cmd) => {
                        self.do_command(cmd);
                        proof {
                            assert(self@ =~= step_model(old(self)@));
                        }
                    },
                    None => {
                        self.fail = Some(EvalError::UnsupportedToken(lexeme));
                        proof {
                            assert(self@ =~= step_model(old(self)@));
                        }
                    },
                },
            }
        } else {
            let sl = self.stack.len();
            proof {
                assert(self@.stack.len() == sl as int);
            }
            let bits: Option<u64> = match &self.stack[self.opos] {
                Token::Float(b) => Some(*b),
                _ => None,
            };
            match bits {
                Some(b) => {
                    self.pending = Pending::AwaitRender;
                    self.req = Some(FloatReq::Render(b));
                    proof {
                        assert(self@ =~= step_model(old(self)@));
                    }
                },
                None => {
                    let text = token_text(&self.stack[self.opos]).unwrap();
                    self.out.push(text);
                    self.opos = self.opos + 1;
                    proof {
                        assert(self@ =~= step_model(old(self)@));
                    }
                },
            }
        }
    }

    fn pending_idle(&self) -> (r: bool)
        ensures
            r == (self@.pending is Idle),
    {
        match &self.pending {
            Pending::Idle => true,
            _ => false,
        }
    }

    /// Drives the machine as far as it can go on its own: until it has
    /// finished, failed, or needs a float response.
    pub fn run(&mut self)
        requires
            old(self).wf(),
        ensures
            final(self).wf(),
            final(self)@ == run_spec(old(self)@),
    {
        while self.fail.is_none() && self.pending_idle() && (self.pos < self.lexemes.len()
            || self.opos < self.stack.len())
            invariant
                self.wf(),
                run_spec(self@) == run_spec(old(self)@),
            decreases
                    self@.lexemes.len() - self@.pos,
                    self@.stack.len() - self@.opos,
                    (if blocked(self@) {
                        0int
                    } else {
                        1int
                    }),
        {
            self.step_once();
        }
        proof {
            assert(run_spec(self@) == self@);
        }
    }

    /// Delivers the embedder's response to the awaiting continuation.
    pub fn resume(&mut self, resp: FloatResp)
        requires
            old(self).wf(),
            accepts(old(self)@.pending, resp@),
        ensures
            final(self).wf(),
            final(self)@ == resume_model(old(self)@, resp@),
    {
        let mut p = Pending::Idle;
        core::mem::swap(&mut p, &mut self.pending);
        self.req = None;
        match (p, resp) {
            (Pending::AwaitParse, FloatResp::Bits(b)) => {
                self.stack.push(Token::Float(b));
            },
            (Pending::AwaitWidenFirst(task, other), FloatResp::Bits(b)) => match other {
                NumOperand::IntVal(j) => {
                    self.pending = Pending::AwaitWidenSecond(task, b);
                    self.req = Some(FloatReq::Widen(j));
                },
                NumOperand::FloatBits(y) => {
                    self.fire(task, b, y);
                },
            },
            (Pending::AwaitWidenSecond(task, x), FloatResp::Bits(b)) => {
                self.fire(task, x, b);
            },
            (Pending::AwaitArith, FloatResp::Bits(b)) => {
                self.stack.push(Token::Float(b));
            },
            (Pending::AwaitCompare, FloatResp::Flag(f)) => {
                self.stack.push(Token::Bool(f));
            },
            (Pending::AwaitTextFirst(task, other), FloatResp::Text(t)) => match other {
                TextOperand::FloatBits(y) => {
                    self.pending = Pending::AwaitTextSecond(task, t);
                    self.req = Some(FloatReq::Render(y));
                },
                TextOperand::Ready(s2) => {
                    self.finish_text_exec(task, t, s2);
                },
            },
            (Pending::AwaitTextSecond(task, s1), FloatResp::Text(t)) => {
                self.finish_text_exec(task, s1, t);
            },
            (Pending::AwaitRender, FloatResp::Text(t)) => {
                let sl = self.stack.len();
                proof {
                    assert(self@.stack.len() == sl as int);
                }
                self.out.push(t);
                self.opos = self.opos + 1;
            },
            _ => {
                proof {
                    assert(false);
                }
            },
        }
        proof {
            assert(self@ =~= resume_model(old(self)@, resp@));
        }
    }

    fn fire(&mut self, task: FloatTask, x: u64, y: u64)
        ensures
            final(self)@ == fire_task(
                MachineModel { pending: PendingModel::Idle, req: None, ..old(self)@ },
                task,
                x,
                y,
            ),
    {
        match task {
            FloatTask::Arith(op) => {
                self.pending = Pending::AwaitArith;
                self.req = Some(FloatReq::Arith(op, x, y));
            },
            FloatTask::Compare(rel) => {
                self.pending = Pending::AwaitCompare;
                self.req = Some(FloatReq::Compare(rel, x, y));
            },
        }
        proof {
            assert(self@ =~= fire_task(
                MachineModel { pending: PendingModel::Idle, req: None, ..old(self)@ },
                task,
                x,
                y,
            ));
        }
    }

    fn finish_text_exec(&mut self, task: StrTask, a: String, b: String)
        ensures
            final(self)@ == finish_text(
                MachineModel { pending: PendingModel::Idle, req: None, ..old(self)@ },
                task,
                a@,
                b@,
            ),
    {
        self.pending = Pending::Idle;
        self.req = None;
        match task {
            StrTask::Join => {
                let joined = a.concat(b.as_str());
                proof {
                    assert(joined@ == a@ + b@);
                }
                self.stack.push(Token::Str(joined));
                proof {
                    assert(self.stack.deep_view() =~= old(self).stack.deep_view().push(
                        TokenModel::Str(a@ + b@),
                    ));
                }
            },
            StrTask::CmpEq(neg) => {
                let eq = str_eq(a.as_str(), b.as_str());
                self.stack.push(Token::Bool(eq != neg));
                proof {
                    assert(self.stack.deep_view() =~= old(self).stack.deep_view().push(
                        TokenModel::Bool((a@ == b@) != neg),
                    ));
                }
            },
        }
        proof {
            assert(self@ =~= finish_text(
                MachineModel { pending: PendingModel::Idle, req: None, ..old(self)@ },
                task,
                a@,
                b@,
            ));
        }
    }

    /// The awaited float request, if the machine is suspended.
    pub fn request(&self) -> (r: Option<FloatReq>)
        ensures
            match r {
                Some(q) => self@.req == Some(q@),
                None => self@.req is None,
            },
    {
        match &self.req {
            Some(q) => Some(q.clone()),
            None => None,
        }
    }

    /// The error that stopped the evaluation, if any.
    pub fn failure(&self) -> (r: Option<EvalError>)
        ensures
            match r {
                Some(e) => self@.fail == Some(e@),
                None => self@.fail is None,
            },
    {
        match &self.fail {
            Some(e) => Some(e.clone()),
            None => None,
        }
    }

    /// Whether the machine has finished: every lexeme consumed and every
    /// final value rendered.
    pub fn is_finished(&self) -> (r: bool)
        ensures
            r == finished(self@),
    {
        self.fail.is_none() && self.pending_idle() && self.pos == self.lexemes.len() && self.opos
            == self.stack.len()
    }

    /// The rendered final stack, bottom to top.
    pub fn output(&self) -> (r: Vec<String>)
        ensures
            r.deep_view() == self@.out,
    {
        self.out.clone()
    }

    /// The final operand stack, bottom to top.
    pub fn stack_values(&self) -> (r: &Vec<Token>)
        ensures
            r.deep_view() == self@.stack,
    {
        &self.stack
    }
}

/// Builds the machine for a lexeme sequence and drives it as far as it can
/// go on its own.
pub fn exec_stack(lexemes: &Vec<String>) -> (m: Machine)
    ensures
        m.wf(),
        m@ == run_spec(init_model(lexemes.deep_view())),
{
    let mut own: Vec<String> = Vec::new();
    let mut i: usize = 0;
    while i < lexemes.len()
        invariant
            i <= lexemes.len(),
            own.deep_view() =~= lexemes.deep_view().take(i as int),
        decreases lexemes.len() - i,
    {
        let ghost own0 = own.deep_view();
        own.push(lexemes[i].clone());
        i = i + 1;
        proof {
            assert(own.deep_view() =~= own0.push(lexemes.deep_view()[i - 1]));
            assert(own.deep_view() =~= lexemes.deep_view().take(i as int));
        }
    }
    proof {
        assert(own.deep_view() =~= lexemes.deep_view());
    }
    let mut m = Machine::new(own);
    m.run();
    m
}

/// Evaluates input text: lexes it and drives the machine as far as it can
/// go on its own.  The caller services any float requests and collects the
/// rendered output once the machine is finished.
pub fn exec(stack_str: &String) -> (m: Machine)
    ensures
        m.wf(),
        m@ == run_spec(init_model(tokens_of(stack_str@))),
{
    let lexemes = read_stack(stack_str);
    exec_stack(&lexemes)
}

} // verus!

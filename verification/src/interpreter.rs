//! The tree-walking evaluator: statements run in sequence against one flat
//! global environment; `print` appends the value's display form to the
//! interpreter's output, one line per print.
//!
//! Execution is measured in fuel: every statement executed (every loop
//! iteration included) costs one unit, so a run either completes, fails
//! with the first runtime error, or stops with the fuel spent. The
//! specification semantics `sp_exec_stmt` / `sp_exec_seq` is indexed the
//! same way, and the executable interpreter is proved to realize it
//! exactly, partial output included.

use vstd::prelude::*;
use crate::ast::{BinaryOp, Expr, ExprV, Stmt, StmtV, UnaryOp, lemma_stmts_view, stmts_view};
use crate::num::{num_add, num_div, num_mul, num_neg, num_sub, render_num};
use crate::value::{Value, ValueV, sp_display, sp_truthy};

verus! {

#[derive(Debug)]
pub enum RuntimeError {
    UndefinedVariable(String),
    DivisionByZero,
    InvalidOperation,
}

pub enum RuntimeErrorV {
    UndefinedVariable(Seq<char>),
    DivisionByZero,
    InvalidOperation,
}

impl View for RuntimeError {
    type V = RuntimeErrorV;

    open spec fn view(&self) -> RuntimeErrorV {
        match self {
            RuntimeError::UndefinedVariable(n) => RuntimeErrorV::UndefinedVariable(n@),
            RuntimeError::DivisionByZero => RuntimeErrorV::DivisionByZero,
            RuntimeError::InvalidOperation => RuntimeErrorV::InvalidOperation,
        }
    }
}

/// The state the semantics acts on: the global bindings and the lines
/// printed so far.
pub struct StateV {
    pub env: Map<Seq<char>, ValueV>,
    pub out: Seq<Seq<char>>,
}

/// What running a statement yields: completion with the fuel left, the
/// first runtime error, or exhaustion of the fuel; each carries the state
/// reached, partial output included.
pub enum OutcomeV {
    Done { st: StateV, fuel: nat },
    Failed { st: StateV, err: RuntimeErrorV },
    Stopped { st: StateV },
}

/// The binary-operator table. Numbers compare and compute exactly on the
/// fixed-point representation; division by exactly zero fails; `+` between
/// a string and a number concatenates the number's display form.
pub open spec fn sp_binary(l: ValueV, op: BinaryOp, r: ValueV) -> Result<ValueV, RuntimeErrorV> {
    match (l, r) {
        (ValueV::Number(a), ValueV::Number(b)) => match op {
            BinaryOp::Add => Ok(ValueV::Number(num_add(a, b))),
            BinaryOp::Subtract => Ok(ValueV::Number(num_sub(a, b))),
            BinaryOp::Multiply => Ok(ValueV::Number(num_mul(a, b))),
            BinaryOp::Divide => if b == 0 {
                Err(RuntimeErrorV::DivisionByZero)
            } else {
                Ok(ValueV::Number(num_div(a, b)))
            },
            BinaryOp::Equal => Ok(ValueV::Boolean(a == b)),
            BinaryOp::NotEqual => Ok(ValueV::Boolean(a != b)),
            BinaryOp::Less => Ok(ValueV::Boolean(a < b)),
            BinaryOp::Greater => Ok(ValueV::Boolean(a > b)),
            BinaryOp::LessEqual => Ok(ValueV::Boolean(a <= b)),
            BinaryOp::GreaterEqual => Ok(ValueV::Boolean(a >= b)),
        },
        (ValueV::Str(a), ValueV::Str(b)) => match op {
            BinaryOp::Add => Ok(ValueV::Str(a + b)),
            BinaryOp::Equal => Ok(ValueV::Boolean(a == b)),
            BinaryOp::NotEqual => Ok(ValueV::Boolean(a != b)),
            _ => Err(RuntimeErrorV::InvalidOperation),
        },
        (ValueV::Str(a), ValueV::Number(b)) => match op {
            BinaryOp::Add => Ok(ValueV::Str(a + render_num(b))),
            _ => Err(RuntimeErrorV::InvalidOperation),
        },
        (ValueV::Number(a), ValueV::Str(b)) => match op {
            BinaryOp::Add => Ok(ValueV::Str(render_num(a) + b)),
            _ => Err(RuntimeErrorV::InvalidOperation),
        },
        _ => Err(RuntimeErrorV::InvalidOperation),
    }
}

/// The unary-operator table: negation of a number, nothing else.
pub open spec fn sp_unary_value(op: UnaryOp, v: ValueV) -> Result<ValueV, RuntimeErrorV> {
    match (op, v) {
        (UnaryOp::Minus, ValueV::Number(a)) => Ok(ValueV::Number(num_neg(a))),
        _ => Err(RuntimeErrorV::InvalidOperation),
    }
}

/// Expression evaluation: pure except for reading the environment; the
/// left operand is evaluated before the right, and the first error wins.
pub open spec fn sp_eval(env: Map<Seq<char>, ValueV>, e: ExprV) -> Result<ValueV, RuntimeErrorV>
    decreases e,
{
    match e {
        ExprV::Number(m) => Ok(ValueV::Number(m)),
        ExprV::Str(s) => Ok(ValueV::Str(s)),
        ExprV::Identifier(n) => {
            if env.contains_key(n) {
                Ok(env[n])
            } else {
                Err(RuntimeErrorV::UndefinedVariable(n))
            }
        },
        ExprV::Binary { left, operator, right } => match sp_eval(env, *left) {
            Ok(lv) => match sp_eval(env, *right) {
                Ok(rv) => sp_binary(lv, operator, rv),
                Err(e2) => Err(e2),
            },
            Err(e1) => Err(e1),
        },
        ExprV::Unary { operator, operand } => match sp_eval(env, *operand) {
            Ok(v) => sp_unary_value(operator, v),
            Err(e2) => Err(e2),
        },
    }
}

/// One statement, charged one unit of fuel up front. `let` binds or
/// overwrites unconditionally; assignment overwrites and requires the name
/// to exist; blocks introduce no scope.
pub open spec fn sp_exec_stmt(st: StateV, s: StmtV, fuel: nat) -> OutcomeV
    decreases fuel, s,
{
    if fuel == 0 {
        OutcomeV::Stopped { st }
    } else {
        let f = (fuel - 1) as nat;
        match s {
            StmtV::Expression(e) => match sp_eval(st.env, e) {
                Ok(_) => OutcomeV::Done { st, fuel: f },
                Err(er) => OutcomeV::Failed { st, err: er },
            },
            StmtV::Let { name, value } => match sp_eval(st.env, value) {
                Ok(v) => OutcomeV::Done {
                    st: StateV { env: st.env.insert(name, v), out: st.out },
                    fuel: f,
                },
                Err(er) => OutcomeV::Failed { st, err: er },
            },
            StmtV::Assignment { name, value } => match sp_eval(st.env, value) {
                Ok(v) => {
                    if st.env.contains_key(name) {
                        OutcomeV::Done {
                            st: StateV { env: st.env.insert(name, v), out: st.out },
                            fuel: f,
                        }
                    } else {
                        OutcomeV::Failed { st, err: RuntimeErrorV::UndefinedVariable(name) }
                    }
                },
                Err(er) => OutcomeV::Failed { st, err: er },
            },
            StmtV::If { condition, then_stmt, else_stmt } => match sp_eval(st.env, condition) {
                Ok(v) => {
                    if sp_truthy(v) {
                        sp_exec_stmt(st, *then_stmt, f)
                    } else {
                        match else_stmt {
                            Some(b) => sp_exec_stmt(st, *b, f),
                            None => OutcomeV::Done { st, fuel: f },
                        }
                    }
                },
                Err(er) => OutcomeV::Failed { st, err: er },
            },
            StmtV::While { condition, body } => match sp_eval(st.env, condition) {
                Ok(v) => {
                    if !sp_truthy(v) {
                        OutcomeV::Done { st, fuel: f }
                    } else {
                        match sp_exec_stmt(st, *body, f) {
                            OutcomeV::Done { st: st2, fuel: f2 } => {
                                if f2 < fuel {
                                    sp_exec_stmt(st2, s, f2)
                                } else {
                                    OutcomeV::Stopped { st: st2 }
                                }
                            },
                            OutcomeV::Failed { st: st2, err } => OutcomeV::Failed { st: st2, err },
                            OutcomeV::Stopped { st: st2 } => OutcomeV::Stopped { st: st2 },
                        }
                    }
                },
                Err(er) => OutcomeV::Failed { st, err: er },
            },
            StmtV::Block(ss) => sp_exec_seq(st, ss, f),
            StmtV::Print(e) => match sp_eval(st.env, e) {
                Ok(v) => OutcomeV::Done {
                    st: StateV { env: st.env, out: st.out.push(sp_display(v)) },
                    fuel: f,
                },
                Err(er) => OutcomeV::Failed { st, err: er },
            },
        }
    }
}

/// A statement sequence, in order, propagating the first failure and
/// threading the fuel.
pub open spec fn sp_exec_seq(st: StateV, ss: Seq<StmtV>, fuel: nat) -> OutcomeV
    decreases fuel, ss,
{
    if ss.len() == 0 {
        OutcomeV::Done { st, fuel }
    } else {
        match sp_exec_stmt(st, ss[0], fuel) {
            OutcomeV::Done { st: st2, fuel: f2 } => {
                if f2 < fuel {
                    sp_exec_seq(st2, ss.drop_first(), f2)
                } else {
                    OutcomeV::Stopped { st: st2 }
                }
            },
            OutcomeV::Failed { st: st2, err } => OutcomeV::Failed { st: st2, err },
            OutcomeV::Stopped { st: st2 } => OutcomeV::Stopped { st: st2 },
        }
    }
}

/// The bindings an association list denotes; a later entry for the same
/// name overrides an earlier one.
pub open spec fn env_map(entries: Seq<(String, Value)>) -> Map<Seq<char>, ValueV>
    decreases entries.len(),
{
    if entries.len() == 0 {
        Map::empty()
    } else {
        env_map(entries.drop_last()).insert(entries.last().0@, entries.last().1@)
    }
}

/// Entries at or after `i` that never mention `name` do not affect its
/// binding.
proof fn lemma_env_skip(entries: Seq<(String, Value)>, name: Seq<char>, i: int)
    requires
        0 <= i <= entries.len(),
        forall|j: int| i <= j < entries.len() ==> entries[j].0@ != name,
    ensures
        env_map(entries).contains_key(name) == env_map(entries.take(i)).contains_key(name),
        env_map(entries).contains_key(name) ==> env_map(entries)[name] == env_map(
            entries.take(i),
        )[name],
    decreases entries.len() - i,
{
    if i < entries.len() {
        let shorter = entries.drop_last();
        assert(entries.take(entries.len() as int) =~= entries);
        lemma_env_skip(shorter, name, i);
        assert(shorter.take(i) =~= entries.take(i));
    } else {
        assert(entries.take(i) =~= entries);
    }
}

pub struct Interpreter {
    pub globals: Vec<(String, Value)>,
    pub output: Vec<String>,
}

/// The exit of one executable step, mirroring `OutcomeV` with the state
/// left in the interpreter itself.
pub enum ExecStatus {
    Done(u64),
    Failed(RuntimeError),
    Stopped,
}

pub open spec fn outcome_of(st: StateV, r: ExecStatus) -> OutcomeV {
    match r {
        ExecStatus::Done(f) => OutcomeV::Done { st, fuel: f as nat },
        ExecStatus::Failed(e) => OutcomeV::Failed { st, err: e@ },
        ExecStatus::Stopped => OutcomeV::Stopped { st },
    }
}

pub open spec fn val_res(r: Result<Value, RuntimeError>) -> Result<ValueV, RuntimeErrorV> {
    match r {
        Ok(v) => Ok(v@),
        Err(e) => Err(e@),
    }
}

impl Interpreter {
    pub open spec fn env(&self) -> Map<Seq<char>, ValueV> {
        env_map(self.globals@)
    }

    pub open spec fn out(&self) -> Seq<Seq<char>> {
        self.output.deep_view()
    }

    pub open spec fn state(&self) -> StateV {
        StateV { env: self.env(), out: self.out() }
    }

    pub fn new() -> (r: Interpreter)
        ensures
            r.env() == Map::<Seq<char>, ValueV>::empty(),
            r.out() == Seq::<Seq<char>>::empty(),
    {
        let r = Interpreter { globals: Vec::new(), output: Vec::new() };
        proof {
            assert(r.out() =~= Seq::<Seq<char>>::empty());
        }
        r
    }

    fn env_lookup(&self, name: &String) -> (r: Option<Value>)
        ensures
            match r {
                Some(v) => self.env().contains_key(name@) && v@ == self.env()[name@],
                None => !self.env().contains_key(name@),
            },
    {
        let mut i: usize = self.globals.len();
        while i > 0
            invariant
                i <= self.globals@.len(),
                forall|j: int| i <= j < self.globals@.len() ==> self.globals@[j].0@ != name@,
            decreases i,
        {
            i = i - 1;
            if self.globals[i].0 == *name {
                let v = self.globals[i].1.clone();
                proof {
                    lemma_env_skip(self.globals@, name@, i + 1);
                    let pre = self.globals@.take(i + 1);
                    assert(pre.drop_last() =~= self.globals@.take(i as int));
                    assert(pre.last() == self.globals@[i as int]);
                    assert(env_map(pre).contains_key(name@));
                    assert(env_map(pre)[name@] == self.globals@[i as int].1@);
                }
                return Some(v);
            }
        }
        proof {
            lemma_env_skip(self.globals@, name@, 0);
            assert(self.globals@.take(0) =~= Seq::<(String, Value)>::empty());
        }
        None
    }

    fn env_contains(&self, name: &String) -> (r: bool)
        ensures
            r == self.env().contains_key(name@),
    {
        let v = self.env_lookup(name);
        v.is_some()
    }

    fn env_insert(&mut self, name: String, val: Value)
        ensures
            final(self).env() == old(self).env().insert(name@, val@),
            final(self).output == old(self).output,
    {
        let ghost pre = self.globals@;
        self.globals.push((name, val));
        proof {
            assert(self.globals@.drop_last() =~= pre);
        }
    }

    /// The prior value bound to a name, if any; how the tests observe the
    /// environment.
    pub fn get_variable(&self, name: &String) -> (r: Option<Value>)
        ensures
            match r {
                Some(v) => self.env().contains_key(name@) && v@ == self.env()[name@],
                None => !self.env().contains_key(name@),
            },
    {
        self.env_lookup(name)
    }

    pub fn is_truthy(&self, value: &Value) -> (r: bool)
        ensures
            r == sp_truthy(value@),
    {
        value.truthy()
    }

    fn apply_binary_op(&self, left: Value, op: BinaryOp, right: Value) -> (r: Result<
        Value,
        RuntimeError,
    >)
        ensures
            sp_binary(left@, op, right@) == val_res(r),
    {
        match (left, right) {
            (Value::Number(l), Value::Number(n)) => match op {
                BinaryOp::Add => Ok(Value::Number(l.add(n))),
                BinaryOp::Subtract => Ok(Value::Number(l.sub(n))),
                BinaryOp::Multiply => Ok(Value::Number(l.mul(n))),
                BinaryOp::Divide => {
                    if n.is_zero() {
                        Err(RuntimeError::DivisionByZero)
                    } else {
                        Ok(Value::Number(l.div(n)))
                    }
                },
                BinaryOp::Equal => Ok(Value::Boolean(l.eq_num(n))),
                BinaryOp::NotEqual => Ok(Value::Boolean(!l.eq_num(n))),
                BinaryOp::Less => Ok(Value::Boolean(l.lt(n))),
                BinaryOp::Greater => Ok(Value::Boolean(l.gt(n))),
                BinaryOp::LessEqual => Ok(Value::Boolean(l.le(n))),
                BinaryOp::GreaterEqual => Ok(Value::Boolean(l.ge(n))),
            },
            (Value::Str(l), Value::Str(s)) => match op {
                BinaryOp::Add => Ok(Value::Str(l.concat(s.as_str()))),
                BinaryOp::Equal => Ok(Value::Boolean(l == s)),
                BinaryOp::NotEqual => Ok(Value::Boolean(!(l == s))),
                _ => Err(RuntimeError::InvalidOperation),
            },
            (Value::Str(l), Value::Number(n)) => match op {
                BinaryOp::Add => {
                    let ns = crate::text::string_from_chars(&n.to_chars());
                    Ok(Value::Str(l.concat(ns.as_str())))
                },
                _ => Err(RuntimeError::InvalidOperation),
            },
            (Value::Number(n), Value::Str(s)) => match op {
                BinaryOp::Add => {
                    let ns = crate::text::string_from_chars(&n.to_chars());
                    Ok(Value::Str(ns.concat(s.as_str())))
                },
                _ => Err(RuntimeError::InvalidOperation),
            },
            _ => Err(RuntimeError::InvalidOperation),
        }
    }

    fn apply_unary_op(&self, op: UnaryOp, operand: Value) -> (r: Result<Value, RuntimeError>)
        ensures
            sp_unary_value(op, operand@) == val_res(r),
    {
        match (op, operand) {
            (UnaryOp::Minus, Value::Number(n)) => Ok(Value::Number(n.neg())),
            _ => Err(RuntimeError::InvalidOperation),
        }
    }

    fn evaluate_expr(&self, expr: &Expr) -> (r: Result<Value, RuntimeError>)
        ensures
            sp_eval(self.env(), expr@) == val_res(r),
        decreases expr,
    {
        match expr {
            Expr::Number(n) => Ok(Value::Number(*n)),
            Expr::Str(s) => Ok(Value::Str(s.clone())),
            Expr::Identifier(name) => match self.env_lookup(name) {
                Some(v) => Ok(v),
                None => Err(RuntimeError::UndefinedVariable(name.clone())),
            },
            Expr::Binary { left, operator, right } => {
                let lv = self.evaluate_expr(left)?;
                let rv = self.evaluate_expr(right)?;
                self.apply_binary_op(lv, *operator, rv)
            },
            Expr::Unary { operator, operand } => {
                let v = self.evaluate_expr(operand)?;
                self.apply_unary_op(*operator, v)
            },
        }
    }

    fn execute_stmt(&mut self, stmt: &Stmt, fuel: u64) -> (r: ExecStatus)
        ensures
            sp_exec_stmt(old(self).state(), stmt@, fuel as nat) == outcome_of(
                final(self).state(),
                r,
            ),
            r matches ExecStatus::Done(f2) ==> f2 < fuel,
        decreases fuel, stmt,
    {
        if fuel == 0 {
            return ExecStatus::Stopped;
        }
        let f = fuel - 1;
        match stmt {
            Stmt::Expression(expr) => match self.evaluate_expr(expr) {
                Ok(_) => ExecStatus::Done(f),
                Err(e) => ExecStatus::Failed(e),
            },
            Stmt::Let { name, value } => match self.evaluate_expr(value) {
                Ok(v) => {
                    self.env_insert(name.clone(), v);
                    ExecStatus::Done(f)
                },
                Err(e) => ExecStatus::Failed(e),
            },
            Stmt::Assignment { name, value } => match self.evaluate_expr(value) {
                Ok(v) => {
                    if self.env_contains(name) {
                        self.env_insert(name.clone(), v);
                        ExecStatus::Done(f)
                    } else {
                        ExecStatus::Failed(RuntimeError::UndefinedVariable(name.clone()))
                    }
                },
                Err(e) => ExecStatus::Failed(e),
            },
            Stmt::If { condition, then_stmt, else_stmt } => match self.evaluate_expr(condition) {
                Ok(v) => {
                    if v.truthy() {
                        self.execute_stmt(then_stmt, f)
                    } else {
                        match else_stmt {
                            Some(b) => self.execute_stmt(b, f),
                            None => ExecStatus::Done(f),
                        }
                    }
                },
                Err(e) => ExecStatus::Failed(e),
            },
            Stmt::While { condition, body } => match self.evaluate_expr(condition) {
                Ok(v) => {
                    if v.truthy() {
                        match self.execute_stmt(body, f) {
                            ExecStatus::Done(f2) => self.execute_stmt(stmt, f2),
                            ExecStatus::Failed(e) => ExecStatus::Failed(e),
                            ExecStatus::Stopped => ExecStatus::Stopped,
                        }
                    } else {
                        ExecStatus::Done(f)
                    }
                },
                Err(e) => ExecStatus::Failed(e),
            },
            Stmt::Block(stmts) => {
                let r = self.execute_seq(stmts, 0, f);
                proof {
                    lemma_stmts_view(stmts@);
                    assert(stmts_view(stmts@) =~= stmts.deep_view());
                    assert(stmts.deep_view().skip(0) =~= stmts.deep_view());
                }
                r
            },
            Stmt::Print(expr) => match self.evaluate_expr(expr) {
                Ok(v) => {
                    let ghost pre = self.output.deep_view();
                    let line = v.to_display_string();
                    self.output.push(line);
                    proof {
                        assert(self.output.deep_view() =~= pre.push(sp_display(v@)));
                    }
                    ExecStatus::Done(f)
                },
                Err(e) => ExecStatus::Failed(e),
            },
        }
    }

    fn execute_seq(&mut self, stmts: &Vec<Stmt>, i: usize, fuel: u64) -> (r: ExecStatus)
        requires
            i <= stmts@.len(),
        ensures
            sp_exec_seq(old(self).state(), stmts.deep_view().skip(i as int), fuel as nat)
                == outcome_of(final(self).state(), r),
            r matches ExecStatus::Done(f2) ==> f2 <= fuel,
        decreases fuel, stmts@,
    {
        if i >= stmts.len() {
            proof {
                assert(stmts.deep_view().skip(i as int) =~= Seq::<StmtV>::empty());
            }
            return ExecStatus::Done(fuel);
        }
        let ghost suffix = stmts.deep_view().skip(i as int);
        proof {
            assert(suffix[0] == stmts.deep_view()[i as int]);
            assert(suffix.drop_first() =~= stmts.deep_view().skip(i as int + 1));
        }
        match self.execute_stmt(&stmts[i], fuel) {
            ExecStatus::Done(f2) => self.execute_seq(stmts, i + 1, f2),
            ExecStatus::Failed(e) => ExecStatus::Failed(e),
            ExecStatus::Stopped => ExecStatus::Stopped,
        }
    }

    /// Runs the statements in order against the global environment, within
    /// the given fuel.
    pub fn interpret(&mut self, statements: &Vec<Stmt>, fuel: u64) -> (r: ExecStatus)
        ensures
            sp_exec_seq(old(self).state(), statements.deep_view(), fuel as nat) == outcome_of(
                final(self).state(),
                r,
            ),
    {
        let r = self.execute_seq(statements, 0, fuel);
        proof {
            assert(statements.deep_view().skip(0) =~= statements.deep_view());
        }
        r
    }
}

} // verus!

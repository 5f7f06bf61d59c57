//! General laws of the language, stated over the specification semantics
//! and proved once and for all inputs.

use vstd::prelude::*;
use crate::ast::{BinaryOp, ExprV, StmtV};
use crate::interpreter::{
    OutcomeV,
    RuntimeErrorV,
    StateV,
    sp_binary,
    sp_eval,
    sp_exec_seq,
    sp_exec_stmt,
};
use crate::lexer::{sp_escape, sp_string_body};
use crate::parser::{ParseError, factor_op, sp_comparison, sp_comparison_rest, sp_equality, sp_equality_rest, sp_expression, sp_factor, sp_factor_rest, sp_primary, sp_term, sp_term_rest, sp_unary, tok_at};
use crate::token::{TokenTypeV, TokenV};
use crate::num::{SCALE, abs_int, digit_char, digits_rec, pad_digits, render_num, strip_zeros};
use crate::value::ValueV;

verus! {

/// Reading an identifier that was never bound fails with exactly
/// `UndefinedVariable` carrying that name.
pub proof fn lemma_undefined_identifier(env: Map<Seq<char>, ValueV>, name: Seq<char>)
    requires
        !env.contains_key(name),
    ensures
        sp_eval(env, ExprV::Identifier(name)) == Err::<ValueV, RuntimeErrorV>(
            RuntimeErrorV::UndefinedVariable(name),
        ),
{
}

/// Assigning to a name that was never bound fails with exactly
/// `UndefinedVariable`, whatever value the right-hand side evaluates to,
/// and leaves the state untouched.
pub proof fn lemma_assign_undefined(st: StateV, name: Seq<char>, value: ExprV, fuel: nat)
    requires
        !st.env.contains_key(name),
        (sp_eval(st.env, value) is Ok),
        fuel >= 1,
    ensures
        sp_exec_stmt(st, (StmtV::Assignment { name, value }), fuel) == (OutcomeV::Failed {
            st,
            err: RuntimeErrorV::UndefinedVariable(name),
        }),
{
}

/// Division of numbers fails with `DivisionByZero` exactly when the
/// divisor's value is zero, and otherwise yields the truncating
/// fixed-point quotient.
pub proof fn lemma_division_by_zero(env: Map<Seq<char>, ValueV>, a: int, b: int)
    ensures
        sp_binary(ValueV::Number(a), BinaryOp::Divide, ValueV::Number(b)) == (if b == 0 {
            Err::<ValueV, RuntimeErrorV>(RuntimeErrorV::DivisionByZero)
        } else {
            Ok::<ValueV, RuntimeErrorV>(ValueV::Number(crate::num::num_div(a, b)))
        }),
        sp_eval(
            env,
            ExprV::Binary {
                left: Box::new(ExprV::Number(a)),
                operator: BinaryOp::Divide,
                right: Box::new(ExprV::Number(0)),
            },
        ) == Err::<ValueV, RuntimeErrorV>(RuntimeErrorV::DivisionByZero),
{
    let e = ExprV::Binary {
        left: Box::new(ExprV::Number(a)),
        operator: BinaryOp::Divide,
        right: Box::new(ExprV::Number(0)),
    };
    assert(sp_eval(env, ExprV::Number(a)) == Ok::<ValueV, RuntimeErrorV>(ValueV::Number(a)));
    assert(sp_eval(env, ExprV::Number(0)) == Ok::<ValueV, RuntimeErrorV>(ValueV::Number(0)));
    assert(sp_eval(env, e) == sp_binary(ValueV::Number(a), BinaryOp::Divide, ValueV::Number(0)));
}

/// `+` between a string and any number concatenates the number's display
/// form, on either side.
pub proof fn lemma_coercion_concat(s: Seq<char>, m: int)
    ensures
        sp_binary(ValueV::Str(s), BinaryOp::Add, ValueV::Number(m)) == Ok::<
            ValueV,
            RuntimeErrorV,
        >(ValueV::Str(s + render_num(m))),
        sp_binary(ValueV::Number(m), BinaryOp::Add, ValueV::Str(s)) == Ok::<
            ValueV,
            RuntimeErrorV,
        >(ValueV::Str(render_num(m) + s)),
{
}

proof fn lemma_digits_are_digits(n: nat)
    ensures
        forall|i: int|
            0 <= i < digits_rec(n).len() ==> crate::lexer::is_digit(#[trigger] digits_rec(n)[i]),
    decreases n,
{
    if n < 10 {
        assert(crate::lexer::is_digit(digit_char(n)));
    } else {
        lemma_digits_are_digits(n / 10);
        assert(crate::lexer::is_digit(digit_char(n % 10)));
        assert(forall|i: int|
            0 <= i < digits_rec(n).len() - 1 ==> #[trigger] digits_rec(n)[i] == digits_rec(n / 10)[i]);
    }
}

/// A whole number displays with no decimal point at all: no trailing `.0`,
/// no fraction.
pub proof fn lemma_whole_number_display(m: int)
    requires
        abs_int(m) % (SCALE as int) == 0,
    ensures
        forall|i: int| 0 <= i < render_num(m).len() ==> #[trigger] render_num(m)[i] != '.',
{
    let a = abs_int(m);
    let ip = (a / (SCALE as int)) as nat;
    lemma_digits_are_digits(ip);
    assert forall|i: int| 0 <= i < render_num(m).len() implies #[trigger] render_num(m)[i]
        != '.' by {
        if m < 0 {
            if i > 0 {
                assert(render_num(m)[i] == digits_rec(ip)[i - 1]);
            }
        } else {
            assert(render_num(m)[i] == digits_rec(ip)[i]);
        }
    }
}

/// Two consecutive `let`s of the same name leave the second value bound,
/// with no error: re-declaration overwrites.
pub proof fn lemma_redeclaration(st: StateV, name: Seq<char>, m1: int, m2: int, fuel: nat)
    requires
        fuel >= 2,
    ensures
        sp_exec_seq(
            st,
            seq![
                (StmtV::Let { name, value: ExprV::Number(m1) }),
                (StmtV::Let { name, value: ExprV::Number(m2) }),
            ],
            fuel,
        ) == (OutcomeV::Done {
            st: (StateV { env: st.env.insert(name, ValueV::Number(m2)), out: st.out }),
            fuel: (fuel - 2) as nat,
        }),
{
    let ss = seq![
        StmtV::Let { name, value: ExprV::Number(m1) },
        StmtV::Let { name, value: ExprV::Number(m2) },
    ];
    let f1 = (fuel - 1) as nat;
    let f2 = (fuel - 2) as nat;
    let st1 = StateV { env: st.env.insert(name, ValueV::Number(m1)), out: st.out };
    let st2 = StateV { env: st1.env.insert(name, ValueV::Number(m2)), out: st.out };
    assert(ss.drop_first() =~= seq![StmtV::Let { name, value: ExprV::Number(m2) }]);
    assert(ss.drop_first().drop_first() =~= Seq::<StmtV>::empty());
    assert(sp_exec_stmt(st, ss[0], fuel) == (OutcomeV::Done { st: st1, fuel: f1 }));
    assert(sp_exec_stmt(st1, ss.drop_first()[0], f1) == (OutcomeV::Done { st: st2, fuel: f2 }));
    assert(sp_exec_seq(st2, ss.drop_first().drop_first(), f2) == (OutcomeV::Done {
        st: st2,
        fuel: f2,
    }));
    assert(sp_exec_seq(st1, ss.drop_first(), f1) == (OutcomeV::Done { st: st2, fuel: f2 }));
    assert(sp_exec_seq(st, ss, fuel) == (OutcomeV::Done { st: st2, fuel: f2 }));
    assert(st1.env.insert(name, ValueV::Number(m2)) =~= st.env.insert(name, ValueV::Number(m2)));
}

/// A bare assignment inside a block mutates the one global namespace
/// exactly as it would outside the block: blocks introduce no scope.
pub proof fn lemma_flat_scope(st: StateV, name: Seq<char>, m: int, fuel: nat)
    requires
        st.env.contains_key(name),
        fuel >= 2,
    ensures
        sp_exec_stmt(
            st,
            StmtV::Block(seq![(StmtV::Assignment { name, value: ExprV::Number(m) })]),
            fuel,
        ) == (OutcomeV::Done {
            st: (StateV { env: st.env.insert(name, ValueV::Number(m)), out: st.out }),
            fuel: (fuel - 2) as nat,
        }),
{
    let ss = seq![StmtV::Assignment { name, value: ExprV::Number(m) }];
    let f1 = (fuel - 1) as nat;
    let f2 = (fuel - 2) as nat;
    let st1 = StateV { env: st.env.insert(name, ValueV::Number(m)), out: st.out };
    assert(ss.drop_first() =~= Seq::<StmtV>::empty());
    assert(sp_exec_stmt(st, ss[0], f1) == (OutcomeV::Done { st: st1, fuel: f2 }));
    assert(sp_exec_seq(st1, ss.drop_first(), f2) == (OutcomeV::Done { st: st1, fuel: f2 }));
    assert(sp_exec_seq(st, ss, f1) == (OutcomeV::Done { st: st1, fuel: f2 }));
    assert(sp_exec_stmt(st, StmtV::Block(ss), fuel) == sp_exec_seq(st, ss, f1));
}

/// How a string's content is spelled in source text: each of the five
/// escapable characters as its two-character escape, anything else as
/// itself.
pub open spec fn escape_str(s: Seq<char>) -> Seq<char>
    decreases s.len(),
{
    if s.len() == 0 {
        Seq::empty()
    } else {
        escape_char(s[0]) + escape_str(s.drop_first())
    }
}

pub open spec fn escape_char(c: char) -> Seq<char> {
    if c == '\n' {
        seq!['\\', 'n']
    } else if c == '\t' {
        seq!['\\', 't']
    } else if c == '\r' {
        seq!['\\', 'r']
    } else if c == '\\' {
        seq!['\\', '\\']
    } else if c == '"' {
        seq!['\\', '"']
    } else {
        seq![c]
    }
}

/// Round trip for string literals: writing any content in source-text form
/// and scanning it back yields exactly that content, consumes
/// exactly the written characters and the closing quote, and leaves the
/// line count unchanged, whatever follows the literal.
pub proof fn lemma_string_roundtrip(s: Seq<char>, u: Seq<char>, t: Seq<char>, line: int)
    ensures
        ({
            let input = u + escape_str(s) + seq!['"'] + t;
            sp_string_body(input, u.len() as int, line) == (
                s,
                (u.len() + escape_str(s).len() + 1) as int,
                line,
            )
        }),
    decreases s.len(),
{
    let input = u + escape_str(s) + seq!['"'] + t;
    let pos = u.len() as int;
    if s.len() == 0 {
        assert(input[pos] == '"');
    } else {
        let c = s[0];
        let rest = s.drop_first();
        let u2 = u + escape_char(c);
        lemma_string_roundtrip(rest, u2, t, line);
        assert(u2 + escape_str(rest) + seq!['"'] + t =~= input);
        if c == '\n' || c == '\t' || c == '\r' || c == '\\' || c == '"' {
            assert(input[pos] == '\\');
            assert(input[pos + 1] == escape_char(c)[1]);
            assert(sp_escape(input[pos + 1]) == seq![c]);
            let inner = sp_string_body(input, pos + 2, line);
            assert(inner == (rest, (u.len() + escape_str(s).len() + 1) as int, line));
            assert(seq![c] + rest =~= s);
        } else {
            assert(input[pos] == c);
            assert(c != '"' && c != '\\');
            let inner = sp_string_body(input, pos + 1, line);
            assert(inner == (rest, (u.len() + escape_str(s).len() + 1) as int, line));
            assert(seq![c] + rest =~= s);
        }
    }
}


/// The saturating integer-part accumulator folded through the characters
/// of `input` between `i` and `j`, in scan order.
pub open spec fn acc_fold(input: Seq<char>, i: int, j: int, a: int) -> int
    decreases j - i,
{
    if 0 <= i < j {
        acc_fold(input, i + 1, j, crate::num::sat_step(a, crate::num::digit_val(input[i])))
    } else {
        a
    }
}

proof fn lemma_scan_through_digits(input: Seq<char>, i: int, j: int, a: int)
    requires
        0 <= i <= j <= input.len(),
        forall|k: int| i <= k < j ==> crate::num::is_digit_char(#[trigger] input[k]),
        j == input.len() || !crate::num::is_digit_char(input[j]),
    ensures
        crate::num::sp_int_part(input, i, a) == (acc_fold(input, i, j, a), j),
    decreases j - i,
{
    if i < j {
        assert(crate::num::is_digit_char(input[i]));
        lemma_scan_through_digits(
            input,
            i + 1,
            j,
            crate::num::sat_step(a, crate::num::digit_val(input[i])),
        );
    }
}

proof fn lemma_acc_fold_split(input: Seq<char>, i: int, mid: int, j: int, a: int)
    requires
        0 <= i <= mid <= j,
    ensures
        acc_fold(input, i, j, a) == acc_fold(input, mid, j, acc_fold(input, i, mid, a)),
    decreases mid - i,
{
    if i < mid {
        lemma_acc_fold_split(
            input,
            i + 1,
            mid,
            j,
            crate::num::sat_step(a, crate::num::digit_val(input[i])),
        );
    }
}

proof fn lemma_digit_char_val(d: nat)
    requires
        d < 10,
    ensures
        crate::num::is_digit_char(digit_char(d)),
        crate::num::digit_val(digit_char(d)) == d,
{
}

proof fn lemma_fold_digits_value(input: Seq<char>, i: int, n: nat)
    requires
        0 <= i,
        i + digits_rec(n).len() <= input.len(),
        input.subrange(i, i + digits_rec(n).len()) == digits_rec(n),
        n <= 9_223_372_036_854,
    ensures
        acc_fold(input, i, i + digits_rec(n).len(), 0) == n,
    decreases n,
{
    if n < 10 {
        assert(input[i] == digits_rec(n)[0]);
        lemma_digit_char_val(n);
        let d = crate::num::digit_val(input[i]);
        assert(acc_fold(input, i + 1, i + 1, crate::num::sat_step(0, d)) == crate::num::sat_step(
            0,
            d,
        ));
    } else {
        let d_all = digits_rec(n);
        let d_hi = digits_rec(n / 10);
        assert(d_all == d_hi.push(digit_char(n % 10)));
        assert(input.subrange(i, i + d_hi.len() as int) =~= d_hi) by {
            assert(forall|k: int|
                0 <= k < d_hi.len() ==> input.subrange(i, i + d_all.len() as int)[k] == d_all[k]);
        }
        lemma_fold_digits_value(input, i, n / 10);
        lemma_acc_fold_split(input, i, i + d_hi.len() as int, i + d_all.len() as int, 0);
        assert(input[i + d_hi.len()] == d_all[d_all.len() - 1]);
        lemma_digit_char_val(n % 10);
        let v = (n / 10) as int;
        let d = crate::num::digit_val(input[i + d_hi.len()]);
        assert(d == n % 10);
        assert(i + d_hi.len() + 1 == i + d_all.len());
        assert(acc_fold(input, i + d_hi.len() as int, i + d_all.len() as int, v) == acc_fold(
            input,
            i + d_all.len() as int,
            i + d_all.len() as int,
            crate::num::sat_step(v, d),
        ));
        assert(acc_fold(
            input,
            i + d_all.len() as int,
            i + d_all.len() as int,
            crate::num::sat_step(v, d),
        ) == crate::num::sat_step(v, d));
        assert((n / 10) * 10 + n % 10 == n) by {
            vstd::arithmetic::div_mod::lemma_fundamental_div_mod(n as int, 10);
        }
        assert(crate::num::sat_step(v, d) == n);
    }
}

/// The plain (non-saturating) fractional accumulator folded through the
/// characters of `input` between `i` and `j`, in scan order.
pub open spec fn frac_fold(input: Seq<char>, i: int, j: int, a: int) -> int
    decreases j - i,
{
    if 0 <= i < j {
        frac_fold(input, i + 1, j, a * 10 + crate::num::digit_val(input[i]))
    } else {
        a
    }
}

/// The number a digit string denotes, most significant digit first.
pub open spec fn dval(s: Seq<char>) -> int
    decreases s.len(),
{
    if s.len() == 0 {
        0
    } else {
        dval(s.drop_last()) * 10 + crate::num::digit_val(s.last())
    }
}

proof fn lemma_frac_scan(input: Seq<char>, i: int, a: int, k: int)
    requires
        0 <= i <= input.len(),
        forall|p: int| i <= p < input.len() ==> crate::num::is_digit_char(#[trigger] input[p]),
        input.len() - i + k <= 6,
        0 <= k,
    ensures
        crate::num::sp_frac_part(input, i, a, k) == Some(
            (frac_fold(input, i, input.len() as int, a), k + (input.len() - i)),
        ),
    decreases input.len() - i,
{
    if i < input.len() {
        let d = crate::num::digit_val(input[i]);
        assert(crate::num::is_digit_char(input[i]));
        assert(input[i] != '.');
        assert(k < 6);
        lemma_frac_scan(input, i + 1, a * 10 + d, k + 1);
        assert(crate::num::sp_frac_part(input, i, a, k) == crate::num::sp_frac_part(
            input,
            i + 1,
            a * 10 + d,
            k + 1,
        ));
        assert(frac_fold(input, i, input.len() as int, a) == frac_fold(
            input,
            i + 1,
            input.len() as int,
            a * 10 + d,
        ));
    } else {
        assert(crate::num::sp_frac_part(input, i, a, k) == Some((a, k)));
        assert(frac_fold(input, i, input.len() as int, a) == a);
    }
}

proof fn lemma_fold_last(input: Seq<char>, i: int, j: int, a: int)
    requires
        0 <= i < j,
    ensures
        frac_fold(input, i, j, a) == frac_fold(input, i, j - 1, a) * 10 + crate::num::digit_val(
            input[j - 1],
        ),
    decreases j - i,
{
    let d0 = crate::num::digit_val(input[i]);
    if i < j - 1 {
        lemma_fold_last(input, i + 1, j, a * 10 + d0);
        assert(frac_fold(input, i, j, a) == frac_fold(input, i + 1, j, a * 10 + d0));
        assert(frac_fold(input, i, j - 1, a) == frac_fold(input, i + 1, j - 1, a * 10 + d0));
    } else {
        assert(frac_fold(input, i, j, a) == frac_fold(input, i + 1, j, a * 10 + d0));
        assert(frac_fold(input, i + 1, j, a * 10 + d0) == a * 10 + d0);
        assert(frac_fold(input, i, j - 1, a) == a);
    }
}

proof fn lemma_fold_is_dval(input: Seq<char>, i: int, j: int)
    requires
        0 <= i <= j <= input.len(),
    ensures
        frac_fold(input, i, j, 0) == dval(input.subrange(i, j)),
    decreases j - i,
{
    if i < j {
        lemma_fold_last(input, i, j, 0);
        lemma_fold_is_dval(input, i, j - 1);
        assert(input.subrange(i, j).drop_last() =~= input.subrange(i, j - 1));
        assert(input.subrange(i, j).last() == input[j - 1]);
    } else {
        assert(input.subrange(i, j) =~= Seq::<char>::empty());
    }
}

proof fn lemma_pow10_step(k: int)
    requires
        1 <= k <= 6,
    ensures
        crate::num::pow10(k) == 10 * crate::num::pow10(k - 1),
{
}

proof fn lemma_pad_props(n: nat, k: nat)
    requires
        k <= 6,
        n < crate::num::pow10(k as int),
    ensures
        pad_digits(n, k).len() == k,
        forall|p: int|
            0 <= p < k ==> crate::num::is_digit_char(#[trigger] pad_digits(n, k)[p]),
        dval(pad_digits(n, k)) == n,
    decreases k,
{
    if k > 0 {
        lemma_pow10_step(k as int);
        assert(n / 10 < crate::num::pow10(k as int - 1)) by {
            vstd::arithmetic::div_mod::lemma_fundamental_div_mod(n as int, 10);
        }
        lemma_pad_props(n / 10, (k - 1) as nat);
        let inner = pad_digits(n / 10, (k - 1) as nat);
        assert(pad_digits(n, k) == inner.push(digit_char(n % 10)));
        assert(pad_digits(n, k).drop_last() =~= inner);
        lemma_digit_char_val(n % 10);
        assert((n / 10) * 10 + n % 10 == n) by {
            vstd::arithmetic::div_mod::lemma_fundamental_div_mod(n as int, 10);
        }
        assert(forall|p: int|
            0 <= p < k - 1 ==> pad_digits(n, k)[p] == #[trigger] inner[p]);
    }
}

proof fn lemma_strip_props(p: Seq<char>)
    requires
        p.len() <= 6,
        forall|q: int| 0 <= q < p.len() ==> crate::num::is_digit_char(#[trigger] p[q]),
    ensures
        strip_zeros(p).len() <= p.len(),
        forall|q: int|
            0 <= q < strip_zeros(p).len() ==> crate::num::is_digit_char(
                #[trigger] strip_zeros(p)[q],
            ),
        dval(strip_zeros(p)) * crate::num::pow10(p.len() - strip_zeros(p).len()) == dval(p),
    decreases p.len(),
{
    if p.len() > 0 && p[p.len() - 1] == '0' {
        let inner = p.drop_last();
        assert(forall|q: int| 0 <= q < inner.len() ==> inner[q] == #[trigger] p[q]);
        lemma_strip_props(inner);
        assert(crate::num::digit_val('0') == 0);
        assert(dval(p) == dval(inner) * 10);
        let t = inner.len() - strip_zeros(inner).len();
        lemma_pow10_step(t + 1);
        assert(dval(strip_zeros(p)) * crate::num::pow10(t + 1) == (dval(strip_zeros(inner))
            * crate::num::pow10(t)) * 10) by {
            vstd::arithmetic::mul::lemma_mul_is_associative(
                dval(strip_zeros(inner)),
                crate::num::pow10(t),
                10,
            );
            vstd::arithmetic::mul::lemma_mul_is_commutative(
                crate::num::pow10(t),
                10,
            );
            vstd::arithmetic::mul::lemma_mul_is_associative(
                dval(strip_zeros(inner)),
                10,
                crate::num::pow10(t),
            );
        }
    } else {
        assert(strip_zeros(p) == p);
        if p.len() > 0 {
            assert(crate::num::pow10(0) == 1);
        }
    }
}

/// Round trip for numeric literals: the display form of any in-range,
/// non-negative number scans back to exactly the same number. Number
/// tokens carry non-negative values (a leading minus is its own token), so
/// re-rendering any scanned literal preserves its value.
pub proof fn lemma_number_roundtrip(m: int)
    requires
        0 <= m <= i64::MAX,
    ensures
        crate::num::sp_num_value(render_num(m)) == m,
{
    let sc = SCALE as int;
    let ip = (m / sc) as nat;
    let fp = (m % sc) as nat;
    let s = render_num(m);
    let d = digits_rec(ip);
    vstd::arithmetic::div_mod::lemma_fundamental_div_mod(m, sc);
    assert(m == sc * (m / sc) + m % sc);
    assert(ip <= 9_223_372_036_854) by {
        vstd::arithmetic::div_mod::lemma_div_is_ordered(m, i64::MAX as int, sc);
        assert(i64::MAX as int / sc == 9_223_372_036_854);
    }
    lemma_digits_are_digits(ip);
    assert(ip * sc == sc * (m / sc)) by {
        vstd::arithmetic::mul::lemma_mul_is_commutative(ip as int, sc);
    }
    if fp == 0 {
        assert(s =~= d);
        assert(forall|k: int| 0 <= k < s.len() ==> crate::num::is_digit_char(#[trigger] s[k]));
        lemma_scan_through_digits(s, 0, s.len() as int, 0);
        assert(s.subrange(0, s.len() as int) =~= s);
        lemma_fold_digits_value(s, 0, ip);
        assert(crate::num::sp_int_part(s, 0, 0) == (ip as int, s.len() as int));
    } else {
        let p6 = pad_digits(fp, 6);
        let f = strip_zeros(p6);
        assert(s =~= d + seq!['.'] + f);
        assert(fp < crate::num::pow10(6));
        lemma_pad_props(fp, 6);
        lemma_strip_props(p6);
        assert(forall|k: int| 0 <= k < d.len() ==> s[k] == #[trigger] d[k]);
        assert(forall|k: int| 0 <= k < d.len() ==> crate::num::is_digit_char(#[trigger] s[k]));
        assert(s[d.len() as int] == '.');
        lemma_scan_through_digits(s, 0, d.len() as int, 0);
        assert(s.subrange(0, d.len() as int) =~= d);
        lemma_fold_digits_value(s, 0, ip);
        assert(crate::num::sp_int_part(s, 0, 0) == (ip as int, d.len() as int));
        let fstart = d.len() + 1;
        let tail = s.subrange(fstart as int, s.len() as int);
        assert(tail =~= f);
        assert(forall|k: int|
            fstart <= k < s.len() ==> crate::num::is_digit_char(#[trigger] s[k]));
        lemma_frac_scan(s, fstart as int, 0, 0);
        lemma_fold_is_dval(s, fstart as int, s.len() as int);
        assert(crate::num::sp_frac_part(s, fstart as int, 0, 0) == Some(
            (dval(f), f.len() as int),
        ));
        assert(dval(f) * crate::num::pow10(6 - f.len()) == fp);
        assert(crate::num::sp_num_value(s) == crate::num::clamp(
            ip * sc + dval(f) * crate::num::pow10(6 - f.len()),
        ));
    }
}


/// A token on line 0, as the parser lemmas spell out token streams.
pub open spec fn tk(k: TokenTypeV) -> TokenV {
    TokenV { kind: k, line: 0 }
}

proof fn lemma_factor_atom(ts: Seq<TokenV>, p: int, x: int)
    requires
        0 <= p < ts.len(),
        tok_at(ts, p).kind == TokenTypeV::Number(x),
        (factor_op(tok_at(ts, p + 1).kind) is None),
    ensures
        sp_factor(ts, p) == Ok::<(ExprV, int), ParseError>((ExprV::Number(x), p + 1)),
        sp_unary(ts, p) == Ok::<(ExprV, int), ParseError>((ExprV::Number(x), p + 1)),
{
    assert(sp_primary(ts, p) == Ok::<(ExprV, int), ParseError>((ExprV::Number(x), p + 1)));
    assert(sp_unary(ts, p) == sp_primary(ts, p));
    assert(sp_factor_rest(ts, p + 1, ExprV::Number(x)) == Ok::<(ExprV, int), ParseError>(
        (ExprV::Number(x), p + 1),
    ));
}

/// Multiplication binds tighter than addition: for any three numbers,
/// `a + b * c` parses as `a + (b * c)`.
pub proof fn lemma_precedence(a: int, b: int, c: int)
    ensures
        ({
            let ts = seq![
                tk(TokenTypeV::Number(a)),
                tk(TokenTypeV::Plus),
                tk(TokenTypeV::Number(b)),
                tk(TokenTypeV::Multiply),
                tk(TokenTypeV::Number(c)),
                tk(TokenTypeV::Eof),
            ];
            sp_expression(ts, 0) == Ok::<(ExprV, int), ParseError>(
                (
                    (ExprV::Binary {
                        left: Box::new(ExprV::Number(a)),
                        operator: BinaryOp::Add,
                        right: Box::new(ExprV::Binary {
                            left: Box::new(ExprV::Number(b)),
                            operator: BinaryOp::Multiply,
                            right: Box::new(ExprV::Number(c)),
                        }),
                    }),
                    5int,
                ),
            )
        }),
{
    let ts = seq![
        tk(TokenTypeV::Number(a)),
        tk(TokenTypeV::Plus),
        tk(TokenTypeV::Number(b)),
        tk(TokenTypeV::Multiply),
        tk(TokenTypeV::Number(c)),
        tk(TokenTypeV::Eof),
    ];
    let ea = ExprV::Number(a);
    let eb = ExprV::Number(b);
    let ec = ExprV::Number(c);
    let bc = ExprV::Binary {
        left: Box::new(eb),
        operator: BinaryOp::Multiply,
        right: Box::new(ec),
    };
    let abc = ExprV::Binary { left: Box::new(ea), operator: BinaryOp::Add, right: Box::new(bc) };
    lemma_factor_atom(ts, 0, a);
    lemma_factor_atom(ts, 4, c);
    assert(sp_primary(ts, 2) == Ok::<(ExprV, int), ParseError>((eb, 3)));
    assert(sp_unary(ts, 2) == sp_primary(ts, 2));
    assert(sp_factor_rest(ts, 5, bc) == Ok::<(ExprV, int), ParseError>((bc, 5)));
    assert(sp_factor_rest(ts, 3, eb) == Ok::<(ExprV, int), ParseError>((bc, 5)));
    assert(sp_factor(ts, 2) == Ok::<(ExprV, int), ParseError>((bc, 5)));
    assert(sp_term_rest(ts, 5, abc) == Ok::<(ExprV, int), ParseError>((abc, 5)));
    assert(sp_term_rest(ts, 1, ea) == Ok::<(ExprV, int), ParseError>((abc, 5)));
    assert(sp_term(ts, 0) == Ok::<(ExprV, int), ParseError>((abc, 5)));
    assert(sp_comparison_rest(ts, 5, abc) == Ok::<(ExprV, int), ParseError>((abc, 5)));
    assert(sp_comparison(ts, 0) == Ok::<(ExprV, int), ParseError>((abc, 5)));
    assert(sp_equality_rest(ts, 5, abc) == Ok::<(ExprV, int), ParseError>((abc, 5)));
    assert(sp_equality(ts, 0) == Ok::<(ExprV, int), ParseError>((abc, 5)));
}

/// Subtraction is left-associative: for any three numbers, `a - b - c`
/// parses as `(a - b) - c`.
pub proof fn lemma_left_associativity(a: int, b: int, c: int)
    ensures
        ({
            let ts = seq![
                tk(TokenTypeV::Number(a)),
                tk(TokenTypeV::Minus),
                tk(TokenTypeV::Number(b)),
                tk(TokenTypeV::Minus),
                tk(TokenTypeV::Number(c)),
                tk(TokenTypeV::Eof),
            ];
            sp_expression(ts, 0) == Ok::<(ExprV, int), ParseError>(
                (
                    (ExprV::Binary {
                        left: Box::new(ExprV::Binary {
                            left: Box::new(ExprV::Number(a)),
                            operator: BinaryOp::Subtract,
                            right: Box::new(ExprV::Number(b)),
                        }),
                        operator: BinaryOp::Subtract,
                        right: Box::new(ExprV::Number(c)),
                    }),
                    5int,
                ),
            )
        }),
{
    let ts = seq![
        tk(TokenTypeV::Number(a)),
        tk(TokenTypeV::Minus),
        tk(TokenTypeV::Number(b)),
        tk(TokenTypeV::Minus),
        tk(TokenTypeV::Number(c)),
        tk(TokenTypeV::Eof),
    ];
    let ea = ExprV::Number(a);
    let eb = ExprV::Number(b);
    let ec = ExprV::Number(c);
    let ab = ExprV::Binary {
        left: Box::new(ea),
        operator: BinaryOp::Subtract,
        right: Box::new(eb),
    };
    let abc = ExprV::Binary {
        left: Box::new(ab),
        operator: BinaryOp::Subtract,
        right: Box::new(ec),
    };
    lemma_factor_atom(ts, 0, a);
    lemma_factor_atom(ts, 2, b);
    lemma_factor_atom(ts, 4, c);
    assert(sp_term_rest(ts, 5, abc) == Ok::<(ExprV, int), ParseError>((abc, 5)));
    assert(sp_term_rest(ts, 3, ab) == Ok::<(ExprV, int), ParseError>((abc, 5)));
    assert(sp_term_rest(ts, 1, ea) == Ok::<(ExprV, int), ParseError>((abc, 5)));
    assert(sp_term(ts, 0) == Ok::<(ExprV, int), ParseError>((abc, 5)));
    assert(sp_comparison_rest(ts, 5, abc) == Ok::<(ExprV, int), ParseError>((abc, 5)));
    assert(sp_comparison(ts, 0) == Ok::<(ExprV, int), ParseError>((abc, 5)));
    assert(sp_equality_rest(ts, 5, abc) == Ok::<(ExprV, int), ParseError>((abc, 5)));
    assert(sp_equality(ts, 0) == Ok::<(ExprV, int), ParseError>((abc, 5)));
}

} // verus!

use vstd::prelude::*;
use crate::grammar::{kw_false, kw_true};
use crate::value::Val;

verus! {

/// The decimal numeral of a natural number.
pub open spec fn dec_digits(n: nat) -> Seq<u8>
    decreases n,
{
    if n < 10 {
        seq![(48 + n) as u8]
    } else {
        dec_digits(n / 10).push((48 + (n % 10)) as u8)
    }
}

/// The decimal numeral of a 64-bit signed integer, with a leading minus
/// sign when it is negative.
pub open spec fn dec_i64(n: i64) -> Seq<u8> {
    if n >= 0 {
        dec_digits(n as nat)
    } else {
        seq![45u8] + dec_digits((-(n as int)) as nat)
    }
}

fn u64_dec(n: u64) -> (v: Vec<u8>)
    ensures
        v@ == dec_digits(n as nat),
    decreases n,
{
    if n < 10 {
        let mut v: Vec<u8> = Vec::new();
        v.push(48 + (n as u8));
        v
    } else {
        let mut v = u64_dec(n / 10);
        v.push(48 + ((n % 10) as u8));
        v
    }
}

fn i64_dec(n: i64) -> (v: Vec<u8>)
    ensures
        v@ == dec_i64(n),
{
    if n >= 0 {
        u64_dec(n as u64)
    } else {
        let mag: u64 = if n == i64::MIN {
            9223372036854775808u64
        } else {
            (-n) as u64
        };
        let mut v: Vec<u8> = Vec::new();
        v.push(45);
        let mut d = u64_dec(mag);
        v.append(&mut d);
        proof {
            assert(v@ =~= seq![45u8] + dec_digits((-(n as int)) as nat));
        }
        v
    }
}

/// The bytes of `"syntax error"`.
pub open spec fn lit_syntax_error_s() -> Seq<u8> {
    seq![115u8, 121u8, 110u8, 116u8, 97u8, 120u8, 32u8, 101u8, 114u8, 114u8, 111u8, 114u8]
}

pub(crate) fn lit_syntax_error() -> (v: Vec<u8>)
    ensures
        v@ == lit_syntax_error_s(),
{
    let mut v: Vec<u8> = Vec::new();
    v.push(115);
    v.push(121);
    v.push(110);
    v.push(116);
    v.push(97);
    v.push(120);
    v.push(32);
    v.push(101);
    v.push(114);
    v.push(114);
    v.push(111);
    v.push(114);
    proof {
        assert(v@ =~= lit_syntax_error_s());
    }
    v
}

/// The bytes of `"type mismatch"`.
pub open spec fn lit_type_mismatch_s() -> Seq<u8> {
    seq![116u8, 121u8, 112u8, 101u8, 32u8, 109u8, 105u8, 115u8, 109u8, 97u8, 116u8, 99u8, 104u8]
}

pub(crate) fn lit_type_mismatch() -> (v: Vec<u8>)
    ensures
        v@ == lit_type_mismatch_s(),
{
    let mut v: Vec<u8> = Vec::new();
    v.push(116);
    v.push(121);
    v.push(112);
    v.push(101);
    v.push(32);
    v.push(109);
    v.push(105);
    v.push(115);
    v.push(109);
    v.push(97);
    v.push(116);
    v.push(99);
    v.push(104);
    proof {
        assert(v@ =~= lit_type_mismatch_s());
    }
    v
}

/// The bytes of `"undefined variable "`.
pub open spec fn lit_undefined_variable_s() -> Seq<u8> {
    seq![117u8, 110u8, 100u8, 101u8, 102u8, 105u8, 110u8, 101u8, 100u8, 32u8, 118u8, 97u8, 114u8, 105u8, 97u8, 98u8, 108u8, 101u8, 32u8]
}

pub(crate) fn lit_undefined_variable() -> (v: Vec<u8>)
    ensures
        v@ == lit_undefined_variable_s(),
{
    let mut v: Vec<u8> = Vec::new();
    v.push(117);
    v.push(110);
    v.push(100);
    v.push(101);
    v.push(102);
    v.push(105);
    v.push(110);
    v.push(101);
    v.push(100);
    v.push(32);
    v.push(118);
    v.push(97);
    v.push(114);
    v.push(105);
    v.push(97);
    v.push(98);
    v.push(108);
    v.push(101);
    v.push(32);
    proof {
        assert(v@ =~= lit_undefined_variable_s());
    }
    v
}

/// The bytes of `"division by zero"`.
pub open spec fn lit_division_by_zero_s() -> Seq<u8> {
    seq![100u8, 105u8, 118u8, 105u8, 115u8, 105u8, 111u8, 110u8, 32u8, 98u8, 121u8, 32u8, 122u8, 101u8, 114u8, 111u8]
}

pub(crate) fn lit_division_by_zero() -> (v: Vec<u8>)
    ensures
        v@ == lit_division_by_zero_s(),
{
    let mut v: Vec<u8> = Vec::new();
    v.push(100);
    v.push(105);
    v.push(118);
    v.push(105);
    v.push(115);
    v.push(105);
    v.push(111);
    v.push(110);
    v.push(32);
    v.push(98);
    v.push(121);
    v.push(32);
    v.push(122);
    v.push(101);
    v.push(114);
    v.push(111);
    proof {
        assert(v@ =~= lit_division_by_zero_s());
    }
    v
}

/// The bytes of `"iteration limit exceeded"`.
pub open spec fn lit_iteration_limit_s() -> Seq<u8> {
    seq![105u8, 116u8, 101u8, 114u8, 97u8, 116u8, 105u8, 111u8, 110u8, 32u8, 108u8, 105u8, 109u8, 105u8, 116u8, 32u8, 101u8, 120u8, 99u8, 101u8, 101u8, 100u8, 101u8, 100u8]
}

pub(crate) fn lit_iteration_limit() -> (v: Vec<u8>)
    ensures
        v@ == lit_iteration_limit_s(),
{
    let mut v: Vec<u8> = Vec::new();
    v.push(105);
    v.push(116);
    v.push(101);
    v.push(114);
    v.push(97);
    v.push(116);
    v.push(105);
    v.push(111);
    v.push(110);
    v.push(32);
    v.push(108);
    v.push(105);
    v.push(109);
    v.push(105);
    v.push(116);
    v.push(32);
    v.push(101);
    v.push(120);
    v.push(99);
    v.push(101);
    v.push(101);
    v.push(100);
    v.push(101);
    v.push(100);
    proof {
        assert(v@ =~= lit_iteration_limit_s());
    }
    v
}

/// The bytes of `" at line "`.
pub open spec fn lit_at_line_s() -> Seq<u8> {
    seq![32u8, 97u8, 116u8, 32u8, 108u8, 105u8, 110u8, 101u8, 32u8]
}

pub(crate) fn lit_at_line() -> (v: Vec<u8>)
    ensures
        v@ == lit_at_line_s(),
{
    let mut v: Vec<u8> = Vec::new();
    v.push(32);
    v.push(97);
    v.push(116);
    v.push(32);
    v.push(108);
    v.push(105);
    v.push(110);
    v.push(101);
    v.push(32);
    proof {
        assert(v@ =~= lit_at_line_s());
    }
    v
}

/// The bytes of `", column "`.
pub open spec fn lit_column_s() -> Seq<u8> {
    seq![44u8, 32u8, 99u8, 111u8, 108u8, 117u8, 109u8, 110u8, 32u8]
}

pub(crate) fn lit_column() -> (v: Vec<u8>)
    ensures
        v@ == lit_column_s(),
{
    let mut v: Vec<u8> = Vec::new();
    v.push(44);
    v.push(32);
    v.push(99);
    v.push(111);
    v.push(108);
    v.push(117);
    v.push(109);
    v.push(110);
    v.push(32);
    proof {
        assert(v@ =~= lit_column_s());
    }
    v
}


/// The rendering of a value: `Integer(n)` as the decimal numeral of `n`,
/// `Boolean(b)` as `true` or `false`.
pub open spec fn render_val_s(v: Val) -> Seq<u8> {
    match v {
        Val::Integer(n) => dec_i64(n),
        Val::Boolean(b) => if b {
            kw_true()
        } else {
            kw_false()
        },
    }
}

/// Renders a value for diagnostics.
pub fn render_val(v: &Val) -> (r: Vec<u8>)
    ensures
        r@ == render_val_s(*v),
{
    match *v {
        Val::Integer(n) => i64_dec(n),
        Val::Boolean(b) => {
            let mut out: Vec<u8> = Vec::new();
            if b {
                out.push(116);
                out.push(114);
                out.push(117);
                out.push(101);
                proof {
                    assert(out@ =~= kw_true());
                }
            } else {
                out.push(102);
                out.push(97);
                out.push(108);
                out.push(115);
                out.push(101);
                proof {
                    assert(out@ =~= kw_false());
                }
            }
            out
        },
    }
}

/// `" at line L, column C"` for a 1-based line and column.
pub open spec fn location_s(line: int, col: int) -> Seq<u8>
    recommends
        line >= 0,
        col >= 0,
{
    lit_at_line_s() + dec_digits(line as nat) + lit_column_s() + dec_digits(col as nat)
}

/// Renders `" at line L, column C"`.
pub fn render_location(line: usize, col: usize) -> (r: Vec<u8>)
    ensures
        r@ == location_s(line as int, col as int),
{
    let mut out = lit_at_line();
    let mut a = u64_dec(line as u64);
    out.append(&mut a);
    let mut b = lit_column();
    out.append(&mut b);
    let mut c = u64_dec(col as u64);
    out.append(&mut c);
    proof {
        assert(out@ =~= location_s(line as int, col as int));
    }
    out
}

} // verus!

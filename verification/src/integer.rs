//! The guest integer type as host code handles it.

use vstd::prelude::*;
use vstd::slice::slice_to_vec;
use vstd::string::{StringExecFns, StrSliceExecFns};
use vstd::utf8::encode_utf8;

use crate::error::Error;
use crate::interp::{val_wf, Interp};
use crate::numeric::{coerce, Coercion, Outcome};
use crate::string::{format_int, int_to_dec};
use crate::value::{class_names, inspect_spec, Value};

verus! {

/// A guest machine integer held by host code.
#[derive(Debug, Clone, Copy, PartialEq, Eq, Hash, PartialOrd, Ord)]
pub struct Integer(pub i64);

/// Division rounded toward negative infinity: the guest-language contract
/// for every integer-result division. For a positive divisor the
/// Euclidean quotient is already the floor; for a negative divisor,
/// negate both operands first.
pub open spec fn floor_div(a: int, b: int) -> int {
    if b > 0 {
        a / b
    } else {
        (-a) / (-b)
    }
}

/// What `Integer::bit` extracts: the given bit of the two's-complement
/// representation, or zero when the position falls outside it.
pub open spec fn bit_spec(value: i64, bit: i64) -> i64 {
    if 0 <= bit < 64 {
        (value >> bit) & 1
    } else {
        0
    }
}

impl Integer {
    /// Construct a new, default, zero `Integer`.
    pub fn new() -> (r: Self)
        ensures
            r.0 == 0,
    {
        Integer(0)
    }

    /// The wrapped machine integer.
    pub fn as_i64(self) -> (r: i64)
        ensures
            r == self.0,
    {
        self.0
    }

    /// The width of a guest integer in bytes.
    pub fn size() -> (r: usize)
        ensures
            r == 8,
    {
        8
    }

    /// The string of the single character with this integer's code point:
    /// one byte, for integers from 0 through 255 (ASCII below 128, binary
    /// above); every other integer is out of character range. Selecting an
    /// encoding is not supported: the guest treats the result as ASCII or
    /// binary by value alone.
    pub fn chr(self, interp: &mut Interp, encoding: Option<Value>) -> (r: Result<Vec<u8>, Error>)
        requires
            old(interp).wf(),
            encoding matches Some(e) ==> val_wf(old(interp).heap@, e),
        ensures
            *final(interp) == *old(interp),
            encoding matches Some(e) ==> (r matches Err(err) && err matches Error::NotImplemented(
                m,
            ) && m@ == encode_utf8("encoding parameter of Integer#chr (given "@) + inspect_spec(
                old(interp).heap@,
                class_names(old(interp).classes@),
                e,
            ) + encode_utf8(") not supported"@)),
            encoding is None && 0 <= self.0 <= 255 ==> (r matches Ok(b) && b@ == seq![
                self.0 as u8,
            ]),
            encoding is None && !(0 <= self.0 <= 255) ==> (r matches Err(err) && err matches
                Error::Range(m) && m@ == int_to_dec(self.0 as int) + " out of char range"@),
    {
        if let Some(enc) = encoding {
            let mut message = slice_to_vec("encoding parameter of Integer#chr (given ".as_bytes());
            let shown = enc.inspect(interp);
            message.extend_from_slice(shown.as_slice());
            message.extend_from_slice(") not supported".as_bytes());
            proof {
                assert(message@ =~= encode_utf8("encoding parameter of Integer#chr (given "@)
                    + inspect_spec(interp.heap@, class_names(interp.classes@), enc) + encode_utf8(
                    ") not supported"@,
                ));
            }
            Err(Error::NotImplemented(message))
        } else if 0 <= self.0 && self.0 <= 255 {
            let mut b: Vec<u8> = Vec::new();
            b.push(self.0 as u8);
            proof {
                assert(b@ =~= seq![self.0 as u8]);
            }
            Ok(b)
        } else {
            let mut message = format_int(self.0);
            message.append(" out of char range");
            Err(Error::Range(message))
        }
    }

    /// The bit of this integer's two's-complement representation at the
    /// given position, or zero when the position falls outside it.
    pub fn bit(self, bit: i64) -> (r: Result<Self, Error>)
        ensures
            r matches Ok(v) && v.0 == bit_spec(self.0, bit),
    {
        if 0 <= bit && bit < 64 {
            let shifted = self.0 >> (bit as u32);
            Ok(Integer(shifted & 1))
        } else {
            Ok(Integer(0))
        }
    }

    /// Divide this integer by a guest value, rounding toward negative
    /// infinity. Division by a guest integer zero fails with the guest's
    /// zero-division error; a denominator that is not a guest integer
    /// fails to coerce. (The one quotient the machine cannot represent,
    /// the smallest integer divided by minus one, is excluded.)
    pub fn div(self, interp: &mut Interp, denominator: Value) -> (r: Result<Outcome, Error>)
        requires
            old(interp).wf(),
            !(self.0 == i64::MIN && denominator == Value::Fixnum(-1i64)),
        ensures
            *final(interp) == *old(interp),
            match denominator {
                Value::Fixnum(denom) => {
                    &&& denom == 0 <==> r == Err::<Outcome, Error>(Error::ZeroDivision)
                    &&& denom != 0 ==> r == Ok::<Outcome, Error>(
                        Outcome::Integer(floor_div(self.0 as int, denom as int) as i64),
                    )
                },
                _ => r == Err::<Outcome, Error>(
                    Error::Unbox(
                        crate::error::UnboxRubyError {
                            from: denominator.ruby_type_spec(),
                            into: crate::types::Rust::SignedInt,
                        },
                    ),
                ),
            },
    {
        match denominator {
            Value::Fixnum(denom) => {
                let value = self.0;
                if denom == 0 {
                    Err(Error::ZeroDivision)
                } else {
                    Ok(Outcome::Integer(floor_div_i64(value, denom)))
                }
            },
            _ => {
                let x = interp.convert_int(self.0);
                match coerce(interp, x, denominator) {
                    Ok(Coercion::Integer(numer, denom)) => {
                        if denom == 0 {
                            Err(Error::ZeroDivision)
                        } else {
                            Ok(Outcome::Integer(floor_div_i64(numer, denom)))
                        }
                    },
                    Err(e) => Err(e),
                }
            },
        }
    }
}

impl Default for Integer {
    fn default() -> (r: Self)
        ensures
            r.0 == 0,
    {
        Integer::new()
    }
}

impl From<i64> for Integer {
    fn from(value: i64) -> (r: Self)
        ensures
            r.0 == value,
    {
        Integer(value)
    }
}

impl vstd::std_specs::convert::FromSpecImpl<i64> for Integer {
    open spec fn obeys_from_spec() -> bool {
        true
    }

    open spec fn from_spec(value: i64) -> Self {
        Integer(value)
    }
}

impl From<Integer> for i64 {
    fn from(value: Integer) -> (r: i64)
        ensures
            r == value.0,
    {
        value.0
    }
}

impl vstd::std_specs::convert::FromSpecImpl<Integer> for i64 {
    open spec fn obeys_from_spec() -> bool {
        true
    }

    open spec fn from_spec(value: Integer) -> Self {
        value.0
    }
}

/// The magnitude of `a`, as an unsigned machine word.
fn magnitude(a: i64) -> (r: u64)
    ensures
        r as int == (if a >= 0 {
            a as int
        } else {
            -(a as int)
        }),
{
    if a >= 0 {
        a as u64
    } else if a == i64::MIN {
        9223372036854775808u64
    } else {
        (-a) as u64
    }
}

/// Compute the quotient of `a` and `b` rounded toward negative infinity,
/// through the magnitudes' unsigned division.
fn floor_div_i64(a: i64, b: i64) -> (q: i64)
    requires
        b != 0,
        !(a == i64::MIN && b == -1),
    ensures
        q as int == floor_div(a as int, b as int),
{
    let ua = magnitude(a);
    let ub = magnitude(b);
    let qm = ua / ub;
    let rm = ua % ub;
    let ghost ai = a as int;
    let ghost bi = b as int;
    let ghost ui = ua as int;
    let ghost vi = ub as int;
    let ghost qi = qm as int;
    let ghost ri = rm as int;
    proof {
        vstd::arithmetic::div_mod::lemma_fundamental_div_mod(ui, vi);
        vstd::arithmetic::div_mod::lemma_mod_division_less_than_divisor(ui, vi);
        vstd::arithmetic::div_mod::lemma_div_pos_is_pos(ui, vi);
        assert(ui == vi * qi + ri);
        assert(0 <= ri < vi);
        assert(0 <= qi);
        // Bounds on the quotient, for the casts back to a signed word.
        assert(qi <= ui) by (nonlinear_arith)
            requires
                ui == vi * qi + ri,
                0 <= ri,
                0 <= qi,
                1 <= vi,
        ;
        if ri != 0 {
            assert(2 <= vi);
            assert(qi + qi <= ui) by (nonlinear_arith)
                requires
                    ui == vi * qi + ri,
                    0 <= ri,
                    0 <= qi,
                    2 <= vi,
            ;
        }
    }
    if a >= 0 {
        if b > 0 {
            proof {
                vstd::arithmetic::div_mod::lemma_fundamental_div_mod_converse(ai, bi, qi, ri);
            }
            qm as i64
        } else {
            // floor(a / b) == (-a) / ub, with -a == (-qm) * ub, or
            // (-qm - 1) * ub + (ub - rm).
            if rm == 0 {
                proof {
                    assert(-ai == (-qi) * vi + 0) by (nonlinear_arith)
                        requires
                            ai == ui,
                            ui == vi * qi + ri,
                            ri == 0,
                    ;
                    vstd::arithmetic::div_mod::lemma_fundamental_div_mod_converse(
                        -ai,
                        vi,
                        -qi,
                        0,
                    );
                }
                if qm == 9223372036854775808u64 {
                    i64::MIN
                } else {
                    -(qm as i64)
                }
            } else {
                proof {
                    assert(-ai == (-qi - 1) * vi + (vi - ri)) by (nonlinear_arith)
                        requires
                            ai == ui,
                            ui == vi * qi + ri,
                    ;
                    vstd::arithmetic::div_mod::lemma_fundamental_div_mod_converse(
                        -ai,
                        vi,
                        -qi - 1,
                        vi - ri,
                    );
                }
                -(qm as i64) - 1
            }
        }
    } else {
        if b > 0 {
            // floor(a / b) == a / b, with a == (-qm) * b, or
            // (-qm - 1) * b + (b - rm).
            if rm == 0 {
                proof {
                    assert(ai == (-qi) * bi + 0) by (nonlinear_arith)
                        requires
                            ai == -ui,
                            bi == vi,
                            ui == vi * qi + ri,
                            ri == 0,
                    ;
                    vstd::arithmetic::div_mod::lemma_fundamental_div_mod_converse(ai, bi, -qi, 0);
                }
                if qm == 9223372036854775808u64 {
                    i64::MIN
                } else {
                    -(qm as i64)
                }
            } else {
                proof {
                    assert(ai == (-qi - 1) * bi + (bi - ri)) by (nonlinear_arith)
                        requires
                            ai == -ui,
                            bi == vi,
                            ui == vi * qi + ri,
                    ;
                    vstd::arithmetic::div_mod::lemma_fundamental_div_mod_converse(
                        ai,
                        bi,
                        -qi - 1,
                        bi - ri,
                    );
                }
                -(qm as i64) - 1
            }
        } else {
            // floor(a / b) == (-a) / (-b) == ua / ub.
            proof {
                assert(-ai == vi * qi + ri) by (nonlinear_arith)
                    requires
                        ai == -ui,
                        ui == vi * qi + ri,
                ;
                vstd::arithmetic::div_mod::lemma_fundamental_div_mod_converse(-ai, vi, qi, ri);
                // The one quotient that cannot be represented, the
                // smallest integer divided by minus one, is excluded.
                assert(!(ua == 9223372036854775808u64 && ub == 1u64));
                if ua == 9223372036854775808u64 {
                    assert(2 <= vi);
                    assert(qi + qi <= ui) by (nonlinear_arith)
                        requires
                            ui == vi * qi + ri,
                            0 <= ri,
                            0 <= qi,
                            2 <= vi,
                    ;
                }
            }
            qm as i64
        }
    }
}

} // verus!

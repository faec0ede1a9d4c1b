//! Plain value forms and collaborator models that the capability interface
//! speaks of: immediate values, evaluation and freeze errors, call
//! parameters, the evaluator handle, and the collector's tracer, together
//! with verified decimal rendering used by representations.

use vstd::arithmetic::div_mod::{lemma_fundamental_div_mod, lemma_fundamental_div_mod_converse};
use vstd::prelude::*;
use vstd::string::StringExecFns;

verus! {

/// An immediate value as the capability interface passes it around: either
/// inline data or a reference to a heap slot (mutable heap for `Ref`,
/// frozen graph for `FrozenRef`).
#[derive(Debug, PartialEq)]
pub enum Value {
    Bool(bool),
    Int(i64),
    Str(String),
    Ref(usize),
    FrozenRef(usize),
}

/// An error produced by a capability-interface operation. Wrapper
/// forwarding propagates these unchanged; they are never rewritten.
#[derive(Clone, Copy, PartialEq, Eq, Structural, Debug)]
pub enum EvalError {
    /// The payload does not support this operation.
    Unsupported,
    /// An arithmetic result does not fit the value's integer type.
    Overflow,
    /// A division or modulo by zero.
    DivisionByZero,
    /// An index lies outside the collection.
    OutOfBounds,
    /// The payload has no attribute of that name.
    NoAttribute,
    /// The value is immutable; no mutation path remains.
    Immutable,
    /// The value cannot be hashed.
    Unhashable,
    /// The value cannot be called.
    NotCallable,
}

/// An error from the one-shot freeze of a value.
#[derive(Clone, Copy, PartialEq, Eq, Structural, Debug)]
pub enum FreezeError {
    /// The payload's own freeze routine refuses this value.
    Unfreezable,
    /// A heap reference held by the payload has no frozen counterpart yet.
    Unresolved,
}

/// A source span, carried through calls for error reporting only.
#[derive(Clone, Copy, PartialEq, Eq, Structural, Debug)]
pub struct Span {
    pub lo: usize,
    pub hi: usize,
}

/// Positional arguments of an invocation.
pub struct Parameters {
    pub pos: Vec<Value>,
}

/// The evaluator handle passed to calls and export hooks; values that care
/// about their binding name record it here.
pub struct Evaluator {
    pub exports: Vec<String>,
}

/// A table of methods a value type offers.
pub struct Globals {
    pub names: Vec<String>,
}

/// A frozen string constant, as handed out for a value's type name.
pub struct ConstFrozenValue {
    pub text: String,
}

/// The collector's visitor: collects the heap slots it is shown, in order.
pub struct Tracer {
    pub visited: Vec<usize>,
}

impl Tracer {
    /// A tracer that has visited nothing.
    pub fn new() -> (r: Tracer)
        ensures
            r.visited@ == Seq::<usize>::empty(),
    {
        let r = Tracer { visited: Vec::new() };
        proof {
            assert(r.visited@ =~= Seq::<usize>::empty());
        }
        r
    }

    /// Account for one heap reference.
    pub fn visit(&mut self, r: usize)
        ensures
            final(self).visited@ == old(self).visited@.push(r),
    {
        self.visited.push(r);
    }
}

/// Character-for-character equality of two string slices.
pub fn str_eq(a: &str, b: &str) -> (r: bool)
    ensures
        r == (a@ == b@),
{
    let sa = String::from_str(a);
    let sb = String::from_str(b);
    sa == sb
}

/// Whether one character sequence occurs contiguously inside another.
pub open spec fn spec_str_contains(hay: Seq<char>, needle: Seq<char>) -> bool {
    exists|k: int|
        0 <= k <= hay.len() - needle.len() && #[trigger] hay.subrange(k, k + needle.len())
            == needle
}

/// Substring search: whether the needle occurs anywhere in the hay.
pub fn str_contains(hay: &str, needle: &str) -> (r: bool)
    ensures
        r == spec_str_contains(hay@, needle@),
{
    let hn = hay.unicode_len();
    let nn = needle.unicode_len();
    if nn > hn {
        return false;
    }
    if nn == 0 {
        proof {
            assert(hay@.subrange(0, 0 + needle@.len() as int) =~= needle@);
            assert(hay@.subrange(0int, 0 + needle@.len() as int) == needle@);
        }
        return true;
    }
    let mut k: usize = 0;
    while k <= hn - nn
        invariant
            hn == hay@.len(),
            nn == needle@.len(),
            1 <= nn <= hn,
            k <= hn - nn + 1,
            forall|j: int| 0 <= j < k ==> #[trigger] hay@.subrange(j, j + nn) != needle@,
        decreases hn - nn + 1 - k,
    {
        let mut i: usize = 0;
        let mut same = true;
        while i < nn && same
            invariant
                hn == hay@.len(),
                nn == needle@.len(),
                k + nn <= hn,
                i <= nn,
                same ==> forall|t: int| 0 <= t < i ==> hay@[k + t] == #[trigger] needle@[t],
                !same ==> hay@.subrange(k as int, k + nn) != needle@,
            decreases nn - i + (if same {
                1int
            } else {
                0int
            }),
        {
            if hay.get_char(k + i) != needle.get_char(i) {
                proof {
                    assert(hay@.subrange(k as int, k + nn)[i as int] == hay@[k + i]);
                    assert(needle@[i as int] != hay@[k + i]);
                }
                same = false;
            } else {
                i = i + 1;
            }
        }
        if same {
            proof {
                assert(hay@.subrange(k as int, k + nn) =~= needle@);
            }
            return true;
        }
        k = k + 1;
    }
    proof {
        assert forall|j: int| 0 <= j <= hay@.len() - needle@.len() implies #[trigger] hay@.subrange(
            j,
            j + needle@.len(),
        ) != needle@ by {
            assert(j < k);
        }
    }
    false
}

/// Lexicographic order of two character sequences, by code point, with a
/// proper prefix ordering before the longer sequence.
pub open spec fn lex_cmp_chars(a: Seq<char>, b: Seq<char>) -> core::cmp::Ordering
    decreases a.len(),
{
    if a.len() == 0 && b.len() == 0 {
        core::cmp::Ordering::Equal
    } else if a.len() == 0 {
        core::cmp::Ordering::Less
    } else if b.len() == 0 {
        core::cmp::Ordering::Greater
    } else if a[0] != b[0] {
        if (a[0] as u32) < (b[0] as u32) {
            core::cmp::Ordering::Less
        } else {
            core::cmp::Ordering::Greater
        }
    } else {
        lex_cmp_chars(a.drop_first(), b.drop_first())
    }
}

/// A shared prefix does not decide the lexicographic order: comparing two
/// sequences equals comparing what follows any prefix on which they agree.
proof fn lemma_lex_skip(a: Seq<char>, b: Seq<char>, i: int)
    requires
        0 <= i <= a.len(),
        i <= b.len(),
        forall|t: int| 0 <= t < i ==> a[t] == b[t],
    ensures
        lex_cmp_chars(a.skip(i), b.skip(i)) == lex_cmp_chars(a, b),
    decreases i,
{
    if i > 0 {
        assert(a[0] == b[0]);
        assert(lex_cmp_chars(a, b) == lex_cmp_chars(a.drop_first(), b.drop_first()));
        let a1 = a.drop_first();
        let b1 = b.drop_first();
        assert(a.skip(i) =~= a1.skip(i - 1));
        assert(b.skip(i) =~= b1.skip(i - 1));
        assert(forall|t: int| 0 <= t < i - 1 ==> a1[t] == b1[t]);
        lemma_lex_skip(a1, b1, i - 1);
    } else {
        assert(a.skip(0) =~= a);
        assert(b.skip(0) =~= b);
    }
}

/// Lexicographic comparison of two string slices, by code point.
pub fn lex_cmp(a: &str, b: &str) -> (r: core::cmp::Ordering)
    ensures
        r == lex_cmp_chars(a@, b@),
{
    let an = a.unicode_len();
    let bn = b.unicode_len();
    let mut i: usize = 0;
    while i < an && i < bn
        invariant
            an == a@.len(),
            bn == b@.len(),
            i <= an,
            i <= bn,
            forall|t: int| 0 <= t < i ==> a@[t] == b@[t],
        decreases an - i,
    {
        let ca = a.get_char(i);
        let cb = b.get_char(i);
        if ca != cb {
            proof {
                lemma_lex_skip(a@, b@, i as int);
                assert(a@.skip(i as int)[0] == ca);
                assert(b@.skip(i as int)[0] == cb);
            }
            if (ca as u32) < (cb as u32) {
                return core::cmp::Ordering::Less;
            } else {
                return core::cmp::Ordering::Greater;
            }
        }
        i = i + 1;
    }
    proof {
        lemma_lex_skip(a@, b@, i as int);
        assert(a@.skip(i as int).len() == a@.len() - i);
        assert(b@.skip(i as int).len() == b@.len() - i);
    }
    if an == bn {
        core::cmp::Ordering::Equal
    } else if an < bn {
        core::cmp::Ordering::Less
    } else {
        core::cmp::Ordering::Greater
    }
}

/// Copy an optional borrowed value, for stating contracts over owned forms.
pub open spec fn deref_opt(o: Option<&Value>) -> Option<Value> {
    match o {
        Some(v) => Some(*v),
        None => None,
    }
}

/// Floor division: the quotient rounded toward negative infinity. (The
/// `/` of specifications is Euclidean; it is the floor quotient for a
/// positive divisor, so a negative divisor is handled by negating both
/// operands.)
pub open spec fn floor_div_int(n: int, m: int) -> int {
    if m > 0 {
        n / m
    } else {
        (-n) / (-m)
    }
}

/// Floor modulo: what floor division leaves over. It is zero or takes the
/// divisor's sign.
pub open spec fn floor_mod_int(n: int, m: int) -> int {
    n - floor_div_int(n, m) * m
}

/// Floor quotient and remainder of two machine integers, computed on
/// magnitudes so that no signed machine division is needed. The one
/// quotient that does not fit, `i64::MIN / -1`, is excluded.
pub fn i64_floor_div_mod(n: i64, m: i64) -> (qr: (i64, i64))
    requires
        m != 0,
        !(n == i64::MIN && m == -1),
    ensures
        qr.0 == floor_div_int(n as int, m as int),
        qr.1 == floor_mod_int(n as int, m as int),
{
    let nneg = n < 0;
    let mneg = m < 0;
    let na: u64 = if n == i64::MIN {
        9223372036854775808u64
    } else if nneg {
        #[verifier::truncate] ((-n) as u64)
    } else {
        n as u64
    };
    let ma: u64 = if m == i64::MIN {
        9223372036854775808u64
    } else if mneg {
        #[verifier::truncate] ((-m) as u64)
    } else {
        m as u64
    };
    let q0: u64 = na / ma;
    let r0: u64 = na % ma;
    let ghost ni = n as int;
    let ghost mi = m as int;
    let ghost nai = na as int;
    let ghost mai = ma as int;
    let ghost q0i = q0 as int;
    let ghost r0i = r0 as int;
    proof {
        assert(nai == if ni >= 0 {
            ni
        } else {
            -ni
        });
        assert(mai == if mi >= 0 {
            mi
        } else {
            -mi
        });
        lemma_fundamental_div_mod(nai, mai);
        assert(nai == mai * q0i + r0i);
        assert(0 <= r0i < mai);
        assert(q0i <= mai * q0i) by (nonlinear_arith)
            requires
                q0i >= 0,
                mai >= 1,
        ;
        assert(q0i <= nai);
        if mai >= 2 {
            assert(2 * q0i <= mai * q0i) by (nonlinear_arith)
                requires
                    q0i >= 0,
                    mai >= 2,
            ;
            assert(q0i <= nai / 2) by {
                assert(2 * q0i <= nai);
            }
        }
    }
    if nneg == mneg {
        // Same signs: the floor quotient is the magnitude quotient and
        // the remainder keeps the divisor's sign.
        proof {
            if !nneg {
                assert(floor_div_int(ni, mi) == q0i);
            } else {
                assert(floor_div_int(ni, mi) == (-ni) / (-mi));
                assert((-ni) / (-mi) == q0i);
            }
            assert(floor_mod_int(ni, mi) == ni - q0i * mi);
            if !nneg {
                assert(ni - q0i * mi == r0i) by (nonlinear_arith)
                    requires
                        nai == mai * q0i + r0i,
                        ni == nai,
                        mi == mai,
                ;
            } else {
                assert(ni - q0i * mi == -r0i) by (nonlinear_arith)
                    requires
                        nai == mai * q0i + r0i,
                        ni == -nai,
                        mi == -mai,
                ;
            }
            assert(q0i <= 0x7fff_ffff_ffff_ffff);
        }
        let q = q0 as i64;
        let r = if r0 == 0 {
            0i64
        } else if mneg {
            -(r0 as i64)
        } else {
            r0 as i64
        };
        (q, r)
    } else {
        // Opposite signs: a nonzero remainder pushes the quotient one
        // further from zero, and the remainder is folded into the
        // divisor's sign.
        proof {
            let fq = if r0i == 0 {
                -q0i
            } else {
                -q0i - 1
            };
            let fr = if r0i == 0 {
                0int
            } else if mi > 0 {
                mai - r0i
            } else {
                r0i - mai
            };
            if r0i == 0 {
                assert((-nai) == (-q0i) * mai + 0) by (nonlinear_arith)
                    requires
                        nai == mai * q0i + r0i,
                        r0i == 0,
                ;
                lemma_fundamental_div_mod_converse(-nai, mai, -q0i, 0);
            } else {
                assert((-nai) == (-q0i - 1) * mai + (mai - r0i)) by (nonlinear_arith)
                    requires
                        nai == mai * q0i + r0i,
                ;
                lemma_fundamental_div_mod_converse(-nai, mai, -q0i - 1, mai - r0i);
            }
            assert((-nai) / mai == fq);
            if mi > 0 {
                assert(ni == -nai);
                assert(floor_div_int(ni, mi) == fq);
            } else {
                assert(ni == nai && -mi == mai);
                assert(floor_div_int(ni, mi) == (-nai) / mai);
                assert(floor_div_int(ni, mi) == fq);
            }
            assert(floor_mod_int(ni, mi) == ni - fq * mi);
            assert(ni - fq * mi == fr) by (nonlinear_arith)
                requires
                    nai == mai * q0i + r0i,
                    0 <= r0i < mai,
                    fq == (if r0i == 0 {
                        -q0i
                    } else {
                        -q0i - 1
                    }),
                    fr == (if r0i == 0 {
                        0int
                    } else if mi > 0 {
                        mai - r0i
                    } else {
                        r0i - mai
                    }),
                    ni == (if mi > 0 {
                        -nai
                    } else {
                        nai
                    }),
                    mi == (if mi > 0 {
                        mai
                    } else {
                        -mai
                    }),
            ;
            if r0i != 0 && q0i == 0x8000_0000_0000_0000 {
                assert(mai * q0i <= nai);
                assert(mai == 1) by (nonlinear_arith)
                    requires
                        mai * q0i <= nai,
                        nai <= 0x8000_0000_0000_0000,
                        q0i == 0x8000_0000_0000_0000,
                        mai >= 1,
                ;
                assert(r0i == 0);
            }
        }
        let q = if r0 == 0 {
            if q0 == 9223372036854775808u64 {
                i64::MIN
            } else {
                -(q0 as i64)
            }
        } else {
            -(q0 as i64) - 1
        };
        let r = if r0 == 0 {
            0i64
        } else if mneg {
            -((ma - r0) as i64)
        } else {
            (ma - r0) as i64
        };
        (q, r)
    }
}

/// The character for one decimal digit.
pub open spec fn digit_char(d: nat) -> char {
    if d == 0 {
        '0'
    } else if d == 1 {
        '1'
    } else if d == 2 {
        '2'
    } else if d == 3 {
        '3'
    } else if d == 4 {
        '4'
    } else if d == 5 {
        '5'
    } else if d == 6 {
        '6'
    } else if d == 7 {
        '7'
    } else if d == 8 {
        '8'
    } else {
        '9'
    }
}

/// The decimal rendering of a natural number, most significant digit first.
pub open spec fn u64_dec(n: nat) -> Seq<char>
    decreases n,
{
    if n < 10 {
        seq![digit_char(n)]
    } else {
        u64_dec(n / 10).push(digit_char(n % 10))
    }
}

/// The decimal rendering of a signed number: a minus sign and the
/// magnitude for negatives, the magnitude alone otherwise.
pub open spec fn i64_dec(n: int) -> Seq<char> {
    if n < 0 {
        seq!['-'] + u64_dec((-n) as nat)
    } else {
        u64_dec(n as nat)
    }
}

/// Append one decimal digit to a string.
fn push_digit(d: u64, out: &mut String)
    requires
        d < 10,
    ensures
        final(out)@ == old(out)@.push(digit_char(d as nat)),
{
    if d == 0 {
        out.append("0");
        proof {
            reveal_strlit("0");
            assert(out@ =~= old(out)@.push(digit_char(d as nat)));
        }
    } else if d == 1 {
        out.append("1");
        proof {
            reveal_strlit("1");
            assert(out@ =~= old(out)@.push(digit_char(d as nat)));
        }
    } else if d == 2 {
        out.append("2");
        proof {
            reveal_strlit("2");
            assert(out@ =~= old(out)@.push(digit_char(d as nat)));
        }
    } else if d == 3 {
        out.append("3");
        proof {
            reveal_strlit("3");
            assert(out@ =~= old(out)@.push(digit_char(d as nat)));
        }
    } else if d == 4 {
        out.append("4");
        proof {
            reveal_strlit("4");
            assert(out@ =~= old(out)@.push(digit_char(d as nat)));
        }
    } else if d == 5 {
        out.append("5");
        proof {
            reveal_strlit("5");
            assert(out@ =~= old(out)@.push(digit_char(d as nat)));
        }
    } else if d == 6 {
        out.append("6");
        proof {
            reveal_strlit("6");
            assert(out@ =~= old(out)@.push(digit_char(d as nat)));
        }
    } else if d == 7 {
        out.append("7");
        proof {
            reveal_strlit("7");
            assert(out@ =~= old(out)@.push(digit_char(d as nat)));
        }
    } else if d == 8 {
        out.append("8");
        proof {
            reveal_strlit("8");
            assert(out@ =~= old(out)@.push(digit_char(d as nat)));
        }
    } else {
        out.append("9");
        proof {
            reveal_strlit("9");
            assert(out@ =~= old(out)@.push(digit_char(d as nat)));
        }
    }
}

/// Append the decimal rendering of an unsigned number.
pub fn push_u64_dec(n: u64, out: &mut String)
    ensures
        final(out)@ == old(out)@ + u64_dec(n as nat),
    decreases n,
{
    if n >= 10 {
        push_u64_dec(n / 10, out);
        push_digit(n % 10, out);
        proof {
            assert(out@ =~= old(out)@ + u64_dec(n as nat));
        }
    } else {
        push_digit(n, out);
        proof {
            assert(out@ =~= old(out)@ + u64_dec(n as nat));
        }
    }
}

/// Append the decimal rendering of a signed number.
pub fn push_i64_dec(n: i64, out: &mut String)
    ensures
        final(out)@ == old(out)@ + i64_dec(n as int),
{
    if n < 0 {
        out.append("-");
        proof {
            reveal_strlit("-");
        }
        let mag: u64 = if n == i64::MIN {
            9223372036854775808u64
        } else {
            #[verifier::truncate] ((-n) as u64)
        };
        proof {
            assert(mag as nat == (-(n as int)) as nat);
        }
        push_u64_dec(mag, out);
        proof {
            assert(out@ =~= old(out)@ + i64_dec(n as int));
        }
    } else {
        push_u64_dec(#[verifier::truncate] (n as u64), out);
        proof {
            assert(n as u64 as nat == n as nat);
            assert(out@ =~= old(out)@ + i64_dec(n as int));
        }
    }
}

} // verus!

//! The load operator: replicate an immediate literal into a pipe.
//!
//! A `Load` is configured by parsing its immediate once at build time;
//! at run time it emits one copy of the parsed value for every element
//! read from its (unit-typed) trigger pipe.

use vstd::prelude::*;
use vstd::string::StrSliceExecFns;
use crate::elem::{ElemValue, ElemView};
use crate::operator::IOp;
use crate::BuildError;

verus! {

/// Whether `c` is a decimal digit.
pub open spec fn is_dec_digit(c: char) -> bool {
    '0' <= c && c <= '9'
}

/// The numeric value of a decimal digit.
pub open spec fn digit_val(c: char) -> int {
    c as int - '0' as int
}

/// The number a digit string denotes, most significant digit first.
pub open spec fn dec_val(s: Seq<char>) -> int
    decreases s.len(),
{
    if s.len() == 0 {
        0
    } else {
        dec_val(s.drop_last()) * 10 + digit_val(s.last())
    }
}

/// Whether `s` is a well-formed decimal literal: nonempty, digits only.
pub open spec fn is_dec(s: Seq<char>) -> bool {
    s.len() > 0 && forall|i: int| 0 <= i < s.len() ==> is_dec_digit(#[trigger] s[i])
}

/// A digit string denotes a number that is not negative.
pub proof fn lemma_dec_val_nonneg(s: Seq<char>)
    requires
        forall|i: int| 0 <= i < s.len() ==> is_dec_digit(#[trigger] s[i]),
    ensures
        dec_val(s) >= 0,
    decreases s.len(),
{
    if s.len() > 0 {
        lemma_dec_val_nonneg(s.drop_last());
    }
}

/// Extending a digit string never shrinks the number it denotes.
pub proof fn lemma_dec_val_prefix(s: Seq<char>, k: int)
    requires
        0 <= k <= s.len(),
        forall|i: int| 0 <= i < s.len() ==> is_dec_digit(#[trigger] s[i]),
    ensures
        dec_val(s.take(k)) <= dec_val(s),
    decreases s.len() - k,
{
    if k < s.len() {
        lemma_dec_val_prefix(s, k + 1);
        assert(s.take(k + 1).drop_last() =~= s.take(k));
        assert(s.take(k + 1).last() == s[k]);
        lemma_dec_val_nonneg(s.take(k));
        assert(dec_val(s.take(k)) <= dec_val(s.take(k + 1))) by (nonlinear_arith)
            requires
                dec_val(s.take(k + 1)) == dec_val(s.take(k)) * 10 + digit_val(s.take(k + 1).last()),
                digit_val(s.take(k + 1).last()) >= 0,
                dec_val(s.take(k)) >= 0,
        ;
    } else {
        assert(s.take(k) =~= s);
    }
}

/// An element type whose values can be written as immediate literals in
/// the instruction stream.
pub trait GraphemeImmediate: ElemValue {
    /// Whether a literal denotes a value of this type.
    spec fn parses(imm: Seq<char>) -> bool;

    /// The value a well-formed literal denotes.
    spec fn parsed(imm: Seq<char>) -> ElemView;

    /// Parse a literal into a value.
    fn parse(imm: String) -> (r: Result<Self, BuildError>)
        ensures
            r is Ok <==> Self::parses(imm@),
            r is Ok ==> Self::vw(r->Ok_0) == Self::parsed(imm@),
            r is Err ==> r == Err::<Self, BuildError>(BuildError::BadImmediate),
    ;

    /// A fresh value standing for the same element value.
    fn replicate(&self) -> (r: Self)
        ensures
            Self::vw(r) == Self::vw(*self),
    ;
}

impl GraphemeImmediate for String {
    open spec fn parses(imm: Seq<char>) -> bool {
        true
    }

    open spec fn parsed(imm: Seq<char>) -> ElemView {
        ElemView::Str(imm)
    }

    fn parse(imm: String) -> (r: Result<Self, BuildError>) {
        Ok(imm)
    }

    fn replicate(&self) -> (r: Self) {
        self.clone()
    }
}

impl GraphemeImmediate for u64 {
    open spec fn parses(imm: Seq<char>) -> bool {
        is_dec(imm) && dec_val(imm) <= u64::MAX
    }

    open spec fn parsed(imm: Seq<char>) -> ElemView {
        ElemView::U64(dec_val(imm) as u64)
    }

    fn parse(imm: String) -> (r: Result<Self, BuildError>) {
        let s = imm.as_str();
        let n = s.unicode_len();
        if n == 0 {
            return Err(BuildError::BadImmediate);
        }
        let mut val: u64 = 0;
        let mut i: usize = 0;
        while i < n
            invariant
                n == imm@.len(),
                s@ == imm@,
                i <= n,
                forall|j: int| 0 <= j < i ==> is_dec_digit(#[trigger] imm@[j]),
                val == dec_val(imm@.take(i as int)),
            decreases n - i,
        {
            let c = s.get_char(i);
            if c < '0' || c > '9' {
                return Err(BuildError::BadImmediate);
            }
            let d: u64 = ((c as u32) - ('0' as u32)) as u64;
            proof {
                assert(d == digit_val(imm@[i as int]));
            }
            if val > (u64::MAX - d) / 10 {
                proof {
                    assert(imm@.take(i as int + 1).drop_last() =~= imm@.take(i as int));
                    assert(dec_val(imm@.take(i as int + 1)) > u64::MAX) by (nonlinear_arith)
                        requires
                            dec_val(imm@.take(i as int + 1)) == val * 10 + d,
                            val > (u64::MAX - d) / 10,
                            0 <= d <= 9,
                            val >= 0,
                    ;
                    if is_dec(imm@) {
                        lemma_dec_val_prefix(imm@, i as int + 1);
                    }
                }
                return Err(BuildError::BadImmediate);
            }
            proof {
                assert(val * 10 + d <= u64::MAX) by (nonlinear_arith)
                    requires
                        val <= (u64::MAX - d) / 10,
                        0 <= d <= 9,
                        val >= 0,
                ;
                assert(imm@.take(i as int + 1).drop_last() =~= imm@.take(i as int));
            }
            val = val * 10 + d;
            i = i + 1;
        }
        proof {
            assert(imm@.take(n as int) =~= imm@);
        }
        Ok(val)
    }

    fn replicate(&self) -> (r: Self) {
        *self
    }
}

/// Emit one copy of a parsed immediate for every trigger element read.
pub struct Load<M> {
    /// The parsed immediate value this operator replicates.
    pub imm: M,
}

impl<M: GraphemeImmediate> IOp for Load<M> {
    type Input = ();

    type Output = M;

    open spec fn accepts(imm: Seq<char>) -> bool {
        M::parses(imm)
    }

    open spec fn made_by(imm: Seq<char>, op: Self) -> bool {
        M::vw(op.imm) == M::parsed(imm)
    }

    open spec fn op_view(&self, e: ElemView) -> Seq<ElemView> {
        seq![M::vw(self.imm)]
    }

    fn new(imm: String) -> (r: Result<Self, BuildError>) {
        match M::parse(imm) {
            Ok(v) => Ok(Load { imm: v }),
            Err(e) => Err(e),
        }
    }

    fn exec(&self, e: &Self::Input) -> (out: Vec<Self::Output>) {
        let mut out: Vec<M> = Vec::new();
        out.push(self.imm.replicate());
        proof {
            assert(out@.map_values(|o: M| M::vw(o)) =~= seq![M::vw(self.imm)]);
        }
        out
    }
}

} // verus!

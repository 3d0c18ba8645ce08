//! Replacement operators: map every input element to a fixed literal.

use vstd::prelude::*;
use crate::elem::{ElemValue, ElemView};
use crate::operator::IOp;
use crate::BuildError;

verus! {

/// Replace each element of a signed-integer pipe with a fixed string.
pub struct IsReplace {
    /// The string every input element is replaced by.
    pub imm: String,
}

impl IOp for IsReplace {
    type Input = i64;

    type Output = String;

    open spec fn accepts(imm: Seq<char>) -> bool {
        true
    }

    open spec fn made_by(imm: Seq<char>, op: Self) -> bool {
        op.imm@ == imm
    }

    open spec fn op_view(&self, e: ElemView) -> Seq<ElemView> {
        seq![ElemView::Str(self.imm@)]
    }

    fn new(imm: String) -> (r: Result<Self, BuildError>) {
        Ok(IsReplace { imm })
    }

    fn exec(&self, e: &Self::Input) -> (out: Vec<Self::Output>) {
        let mut out: Vec<String> = Vec::new();
        out.push(self.imm.clone());
        proof {
            assert(out@.map_values(|o: String| <String as ElemValue>::vw(o)) =~= seq![
                ElemView::Str(self.imm@),
            ]);
        }
        out
    }
}

/// Replace each element of a counter pipe with a fixed string.
pub struct LsReplace {
    /// The string every input element is replaced by.
    pub imm: String,
}

impl IOp for LsReplace {
    type Input = usize;

    type Output = String;

    open spec fn accepts(imm: Seq<char>) -> bool {
        true
    }

    open spec fn made_by(imm: Seq<char>, op: Self) -> bool {
        op.imm@ == imm
    }

    open spec fn op_view(&self, e: ElemView) -> Seq<ElemView> {
        seq![ElemView::Str(self.imm@)]
    }

    fn new(imm: String) -> (r: Result<Self, BuildError>) {
        Ok(LsReplace { imm })
    }

    fn exec(&self, e: &Self::Input) -> (out: Vec<Self::Output>) {
        let mut out: Vec<String> = Vec::new();
        out.push(self.imm.clone());
        proof {
            assert(out@.map_values(|o: String| <String as ElemValue>::vw(o)) =~= seq![
                ElemView::Str(self.imm@),
            ]);
        }
        out
    }
}

} // verus!

//! The printf operator: put each string element on standard output and
//! forward it unchanged.

use vstd::prelude::*;
use std::io::Write;
use crate::elem::{ElemValue, ElemView};
use crate::operator::IOp;
use crate::BuildError;

verus! {

/// Print each element of a string pipe and pass it through.
pub struct SxPrintf {}

/// Relies on std::io::Stdout::write_all to put the bytes on standard
/// output; nothing is claimed of the write.
#[verifier::external_body]
fn emit(s: &String) {
    let _ = std::io::stdout().write_all(s.as_bytes());
}

impl IOp for SxPrintf {
    type Input = String;

    type Output = String;

    open spec fn accepts(imm: Seq<char>) -> bool {
        true
    }

    open spec fn made_by(imm: Seq<char>, op: Self) -> bool {
        true
    }

    open spec fn op_view(&self, e: ElemView) -> Seq<ElemView> {
        seq![e]
    }

    fn new(imm: String) -> (r: Result<Self, BuildError>) {
        Ok(SxPrintf {  })
    }

    fn exec(&self, e: &Self::Input) -> (out: Vec<Self::Output>) {
        emit(e);
        let mut out: Vec<String> = Vec::new();
        out.push(e.clone());
        proof {
            assert(out@.map_values(|o: String| <String as ElemValue>::vw(o)) =~= seq![
                ElemView::Str(e@),
            ]);
        }
        out
    }
}

} // verus!

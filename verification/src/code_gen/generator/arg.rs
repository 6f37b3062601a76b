//! A field of a constructor.

use crate::code_gen::schema::FieldView;
use crate::code_gen::tl_ident::TLIdent;
use vstd::prelude::*;

verus! {

/// A field: its name and the name of its type.
#[derive(Debug, Clone)]
pub struct Arg {
    pub name: TLIdent,
    pub kind: TLIdent,
}

impl View for Arg {
    type V = FieldView;

    open spec fn view(&self) -> FieldView {
        FieldView { name: self.name@, kind: self.kind@ }
    }
}

} // verus!

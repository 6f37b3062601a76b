//! The schema as it is loaded: constructors and methods with their
//! parameters.

use crate::code_gen::tl_ident::TLIdent;
use vstd::prelude::*;

verus! {

/// A parameter or a field: a name and the name of a type.
pub struct FieldView {
    pub name: Seq<char>,
    pub kind: Seq<char>,
}

/// A constructor: its id, its name, its fields in wire order and the type
/// that it produces.
pub struct ConstructorView {
    pub id: i32,
    pub name: Seq<char>,
    pub fields: Seq<FieldView>,
    pub return_type: Seq<char>,
}

/// The views of the items of `items`, in their order.
pub open spec fn views<T: View>(items: Seq<T>) -> Seq<T::V> {
    Seq::new(items.len(), |i: int| items[i]@)
}

/// Appending an item appends its view.
pub proof fn lemma_views_push<T: View>(items: Seq<T>, item: T)
    ensures
        views(items.push(item)) == views(items).push(item@),
{
    assert(views(items.push(item)) =~= views(items).push(item@));
}

/// A parameter of a constructor or a method.
#[derive(Clone, Debug)]
pub struct Param {
    pub name: TLIdent,
    pub kind: TLIdent,
}

impl View for Param {
    type V = FieldView;

    open spec fn view(&self) -> FieldView {
        FieldView { name: self.name@, kind: self.kind@ }
    }
}

/// One way to build a value of a type.
#[derive(Clone, Debug)]
pub struct Constructor {
    pub id: i32,
    pub predicate: TLIdent,
    pub params: Vec<Param>,
    pub return_type: TLIdent,
}

impl View for Constructor {
    type V = ConstructorView;

    open spec fn view(&self) -> ConstructorView {
        ConstructorView {
            id: self.id,
            name: self.predicate@,
            fields: views(self.params@),
            return_type: self.return_type@,
        }
    }
}

/// A remote call: shaped like a constructor, and carried along unchanged.
#[derive(Clone, Debug)]
pub struct Method {
    pub id: i32,
    pub method: TLIdent,
    pub params: Vec<Param>,
    pub return_type: TLIdent,
}

impl View for Method {
    type V = ConstructorView;

    open spec fn view(&self) -> ConstructorView {
        ConstructorView {
            id: self.id,
            name: self.method@,
            fields: views(self.params@),
            return_type: self.return_type@,
        }
    }
}

/// A schema: all its constructors and all its methods.
#[derive(Clone, Debug)]
pub struct Schema {
    pub constructors: Vec<Constructor>,
    pub methods: Vec<Method>,
}

impl Schema {
    /// The schema of the given constructors and methods.
    pub fn new(constructors: Vec<Constructor>, methods: Vec<Method>) -> (r: Schema)
        ensures
            r.constructors == constructors,
            r.methods == methods,
    {
        Schema { constructors, methods }
    }
}

} // verus!

//! Logical types and their compilation to codec definitions.

use crate::code_gen::generator::arg::Arg;
use crate::code_gen::schema;
use crate::code_gen::schema::{lemma_views_push, views, ConstructorView, FieldView};
use crate::code_gen::tl_ident::{
    field_error, field_name, name_error, path_error, rust_name,
    type_path, variant_error, variant_name, TLIdent,
};
use crate::error::{FormatError, SchemaError};
use vstd::prelude::*;

verus! {

/// A constructor as the compiler sees it.
#[derive(Debug, Clone)]
pub struct Constructor {
    pub name: TLIdent,
    pub fields: Vec<Arg>,
    pub return_type: TLIdent,
    pub id: i32,
}

impl View for Constructor {
    type V = ConstructorView;

    open spec fn view(&self) -> ConstructorView {
        ConstructorView {
            id: self.id,
            name: self.name@,
            fields: views(self.fields@),
            return_type: self.return_type@,
        }
    }
}

impl Constructor {
    /// The constructor that the schema entry `info` describes.
    pub fn new(info: &schema::Constructor) -> (r: Self)
        ensures
            r@ == info@,
    {
        let mut fields: Vec<Arg> = Vec::new();
        let mut i: usize = 0;
        while i < info.params.len()
            invariant
                i <= info.params@.len(),
                views(fields@) == views(info.params@.take(i as int)),
            decreases info.params@.len() - i,
        {
            let param = &info.params[i];
            let arg = Arg { name: param.name.duplicate(), kind: param.kind.duplicate() };
            proof {
                lemma_views_push(fields@, arg);
                lemma_views_push(info.params@.take(i as int), *param);
                assert(info.params@.take(i as int).push(*param) =~= info.params@.take(i + 1));
            }
            fields.push(arg);
            i += 1;
        }
        assert(info.params@.take(i as int) =~= info.params@);
        Constructor {
            name: info.predicate.duplicate(),
            fields,
            return_type: info.return_type.duplicate(),
            id: info.id,
        }
    }

    /// A copy of the constructor.
    pub fn duplicate(&self) -> (r: Self)
        ensures
            r@ == self@,
    {
        let mut fields: Vec<Arg> = Vec::new();
        let mut i: usize = 0;
        while i < self.fields.len()
            invariant
                i <= self.fields@.len(),
                views(fields@) == views(self.fields@.take(i as int)),
            decreases self.fields@.len() - i,
        {
            let field = &self.fields[i];
            let arg = Arg { name: field.name.duplicate(), kind: field.kind.duplicate() };
            proof {
                lemma_views_push(fields@, arg);
                lemma_views_push(self.fields@.take(i as int), *field);
                assert(self.fields@.take(i as int).push(*field) =~= self.fields@.take(i + 1));
            }
            fields.push(arg);
            i += 1;
        }
        assert(self.fields@.take(i as int) =~= self.fields@);
        Constructor {
            name: self.name.duplicate(),
            fields,
            return_type: self.return_type.duplicate(),
            id: self.id,
        }
    }
}

/// A logical type: the constructors that produce one type, in schema order.
#[derive(Debug, Clone, Default)]
pub struct TLType {
    pub constructors: Vec<Constructor>,
}

impl View for TLType {
    type V = Seq<ConstructorView>;

    open spec fn view(&self) -> Seq<ConstructorView> {
        views(self.constructors@)
    }
}

/// A field of a codec definition: its Rust name and the Rust path of its type.
pub struct FieldText {
    pub name: Seq<char>,
    pub path: Seq<char>,
}

/// A constructor of a codec definition: its Rust name, its discriminator and
/// its fields in wire order.
pub struct VariantText {
    pub name: Seq<char>,
    pub id: i32,
    pub fields: Seq<FieldText>,
}

/// A codec definition as a value: a record with one fixed discriminator, or
/// a union that is told apart by its discriminators.
pub enum ShapeView {
    Record { name: Seq<char>, constructor: VariantText },
    TaggedUnion { name: Seq<char>, variants: Seq<VariantText> },
}

/// A field of a codec definition.
#[derive(Debug, Clone, PartialEq, Eq)]
pub struct FieldShape {
    pub name: String,
    pub path: String,
}

impl View for FieldShape {
    type V = FieldText;

    open spec fn view(&self) -> FieldText {
        FieldText { name: self.name@, path: self.path@ }
    }
}

/// A constructor of a codec definition.
#[derive(Debug, Clone, PartialEq, Eq)]
pub struct VariantShape {
    pub name: String,
    pub id: i32,
    pub fields: Vec<FieldShape>,
}

impl View for VariantShape {
    type V = VariantText;

    open spec fn view(&self) -> VariantText {
        VariantText { name: self.name@, id: self.id, fields: views(self.fields@) }
    }
}

/// What a logical type compiles to.
#[derive(Debug, Clone, PartialEq, Eq)]
pub enum CompiledShape {
    /// One constructor: a struct with a fixed discriminator.
    Record { name: String, constructor: VariantShape },
    /// Two constructors or more: an enum with one variant for each.
    TaggedUnion { name: String, variants: Vec<VariantShape> },
}

impl View for CompiledShape {
    type V = ShapeView;

    open spec fn view(&self) -> ShapeView {
        match self {
            CompiledShape::Record { name, constructor } => ShapeView::Record {
                name: name@,
                constructor: constructor@,
            },
            CompiledShape::TaggedUnion { name, variants } => ShapeView::TaggedUnion {
                name: name@,
                variants: views(variants@),
            },
        }
    }
}

/// The field of a codec definition that the schema field `f` becomes.
pub open spec fn field_shape(f: FieldView) -> FieldText {
    FieldText { name: field_name(f.name), path: type_path(f.kind) }
}

/// The fields of a codec definition that the schema fields become.
pub open spec fn field_shapes(fields: Seq<FieldView>) -> Seq<FieldText> {
    Seq::new(fields.len(), |i: int| field_shape(fields[i]))
}

/// The constructor of a codec definition that the schema constructor `c`
/// becomes.
pub open spec fn variant_shape(c: ConstructorView) -> VariantText {
    VariantText { name: variant_name(c.name), id: c.id, fields: field_shapes(c.fields) }
}

/// The constructors of a codec definition that the schema constructors become.
pub open spec fn variant_shapes(cs: Seq<ConstructorView>) -> Seq<VariantText> {
    Seq::new(cs.len(), |i: int| variant_shape(cs[i]))
}

/// The first thing wrong with the fields, in their order: for each field its
/// name, then its type.
pub open spec fn fields_error(fields: Seq<FieldView>) -> Option<SchemaError>
    decreases fields.len(),
{
    if fields.len() == 0 {
        None
    } else {
        match fields_error(fields.drop_last()) {
            Some(e) => Some(e),
            None => match field_error(fields.last().name) {
                Some(e) => Some(e),
                None => path_error(fields.last().kind),
            },
        }
    }
}

/// The first thing wrong with a constructor: its name, then its fields.
pub open spec fn constructor_error(c: ConstructorView) -> Option<SchemaError> {
    match variant_error(c.name) {
        Some(e) => Some(e),
        None => fields_error(c.fields),
    }
}

/// The first thing wrong with the constructors, in their order.
pub open spec fn constructors_error(cs: Seq<ConstructorView>) -> Option<SchemaError>
    decreases cs.len(),
{
    if cs.len() == 0 {
        None
    } else {
        match constructors_error(cs.drop_last()) {
            Some(e) => Some(e),
            None => constructor_error(cs.last()),
        }
    }
}

/// The ids of the constructors, in their order.
pub open spec fn ids(cs: Seq<ConstructorView>) -> Seq<i32> {
    Seq::new(cs.len(), |i: int| cs[i].id)
}

/// The first id, in order, that an earlier constructor has too.
pub open spec fn first_duplicate(ids: Seq<i32>) -> Option<i32>
    decreases ids.len(),
{
    if ids.len() == 0 {
        None
    } else {
        match first_duplicate(ids.drop_last()) {
            Some(id) => Some(id),
            None => if ids.drop_last().contains(ids.last()) {
                Some(ids.last())
            } else {
                None
            },
        }
    }
}

/// Why a logical type does not compile, if it does not: it has no
/// constructor; or the name of its type, one of its constructors or one of
/// their fields is malformed; or two constructors share an id.
pub open spec fn shape_error(cs: Seq<ConstructorView>) -> Option<SchemaError> {
    if cs.len() == 0 {
        Some(SchemaError::NoConstructors)
    } else {
        match name_error(cs[0].return_type) {
            Some(e) => Some(e),
            None => match constructors_error(cs) {
                Some(e) => Some(e),
                None => match first_duplicate(ids(cs)) {
                    Some(id) => Some(SchemaError::DuplicateId(id)),
                    None => None,
                },
            },
        }
    }
}

/// What a logical type compiles to: a record where it has one constructor, a
/// union where it has more.
pub open spec fn compiled(cs: Seq<ConstructorView>) -> ShapeView {
    if cs.len() == 1 {
        ShapeView::Record { name: rust_name(cs[0].return_type), constructor: variant_shape(cs[0]) }
    } else {
        ShapeView::TaggedUnion { name: rust_name(cs[0].return_type), variants: variant_shapes(cs) }
    }
}

/// No id is found twice exactly where all ids differ from one another.
pub proof fn lemma_first_duplicate(ids: Seq<i32>)
    ensures
        first_duplicate(ids) is None <==> (forall|i: int, j: int|
            0 <= i < j < ids.len() ==> ids[i] != ids[j]),
    decreases ids.len(),
{
    if ids.len() > 0 {
        let front = ids.drop_last();
        lemma_first_duplicate(front);
        if first_duplicate(ids) is None {
            assert forall|i: int, j: int| 0 <= i < j < ids.len() implies ids[i] != ids[j] by {
                if j == ids.len() - 1 {
                    assert(front[i] == ids[i]);
                } else {
                    assert(front[i] == ids[i] && front[j] == ids[j]);
                }
            }
        } else if first_duplicate(front) is None {
            let i = choose|i: int| 0 <= i < front.len() && front[i] == ids.last();
            assert(ids[i] == ids[ids.len() - 1]);
        } else {
            let (i, j) = choose|i: int, j: int| 0 <= i < j < front.len() && front[i] == front[j];
            assert(ids[i] == ids[j]);
        }
    }
}

/// A logical type that compiles becomes a record exactly where it has one
/// constructor, and otherwise a union whose discriminators are the ids of
/// its constructors, no two of them alike.
pub proof fn lemma_compiled_shape(cs: Seq<ConstructorView>)
    requires
        shape_error(cs) is None,
    ensures
        cs.len() == 1 <==> compiled(cs) is Record,
        cs.len() >= 2 <==> compiled(cs) is TaggedUnion,
        compiled(cs) matches ShapeView::Record { constructor, .. } ==> constructor.id == cs[0].id,
        compiled(cs) matches ShapeView::TaggedUnion { variants, .. } ==> variants.len() == cs.len()
            && forall|i: int, j: int|
            0 <= i < j < variants.len() ==> variants[i].id != variants[j].id,
{
    lemma_first_duplicate(ids(cs));
    if cs.len() >= 2 {
        let variants = variant_shapes(cs);
        assert forall|i: int, j: int| 0 <= i < j < variants.len() implies variants[i].id
            != variants[j].id by {
            assert(ids(cs)[i] == cs[i].id && ids(cs)[j] == cs[j].id);
        }
    }
}

/// The place of the first of `variants` with the discriminator `id`, or
/// their number where none has it.
pub open spec fn variant_index(variants: Seq<VariantText>, id: i32, from: int) -> int
    decreases variants.len() - from,
{
    if from >= variants.len() {
        variants.len() as int
    } else if variants[from].id == id {
        from
    } else {
        variant_index(variants, id, from + 1)
    }
}

/// Where all discriminators differ, a discriminator selects the one variant
/// that has it, and none where no variant has it.
pub proof fn lemma_variant_index(variants: Seq<VariantText>, id: i32, from: int)
    requires
        0 <= from <= variants.len(),
    ensures
        from <= variant_index(variants, id, from) <= variants.len(),
        variant_index(variants, id, from) < variants.len() ==> variants[variant_index(
            variants,
            id,
            from,
        )].id == id,
        forall|i: int| from <= i < variant_index(variants, id, from) ==> variants[i].id != id,
        (forall|i: int, j: int| 0 <= i < j < variants.len() ==> variants[i].id != variants[j].id)
            ==> forall|i: int|
            from <= i < variants.len() && variants[i].id == id ==> i == variant_index(
                variants,
                id,
                from,
            ),
    decreases variants.len() - from,
{
    if from < variants.len() && variants[from].id != id {
        lemma_variant_index(variants, id, from + 1);
    }
}

/// An error among the first `n` fields is the error of them all.
proof fn lemma_fields_error_prefix(fields: Seq<FieldView>, n: int)
    requires
        0 <= n <= fields.len(),
        fields_error(fields.take(n)) is Some,
    ensures
        fields_error(fields) == fields_error(fields.take(n)),
    decreases fields.len() - n,
{
    if n < fields.len() {
        assert(fields.take(n + 1).drop_last() =~= fields.take(n));
        lemma_fields_error_prefix(fields, n + 1);
    } else {
        assert(fields.take(n) =~= fields);
    }
}

/// An error among the first `n` constructors is the error of them all.
proof fn lemma_constructors_error_prefix(cs: Seq<ConstructorView>, n: int)
    requires
        0 <= n <= cs.len(),
        constructors_error(cs.take(n)) is Some,
    ensures
        constructors_error(cs) == constructors_error(cs.take(n)),
    decreases cs.len() - n,
{
    if n < cs.len() {
        assert(cs.take(n + 1).drop_last() =~= cs.take(n));
        lemma_constructors_error_prefix(cs, n + 1);
    } else {
        assert(cs.take(n) =~= cs);
    }
}

/// A duplicate among the first `n` ids is the first duplicate of them all.
proof fn lemma_first_duplicate_prefix(ids: Seq<i32>, n: int)
    requires
        0 <= n <= ids.len(),
        first_duplicate(ids.take(n)) is Some,
    ensures
        first_duplicate(ids) == first_duplicate(ids.take(n)),
    decreases ids.len() - n,
{
    if n < ids.len() {
        assert(ids.take(n + 1).drop_last() =~= ids.take(n));
        lemma_first_duplicate_prefix(ids, n + 1);
    } else {
        assert(ids.take(n) =~= ids);
    }
}

/// The fields of a codec definition, or the first thing wrong with them.
fn compile_fields(fields: &Vec<Arg>) -> (r: Result<Vec<FieldShape>, SchemaError>)
    ensures
        match fields_error(views(fields@)) {
            Some(e) => r == Err::<Vec<FieldShape>, SchemaError>(e),
            None => r is Ok && views(r->Ok_0@) == field_shapes(views(fields@)),
        },
{
    let ghost all = views(fields@);
    let mut out: Vec<FieldShape> = Vec::new();
    let mut i: usize = 0;
    assert(all.take(0) =~= Seq::empty());
    assert(views(out@) =~= field_shapes(all.take(0)));
    while i < fields.len()
        invariant
            i <= fields@.len(),
            all == views(fields@),
            fields_error(all.take(i as int)) is None,
            views(out@) == field_shapes(all.take(i as int)),
        decreases fields@.len() - i,
    {
        let f = &fields[i];
        proof {
            assert(all.take(i + 1).drop_last() =~= all.take(i as int));
            assert(all.take(i + 1).last() == f@);
        }
        match f.name.check_field_name() {
            Err(e) => {
                proof {
                    lemma_fields_error_prefix(all, i + 1);
                }
                return Err(e);
            },
            Ok(_) => {},
        }
        match f.kind.check_field_type() {
            Err(e) => {
                proof {
                    lemma_fields_error_prefix(all, i + 1);
                }
                return Err(e);
            },
            Ok(_) => {},
        }
        let shape = FieldShape { name: f.name.as_field_name(), path: f.kind.as_rust_type_path() };
        proof {
            lemma_views_push(out@, shape);
            assert(field_shapes(all.take(i + 1)) =~= field_shapes(all.take(i as int)).push(
                field_shape(f@),
            ));
        }
        out.push(shape);
        i += 1;
    }
    assert(all.take(i as int) =~= all);
    Ok(out)
}

/// The constructor of a codec definition, or the first thing wrong with it.
fn compile_variant(c: &Constructor) -> (r: Result<VariantShape, SchemaError>)
    ensures
        match constructor_error(c@) {
            Some(e) => r == Err::<VariantShape, SchemaError>(e),
            None => r is Ok && r->Ok_0@ == variant_shape(c@),
        },
{
    match c.name.check_variant_name() {
        Err(e) => {
            return Err(e);
        },
        Ok(_) => {},
    }
    match compile_fields(&c.fields) {
        Err(e) => Err(e),
        Ok(fields) => Ok(VariantShape { name: c.name.as_variant_name(), id: c.id, fields }),
    }
}

/// The constructors of a codec definition, or the first thing wrong with them.
fn compile_variants(cs: &Vec<Constructor>) -> (r: Result<Vec<VariantShape>, SchemaError>)
    ensures
        match constructors_error(views(cs@)) {
            Some(e) => r == Err::<Vec<VariantShape>, SchemaError>(e),
            None => r is Ok && views(r->Ok_0@) == variant_shapes(views(cs@)),
        },
{
    let ghost all = views(cs@);
    let mut out: Vec<VariantShape> = Vec::new();
    let mut i: usize = 0;
    assert(all.take(0) =~= Seq::empty());
    assert(views(out@) =~= variant_shapes(all.take(0)));
    while i < cs.len()
        invariant
            i <= cs@.len(),
            all == views(cs@),
            constructors_error(all.take(i as int)) is None,
            views(out@) == variant_shapes(all.take(i as int)),
        decreases cs@.len() - i,
    {
        let c = &cs[i];
        proof {
            assert(all.take(i + 1).drop_last() =~= all.take(i as int));
            assert(all.take(i + 1).last() == c@);
        }
        match compile_variant(c) {
            Err(e) => {
                proof {
                    lemma_constructors_error_prefix(all, i + 1);
                }
                return Err(e);
            },
            Ok(shape) => {
                proof {
                    lemma_views_push(out@, shape);
                    assert(variant_shapes(all.take(i + 1)) =~= variant_shapes(
                        all.take(i as int),
                    ).push(variant_shape(c@)));
                }
                out.push(shape);
            },
        }
        i += 1;
    }
    assert(all.take(i as int) =~= all);
    Ok(out)
}

/// The first of `ids`, in order, that stands among them earlier too.
pub fn find_duplicate(ids: &Vec<i32>) -> (r: Option<i32>)
    ensures
        r == first_duplicate(ids@),
{
    let ghost all = ids@;
    let mut i: usize = 0;
    assert(all.take(0) =~= Seq::empty());
    while i < ids.len()
        invariant
            i <= ids@.len(),
            all == ids@,
            first_duplicate(all.take(i as int)) is None,
        decreases ids@.len() - i,
    {
        let id = ids[i];
        let mut j: usize = 0;
        proof {
            assert(all.take(i + 1).drop_last() =~= all.take(i as int));
            assert(all.take(i + 1).last() == id);
        }
        while j < i
            invariant
                j <= i < ids@.len(),
                all == ids@,
                id == all[i as int],
                first_duplicate(all.take(i as int)) is None,
                all.take(i + 1).drop_last() == all.take(i as int),
                all.take(i + 1).last() == id,
                forall|k: int| 0 <= k < j ==> all[k] != id,
            decreases i - j,
        {
            if ids[j] == id {
                proof {
                    assert(all.take(i as int)[j as int] == id);
                    assert(all.take(i as int).contains(id));
                    lemma_first_duplicate_prefix(all, i + 1);
                }
                return Some(id);
            }
            j += 1;
        }
        proof {
            assert(!all.take(i as int).contains(id)) by {
                if all.take(i as int).contains(id) {
                    let k = choose|k: int| 0 <= k < i && all.take(i as int)[k] == id;
                    assert(all[k] == id);
                }
            }
        }
        i += 1;
    }
    assert(all.take(i as int) =~= all);
    None
}

/// The ids of the constructors, in their order.
fn ids_of(cs: &Vec<Constructor>) -> (r: Vec<i32>)
    ensures
        r@ == ids(views(cs@)),
{
    let mut out: Vec<i32> = Vec::new();
    let mut i: usize = 0;
    while i < cs.len()
        invariant
            i <= cs@.len(),
            out@.len() == i,
            forall|k: int| 0 <= k < i ==> out@[k] == cs@[k].id,
        decreases cs@.len() - i,
    {
        out.push(cs[i].id);
        i += 1;
    }
    assert(out@ =~= ids(views(cs@)));
    out
}

impl TLType {
    /// Decides the shape of the type's codec: a record for one constructor, a
    /// union for more, with every name resolved. A type without constructors,
    /// a malformed name and an id that is used twice are refused.
    pub fn compile(&self) -> (r: Result<CompiledShape, SchemaError>)
        ensures
            match shape_error(self@) {
                Some(e) => r == Err::<CompiledShape, SchemaError>(e),
                None => r is Ok && r->Ok_0@ == compiled(self@),
            },
    {
        if self.constructors.len() == 0 {
            return Err(SchemaError::NoConstructors);
        }
        let first = &self.constructors[0];
        assert(self@[0] == first@);
        match first.return_type.check_type_name() {
            Err(e) => {
                return Err(e);
            },
            Ok(_) => {},
        }
        let mut variants = match compile_variants(&self.constructors) {
            Err(e) => {
                return Err(e);
            },
            Ok(v) => v,
        };
        match find_duplicate(&ids_of(&self.constructors)) {
            Some(id) => {
                return Err(SchemaError::DuplicateId(id));
            },
            None => {},
        }
        let name = first.return_type.as_rust_type_name();
        if self.constructors.len() == 1 {
            let ghost all = views(variants@);
            let ghost only = variants@[0];
            assert(self@.len() == 1);
            assert(all.len() == variant_shapes(self@).len());
            assert(variants@.len() == 1);
            assert(all[0] == only@);
            match variants.pop() {
                Some(constructor) => {
                    assert(constructor == only);
                    Ok(CompiledShape::Record { name, constructor })
                },
                None => Err(SchemaError::NoConstructors),
            }
        } else {
            Ok(CompiledShape::TaggedUnion { name, variants })
        }
    }
}

/// The place of the first of `variants` with the discriminator `id`.
fn find_variant(variants: &Vec<VariantShape>, id: i32) -> (r: usize)
    ensures
        r == variant_index(views(variants@), id, 0),
        r <= variants@.len(),
{
    let ghost all = views(variants@);
    let mut i: usize = 0;
    proof {
        lemma_variant_index(all, id, 0);
    }
    while i < variants.len()
        invariant
            i <= variants@.len(),
            all == views(variants@),
            variant_index(all, id, 0) == variant_index(all, id, i as int),
        decreases variants@.len() - i,
    {
        assert(all[i as int] == variants@[i as int]@);
        if variants[i].id == id {
            return i;
        }
        i += 1;
    }
    i
}

impl CompiledShape {
    /// The place of the variant that the discriminator `id` selects. A
    /// record has one variant, a union one for each constructor.
    pub fn select(&self, id: i32) -> (r: Result<usize, FormatError>)
        ensures
            match self@ {
                ShapeView::Record { constructor, .. } => r == if constructor.id == id {
                    Ok::<usize, FormatError>(0)
                } else {
                    Err::<usize, FormatError>(FormatError::UnknownConstructor(id))
                },
                ShapeView::TaggedUnion { variants, .. } => r == if variant_index(variants, id, 0)
                    < variants.len() {
                    Ok::<usize, FormatError>(variant_index(variants, id, 0) as usize)
                } else {
                    Err::<usize, FormatError>(FormatError::UnknownConstructor(id))
                },
            },
    {
        match self {
            CompiledShape::Record { constructor, .. } => {
                if constructor.id == id {
                    Ok(0)
                } else {
                    Err(FormatError::UnknownConstructor(id))
                }
            },
            CompiledShape::TaggedUnion { variants, .. } => {
                let i = find_variant(variants, id);
                if i < variants.len() {
                    Ok(i)
                } else {
                    Err(FormatError::UnknownConstructor(id))
                }
            },
        }
    }
}

} // verus!

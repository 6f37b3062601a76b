//! Grouping the constructors of a schema into logical types.
//!
//! Namespaces, the types within a namespace and the constructors within a
//! type all stand in the order in which the schema first names them, so that
//! one schema always gives one output.

use crate::code_gen::generator::emit::shape_text;
use crate::code_gen::generator::tl_type::{
    compiled, find_duplicate, first_duplicate, ids, shape_error, Constructor, TLType,
};
use crate::code_gen::schema::{lemma_views_push, views, ConstructorView, Schema};
use crate::code_gen::tl_ident::{
    namespace_parts, return_type_error, spec_should_generate, PRELUDE_MOD, TOP_MOD,
};
use crate::code_gen::utils::str_eq;
use crate::error::SchemaError;
use vstd::prelude::*;
use vstd::string::StringExecFns;

pub mod arg;
pub mod emit;
pub mod tl_type;

verus! {

/// A logical type as the grouping sees it: its constructors.
pub type TypeView = Seq<ConstructorView>;

/// A namespace as the grouping sees it: its name and its logical types.
pub type ModuleView = (Seq<char>, Seq<TypeView>);

/// The namespace that a produced type belongs to: the one it names, or the
/// top-level one.
pub open spec fn namespace_of(return_type: Seq<char>) -> Seq<char> {
    match namespace_parts(return_type).0 {
        Some(ns) => ns,
        None => TOP_MOD@,
    }
}

/// Whether the logical type `t` is the one of the produced type `return_type`.
pub open spec fn produces(t: TypeView, return_type: Seq<char>) -> bool {
    t.len() > 0 && t[0].return_type == return_type
}

/// The place at or after `from` of the first logical type that produces
/// `return_type`, or the number of types where there is none.
pub open spec fn type_index(types: Seq<TypeView>, return_type: Seq<char>, from: int) -> int
    decreases types.len() - from,
{
    if from >= types.len() {
        types.len() as int
    } else if produces(types[from], return_type) {
        from
    } else {
        type_index(types, return_type, from + 1)
    }
}

/// The place at or after `from` of the first namespace called `name`, or the
/// number of namespaces where there is none.
pub open spec fn module_index(modules: Seq<ModuleView>, name: Seq<char>, from: int) -> int
    decreases modules.len() - from,
{
    if from >= modules.len() {
        modules.len() as int
    } else if modules[from].0 == name {
        from
    } else {
        module_index(modules, name, from + 1)
    }
}

/// `types` with `c` added to the logical type of what it produces, which is
/// opened behind the others where `c` is its first constructor.
pub open spec fn insert_type(types: Seq<TypeView>, c: ConstructorView) -> Seq<TypeView> {
    let i = type_index(types, c.return_type, 0);
    if i < types.len() {
        types.update(i, types[i].push(c))
    } else {
        types.push(seq![c])
    }
}

/// `modules` with `c` added to its namespace, which is opened behind the
/// others where `c` is the first to name it.
pub open spec fn insert(modules: Seq<ModuleView>, c: ConstructorView) -> Seq<ModuleView> {
    let name = namespace_of(c.return_type);
    let i = module_index(modules, name, 0);
    if i < modules.len() {
        modules.update(i, (name, insert_type(modules[i].1, c)))
    } else {
        modules.push((name, seq![seq![c]]))
    }
}

/// The grouping of the constructors `cs`: those that produce a generated
/// type, each added in schema order.
pub open spec fn grouping(cs: Seq<ConstructorView>) -> Seq<ModuleView>
    decreases cs.len(),
{
    if cs.len() == 0 {
        Seq::empty()
    } else if spec_should_generate(cs.last().return_type) {
        insert(grouping(cs.drop_last()), cs.last())
    } else {
        grouping(cs.drop_last())
    }
}

/// The first thing wrong with the produced types of `cs`, in schema order.
pub open spec fn first_error(cs: Seq<ConstructorView>) -> Option<SchemaError>
    decreases cs.len(),
{
    if cs.len() == 0 {
        None
    } else {
        match first_error(cs.drop_last()) {
            Some(e) => Some(e),
            None => return_type_error(cs.last().return_type),
        }
    }
}

/// Why a schema is refused, if it is: for the first malformed name of a
/// produced type, or else for the first id that two constructors share.
pub open spec fn schema_error(cs: Seq<ConstructorView>) -> Option<SchemaError> {
    match first_error(cs) {
        Some(e) => Some(e),
        None => match first_duplicate(ids(cs)) {
            Some(id) => Some(SchemaError::DuplicateId(id)),
            None => None,
        },
    }
}

/// What holds of every logical type of a grouping: it has a constructor, all
/// its constructors produce one type, that type is generated, and it stands
/// in the namespace of its name.
pub open spec fn well_grouped(modules: Seq<ModuleView>) -> bool {
    forall|m: int, t: int, k: int|
        0 <= m < modules.len() && 0 <= t < modules[m].1.len() && 0 <= k < modules[m].1[t].len()
            ==> {
            &&& modules[m].1[t].len() > 0
            &&& (#[trigger] modules[m].1[t][k]).return_type == modules[m].1[t][0].return_type
            &&& spec_should_generate(modules[m].1[t][k].return_type)
            &&& modules[m].0 == namespace_of(modules[m].1[t][k].return_type)
        }
}

/// No logical type of a grouping is empty.
pub open spec fn no_empty_type(modules: Seq<ModuleView>) -> bool {
    forall|m: int, t: int|
        0 <= m < modules.len() && 0 <= t < modules[m].1.len() ==> (#[trigger] modules[m].1[t]).len()
            > 0
}

proof fn lemma_type_index(types: Seq<TypeView>, return_type: Seq<char>, from: int)
    requires
        0 <= from <= types.len(),
    ensures
        from <= type_index(types, return_type, from) <= types.len(),
        type_index(types, return_type, from) < types.len() ==> produces(
            types[type_index(types, return_type, from)],
            return_type,
        ),
    decreases types.len() - from,
{
    if from < types.len() && !produces(types[from], return_type) {
        lemma_type_index(types, return_type, from + 1);
    }
}

proof fn lemma_module_index(modules: Seq<ModuleView>, name: Seq<char>, from: int)
    requires
        0 <= from <= modules.len(),
    ensures
        from <= module_index(modules, name, from) <= modules.len(),
        module_index(modules, name, from) < modules.len() ==> modules[module_index(
            modules,
            name,
            from,
        )].0 == name,
    decreases modules.len() - from,
{
    if from < modules.len() && modules[from].0 != name {
        lemma_module_index(modules, name, from + 1);
    }
}

/// Adding a constructor of a generated type keeps a grouping well grouped.
proof fn lemma_insert_well_grouped(modules: Seq<ModuleView>, c: ConstructorView)
    requires
        well_grouped(modules),
        no_empty_type(modules),
        spec_should_generate(c.return_type),
    ensures
        well_grouped(insert(modules, c)),
        no_empty_type(insert(modules, c)),
{
    let name = namespace_of(c.return_type);
    let i = module_index(modules, name, 0);
    lemma_module_index(modules, name, 0);
    let after = insert(modules, c);
    if i < modules.len() {
        let types = modules[i].1;
        let j = type_index(types, c.return_type, 0);
        lemma_type_index(types, c.return_type, 0);
        assert forall|m: int, t: int, k: int|
            0 <= m < after.len() && 0 <= t < after[m].1.len() && 0 <= k < after[m].1[t].len()
            implies {
            &&& after[m].1[t].len() > 0
            &&& (#[trigger] after[m].1[t][k]).return_type == after[m].1[t][0].return_type
            &&& spec_should_generate(after[m].1[t][k].return_type)
            &&& after[m].0 == namespace_of(after[m].1[t][k].return_type)
        } by {
            if m == i {
                if j < types.len() {
                    if t == j {
                        if k < types[j].len() {
                            assert(after[m].1[t][k] == modules[m].1[t][k]);
                        }
                        assert(after[m].1[t][0] == modules[m].1[t][0]);
                    } else {
                        assert(after[m].1[t][k] == modules[m].1[t][k]);
                    }
                } else {
                    if t < types.len() {
                        assert(after[m].1[t][k] == modules[m].1[t][k]);
                    }
                }
            } else {
                assert(after[m].1[t][k] == modules[m].1[t][k]);
            }
        }
        assert forall|m: int, t: int| 0 <= m < after.len() && 0 <= t < after[m].1.len() implies (
        #[trigger] after[m].1[t]).len() > 0 by {
            if m == i {
                if j < types.len() && t != j {
                    assert(after[m].1[t] == modules[m].1[t]);
                } else if j >= types.len() && t < types.len() {
                    assert(after[m].1[t] == modules[m].1[t]);
                }
            } else {
                assert(after[m].1[t] == modules[m].1[t]);
            }
        }
    } else {
        assert forall|m: int, t: int, k: int|
            0 <= m < after.len() && 0 <= t < after[m].1.len() && 0 <= k < after[m].1[t].len()
            implies {
            &&& after[m].1[t].len() > 0
            &&& (#[trigger] after[m].1[t][k]).return_type == after[m].1[t][0].return_type
            &&& spec_should_generate(after[m].1[t][k].return_type)
            &&& after[m].0 == namespace_of(after[m].1[t][k].return_type)
        } by {
            if m < modules.len() {
                assert(after[m].1[t][k] == modules[m].1[t][k]);
            }
        }
        assert forall|m: int, t: int| 0 <= m < after.len() && 0 <= t < after[m].1.len() implies (
        #[trigger] after[m].1[t]).len() > 0 by {
            if m < modules.len() {
                assert(after[m].1[t] == modules[m].1[t]);
            }
        }
    }
}

/// The constructors among `cs` that produce `return_type`, in their order.
pub open spec fn producers(cs: Seq<ConstructorView>, return_type: Seq<char>) -> Seq<
    ConstructorView,
>
    decreases cs.len(),
{
    if cs.len() == 0 {
        Seq::empty()
    } else if cs.last().return_type == return_type {
        producers(cs.drop_last(), return_type).push(cs.last())
    } else {
        producers(cs.drop_last(), return_type)
    }
}

/// Whether one of the logical types of `modules` produces `return_type`.
pub open spec fn has_type(modules: Seq<ModuleView>, return_type: Seq<char>) -> bool {
    exists|m: int, t: int|
        0 <= m < modules.len() && 0 <= t < modules[m].1.len() && produces(
            #[trigger] modules[m].1[t],
            return_type,
        )
}

/// What a grouping is to the constructors `cs` that it was made of: every
/// logical type holds exactly the constructors that produce its type, in
/// schema order; no two namespaces have one name and no two logical types
/// produce one type; and every generated type that `cs` produces is there.
pub open spec fn groups_exactly(modules: Seq<ModuleView>, cs: Seq<ConstructorView>) -> bool {
    &&& well_grouped(modules)
    &&& no_empty_type(modules)
    &&& forall|m: int, t: int|
        0 <= m < modules.len() && 0 <= t < modules[m].1.len() ==> #[trigger] modules[m].1[t]
            == producers(cs, modules[m].1[t][0].return_type)
    &&& forall|m: int, n: int|
        0 <= m < n < modules.len() ==> (#[trigger] modules[m]).0 != (#[trigger] modules[n]).0
    &&& forall|m: int, t: int, u: int|
        0 <= m < modules.len() && 0 <= t < u < modules[m].1.len() ==> (
        #[trigger] modules[m].1[t])[0].return_type != (#[trigger] modules[m].1[u])[0].return_type
    &&& forall|i: int|
        0 <= i < cs.len() && spec_should_generate((#[trigger] cs[i]).return_type) ==> has_type(
            modules,
            cs[i].return_type,
        )
}

/// No constructor produces a type exactly where the producers of the type
/// are none.
proof fn lemma_no_producers(cs: Seq<ConstructorView>, return_type: Seq<char>)
    ensures
        (forall|i: int| 0 <= i < cs.len() ==> (#[trigger] cs[i]).return_type != return_type)
            ==> producers(cs, return_type) == Seq::<ConstructorView>::empty(),
    decreases cs.len(),
{
    if cs.len() > 0 {
        lemma_no_producers(cs.drop_last(), return_type);
        if forall|i: int| 0 <= i < cs.len() ==> (#[trigger] cs[i]).return_type != return_type {
            assert forall|i: int| 0 <= i < cs.drop_last().len() implies (
            #[trigger] cs.drop_last()[i]).return_type != return_type by {
                assert(cs.drop_last()[i] == cs[i]);
            }
            assert(cs.last() == cs[cs.len() - 1]);
        }
    }
}

/// Where no type is found, none of the types produces what was looked for.
proof fn lemma_type_not_found(types: Seq<TypeView>, return_type: Seq<char>, from: int)
    requires
        0 <= from <= types.len(),
        type_index(types, return_type, from) == types.len(),
    ensures
        forall|t: int| from <= t < types.len() ==> !produces(#[trigger] types[t], return_type),
    decreases types.len() - from,
{
    if from < types.len() {
        lemma_type_not_found(types, return_type, from + 1);
    }
}

/// Where no namespace is found, none has the name that was looked for.
proof fn lemma_module_not_found(modules: Seq<ModuleView>, name: Seq<char>, from: int)
    requires
        0 <= from <= modules.len(),
        module_index(modules, name, from) == modules.len(),
    ensures
        forall|m: int| from <= m < modules.len() ==> (#[trigger] modules[m]).0 != name,
    decreases modules.len() - from,
{
    if from < modules.len() {
        lemma_module_not_found(modules, name, from + 1);
    }
}

/// In an exact grouping that lacks the type of `c`, no earlier constructor
/// produces that type.
proof fn lemma_first_of_its_type(
    modules: Seq<ModuleView>,
    cs: Seq<ConstructorView>,
    c: ConstructorView,
)
    requires
        groups_exactly(modules, cs),
        spec_should_generate(c.return_type),
        !has_type(modules, c.return_type),
    ensures
        producers(cs, c.return_type) == Seq::<ConstructorView>::empty(),
{
    lemma_no_producers(cs, c.return_type);
    assert forall|i: int| 0 <= i < cs.len() implies (#[trigger] cs[i]).return_type
        != c.return_type by {
        if cs[i].return_type == c.return_type {
            assert(has_type(modules, cs[i].return_type));
        }
    }
}

/// Adding a constructor of a generated type to an exact grouping gives the
/// exact grouping of the constructors with the new one behind them.
proof fn lemma_insert_exact(modules: Seq<ModuleView>, cs: Seq<ConstructorView>, c: ConstructorView)
    requires
        groups_exactly(modules, cs),
        spec_should_generate(c.return_type),
    ensures
        groups_exactly(insert(modules, c), cs.push(c)),
{
    let name = namespace_of(c.return_type);
    let i = module_index(modules, name, 0);
    let after = insert(modules, c);
    let all = cs.push(c);
    lemma_module_index(modules, name, 0);
    lemma_insert_well_grouped(modules, c);
    assert(all.drop_last() =~= cs);
    assert(all.last() == c);
    // Where the type of `c` is: the place of its namespace and of its type.
    let j = if i < modules.len() {
        type_index(modules[i].1, c.return_type, 0)
    } else {
        0
    };
    if i < modules.len() {
        lemma_type_index(modules[i].1, c.return_type, 0);
        if j == modules[i].1.len() {
            lemma_type_not_found(modules[i].1, c.return_type, 0);
        }
    } else {
        lemma_module_not_found(modules, name, 0);
    }
    let opened = i == modules.len() || j == modules[i].1.len();
    // A type that was there before does not produce what `c` produces,
    // unless it is the one that `c` joins.
    assert forall|m: int, t: int|
        0 <= m < modules.len() && 0 <= t < modules[m].1.len() && !(m == i && t == j)
        implies !produces(#[trigger] modules[m].1[t], c.return_type) by {
        if produces(modules[m].1[t], c.return_type) {
            assert(modules[m].1[t][0].return_type == c.return_type);
            assert(modules[m].0 == namespace_of(modules[m].1[t][0].return_type));
            if m != i {
                if i < modules.len() {
                    if m < i {
                        assert(modules[m].0 != modules[i].0);
                    } else {
                        assert(modules[i].0 != modules[m].0);
                    }
                }
            } else if !opened {
                if t < j {
                    assert(modules[m].1[t][0].return_type != modules[m].1[j][0].return_type);
                } else {
                    assert(modules[m].1[j][0].return_type != modules[m].1[t][0].return_type);
                }
            }
        }
    }
    if opened {
        assert(!has_type(modules, c.return_type));
        lemma_first_of_its_type(modules, cs, c);
    }
    let ti = if i < modules.len() {
        i
    } else {
        modules.len() as int
    };
    let tj = if i < modules.len() {
        j
    } else {
        0
    };
    assert(0 <= ti < after.len() && 0 <= tj < after[ti].1.len());
    assert(after[ti].1[tj] =~= producers(cs, c.return_type).push(c));
    assert(produces(after[ti].1[tj], c.return_type));
    // Every type of the new grouping is an old one, or the one of `c`.
    assert forall|m: int, t: int| 0 <= m < after.len() && 0 <= t < after[m].1.len() implies (
    #[trigger] after[m].1[t]) == producers(all, after[m].1[t][0].return_type) by {
        if !(m == ti && t == tj) {
            assert(m < modules.len() && t < modules[m].1.len());
            assert(after[m].1[t] == modules[m].1[t]);
            assert(!produces(modules[m].1[t], c.return_type));
        }
    }
    assert forall|m: int, n: int| 0 <= m < n < after.len() implies (#[trigger] after[m]).0 != (
    #[trigger] after[n]).0 by {
        assert(after[m].0 == modules[m].0);
        if n < modules.len() {
            assert(after[n].0 == modules[n].0);
            assert(modules[m].0 != modules[n].0);
        }
    }
    assert forall|m: int, t: int, u: int|
        0 <= m < after.len() && 0 <= t < u < after[m].1.len() implies (
    #[trigger] after[m].1[t])[0].return_type != (#[trigger] after[m].1[u])[0].return_type by {
        assert(m < modules.len());
        assert(after[m].1[t][0] == modules[m].1[t][0]);
        if u < modules[m].1.len() {
            assert(after[m].1[u][0] == modules[m].1[u][0]);
            assert(modules[m].1[t][0].return_type != modules[m].1[u][0].return_type);
        } else {
            assert(m == i && u == j);
            assert(!produces(modules[m].1[t], c.return_type));
        }
    }
    assert forall|k: int|
        0 <= k < all.len() && spec_should_generate((#[trigger] all[k]).return_type)
        implies has_type(after, all[k].return_type) by {
        if k < cs.len() {
            assert(all[k] == cs[k]);
            assert(has_type(modules, cs[k].return_type));
            let (m, t) = choose|m: int, t: int|
                0 <= m < modules.len() && 0 <= t < modules[m].1.len() && produces(
                    #[trigger] modules[m].1[t],
                    cs[k].return_type,
                );
            assert(after[m].1[t][0] == modules[m].1[t][0]);
            assert(produces(after[m].1[t], cs[k].return_type));
        } else {
            assert(produces(after[ti].1[tj], all[k].return_type));
        }
    }
}

/// A constructor of a type that is not generated changes nothing about an
/// exact grouping.
proof fn lemma_skip_exact(modules: Seq<ModuleView>, cs: Seq<ConstructorView>, c: ConstructorView)
    requires
        groups_exactly(modules, cs),
        !spec_should_generate(c.return_type),
    ensures
        groups_exactly(modules, cs.push(c)),
{
    let all = cs.push(c);
    assert(all.drop_last() =~= cs);
    assert(all.last() == c);
    assert forall|m: int, t: int| 0 <= m < modules.len() && 0 <= t < modules[m].1.len() implies (
    #[trigger] modules[m].1[t]) == producers(all, modules[m].1[t][0].return_type) by {
        assert(spec_should_generate(modules[m].1[t][0].return_type));
    }
    assert forall|k: int|
        0 <= k < all.len() && spec_should_generate((#[trigger] all[k]).return_type)
        implies has_type(modules, all[k].return_type) by {
        assert(all[k] == cs[k]);
    }
}

/// The grouping of a schema is exact: every logical type holds exactly the
/// constructors that produce its type, in schema order; namespaces and
/// logical types are not repeated; no generated type is missing, and no
/// type that is built in, special or a vector is there.
pub proof fn lemma_grouping_exact(cs: Seq<ConstructorView>)
    ensures
        groups_exactly(grouping(cs), cs),
    decreases cs.len(),
{
    if cs.len() > 0 {
        lemma_grouping_exact(cs.drop_last());
        assert(cs.drop_last().push(cs.last()) =~= cs);
        if spec_should_generate(cs.last().return_type) {
            lemma_insert_exact(grouping(cs.drop_last()), cs.drop_last(), cs.last());
        } else {
            lemma_skip_exact(grouping(cs.drop_last()), cs.drop_last(), cs.last());
        }
    }
}

/// The views of the namespaces of a generator.
pub open spec fn module_views(modules: Seq<(String, Vec<TLType>)>) -> Seq<ModuleView> {
    Seq::new(modules.len(), |i: int| (modules[i].0@, views(modules[i].1@)))
}

/// The logical types of a schema, namespace by namespace.
pub struct Generator {
    pub types: Vec<(String, Vec<TLType>)>,
}

impl View for Generator {
    type V = Seq<ModuleView>;

    open spec fn view(&self) -> Seq<ModuleView> {
        module_views(self.types@)
    }
}

/// The place of the first logical type among `types` that produces what `c`
/// produces.
fn find_type(types: &Vec<TLType>, c: &Constructor) -> (r: usize)
    ensures
        r == type_index(views(types@), c@.return_type, 0),
        r <= types@.len(),
        r < types@.len() ==> types@[r as int]@.len() > 0,
{
    let ghost all = views(types@);
    let mut i: usize = 0;
    proof {
        lemma_type_index(all, c@.return_type, 0);
    }
    while i < types.len()
        invariant
            i <= types@.len(),
            all == views(types@),
            type_index(all, c@.return_type, 0) == type_index(all, c@.return_type, i as int),
        decreases types@.len() - i,
    {
        let t = &types[i];
        assert(all[i as int] == t@);
        if t.constructors.len() > 0 && t.constructors[0].return_type.same_as(&c.return_type) {
            assert(t@[0] == t.constructors@[0]@);
            return i;
        }
        proof {
            if t.constructors@.len() > 0 {
                assert(t@[0] == t.constructors@[0]@);
            }
        }
        i += 1;
    }
    i
}

/// The place of the first namespace among `modules` that is called `name`.
fn find_module(modules: &Vec<(String, Vec<TLType>)>, name: &str) -> (r: usize)
    ensures
        r == module_index(module_views(modules@), name@, 0),
        r <= modules@.len(),
{
    let ghost all = module_views(modules@);
    let mut i: usize = 0;
    proof {
        lemma_module_index(all, name@, 0);
    }
    while i < modules.len()
        invariant
            i <= modules@.len(),
            all == module_views(modules@),
            module_index(all, name@, 0) == module_index(all, name@, i as int),
        decreases modules@.len() - i,
    {
        assert(all[i as int].0 == modules@[i as int].0@);
        if str_eq(modules[i].0.as_str(), name) {
            return i;
        }
        i += 1;
    }
    i
}

/// Adds `c` to the logical type of what it produces.
fn add_to_types(types: &mut Vec<TLType>, c: Constructor)
    ensures
        views(final(types)@) == insert_type(views(old(types)@), c@),
{
    let ghost before = views(types@);
    let i = find_type(types, &c);
    if i < types.len() {
        let ghost old_items = types@[i as int].constructors@;
        types[i].constructors.push(c);
        proof {
            lemma_views_push(old_items, c);
            assert(views(types@) =~= before.update(i as int, before[i as int].push(c@)));
        }
    } else {
        let mut constructors: Vec<Constructor> = Vec::new();
        constructors.push(c);
        let t = TLType { constructors };
        proof {
            assert(t@ =~= seq![c@]);
            lemma_views_push(types@, t);
        }
        types.push(t);
    }
}

/// Adds `c` to the namespace `name`, which is that of what it produces.
fn add_to_modules(modules: &mut Vec<(String, Vec<TLType>)>, name: String, c: Constructor)
    requires
        name@ == namespace_of(c@.return_type),
    ensures
        module_views(final(modules)@) == insert(module_views(old(modules)@), c@),
{
    let ghost before = module_views(modules@);
    let i = find_module(modules, name.as_str());
    if i < modules.len() {
        proof {
            lemma_module_index(before, name@, 0);
        }
        add_to_types(&mut modules[i].1, c);
        assert(module_views(modules@) =~= before.update(
            i as int,
            (name@, insert_type(before[i as int].1, c@)),
        ));
    } else {
        let mut constructors: Vec<Constructor> = Vec::new();
        constructors.push(c);
        let t = TLType { constructors };
        let mut types: Vec<TLType> = Vec::new();
        types.push(t);
        proof {
            assert(t@ =~= seq![c@]);
            assert(views(types@) =~= seq![seq![c@]]);
        }
        modules.push((name, types));
        assert(module_views(modules@) =~= before.push((name@, seq![seq![c@]])));
    }
}

impl Generator {
    /// Groups the constructors of `schema` that produce a generated type: by
    /// the namespace of the type, then by the type. A produced type with a
    /// malformed name stops the run, and so does an id that two constructors
    /// of the schema share.
    pub fn new(schema: &Schema) -> (r: Result<Generator, SchemaError>)
        ensures
            match schema_error(views(schema.constructors@)) {
                Some(e) => r == Err::<Generator, SchemaError>(e),
                None => r is Ok && r->Ok_0@ == grouping(views(schema.constructors@)),
            },
            r is Ok ==> groups_exactly(r->Ok_0@, views(schema.constructors@)),
    {
        let ghost cs = views(schema.constructors@);
        let mut types: Vec<(String, Vec<TLType>)> = Vec::new();
        let mut all_ids: Vec<i32> = Vec::new();
        let mut k: usize = 0;
        assert(cs.take(0) =~= Seq::empty());
        assert(module_views(types@) =~= Seq::empty());
        assert(all_ids@ =~= ids(cs.take(0)));
        while k < schema.constructors.len()
            invariant
                k <= schema.constructors@.len(),
                cs == views(schema.constructors@),
                first_error(cs.take(k as int)) is None,
                module_views(types@) == grouping(cs.take(k as int)),
                all_ids@ == ids(cs.take(k as int)),
            decreases schema.constructors@.len() - k,
        {
            let c = &schema.constructors[k];
            proof {
                assert(cs.take(k + 1).drop_last() =~= cs.take(k as int));
                assert(cs.take(k + 1).last() == c@);
            }
            match c.return_type.check_return_type() {
                Err(e) => {
                    proof {
                        lemma_first_error_prefix(cs, k + 1);
                    }
                    return Err(e);
                },
                Ok(_) => {},
            }
            if c.return_type.should_generate() {
                let (ns, _) = c.return_type.namespace_split();
                let name = match ns {
                    Some(ns) => ns,
                    None => String::from_str(TOP_MOD),
                };
                add_to_modules(&mut types, name, Constructor::new(c));
            }
            all_ids.push(c.id);
            assert(all_ids@ =~= ids(cs.take(k + 1)));
            k += 1;
        }
        match find_duplicate(&all_ids) {
            Some(id) => {
                assert(cs.take(k as int) =~= cs);
                return Err(SchemaError::DuplicateId(id));
            },
            None => {},
        }
        proof {
            assert(cs.take(k as int) =~= cs);
            lemma_grouping_exact(cs);
        }
        Ok(Generator { types })
    }
}

/// An error among the first `n` constructors is the error of them all.
proof fn lemma_first_error_prefix(cs: Seq<ConstructorView>, n: int)
    requires
        0 <= n <= cs.len(),
        first_error(cs.take(n)) is Some,
    ensures
        first_error(cs) == first_error(cs.take(n)),
    decreases cs.len() - n,
{
    if n < cs.len() {
        assert(cs.take(n + 1).drop_last() =~= cs.take(n));
        lemma_first_error_prefix(cs, n + 1);
    } else {
        assert(cs.take(n) =~= cs);
    }
}

/// The first reason why one of `types` does not compile, in their order.
pub open spec fn module_error(types: Seq<TypeView>) -> Option<SchemaError>
    decreases types.len(),
{
    if types.len() == 0 {
        None
    } else {
        match module_error(types.drop_last()) {
            Some(e) => Some(e),
            None => shape_error(types.last()),
        }
    }
}

/// The codec definitions of `types`, one after another, each behind an
/// empty line.
pub open spec fn definitions_text(types: Seq<TypeView>) -> Seq<char>
    decreases types.len(),
{
    if types.len() == 0 {
        Seq::empty()
    } else {
        definitions_text(types.drop_last()) + "\n"@ + shape_text(compiled(types.last()))
    }
}

/// The source of the module of one namespace: the import of the
/// hand-written types, then the codec definitions.
pub open spec fn module_text(types: Seq<TypeView>) -> Seq<char> {
    "use super::"@ + PRELUDE_MOD@ + "::*;\n"@ + definitions_text(types)
}

/// The lines that declare the modules of the namespaces, in their order.
pub open spec fn module_lines(modules: Seq<ModuleView>) -> Seq<char>
    decreases modules.len(),
{
    if modules.len() == 0 {
        Seq::empty()
    } else {
        module_lines(modules.drop_last()) + "pub mod "@ + modules.last().0 + ";\n"@
    }
}

/// The index of the generated modules: the module of the hand-written
/// types, then one module for each namespace.
pub open spec fn index_text(modules: Seq<ModuleView>) -> Seq<char> {
    "pub mod "@ + PRELUDE_MOD@ + ";\n"@ + module_lines(modules)
}

/// An error among the first `n` types is the error of them all.
proof fn lemma_module_error_prefix(types: Seq<TypeView>, n: int)
    requires
        0 <= n <= types.len(),
        module_error(types.take(n)) is Some,
    ensures
        module_error(types) == module_error(types.take(n)),
    decreases types.len() - n,
{
    if n < types.len() {
        assert(types.take(n + 1).drop_last() =~= types.take(n));
        lemma_module_error_prefix(types, n + 1);
    } else {
        assert(types.take(n) =~= types);
    }
}

/// The source of the module that holds the codecs of `types`, or the first
/// reason why one of them does not compile.
pub fn module_source(types: &Vec<TLType>) -> (r: Result<String, SchemaError>)
    ensures
        match module_error(views(types@)) {
            Some(e) => r == Err::<String, SchemaError>(e),
            None => r is Ok && r->Ok_0@ == module_text(views(types@)),
        },
{
    let ghost all = views(types@);
    let mut definitions = String::new();
    let mut i: usize = 0;
    assert(all.take(0) =~= Seq::empty());
    while i < types.len()
        invariant
            i <= types@.len(),
            all == views(types@),
            module_error(all.take(i as int)) is None,
            definitions@ == definitions_text(all.take(i as int)),
        decreases types@.len() - i,
    {
        proof {
            assert(all.take(i + 1).drop_last() =~= all.take(i as int));
            assert(all.take(i + 1).last() == types@[i as int]@);
        }
        match types[i].compile() {
            Err(e) => {
                proof {
                    lemma_module_error_prefix(all, i + 1);
                }
                return Err(e);
            },
            Ok(shape) => {
                let text = shape.to_source();
                definitions.append("\n");
                definitions.append(text.as_str());
            },
        }
        i += 1;
    }
    assert(all.take(i as int) =~= all);
    let mut out = String::from_str("use super::");
    out.append(PRELUDE_MOD);
    out.append("::*;\n");
    out.append(definitions.as_str());
    Ok(out)
}

impl Generator {
    /// The source of the index that declares the generated modules.
    pub fn index_source(&self) -> (r: String)
        ensures
            r@ == index_text(self@),
    {
        let ghost all = self@;
        let mut lines = String::new();
        let mut i: usize = 0;
        assert(all.take(0) =~= Seq::empty());
        while i < self.types.len()
            invariant
                i <= self.types@.len(),
                all == self@,
                lines@ == module_lines(all.take(i as int)),
            decreases self.types@.len() - i,
        {
            proof {
                assert(all.take(i + 1).drop_last() =~= all.take(i as int));
                assert(all.take(i + 1).last().0 == self.types@[i as int].0@);
            }
            lines.append("pub mod ");
            lines.append(self.types[i].0.as_str());
            lines.append(";\n");
            i += 1;
        }
        assert(all.take(i as int) =~= all);
        let mut out = String::from_str("pub mod ");
        out.append(PRELUDE_MOD);
        out.append(";\n");
        out.append(lines.as_str());
        out
    }
}

} // verus!

//! Identifiers of a schema: names of types, constructors and fields.
//!
//! An identifier may carry a namespace (`ns.Name`, one level at most) or be
//! a vector (`Vector<Inner>`, not nested). Everything else about it is
//! derived here.

use crate::code_gen::utils::{contains_char, find_char, find_from, str_eq};
use crate::error::SchemaError;
use heck::{CamelCase, SnakeCase};
use vstd::prelude::*;
use vstd::string::{StrSliceExecFns, StringExecFns};

verus! {

/// The module that holds the hand-written types.
pub const PRELUDE_MOD: &'static str = "prelude";

/// The module of the types that name no namespace.
pub const TOP_MOD: &'static str = "tl";

/// What `heck` makes of `name` in CamelCase.
pub uninterp spec fn camel_case_of(name: Seq<char>) -> Seq<char>;

/// What `heck` makes of `name` in snake_case.
pub uninterp spec fn snake_case_of(name: Seq<char>) -> Seq<char>;

/// `heck::CamelCase::to_camel_case`: the words of the name, each with a
/// capital first letter, joined without a separator. The result depends on
/// the name alone.
#[verifier::external_body]
pub(crate) fn to_camel_case(name: &str) -> (r: String)
    ensures
        r@ == camel_case_of(name@),
{
    name.to_camel_case()
}

/// `heck::SnakeCase::to_snake_case`: the words of the name in lower case,
/// joined by underscores. The result depends on the name alone.
#[verifier::external_body]
pub(crate) fn to_snake_case(name: &str) -> (r: String)
    ensures
        r@ == snake_case_of(name@),
{
    name.to_snake_case()
}

/// An ASCII letter in lower case; any other character as it is.
pub open spec fn lower(c: char) -> char {
    if 'A' <= c && c <= 'Z' {
        ((c as int) + 32) as char
    } else {
        c
    }
}

/// Whether two texts differ at most in the case of their ASCII letters.
pub open spec fn eq_ignore_case(a: Seq<char>, b: Seq<char>) -> bool {
    &&& a.len() == b.len()
    &&& forall|i: int| 0 <= i < a.len() ==> lower(a[i]) == lower(b[i])
}

/// Whether `outer` names the one generic wrapper there is.
pub open spec fn is_vector_name(outer: Seq<char>) -> bool {
    eq_ignore_case(outer, "vector"@)
}

/// The two parts of `Outer<Inner>`: the text before the first `<` behind the
/// first character, and the text between it and the closing `>`. Both are
/// non-empty, and the identifier has no line break.
pub open spec fn generic_parts(s: Seq<char>) -> Option<(Seq<char>, Seq<char>)> {
    let open = find_from(s, '<', 1);
    if s.len() >= 4 && s.last() == '>' && !s.contains('\n') && open <= s.len() - 3 {
        Some((s.take(open), s.subrange(open + 1, s.len() - 1)))
    } else {
        None
    }
}

/// A generic identifier is a vector whose argument is not generic.
pub open spec fn generic_ok(s: Seq<char>) -> bool {
    generic_parts(s) matches Some((outer, inner)) ==> is_vector_name(outer) && !inner.contains('<')
}

/// Whether `s` has the shape `Vector<Inner>`.
pub open spec fn spec_is_vector(s: Seq<char>) -> bool {
    generic_parts(s) matches Some((outer, _)) && is_vector_name(outer)
}

/// The types that the wire format brings along: the scalars, the byte
/// strings, and the vector, whether spelled `Vector t`, as its own
/// constructor spells it, or with the type of its elements.
pub open spec fn spec_is_built_in(s: Seq<char>) -> bool {
    ||| spec_is_vector(s)
    ||| s == "int"@
    ||| s == "long"@
    ||| s == "double"@
    ||| s == "bytes"@
    ||| s == "string"@
    ||| s == "int128"@
    ||| s == "int256"@
    ||| s == "Vector t"@
    ||| s == "Bool"@
}

/// The pseudo-types that are never generated.
pub open spec fn spec_is_special(s: Seq<char>) -> bool {
    ||| s == "True"@
    ||| s == "Null"@
    ||| s == "PeerSettings"@
    ||| s == "MessageContainer"@
}

/// Whether a type of this name is generated: it is neither built in, a
/// vector among them, nor special.
pub open spec fn spec_should_generate(s: Seq<char>) -> bool {
    !spec_is_built_in(s) && !spec_is_special(s)
}

/// Whether `s` has no more than one `.`.
pub open spec fn at_most_one_dot(s: Seq<char>) -> bool {
    let dot = find_from(s, '.', 0);
    dot == s.len() || find_from(s, '.', dot + 1) == s.len()
}

/// The namespace of `s`, if it names one, and the name behind it.
pub open spec fn namespace_parts(s: Seq<char>) -> (Option<Seq<char>>, Seq<char>) {
    let dot = find_from(s, '.', 0);
    if dot == s.len() {
        (None, s)
    } else {
        (Some(s.take(dot)), s.skip(dot + 1))
    }
}

/// What `namespace_split` asks of an identifier.
pub open spec fn namespace_ok(s: Seq<char>) -> bool {
    !s.contains('<') && at_most_one_dot(s)
}

/// The Rust type of a built-in that fields can have.
pub open spec fn rust_type_of(name: Seq<char>) -> Option<Seq<char>> {
    if name == "int"@ {
        Some("i32"@)
    } else if name == "long"@ {
        Some("i64"@)
    } else if name == "double"@ {
        Some("f64"@)
    } else if name == "bytes"@ {
        Some("TLBytes"@)
    } else if name == "string"@ {
        Some("String"@)
    } else if name == "int128"@ {
        Some("[u8; 16]"@)
    } else if name == "int256"@ {
        Some("[u8; 32]"@)
    } else if name == "Bool"@ {
        Some("bool"@)
    } else {
        None
    }
}

/// What a reference to a type that is no vector must look like.
pub open spec fn plain_ok(s: Seq<char>) -> bool {
    &&& !s.contains('<')
    &&& !s.contains('>')
    &&& at_most_one_dot(s)
    &&& s != "PeerSettings"@
}

/// The path of a user type that names no namespace, given its name in
/// CamelCase.
pub open spec fn top_level_path(camel: Seq<char>) -> Seq<char> {
    "super::"@ + TOP_MOD@ + "::"@ + camel
}

/// The path of a type in the module of the namespace `ns`, given its name
/// in CamelCase.
pub open spec fn namespaced_path(ns: Seq<char>, camel: Seq<char>) -> Seq<char> {
    "super::"@ + ns + "::"@ + camel
}

/// The Rust path that a reference to the type `s`, which is no vector,
/// resolves to: for a user type the path of the type as it is emitted, under
/// its name in CamelCase in the module of its namespace.
pub open spec fn plain_path(s: Seq<char>) -> Seq<char> {
    match namespace_parts(s) {
        (Some(ns), name) => namespaced_path(ns, camel_case_of(name)),
        (None, name) => match rust_type_of(name) {
            Some(t) => t,
            None => top_level_path(camel_case_of(name)),
        },
    }
}

/// The text of a vector whose elements have the type `inner`.
pub open spec fn vec_of(inner: Seq<char>) -> Seq<char> {
    "Vec<"@ + inner + ">"@
}

/// What `as_rust_type_path` asks of an identifier.
pub open spec fn path_ok(s: Seq<char>) -> bool {
    &&& generic_ok(s)
    &&& match generic_parts(s) {
        Some((_, inner)) => plain_ok(inner),
        None => plain_ok(s),
    }
}

/// The Rust path that a reference to the type `s` resolves to.
pub open spec fn type_path(s: Seq<char>) -> Seq<char> {
    match generic_parts(s) {
        Some((_, inner)) => vec_of(plain_path(inner)),
        None => plain_path(s),
    }
}

/// What `as_rust_type_name` asks of an identifier.
pub open spec fn name_ok(s: Seq<char>) -> bool {
    &&& generic_ok(s)
    &&& match generic_parts(s) {
        Some((_, inner)) => plain_ok(inner),
        None => namespace_ok(s),
    }
}

/// The name of the Rust type that stands for `s`.
pub open spec fn rust_name(s: Seq<char>) -> Seq<char> {
    match generic_parts(s) {
        Some((_, inner)) => vec_of(plain_path(inner)),
        None => camel_case_of(namespace_parts(s).1),
    }
}

/// The module that the type `s` is emitted in: the one of its namespace, or
/// the top-level one.
pub open spec fn module_of(s: Seq<char>) -> Seq<char> {
    match namespace_parts(s).0 {
        Some(ns) => ns,
        None => TOP_MOD@,
    }
}

/// A reference to a user type resolves to the type as it is emitted: in the
/// module of its namespace, under the name that `rust_name` gives it.
pub proof fn lemma_path_names_the_emitted_type(s: Seq<char>)
    requires
        generic_parts(s) is None,
        namespace_parts(s).0 is Some || rust_type_of(s) is None,
    ensures
        type_path(s) == "super::"@ + module_of(s) + "::"@ + rust_name(s),
{
}

/// What `as_field_name` asks of an identifier.
pub open spec fn field_ok(s: Seq<char>) -> bool {
    !s.contains('.') && !s.contains('<') && !s.contains('>')
}

/// The name of the field that stands for `s`: `type` is a word of Rust and
/// becomes `ty`.
pub open spec fn field_name(s: Seq<char>) -> Seq<char> {
    if s == "type"@ {
        "ty"@
    } else {
        snake_case_of(s)
    }
}

/// What `as_variant_name` asks of an identifier.
pub open spec fn variant_ok(s: Seq<char>) -> bool {
    !s.contains('<') && !s.contains('>') && at_most_one_dot(s)
}

/// The name of the variant that stands for the constructor `s`.
pub open spec fn variant_name(s: Seq<char>) -> Seq<char> {
    camel_case_of(namespace_parts(s).1)
}

/// Why a reference to a type that is no vector is refused, if it is.
pub open spec fn plain_error(s: Seq<char>) -> Option<SchemaError> {
    if s.contains('<') || s.contains('>') {
        Some(SchemaError::StrayPunctuation)
    } else if !at_most_one_dot(s) {
        Some(SchemaError::NamespaceDepth)
    } else if s == "PeerSettings"@ {
        Some(SchemaError::SpecialType)
    } else {
        None
    }
}

/// Why a generic identifier is refused, if it is.
pub open spec fn generic_error(s: Seq<char>) -> Option<SchemaError> {
    match generic_parts(s) {
        Some((outer, inner)) => if !is_vector_name(outer) {
            Some(SchemaError::UnknownGeneric)
        } else if inner.contains('<') {
            Some(SchemaError::NestedGeneric)
        } else {
            None
        },
        None => None,
    }
}

/// Why a reference to a type is refused, if it is.
pub open spec fn path_error(s: Seq<char>) -> Option<SchemaError> {
    match generic_error(s) {
        Some(e) => Some(e),
        None => match generic_parts(s) {
            Some((_, inner)) => plain_error(inner),
            None => plain_error(s),
        },
    }
}

/// Why the name of a produced type is refused, if it is. A name that is not
/// generated is refused for its generic shape only.
pub open spec fn return_type_error(s: Seq<char>) -> Option<SchemaError> {
    match generic_error(s) {
        Some(e) => Some(e),
        None => if !spec_should_generate(s) {
            None
        } else if s.contains('<') {
            Some(SchemaError::StrayPunctuation)
        } else if !at_most_one_dot(s) {
            Some(SchemaError::NamespaceDepth)
        } else {
            None
        },
    }
}

/// Why the name of a produced type cannot name a Rust type, if it cannot.
pub open spec fn name_error(s: Seq<char>) -> Option<SchemaError> {
    match generic_error(s) {
        Some(e) => Some(e),
        None => match generic_parts(s) {
            Some((_, inner)) => plain_error(inner),
            None => if s.contains('<') {
                Some(SchemaError::StrayPunctuation)
            } else if !at_most_one_dot(s) {
                Some(SchemaError::NamespaceDepth)
            } else {
                None
            },
        },
    }
}

/// Why the name of a field is refused, if it is.
pub open spec fn field_error(s: Seq<char>) -> Option<SchemaError> {
    if field_ok(s) {
        None
    } else {
        Some(SchemaError::StrayPunctuation)
    }
}

/// Why the name of a constructor is refused, if it is.
pub open spec fn variant_error(s: Seq<char>) -> Option<SchemaError> {
    if s.contains('<') || s.contains('>') {
        Some(SchemaError::StrayPunctuation)
    } else if !at_most_one_dot(s) {
        Some(SchemaError::NamespaceDepth)
    } else {
        None
    }
}

/// The checks refuse exactly the identifiers that the derivations cannot take.
pub proof fn lemma_errors_are_exact(s: Seq<char>)
    ensures
        path_error(s) is None <==> path_ok(s),
        field_error(s) is None <==> field_ok(s),
        variant_error(s) is None <==> variant_ok(s),
        generic_error(s) is None <==> generic_ok(s),
        name_error(s) is None <==> name_ok(s),
        return_type_error(s) is None <==> generic_ok(s) && (spec_should_generate(s)
            ==> namespace_ok(s) && name_ok(s)),
{
}

/// What a check answers: `Ok` where nothing is wrong, and else what is.
pub open spec fn as_result(error: Option<SchemaError>) -> Result<(), SchemaError> {
    match error {
        Some(e) => Err(e),
        None => Ok(()),
    }
}

/// A name of the schema: of a type, a constructor or a field.
#[derive(Debug, Clone, Eq, PartialEq, Hash)]
pub struct TLIdent(String);

impl View for TLIdent {
    type V = Seq<char>;

    closed spec fn view(&self) -> Seq<char> {
        self.0@
    }
}

fn lower_char(c: char) -> (r: char)
    ensures
        r == lower(c),
{
    if 'A' <= c && c <= 'Z' {
        ((c as u8) + 32) as char
    } else {
        c
    }
}

fn same_ignoring_case(a: &str, b: &str) -> (r: bool)
    ensures
        r == eq_ignore_case(a@, b@),
{
    let len = a.unicode_len();
    if len != b.unicode_len() {
        return false;
    }
    let mut i: usize = 0;
    while i < len
        invariant
            i <= len,
            len == a@.len(),
            len == b@.len(),
            forall|j: int| 0 <= j < i ==> lower(a@[j]) == lower(b@[j]),
        decreases len - i,
    {
        if lower_char(a.get_char(i)) != lower_char(b.get_char(i)) {
            return false;
        }
        i += 1;
    }
    true
}

fn one_dot_at_most(s: &str) -> (r: bool)
    ensures
        r == at_most_one_dot(s@),
{
    let len = s.unicode_len();
    let dot = find_char(s, '.', 0);
    dot == len || find_char(s, '.', dot + 1) == len
}

/// Splits `Outer<Inner>` into its two parts.
fn split_generic(s: &str) -> (r: Option<(&str, &str)>)
    ensures
        match generic_parts(s@) {
            Some((outer, inner)) => r is Some && r->Some_0.0@ == outer && r->Some_0.1@ == inner,
            None => r is None,
        },
{
    let len = s.unicode_len();
    if len < 4 || s.get_char(len - 1) != '>' || contains_char(s, '\n') {
        return None;
    }
    let open = find_char(s, '<', 1);
    if open > len - 3 {
        return None;
    }
    Some((s.substring_char(0, open), s.substring_char(open + 1, len - 1)))
}

/// Splits `ns.Name` into its two parts.
fn split_namespace(s: &str) -> (r: (Option<&str>, &str))
    ensures
        match namespace_parts(s@) {
            (Some(ns), name) => r.0 is Some && r.0->Some_0@ == ns && r.1@ == name,
            (None, name) => r.0 is None && r.1@ == name,
        },
{
    let len = s.unicode_len();
    let dot = find_char(s, '.', 0);
    if dot == len {
        (None, s)
    } else {
        let name = s.substring_char(dot + 1, len);
        assert(s@.subrange(dot + 1, len as int) =~= s@.skip(dot + 1));
        (Some(s.substring_char(0, dot)), name)
    }
}

/// The Rust type of a built-in that fields can have.
fn built_in_rust_type(name: &str) -> (r: Option<&'static str>)
    ensures
        match rust_type_of(name@) {
            Some(t) => r is Some && r->Some_0@ == t,
            None => r is None,
        },
{
    if str_eq(name, "int") {
        Some("i32")
    } else if str_eq(name, "long") {
        Some("i64")
    } else if str_eq(name, "double") {
        Some("f64")
    } else if str_eq(name, "bytes") {
        Some("TLBytes")
    } else if str_eq(name, "string") {
        Some("String")
    } else if str_eq(name, "int128") {
        Some("[u8; 16]")
    } else if str_eq(name, "int256") {
        Some("[u8; 32]")
    } else if str_eq(name, "Bool") {
        Some("bool")
    } else {
        None
    }
}

/// The path of a user type that names no namespace, from its name in
/// CamelCase.
pub fn top_level_type_path(camel: &str) -> (r: String)
    ensures
        r@ == top_level_path(camel@),
{
    let mut out = String::from_str("super::");
    out.append(TOP_MOD);
    out.append("::");
    out.append(camel);
    out
}

/// The path of a type in the module of the namespace `ns`, from its name
/// in CamelCase.
pub fn namespaced_type_path(ns: &str, camel: &str) -> (r: String)
    ensures
        r@ == namespaced_path(ns@, camel@),
{
    let mut out = String::from_str("super::");
    out.append(ns);
    out.append("::");
    out.append(camel);
    out
}

/// The text of a vector whose elements have the type `inner`.
pub fn vec_type(inner: &str) -> (r: String)
    ensures
        r@ == vec_of(inner@),
{
    let mut out = String::from_str("Vec<");
    out.append(inner);
    out.append(">");
    out
}

fn plain_type_path(s: &str) -> (r: String)
    requires
        plain_ok(s@),
    ensures
        r@ == plain_path(s@),
{
    let (ns, name) = split_namespace(s);
    match ns {
        Some(ns) => {
            let camel = to_camel_case(name);
            namespaced_type_path(ns, camel.as_str())
        },
        None => match built_in_rust_type(name) {
            Some(t) => String::from_str(t),
            None => {
                let camel = to_camel_case(name);
                top_level_type_path(camel.as_str())
            },
        },
    }
}

/// Whether `s` has the shape `Vector<Inner>`.
fn vector_shaped(s: &str) -> (r: bool)
    ensures
        r == spec_is_vector(s@),
{
    match split_generic(s) {
        Some((outer, _)) => same_ignoring_case(outer, "vector"),
        None => false,
    }
}

fn check_plain(s: &str) -> (r: Result<(), SchemaError>)
    ensures
        r == as_result(plain_error(s@)),
{
    if contains_char(s, '<') || contains_char(s, '>') {
        Err(SchemaError::StrayPunctuation)
    } else if !one_dot_at_most(s) {
        Err(SchemaError::NamespaceDepth)
    } else if str_eq(s, "PeerSettings") {
        Err(SchemaError::SpecialType)
    } else {
        Ok(())
    }
}

fn check_generic(s: &str) -> (r: Result<(), SchemaError>)
    ensures
        r == as_result(generic_error(s@)),
{
    match split_generic(s) {
        Some((outer, inner)) => {
            if !same_ignoring_case(outer, "vector") {
                Err(SchemaError::UnknownGeneric)
            } else if contains_char(inner, '<') {
                Err(SchemaError::NestedGeneric)
            } else {
                Ok(())
            }
        },
        None => Ok(()),
    }
}

impl core::str::FromStr for TLIdent {
    type Err = core::convert::Infallible;

    /// The identifier that `s` spells; every text is one.
    fn from_str(s: &str) -> (r: Result<Self, Self::Err>)
        ensures
            r is Ok,
            r->Ok_0@ == s@,
    {
        Ok(TLIdent::new(s))
    }
}

impl TLIdent {
    /// The identifier that `s` spells.
    pub fn new(s: &str) -> (r: Self)
        ensures
            r@ == s@,
    {
        TLIdent(String::from_str(s))
    }

    /// The identifier as it stands in the schema.
    pub fn as_str(&self) -> (r: &str)
        ensures
            r@ == self@,
    {
        self.0.as_str()
    }

    /// A copy of the identifier.
    pub fn duplicate(&self) -> (r: Self)
        ensures
            r@ == self@,
    {
        TLIdent(self.0.clone())
    }

    /// Whether two identifiers are spelled alike.
    pub fn same_as(&self, other: &TLIdent) -> (r: bool)
        ensures
            r == (self@ == other@),
    {
        self.0 == other.0
    }

    pub fn is_built_in_type(&self) -> (r: bool)
        ensures
            r == spec_is_built_in(self@),
    {
        let s = self.0.as_str();
        vector_shaped(s) || str_eq(s, "int") || str_eq(s, "long") || str_eq(s, "double") || str_eq(s, "bytes")
            || str_eq(s, "string") || str_eq(s, "int128") || str_eq(s, "int256") || str_eq(
            s,
            "Vector t",
        ) || str_eq(s, "Bool")
    }

    pub fn is_special(&self) -> (r: bool)
        ensures
            r == spec_is_special(self@),
    {
        let s = self.0.as_str();
        str_eq(s, "True") || str_eq(s, "Null") || str_eq(s, "PeerSettings") || str_eq(
            s,
            "MessageContainer",
        )
    }

    pub fn should_generate(&self) -> (r: bool)
        ensures
            r == spec_should_generate(self@),
    {
        !self.is_built_in_type() && !self.is_special()
    }

    /// The wrapper and the argument of a generic identifier; nothing and the
    /// identifier itself where it is not generic.
    pub fn generic_split(&self) -> (r: (Option<String>, String))
        requires
            generic_ok(self@),
        ensures
            match generic_parts(self@) {
                Some((outer, inner)) => r.0 is Some && r.0->Some_0@ == outer && r.1@ == inner,
                None => r.0 is None && r.1@ == self@,
            },
    {
        match split_generic(self.0.as_str()) {
            Some((outer, inner)) => (Some(String::from_str(outer)), String::from_str(inner)),
            None => (None, self.0.clone()),
        }
    }

    pub fn namespace_split(&self) -> (r: (Option<String>, String))
        requires
            namespace_ok(self@),
        ensures
            match namespace_parts(self@) {
                (Some(ns), name) => r.0 is Some && r.0->Some_0@ == ns && r.1@ == name,
                (None, name) => r.0 is None && r.1@ == name,
            },
    {
        let (ns, name) = split_namespace(self.0.as_str());
        match ns {
            Some(ns) => (Some(String::from_str(ns)), String::from_str(name)),
            None => (None, String::from_str(name)),
        }
    }

    pub fn is_vector(&self) -> (r: bool)
        ensures
            r == spec_is_vector(self@),
    {
        vector_shaped(self.0.as_str())
    }

    /// `aaa.Bbb` becomes `Bbb`; `Vector<aaa.Bbb>` becomes `Vec<super::aaa::Bbb>`.
    pub fn as_rust_type_name(&self) -> (r: String)
        requires
            name_ok(self@),
        ensures
            r@ == rust_name(self@),
    {
        match split_generic(self.0.as_str()) {
            Some((_, inner)) => {
                let path = plain_type_path(inner);
                vec_type(path.as_str())
            },
            None => {
                let (_, name) = split_namespace(self.0.as_str());
                to_camel_case(name)
            },
        }
    }

    /// `aaa.bbb_ccc` becomes `super::aaa::BbbCcc`; `Vector<Bbb>` becomes
    /// `Vec<super::tl::Bbb>`; a built-in becomes its Rust type.
    pub fn as_rust_type_path(&self) -> (r: String)
        requires
            path_ok(self@),
        ensures
            r@ == type_path(self@),
    {
        match split_generic(self.0.as_str()) {
            Some((_, inner)) => {
                let path = plain_type_path(inner);
                vec_type(path.as_str())
            },
            None => plain_type_path(self.0.as_str()),
        }
    }

    pub fn as_field_name(&self) -> (r: String)
        requires
            field_ok(self@),
        ensures
            r@ == field_name(self@),
    {
        if str_eq(self.0.as_str(), "type") {
            String::from_str("ty")
        } else {
            to_snake_case(self.0.as_str())
        }
    }

    pub fn as_variant_name(&self) -> (r: String)
        requires
            variant_ok(self@),
        ensures
            r@ == variant_name(self@),
    {
        let (_, name) = split_namespace(self.0.as_str());
        to_camel_case(name)
    }

    /// Says whether the identifier can name a produced type, and if not, why.
    pub fn check_return_type(&self) -> (r: Result<(), SchemaError>)
        ensures
            r == as_result(return_type_error(self@)),
    {
        match check_generic(self.0.as_str()) {
            Err(e) => Err(e),
            Ok(_) => {
                if !self.should_generate() {
                    Ok(())
                } else if contains_char(self.0.as_str(), '<') {
                    Err(SchemaError::StrayPunctuation)
                } else if !one_dot_at_most(self.0.as_str()) {
                    Err(SchemaError::NamespaceDepth)
                } else {
                    Ok(())
                }
            },
        }
    }

    /// Says whether the identifier can name a Rust type, and if not, why.
    pub fn check_type_name(&self) -> (r: Result<(), SchemaError>)
        ensures
            r == as_result(name_error(self@)),
    {
        match check_generic(self.0.as_str()) {
            Err(e) => Err(e),
            Ok(_) => match split_generic(self.0.as_str()) {
                Some((_, inner)) => check_plain(inner),
                None => {
                    if contains_char(self.0.as_str(), '<') {
                        Err(SchemaError::StrayPunctuation)
                    } else if !one_dot_at_most(self.0.as_str()) {
                        Err(SchemaError::NamespaceDepth)
                    } else {
                        Ok(())
                    }
                },
            },
        }
    }

    /// Says whether the identifier can be the type of a field, and if not, why.
    pub fn check_field_type(&self) -> (r: Result<(), SchemaError>)
        ensures
            r == as_result(path_error(self@)),
    {
        match check_generic(self.0.as_str()) {
            Err(e) => Err(e),
            Ok(_) => match split_generic(self.0.as_str()) {
                Some((_, inner)) => check_plain(inner),
                None => check_plain(self.0.as_str()),
            },
        }
    }

    /// Says whether the identifier can name a field, and if not, why.
    pub fn check_field_name(&self) -> (r: Result<(), SchemaError>)
        ensures
            r == as_result(field_error(self@)),
    {
        let s = self.0.as_str();
        if contains_char(s, '.') || contains_char(s, '<') || contains_char(s, '>') {
            Err(SchemaError::StrayPunctuation)
        } else {
            Ok(())
        }
    }

    /// Says whether the identifier can name a constructor, and if not, why.
    pub fn check_variant_name(&self) -> (r: Result<(), SchemaError>)
        ensures
            r == as_result(variant_error(self@)),
    {
        let s = self.0.as_str();
        if contains_char(s, '<') || contains_char(s, '>') {
            Err(SchemaError::StrayPunctuation)
        } else if !one_dot_at_most(s) {
            Err(SchemaError::NamespaceDepth)
        } else {
            Ok(())
        }
    }
}

} // verus!

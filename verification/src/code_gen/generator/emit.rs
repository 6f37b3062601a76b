//! The text of codec definitions.
//!
//! A record becomes a struct, a union an enum with one variant for each
//! constructor; both come with an implementation of `TLType` that reads
//! and writes the discriminator and then the fields in wire order. A
//! decoder that meets a discriminator it does not know returns
//! `FormatError::UnknownConstructor`.
//!
//! The emitted items name `TLType`, `MyResult`, `FormatError` and `TLBytes`
//! without a path: the module that receives them imports these from its
//! prelude, next to the codecs of the built-in types for the byte source and
//! sink that it uses.
//!
//! Every function here has a twin that says, as a text over the parts of a
//! shape, what it writes.

use crate::code_gen::generator::tl_type::{
    CompiledShape, FieldShape, FieldText, ShapeView, VariantShape, VariantText,
};
use crate::code_gen::schema::views;
use crate::code_gen::utils::{i32_suffixed, spec_i32_suffixed};
use vstd::prelude::*;
use vstd::string::StringExecFns;

verus! {

/// One line about a field: its name between `prefix` and `middle`, then the
/// path of its type where the line has one, then `suffix`.
pub open spec fn field_line(
    f: FieldText,
    prefix: Seq<char>,
    middle: Seq<char>,
    with_path: bool,
    suffix: Seq<char>,
) -> Seq<char> {
    prefix + f.name + middle + (if with_path {
        f.path
    } else {
        Seq::empty()
    }) + suffix
}

/// One such line for every field, in their order.
pub open spec fn field_lines(
    fields: Seq<FieldText>,
    prefix: Seq<char>,
    middle: Seq<char>,
    with_path: bool,
    suffix: Seq<char>,
) -> Seq<char>
    decreases fields.len(),
{
    if fields.len() == 0 {
        Seq::empty()
    } else {
        field_lines(fields.drop_last(), prefix, middle, with_path, suffix) + field_line(
            fields.last(),
            prefix,
            middle,
            with_path,
            suffix,
        )
    }
}

/// Writes one line for every field.
pub fn emit_field_lines(
    fields: &Vec<FieldShape>,
    prefix: &str,
    middle: &str,
    with_path: bool,
    suffix: &str,
) -> (r: String)
    ensures
        r@ == field_lines(views(fields@), prefix@, middle@, with_path, suffix@),
{
    let ghost all = views(fields@);
    let mut out = String::new();
    let mut i: usize = 0;
    assert(all.take(0) =~= Seq::empty());
    while i < fields.len()
        invariant
            i <= fields@.len(),
            all == views(fields@),
            out@ == field_lines(all.take(i as int), prefix@, middle@, with_path, suffix@),
        decreases fields@.len() - i,
    {
        let f = &fields[i];
        let mut line = String::from_str(prefix);
        line.append(f.name.as_str());
        line.append(middle);
        if with_path {
            line.append(f.path.as_str());
        } else {
            assert(line@ + Seq::<char>::empty() =~= line@);
        }
        line.append(suffix);
        proof {
            assert(all.take(i + 1).drop_last() =~= all.take(i as int));
            assert(all.take(i + 1).last() == f@);
        }
        out.append(line.as_str());
        i += 1;
    }
    assert(all.take(i as int) =~= all);
    out
}

/// The declaration of one variant.
pub open spec fn variant_def(v: VariantText) -> Seq<char> {
    "    "@ + v.name + " {\n"@ + field_lines(v.fields, "        "@, ": "@, true, ",\n"@) + "    },\n"@
}

/// The declarations of the variants, in their order.
pub open spec fn variant_defs(variants: Seq<VariantText>) -> Seq<char>
    decreases variants.len(),
{
    if variants.len() == 0 {
        Seq::empty()
    } else {
        variant_defs(variants.drop_last()) + variant_def(variants.last())
    }
}

fn emit_variant_def(variant: &VariantShape) -> (r: String)
    ensures
        r@ == variant_def(variant@),
{
    let mut out = String::from_str("    ");
    out.append(variant.name.as_str());
    out.append(" {\n");
    out.append(emit_field_lines(&variant.fields, "        ", ": ", true, ",\n").as_str());
    out.append("    },\n");
    out
}

/// Writes the declarations of the variants.
pub fn emit_variant_defs(variants: &Vec<VariantShape>) -> (r: String)
    ensures
        r@ == variant_defs(views(variants@)),
{
    let ghost all = views(variants@);
    let mut out = String::new();
    let mut i: usize = 0;
    assert(all.take(0) =~= Seq::empty());
    while i < variants.len()
        invariant
            i <= variants@.len(),
            all == views(variants@),
            out@ == variant_defs(all.take(i as int)),
        decreases variants@.len() - i,
    {
        let piece = emit_variant_def(&variants[i]);
        proof {
            assert(all.take(i + 1).drop_last() =~= all.take(i as int));
            assert(all.take(i + 1).last() == variants@[i as int]@);
        }
        out.append(piece.as_str());
        i += 1;
    }
    assert(all.take(i as int) =~= all);
    out
}

/// The arm that reads one variant.
pub open spec fn read_arm(name: Seq<char>, v: VariantText) -> Seq<char> {
    "            "@ + spec_i32_suffixed(v.id) + " => "@ + name + "::"@ + v.name + " {\n"@ + field_lines(v.fields, "                "@, ": TLType::tl_read(input)?,\n"@, false, ""@) + "            },\n"@
}

/// The arms that read the variants, in their order.
pub open spec fn read_arms(name: Seq<char>, variants: Seq<VariantText>) -> Seq<char>
    decreases variants.len(),
{
    if variants.len() == 0 {
        Seq::empty()
    } else {
        read_arms(name, variants.drop_last()) + read_arm(name, variants.last())
    }
}

fn emit_read_arm(name: &str, variant: &VariantShape) -> (r: String)
    ensures
        r@ == read_arm(name@, variant@),
{
    let id = i32_suffixed(variant.id);
    let mut out = String::from_str("            ");
    out.append(id.as_str());
    out.append(" => ");
    out.append(name);
    out.append("::");
    out.append(variant.name.as_str());
    out.append(" {\n");
    out.append(emit_field_lines(&variant.fields, "                ", ": TLType::tl_read(input)?,\n", false, "").as_str());
    out.append("            },\n");
    out
}

/// Writes the arms that read the variants.
pub fn emit_read_arms(name: &str, variants: &Vec<VariantShape>) -> (r: String)
    ensures
        r@ == read_arms(name@, views(variants@)),
{
    let ghost all = views(variants@);
    let mut out = String::new();
    let mut i: usize = 0;
    assert(all.take(0) =~= Seq::empty());
    while i < variants.len()
        invariant
            i <= variants@.len(),
            all == views(variants@),
            out@ == read_arms(name@, all.take(i as int)),
        decreases variants@.len() - i,
    {
        let piece = emit_read_arm(name, &variants[i]);
        proof {
            assert(all.take(i + 1).drop_last() =~= all.take(i as int));
            assert(all.take(i + 1).last() == variants@[i as int]@);
        }
        out.append(piece.as_str());
        i += 1;
    }
    assert(all.take(i as int) =~= all);
    out
}

/// The arm that writes one variant.
pub open spec fn write_arm(name: Seq<char>, v: VariantText) -> Seq<char> {
    "            "@ + name + "::"@ + v.name + " {\n"@ + field_lines(v.fields, "                "@, ",\n"@, false, ""@) + "            } => {\n                ("@ + spec_i32_suffixed(v.id) + ").tl_write(output)?;\n"@ + field_lines(v.fields, "                result += "@, ".tl_write(output)?;\n"@, false, ""@) + "            }\n"@
}

/// The arms that write the variants, in their order.
pub open spec fn write_arms(name: Seq<char>, variants: Seq<VariantText>) -> Seq<char>
    decreases variants.len(),
{
    if variants.len() == 0 {
        Seq::empty()
    } else {
        write_arms(name, variants.drop_last()) + write_arm(name, variants.last())
    }
}

fn emit_write_arm(name: &str, variant: &VariantShape) -> (r: String)
    ensures
        r@ == write_arm(name@, variant@),
{
    let id = i32_suffixed(variant.id);
    let mut out = String::from_str("            ");
    out.append(name);
    out.append("::");
    out.append(variant.name.as_str());
    out.append(" {\n");
    out.append(emit_field_lines(&variant.fields, "                ", ",\n", false, "").as_str());
    out.append("            } => {\n                (");
    out.append(id.as_str());
    out.append(").tl_write(output)?;\n");
    out.append(emit_field_lines(&variant.fields, "                result += ", ".tl_write(output)?;\n", false, "").as_str());
    out.append("            }\n");
    out
}

/// Writes the arms that write the variants.
pub fn emit_write_arms(name: &str, variants: &Vec<VariantShape>) -> (r: String)
    ensures
        r@ == write_arms(name@, views(variants@)),
{
    let ghost all = views(variants@);
    let mut out = String::new();
    let mut i: usize = 0;
    assert(all.take(0) =~= Seq::empty());
    while i < variants.len()
        invariant
            i <= variants@.len(),
            all == views(variants@),
            out@ == write_arms(name@, all.take(i as int)),
        decreases variants@.len() - i,
    {
        let piece = emit_write_arm(name, &variants[i]);
        proof {
            assert(all.take(i + 1).drop_last() =~= all.take(i as int));
            assert(all.take(i + 1).last() == variants@[i as int]@);
        }
        out.append(piece.as_str());
        i += 1;
    }
    assert(all.take(i as int) =~= all);
    out
}

/// The definition of a record and of its codec: the struct, then a decoder that checks the discriminator and reads the fields in order, then an encoder that writes the discriminator and the fields in order.
pub open spec fn struct_text(name: Seq<char>, v: VariantText) -> Seq<char> {
    "#[derive(Debug, Clone)]\npub struct "@ + name + " {\n"@ + field_lines(v.fields, "    "@, ": "@, true, ",\n"@) + "}\n\nimpl TLType for "@ + name + " {\n    fn tl_read(input: &mut std::io::Read) -> MyResult<Self> {\n        let id: i32 = TLType::tl_read(input)?;\n        if id != "@ + spec_i32_suffixed(v.id) + " {\n            return Err(FormatError::UnknownConstructor(id).into());\n        }\n        Ok("@ + name + " {\n"@ + field_lines(v.fields, "            "@, ": TLType::tl_read(input)?,\n"@, false, ""@) + "        })\n    }\n\n    fn tl_write(&self, output: &mut std::io::Write) -> MyResult<usize> {\n        ("@ + spec_i32_suffixed(v.id) + ").tl_write(output)?;\n        let mut result = 4usize;\n"@ + field_lines(v.fields, "        result += self."@, ".tl_write(output)?;\n"@, false, ""@) + "        Ok(result)\n    }\n}\n"@
}

/// Writes the definition of a record and of its codec.
pub fn compile_as_struct(name: &str, constructor: &VariantShape) -> (r: String)
    ensures
        r@ == struct_text(name@, constructor@),
{
    let id = i32_suffixed(constructor.id);
    let mut out = String::from_str("#[derive(Debug, Clone)]\npub struct ");
    out.append(name);
    out.append(" {\n");
    out.append(emit_field_lines(&constructor.fields, "    ", ": ", true, ",\n").as_str());
    out.append("}\n\nimpl TLType for ");
    out.append(name);
    out.append(" {\n    fn tl_read(input: &mut std::io::Read) -> MyResult<Self> {\n        let id: i32 = TLType::tl_read(input)?;\n        if id != ");
    out.append(id.as_str());
    out.append(" {\n            return Err(FormatError::UnknownConstructor(id).into());\n        }\n        Ok(");
    out.append(name);
    out.append(" {\n");
    out.append(emit_field_lines(&constructor.fields, "            ", ": TLType::tl_read(input)?,\n", false, "").as_str());
    out.append("        })\n    }\n\n    fn tl_write(&self, output: &mut std::io::Write) -> MyResult<usize> {\n        (");
    out.append(id.as_str());
    out.append(").tl_write(output)?;\n        let mut result = 4usize;\n");
    out.append(emit_field_lines(&constructor.fields, "        result += self.", ".tl_write(output)?;\n", false, "").as_str());
    out.append("        Ok(result)\n    }\n}\n");
    out
}

/// The definition of a union: an enum with one variant for each constructor.
pub open spec fn enum_definition_text(name: Seq<char>, variants: Seq<VariantText>) -> Seq<char> {
    "#[derive(Debug, Clone)]\npub enum "@ + name + " {\n"@ + variant_defs(variants) + "}\n"@
}

/// Writes the definition of a union.
pub fn compile_enum_definition(name: &str, variants: &Vec<VariantShape>) -> (r: String)
    ensures
        r@ == enum_definition_text(name@, views(variants@)),
{
    let mut out = String::from_str("#[derive(Debug, Clone)]\npub enum ");
    out.append(name);
    out.append(" {\n");
    out.append(emit_variant_defs(variants).as_str());
    out.append("}\n");
    out
}

/// The decoder of a union: it reads the discriminator, then the fields of the variant that the discriminator selects, and fails on a discriminator that selects none.
pub open spec fn enum_read_text(name: Seq<char>, variants: Seq<VariantText>) -> Seq<char> {
    "    fn tl_read(input: &mut std::io::Read) -> MyResult<Self> {\n        let id: i32 = TLType::tl_read(input)?;\n        Ok(match id {\n"@ + read_arms(name, variants) + "            _ => return Err(FormatError::UnknownConstructor(id).into()),\n        })\n    }\n"@
}

/// Writes the decoder of a union.
pub fn compile_enum_read_impl(name: &str, variants: &Vec<VariantShape>) -> (r: String)
    ensures
        r@ == enum_read_text(name@, views(variants@)),
{
    let mut out = String::from_str("    fn tl_read(input: &mut std::io::Read) -> MyResult<Self> {\n        let id: i32 = TLType::tl_read(input)?;\n        Ok(match id {\n");
    out.append(emit_read_arms(name, variants).as_str());
    out.append("            _ => return Err(FormatError::UnknownConstructor(id).into()),\n        })\n    }\n");
    out
}

/// The encoder of a union: it writes the discriminator of the variant at hand, then its fields in order.
pub open spec fn enum_write_text(name: Seq<char>, variants: Seq<VariantText>) -> Seq<char> {
    "    fn tl_write(&self, output: &mut std::io::Write) -> MyResult<usize> {\n        let mut result = 4usize;\n        match self {\n"@ + write_arms(name, variants) + "        }\n        Ok(result)\n    }\n"@
}

/// Writes the encoder of a union.
pub fn compile_enum_write_impl(name: &str, variants: &Vec<VariantShape>) -> (r: String)
    ensures
        r@ == enum_write_text(name@, views(variants@)),
{
    let mut out = String::from_str("    fn tl_write(&self, output: &mut std::io::Write) -> MyResult<usize> {\n        let mut result = 4usize;\n        match self {\n");
    out.append(emit_write_arms(name, variants).as_str());
    out.append("        }\n        Ok(result)\n    }\n");
    out
}

/// The definition of a union and of its codec.
pub open spec fn enum_text(name: Seq<char>, variants: Seq<VariantText>) -> Seq<char> {
    enum_definition_text(name, variants) + "\nimpl TLType for "@ + name + " {\n"@ + enum_read_text(name, variants) + "\n"@ + enum_write_text(name, variants) + "}\n"@
}

/// Writes the definition of a union and of its codec.
pub fn compile_as_enum(name: &str, variants: &Vec<VariantShape>) -> (r: String)
    ensures
        r@ == enum_text(name@, views(variants@)),
{
    let mut out = compile_enum_definition(name, variants);
    out.append("\nimpl TLType for ");
    out.append(name);
    out.append(" {\n");
    out.append(compile_enum_read_impl(name, variants).as_str());
    out.append("\n");
    out.append(compile_enum_write_impl(name, variants).as_str());
    out.append("}\n");
    out
}

/// The source text of a codec definition.
pub open spec fn shape_text(shape: ShapeView) -> Seq<char> {
    match shape {
        ShapeView::Record { name, constructor } => struct_text(name, constructor),
        ShapeView::TaggedUnion { name, variants } => enum_text(name, variants),
    }
}

impl CompiledShape {
    /// The Rust source of the type and of its codec.
    pub fn to_source(&self) -> (r: String)
        ensures
            r@ == shape_text(self@),
    {
        match self {
            CompiledShape::Record { name, constructor } => compile_as_struct(
                name.as_str(),
                constructor,
            ),
            CompiledShape::TaggedUnion { name, variants } => compile_as_enum(
                name.as_str(),
                variants,
            ),
        }
    }
}

} // verus!

//! The generated program text.

use vstd::prelude::*;
use crate::synth::{ArtifactsView, Branch, FieldVariant, GeneratedArtifactSet, branch_views, variant_views};

verus! {

/// The text of one arm: its two parts between three fixed pieces.
pub open spec fn spec_arm_text(
    arm: (Seq<char>, Seq<char>),
    prefix: Seq<char>,
    middle: Seq<char>,
    suffix: Seq<char>,
) -> Seq<char> {
    prefix + arm.0 + middle + arm.1 + suffix
}

/// The texts of the arms, one after the other in arm order.
pub open spec fn spec_arms_text(
    arms: Seq<(Seq<char>, Seq<char>)>,
    prefix: Seq<char>,
    middle: Seq<char>,
    suffix: Seq<char>,
) -> Seq<char>
    decreases arms.len(),
{
    if arms.len() == 0 {
        Seq::empty()
    } else {
        spec_arms_text(arms.drop_last(), prefix, middle, suffix) + spec_arm_text(
            arms.last(),
            prefix,
            middle,
            suffix,
        )
    }
}

/// The text of the resolver's arms: `"key" => Some(Column::Ref),`. The key
/// stands between the quotes as it is: an identifier holds no character that
/// a string literal would have to escape.
pub open spec fn spec_resolver_text(a: ArtifactsView) -> Seq<char> {
    spec_arms_text(a.resolver, "            \""@, "\" => Some(Column::"@, "),\n"@)
}

/// The text of the converter's arms:
/// `Enum::Ref(v) => (Column::Ref, Expr::value(v)),`.
pub open spec fn spec_converter_text(a: ArtifactsView) -> Seq<char> {
    spec_arms_text(
        a.converter,
        "            "@ + a.enum_name + "::"@,
        "(v) => (Column::"@,
        ", Expr::value(v)),\n"@,
    )
}

/// The text of the folder's arms: `Enum::Ref(v) => model.member = Set(v),`.
pub open spec fn spec_folder_text(a: ArtifactsView) -> Seq<char> {
    spec_arms_text(
        a.folder,
        "                "@ + a.enum_name + "::"@,
        "(v) => model."@,
        " = Set(v),\n"@,
    )
}

/// The text of the enumeration's variants: `Ref(Type),`.
pub open spec fn spec_variants_text(a: ArtifactsView) -> Seq<char> {
    spec_arms_text(a.variants, "    "@, "("@, "),\n"@)
}

/// The text of the `impl` block that holds the three operations.
pub open spec fn spec_impl_text(a: ArtifactsView) -> Seq<char> {
    "impl"@ + a.generics.impl_generics + " "@ + a.record_name + a.generics.ty_generics + " "@
        + a.generics.where_clause + " {\n    pub fn str2col(s: &str) -> Option<Column> {\n        match s {\n"@
        + spec_resolver_text(a)
        + "            _x => None,\n        }\n    }\n    pub fn field2cv(field: "@
        + a.enum_name + ") -> (Column, SimpleExpr) {\n        match field {\n"@
        + spec_converter_text(a) + "        }\n    }\n    pub fn fields2active(fields: Vec<"@
        + a.enum_name
        + ">) -> ActiveModel {\n        let mut model = ActiveModel::new();\n        for field in fields {\n            match field {\n"@
        + spec_folder_text(a) + "            }\n        }\n        model\n    }\n}\n"@
}

/// The text of the tagged-value enumeration.
pub open spec fn spec_enum_text(a: ArtifactsView) -> Seq<char> {
    "pub enum "@ + a.enum_name + " {\n"@ + spec_variants_text(a) + "}\n"@
}

/// The whole generated text: the enumeration, then the `impl` block.
pub open spec fn spec_render(a: ArtifactsView) -> Seq<char> {
    spec_enum_text(a) + spec_impl_text(a)
}

/// Writes the arms one after the other, each as its two parts between the
/// three fixed pieces.
pub fn render_arms(arms: &Vec<Branch>, prefix: &str, middle: &str, suffix: &str) -> (out: String)
    ensures
        out@ == spec_arms_text(branch_views(arms@), prefix@, middle@, suffix@),
{
    let ghost views = branch_views(arms@);
    let mut out = String::new();
    let mut i: usize = 0;
    assert(views.take(0) =~= Seq::empty());
    while i < arms.len()
        invariant
            i <= arms@.len(),
            views == branch_views(arms@),
            out@ == spec_arms_text(views.take(i as int), prefix@, middle@, suffix@),
        decreases arms@.len() - i,
    {
        proof {
            assert(views.take(i + 1).drop_last() =~= views.take(i as int));
            assert(views.take(i + 1).last() == arms@[i as int]@);
        }
        let mut piece = String::from_str(prefix);
        piece.append(arms[i].pattern.as_str());
        piece.append(middle);
        piece.append(arms[i].target.as_str());
        piece.append(suffix);
        out.append(piece.as_str());
        i += 1;
    }
    assert(views.take(arms@.len() as int) =~= views);
    out
}

/// Writes the variants one after the other, each as `Name(Type),` on a line
/// of its own.
pub fn render_variants(variants: &Vec<FieldVariant>) -> (out: String)
    ensures
        out@ == spec_arms_text(variant_views(variants@), "    "@, "("@, "),\n"@),
{
    let ghost views = variant_views(variants@);
    let mut out = String::new();
    let mut i: usize = 0;
    assert(views.take(0) =~= Seq::empty());
    while i < variants.len()
        invariant
            i <= variants@.len(),
            views == variant_views(variants@),
            out@ == spec_arms_text(views.take(i as int), "    "@, "("@, "),\n"@),
        decreases variants@.len() - i,
    {
        proof {
            assert(views.take(i + 1).drop_last() =~= views.take(i as int));
            assert(views.take(i + 1).last() == variants@[i as int]@);
        }
        let mut piece = String::from_str("    ");
        piece.append(variants[i].name.as_str());
        piece.append("(");
        piece.append(variants[i].payload_ty.as_str());
        piece.append("),\n");
        out.append(piece.as_str());
        i += 1;
    }
    assert(views.take(variants@.len() as int) =~= views);
    out
}

impl GeneratedArtifactSet {
    /// The text of the tagged-value enumeration.
    pub fn render_enum(&self) -> (out: String)
        ensures
            out@ == spec_enum_text(self@),
    {
        let variants = render_variants(&self.variants);
        let mut out = String::from_str("pub enum ");
        out.append(self.enum_name.as_str());
        out.append(" {\n");
        out.append(variants.as_str());
        out.append("}\n");
        out
    }

    /// The text of the `impl` block that holds the three operations.
    pub fn render_impl(&self) -> (out: String)
        ensures
            out@ == spec_impl_text(self@),
    {
        let mut arm_start = String::from_str("            ");
        arm_start.append(self.enum_name.as_str());
        arm_start.append("::");
        let mut deep_arm_start = String::from_str("                ");
        deep_arm_start.append(self.enum_name.as_str());
        deep_arm_start.append("::");
        let resolver = render_arms(&self.resolver, "            \"", "\" => Some(Column::", "),\n");
        let converter = render_arms(
            &self.converter,
            arm_start.as_str(),
            "(v) => (Column::",
            ", Expr::value(v)),\n",
        );
        let folder = render_arms(
            &self.folder,
            deep_arm_start.as_str(),
            "(v) => model.",
            " = Set(v),\n",
        );
        let mut out = String::from_str("impl");
        out.append(self.generics.impl_generics.as_str());
        out.append(" ");
        out.append(self.record_name.as_str());
        out.append(self.generics.ty_generics.as_str());
        out.append(" ");
        out.append(self.generics.where_clause.as_str());
        out.append(" {\n    pub fn str2col(s: &str) -> Option<Column> {\n        match s {\n");
        out.append(resolver.as_str());
        out.append("            _x => None,\n        }\n    }\n    pub fn field2cv(field: ");
        out.append(self.enum_name.as_str());
        out.append(") -> (Column, SimpleExpr) {\n        match field {\n");
        out.append(converter.as_str());
        out.append("        }\n    }\n    pub fn fields2active(fields: Vec<");
        out.append(self.enum_name.as_str());
        out.append(
            ">) -> ActiveModel {\n        let mut model = ActiveModel::new();\n        for field in fields {\n            match field {\n",
        );
        out.append(folder.as_str());
        out.append("            }\n        }\n        model\n    }\n}\n");
        out
    }

    /// The whole generated text: the enumeration, then the `impl` block.
    pub fn render(&self) -> (out: String)
        ensures
            out@ == spec_render(self@),
    {
        let mut out = self.render_enum();
        let body = self.render_impl();
        out.append(body.as_str());
        out
    }
}

} // verus!

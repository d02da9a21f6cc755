//! Building the generated operations from the eligible fields.

use vstd::prelude::*;
use crate::canonical::{CanonicalName, CanonicalNameView, canonicalize, name_views, spec_canonical, spec_canonical_names};
use crate::descriptor::{EligibleField, EligibleFieldView, GenericParams, GenericParamsView, RecordTypeDescriptor, TypeShape, field_views};
use crate::selector::{filter_fields, lemma_eligible_member_is_selected, lemma_selected_field_has_source, spec_filter_fields, spec_is_eligible, spec_is_skipped, spec_rank};

verus! {

/// One arm of a generated `match`: what is matched and what it leads to.
#[derive(Clone, Debug)]
pub struct Branch {
    pub pattern: String,
    pub target: String,
}

impl View for Branch {
    type V = (Seq<char>, Seq<char>);

    open spec fn view(&self) -> (Seq<char>, Seq<char>) {
        (self.pattern@, self.target@)
    }
}

/// The values of a sequence of branches, in the same order.
pub open spec fn branch_views(branches: Seq<Branch>) -> Seq<(Seq<char>, Seq<char>)> {
    branches.map_values(|b: Branch| b@)
}

/// One variant of the tagged-value enumeration: its name and the type of its
/// single payload.
#[derive(Clone, Debug)]
pub struct FieldVariant {
    pub name: String,
    pub payload_ty: String,
}

impl View for FieldVariant {
    type V = (Seq<char>, Seq<char>);

    open spec fn view(&self) -> (Seq<char>, Seq<char>) {
        (self.name@, self.payload_ty@)
    }
}

/// The values of a sequence of variants, in the same order.
pub open spec fn variant_views(variants: Seq<FieldVariant>) -> Seq<(Seq<char>, Seq<char>)> {
    variants.map_values(|v: FieldVariant| v@)
}

/// Why nothing can be generated for a type.
#[derive(Clone, Copy, Debug, PartialEq, Eq, Structural)]
pub enum ShapeError {
    /// The type is a record with positional members.
    TupleLike,
    /// The type is a record without members.
    Unit,
    /// The type is a sum type.
    SumType,
    /// The type is an untagged union.
    Union,
}

/// Everything that is generated for one record type.
#[derive(Clone, Debug)]
pub struct GeneratedArtifactSet {
    /// The name of the record type.
    pub record_name: String,
    /// The name of the tagged-value enumeration.
    pub enum_name: String,
    /// The generic parameters of the record type.
    pub generics: GenericParams,
    /// The arms of the resolver: lookup key to column.
    pub resolver: Vec<Branch>,
    /// The variants of the tagged-value enumeration.
    pub variants: Vec<FieldVariant>,
    /// The arms of the converter: variant to column.
    pub converter: Vec<Branch>,
    /// The arms of the folder: variant to the member that it sets.
    pub folder: Vec<Branch>,
}

/// The mathematical value of a [`GeneratedArtifactSet`].
pub struct ArtifactsView {
    pub record_name: Seq<char>,
    pub enum_name: Seq<char>,
    pub generics: GenericParamsView,
    pub resolver: Seq<(Seq<char>, Seq<char>)>,
    pub variants: Seq<(Seq<char>, Seq<char>)>,
    pub converter: Seq<(Seq<char>, Seq<char>)>,
    pub folder: Seq<(Seq<char>, Seq<char>)>,
}

impl View for GeneratedArtifactSet {
    type V = ArtifactsView;

    open spec fn view(&self) -> ArtifactsView {
        ArtifactsView {
            record_name: self.record_name@,
            enum_name: self.enum_name@,
            generics: self.generics@,
            resolver: branch_views(self.resolver@),
            variants: variant_views(self.variants@),
            converter: branch_views(self.converter@),
            folder: branch_views(self.folder@),
        }
    }
}

impl ArtifactsView {
    /// Whether the four tables agree on which fields exist and in what
    /// order: they have one length, and entry `i` of each speaks of the type
    /// reference that entry `i` of the resolver leads to.
    pub open spec fn in_lock_step(self) -> bool {
        &&& self.variants.len() == self.resolver.len()
        &&& self.converter.len() == self.resolver.len()
        &&& self.folder.len() == self.resolver.len()
        &&& forall|i: int|
            #![trigger self.resolver[i]]
            0 <= i < self.resolver.len() ==> {
                &&& self.variants[i].0 == self.resolver[i].1
                &&& self.converter[i].0 == self.resolver[i].1
                &&& self.converter[i].1 == self.resolver[i].1
                &&& self.folder[i].0 == self.resolver[i].1
            }
    }
}

/// The name of the tagged-value enumeration of a type.
pub open spec fn spec_enum_name(record_name: Seq<char>) -> Seq<char> {
    record_name + "Field"@
}

/// The resolver's arms: for each field, its lookup key leads to its column.
pub open spec fn spec_resolver(names: Seq<CanonicalNameView>) -> Seq<(Seq<char>, Seq<char>)> {
    Seq::new(names.len(), |i: int| (names[i].lookup_key, names[i].type_ref))
}

/// The enumeration's variants: for each field, a variant named by its type
/// reference that carries the field's declared type.
pub open spec fn spec_variants(
    fields: Seq<EligibleFieldView>,
    names: Seq<CanonicalNameView>,
) -> Seq<(Seq<char>, Seq<char>)> {
    Seq::new(fields.len(), |i: int| (names[i].type_ref, fields[i].ty))
}

/// The converter's arms: for each field, its variant leads to its column.
pub open spec fn spec_converter(names: Seq<CanonicalNameView>) -> Seq<(Seq<char>, Seq<char>)> {
    Seq::new(names.len(), |i: int| (names[i].type_ref, names[i].type_ref))
}

/// The folder's arms: for each field, its variant sets the declared member.
pub open spec fn spec_folder(
    fields: Seq<EligibleFieldView>,
    names: Seq<CanonicalNameView>,
) -> Seq<(Seq<char>, Seq<char>)> {
    Seq::new(fields.len(), |i: int| (names[i].type_ref, fields[i].name))
}

/// What is generated for a type with the given eligible fields and their
/// canonical names.
pub open spec fn spec_synthesize(
    record_name: Seq<char>,
    generics: GenericParamsView,
    fields: Seq<EligibleFieldView>,
    names: Seq<CanonicalNameView>,
) -> ArtifactsView {
    ArtifactsView {
        record_name,
        enum_name: spec_enum_name(record_name),
        generics,
        resolver: spec_resolver(names),
        variants: spec_variants(fields, names),
        converter: spec_converter(names),
        folder: spec_folder(fields, names),
    }
}

/// The declared names of a sequence of fields.
pub open spec fn spec_declared_names(fields: Seq<EligibleFieldView>) -> Seq<Seq<char>> {
    fields.map_values(|f: EligibleFieldView| f.name)
}

/// What is generated for a record with named members.
pub open spec fn spec_generate(input: RecordTypeDescriptor) -> ArtifactsView {
    let fields = spec_filter_fields(input.members@);
    spec_synthesize(
        input.name@,
        input.generics@,
        fields,
        spec_canonical_names(spec_declared_names(fields)),
    )
}

/// The error that belongs to a shape; a record with named members has none.
pub open spec fn spec_shape_error(shape: TypeShape) -> Option<ShapeError> {
    match shape {
        TypeShape::NamedRecord => None,
        TypeShape::TupleRecord => Some(ShapeError::TupleLike),
        TypeShape::UnitRecord => Some(ShapeError::Unit),
        TypeShape::SumType => Some(ShapeError::SumType),
        TypeShape::Union => Some(ShapeError::Union),
    }
}

/// Tells whether anything can be generated for a shape.
pub fn check_shape(shape: TypeShape) -> (r: Result<(), ShapeError>)
    ensures
        match r {
            Ok(_) => spec_shape_error(shape).is_none(),
            Err(e) => spec_shape_error(shape) == Some(e),
        },
{
    match shape {
        TypeShape::NamedRecord => Ok(()),
        TypeShape::TupleRecord => Err(ShapeError::TupleLike),
        TypeShape::UnitRecord => Err(ShapeError::Unit),
        TypeShape::SumType => Err(ShapeError::SumType),
        TypeShape::Union => Err(ShapeError::Union),
    }
}

/// The canonical names of each field, in field order.
pub fn canonical_names(fields: &Vec<EligibleField>) -> (names: Vec<CanonicalName>)
    ensures
        name_views(names@) == spec_canonical_names(spec_declared_names(field_views(fields@))),
{
    let mut names: Vec<CanonicalName> = Vec::new();
    let mut i: usize = 0;
    while i < fields.len()
        invariant
            i <= fields@.len(),
            names@.len() == i,
            forall|k: int|
                0 <= k < i ==> (#[trigger] names@[k])@ == spec_canonical(fields@[k].name@),
        decreases fields@.len() - i,
    {
        names.push(canonicalize(fields[i].name.as_str()));
        i += 1;
    }
    assert(name_views(names@) =~= spec_canonical_names(
        spec_declared_names(field_views(fields@)),
    ));
    names
}

/// Builds the three operations and the tagged-value enumeration from the
/// eligible fields and their canonical names. Every table has one entry per
/// field, in field order.
pub fn synthesize(
    record_name: &str,
    generics: &GenericParams,
    fields: &Vec<EligibleField>,
    names: &Vec<CanonicalName>,
) -> (out: GeneratedArtifactSet)
    requires
        fields@.len() == names@.len(),
    ensures
        out@ == spec_synthesize(record_name@, generics@, field_views(fields@), name_views(names@)),
        out@.in_lock_step(),
{
    let mut resolver: Vec<Branch> = Vec::new();
    let mut variants: Vec<FieldVariant> = Vec::new();
    let mut converter: Vec<Branch> = Vec::new();
    let mut folder: Vec<Branch> = Vec::new();
    let mut i: usize = 0;
    while i < fields.len()
        invariant
            i <= fields@.len(),
            fields@.len() == names@.len(),
            resolver@.len() == i,
            variants@.len() == i,
            converter@.len() == i,
            folder@.len() == i,
            forall|k: int|
                0 <= k < i ==> (#[trigger] resolver@[k])@ == (
                    names@[k].lookup_key@,
                    names@[k].type_ref@,
                ),
            forall|k: int|
                0 <= k < i ==> (#[trigger] variants@[k])@ == (names@[k].type_ref@, fields@[k].ty@),
            forall|k: int|
                0 <= k < i ==> (#[trigger] converter@[k])@ == (
                    names@[k].type_ref@,
                    names@[k].type_ref@,
                ),
            forall|k: int|
                0 <= k < i ==> (#[trigger] folder@[k])@ == (names@[k].type_ref@, fields@[k].name@),
        decreases fields@.len() - i,
    {
        let field = &fields[i];
        let name = &names[i];
        resolver.push(Branch { pattern: name.lookup_key.clone(), target: name.type_ref.clone() });
        variants.push(FieldVariant { name: name.type_ref.clone(), payload_ty: field.ty.clone() });
        converter.push(Branch { pattern: name.type_ref.clone(), target: name.type_ref.clone() });
        folder.push(Branch { pattern: name.type_ref.clone(), target: field.name.clone() });
        i += 1;
    }
    let out = GeneratedArtifactSet {
        record_name: String::from_str(record_name),
        enum_name: String::from_str(record_name).concat("Field"),
        generics: generics.duplicate(),
        resolver,
        variants,
        converter,
        folder,
    };
    proof {
        let fv = field_views(fields@);
        let nv = name_views(names@);
        assert(out@.resolver =~= spec_resolver(nv));
        assert(out@.variants =~= spec_variants(fv, nv));
        assert(out@.converter =~= spec_converter(nv));
        assert(out@.folder =~= spec_folder(fv, nv));
    }
    out
}

/// Generates the update helpers of a declared type. A type that is not a
/// record with named members is refused, and nothing is generated for it.
/// Otherwise the eligible members are selected once and every generated
/// table is built from that one selection.
pub fn field_updater(input: &RecordTypeDescriptor) -> (r: Result<GeneratedArtifactSet, ShapeError>)
    ensures
        match r {
            Ok(out) => input.shape == TypeShape::NamedRecord && out@ == spec_generate(*input)
                && out@.in_lock_step(),
            Err(e) => spec_shape_error(input.shape) == Some(e),
        },
{
    match check_shape(input.shape) {
        Err(e) => Err(e),
        Ok(_) => {
            let fields = filter_fields(&input.members);
            let names = canonical_names(&fields);
            assert(names@.len() == name_views(names@).len());
            assert(fields@.len() == field_views(fields@).len());
            Ok(synthesize(input.name.as_str(), &input.generics, &fields, &names))
        },
    }
}

/// The three operations and the enumeration agree on which fields exist and
/// in what order: each table has one entry per eligible field, and entry `i`
/// of each is derived from eligible field `i` and its canonical names.
pub proof fn lemma_tables_follow_field_order(input: RecordTypeDescriptor, i: int)
    requires
        0 <= i < spec_filter_fields(input.members@).len(),
    ensures
        spec_generate(input).resolver.len() == spec_filter_fields(input.members@).len(),
        spec_generate(input).variants.len() == spec_filter_fields(input.members@).len(),
        spec_generate(input).converter.len() == spec_filter_fields(input.members@).len(),
        spec_generate(input).folder.len() == spec_filter_fields(input.members@).len(),
        ({
            let field = spec_filter_fields(input.members@)[i];
            let canon = spec_canonical(field.name);
            &&& spec_generate(input).resolver[i] == (canon.lookup_key, canon.type_ref)
            &&& spec_generate(input).variants[i] == (canon.type_ref, field.ty)
            &&& spec_generate(input).converter[i] == (canon.type_ref, canon.type_ref)
            &&& spec_generate(input).folder[i] == (canon.type_ref, field.name)
        }),
{
}

/// An eligible member has its entry in every table, at the position given by
/// the number of eligible members declared before it, and the entry is
/// derived from the member's own name and type.
pub proof fn lemma_eligible_member_has_arms(input: RecordTypeDescriptor, j: int)
    requires
        0 <= j < input.members@.len(),
        spec_is_eligible(input.members@[j]),
    ensures
        ({
            let at = spec_rank(input.members@, j);
            let declared = input.members@[j].name.unwrap()@;
            let canon = spec_canonical(declared);
            &&& 0 <= at < spec_generate(input).resolver.len()
            &&& spec_generate(input).resolver[at] == (canon.lookup_key, canon.type_ref)
            &&& spec_generate(input).variants[at] == (canon.type_ref, input.members@[j].ty@)
            &&& spec_generate(input).converter[at] == (canon.type_ref, canon.type_ref)
            &&& spec_generate(input).folder[at] == (canon.type_ref, declared)
        }),
{
    lemma_eligible_member_is_selected(input.members@, j);
    lemma_tables_follow_field_order(input, spec_rank(input.members@, j));
}

/// Every entry of the tables belongs to a member that has a name and does
/// not carry the opt-out marker: the result is that member's index. A member
/// that carries the marker is therefore the source of no entry.
pub proof fn lemma_arm_has_eligible_source(input: RecordTypeDescriptor, i: int) -> (j: int)
    requires
        0 <= i < spec_generate(input).resolver.len(),
    ensures
        0 <= j < input.members@.len(),
        input.members@[j].name.is_some(),
        !spec_is_skipped(input.members@[j]),
        spec_rank(input.members@, j) == i,
        spec_generate(input).folder[i].1 == input.members@[j].name.unwrap()@,
{
    lemma_selected_field_has_source(input.members@, i)
}

/// Whatever the members are, the tables generated for them are in lock
/// step.
pub proof fn lemma_generated_tables_in_lock_step(input: RecordTypeDescriptor)
    ensures
        spec_generate(input).in_lock_step(),
{
}

} // verus!

//! The description of a record type that generation starts from.

use vstd::prelude::*;

verus! {

/// How visible a member was declared. A restricted visibility does not carry
/// its path: nothing that is generated depends on it.
#[derive(Clone, Copy, Debug, PartialEq, Eq, Structural)]
pub enum Visibility {
    Public,
    Crate,
    Restricted,
    Inherited,
}

/// The path that names a marker, such as `a::b` or `skip`. Its segments are
/// bare identifiers: a marker's path takes no arguments.
#[derive(Clone, Debug)]
pub struct MarkerPath {
    /// Whether the path starts with `::`.
    pub leading_colon: bool,
    /// The identifiers between the `::` separators, in order.
    pub segments: Vec<String>,
}

/// One item inside the brackets of a marker group.
#[derive(Clone, Debug)]
pub enum NestedMarker {
    /// A bare path, such as `skip`.
    Path(MarkerPath),
    /// A nested group, such as `rename(all)`.
    List(MarkerPath),
    /// A path with a value, such as `name = "x"`.
    NameValue(MarkerPath),
    /// A literal, such as `"x"` or `3`.
    Literal,
}

/// A marker attached to a member, as far as it could be read.
#[derive(Clone, Debug)]
pub enum Marker {
    /// The attachment does not have the shape of a marker at all.
    Malformed,
    /// A bare path, such as `inline`.
    Path(MarkerPath),
    /// A marker group: a path and the items in its brackets.
    List(MarkerPath, Vec<NestedMarker>),
    /// A path with a value, such as `doc = "..."`.
    NameValue(MarkerPath),
}

/// One declared member of a type.
#[derive(Clone, Debug)]
pub struct MemberDescriptor {
    pub vis: Visibility,
    /// The declared name; `None` for a positional member.
    pub name: Option<String>,
    /// The declared value type, as written.
    pub ty: String,
    /// The markers attached to the member, in order.
    pub markers: Vec<Marker>,
}

/// The shape of the declared type.
#[derive(Clone, Copy, Debug, PartialEq, Eq, Structural)]
pub enum TypeShape {
    /// A record with named members.
    NamedRecord,
    /// A record with positional members.
    TupleRecord,
    /// A record without members.
    UnitRecord,
    /// A sum type.
    SumType,
    /// An untagged union.
    Union,
}

/// The generic parameters of the declared type, split as an `impl` header
/// needs them.
#[derive(Clone, Debug)]
pub struct GenericParams {
    /// The parameters with their bounds, as they follow `impl`.
    pub impl_generics: String,
    /// The parameters alone, as they follow the type's name.
    pub ty_generics: String,
    /// The `where` clause, empty where there is none.
    pub where_clause: String,
}

/// The mathematical value of [`GenericParams`].
pub struct GenericParamsView {
    pub impl_generics: Seq<char>,
    pub ty_generics: Seq<char>,
    pub where_clause: Seq<char>,
}

impl View for GenericParams {
    type V = GenericParamsView;

    open spec fn view(&self) -> GenericParamsView {
        GenericParamsView {
            impl_generics: self.impl_generics@,
            ty_generics: self.ty_generics@,
            where_clause: self.where_clause@,
        }
    }
}

impl GenericParams {
    /// A copy with the same three texts.
    pub fn duplicate(&self) -> (r: GenericParams)
        ensures
            r@ == self@,
    {
        GenericParams {
            impl_generics: self.impl_generics.clone(),
            ty_generics: self.ty_generics.clone(),
            where_clause: self.where_clause.clone(),
        }
    }
}

/// A declared type: the input of generation.
#[derive(Clone, Debug)]
pub struct RecordTypeDescriptor {
    pub name: String,
    pub generics: GenericParams,
    pub shape: TypeShape,
    /// The declared members, in declaration order.
    pub members: Vec<MemberDescriptor>,
}

/// A member that takes part in updates.
#[derive(Clone, Debug)]
pub struct EligibleField {
    pub vis: Visibility,
    pub name: String,
    pub ty: String,
}

/// The mathematical value of an [`EligibleField`].
pub struct EligibleFieldView {
    pub vis: Visibility,
    pub name: Seq<char>,
    pub ty: Seq<char>,
}

impl View for EligibleField {
    type V = EligibleFieldView;

    open spec fn view(&self) -> EligibleFieldView {
        EligibleFieldView { vis: self.vis, name: self.name@, ty: self.ty@ }
    }
}

/// The values of a sequence of eligible fields, in the same order.
pub open spec fn field_views(fields: Seq<EligibleField>) -> Seq<EligibleFieldView> {
    fields.map_values(|f: EligibleField| f@)
}

impl MarkerPath {
    /// Whether the path is the single identifier `name`, with no leading `::`.
    pub open spec fn spec_is_ident(&self, name: Seq<char>) -> bool {
        &&& !self.leading_colon
        &&& self.segments@.len() == 1
        &&& self.segments@[0]@ == name
    }

    /// Whether the path is the single identifier `name`, with no leading `::`.
    pub fn is_ident(&self, name: &str) -> (r: bool)
        ensures
            r == self.spec_is_ident(name@),
    {
        if self.leading_colon || self.segments.len() != 1 {
            return false;
        }
        let wanted = String::from_str(name);
        self.segments[0] == wanted
    }
}

} // verus!

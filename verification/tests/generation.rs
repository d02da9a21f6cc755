use field_updater::canonical::canonicalize;
use field_updater::descriptor::{
    EligibleField, GenericParams, MemberDescriptor, RecordTypeDescriptor, TypeShape, Visibility,
};
use field_updater::eval::TaggedValue;
use field_updater::synth::{check_shape, synthesize, ShapeError};
use field_updater::canonical::{canonical_from_parts, CanonicalName};

fn no_generics() -> GenericParams {
    GenericParams {
        impl_generics: String::new(),
        ty_generics: String::new(),
        where_clause: String::new(),
    }
}

fn record(name: &str, shape: TypeShape, members: &[(&str, &str)]) -> RecordTypeDescriptor {
    RecordTypeDescriptor {
        name: name.to_string(),
        generics: no_generics(),
        shape,
        members: members
            .iter()
            .map(|(n, t)| MemberDescriptor {
                vis: Visibility::Public,
                name: Some(n.to_string()),
                ty: t.to_string(),
                markers: vec![],
            })
            .collect(),
    }
}

fn tagged(variant: &str, payload: &str) -> TaggedValue {
    TaggedValue { variant: variant.to_string(), payload: payload.to_string() }
}

fn user() -> RecordTypeDescriptor {
    record("User", TypeShape::NamedRecord, &[("id", "i32"), ("user_name", "String")])
}

#[test]
fn canonical_names_of_plain_name() {
    let c = canonicalize("user_name");
    assert_eq!(c.lookup_key, "user_name");
    assert_eq!(c.type_ref, "UserName");
}

#[test]
fn canonical_names_of_raw_name() {
    let c = canonicalize("r#type");
    assert_eq!(c.lookup_key, "type");
    assert_eq!(c.type_ref, "Type");
    let twice = canonicalize("r#r#match");
    assert_eq!(twice.lookup_key, "match");
    assert_eq!(twice.type_ref, "Match");
}

#[test]
fn canonical_names_keep_inner_raw_marker() {
    let c = canonicalize("xr#y");
    assert_eq!(c.lookup_key, "xr#y");
    let short = canonicalize("r");
    assert_eq!(short.lookup_key, "r");
    assert_eq!(short.type_ref, "R");
}

#[test]
fn canonicalization_is_repeatable() {
    let a = canonicalize("created_at");
    let b = canonicalize("created_at");
    assert_eq!(a.lookup_key, b.lookup_key);
    assert_eq!(a.type_ref, b.type_ref);
    assert_eq!(a.type_ref, "CreatedAt");
}

#[test]
fn canonical_from_parts_keeps_both() {
    let c = canonical_from_parts("a_b".to_string(), "AB".to_string());
    assert_eq!(c.lookup_key, "a_b");
    assert_eq!(c.type_ref, "AB");
}

#[test]
fn resolver_finds_each_field_and_nothing_else() {
    let out = field_updater::field_updater(&user()).unwrap();
    assert_eq!(out.str2col("id"), Some("Id".to_string()));
    assert_eq!(out.str2col("user_name"), Some("UserName".to_string()));
    assert_eq!(out.str2col("nonexistent"), None);
    assert_eq!(out.str2col("Id"), None);
    assert_eq!(out.str2col(""), None);
}

#[test]
fn fold_lets_the_last_write_win() {
    let input = record(
        "User",
        TypeShape::NamedRecord,
        &[("id", "i32"), ("user_name", "String"), ("age", "u32")],
    );
    let out = field_updater::field_updater(&input).unwrap();
    let batch = vec![tagged("Id", "1"), tagged("UserName", "\"a\""), tagged("Id", "2")];
    let model = out.fields2active(&batch);
    assert_eq!(model.fields, vec!["id", "user_name", "age"]);
    assert_eq!(
        model.values,
        vec![Some("2".to_string()), Some("\"a\"".to_string()), None]
    );
    assert_eq!(model.get("id"), Some("2".to_string()));
    assert_eq!(model.get("user_name"), Some("\"a\"".to_string()));
    assert_eq!(model.get("age"), None);
    assert_eq!(model.get("missing"), None);
}

#[test]
fn fold_of_empty_batch_sets_nothing() {
    let out = field_updater::field_updater(&user()).unwrap();
    let model = out.fields2active(&vec![]);
    assert_eq!(model.fields, vec!["id", "user_name"]);
    assert_eq!(model.values, vec![None, None]);
}

#[test]
fn fold_ignores_unknown_variant() {
    let out = field_updater::field_updater(&user()).unwrap();
    let model = out.fields2active(&vec![tagged("Nope", "1"), tagged("id", "3")]);
    assert_eq!(model.values, vec![None, None]);
}

#[test]
fn converter_pairs_column_with_payload() {
    let out = field_updater::field_updater(&user()).unwrap();
    assert_eq!(
        out.field2cv(&tagged("UserName", "\"bob\"")),
        Some(("UserName".to_string(), "\"bob\"".to_string()))
    );
    assert_eq!(out.field2cv(&tagged("Id", "7")), Some(("Id".to_string(), "7".to_string())));
    assert_eq!(out.field2cv(&tagged("user_name", "x")), None);
}

#[test]
fn shapes_other_than_named_records_are_refused() {
    let sum = record("E", TypeShape::SumType, &[]);
    assert_eq!(field_updater::field_updater(&sum).err(), Some(ShapeError::SumType));
    let tuple = record("T", TypeShape::TupleRecord, &[]);
    assert_eq!(field_updater::field_updater(&tuple).err(), Some(ShapeError::TupleLike));
    let unit = record("U", TypeShape::UnitRecord, &[]);
    assert_eq!(field_updater::field_updater(&unit).err(), Some(ShapeError::Unit));
    let union = record("N", TypeShape::Union, &[]);
    assert_eq!(field_updater::field_updater(&union).err(), Some(ShapeError::Union));
    assert_eq!(check_shape(TypeShape::NamedRecord), Ok(()));
    assert_eq!(check_shape(TypeShape::SumType), Err(ShapeError::SumType));
}

#[test]
fn refused_shape_ignores_members() {
    let sum = record("E", TypeShape::SumType, &[("id", "i32")]);
    assert!(field_updater::field_updater(&sum).is_err());
}

#[test]
fn tables_share_one_field_order() {
    let input = record(
        "Post",
        TypeShape::NamedRecord,
        &[("title", "String"), ("r#type", "u8"), ("created_at", "i64")],
    );
    let out = field_updater::field_updater(&input).unwrap();
    assert_eq!(out.record_name, "Post");
    assert_eq!(out.enum_name, "PostField");
    let resolver: Vec<(&str, &str)> =
        out.resolver.iter().map(|b| (b.pattern.as_str(), b.target.as_str())).collect();
    assert_eq!(
        resolver,
        vec![("title", "Title"), ("type", "Type"), ("created_at", "CreatedAt")]
    );
    let variants: Vec<(&str, &str)> =
        out.variants.iter().map(|v| (v.name.as_str(), v.payload_ty.as_str())).collect();
    assert_eq!(variants, vec![("Title", "String"), ("Type", "u8"), ("CreatedAt", "i64")]);
    let converter: Vec<(&str, &str)> =
        out.converter.iter().map(|b| (b.pattern.as_str(), b.target.as_str())).collect();
    assert_eq!(
        converter,
        vec![("Title", "Title"), ("Type", "Type"), ("CreatedAt", "CreatedAt")]
    );
    let folder: Vec<(&str, &str)> =
        out.folder.iter().map(|b| (b.pattern.as_str(), b.target.as_str())).collect();
    assert_eq!(
        folder,
        vec![("Title", "title"), ("Type", "r#type"), ("CreatedAt", "created_at")]
    );
}

#[test]
fn synthesize_uses_the_names_it_is_given() {
    let fields = vec![EligibleField {
        vis: Visibility::Public,
        name: "a".to_string(),
        ty: "bool".to_string(),
    }];
    let names = vec![CanonicalName { lookup_key: "key".to_string(), type_ref: "Ref".to_string() }];
    let generics = GenericParams {
        impl_generics: "<T: Clone>".to_string(),
        ty_generics: "<T>".to_string(),
        where_clause: "where T: Send".to_string(),
    };
    let out = synthesize("Rec", &generics, &fields, &names);
    assert_eq!(out.enum_name, "RecField");
    assert_eq!(out.generics.impl_generics, "<T: Clone>");
    assert_eq!(out.generics.ty_generics, "<T>");
    assert_eq!(out.generics.where_clause, "where T: Send");
    assert_eq!(out.resolver[0].pattern, "key");
    assert_eq!(out.resolver[0].target, "Ref");
    assert_eq!(out.variants[0].name, "Ref");
    assert_eq!(out.variants[0].payload_ty, "bool");
    assert_eq!(out.converter[0].pattern, "Ref");
    assert_eq!(out.converter[0].target, "Ref");
    assert_eq!(out.folder[0].pattern, "Ref");
    assert_eq!(out.folder[0].target, "a");
}

#[test]
fn first_matching_arm_wins() {
    let input = record("R", TypeShape::NamedRecord, &[("user_name", "u8"), ("userName", "u16")]);
    let out = field_updater::field_updater(&input).unwrap();
    assert_eq!(out.variants[0].name, "UserName");
    assert_eq!(out.variants[1].name, "UserName");
    let model = out.fields2active(&vec![tagged("UserName", "5")]);
    assert_eq!(model.values, vec![Some("5".to_string()), None]);
}

#[test]
fn rendered_text_is_exact() {
    let out = field_updater::field_updater(&user()).unwrap();
    let expected = "pub enum UserField {\n    Id(i32),\n    UserName(String),\n}\n\
impl User  {\n    pub fn str2col(s: &str) -> Option<Column> {\n        match s {\n            \"id\" => Some(Column::Id),\n            \"user_name\" => Some(Column::UserName),\n            _x => None,\n        }\n    }\n    pub fn field2cv(field: UserField) -> (Column, SimpleExpr) {\n        match field {\n            UserField::Id(v) => (Column::Id, Expr::value(v)),\n            UserField::UserName(v) => (Column::UserName, Expr::value(v)),\n        }\n    }\n    pub fn fields2active(fields: Vec<UserField>) -> ActiveModel {\n        let mut model = ActiveModel::new();\n        for field in fields {\n            match field {\n                UserField::Id(v) => model.id = Set(v),\n                UserField::UserName(v) => model.user_name = Set(v),\n            }\n        }\n        model\n    }\n}\n";
    assert_eq!(out.render(), expected);
    assert_eq!(out.render(), format!("{}{}", out.render_enum(), out.render_impl()));
}

#[test]
fn rendered_text_parses_as_items() {
    let mut input = user();
    input.generics = GenericParams {
        impl_generics: "<T: Clone>".to_string(),
        ty_generics: "<T>".to_string(),
        where_clause: "where T: Send".to_string(),
    };
    let text = field_updater::field_updater(&input).unwrap().render();
    let file = syn::parse_str::<syn::File>(&text).unwrap();
    assert_eq!(file.items.len(), 2);
    assert!(matches!(file.items[0], syn::Item::Enum(_)));
    assert!(matches!(file.items[1], syn::Item::Impl(_)));
}

#[test]
fn record_without_eligible_fields_renders_empty_tables() {
    let out = field_updater::field_updater(&record("Empty", TypeShape::NamedRecord, &[])).unwrap();
    assert!(out.resolver.is_empty());
    assert!(out.variants.is_empty());
    assert!(out.converter.is_empty());
    assert!(out.folder.is_empty());
    assert_eq!(out.render_enum(), "pub enum EmptyField {\n}\n");
    assert_eq!(out.str2col("id"), None);
}

#[test]
fn arms_are_found_by_their_pattern() {
    let out = field_updater::field_updater(&user()).unwrap();
    assert_eq!(field_updater::eval::find_arm(&out.resolver, "id"), Some(0));
    assert_eq!(field_updater::eval::find_arm(&out.resolver, "user_name"), Some(1));
    assert_eq!(field_updater::eval::find_arm(&out.resolver, "x"), None);
    assert_eq!(field_updater::eval::find_arm(&out.folder, "UserName"), Some(1));
    assert_eq!(field_updater::eval::find_arm(&vec![], "id"), None);
}

#[test]
fn arms_are_rendered_in_order() {
    let out = field_updater::field_updater(&user()).unwrap();
    assert_eq!(
        field_updater::render::render_arms(&out.resolver, "<", "|", ">"),
        "<id|Id><user_name|UserName>"
    );
    assert_eq!(field_updater::render::render_arms(&vec![], "<", "|", ">"), "");
    assert_eq!(
        field_updater::render::render_variants(&out.variants),
        "    Id(i32),\n    UserName(String),\n"
    );
}

#[test]
fn generic_parameters_are_carried_over() {
    let generics = GenericParams {
        impl_generics: "<'a, T: 'a>".to_string(),
        ty_generics: "<'a, T>".to_string(),
        where_clause: String::new(),
    };
    let copy = generics.duplicate();
    assert_eq!(copy.impl_generics, "<'a, T: 'a>");
    assert_eq!(copy.ty_generics, "<'a, T>");
    assert_eq!(copy.where_clause, "");
    let mut input = user();
    input.generics = generics;
    let text = field_updater::field_updater(&input).unwrap().render_impl();
    assert!(text.starts_with("impl<'a, T: 'a> User<'a, T>  {\n"));
}

#[test]
fn canonical_names_follow_field_order() {
    let fields = vec![
        EligibleField { vis: Visibility::Public, name: "b_c".to_string(), ty: "u8".to_string() },
        EligibleField { vis: Visibility::Public, name: "r#a".to_string(), ty: "u8".to_string() },
    ];
    let names = field_updater::synth::canonical_names(&fields);
    assert_eq!(names.len(), 2);
    assert_eq!(names[0].lookup_key, "b_c");
    assert_eq!(names[0].type_ref, "BC");
    assert_eq!(names[1].lookup_key, "a");
    assert_eq!(names[1].type_ref, "A");
}

#[test]
fn partial_record_starts_unset_and_keeps_other_fields() {
    let mut model = field_updater::eval::PartialRecord::unset(vec![
        "id".to_string(),
        "user_name".to_string(),
    ]);
    assert_eq!(model.fields, vec!["id", "user_name"]);
    assert_eq!(model.values, vec![None, None]);
    model.set(1, "x".to_string());
    assert_eq!(model.values, vec![None, Some("x".to_string())]);
    model.set(1, "y".to_string());
    model.set(0, "1".to_string());
    assert_eq!(model.fields, vec!["id", "user_name"]);
    assert_eq!(model.values, vec![Some("1".to_string()), Some("y".to_string())]);
    assert_eq!(model.get("user_name"), Some("y".to_string()));
}

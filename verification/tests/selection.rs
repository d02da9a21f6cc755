use field_updater::descriptor::{
    GenericParams, Marker, MarkerPath, MemberDescriptor, NestedMarker, RecordTypeDescriptor,
    TypeShape, Visibility,
};
use field_updater::selector::{filter_fields, has_skip_attr, is_skipped};

fn path(segments: &[&str]) -> MarkerPath {
    MarkerPath { leading_colon: false, segments: segments.iter().map(|s| s.to_string()).collect() }
}

fn group(name: &str, items: Vec<NestedMarker>) -> Marker {
    Marker::List(path(&[name]), items)
}

fn member(name: Option<&str>, ty: &str, markers: Vec<Marker>) -> MemberDescriptor {
    MemberDescriptor {
        vis: Visibility::Public,
        name: name.map(|n| n.to_string()),
        ty: ty.to_string(),
        markers,
    }
}

fn names(members: &Vec<MemberDescriptor>) -> Vec<String> {
    filter_fields(members).into_iter().map(|f| f.name).collect()
}

#[test]
fn skip_marker_is_recognized() {
    let m = group("struct_field", vec![NestedMarker::Path(path(&["skip"]))]);
    assert!(has_skip_attr(&m, "struct_field"));
}

#[test]
fn skip_marker_among_other_items_is_recognized() {
    let m = group(
        "struct_field",
        vec![
            NestedMarker::Literal,
            NestedMarker::NameValue(path(&["rename"])),
            NestedMarker::Path(path(&["skip"])),
        ],
    );
    assert!(has_skip_attr(&m, "struct_field"));
}

#[test]
fn skip_under_another_group_is_ignored() {
    let m = group("serde", vec![NestedMarker::Path(path(&["skip"]))]);
    assert!(!has_skip_attr(&m, "struct_field"));
    assert!(has_skip_attr(&m, "serde"));
}

#[test]
fn group_without_skip_is_ignored() {
    let m = group("struct_field", vec![NestedMarker::Path(path(&["keep"]))]);
    assert!(!has_skip_attr(&m, "struct_field"));
    let empty = group("struct_field", vec![]);
    assert!(!has_skip_attr(&empty, "struct_field"));
}

#[test]
fn skip_with_a_value_or_brackets_is_ignored() {
    let nv = group("struct_field", vec![NestedMarker::NameValue(path(&["skip"]))]);
    assert!(!has_skip_attr(&nv, "struct_field"));
    let list = group("struct_field", vec![NestedMarker::List(path(&["skip"]))]);
    assert!(!has_skip_attr(&list, "struct_field"));
    let lit = group("struct_field", vec![NestedMarker::Literal]);
    assert!(!has_skip_attr(&lit, "struct_field"));
}

#[test]
fn longer_or_rooted_paths_are_ignored() {
    let long = group("struct_field", vec![NestedMarker::Path(path(&["a", "skip"]))]);
    assert!(!has_skip_attr(&long, "struct_field"));
    let rooted = MarkerPath { leading_colon: true, segments: vec!["skip".to_string()] };
    let m = group("struct_field", vec![NestedMarker::Path(rooted)]);
    assert!(!has_skip_attr(&m, "struct_field"));
    let rooted_group = Marker::List(
        MarkerPath { leading_colon: true, segments: vec!["struct_field".to_string()] },
        vec![NestedMarker::Path(path(&["skip"]))],
    );
    assert!(!has_skip_attr(&rooted_group, "struct_field"));
    let long_group =
        Marker::List(path(&["x", "struct_field"]), vec![NestedMarker::Path(path(&["skip"]))]);
    assert!(!has_skip_attr(&long_group, "struct_field"));
}

#[test]
fn markers_of_other_shapes_are_ignored() {
    assert!(!has_skip_attr(&Marker::Malformed, "struct_field"));
    assert!(!has_skip_attr(&Marker::Path(path(&["struct_field"])), "struct_field"));
    assert!(!has_skip_attr(&Marker::NameValue(path(&["struct_field"])), "struct_field"));
}

#[test]
fn member_is_skipped_by_any_of_its_markers() {
    let m = member(
        Some("a"),
        "i32",
        vec![
            Marker::Malformed,
            Marker::NameValue(path(&["doc"])),
            group("struct_field", vec![NestedMarker::Path(path(&["skip"]))]),
        ],
    );
    assert!(is_skipped(&m));
    let n = member(Some("a"), "i32", vec![Marker::Malformed, Marker::NameValue(path(&["doc"]))]);
    assert!(!is_skipped(&n));
    assert!(!is_skipped(&member(Some("a"), "i32", vec![])));
}

#[test]
fn selection_keeps_declaration_order() {
    let members = vec![
        member(Some("id"), "i32", vec![]),
        member(Some("secret"), "String", vec![group(
            "struct_field",
            vec![NestedMarker::Path(path(&["skip"]))],
        )]),
        member(Some("user_name"), "String", vec![]),
        member(None, "u8", vec![]),
        member(Some("age"), "u32", vec![group("serde", vec![NestedMarker::Path(path(&["skip"]))])]),
    ];
    assert_eq!(names(&members), vec!["id", "user_name", "age"]);
}

#[test]
fn selection_keeps_visibility_and_type() {
    let members = vec![
        MemberDescriptor {
            vis: Visibility::Inherited,
            name: Some("a".to_string()),
            ty: "Option<i64>".to_string(),
            markers: vec![],
        },
        MemberDescriptor {
            vis: Visibility::Crate,
            name: Some("b".to_string()),
            ty: "Vec<u8>".to_string(),
            markers: vec![Marker::Malformed],
        },
    ];
    let out = filter_fields(&members);
    assert_eq!(out.len(), 2);
    assert_eq!(out[0].vis, Visibility::Inherited);
    assert_eq!(out[0].name, "a");
    assert_eq!(out[0].ty, "Option<i64>");
    assert_eq!(out[1].vis, Visibility::Crate);
    assert_eq!(out[1].name, "b");
    assert_eq!(out[1].ty, "Vec<u8>");
}

#[test]
fn selection_of_nothing_is_empty() {
    assert!(filter_fields(&vec![]).is_empty());
    let all_skipped = vec![member(
        Some("x"),
        "i32",
        vec![group("struct_field", vec![NestedMarker::Path(path(&["skip"]))])],
    )];
    assert!(filter_fields(&all_skipped).is_empty());
    let positional = vec![member(None, "i32", vec![]), member(None, "u8", vec![])];
    assert!(filter_fields(&positional).is_empty());
}

#[test]
fn skipped_member_appears_in_no_table() {
    let input = RecordTypeDescriptor {
        name: "User".to_string(),
        generics: GenericParams {
            impl_generics: String::new(),
            ty_generics: String::new(),
            where_clause: String::new(),
        },
        shape: TypeShape::NamedRecord,
        members: vec![
            member(Some("id"), "i32", vec![]),
            member(Some("password"), "String", vec![group(
                "struct_field",
                vec![NestedMarker::Path(path(&["skip"]))],
            )]),
            member(Some("email"), "String", vec![Marker::Malformed, group(
                "struct_field",
                vec![NestedMarker::NameValue(path(&["skip"]))],
            )]),
        ],
    };
    let out = field_updater::field_updater(&input).unwrap();
    let keys: Vec<&str> = out.resolver.iter().map(|b| b.pattern.as_str()).collect();
    assert_eq!(keys, vec!["id", "email"]);
    let variants: Vec<&str> = out.variants.iter().map(|v| v.name.as_str()).collect();
    assert_eq!(variants, vec!["Id", "Email"]);
    let converted: Vec<&str> = out.converter.iter().map(|b| b.pattern.as_str()).collect();
    assert_eq!(converted, vec!["Id", "Email"]);
    let set: Vec<&str> = out.folder.iter().map(|b| b.target.as_str()).collect();
    assert_eq!(set, vec!["id", "email"]);
    assert_eq!(out.str2col("password"), None);
    assert!(!out.render().contains("assword"));
}

#[test]
fn path_is_ident_only_as_a_single_segment() {
    assert!(path(&["skip"]).is_ident("skip"));
    assert!(!path(&["skip"]).is_ident("skipped"));
    assert!(!path(&["r#skip"]).is_ident("skip"));
    assert!(!path(&[]).is_ident("skip"));
    assert!(!path(&["skip", "skip"]).is_ident("skip"));
    let rooted = MarkerPath { leading_colon: true, segments: vec!["skip".to_string()] };
    assert!(!rooted.is_ident("skip"));
}

#[test]
fn marker_tokens_are_fixed() {
    assert_eq!(field_updater::selector::ATTR_META_SKIP, "skip");
    assert_eq!(field_updater::selector::MARKER_GROUP, "struct_field");
}

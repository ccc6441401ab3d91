use buddy::json::Json;
use buddy::permissions::{
    normalize, sort_strings, PermissionsError, StringArrayError,
};

const CURRENT_USER: &str = r#"
    {
      "data": {
        "id": "service-account-1",
        "attributes": {"name": "Buddy"}
      },
      "included": [
        {
          "type": "permissions",
          "id": "permission-b",
          "attributes": {
            "name": "b",
            "display_name": "B",
            "description": null,
            "group_name": "group",
            "name_aliases": ["z", "a"],
            "restricted": false
          }
        },
        {
          "type": "roles",
          "id": "role-1",
          "attributes": {
            "name": "Read only",
            "receives_permissions_from": []
          },
          "relationships": {
            "permissions": {
              "data": [{"id": "permission-b"}, {"id": "permission-a"}]
            }
          }
        },
        {
          "type": "permissions",
          "id": "permission-a",
          "attributes": {
            "name": "a",
            "display_name": "A",
            "description": "description",
            "group_name": "group",
            "restricted": true
          }
        }
      ]
    }
    "#;

fn from_value(v: &serde_json::Value) -> Json {
    match v {
        serde_json::Value::Null => Json::Null,
        serde_json::Value::Bool(b) => Json::Bool(*b),
        serde_json::Value::Number(n) => Json::Number(n.to_string()),
        serde_json::Value::String(s) => Json::String(s.clone()),
        serde_json::Value::Array(a) => Json::Array(a.iter().map(from_value).collect()),
        serde_json::Value::Object(m) => {
            Json::Object(m.iter().map(|(k, v)| (k.clone(), from_value(v))).collect())
        }
    }
}

fn parse(text: &str) -> Json {
    from_value(&serde_json::from_str(text).unwrap())
}

fn text(j: &Json) -> Option<&str> {
    match j {
        Json::String(s) => Some(s.as_str()),
        _ => None,
    }
}

fn items(j: &Json) -> &Vec<Json> {
    match j {
        Json::Array(items) => items,
        other => panic!("not an array: {other:?}"),
    }
}

fn texts(j: &Json) -> Vec<&str> {
    items(j).iter().map(|x| text(x).unwrap()).collect()
}

#[test]
fn normalizes_and_sorts_permissions() {
    let snapshot = normalize(&parse(CURRENT_USER)).unwrap();
    let json = snapshot.to_json();

    match &json {
        Json::Object(members) => assert_eq!(
            members.iter().map(|(k, _)| k.as_str()).collect::<Vec<_>>(),
            ["permissions"]
        ),
        other => panic!("not an object: {other:?}"),
    }
    let permissions = items(json.get("permissions").unwrap());
    assert_eq!(text(permissions[0].get("id").unwrap()), Some("permission-a"));
    assert_eq!(texts(permissions[0].get("name_aliases").unwrap()), Vec::<&str>::new());
    assert_eq!(texts(permissions[1].get("name_aliases").unwrap()), vec!["a", "z"]);
}

fn with_items_reversed(response: &Json) -> Json {
    match response {
        Json::Object(members) => Json::Object(
            members
                .iter()
                .map(|(k, v)| match (k.as_str(), v) {
                    ("included", Json::Array(items)) => {
                        let mut reversed: Vec<Json> = items.iter().map(copy).collect();
                        reversed.reverse();
                        (k.clone(), Json::Array(reversed))
                    }
                    _ => (k.clone(), copy(v)),
                })
                .collect(),
        ),
        other => panic!("not an object: {other:?}"),
    }
}

fn copy(j: &Json) -> Json {
    match j {
        Json::Null => Json::Null,
        Json::Bool(b) => Json::Bool(*b),
        Json::Number(n) => Json::Number(n.clone()),
        Json::String(s) => Json::String(s.clone()),
        Json::Array(a) => Json::Array(a.iter().map(copy).collect()),
        Json::Object(m) => Json::Object(m.iter().map(|(k, v)| (k.clone(), copy(v))).collect()),
    }
}

#[test]
fn the_order_of_included_items_does_not_matter() {
    let response = parse(CURRENT_USER);
    let reversed = with_items_reversed(&response);
    assert_ne!(format!("{response:?}"), format!("{reversed:?}"));
    let first = normalize(&response).unwrap().to_json();
    let second = normalize(&reversed).unwrap().to_json();
    assert_eq!(format!("{first:?}"), format!("{second:?}"));
}

#[test]
fn writes_permission_members_in_snapshot_order() {
    let snapshot = normalize(&parse(CURRENT_USER)).unwrap();
    let json = snapshot.to_json();
    let permissions = items(json.get("permissions").unwrap());
    match &permissions[1] {
        Json::Object(members) => assert_eq!(
            members.iter().map(|(k, _)| k.as_str()).collect::<Vec<_>>(),
            [
                "id",
                "name",
                "display_name",
                "description",
                "group_name",
                "name_aliases",
                "restricted"
            ]
        ),
        other => panic!("not an object: {other:?}"),
    }
    assert!(matches!(permissions[1].get("description"), Some(Json::Null)));
    assert!(matches!(permissions[1].get("restricted"), Some(Json::Bool(false))));
    assert_eq!(text(permissions[1].get("display_name").unwrap()), Some("B"));
    assert_eq!(snapshot.permissions.len(), 2);
    assert_eq!(snapshot.permissions[0].id, "permission-a");
    assert_eq!(snapshot.permissions[1].name_aliases, vec!["a", "z"]);
}

#[test]
fn missing_attributes_become_null() {
    let snapshot =
        normalize(&parse(r#"{"included": [{"type": "permissions", "id": "p"}]}"#)).unwrap();
    let p = &snapshot.permissions[0];
    assert!(matches!(p.name, Json::Null));
    assert!(matches!(p.restricted, Json::Null));
    assert!(p.name_aliases.is_empty());
}

#[test]
fn null_name_aliases_are_empty() {
    let snapshot = normalize(&parse(
        r#"{"included": [{"type": "permissions", "id": "p", "attributes": {"name_aliases": null}}]}"#,
    ))
    .unwrap();
    assert!(snapshot.permissions[0].name_aliases.is_empty());
}

#[test]
fn keeps_permissions_with_equal_ids_in_order() {
    let snapshot = normalize(&parse(
        r#"{"included": [
            {"type": "permissions", "id": "b", "attributes": {"name": "first b"}},
            {"type": "permissions", "id": "a", "attributes": {"name": "a"}},
            {"type": "permissions", "id": "b", "attributes": {"name": "second b"}}
        ]}"#,
    ))
    .unwrap();
    let names: Vec<_> = snapshot.permissions.iter().map(|p| text(&p.name).unwrap()).collect();
    assert_eq!(names, ["a", "first b", "second b"]);
}

#[test]
fn reports_missing_included_permissions() {
    for document in [r#"{}"#, r#"{"included": {}}"#, r#"[]"#, r#"{"included": null}"#] {
        let error = normalize(&parse(document)).unwrap_err();
        assert_eq!(error, PermissionsError::NoIncludedPermissions);
        assert_eq!(error.message(), "current_user did not return included permissions");
    }
}

#[test]
fn reports_no_permissions() {
    let error = normalize(&parse(r#"{"included": [{"type": "roles", "id": "r"}]}"#)).unwrap_err();
    assert_eq!(error, PermissionsError::NoPermissions);
    assert_eq!(error.message(), "current_user did not return any permissions");
}

#[test]
fn reports_a_permission_without_id() {
    for document in [
        r#"{"included": [{"type": "permissions"}]}"#,
        r#"{"included": [{"type": "permissions", "id": 7}]}"#,
    ] {
        let error = normalize(&parse(document)).unwrap_err();
        assert_eq!(error, PermissionsError::MissingId);
        assert_eq!(error.message(), "a Datadog permission has no ID");
        assert_eq!(error.cause(), None);
    }
}

#[test]
fn reports_invalid_name_aliases() {
    let error = normalize(&parse(
        r#"{"included": [{"type": "permissions", "id": "p", "attributes": {"name_aliases": "a"}}]}"#,
    ))
    .unwrap_err();
    assert_eq!(
        error,
        PermissionsError::InvalidNameAliases(StringArrayError::NotAnArray)
    );
    assert_eq!(
        error.message(),
        "a Datadog permission returned invalid name aliases"
    );
    assert_eq!(
        error.cause().unwrap(),
        "expected an array at /attributes/name_aliases"
    );

    // The aliases are read before the ID.
    let error = normalize(&parse(
        r#"{"included": [{"type": "permissions", "attributes": {"name_aliases": ["a", 1]}}]}"#,
    ))
    .unwrap_err();
    assert_eq!(
        error,
        PermissionsError::InvalidNameAliases(StringArrayError::NotAString)
    );
    assert_eq!(error.cause().unwrap(), "expected a string in /attributes/name_aliases");
}

#[test]
fn the_first_bad_permission_gives_the_error() {
    let error = normalize(&parse(
        r#"{"included": [
            {"type": "permissions", "attributes": {}},
            {"type": "permissions", "id": "p", "attributes": {"name_aliases": 3}}
        ]}"#,
    ))
    .unwrap_err();
    assert_eq!(error, PermissionsError::MissingId);
}

#[test]
fn sorts_strings_as_std_does() {
    let input: Vec<String> = ["b", "a", "ab", "", "B", "é", "z", "a", "\u{10000}", "\u{ffff}"]
        .iter()
        .map(|s| s.to_string())
        .collect();
    let mut expected = input.clone();
    expected.sort();
    assert_eq!(sort_strings(&input), expected);
}

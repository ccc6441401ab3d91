//! The Datadog permissions snapshot: the permissions that the service
//! account's `current_user` response includes, normalized and sorted.

use vstd::prelude::*;

use crate::json::{at_path, member, path_view, Json, JsonView};
use crate::order::{
    insert_point, lemma_insert_point, lemma_sort_by_key_len,
    lemma_sort_by_key_permutes, lemma_sorted_unique, lemma_sort_by_key_sorted, lemma_sort_by_key_stable, sort_by_key,
    sorted_by_key, text_less, text_lt, with_key,
};
use crate::text::same_text;
use vstd::multiset::Multiset;

verus! {

/// The text of a JSON string; nothing for any other value.
pub open spec fn text_of(v: Option<JsonView>) -> Option<Seq<char>> {
    match v {
        Some(JsonView::String(s)) => Some(s),
        _ => None,
    }
}

/// The value found, or `null` when there is none.
pub open spec fn value_or_null(v: Option<JsonView>) -> JsonView {
    match v {
        Some(x) => x,
        None => JsonView::Null,
    }
}

/// Why a value is not an array of strings.
#[derive(Debug, Clone, Copy, PartialEq, Eq)]
pub enum StringArrayError {
    NotAnArray,
    NotAString,
}

/// The text of a JSON string.
pub open spec fn string_content() -> spec_fn(JsonView) -> Seq<char> {
    |x: JsonView| x->String_0
}

/// The texts of an array of strings.
pub open spec fn string_array(v: Option<JsonView>) -> Result<Seq<Seq<char>>, StringArrayError> {
    match v {
        Some(JsonView::Array(items)) => if forall|i: int|
            0 <= i < items.len() ==> (#[trigger] items[i]) is String {
            Ok(items.map_values(string_content()))
        } else {
            Err(StringArrayError::NotAString)
        },
        _ => Err(StringArrayError::NotAnArray),
    }
}

/// Like `string_array`, but a missing value or `null` is an empty array.
pub open spec fn optional_string_array(v: Option<JsonView>) -> Result<
    Seq<Seq<char>>,
    StringArrayError,
> {
    match v {
        None => Ok(Seq::empty()),
        Some(JsonView::Null) => Ok(Seq::empty()),
        _ => string_array(v),
    }
}

/// The texts of a sequence of strings.
pub open spec fn texts(s: Seq<String>) -> Seq<Seq<char>> {
    s.map_values(|x: String| x@)
}

/// Orders texts by themselves.
pub open spec fn text_key() -> spec_fn(Seq<char>) -> Seq<char> {
    |t: Seq<char>| t
}

/// The value of a string at `path`, if there is a string there.
pub fn string_at(value: &Json, path: &[&str]) -> (r: Option<String>)
    ensures
        match r {
            Some(s) => text_of(at_path(value@, path_view(path@))) == Some(s@),
            None => text_of(at_path(value@, path_view(path@))) is None,
        },
{
    match value.lookup(path) {
        Some(Json::String(s)) => Some(s.clone()),
        _ => None,
    }
}

/// The strings of the array at `path`.
pub fn string_array_at(value: &Json, path: &[&str]) -> (r: Result<Vec<String>, StringArrayError>)
    ensures
        match r {
            Ok(v) => string_array(at_path(value@, path_view(path@))) == Ok::<
                Seq<Seq<char>>,
                StringArrayError,
            >(texts(v@)),
            Err(e) => string_array(at_path(value@, path_view(path@))) == Err::<
                Seq<Seq<char>>,
                StringArrayError,
            >(e),
        },
{
    let found = value.lookup(path);
    match found {
        Some(Json::Array(items)) => {
            let ghost views = match at_path(value@, path_view(path@)) {
                Some(JsonView::Array(a)) => a,
                _ => Seq::empty(),
            };
            assert(views.len() == items.len());
            assert(forall|k: int| 0 <= k < items.len() ==> #[trigger] views[k] == items@[k]@);
            let mut out: Vec<String> = Vec::new();
            let mut i: usize = 0;
            while i < items.len()
                invariant
                    i <= items.len() == views.len(),
                    at_path(value@, path_view(path@)) == Some(JsonView::Array(views)),
                    forall|k: int| 0 <= k < items.len() ==> #[trigger] views[k] == items@[k]@,
                    forall|k: int| 0 <= k < i ==> (#[trigger] views[k]) is String,
                    texts(out@) == views.take(i as int).map_values(string_content()),
                decreases items.len() - i,
            {
                assert(views[i as int] == items@[i as int]@);
                match &items[i] {
                    Json::String(s) => {
                        assert(views[i as int] == JsonView::String(s@));
                        let ghost before = out@;
                        out.push(s.clone());
                        assert(texts(out@) =~= texts(before).push(s@));
                        assert(views.take(i + 1) =~= views.take(i as int).push(views[i as int]));
                        assert(views.take(i + 1).map_values(string_content()) =~= views.take(
                            i as int,
                        ).map_values(string_content()).push(s@));
                    },
                    _ => {
                        assert(!(views[i as int] is String));
                        return Err(StringArrayError::NotAString);
                    },
                }
                i = i + 1;
            }
            assert(views.take(i as int) =~= views);
            Ok(out)
        },
        _ => Err(StringArrayError::NotAnArray),
    }
}

/// The strings of the array at `path`; none when the value is missing or
/// `null`.
pub fn optional_string_array_at(value: &Json, path: &[&str]) -> (r: Result<
    Vec<String>,
    StringArrayError,
>)
    ensures
        match r {
            Ok(v) => optional_string_array(at_path(value@, path_view(path@))) == Ok::<
                Seq<Seq<char>>,
                StringArrayError,
            >(texts(v@)),
            Err(e) => optional_string_array(at_path(value@, path_view(path@))) == Err::<
                Seq<Seq<char>>,
                StringArrayError,
            >(e),
        },
{
    match value.lookup(path) {
        None => {
            let v: Vec<String> = Vec::new();
            assert(texts(v@) =~= Seq::<Seq<char>>::empty());
            Ok(v)
        },
        Some(Json::Null) => {
            let v: Vec<String> = Vec::new();
            assert(texts(v@) =~= Seq::<Seq<char>>::empty());
            Ok(v)
        },
        Some(_) => string_array_at(value, path),
    }
}

/// A copy of the value at `path`, or `null` when there is none.
pub fn value_at(value: &Json, path: &[&str]) -> (r: Json)
    ensures
        r@ == value_or_null(at_path(value@, path_view(path@))),
{
    match value.lookup(path) {
        Some(v) => v.deep_copy(),
        None => Json::Null,
    }
}

proof fn lemma_insert_point_unique<T>(s: Seq<T>, x: T, key: spec_fn(T) -> Seq<char>, p: int)
    requires
        0 <= p <= s.len(),
        forall|j: int| 0 <= j < p ==> !text_lt(key(x), key(#[trigger] s[j])),
        p < s.len() ==> text_lt(key(x), key(s[p])),
    ensures
        insert_point(s, x, key) == p,
{
    lemma_insert_point(s, x, key);
    let q = insert_point(s, x, key) as int;
    if q < p {
        assert(!text_lt(key(x), key(s[q])));
    } else if p < q {
        assert(!text_lt(key(x), key(s[p])));
    }
}

/// Sorts strings in the order of `str`, keeping equal strings in order.
pub fn sort_strings(v: &Vec<String>) -> (r: Vec<String>)
    ensures
        texts(r@) == sort_by_key(texts(v@), text_key()),
{
    let ghost input = texts(v@);
    let mut out: Vec<String> = Vec::new();
    let mut i: usize = 0;
    assert(input.take(0) =~= Seq::<Seq<char>>::empty());
    while i < v.len()
        invariant
            input == texts(v@),
            i <= v.len(),
            texts(out@) == sort_by_key(input.take(i as int), text_key()),
        decreases v.len() - i,
    {
        let x = v[i].clone();
        let mut p: usize = 0;
        while p < out.len() && !text_less(x.as_str(), out[p].as_str())
            invariant
                p <= out.len(),
                forall|j: int|
                    0 <= j < p ==> !text_lt(x@, #[trigger] texts(out@)[j]),
            decreases out.len() - p,
        {
            p = p + 1;
        }
        proof {
            let key = text_key();
            assert(input.take(i + 1).drop_last() =~= input.take(i as int));
            assert(input.take(i + 1).last() == x@);
            assert forall|j: int| 0 <= j < p implies !text_lt(
                key(x@),
                key(#[trigger] texts(out@)[j]),
            ) by {}
            lemma_insert_point_unique(texts(out@), x@, key, p as int);
        }
        let ghost before = out@;
        out.insert(p, x);
        assert(texts(out@) =~= texts(before).insert(p as int, x@));
        i = i + 1;
    }
    assert(input.take(v.len() as int) =~= input);
    out
}

/// A Datadog permission as the snapshot records it.
#[derive(Debug)]
pub struct Permission {
    pub id: String,
    pub name: Json,
    pub display_name: Json,
    pub description: Json,
    pub group_name: Json,
    pub name_aliases: Vec<String>,
    pub restricted: Json,
}

/// The value of a permission.
pub struct PermissionView {
    pub id: Seq<char>,
    pub name: JsonView,
    pub display_name: JsonView,
    pub description: JsonView,
    pub group_name: JsonView,
    pub name_aliases: Seq<Seq<char>>,
    pub restricted: JsonView,
}

impl View for Permission {
    type V = PermissionView;

    open spec fn view(&self) -> PermissionView {
        PermissionView {
            id: self.id@,
            name: self.name@,
            display_name: self.display_name@,
            description: self.description@,
            group_name: self.group_name@,
            name_aliases: texts(self.name_aliases@),
            restricted: self.restricted@,
        }
    }
}

/// Why the `current_user` response gives no snapshot.
#[derive(Debug, Clone, Copy, PartialEq, Eq)]
pub enum PermissionsError {
    /// The response has no `included` array.
    NoIncludedPermissions,
    /// A permission's `attributes.name_aliases` is neither missing, `null`
    /// nor an array of strings.
    InvalidNameAliases(StringArrayError),
    /// A permission has no string `id`.
    MissingId,
    /// The response includes no permission.
    NoPermissions,
}

/// The path `attributes.<name>` of a permission.
pub open spec fn attribute_path(name: Seq<char>) -> Seq<Seq<char>> {
    seq!["attributes"@, name]
}

/// What a permission item of the response becomes in the snapshot: the
/// name aliases are read first, then the ID; the aliases come out sorted.
pub open spec fn normalized_permission(item: JsonView) -> Result<PermissionView, PermissionsError> {
    match optional_string_array(at_path(item, attribute_path("name_aliases"@))) {
        Err(e) => Err(PermissionsError::InvalidNameAliases(e)),
        Ok(aliases) => match text_of(at_path(item, seq!["id"@])) {
            None => Err(PermissionsError::MissingId),
            Some(id) => Ok(
                PermissionView {
                    id,
                    name: value_or_null(at_path(item, attribute_path("name"@))),
                    display_name: value_or_null(at_path(item, attribute_path("display_name"@))),
                    description: value_or_null(at_path(item, attribute_path("description"@))),
                    group_name: value_or_null(at_path(item, attribute_path("group_name"@))),
                    name_aliases: sort_by_key(aliases, text_key()),
                    restricted: value_or_null(at_path(item, attribute_path("restricted"@))),
                },
            ),
        },
    }
}

/// The value at `path` of `item`, or null where there is none.
pub open spec fn copied_value(item: JsonView, path: Seq<Seq<char>>, value: JsonView) -> bool {
    match at_path(item, path) {
        Some(v) => value == v,
        None => value == JsonView::Null,
    }
}

/// A snapshot entry copies its item: the ID is the item's `id` string, each
/// attribute is the item's attribute of the same name (null when it is
/// missing), and the name aliases are the item's aliases, each as often as
/// there, in `str` order.
pub proof fn lemma_permission_copies_its_item(item: JsonView)
    ensures
        normalized_permission(item) matches Ok(p) ==> {
            &&& at_path(item, seq!["id"@]) == Some(JsonView::String(p.id))
            &&& copied_value(item, seq!["attributes"@, "name"@], p.name)
            &&& copied_value(item, seq!["attributes"@, "display_name"@], p.display_name)
            &&& copied_value(item, seq!["attributes"@, "description"@], p.description)
            &&& copied_value(item, seq!["attributes"@, "group_name"@], p.group_name)
            &&& copied_value(item, seq!["attributes"@, "restricted"@], p.restricted)
            &&& forall|i: int, j: int|
                0 <= i < j < p.name_aliases.len() ==> !text_lt(
                    #[trigger] p.name_aliases[j],
                    #[trigger] p.name_aliases[i],
                )
            &&& optional_string_array(at_path(item, seq!["attributes"@, "name_aliases"@])) matches Ok(
                aliases,
            ) && p.name_aliases.to_multiset() == aliases.to_multiset()
        },
{
    if let Ok(aliases) = optional_string_array(at_path(item, attribute_path("name_aliases"@))) {
        lemma_sort_by_key_sorted(aliases, text_key());
        lemma_sort_by_key_permutes(aliases, text_key());
    }
}

/// Turns one permission item of the `current_user` response into a
/// snapshot entry.
pub fn normalize_permission(item: &Json) -> (r: Result<Permission, PermissionsError>)
    ensures
        match r {
            Ok(p) => normalized_permission(item@) == Ok::<PermissionView, PermissionsError>(p@),
            Err(e) => normalized_permission(item@) == Err::<PermissionView, PermissionsError>(e),
        },
{
    let aliases_path: &[&str] = &["attributes", "name_aliases"];
    assert(path_view(aliases_path@) =~= attribute_path("name_aliases"@));
    let name_aliases = match optional_string_array_at(item, aliases_path) {
        Ok(v) => sort_strings(&v),
        Err(e) => {
            return Err(PermissionsError::InvalidNameAliases(e));
        },
    };
    let id_path: &[&str] = &["id"];
    assert(path_view(id_path@) =~= seq!["id"@]);
    let id = match string_at(item, id_path) {
        Some(id) => id,
        None => {
            return Err(PermissionsError::MissingId);
        },
    };
    let name_path: &[&str] = &["attributes", "name"];
    let display_name_path: &[&str] = &["attributes", "display_name"];
    let description_path: &[&str] = &["attributes", "description"];
    let group_name_path: &[&str] = &["attributes", "group_name"];
    let restricted_path: &[&str] = &["attributes", "restricted"];
    assert(path_view(name_path@) =~= attribute_path("name"@));
    assert(path_view(display_name_path@) =~= attribute_path("display_name"@));
    assert(path_view(description_path@) =~= attribute_path("description"@));
    assert(path_view(group_name_path@) =~= attribute_path("group_name"@));
    assert(path_view(restricted_path@) =~= attribute_path("restricted"@));
    Ok(
        Permission {
            id,
            name: value_at(item, name_path),
            display_name: value_at(item, display_name_path),
            description: value_at(item, description_path),
            group_name: value_at(item, group_name_path),
            name_aliases,
            restricted: value_at(item, restricted_path),
        },
    )
}

/// Orders permissions by ID.
pub open spec fn id_key() -> spec_fn(PermissionView) -> Seq<char> {
    |p: PermissionView| p.id
}

/// The values of a sequence of permissions.
pub open spec fn views(s: Seq<Permission>) -> Seq<PermissionView> {
    s.map_values(|p: Permission| p@)
}

/// Sorts permissions by ID, keeping permissions with equal IDs in order.
pub fn sort_permissions(v: Vec<Permission>) -> (r: Vec<Permission>)
    ensures
        views(r@) == sort_by_key(views(v@), id_key()),
{
    let ghost input = views(v@);
    let ghost mut done: int = 0;
    let mut rest = v;
    let mut out: Vec<Permission> = Vec::new();
    assert(input.take(0) =~= Seq::<PermissionView>::empty());
    assert(input.skip(0) =~= input);
    while rest.len() > 0
        invariant
            0 <= done <= input.len(),
            views(rest@) == input.skip(done),
            views(out@) == sort_by_key(input.take(done), id_key()),
        decreases rest.len(),
    {
        let ghost rest_before = rest@;
        let x = rest.remove(0);
        assert(views(rest@) =~= views(rest_before).drop_first());
        assert(x@ == input[done]) by {
            assert(views(rest_before)[0] == x@);
        }
        let mut p: usize = 0;
        while p < out.len() && !text_less(x.id.as_str(), out[p].id.as_str())
            invariant
                p <= out.len(),
                forall|j: int| 0 <= j < p ==> !text_lt(x.id@, (#[trigger] views(out@)[j]).id),
            decreases out.len() - p,
        {
            p = p + 1;
        }
        proof {
            let key = id_key();
            assert(input.take(done + 1).drop_last() =~= input.take(done));
            assert(input.take(done + 1).last() == x@);
            assert forall|j: int| 0 <= j < p implies !text_lt(
                key(x@),
                key(#[trigger] views(out@)[j]),
            ) by {}
            lemma_insert_point_unique(views(out@), x@, key, p as int);
            assert(input.skip(done).drop_first() =~= input.skip(done + 1));
        }
        let ghost out_before = out@;
        out.insert(p, x);
        assert(views(out@) =~= views(out_before).insert(p as int, x@));
        proof {
            done = done + 1;
        }
    }
    assert(input.take(done) =~= input);
    out
}

/// Whether an item of the response is a permission (`"type": "permissions"`).
pub open spec fn is_permission_item(item: JsonView) -> bool {
    text_of(member(item, "type"@)) == Some("permissions"@)
}

/// The snapshot entries of the permission items, in the order of the
/// response; the first item that cannot be normalized gives the error.
pub open spec fn normalized_items(items: Seq<JsonView>) -> Result<
    Seq<PermissionView>,
    PermissionsError,
>
    decreases items.len(),
{
    if items.len() == 0 {
        Ok(Seq::empty())
    } else {
        match normalized_items(items.drop_last()) {
            Err(e) => Err(e),
            Ok(ps) => if is_permission_item(items.last()) {
                match normalized_permission(items.last()) {
                    Ok(p) => Ok(ps.push(p)),
                    Err(e) => Err(e),
                }
            } else {
                Ok(ps)
            },
        }
    }
}

/// The snapshot of a `current_user` response: its permission items,
/// normalized and sorted by ID.
pub open spec fn normalized_snapshot(response: JsonView) -> Result<
    Seq<PermissionView>,
    PermissionsError,
> {
    match member(response, "included"@) {
        Some(JsonView::Array(items)) => match normalized_items(items) {
            Err(e) => Err(e),
            Ok(ps) => if ps.len() == 0 {
                Err(PermissionsError::NoPermissions)
            } else {
                Ok(sort_by_key(ps, id_key()))
            },
        },
        _ => Err(PermissionsError::NoIncludedPermissions),
    }
}

/// The permissions of the service account, sorted by ID.
#[derive(Debug)]
pub struct PermissionsSnapshot {
    pub permissions: Vec<Permission>,
}

impl View for PermissionsSnapshot {
    type V = Seq<PermissionView>;

    open spec fn view(&self) -> Seq<PermissionView> {
        views(self.permissions@)
    }
}

/// Whether an item of the response is a permission.
pub fn is_permission(item: &Json) -> (r: bool)
    ensures
        r == is_permission_item(item@),
{
    match item.get("type") {
        Some(Json::String(t)) => same_text(t.as_str(), "permissions"),
        _ => false,
    }
}

/// Builds the permissions snapshot from the `current_user` response.
pub fn normalize(response: &Json) -> (r: Result<PermissionsSnapshot, PermissionsError>)
    ensures
        match r {
            Ok(s) => normalized_snapshot(response@) == Ok::<
                Seq<PermissionView>,
                PermissionsError,
            >(s@),
            Err(e) => normalized_snapshot(response@) == Err::<Seq<PermissionView>, PermissionsError>(
                e,
            ),
        },
{
    let included = match response.get("included") {
        Some(Json::Array(items)) => items,
        _ => {
            return Err(PermissionsError::NoIncludedPermissions);
        },
    };
    let ghost items = match member(response@, "included"@) {
        Some(JsonView::Array(a)) => a,
        _ => Seq::empty(),
    };
    assert(items.len() == included.len());
    assert(forall|k: int| 0 <= k < included.len() ==> #[trigger] items[k] == included@[k]@);
    let mut permissions: Vec<Permission> = Vec::new();
    let mut i: usize = 0;
    assert(items.take(0) =~= Seq::<JsonView>::empty());
    assert(views(permissions@) =~= Seq::<PermissionView>::empty());
    while i < included.len()
        invariant
            i <= included.len() == items.len(),
            member(response@, "included"@) == Some(JsonView::Array(items)),
            forall|k: int| 0 <= k < included.len() ==> #[trigger] items[k] == included@[k]@,
            normalized_items(items.take(i as int)) == Ok::<
                Seq<PermissionView>,
                PermissionsError,
            >(views(permissions@)),
        decreases included.len() - i,
    {
        let item = &included[i];
        assert(items[i as int] == item@);
        assert(items.take(i + 1).drop_last() =~= items.take(i as int));
        assert(items.take(i + 1).last() == item@);
        if is_permission(item) {
            match normalize_permission(item) {
                Ok(p) => {
                    let ghost before = permissions@;
                    permissions.push(p);
                    assert(views(permissions@) =~= views(before).push(p@));
                },
                Err(e) => {
                    proof {
                        lemma_normalized_items_error_stays(items, i as int + 1);
                    }
                    return Err(e);
                },
            }
        }
        i = i + 1;
    }
    assert(items.take(included.len() as int) =~= items);
    let ghost unsorted = views(permissions@);
    let permissions = sort_permissions(permissions);
    proof {
        lemma_sort_by_key_len(unsorted, id_key());
    }
    if permissions.len() == 0 {
        return Err(PermissionsError::NoPermissions);
    }
    Ok(PermissionsSnapshot { permissions })
}

/// Once a prefix of the items fails, every longer prefix fails the same way.
proof fn lemma_normalized_items_error_stays(items: Seq<JsonView>, n: int)
    requires
        0 <= n <= items.len(),
        normalized_items(items.take(n)) is Err,
    ensures
        normalized_items(items) == normalized_items(items.take(n)),
    decreases items.len() - n,
{
    if n < items.len() {
        assert(items.take(n + 1).drop_last() =~= items.take(n));
        lemma_normalized_items_error_stays(items, n + 1);
    } else {
        assert(items.take(n) =~= items);
    }
}

/// A text as a JSON string.
pub open spec fn string_json() -> spec_fn(Seq<char>) -> JsonView {
    |a: Seq<char>| JsonView::String(a)
}

/// A permission as the snapshot writes it.
pub open spec fn permission_json_of() -> spec_fn(PermissionView) -> JsonView {
    |p: PermissionView| permission_json(p)
}

/// How a permission is written in the snapshot file: its members in this
/// order, the name aliases as an array of strings.
pub open spec fn permission_json(p: PermissionView) -> JsonView {
    JsonView::Object(
        seq![
            ("id"@, JsonView::String(p.id)),
            ("name"@, p.name),
            ("display_name"@, p.display_name),
            ("description"@, p.description),
            ("group_name"@, p.group_name),
            ("name_aliases"@, JsonView::Array(p.name_aliases.map_values(string_json()))),
            ("restricted"@, p.restricted),
        ],
    )
}

/// How the snapshot is written: an object whose only member,
/// `permissions`, is the array of permissions.
pub open spec fn snapshot_json(ps: Seq<PermissionView>) -> JsonView {
    JsonView::Object(
        seq![("permissions"@, JsonView::Array(ps.map_values(permission_json_of())))],
    )
}

impl Permission {
    /// The permission as a JSON object.
    pub fn to_json(&self) -> (r: Json)
        ensures
            r@ == permission_json(self@),
    {
        let mut aliases: Vec<Json> = Vec::new();
        let mut i: usize = 0;
        while i < self.name_aliases.len()
            invariant
                i <= self.name_aliases.len(),
                aliases.len() == i,
                forall|k: int|
                    0 <= k < i ==> (#[trigger] aliases@[k])@ == JsonView::String(
                        self.name_aliases@[k]@,
                    ),
            decreases self.name_aliases.len() - i,
        {
            aliases.push(Json::String(self.name_aliases[i].clone()));
            i = i + 1;
        }
        let aliases = Json::Array(aliases);
        assert(aliases@ == JsonView::Array(
            self@.name_aliases.map_values(string_json()),
        )) by {
            if let JsonView::Array(a) = aliases@ {
                assert(a =~= self@.name_aliases.map_values(string_json()));
            }
        }
        let mut members: Vec<(String, Json)> = Vec::new();
        members.push((String::from_str("id"), Json::String(self.id.clone())));
        members.push((String::from_str("name"), self.name.deep_copy()));
        members.push((String::from_str("display_name"), self.display_name.deep_copy()));
        members.push((String::from_str("description"), self.description.deep_copy()));
        members.push((String::from_str("group_name"), self.group_name.deep_copy()));
        members.push((String::from_str("name_aliases"), aliases));
        members.push((String::from_str("restricted"), self.restricted.deep_copy()));
        assert(members@[0].0@ == "id"@);
        assert(members@[0].1@ == JsonView::String(self.id@));
        let r = Json::Object(members);
        assert(r@ == permission_json(self@)) by {
            if let JsonView::Object(m) = r@ {
                if let JsonView::Object(n) = permission_json(self@) {
                    assert(m =~= n);
                }
            }
        }
        r
    }
}

impl PermissionsSnapshot {
    /// The snapshot as a JSON document.
    pub fn to_json(&self) -> (r: Json)
        ensures
            r@ == snapshot_json(self@),
    {
        let mut items: Vec<Json> = Vec::new();
        let mut i: usize = 0;
        while i < self.permissions.len()
            invariant
                i <= self.permissions.len(),
                items.len() == i,
                forall|k: int|
                    0 <= k < i ==> (#[trigger] items@[k])@ == permission_json(
                        self.permissions@[k]@,
                    ),
            decreases self.permissions.len() - i,
        {
            items.push(self.permissions[i].to_json());
            i = i + 1;
        }
        let items = Json::Array(items);
        assert(items@ == JsonView::Array(
            self@.map_values(permission_json_of()),
        )) by {
            if let JsonView::Array(a) = items@ {
                assert(a =~= self@.map_values(permission_json_of()));
            }
        }
        let mut members: Vec<(String, Json)> = Vec::new();
        members.push((String::from_str("permissions"), items));
        let r = Json::Object(members);
        assert(r@ == snapshot_json(self@)) by {
            if let JsonView::Object(m) = r@ {
                if let JsonView::Object(n) = snapshot_json(self@) {
                    assert(m =~= n);
                }
            }
        }
        r
    }
}

proof fn lemma_normalized_items_aliases_sorted(items: Seq<JsonView>)
    ensures
        normalized_items(items) matches Ok(ps) ==> forall|i: int|
            0 <= i < ps.len() ==> sorted_by_key(#[trigger] ps[i].name_aliases, text_key()),
    decreases items.len(),
{
    if items.len() > 0 {
        lemma_normalized_items_aliases_sorted(items.drop_last());
        if let Ok(p) = normalized_permission(items.last()) {
            if let Some(id) = text_of(at_path(items.last(), seq!["id"@])) {
                if let Ok(aliases) = optional_string_array(
                    at_path(items.last(), attribute_path("name_aliases"@)),
                ) {
                    lemma_sort_by_key_sorted(aliases, text_key());
                }
            }
        }
    }
}

/// The snapshot is what the documentation file records: a non-empty list
/// of permissions sorted by ID, each with its name aliases sorted. Sorting is
/// stable: the permissions with one ID keep the order of the response, and
/// no permission is added or lost.
pub proof fn lemma_snapshot_is_sorted(response: JsonView)
    ensures
        normalized_snapshot(response) matches Ok(ps) ==> {
            &&& ps.len() > 0
            &&& sorted_by_key(ps, id_key())
            &&& forall|i: int, j: int|
                0 <= i < j < ps.len() ==> !text_lt((#[trigger] ps[j]).id, (#[trigger] ps[i]).id)
            &&& forall|i: int|
                0 <= i < ps.len() ==> sorted_by_key(#[trigger] ps[i].name_aliases, text_key())
            &&& member(response, "included"@) matches Some(JsonView::Array(items))
            &&& normalized_items(items) matches Ok(unsorted)
            &&& ps.to_multiset() == unsorted.to_multiset()
            &&& forall|k: Seq<char>|
                #[trigger] with_key(ps, id_key(), k) == with_key(unsorted, id_key(), k)
        },
{
    if let Some(JsonView::Array(items)) = member(response, "included"@) {
        if let Ok(unsorted) = normalized_items(items) {
            if unsorted.len() > 0 {
                let ps = sort_by_key(unsorted, id_key());
                lemma_sort_by_key_sorted(unsorted, id_key());
                lemma_sort_by_key_permutes(unsorted, id_key());
                lemma_sort_by_key_len(unsorted, id_key());
                lemma_normalized_items_aliases_sorted(items);
                assert forall|k: Seq<char>|
                    #[trigger] with_key(ps, id_key(), k) == with_key(unsorted, id_key(), k) by {
                    lemma_sort_by_key_stable(unsorted, id_key(), k);
                }
                assert forall|i: int| 0 <= i < ps.len() implies sorted_by_key(
                    #[trigger] ps[i].name_aliases,
                    text_key(),
                ) by {
                    broadcast use vstd::seq_lib::group_to_multiset_ensures;

                    assert(ps.contains(ps[i]));
                    assert(ps.to_multiset().count(ps[i]) > 0);
                    assert(unsorted.contains(ps[i]));
                    let j = choose|j: int| 0 <= j < unsorted.len() && unsorted[j] == ps[i];
                    assert(sorted_by_key(unsorted[j].name_aliases, text_key()));
                }
            }
        }
    }
}

/// What one item of the response adds to the snapshot: its normalized
/// permission, or nothing for an item that is not a permission or that
/// cannot be normalized.
pub open spec fn permission_entry(item: JsonView) -> Multiset<PermissionView> {
    if is_permission_item(item) {
        match normalized_permission(item) {
            Ok(p) => Multiset::singleton(p),
            Err(_) => Multiset::empty(),
        }
    } else {
        Multiset::empty()
    }
}

/// What the items of the response add to the snapshot, counted as a
/// multiset.
pub open spec fn permission_entries(items: Seq<JsonView>) -> Multiset<PermissionView>
    decreases items.len(),
{
    if items.len() == 0 {
        Multiset::empty()
    } else {
        permission_entries(items.drop_last()).add(permission_entry(items.last()))
    }
}

/// Every permission item of the response can be normalized.
pub open spec fn all_permissions_normalize(items: Seq<JsonView>) -> bool {
    forall|i: int|
        0 <= i < items.len() && is_permission_item(#[trigger] items[i]) ==> normalized_permission(
            items[i],
        ) is Ok
}

/// The items normalize exactly when each permission item does, and then
/// give the entries of the items.
proof fn lemma_normalized_items_entries(items: Seq<JsonView>)
    ensures
        normalized_items(items) is Ok <==> all_permissions_normalize(items),
        normalized_items(items) matches Ok(ps) ==> ps.to_multiset() == permission_entries(items),
    decreases items.len(),
{
    broadcast use vstd::seq_lib::group_to_multiset_ensures;
    broadcast use vstd::multiset::group_multiset_axioms;

    if items.len() == 0 {
        assert(Seq::<PermissionView>::empty().to_multiset() =~= Multiset::empty());
    } else {
        let rest = items.drop_last();
        let last = items.last();
        lemma_normalized_items_entries(rest);
        assert(all_permissions_normalize(items) <==> (all_permissions_normalize(rest) && (
        is_permission_item(last) ==> normalized_permission(last) is Ok))) by {
            if all_permissions_normalize(items) {
                assert forall|i: int|
                    0 <= i < rest.len() && is_permission_item(#[trigger] rest[i]) implies normalized_permission(
                    rest[i],
                ) is Ok by {
                    assert(rest[i] == items[i]);
                }
                assert(items[items.len() - 1] == last);
            }
            if all_permissions_normalize(rest) && (is_permission_item(last)
                ==> normalized_permission(last) is Ok) {
                assert forall|i: int|
                    0 <= i < items.len() && is_permission_item(#[trigger] items[i]) implies normalized_permission(
                    items[i],
                ) is Ok by {
                    if i < rest.len() {
                        assert(rest[i] == items[i]);
                    }
                }
            }
        }
        if let Ok(ps) = normalized_items(items) {
            if let Ok(ps0) = normalized_items(rest) {
                if is_permission_item(last) {
                    if let Ok(p) = normalized_permission(last) {
                        assert(ps == ps0.push(p));
                        assert(ps.to_multiset() =~= permission_entries(items));
                    }
                } else {
                    assert(ps.to_multiset() =~= permission_entries(items));
                }
            }
        }
    }
}

/// Taking one item out of the response takes out what it adds.
proof fn lemma_permission_entries_remove(items: Seq<JsonView>, j: int)
    requires
        0 <= j < items.len(),
    ensures
        permission_entries(items) == permission_entries(items.remove(j)).add(
            permission_entry(items[j]),
        ),
    decreases items.len(),
{
    broadcast use vstd::multiset::group_multiset_axioms;

    let rest = items.drop_last();
    if j == items.len() - 1 {
        assert(items.remove(j) =~= rest);
    } else {
        lemma_permission_entries_remove(rest, j);
        assert(items.remove(j).drop_last() =~= rest.remove(j));
        assert(items.remove(j).last() == items.last());
        assert(rest[j] == items[j]);
        assert(permission_entries(items) =~= permission_entries(items.remove(j)).add(
            permission_entry(items[j]),
        ));
    }
}

/// Items listed in another order add the same entries.
proof fn lemma_permission_entries_permuted(a: Seq<JsonView>, b: Seq<JsonView>)
    requires
        a.to_multiset() == b.to_multiset(),
    ensures
        permission_entries(a) == permission_entries(b),
    decreases a.len(),
{
    broadcast use vstd::seq_lib::group_to_multiset_ensures;
    broadcast use vstd::multiset::group_multiset_axioms;

    assert(a.to_multiset().len() == a.len());
    assert(b.to_multiset().len() == b.len());
    if a.len() == 0 {
        assert(b =~= a);
    } else {
        let x = a.last();
        let a0 = a.drop_last();
        assert(a =~= a0.push(x));
        assert(a[a.len() - 1] == x);
        assert(a.contains(x));
        assert(b.to_multiset().count(x) > 0);
        let j = choose|j: int| 0 <= j < b.len() && b[j] == x;
        let b0 = b.remove(j);
        assert(b0.to_multiset() == b.to_multiset().remove(x));
        assert(a0.to_multiset() =~= b0.to_multiset()) by {
            assert forall|v: JsonView| #[trigger] a0.to_multiset().count(v) == b0.to_multiset().count(
                v,
            ) by {
                assert(a.to_multiset() == a0.to_multiset().insert(x));
            }
        }
        lemma_permission_entries_permuted(a0, b0);
        lemma_permission_entries_remove(b, j);
    }
}

/// The snapshot does not depend on the order in which Datadog lists the
/// included items: two responses whose `included` arrays hold the same
/// items, in any order, give the same snapshot, as long as the snapshot of
/// the first has no permission ID twice. (With an ID twice, the permissions
/// that share it keep the order of the response.)
pub proof fn lemma_snapshot_ignores_item_order(
    first: JsonView,
    second: JsonView,
    first_items: Seq<JsonView>,
    second_items: Seq<JsonView>,
)
    requires
        member(first, "included"@) == Some(JsonView::Array(first_items)),
        member(second, "included"@) == Some(JsonView::Array(second_items)),
        first_items.to_multiset() == second_items.to_multiset(),
        normalized_snapshot(first) matches Ok(ps) && forall|i: int, j: int|
            0 <= i < j < ps.len() ==> (#[trigger] ps[i]).id != (#[trigger] ps[j]).id,
    ensures
        normalized_snapshot(second) == normalized_snapshot(first),
{
    broadcast use vstd::seq_lib::group_to_multiset_ensures;

    lemma_normalized_items_entries(first_items);
    lemma_normalized_items_entries(second_items);
    lemma_permission_entries_permuted(first_items, second_items);
    assert(all_permissions_normalize(second_items)) by {
        assert forall|i: int|
            0 <= i < second_items.len() && is_permission_item(
                #[trigger] second_items[i],
            ) implies normalized_permission(second_items[i]) is Ok by {
            assert(second_items.contains(second_items[i]));
            assert(first_items.to_multiset().count(second_items[i]) > 0);
            let k = choose|k: int| 0 <= k < first_items.len() && first_items[k] == second_items[i];
        }
    }
    let unsorted1 = normalized_items(first_items)->Ok_0;
    let unsorted2 = normalized_items(second_items)->Ok_0;
    assert(unsorted2.len() == unsorted1.len()) by {
        assert(unsorted1.to_multiset().len() == unsorted1.len());
        assert(unsorted2.to_multiset().len() == unsorted2.len());
    }
    let sorted1 = sort_by_key(unsorted1, id_key());
    let sorted2 = sort_by_key(unsorted2, id_key());
    lemma_sort_by_key_sorted(unsorted1, id_key());
    lemma_sort_by_key_sorted(unsorted2, id_key());
    lemma_sort_by_key_permutes(unsorted1, id_key());
    lemma_sort_by_key_permutes(unsorted2, id_key());
    let ps = normalized_snapshot(first)->Ok_0;
    assert(ps == sorted1);
    assert forall|i: int, j: int| 0 <= i < j < sorted1.len() implies id_key()(
        #[trigger] sorted1[i],
    ) != id_key()(#[trigger] sorted1[j]) by {
        assert(ps[i].id != ps[j].id);
    }
    lemma_sorted_unique(sorted1, sorted2, id_key());
}

impl StringArrayError {
    /// The text that describes the error for the value at `pointer`.
    pub open spec fn describe(self, pointer: Seq<char>) -> Seq<char> {
        match self {
            StringArrayError::NotAnArray => "expected an array at "@ + pointer,
            StringArrayError::NotAString => "expected a string in "@ + pointer,
        }
    }

    /// The text that describes the error for the value at `pointer`.
    pub fn message(&self, pointer: &str) -> (r: String)
        ensures
            r@ == self.describe(pointer@),
    {
        let mut m = match self {
            StringArrayError::NotAnArray => String::from_str("expected an array at "),
            StringArrayError::NotAString => String::from_str("expected a string in "),
        };
        m.append(pointer);
        m
    }
}

impl PermissionsError {
    /// The text that describes the error.
    pub open spec fn describe(self) -> Seq<char> {
        match self {
            PermissionsError::NoIncludedPermissions => "current_user did not return included permissions"@,
            PermissionsError::InvalidNameAliases(_) => "a Datadog permission returned invalid name aliases"@,
            PermissionsError::MissingId => "a Datadog permission has no ID"@,
            PermissionsError::NoPermissions => "current_user did not return any permissions"@,
        }
    }

    /// The text that describes the error.
    pub fn message(&self) -> (r: String)
        ensures
            r@ == self.describe(),
    {
        match self {
            PermissionsError::NoIncludedPermissions => String::from_str(
                "current_user did not return included permissions",
            ),
            PermissionsError::InvalidNameAliases(_) => String::from_str(
                "a Datadog permission returned invalid name aliases",
            ),
            PermissionsError::MissingId => String::from_str("a Datadog permission has no ID"),
            PermissionsError::NoPermissions => String::from_str(
                "current_user did not return any permissions",
            ),
        }
    }

    /// The text of the error that caused this one, if any.
    pub fn cause(&self) -> (r: Option<String>)
        ensures
            match self {
                PermissionsError::InvalidNameAliases(e) => r matches Some(m) && m@ == e.describe(
                    "/attributes/name_aliases"@,
                ),
                _ => r is None,
            },
    {
        match self {
            PermissionsError::InvalidNameAliases(e) => Some(e.message("/attributes/name_aliases")),
            _ => None,
        }
    }
}

} // verus!

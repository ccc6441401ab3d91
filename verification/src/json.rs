//! JSON documents as plain values.

use vstd::prelude::*;

verus! {

broadcast use vstd::std_specs::vec::group_vec_axioms;

/// A JSON document. Numbers are kept as the text that writes them; object
/// members keep their order.
#[derive(Debug)]
pub enum Json {
    Null,
    Bool(bool),
    Number(String),
    String(String),
    Array(Vec<Json>),
    Object(Vec<(String, Json)>),
}

/// The mathematical value of a JSON document.
pub enum JsonView {
    Null,
    Bool(bool),
    Number(Seq<char>),
    String(Seq<char>),
    Array(Seq<JsonView>),
    Object(Seq<(Seq<char>, JsonView)>),
}

/// The value of a JSON document.
pub open spec fn json_view(j: Json) -> JsonView
    decreases j,
{
    match j {
        Json::Null => JsonView::Null,
        Json::Bool(b) => JsonView::Bool(b),
        Json::Number(n) => JsonView::Number(n@),
        Json::String(s) => JsonView::String(s@),
        Json::Array(v) => JsonView::Array(
            Seq::new(
                v.len() as nat,
                |i: int|
                    if 0 <= i < v.len() {
                        json_view(v@[i])
                    } else {
                        JsonView::Null
                    },
            ),
        ),
        Json::Object(v) => JsonView::Object(
            Seq::new(
                v.len() as nat,
                |i: int|
                    if 0 <= i < v.len() {
                        (v@[i].0@, json_view(v@[i].1))
                    } else {
                        (Seq::empty(), JsonView::Null)
                    },
            ),
        ),
    }
}

impl View for Json {
    type V = JsonView;

    open spec fn view(&self) -> JsonView {
        json_view(*self)
    }
}

/// The value of the first member named `key`.
pub open spec fn field(members: Seq<(Seq<char>, JsonView)>, key: Seq<char>) -> Option<JsonView>
    decreases members.len(),
{
    if members.len() == 0 {
        None
    } else if members[0].0 == key {
        Some(members[0].1)
    } else {
        field(members.drop_first(), key)
    }
}

/// The member `key` of an object; nothing for any other value.
pub open spec fn member(v: JsonView, key: Seq<char>) -> Option<JsonView> {
    match v {
        JsonView::Object(members) => field(members, key),
        _ => None,
    }
}

/// The value reached from `v` by following the object members named in
/// `path`, in order.
pub open spec fn at_path(v: JsonView, path: Seq<Seq<char>>) -> Option<JsonView>
    decreases path.len(),
{
    if path.len() == 0 {
        Some(v)
    } else {
        match member(v, path[0]) {
            Some(child) => at_path(child, path.drop_first()),
            None => None,
        }
    }
}

/// A path of member names as text.
pub open spec fn path_view<'a>(path: Seq<&'a str>) -> Seq<Seq<char>> {
    path.map_values(|k: &'a str| k@)
}

impl Json {
    /// An independent copy of the document.
    #[verifier::loop_isolation(false)]
    pub fn deep_copy(&self) -> (r: Json)
        ensures
            r@ == self@,
        decreases self,
    {
        match self {
            Json::Null => Json::Null,
            Json::Bool(b) => Json::Bool(*b),
            Json::Number(n) => Json::Number(n.clone()),
            Json::String(s) => Json::String(s.clone()),
            Json::Array(v) => {
                let mut out: Vec<Json> = Vec::new();
                let mut i: usize = 0;
                while i < v.len()
                    invariant
                        i <= v.len(),
                        out.len() == i,
                        forall|k: int| 0 <= k < i ==> (#[trigger] out@[k])@ == v@[k]@,
                    decreases v.len() - i,
                {
                    proof {
                        assert(*v == (*self)->Array_0);
                        assert(decreases_to!(*self => (*self)->Array_0));
                        assert(decreases_to!(*v => v[i as int]));
                    }
                    let c = v[i].deep_copy();
                    out.push(c);
                    i = i + 1;
                }
                let r = Json::Array(out);
                assert(r@ == self@) by {
                    if let JsonView::Array(a) = r@ {
                        if let JsonView::Array(b) = self@ {
                            assert(a =~= b);
                        }
                    }
                }
                r
            },
            Json::Object(v) => {
                let mut out: Vec<(String, Json)> = Vec::new();
                let mut i: usize = 0;
                while i < v.len()
                    invariant
                        i <= v.len(),
                        out.len() == i,
                        forall|k: int|
                            0 <= k < i ==> (#[trigger] out@[k]).0@ == v@[k].0@ && out@[k].1@
                                == v@[k].1@,
                    decreases v.len() - i,
                {
                    proof {
                        assert(*v == (*self)->Object_0);
                        assert(decreases_to!(*self => (*self)->Object_0));
                        assert(decreases_to!(*v => v[i as int]));
                        assert(decreases_to!(v[i as int] => v[i as int].1));
                    }
                    let c = v[i].1.deep_copy();
                    out.push((v[i].0.clone(), c));
                    i = i + 1;
                }
                let r = Json::Object(out);
                assert(r@ == self@) by {
                    if let JsonView::Object(a) = r@ {
                        if let JsonView::Object(b) = self@ {
                            assert(a =~= b);
                        }
                    }
                }
                r
            },
        }
    }

    /// The member `key` of an object (`Value::get` with a string key).
    pub fn get<'a>(&'a self, key: &str) -> (r: Option<&'a Json>)
        ensures
            match r {
                Some(x) => member(self@, key@) == Some(x@),
                None => member(self@, key@) is None,
            },
    {
        match self {
            Json::Object(members) => {
                let ghost fields = match self@ {
                    JsonView::Object(f) => f,
                    _ => Seq::empty(),
                };
                assert(fields.len() == members.len());
                assert(member(self@, key@) == field(fields, key@));
                let wanted = key.to_owned();
                let mut i: usize = 0;
                assert(fields.skip(0) =~= fields);
                while i < members.len()
                    invariant
                        i <= members.len() == fields.len(),
                        wanted@ == key@,
                        forall|k: int|
                            0 <= k < fields.len() ==> #[trigger] fields[k] == (
                                members@[k].0@,
                                members@[k].1@,
                            ),
                        member(self@, key@) == field(fields, key@),
                        field(fields, key@) == field(fields.skip(i as int), key@),
                    decreases members.len() - i,
                {
                    assert(fields.skip(i as int)[0] == fields[i as int]);
                    assert(fields[i as int] == (members@[i as int].0@, members@[i as int].1@));
                    if members[i].0 == wanted {
                        return Some(&members[i].1);
                    }
                    assert(fields.skip(i as int).drop_first() =~= fields.skip(i + 1));
                    i = i + 1;
                }
                None
            },
            _ => None,
        }
    }

    /// The value reached by following the object members named in `path`.
    pub fn lookup<'a>(&'a self, path: &[&str]) -> (r: Option<&'a Json>)
        ensures
            match r {
                Some(x) => at_path(self@, path_view(path@)) == Some(x@),
                None => at_path(self@, path_view(path@)) is None,
            },
    {
        let ghost p = path_view(path@);
        let mut current: &Json = self;
        let mut i: usize = 0;
        assert(p.skip(0) =~= p);
        while i < path.len()
            invariant
                p == path_view(path@),
                i <= path.len(),
                at_path(self@, p) == at_path(current@, p.skip(i as int)),
            decreases path.len() - i,
        {
            assert(p.skip(i as int)[0] == path@[i as int]@);
            assert(p.skip(i as int).drop_first() =~= p.skip(i + 1));
            match current.get(path[i]) {
                Some(child) => {
                    current = child;
                },
                None => {
                    return None;
                },
            }
            i = i + 1;
        }
        assert(p.skip(path.len() as int) =~= Seq::<Seq<char>>::empty());
        Some(current)
    }
}

} // verus!

//! JSON values, as far as the cluster looks into them, and how a patch changes one.

use vstd::prelude::*;

use crate::text::str_eq;

verus! {

/// A JSON value. Keys of an object occur once.
#[derive(Debug)]
pub enum Json {
    Null,
    Bool(bool),
    /// A whole number that is not negative.
    Number(u64),
    Text(String),
    /// Any other value, as it is written: negative numbers, fractions and arrays.
    Raw(String),
    Object(Vec<(String, Json)>),
}

/// What a JSON value means.
pub ghost enum JsonView {
    Null,
    Bool(bool),
    Number(u64),
    Text(Seq<char>),
    Raw(Seq<char>),
    Object(Map<Seq<char>, JsonView>),
}

impl View for Json {
    type V = JsonView;

    open spec fn view(&self) -> JsonView {
        json_view(*self)
    }
}

/// What a JSON value means.
pub open spec fn json_view(j: Json) -> JsonView
    decreases j,
{
    match j {
        Json::Null => JsonView::Null,
        Json::Bool(b) => JsonView::Bool(b),
        Json::Number(n) => JsonView::Number(n),
        Json::Text(s) => JsonView::Text(s@),
        Json::Raw(s) => JsonView::Raw(s@),
        Json::Object(fields) => JsonView::Object(fields_view(fields@)),
    }
}

/// The map that the fields of an object stand for.
pub open spec fn fields_view(fields: Seq<(String, Json)>) -> Map<Seq<char>, JsonView>
    decreases fields,
{
    if fields.len() == 0 {
        Map::empty()
    } else {
        fields_view(fields.drop_last()).insert(
            fields[fields.len() - 1].0@,
            json_view(fields[fields.len() - 1].1),
        )
    }
}

/// The field at `j` is the last one with its key.
pub open spec fn is_last(fields: Seq<(String, Json)>, j: int) -> bool {
    0 <= j < fields.len() && forall|i: int|
        j < i < fields.len() ==> (#[trigger] fields[i]).0@ != fields[j].0@
}

/// An object holds, under each key, the last field with that key.
pub proof fn lemma_fields_view(fields: Seq<(String, Json)>)
    ensures
        forall|j: int| #[trigger]
            is_last(fields, j) ==> fields_view(fields).dom().contains(fields[j].0@) && fields_view(
                fields,
            )[fields[j].0@] == json_view(fields[j].1),
        forall|k: Seq<char>| #[trigger]
            fields_view(fields).dom().contains(k) ==> exists|j: int|
                #[trigger] is_last(fields, j) && fields[j].0@ == k,
        fields_view(fields).dom().finite(),
    decreases fields.len(),
{
    if fields.len() > 0 {
        let init = fields.drop_last();
        let n = fields.len() - 1;
        lemma_fields_view(init);
        assert forall|j: int| #[trigger] is_last(fields, j) implies fields_view(
            fields,
        ).dom().contains(fields[j].0@) && fields_view(fields)[fields[j].0@] == json_view(
            fields[j].1,
        ) by {
            if j < n {
                assert(fields[n].0@ != fields[j].0@);
                assert(is_last(init, j)) by {
                    assert forall|i: int| j < i < init.len() implies (
                    #[trigger] init[i]).0@ != init[j].0@ by {
                        assert(fields[i].0@ != fields[j].0@);
                    }
                }
            }
        }
        assert forall|k: Seq<char>| #[trigger] fields_view(fields).dom().contains(
            k,
        ) implies exists|j: int| #[trigger] is_last(fields, j) && fields[j].0@ == k by {
            if k == fields[n].0@ {
                assert(is_last(fields, n));
            } else {
                assert(fields_view(init).dom().contains(k));
                let j = choose|j: int| #[trigger] is_last(init, j) && init[j].0@ == k;
                assert(is_last(fields, j)) by {
                    assert forall|i: int| j < i < fields.len() implies (
                    #[trigger] fields[i]).0@ != fields[j].0@ by {
                        if i < n {
                            assert(init[i].0@ != init[j].0@);
                        }
                    }
                }
            }
        }
    }
}

proof fn lemma_fields_push(fields: Seq<(String, Json)>, f: (String, Json))
    ensures
        fields_view(fields.push(f)) == fields_view(fields).insert(f.0@, json_view(f.1)),
{
    assert(fields.push(f).drop_last() =~= fields);
}

/// Adds a field to an object; it counts in place of an earlier one with the same key.
pub fn put_field(fields: &mut Vec<(String, Json)>, key: &str, value: Json)
    ensures
        fields_view(final(fields)@) == fields_view(old(fields)@).insert(key@, value@),
{
    let ghost before = fields@;
    fields.push((key.to_string(), value));
    assert(fields@.drop_last() =~= before);
}

/// The last field with a key, if there is one.
fn find_field(fields: &Vec<(String, Json)>, key: &str) -> (r: Option<usize>)
    ensures
        match r {
            Some(j) => is_last(fields@, j as int) && fields@[j as int].0@ == key@,
            None => !fields_view(fields@).dom().contains(key@),
        },
{
    proof {
        lemma_fields_view(fields@);
    }
    let mut i: usize = fields.len();
    while i > 0
        invariant
            i <= fields@.len(),
            forall|j: int| i <= j < fields@.len() ==> (#[trigger] fields@[j]).0@ != key@,
        decreases i,
    {
        i = i - 1;
        if str_eq(fields[i].0.as_str(), key) {
            assert(is_last(fields@, i as int));
            return Some(i);
        }
    }
    None
}

/// Takes out all fields with a key; returns what the object held under it.
fn take_field(fields: &mut Vec<(String, Json)>, key: &str) -> (r: Option<Json>)
    ensures
        fields_view(final(fields)@) == fields_view(old(fields)@).remove(key@),
        match r {
            Some(j) => fields_view(old(fields)@).dom().contains(key@) && fields_view(
                old(fields)@,
            )[key@] == json_view(j),
            None => !fields_view(old(fields)@).dom().contains(key@),
        },
{
    let mut found: Option<Json> = None;
    let ghost all = fields@;
    let ghost mut n: int = 0;
    let mut i: usize = 0;
    assert(all.take(0) =~= Seq::empty());
    assert(fields@.take(0) =~= Seq::empty());
    assert(fields_view(all.take(0)).remove(key@) =~= fields_view(fields@.take(0)));
    assert(fields@.skip(0) =~= all.skip(0));
    while i < fields.len()
        invariant
            i <= fields@.len(),
            all == old(fields)@,
            0 <= n <= all.len(),
            n - i == all.len() - fields@.len(),
            fields@.skip(i as int) == all.skip(n),
            fields_view(fields@.take(i as int)) == fields_view(all.take(n)).remove(key@),
            match found {
                Some(j) => fields_view(all.take(n)).dom().contains(key@) && fields_view(
                    all.take(n),
                )[key@] == json_view(j),
                None => !fields_view(all.take(n)).dom().contains(key@),
            },
        decreases fields@.len() - i,
    {
        let ghost before = fields@;
        let ghost f = before[i as int];
        proof {
            assert(before.skip(i as int)[0] == all.skip(n)[0]);
            assert(all[n] == f);
            lemma_fields_push(all.take(n), f);
            assert(all.take(n + 1) =~= all.take(n).push(f));
        }
        if str_eq(fields[i].0.as_str(), key) {
            let (k, v) = fields.remove(i);
            found = Some(v);
            assert(fields@.take(i as int) =~= before.take(i as int));
            assert(fields@.skip(i as int) =~= all.skip(n + 1)) by {
                assert(before.skip(i as int).skip(1) =~= fields@.skip(i as int));
                assert(all.skip(n).skip(1) =~= all.skip(n + 1));
            }
            assert(fields_view(all.take(n + 1)).remove(key@) =~= fields_view(all.take(n)).remove(
                key@,
            ));
        } else {
            proof {
                lemma_fields_push(before.take(i as int), f);
                assert(before.take(i + 1) =~= before.take(i as int).push(f));
                assert(before.skip(i as int).skip(1) =~= before.skip(i + 1));
                assert(all.skip(n).skip(1) =~= all.skip(n + 1));
                assert(fields_view(all.take(n + 1)).remove(key@) =~= fields_view(
                    all.take(n),
                ).remove(key@).insert(f.0@, json_view(f.1)));
            }
            i = i + 1;
        }
        proof {
            n = n + 1;
        }
    }
    assert(fields@.take(i as int) =~= fields@);
    assert(all.take(n) =~= all);
    found
}

impl Clone for Json {
    fn clone(&self) -> (r: Self)
        ensures
            r@ == self@,
        decreases self,
    {
        match self {
            Json::Null => Json::Null,
            Json::Bool(b) => Json::Bool(*b),
            Json::Number(n) => Json::Number(*n),
            Json::Text(s) => Json::Text(s.clone()),
            Json::Raw(s) => Json::Raw(s.clone()),
            Json::Object(fields) => {
                let mut out: Vec<(String, Json)> = Vec::new();
                let mut i: usize = 0;
                assert(fields@.take(0) =~= Seq::empty());
                while i < fields.len()
                    invariant
                        i <= fields@.len(),
                        *self == Json::Object(*fields),
                        fields_view(out@) == fields_view(fields@.take(i as int)),
                    decreases fields@.len() - i,
                {
                    let k: String = fields[i].0.clone();
                    assert(decreases_to!(*self => self->Object_0));
                    assert(decreases_to!(*fields => fields@));
                    assert(decreases_to!(fields@ => fields@[i as int]));
                    assert(decreases_to!(fields@[i as int] => fields@[i as int].1));
                    let v: Json = fields[i].1.clone();
                    proof {
                        lemma_fields_push(out@, (k, v));
                        lemma_fields_push(fields@.take(i as int), fields@[i as int]);
                        assert(fields@.take(i + 1) =~= fields@.take(i as int).push(
                            fields@[i as int],
                        ));
                    }
                    out.push((k, v));
                    i = i + 1;
                }
                assert(fields@.take(i as int) =~= fields@);
                Json::Object(out)
            },
        }
    }
}

impl Json {
    /// The value under a key of an object.
    pub fn get(&self, key: &str) -> (r: Option<&Json>)
        ensures
            match r {
                Some(v) => self@ is Object && self@->Object_0.dom().contains(key@)
                    && self@->Object_0[key@] == v@,
                None => self@ is Object ==> !self@->Object_0.dom().contains(key@),
            },
    {
        match self {
            Json::Object(fields) => {
                proof {
                    lemma_fields_view(fields@);
                }
                match find_field(fields, key) {
                    Some(j) => Some(&fields[j].1),
                    None => None,
                }
            },
            _ => None,
        }
    }

    /// The truth value, if it is one.
    pub fn as_bool(&self) -> (r: Option<bool>)
        ensures
            r == bool_of(self@),
    {
        match self {
            Json::Bool(b) => Some(*b),
            _ => None,
        }
    }

    /// The whole number, if it is one.
    pub fn as_u64(&self) -> (r: Option<u64>)
        ensures
            r == number_of(self@),
    {
        match self {
            Json::Number(n) => Some(*n),
            _ => None,
        }
    }

    /// The text, if it is one.
    pub fn as_str(&self) -> (r: Option<&str>)
        ensures
            crate::text::opt_str_view(r) == text_of(self@),
    {
        match self {
            Json::Text(s) => Some(s.as_str()),
            _ => None,
        }
    }
}

/// The truth value, if it is one.
pub open spec fn bool_of(j: JsonView) -> Option<bool> {
    match j {
        JsonView::Bool(b) => Some(b),
        _ => None,
    }
}

/// The whole number, if it is one.
pub open spec fn number_of(j: JsonView) -> Option<u64> {
    match j {
        JsonView::Number(n) => Some(n),
        _ => None,
    }
}

/// The text, if it is one.
pub open spec fn text_of(j: JsonView) -> Option<Seq<char>> {
    match j {
        JsonView::Text(s) => Some(s),
        _ => None,
    }
}

// ---------------------------------------------------------------------------------------------
// Patches
// ---------------------------------------------------------------------------------------------
/// The patch keeps or sets a value under `k`: it does not name `k`, or not with `null`.
pub open spec fn present_after(
    base: Map<Seq<char>, JsonView>,
    patch: Map<Seq<char>, JsonView>,
    k: Seq<char>,
) -> bool {
    if patch.dom().contains(k) {
        !(patch[k] is Null)
    } else {
        base.dom().contains(k)
    }
}

/// What stands under `k` before an object of the patch is merged into it.
pub open spec fn nested_base(base: Map<Seq<char>, JsonView>, k: Seq<char>) -> JsonView {
    if base.dom().contains(k) {
        base[k]
    } else {
        JsonView::Object(Map::empty())
    }
}

/// A value after a patch. Both must be objects, else nothing changes. A key that the patch sets to
/// `null` goes; an object in the patch is merged into what stands there; any other value replaces
/// what stands there.
pub open spec fn merge(base: JsonView, patch: JsonView) -> JsonView
    decreases patch,
{
    match (base, patch) {
        (JsonView::Object(b), JsonView::Object(p)) => JsonView::Object(
            Map::new(
                |k: Seq<char>| present_after(b, p, k),
                |k: Seq<char>|
                    if p.dom().contains(k) {
                        if p[k] is Object {
                            merge(nested_base(b, k), p[k])
                        } else {
                            p[k]
                        }
                    } else {
                        b[k]
                    },
            ),
        ),
        _ => base,
    }
}

/// The fields `0..i` of a patch name `k` for the last time.
spec fn handled(changes: Seq<(String, Json)>, i: int, k: Seq<char>) -> bool {
    exists|j: int| 0 <= j < i && #[trigger] is_last(changes, j) && changes[j].0@ == k
}

proof fn lemma_handled(changes: Seq<(String, Json)>, i: int, k: Seq<char>)
    requires
        0 <= i < changes.len(),
    ensures
        handled(changes, i + 1, k) == (handled(changes, i, k) || (is_last(changes, i)
            && changes[i].0@ == k)),
{
    if handled(changes, i + 1, k) {
        let j = choose|j: int| 0 <= j < i + 1 && #[trigger] is_last(changes, j) && changes[j].0@ == k;
        assert(j < i || j == i);
    }
    if handled(changes, i, k) {
        let j = choose|j: int| 0 <= j < i && #[trigger] is_last(changes, j) && changes[j].0@ == k;
        assert(0 <= j < i + 1);
    }
}

/// `k` holds, in `now`, what it is to hold in the end.
spec fn settled(
    now: Map<Seq<char>, JsonView>,
    b: Map<Seq<char>, JsonView>,
    p: Map<Seq<char>, JsonView>,
    k: Seq<char>,
) -> bool {
    let end = merge(JsonView::Object(b), JsonView::Object(p))->Object_0;
    (now.dom().contains(k) <==> end.dom().contains(k)) && (now.dom().contains(k) ==> now[k]
        == end[k])
}

fn merged(base: Json, patch: &Json) -> (r: Json)
    ensures
        r@ == merge(base@, patch@),
    decreases patch,
{
    let mut fields: Vec<(String, Json)> = match base {
        Json::Object(fields) => match patch {
            Json::Object(_) => fields,
            _ => {
                return Json::Object(fields);
            },
        },
        other => {
            return other;
        },
    };
    let ghost b = fields_view(fields@);
    match patch {
        Json::Object(changes) => {
            let ghost p = fields_view(changes@);
            proof {
                lemma_fields_view(changes@);
            }
            let mut i: usize = 0;
            while i < changes.len()
                invariant
                    i <= changes@.len(),
                    *patch == Json::Object(*changes),
                    p == fields_view(changes@),
                    forall|j: int| #[trigger]
                        is_last(changes@, j) ==> p.dom().contains(changes@[j].0@)
                            && p[changes@[j].0@] == json_view(changes@[j].1),
                    forall|k: Seq<char>|
                        #![trigger fields_view(fields@).dom().contains(k)]
                        if handled(changes@, i as int, k) {
                            settled(fields_view(fields@), b, p, k)
                        } else {
                            (fields_view(fields@).dom().contains(k) <==> b.dom().contains(k)) && (
                            b.dom().contains(k) ==> fields_view(fields@)[k] == b[k])
                        },
                decreases changes@.len() - i,
            {
                let ghost before = fields_view(fields@);
                let ghost key = changes@[i as int].0@;
                if later_field(changes, i) {
                    assert forall|k: Seq<char>|
                        #![trigger fields_view(fields@).dom().contains(k)]
                        if handled(changes@, i + 1, k) {
                            settled(fields_view(fields@), b, p, k)
                        } else {
                            (fields_view(fields@).dom().contains(k) <==> b.dom().contains(k)) && (
                            b.dom().contains(k) ==> fields_view(fields@)[k] == b[k])
                        } by {
                        lemma_handled(changes@, i as int, k);
                    }
                } else {
                    assert(is_last(changes@, i as int));
                    let k0: String = changes[i].0.clone();
                    let current = take_field(&mut fields, k0.as_str());
                    assert(!handled(changes@, i as int, key)) by {
                        if handled(changes@, i as int, key) {
                            let j = choose|j: int|
                                0 <= j < i && #[trigger] is_last(changes@, j) && changes@[j].0@
                                    == key;
                            assert(changes@[i as int].0@ != changes@[j].0@);
                        }
                    }
                    assert(before.dom().contains(key) <==> b.dom().contains(key));
                    let ghost cleared = fields_view(fields@);
                    match &changes[i].1 {
                        Json::Null => {},
                        Json::Object(inner) => {
                            let entry: Json = match current {
                                Some(j) => j,
                                None => Json::Object(Vec::new()),
                            };
                            assert(entry@ == nested_base(b, key)) by {
                                if current is None {
                                    assert(fields_view(Seq::<(String, Json)>::empty())
                                        =~= Map::empty());
                                    assert(entry->Object_0@ =~= Seq::empty());
                                }
                            }
                            assert(decreases_to!(*patch => patch->Object_0));
                            assert(decreases_to!(*changes => changes@));
                            assert(decreases_to!(changes@ => changes@[i as int]));
                            assert(decreases_to!(changes@[i as int] => changes@[i as int].1));
                            let value = merged(entry, &changes[i].1);
                            proof {
                                lemma_fields_push(fields@, (k0, value));
                            }
                            fields.push((k0, value));
                        },
                        other => {
                            let value: Json = other.clone();
                            proof {
                                lemma_fields_push(fields@, (k0, value));
                            }
                            fields.push((k0, value));
                        },
                    }
                    assert(settled(fields_view(fields@), b, p, key));
                    assert forall|k: Seq<char>|
                        #![trigger fields_view(fields@).dom().contains(k)]
                        if handled(changes@, i + 1, k) {
                            settled(fields_view(fields@), b, p, k)
                        } else {
                            (fields_view(fields@).dom().contains(k) <==> b.dom().contains(k)) && (
                            b.dom().contains(k) ==> fields_view(fields@)[k] == b[k])
                        } by {
                        if k != key {
                            assert(before.dom().contains(k) <==> fields_view(
                                fields@,
                            ).dom().contains(k));
                            lemma_handled(changes@, i as int, k);
                        } else {
                            assert(is_last(changes@, i as int) && changes@[i as int].0@ == k);
                        }
                    }
                }
                i = i + 1;
            }
            let ghost end = merge(JsonView::Object(b), JsonView::Object(p))->Object_0;
            assert forall|k: Seq<char>|
                (fields_view(fields@).dom().contains(k) <==> end.dom().contains(k)) && (fields_view(
                    fields@,
                ).dom().contains(k) ==> fields_view(fields@)[k] == end[k]) by {
                assert(fields_view(fields@).dom().contains(k) || !fields_view(
                    fields@,
                ).dom().contains(k));
                if p.dom().contains(k) {
                    let j = choose|j: int| #[trigger] is_last(changes@, j) && changes@[j].0@ == k;
                    assert(handled(changes@, i as int, k));
                } else if handled(changes@, i as int, k) {
                    let j = choose|j: int|
                        0 <= j < i && #[trigger] is_last(changes@, j) && changes@[j].0@ == k;
                    assert(p.dom().contains(k));
                }
            }
            assert(fields_view(fields@) =~= end);
            Json::Object(fields)
        },
        _ => Json::Object(fields),
    }
}

/// Whether a later field has the key of the field at `i`.
fn later_field(fields: &Vec<(String, Json)>, i: usize) -> (r: bool)
    requires
        i < fields@.len(),
    ensures
        r == !is_last(fields@, i as int),
{
    let n: usize = fields.len();
    let mut j: usize = i + 1;
    while j < n
        invariant
            n == fields@.len(),
            i < j <= fields@.len(),
            forall|k: int| i < k < j ==> (#[trigger] fields@[k]).0@ != fields@[i as int].0@,
        decreases fields@.len() - j,
    {
        if str_eq(fields[j].0.as_str(), fields[i].0.as_str()) {
            return true;
        }
        j = j + 1;
    }
    false
}

/// Applies a patch to a value.
pub fn merge_json_patch(base: &mut Json, patch: &Json)
    ensures
        final(base)@ == merge(old(base)@, patch@),
{
    let mut taken = Json::Null;
    std::mem::swap(&mut taken, base);
    let result = merged(taken, patch);
    *base = result;
}

// ---------------------------------------------------------------------------------------------
// Laws
// ---------------------------------------------------------------------------------------------
/// A patch that is no object changes nothing.
pub proof fn law_patch_must_be_object(base: JsonView, patch: JsonView)
    requires
        !(patch is Object),
    ensures
        merge(base, patch) == base,
{
}

/// The keys that a patch does not name keep their values.
pub proof fn law_patch_keeps_other_keys(
    base: Map<Seq<char>, JsonView>,
    patch: Map<Seq<char>, JsonView>,
    k: Seq<char>,
)
    requires
        !patch.dom().contains(k),
    ensures
        ({
            let r = merge(JsonView::Object(base), JsonView::Object(patch))->Object_0;
            &&& r.dom().contains(k) == base.dom().contains(k)
            &&& base.dom().contains(k) ==> r[k] == base[k]
        }),
{
}

/// A key that the patch sets to `null` is removed; one that it sets to a plain value holds that
/// value.
pub proof fn law_patch_removes_and_sets(
    base: Map<Seq<char>, JsonView>,
    patch: Map<Seq<char>, JsonView>,
    k: Seq<char>,
)
    requires
        patch.dom().contains(k),
        !(patch[k] is Object),
    ensures
        ({
            let r = merge(JsonView::Object(base), JsonView::Object(patch))->Object_0;
            if patch[k] is Null {
                !r.dom().contains(k)
            } else {
                r.dom().contains(k) && r[k] == patch[k]
            }
        }),
{
}

/// Applying the same patch a second time changes nothing more.
pub proof fn law_patch_is_idempotent(base: JsonView, patch: JsonView)
    ensures
        merge(merge(base, patch), patch) == merge(base, patch),
    decreases patch,
{
    if base is Object && patch is Object {
        let b = base->Object_0;
        let p = patch->Object_0;
        let once = merge(base, patch)->Object_0;
        let twice = merge(JsonView::Object(once), patch)->Object_0;
        assert forall|k: Seq<char>| twice.dom().contains(k) implies #[trigger] twice[k]
            == once[k] by {
            if p.dom().contains(k) && p[k] is Object {
                law_patch_is_idempotent(nested_base(b, k), p[k]);
                assert(once.dom().contains(k));
            }
        }
        assert(twice =~= once);
    }
}

/// An object in a patch is merged into the object that stands under its key, or into an empty one
/// where nothing stands there; what is no object stays.
pub proof fn law_nested_patch_is_merged(
    base: Map<Seq<char>, JsonView>,
    patch: Map<Seq<char>, JsonView>,
    k: Seq<char>,
)
    requires
        patch.dom().contains(k),
        patch[k] is Object,
    ensures
        ({
            let r = merge(JsonView::Object(base), JsonView::Object(patch))->Object_0;
            &&& r.dom().contains(k)
            &&& !base.dom().contains(k) ==> r[k] == merge(JsonView::Object(Map::empty()), patch[k])
            &&& base.dom().contains(k) && base[k] is Object ==> r[k] == merge(base[k], patch[k])
            &&& base.dom().contains(k) && !(base[k] is Object) ==> r[k] == base[k]
        }),
{
    reveal_with_fuel(merge, 2);
}

/// Only an object can be patched, and it stays one; no key comes up that neither the object nor
/// the patch names.
pub proof fn law_patch_adds_only_what_it_names(base: JsonView, patch: JsonView, k: Seq<char>)
    ensures
        !(base is Object) ==> merge(base, patch) == base,
        base is Object ==> merge(base, patch) is Object,
        base is Object && patch is Object && merge(base, patch)->Object_0.dom().contains(k)
            ==> base->Object_0.dom().contains(k) || patch->Object_0.dom().contains(k),
{
}

/// A value is read only as what it is.
pub proof fn law_values_are_read_as_they_are(j: JsonView, b: bool, n: u64, s: Seq<char>)
    ensures
        bool_of(j) == Some(b) <==> j == JsonView::Bool(b),
        number_of(j) == Some(n) <==> j == JsonView::Number(n),
        text_of(j) == Some(s) <==> j == JsonView::Text(s),
{
}

} // verus!

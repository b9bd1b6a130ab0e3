use vstd::prelude::*;

use crate::textutil::str_eq;

verus! {

broadcast use vstd::string::group_string_axioms;

/// A configuration document: the library's own shape for the generic
/// values that JSON, YAML, TOML and JSON5 files parse into.
/// Numbers keep their source text, so no value is altered in passing.
pub enum DocValue {
    Null,
    Bool(bool),
    Num(String),
    Str(String),
    Arr(Vec<DocValue>),
    Obj(Vec<(String, DocValue)>),
}

/// The mathematical shape of a document value.
pub enum DocView {
    Null,
    Bool(bool),
    Num(Seq<char>),
    Str(Seq<char>),
    Arr(Seq<DocView>),
    Obj(Seq<(Seq<char>, DocView)>),
}

/// The shape of a document value.
pub open spec fn doc_view(d: DocValue) -> DocView
    decreases d,
{
    match d {
        DocValue::Null => DocView::Null,
        DocValue::Bool(b) => DocView::Bool(b),
        DocValue::Num(s) => DocView::Num(s@),
        DocValue::Str(s) => DocView::Str(s@),
        DocValue::Arr(items) => DocView::Arr(doc_views(items@)),
        DocValue::Obj(entries) => DocView::Obj(doc_kv_views(entries@)),
    }
}

/// The shapes of a sequence of document values.
pub open spec fn doc_views(items: Seq<DocValue>) -> Seq<DocView>
    decreases items,
{
    if items.len() == 0 {
        Seq::empty()
    } else {
        seq![doc_view(items[0])] + doc_views(items.drop_first())
    }
}

/// The shapes of a sequence of keyed document values.
pub open spec fn doc_kv_views(entries: Seq<(String, DocValue)>) -> Seq<(Seq<char>, DocView)>
    decreases entries,
{
    if entries.len() == 0 {
        Seq::empty()
    } else {
        seq![(entries[0].0@, doc_view(entries[0].1))] + doc_kv_views(entries.drop_first())
    }
}

pub broadcast proof fn lemma_doc_views_len(items: Seq<DocValue>)
    ensures
        #[trigger] doc_views(items).len() == items.len(),
    decreases items.len(),
{
    if items.len() > 0 {
        lemma_doc_views_len(items.drop_first());
    }
}

pub broadcast proof fn lemma_doc_views_index(items: Seq<DocValue>, i: int)
    requires
        0 <= i < items.len(),
    ensures
        #[trigger] doc_views(items)[i] == doc_view(items[i]),
    decreases items.len(),
{
    lemma_doc_views_len(items);
    if i > 0 {
        lemma_doc_views_index(items.drop_first(), i - 1);
    }
}

pub broadcast proof fn lemma_doc_kv_views_len(entries: Seq<(String, DocValue)>)
    ensures
        #[trigger] doc_kv_views(entries).len() == entries.len(),
    decreases entries.len(),
{
    if entries.len() > 0 {
        lemma_doc_kv_views_len(entries.drop_first());
    }
}

pub broadcast proof fn lemma_doc_kv_views_index(entries: Seq<(String, DocValue)>, i: int)
    requires
        0 <= i < entries.len(),
    ensures
        #[trigger] doc_kv_views(entries)[i] == (entries[i].0@, doc_view(entries[i].1)),
    decreases entries.len(),
{
    lemma_doc_kv_views_len(entries);
    if i > 0 {
        lemma_doc_kv_views_index(entries.drop_first(), i - 1);
    }
}

impl View for DocValue {
    type V = DocView;

    open spec fn view(&self) -> DocView {
        doc_view(*self)
    }
}

impl DeepView for DocValue {
    type V = DocView;

    open spec fn deep_view(&self) -> DocView {
        doc_view(*self)
    }
}

/// The value under the first entry with the given key, if any.
pub open spec fn obj_lookup(entries: Seq<(Seq<char>, DocView)>, key: Seq<char>) -> Option<DocView>
    decreases entries.len(),
{
    if entries.len() == 0 {
        None
    } else if entries[0].0 == key {
        Some(entries[0].1)
    } else {
        obj_lookup(entries.drop_first(), key)
    }
}

/// The entries with the first entry keyed `key` replaced by `(key, value)`,
/// or with `(key, value)` appended when no entry has that key.
pub open spec fn obj_set(
    entries: Seq<(Seq<char>, DocView)>,
    key: Seq<char>,
    value: DocView,
) -> Seq<(Seq<char>, DocView)>
    decreases entries.len(),
{
    if entries.len() == 0 {
        seq![(key, value)]
    } else if entries[0].0 == key {
        seq![(key, value)] + entries.drop_first()
    } else {
        seq![entries[0]] + obj_set(entries.drop_first(), key, value)
    }
}

impl DocValue {
    /// The entry list when the value is an object.
    pub open spec fn obj_entries(self) -> Seq<(Seq<char>, DocView)>
        recommends
            self@ is Obj,
    {
        self@->Obj_0
    }

    /// The value under a top-level key, when this value is an object.
    #[verifier::loop_isolation(false)]
    pub fn get<'a>(&'a self, key: &str) -> (r: Option<&'a DocValue>)
        ensures
            self@ is Obj ==> match r {
                Some(v) => obj_lookup(self.obj_entries(), key@) == Some(v@),
                None => obj_lookup(self.obj_entries(), key@) is None,
            },
            !(self@ is Obj) ==> r is None,
    {
        match self {
            DocValue::Obj(entries) => {
                let n = entries.len();
                let mut i: usize = 0;
                while i < n
                    invariant
                        n == entries.len(),
                        i <= n,
                        forall|j: int| 0 <= j < i ==> #[trigger] entries@[j].0@ != key@,
                    decreases n - i,
                {
                    proof {
                        broadcast use lemma_doc_kv_views_len, lemma_doc_kv_views_index;
                    }
                    if str_eq(entries[i].0.as_str(), key) {
                        proof {
                            broadcast use lemma_doc_kv_views_len, lemma_doc_kv_views_index;

                            assert(self@ == DocView::Obj(doc_kv_views(entries@)));
                            lemma_obj_lookup_at(doc_kv_views(entries@), key@, i as int);
                        }
                        return Some(&entries[i].1);
                    }
                    i += 1;
                }
                proof {
                    broadcast use lemma_doc_kv_views_len, lemma_doc_kv_views_index;

                    assert(self@ == DocView::Obj(doc_kv_views(entries@)));
                    lemma_obj_lookup_none(doc_kv_views(entries@), key@);
                }
                None
            },
            _ => None,
        }
    }

    /// Whether the value is an object.
    pub fn is_obj(&self) -> (r: bool)
        ensures
            r == (self@ is Obj),
    {
        match self {
            DocValue::Obj(_) => true,
            _ => false,
        }
    }

    /// An equal copy of the value.
    #[verifier::loop_isolation(false)]
    pub fn duplicate(&self) -> (r: DocValue)
        ensures
            r@ == self@,
        decreases *self,
    {
        match self {
            DocValue::Null => DocValue::Null,
            DocValue::Bool(b) => DocValue::Bool(*b),
            DocValue::Num(s) => DocValue::Num(s.clone()),
            DocValue::Str(s) => DocValue::Str(s.clone()),
            DocValue::Arr(items) => {
                let mut out: Vec<DocValue> = Vec::new();
                let n = items.len();
                let mut i: usize = 0;
                while i < n
                    invariant
                        n == items.len(),
                        i <= n,
                        out@.len() == i,
                        forall|j: int| 0 <= j < i
                            ==> #[trigger] doc_view(out@[j]) == doc_view(items@[j]),
                    decreases n - i,
                {
                    proof {
                        assert(decreases_to!(*self => self->Arr_0));
                        assert(decreases_to!(*items => items@));
                        assert(decreases_to!(items@ => items@[i as int]));
                    }
                    let d = items[i].duplicate();
                    out.push(d);
                    i += 1;
                }
                let r = DocValue::Arr(out);
                proof {
                    broadcast use lemma_doc_views_len, lemma_doc_views_index;

                    assert(doc_views(out@) =~= doc_views(items@));
                }
                r
            },
            DocValue::Obj(entries) => {
                let mut out: Vec<(String, DocValue)> = Vec::new();
                let n = entries.len();
                let mut i: usize = 0;
                while i < n
                    invariant
                        n == entries.len(),
                        i <= n,
                        out@.len() == i,
                        forall|j: int| 0 <= j < i ==> out@[j].0@ == entries@[j].0@
                            && #[trigger] doc_view(out@[j].1) == doc_view(entries@[j].1),
                    decreases n - i,
                {
                    proof {
                        assert(decreases_to!(*self => self->Obj_0));
                        assert(decreases_to!(*entries => entries@));
                        assert(decreases_to!(entries@ => entries@[i as int]));
                        assert(decreases_to!(entries@[i as int] => entries@[i as int].1));
                    }
                    let k = entries[i].0.clone();
                    let v = entries[i].1.duplicate();
                    out.push((k, v));
                    i += 1;
                }
                let r = DocValue::Obj(out);
                proof {
                    broadcast use lemma_doc_kv_views_len, lemma_doc_kv_views_index;

                    assert(doc_kv_views(out@) =~= doc_kv_views(entries@));
                }
                r
            },
        }
    }
}

/// The entries after writing every entry of `extra` over `base`, in order.
pub open spec fn merge_entries(
    base: Seq<(Seq<char>, DocView)>,
    extra: Seq<(Seq<char>, DocView)>,
) -> Seq<(Seq<char>, DocView)>
    decreases extra.len(),
{
    if extra.len() == 0 {
        base
    } else {
        merge_entries(obj_set(base, extra[0].0, extra[0].1), extra.drop_first())
    }
}

/// An object document with the extra document's top-level entries written
/// over it; anything but an object leaves it unchanged.
pub open spec fn spec_patched(base: DocView, extra: DocView) -> DocView {
    if extra is Obj {
        DocView::Obj(merge_entries(base->Obj_0, extra->Obj_0))
    } else {
        base
    }
}

/// The position of the first entry with the given key, if any.
#[verifier::loop_isolation(false)]
fn key_index(entries: &Vec<(String, DocValue)>, key: &str) -> (r: Option<usize>)
    ensures
        match r {
            Some(i) => i < entries@.len() && entries@[i as int].0@ == key@ && forall|j: int|
                0 <= j < i ==> #[trigger] entries@[j].0@ != key@,
            None => forall|j: int|
                0 <= j < entries@.len() ==> #[trigger] entries@[j].0@ != key@,
        },
{
    let n = entries.len();
    let mut i: usize = 0;
    while i < n
        invariant
            i <= n,
            forall|j: int| 0 <= j < i ==> #[trigger] entries@[j].0@ != key@,
        decreases n - i,
    {
        if str_eq(entries[i].0.as_str(), key) {
            return Some(i);
        }
        i += 1;
    }
    None
}

/// The object with `(key, value)` written over its first entry with that
/// key, or appended when no entry has it.
#[verifier::loop_isolation(false)]
pub fn with_top_entry(base: &DocValue, key: &str, value: &DocValue) -> (r: DocValue)
    requires
        base@ is Obj,
    ensures
        r@ is Obj,
        r@->Obj_0 == obj_set(base@->Obj_0, key@, value@),
{
    match base {
        DocValue::Obj(entries) => {
            let pos = key_index(entries, key);
            let n = entries.len();
            let mut out: Vec<(String, DocValue)> = Vec::new();
            let mut i: usize = 0;
            while i < n
                invariant
                    i <= n,
                    out@.len() == i,
                    forall|j: int| 0 <= j < i ==> match pos {
                        Some(p) => if j == p {
                            out@[j].0@ == key@ && #[trigger] doc_view(out@[j].1) == value@
                        } else {
                            out@[j].0@ == entries@[j].0@ && doc_view(out@[j].1) == doc_view(
                                entries@[j].1,
                            )
                        },
                        None => out@[j].0@ == entries@[j].0@ && doc_view(out@[j].1) == doc_view(
                            entries@[j].1,
                        ),
                    },
                decreases n - i,
            {
                let replace_here = match pos {
                    Some(p) => p == i,
                    None => false,
                };
                if replace_here {
                    out.push((key.to_owned(), value.duplicate()));
                } else {
                    out.push((entries[i].0.clone(), entries[i].1.duplicate()));
                }
                i += 1;
            }
            proof {
                broadcast use lemma_doc_kv_views_len, lemma_doc_kv_views_index;

            }
            match pos {
                Some(_) => {
                    proof {
                        let ghost p = pos->0 as int;
                        let ghost ev = doc_kv_views(entries@);
                        lemma_obj_set_at(ev, key@, value@, p);
                        assert(doc_kv_views(out@) =~= ev.update(p, (key@, value@)));
                    }
                },
                None => {
                    let value_dup = value.duplicate();
                    out.push((key.to_owned(), value_dup));
                    proof {
                        let ghost ev = doc_kv_views(entries@);
                        lemma_obj_set_missing(ev, key@, value@);
                        assert(doc_kv_views(out@) =~= ev.push((key@, value@)));
                    }
                },
            }
            let r = DocValue::Obj(out);
            proof {
                assert(r@->Obj_0 == obj_set(base@->Obj_0, key@, value@));
            }
            r
        },
        _ => unreached(),
    }
}

/// The document with the extra document's top-level entries written over
/// it, one after the other; extra metadata that is not an object changes
/// nothing.
#[verifier::loop_isolation(false)]
pub fn patched_doc(base: &DocValue, extra: &DocValue) -> (r: DocValue)
    requires
        base@ is Obj,
    ensures
        r@ == spec_patched(base@, extra@),
        r@ is Obj,
{
    match extra {
        DocValue::Obj(eentries) => {
            let mut cur = base.duplicate();
            let n = eentries.len();
            let ghost ev = doc_kv_views(eentries@);
            proof {
                broadcast use lemma_doc_kv_views_len, lemma_doc_kv_views_index;

                assert(ev.skip(0) =~= ev);
            }
            let mut i: usize = 0;
            while i < n
                invariant
                    i <= n,
                    cur@ is Obj,
                    merge_entries(base@->Obj_0, ev) == merge_entries(
                        cur@->Obj_0,
                        ev.skip(i as int),
                    ),
                decreases n - i,
            {
                proof {
                    broadcast use lemma_doc_kv_views_len, lemma_doc_kv_views_index;

                }
                let prev = cur;
                cur = with_top_entry(&prev, eentries[i].0.as_str(), &eentries[i].1);
                proof {
                    assert(ev.skip(i as int).drop_first() =~= ev.skip(i + 1 as int));
                    assert(ev.skip(i as int)[0] == ev[i as int]);
                    assert(merge_entries(prev@->Obj_0, ev.skip(i as int)) == merge_entries(
                        obj_set(prev@->Obj_0, ev[i as int].0, ev[i as int].1),
                        ev.skip(i + 1 as int),
                    ));
                }
                i += 1;
            }
            proof {
                assert(ev.skip(n as int) =~= Seq::<(Seq<char>, DocView)>::empty());
                assert(merge_entries(cur@->Obj_0, ev.skip(n as int)) == cur@->Obj_0);
            }
            cur
        },
        _ => base.duplicate(),
    }
}

/// Writing `(key, value)` changes what is read under `key` to `value`
/// and leaves every other key unchanged.
pub proof fn lemma_obj_set_lookup(
    entries: Seq<(Seq<char>, DocView)>,
    key: Seq<char>,
    value: DocView,
    k: Seq<char>,
)
    ensures
        obj_lookup(obj_set(entries, key, value), k) == if k == key {
            Some(value)
        } else {
            obj_lookup(entries, k)
        },
    decreases entries.len(),
{
    reveal_with_fuel(obj_lookup, 3);
    reveal_with_fuel(obj_set, 3);
    if entries.len() == 0 {
        assert((seq![(key, value)]).drop_first() =~= Seq::<(Seq<char>, DocView)>::empty());
    } else if entries[0].0 == key {
        assert((seq![(key, value)] + entries.drop_first()).drop_first() =~= entries.drop_first());
    } else {
        lemma_obj_set_lookup(entries.drop_first(), key, value, k);
        assert((seq![entries[0]] + obj_set(entries.drop_first(), key, value)).drop_first()
            =~= obj_set(entries.drop_first(), key, value));
    }
}

/// Writing over the first entry holding `key` updates exactly that slot.
proof fn lemma_obj_set_at(
    entries: Seq<(Seq<char>, DocView)>,
    key: Seq<char>,
    value: DocView,
    i: int,
)
    requires
        0 <= i < entries.len(),
        entries[i].0 == key,
        forall|j: int| 0 <= j < i ==> #[trigger] entries[j].0 != key,
    ensures
        obj_set(entries, key, value) =~= entries.update(i, (key, value)),
    decreases i,
{
    if i == 0 {
        assert(obj_set(entries, key, value) =~= entries.update(0, (key, value)));
    } else {
        lemma_obj_set_at(entries.drop_first(), key, value, i - 1);
        assert(obj_set(entries, key, value) =~= entries.update(i, (key, value)));
    }
}

/// Writing a key no entry holds appends the new entry.
proof fn lemma_obj_set_missing(entries: Seq<(Seq<char>, DocView)>, key: Seq<char>, value: DocView)
    requires
        forall|j: int| 0 <= j < entries.len() ==> #[trigger] entries[j].0 != key,
    ensures
        obj_set(entries, key, value) =~= entries.push((key, value)),
    decreases entries.len(),
{
    if entries.len() > 0 {
        lemma_obj_set_missing(entries.drop_first(), key, value);
        assert(obj_set(entries, key, value) =~= entries.push((key, value)));
    }
}

/// Patching a document with anything but an object — in particular with
/// no metadata at all — leaves it exactly as it was.
pub proof fn lemma_patched_identity(base: DocView, extra: DocView)
    requires
        !(extra is Obj),
    ensures
        spec_patched(base, extra) == base,
{
}

/// Whether the entries carry pairwise distinct keys.
pub open spec fn distinct_keys(entries: Seq<(Seq<char>, DocView)>) -> bool {
    forall|i: int, j: int|
        0 <= i < j < entries.len() ==> #[trigger] entries[i].0 != #[trigger] entries[j].0
}

/// After patching with metadata whose keys are distinct, every key reads
/// from the metadata first and from the unpatched document otherwise.
pub proof fn lemma_patched_lookup(
    base: Seq<(Seq<char>, DocView)>,
    extra: Seq<(Seq<char>, DocView)>,
    k: Seq<char>,
)
    requires
        distinct_keys(extra),
    ensures
        obj_lookup(merge_entries(base, extra), k) == match obj_lookup(extra, k) {
            Some(v) => Some(v),
            None => obj_lookup(base, k),
        },
    decreases extra.len(),
{
    if extra.len() > 0 {
        let b2 = obj_set(base, extra[0].0, extra[0].1);
        assert(distinct_keys(extra.drop_first()));
        lemma_patched_lookup(b2, extra.drop_first(), k);
        lemma_obj_set_lookup(base, extra[0].0, extra[0].1, k);
        if k == extra[0].0 {
            assert(forall|j: int|
                0 <= j < extra.drop_first().len()
                    ==> #[trigger] extra.drop_first()[j].0 != k);
            lemma_obj_lookup_none(extra.drop_first(), k);
        }
    }
}

proof fn lemma_obj_lookup_at(entries: Seq<(Seq<char>, DocView)>, key: Seq<char>, i: int)
    requires
        0 <= i < entries.len(),
        entries[i].0 == key,
        forall|j: int| 0 <= j < i ==> #[trigger] entries[j].0 != key,
    ensures
        obj_lookup(entries, key) == Some(entries[i].1),
    decreases i,
{
    if i > 0 {
        lemma_obj_lookup_at(entries.drop_first(), key, i - 1);
    }
}

proof fn lemma_obj_lookup_none(entries: Seq<(Seq<char>, DocView)>, key: Seq<char>)
    requires
        forall|j: int| 0 <= j < entries.len() ==> #[trigger] entries[j].0 != key,
    ensures
        obj_lookup(entries, key) is None,
    decreases entries.len(),
{
    if entries.len() > 0 {
        lemma_obj_lookup_none(entries.drop_first(), key);
    }
}

} // verus!

//! The plugin registry: records keyed by name, kept in the order of their
//! names, with lookup by name and by extension.

use vstd::prelude::*;
use vstd::string::StringExecFns;
use crate::plugin::{advisories, advisory_views, Advisory, Plugin, PluginView};
use crate::store::{
    decode_rows, encode_rows, plugin_of, row_of, row_view, row_views, store_bytes,
    store_contents, Row, StoreError,
};
use crate::text::{
    contains_text, lemma_text_lt_irreflexive, lemma_text_lt_total, lemma_text_lt_transitive,
    same_text, text_before, text_lt,
};

verus! {

/// The schema version that this build writes and accepts.
pub const DB_VERSION: u32 = 1;

/// Why a change to the registry was refused.
#[derive(Debug)]
pub enum RegistryError {
    /// A record of that name is already registered.
    AlreadyExists(String),
    /// No record of that name is registered.
    NotFound(String),
}

/// The text of a registry error.
pub open spec fn registry_message(e: RegistryError) -> Seq<char> {
    match e {
        RegistryError::AlreadyExists(n) => "插件 '"@ + n@ + "' 已存在"@,
        RegistryError::NotFound(n) => "插件 '"@ + n@ + "' 不存在"@,
    }
}

impl RegistryError {
    /// The message shown for this error.
    pub fn message(&self) -> (r: String)
        ensures
            r@ == registry_message(*self),
    {
        match self {
            RegistryError::AlreadyExists(n) => {
                let mut out = String::from_str("插件 '");
                out.append(n.as_str());
                out.append("' 已存在");
                out
            },
            RegistryError::NotFound(n) => {
                let mut out = String::from_str("插件 '");
                out.append(n.as_str());
                out.append("' 不存在");
                out
            },
        }
    }
}

/// The views of a list of records, in order.
pub open spec fn plugin_views(v: Seq<Plugin>) -> Seq<PluginView> {
    Seq::new(v.len(), |i: int| v[i]@)
}

/// The views of a list of borrowed records, in order.
pub open spec fn borrowed_views(v: Seq<&Plugin>) -> Seq<PluginView> {
    Seq::new(v.len(), |i: int| v[i]@)
}

/// The records come in strictly ascending order of their names.
pub open spec fn names_sorted(s: Seq<PluginView>) -> bool {
    forall|i: int, j: int|
        0 <= i < j < s.len() ==> text_lt(#[trigger] s[i].name, #[trigger] s[j].name)
}

/// The mapping from names to the records of `s`.
pub open spec fn by_name(s: Seq<PluginView>) -> Map<Seq<char>, PluginView> {
    Map::new(
        |n: Seq<char>| exists|i: int| 0 <= i < s.len() && #[trigger] s[i].name == n,
        |n: Seq<char>| s[choose|i: int| 0 <= i < s.len() && #[trigger] s[i].name == n],
    )
}

/// `s` lists each record of `m` once, in the order of the names.
pub open spec fn lists_all(s: Seq<PluginView>, m: Map<Seq<char>, PluginView>) -> bool {
    &&& names_sorted(s)
    &&& forall|i: int|
        0 <= i < s.len() ==> m.contains_key(#[trigger] s[i].name) && m[s[i].name] == s[i]
    &&& forall|n: Seq<char>|
        m.contains_key(n) ==> exists|i: int| 0 <= i < s.len() && #[trigger] s[i].name == n
}

/// The records of `s` that claim the extension `ext`, in the order of `s`.
pub open spec fn claiming(s: Seq<PluginView>, ext: Seq<char>) -> Seq<PluginView>
    decreases s.len(),
{
    if s.len() == 0 {
        Seq::empty()
    } else {
        let head = claiming(s.drop_last(), ext);
        if s.last().extensions.contains(ext) {
            head.push(s.last())
        } else {
            head
        }
    }
}

/// In a sorted list a name is found at one place only, and the mapping
/// gives the record at that place.
pub proof fn lemma_by_name_at(s: Seq<PluginView>, i: int)
    requires
        names_sorted(s),
        0 <= i < s.len(),
    ensures
        by_name(s).contains_key(s[i].name),
        by_name(s)[s[i].name] == s[i],
{
    let n = s[i].name;
    let k = choose|k: int| 0 <= k < s.len() && #[trigger] s[k].name == n;
    lemma_text_lt_irreflexive(n);
    if k < i {
        assert(text_lt(s[k].name, s[i].name));
    } else if i < k {
        assert(text_lt(s[i].name, s[k].name));
    }
}

/// A sorted list lists the mapping made of it.
pub proof fn lemma_lists_all(s: Seq<PluginView>)
    requires
        names_sorted(s),
    ensures
        lists_all(s, by_name(s)),
{
    assert forall|i: int| 0 <= i < s.len() implies by_name(s).contains_key(#[trigger] s[i].name)
        && by_name(s)[s[i].name] == s[i] by {
        lemma_by_name_at(s, i);
    }
}

proof fn lemma_absent(s: Seq<PluginView>, at: int, name: Seq<char>)
    requires
        0 <= at <= s.len(),
        forall|j: int| 0 <= j < at ==> text_lt(#[trigger] s[j].name, name),
        forall|j: int| at <= j < s.len() ==> text_lt(name, #[trigger] s[j].name),
    ensures
        !by_name(s).contains_key(name),
{
    lemma_text_lt_irreflexive(name);
}

proof fn lemma_insert(s: Seq<PluginView>, at: int, p: PluginView)
    requires
        names_sorted(s),
        0 <= at <= s.len(),
        forall|j: int| 0 <= j < at ==> text_lt(#[trigger] s[j].name, p.name),
        forall|j: int| at <= j < s.len() ==> text_lt(p.name, #[trigger] s[j].name),
    ensures
        names_sorted(s.insert(at, p)),
        by_name(s.insert(at, p)) == by_name(s).insert(p.name, p),
{
    let t = s.insert(at, p);
    assert forall|i: int, j: int| 0 <= i < j < t.len() implies text_lt(
        #[trigger] t[i].name,
        #[trigger] t[j].name,
    ) by {
        if j < at {
            assert(t[i] == s[i] && t[j] == s[j]);
        } else if j == at {
            assert(t[i] == s[i]);
        } else if i < at {
            assert(t[i] == s[i] && t[j] == s[j - 1]);
        } else if i == at {
            assert(t[j] == s[j - 1]);
        } else {
            assert(t[i] == s[i - 1] && t[j] == s[j - 1]);
        }
    }
    let a = by_name(t);
    let b = by_name(s).insert(p.name, p);
    assert forall|n: Seq<char>| a.contains_key(n) <==> b.contains_key(n) by {
        if a.contains_key(n) {
            let k = choose|k: int| 0 <= k < t.len() && #[trigger] t[k].name == n;
            if k < at {
                assert(s[k].name == n);
            } else if k > at {
                assert(s[k - 1].name == n);
            }
        }
        if b.contains_key(n) {
            if n == p.name {
                assert(t[at].name == n);
            } else {
                let k = choose|k: int| 0 <= k < s.len() && #[trigger] s[k].name == n;
                if k < at {
                    assert(t[k].name == n);
                } else {
                    assert(t[k + 1].name == n);
                }
            }
        }
    }
    assert forall|n: Seq<char>| a.contains_key(n) implies a[n] == b[n] by {
        let k = choose|k: int| 0 <= k < t.len() && #[trigger] t[k].name == n;
        lemma_by_name_at(t, k);
        if k < at {
            assert(t[k] == s[k]);
            lemma_by_name_at(s, k);
            lemma_text_lt_irreflexive(n);
        } else if k > at {
            assert(t[k] == s[k - 1]);
            lemma_by_name_at(s, k - 1);
            lemma_text_lt_irreflexive(n);
        }
    }
    assert(a =~= b);
}

proof fn lemma_replace(s: Seq<PluginView>, at: int, p: PluginView)
    requires
        names_sorted(s),
        0 <= at < s.len(),
        s[at].name == p.name,
    ensures
        names_sorted(s.update(at, p)),
        by_name(s.update(at, p)) == by_name(s).insert(p.name, p),
{
    let t = s.update(at, p);
    assert forall|i: int, j: int| 0 <= i < j < t.len() implies text_lt(
        #[trigger] t[i].name,
        #[trigger] t[j].name,
    ) by {
        assert(t[i].name == s[i].name && t[j].name == s[j].name);
    }
    let a = by_name(t);
    let b = by_name(s).insert(p.name, p);
    assert forall|n: Seq<char>| a.contains_key(n) <==> b.contains_key(n) by {
        if a.contains_key(n) {
            let k = choose|k: int| 0 <= k < t.len() && #[trigger] t[k].name == n;
            assert(s[k].name == n);
        }
        if b.contains_key(n) && n != p.name {
            let k = choose|k: int| 0 <= k < s.len() && #[trigger] s[k].name == n;
            assert(t[k].name == n);
        }
        if n == p.name {
            assert(t[at].name == n);
        }
    }
    assert forall|n: Seq<char>| a.contains_key(n) implies a[n] == b[n] by {
        let k = choose|k: int| 0 <= k < t.len() && #[trigger] t[k].name == n;
        lemma_by_name_at(t, k);
        lemma_by_name_at(s, k);
        lemma_text_lt_irreflexive(n);
        if k < at {
            assert(text_lt(s[k].name, s[at].name));
        } else if at < k {
            assert(text_lt(s[at].name, s[k].name));
        }
    }
    assert(a =~= b);
}

proof fn lemma_remove(s: Seq<PluginView>, at: int)
    requires
        names_sorted(s),
        0 <= at < s.len(),
    ensures
        names_sorted(s.remove(at)),
        by_name(s.remove(at)) == by_name(s).remove(s[at].name),
{
    let t = s.remove(at);
    assert forall|i: int, j: int| 0 <= i < j < t.len() implies text_lt(
        #[trigger] t[i].name,
        #[trigger] t[j].name,
    ) by {
        if j < at {
            assert(t[i] == s[i] && t[j] == s[j]);
        } else if i < at {
            assert(t[i] == s[i] && t[j] == s[j + 1]);
        } else {
            assert(t[i] == s[i + 1] && t[j] == s[j + 1]);
        }
    }
    let a = by_name(t);
    let b = by_name(s).remove(s[at].name);
    lemma_text_lt_irreflexive(s[at].name);
    assert forall|n: Seq<char>| a.contains_key(n) <==> b.contains_key(n) by {
        if a.contains_key(n) {
            let k = choose|k: int| 0 <= k < t.len() && #[trigger] t[k].name == n;
            if k < at {
                assert(s[k].name == n);
                assert(text_lt(s[k].name, s[at].name));
            } else {
                assert(s[k + 1].name == n);
                assert(text_lt(s[at].name, s[k + 1].name));
            }
        }
        if b.contains_key(n) {
            let k = choose|k: int| 0 <= k < s.len() && #[trigger] s[k].name == n;
            if k < at {
                assert(t[k].name == n);
            } else {
                assert(t[k - 1].name == n);
            }
        }
    }
    assert forall|n: Seq<char>| a.contains_key(n) implies a[n] == b[n] by {
        let k = choose|k: int| 0 <= k < t.len() && #[trigger] t[k].name == n;
        lemma_by_name_at(t, k);
        if k < at {
            assert(t[k] == s[k]);
            assert(text_lt(s[k].name, s[at].name));
            lemma_by_name_at(s, k);
        } else {
            assert(t[k] == s[k + 1]);
            assert(text_lt(s[at].name, s[k + 1].name));
            lemma_by_name_at(s, k + 1);
        }
    }
    assert(a =~= b);
}

/// What holds of the records that claim an extension, picked from a sorted
/// list: they are sorted, each is a record of the list that claims the
/// extension, and none that claims it is left out.
pub proof fn lemma_claiming(s: Seq<PluginView>, ext: Seq<char>)
    requires
        names_sorted(s),
    ensures
        names_sorted(claiming(s, ext)),
        forall|i: int|
            0 <= i < claiming(s, ext).len() ==> (#[trigger] claiming(s, ext)[i]).extensions.contains(
                ext,
            ) && exists|k: int| 0 <= k < s.len() && s[k] == claiming(s, ext)[i],
        forall|k: int|
            0 <= k < s.len() && (#[trigger] s[k]).extensions.contains(ext) ==> claiming(
                s,
                ext,
            ).contains(s[k]),
    decreases s.len(),
{
    if s.len() > 0 {
        let front = s.drop_last();
        let head = claiming(front, ext);
        let out = claiming(s, ext);
        assert(names_sorted(front)) by {
            assert forall|i: int, j: int| 0 <= i < j < front.len() implies text_lt(
                #[trigger] front[i].name,
                #[trigger] front[j].name,
            ) by {
                assert(front[i] == s[i] && front[j] == s[j]);
            }
        }
        lemma_claiming(front, ext);
        assert forall|i: int| 0 <= i < out.len() implies (#[trigger] out[i]).extensions.contains(
            ext,
        ) && exists|k: int| 0 <= k < s.len() && s[k] == out[i] by {
            if i < head.len() {
                assert(out[i] == head[i]);
                let k = choose|k: int| 0 <= k < front.len() && front[k] == head[i];
                assert(s[k] == out[i]);
            } else {
                assert(s[s.len() - 1] == out[i]);
            }
        }
        assert forall|i: int, j: int| 0 <= i < j < out.len() implies text_lt(
            #[trigger] out[i].name,
            #[trigger] out[j].name,
        ) by {
            if j < head.len() {
                assert(out[i] == head[i] && out[j] == head[j]);
            } else {
                assert(out[i] == head[i]);
                let k = choose|k: int| 0 <= k < front.len() && front[k] == head[i];
                assert(s[k] == out[i]);
                assert(out[j] == s[s.len() - 1]);
                assert(text_lt(s[k].name, s[s.len() - 1].name));
            }
        }
        assert forall|k: int| 0 <= k < s.len() && (#[trigger] s[k]).extensions.contains(
            ext,
        ) implies out.contains(s[k]) by {
            if k < front.len() {
                assert(front[k] == s[k]);
                assert(head.contains(front[k]));
                let i = choose|i: int| 0 <= i < head.len() && head[i] == front[k];
                assert(out[i] == s[k]);
            } else {
                assert(out[out.len() - 1] == s[k]);
            }
        }
    }
}

/// Two sorted lists that make the same mapping are the same list.
pub proof fn lemma_sorted_unique(a: Seq<PluginView>, b: Seq<PluginView>)
    requires
        names_sorted(a),
        names_sorted(b),
        by_name(a) == by_name(b),
    ensures
        a == b,
    decreases a.len(),
{
    if a.len() == 0 {
        if b.len() > 0 {
            assert(by_name(b).contains_key(b[0].name));
            assert(by_name(a).contains_key(b[0].name));
        }
        assert(a =~= b);
    } else {
        let la = a.len() - 1;
        assert(by_name(a).contains_key(a[la].name));
        assert(by_name(b).contains_key(a[la].name));
        let k = choose|k: int| 0 <= k < b.len() && #[trigger] b[k].name == a[la].name;
        let lb = b.len() - 1;
        assert(by_name(b).contains_key(b[lb].name));
        assert(by_name(a).contains_key(b[lb].name));
        let j = choose|j: int| 0 <= j < a.len() && #[trigger] a[j].name == b[lb].name;
        lemma_text_lt_irreflexive(a[la].name);
        if k < lb {
            assert(text_lt(b[k].name, b[lb].name));
            if j < la {
                assert(text_lt(a[j].name, a[la].name));
                lemma_text_lt_transitive(a[la].name, b[lb].name, a[la].name);
            }
        }
        assert(k == lb);
        lemma_by_name_at(a, la);
        lemma_by_name_at(b, lb);
        assert(a[la] == b[lb]);
        lemma_remove(a, la);
        lemma_remove(b, lb);
        assert(a.remove(la) =~= a.drop_last());
        assert(b.remove(lb) =~= b.drop_last());
        lemma_sorted_unique(a.drop_last(), b.drop_last());
        assert(a =~= a.drop_last().push(a[la]));
        assert(b =~= b.drop_last().push(b[lb]));
    }
}

/// `r` lists the records of `m` that claim `ext`: in the order of their
/// names, each of them once, and nothing else.
pub open spec fn lists_claiming(
    r: Seq<PluginView>,
    m: Map<Seq<char>, PluginView>,
    ext: Seq<char>,
) -> bool {
    &&& names_sorted(r)
    &&& forall|i: int|
        0 <= i < r.len() ==> m.contains_key(#[trigger] r[i].name) && m[r[i].name] == r[i]
            && r[i].extensions.contains(ext)
    &&& forall|n: Seq<char>|
        m.contains_key(n) && m[n].extensions.contains(ext) ==> r.contains(#[trigger] m[n])
}

/// The list of the records that claim an extension is determined by what
/// the registry holds: whatever the order in which the records were
/// added, two lists of the plugins of one mapping for one extension are
/// the same list. It is empty where no record claims the extension.
pub proof fn law_listing_determined(
    a: Seq<PluginView>,
    b: Seq<PluginView>,
    m: Map<Seq<char>, PluginView>,
    ext: Seq<char>,
)
    requires
        lists_claiming(a, m, ext),
        lists_claiming(b, m, ext),
    ensures
        a == b,
        (forall|n: Seq<char>| m.contains_key(n) ==> !(#[trigger] m[n]).extensions.contains(ext))
            ==> a.len() == 0,
{
    assert forall|n: Seq<char>| by_name(a).contains_key(n) <==> by_name(b).contains_key(n) by {
        if by_name(a).contains_key(n) {
            let i = choose|i: int| 0 <= i < a.len() && #[trigger] a[i].name == n;
            assert(m[a[i].name] == a[i]);
            assert(b.contains(m[n]));
            let j = choose|j: int| 0 <= j < b.len() && b[j] == m[n];
            assert(b[j].name == n);
        }
        if by_name(b).contains_key(n) {
            let i = choose|i: int| 0 <= i < b.len() && #[trigger] b[i].name == n;
            assert(m[b[i].name] == b[i]);
            assert(a.contains(m[n]));
            let j = choose|j: int| 0 <= j < a.len() && a[j] == m[n];
            assert(a[j].name == n);
        }
    }
    assert forall|n: Seq<char>| by_name(a).contains_key(n) implies by_name(a)[n] == by_name(
        b,
    )[n] by {
        let i = choose|i: int| 0 <= i < a.len() && #[trigger] a[i].name == n;
        let j = choose|j: int| 0 <= j < b.len() && #[trigger] b[j].name == n;
        lemma_by_name_at(a, i);
        lemma_by_name_at(b, j);
        assert(m[a[i].name] == a[i]);
        assert(m[b[j].name] == b[j]);
    }
    assert(by_name(a) =~= by_name(b));
    lemma_sorted_unique(a, b);
    if a.len() > 0 {
        assert(m.contains_key(a[0].name) && m[a[0].name].extensions.contains(ext));
    }
}

/// Adding two records of different names gives the same registry in
/// either order.
pub proof fn law_insertion_order(m: Map<Seq<char>, PluginView>, p: PluginView, q: PluginView)
    requires
        p.name != q.name,
    ensures
        m.insert(p.name, p).insert(q.name, q) == m.insert(q.name, q).insert(p.name, p),
{
    assert(m.insert(p.name, p).insert(q.name, q) =~= m.insert(q.name, q).insert(p.name, p));
}

/// Each stored entry is kept under the name of its record.
pub open spec fn keyed(rows: Seq<(Seq<char>, PluginView)>) -> bool {
    forall|i: int| 0 <= i < rows.len() ==> (#[trigger] rows[i]).0 == rows[i].1.name
}

/// The mapping that stored entries make: each record under its name, a
/// later entry in place of an earlier one of the same name.
pub open spec fn collected(rows: Seq<(Seq<char>, PluginView)>) -> Map<Seq<char>, PluginView>
    decreases rows.len(),
{
    if rows.len() == 0 {
        Map::empty()
    } else {
        collected(rows.drop_last()).insert(rows.last().1.name, rows.last().1)
    }
}

/// The stored entries of a list of records: each under its name.
pub open spec fn entries(s: Seq<PluginView>) -> Seq<(Seq<char>, PluginView)> {
    Seq::new(s.len(), |i: int| (s[i].name, s[i]))
}

/// `r` is what opening a store of these entries and this version gives: a
/// version other than the current one is refused, naming both; an entry
/// kept under another name than its record's makes the store corrupt;
/// otherwise the registry holds the collected entries.
pub open spec fn opens_as(
    rows: Seq<(Seq<char>, PluginView)>,
    version: u32,
    r: Result<PluginDatabase, StoreError>,
) -> bool {
    if version != DB_VERSION {
        r matches Err(e) && e == (StoreError::VersionMismatch {
            expected: DB_VERSION,
            actual: version,
        })
    } else if !keyed(rows) {
        r matches Err(e) && e == StoreError::Corrupt
    } else {
        r matches Ok(db) && db@ == collected(rows) && db.schema_version() == DB_VERSION
    }
}

/// `r` is what reading these bytes gives: a decoding error makes the store
/// corrupt; otherwise the decoded entries and version are opened.
pub open spec fn reads_as(bytes: Seq<u8>, r: Result<PluginDatabase, StoreError>) -> bool {
    match store_contents(bytes) {
        None => r matches Err(e) && e == StoreError::Corrupt,
        Some(found) => opens_as(found.0, found.1, r),
    }
}

/// The persisted collection of plugin records, keyed by name.
#[derive(Debug)]
pub struct PluginDatabase {
    plugins: Vec<Plugin>,
    version: u32,
}

impl View for PluginDatabase {
    type V = Map<Seq<char>, PluginView>;

    /// The mapping from each registered name to its record.
    open spec fn view(&self) -> Map<Seq<char>, PluginView> {
        by_name(self.records())
    }
}

impl PluginDatabase {
    #[verifier::type_invariant]
    spec fn ordered(&self) -> bool {
        names_sorted(plugin_views(self.plugins@))
    }

    /// The records in the order of their names.
    pub closed spec fn records(&self) -> Seq<PluginView> {
        plugin_views(self.plugins@)
    }

    /// The schema version that the registry is stamped with.
    pub closed spec fn schema_version(&self) -> u32 {
        self.version
    }

    /// An empty registry stamped with the current schema version.
    pub fn new() -> (r: PluginDatabase)
        ensures
            r@ == Map::<Seq<char>, PluginView>::empty(),
            r.records() == Seq::<PluginView>::empty(),
            r.schema_version() == DB_VERSION,
    {
        let r = PluginDatabase { plugins: Vec::new(), version: DB_VERSION };
        assert(r.records() =~= Seq::<PluginView>::empty());
        assert(r@ =~= Map::<Seq<char>, PluginView>::empty());
        r
    }

    /// Opens a store that was decoded into entries and a version.
    pub fn open_store(rows: &Vec<Row>, version: u32) -> (r: Result<PluginDatabase, StoreError>)
        ensures
            opens_as(row_views(rows@), version, r),
    {
        if version != DB_VERSION {
            return Err(StoreError::VersionMismatch { expected: DB_VERSION, actual: version });
        }
        let ghost all = row_views(rows@);
        let mut db = PluginDatabase::new();
        let mut i: usize = 0;
        assert(all.take(0) =~= Seq::<(Seq<char>, PluginView)>::empty());
        while i < rows.len()
            invariant
                all == row_views(rows@),
                i <= rows.len(),
                version == DB_VERSION,
                db.schema_version() == DB_VERSION,
                db@ == collected(all.take(i as int)),
                forall|k: int| 0 <= k < i ==> (#[trigger] all[k]).0 == all[k].1.name,
            decreases rows.len() - i,
        {
            let (key, plugin) = plugin_of(&rows[i]);
            assert(all[i as int] == (key@, plugin@));
            if !same_text(key.as_str(), plugin.name.as_str()) {
                assert(all[i as int].0 != all[i as int].1.name);
                return Err(StoreError::Corrupt);
            }
            proof {
                let after = all.take(i + 1);
                assert(after.drop_last() =~= all.take(i as int));
                assert(after.last() == all[i as int]);
            }
            db.put(plugin);
            i += 1;
        }
        assert(all.take(rows.len() as int) =~= all);
        Ok(db)
    }

    /// Reads a stored registry.
    pub fn from_bytes(bytes: &[u8]) -> (r: Result<PluginDatabase, StoreError>)
        ensures
            reads_as(bytes@, r),
    {
        match decode_rows(bytes) {
            None => Err(StoreError::Corrupt),
            Some(found) => PluginDatabase::open_store(&found.0, found.1),
        }
    }

    /// Loads the registry from what the store holds: with no store yet, an
    /// empty registry that is still to be persisted (the flag says so);
    /// otherwise the registry that the stored bytes hold.
    pub fn load(stored: Option<&[u8]>) -> (r: Result<(PluginDatabase, bool), StoreError>)
        ensures
            match stored {
                None => r matches Ok(made) && made.1 && made.0@ == Map::<
                    Seq<char>,
                    PluginView,
                >::empty() && made.0.schema_version() == DB_VERSION,
                Some(bytes) => match r {
                    Ok(made) => !made.1 && reads_as(bytes@, Ok(made.0)),
                    Err(e) => reads_as(bytes@, Err(e)),
                },
            },
    {
        match stored {
            None => Ok((PluginDatabase::new(), true)),
            Some(bytes) => match PluginDatabase::from_bytes(bytes) {
                Ok(db) => Ok((db, false)),
                Err(e) => Err(e),
            },
        }
    }

    /// The bytes to persist for this registry.
    pub fn save(&self) -> (r: Result<Vec<u8>, StoreError>)
        ensures
            match store_bytes(entries(self.records()), self.schema_version()) {
                Some(bytes) => r matches Ok(out) && out@ == bytes,
                None => r matches Err(e) && e == StoreError::Unwritable,
            },
    {
        let mut rows: Vec<Row> = Vec::new();
        let mut i: usize = 0;
        while i < self.plugins.len()
            invariant
                i <= self.plugins.len(),
                rows.len() == i,
                forall|k: int|
                    0 <= k < i ==> row_view(#[trigger] rows@[k]) == (
                        self.plugins@[k]@.name,
                        self.plugins@[k]@,
                    ),
            decreases self.plugins.len() - i,
        {
            let row = row_of(&self.plugins[i]);
            rows.push(row);
            i += 1;
        }
        assert(row_views(rows@) =~= entries(self.records()));
        match encode_rows(&rows, self.version) {
            Some(bytes) => Ok(bytes),
            None => Err(StoreError::Unwritable),
        }
    }

    /// The version stamp.
    pub fn version(&self) -> (r: u32)
        ensures
            r == self.schema_version(),
    {
        self.version
    }

    /// Moves the records out and leaves none behind.
    fn take_records(&mut self) -> (r: Vec<Plugin>)
        ensures
            r@ == old(self).plugins@,
            final(self).plugins@ == Seq::<Plugin>::empty(),
            final(self).version == old(self).version,
    {
        let mut out: Vec<Plugin> = Vec::new();
        assert(plugin_views(out@) =~= Seq::<PluginView>::empty());
        std::mem::swap(&mut self.plugins, &mut out);
        out
    }

    /// The place of `name` in the order of the records, and whether a
    /// record of that name stands there.
    fn position(&self, name: &str) -> (r: (usize, bool))
        ensures
            r.0 <= self.records().len(),
            r.1 ==> r.0 < self.records().len() && self.records()[r.0 as int].name == name@,
            r.1 == self@.contains_key(name@),
            forall|j: int| 0 <= j < r.0 ==> text_lt(#[trigger] self.records()[j].name, name@),
            forall|j: int|
                r.0 <= j < self.records().len() && !(r.1 && j == r.0) ==> text_lt(
                    name@,
                    #[trigger] self.records()[j].name,
                ),
    {
        proof {
            use_type_invariant(self);
        }
        let ghost s = self.records();
        let mut i: usize = 0;
        while i < self.plugins.len()
            invariant
                s == self.records(),
                names_sorted(s),
                i <= self.plugins.len(),
                forall|j: int| 0 <= j < i ==> text_lt(#[trigger] s[j].name, name@),
            decreases self.plugins.len() - i,
        {
            if !text_before(self.plugins[i].name.as_str(), name) {
                let found = same_text(self.plugins[i].name.as_str(), name);
                proof {
                    lemma_text_lt_total(s[i as int].name, name@);
                    if found {
                        assert forall|j: int| i < j < s.len() implies text_lt(
                            name@,
                            #[trigger] s[j].name,
                        ) by {
                            assert(text_lt(s[i as int].name, s[j].name));
                        }
                        assert(s[i as int].name == name@);
                    } else {
                        assert forall|j: int| i <= j < s.len() implies text_lt(
                            name@,
                            #[trigger] s[j].name,
                        ) by {
                            if i < j {
                                assert(text_lt(s[i as int].name, s[j].name));
                                lemma_text_lt_transitive(name@, s[i as int].name, s[j].name);
                            }
                        }
                        lemma_absent(s, i as int, name@);
                    }
                }
                return (i, found);
            }
            i += 1;
        }
        proof {
            lemma_absent(s, i as int, name@);
        }
        (i, false)
    }

    /// Registers a new record. Fails if a record of that name is already
    /// registered; otherwise reports the commands that the record needs and
    /// the search path lacks, and stores the record whatever they are.
    pub fn add_plugin(&mut self, plugin: Plugin) -> (r: Result<Vec<Advisory>, RegistryError>)
        ensures
            final(self).schema_version() == old(self).schema_version(),
            old(self)@.contains_key(plugin@.name) ==> final(self)@ == old(self)@ && (r matches Err(
                RegistryError::AlreadyExists(n),
            ) && n@ == plugin@.name),
            !old(self)@.contains_key(plugin@.name) ==> final(self)@ == old(self)@.insert(
                plugin@.name,
                plugin@,
            ) && r is Ok && exists|executor_found: bool, found: Seq<bool>|
                advisory_views(r->Ok_0@) == advisories(plugin@, executor_found, found),
    {
        let (at, found) = self.position(plugin.name.as_str());
        if found {
            return Err(RegistryError::AlreadyExists(plugin.name.clone()));
        }
        let notes = plugin.check_commands();
        proof {
            use_type_invariant(&*self);
            lemma_insert(self.records(), at as int, plugin@);
            assert(plugin_views(self.plugins@.insert(at as int, plugin)) =~= self.records().insert(
                at as int,
                plugin@,
            ));
        }
        let mut plugins = self.take_records();
        plugins.insert(at, plugin);
        self.plugins = plugins;
        Ok(notes)
    }

    /// Stores a record under its name, in place of any record of that name,
    /// and reports the commands that it needs and the search path lacks.
    pub fn update_plugin(&mut self, plugin: Plugin) -> (r: Result<Vec<Advisory>, RegistryError>)
        ensures
            final(self).schema_version() == old(self).schema_version(),
            final(self)@ == old(self)@.insert(plugin@.name, plugin@),
            r is Ok,
            exists|executor_found: bool, found: Seq<bool>|
                advisory_views(r->Ok_0@) == advisories(plugin@, executor_found, found),
    {
        let notes = plugin.check_commands();
        self.put(plugin);
        Ok(notes)
    }

    /// Stores a record under its name, in place of any record of that name.
    pub(crate) fn put(&mut self, plugin: Plugin)
        ensures
            final(self).schema_version() == old(self).schema_version(),
            final(self)@ == old(self)@.insert(plugin@.name, plugin@),
    {
        let (at, found) = self.position(plugin.name.as_str());
        proof {
            use_type_invariant(&*self);
        }
        if found {
            proof {
                lemma_replace(self.records(), at as int, plugin@);
                assert(plugin_views(self.plugins@.update(at as int, plugin))
                    =~= self.records().update(at as int, plugin@));
            }
            let mut plugins = self.take_records();
            plugins.set(at, plugin);
            self.plugins = plugins;
        } else {
            proof {
                lemma_insert(self.records(), at as int, plugin@);
                assert(plugin_views(self.plugins@.insert(at as int, plugin))
                    =~= self.records().insert(at as int, plugin@));
            }
            let mut plugins = self.take_records();
            plugins.insert(at, plugin);
            self.plugins = plugins;
        }
    }

    /// Removes the record of that name. Fails if there is none.
    pub fn remove_plugin(&mut self, name: &str) -> (r: Result<(), RegistryError>)
        ensures
            final(self).schema_version() == old(self).schema_version(),
            old(self)@.contains_key(name@) ==> r is Ok && final(self)@ == old(self)@.remove(name@),
            !old(self)@.contains_key(name@) ==> final(self)@ == old(self)@ && (r matches Err(
                RegistryError::NotFound(n),
            ) && n@ == name@),
    {
        let (at, found) = self.position(name);
        if !found {
            return Err(RegistryError::NotFound(String::from_str(name)));
        }
        proof {
            use_type_invariant(&*self);
            lemma_remove(self.records(), at as int);
            assert(plugin_views(self.plugins@.remove(at as int)) =~= self.records().remove(
                at as int,
            ));
        }
        let mut plugins = self.take_records();
        plugins.remove(at);
        self.plugins = plugins;
        Ok(())
    }

    /// The record of that name, if one is registered.
    pub fn get_plugin(&self, name: &str) -> (r: Option<&Plugin>)
        ensures
            match r {
                Some(p) => self@.contains_key(name@) && self@[name@] == p@,
                None => !self@.contains_key(name@),
            },
    {
        let (at, found) = self.position(name);
        if found {
            proof {
                use_type_invariant(self);
                lemma_by_name_at(self.records(), at as int);
            }
            Some(&self.plugins[at])
        } else {
            None
        }
    }

    /// The records that claim `extension`, in the order of their names.
    pub fn find_all_by_extension(&self, extension: &str) -> (r: Vec<&Plugin>)
        ensures
            borrowed_views(r@) == claiming(self.records(), extension@),
            lists_claiming(borrowed_views(r@), self@, extension@),
            names_sorted(borrowed_views(r@)),
            forall|i: int|
                0 <= i < r.len() ==> self@.contains_key(#[trigger] r[i]@.name) && self@[r[i]@.name]
                    == r[i]@ && r[i]@.extensions.contains(extension@),
            forall|n: Seq<char>|
                self@.contains_key(n) && self@[n].extensions.contains(extension@)
                    ==> borrowed_views(r@).contains(#[trigger] self@[n]),
            (forall|n: Seq<char>|
                self@.contains_key(n) ==> !(#[trigger] self@[n]).extensions.contains(extension@))
                ==> r.len() == 0,
    {
        proof {
            use_type_invariant(self);
        }
        let ghost s = self.records();
        let mut out: Vec<&Plugin> = Vec::new();
        let mut i: usize = 0;
        assert(s.take(0) =~= Seq::<PluginView>::empty());
        assert(borrowed_views(out@) =~= claiming(s.take(0), extension@));
        while i < self.plugins.len()
            invariant
                s == self.records(),
                i <= self.plugins.len(),
                borrowed_views(out@) == claiming(s.take(i as int), extension@),
            decreases self.plugins.len() - i,
        {
            let ghost seen = borrowed_views(out@);
            let ghost after = s.take(i + 1);
            assert(after.drop_last() =~= s.take(i as int));
            assert(after.last() == self.plugins@[i as int]@);
            if contains_text(&self.plugins[i].extensions, extension) {
                out.push(&self.plugins[i]);
                assert(borrowed_views(out@) =~= seen.push(after.last()));
            }
            assert(borrowed_views(out@) == claiming(after, extension@));
            i += 1;
        }
        proof {
            assert(s.take(s.len() as int) =~= s);
            lemma_claiming(s, extension@);
            let c = claiming(s, extension@);
            assert forall|i: int| 0 <= i < out.len() implies self@.contains_key(
                #[trigger] out[i]@.name,
            ) && self@[out[i]@.name] == out[i]@ && out[i]@.extensions.contains(extension@) by {
                assert(out[i]@ == c[i]);
                let k = choose|k: int| 0 <= k < s.len() && s[k] == c[i];
                lemma_by_name_at(s, k);
            }
            assert forall|n: Seq<char>|
                self@.contains_key(n) && self@[n].extensions.contains(
                    extension@,
                ) implies borrowed_views(out@).contains(#[trigger] self@[n]) by {
                let k = choose|k: int| 0 <= k < s.len() && #[trigger] s[k].name == n;
                lemma_by_name_at(s, k);
            }
            if forall|n: Seq<char>|
                self@.contains_key(n) ==> !(#[trigger] self@[n]).extensions.contains(extension@) {
                if out.len() > 0 {
                    assert(self@.contains_key(out[0]@.name));
                    assert(self@[out[0]@.name].extensions.contains(extension@));
                }
            }
            assert forall|i: int| 0 <= i < c.len() implies self@.contains_key(
                #[trigger] c[i].name,
            ) && self@[c[i].name] == c[i] && c[i].extensions.contains(extension@) by {
                assert(out[i]@ == c[i]);
                assert(self@.contains_key(out[i]@.name));
            }
        }
        out
    }

    /// Every record, in the order of the names.
    pub fn all_plugins(&self) -> (r: Vec<&Plugin>)
        ensures
            borrowed_views(r@) == self.records(),
            lists_all(self.records(), self@),
    {
        proof {
            use_type_invariant(self);
            lemma_lists_all(self.records());
        }
        let mut out: Vec<&Plugin> = Vec::new();
        let mut i: usize = 0;
        while i < self.plugins.len()
            invariant
                i <= self.plugins.len(),
                out.len() == i,
                forall|k: int| 0 <= k < i ==> out@[k]@ == self.plugins@[k]@,
            decreases self.plugins.len() - i,
        {
            out.push(&self.plugins[i]);
            i += 1;
        }
        assert(borrowed_views(out@) =~= self.records());
        out
    }
}

impl Clone for PluginDatabase {
    fn clone(&self) -> (r: PluginDatabase)
        ensures
            r@ == self@,
            r.records() == self.records(),
            r.schema_version() == self.schema_version(),
    {
        proof {
            use_type_invariant(self);
        }
        let mut plugins: Vec<Plugin> = Vec::new();
        let mut i: usize = 0;
        while i < self.plugins.len()
            invariant
                i <= self.plugins.len(),
                plugins.len() == i,
                forall|k: int| 0 <= k < i ==> plugins@[k]@ == self.plugins@[k]@,
            decreases self.plugins.len() - i,
        {
            plugins.push(self.plugins[i].clone());
            i += 1;
        }
        assert(plugin_views(plugins@) =~= plugin_views(self.plugins@));
        PluginDatabase { plugins, version: self.version }
    }
}

} // verus!

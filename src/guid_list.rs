//! The table of well-known GUIDs, read from a JSON document, that names GUIDs for
//! people.

use crate::guid::{guid_less, guid_text, parse_spec, EfiGuid, EfiGuidError};
use crate::text::{chars_of, push_str, string_from_chars};
use vstd::prelude::*;

verus! {

/// One row of the table: a GUID, its short name and a description.
pub struct EfiGuidListEntry {
    pub guid: EfiGuid,
    pub name: String,
    pub description: String,
}

/// How `EfiGuidList::guids` orders the rows.
#[derive(Debug, Clone, Copy, PartialEq, Eq, Structural)]
pub enum GuidListSortField {
    Guid,
    Id,
    Unsorted,
}

/// Why the table could not be read.
#[derive(Debug, Clone, PartialEq, Eq)]
pub enum GuidListError {
    /// The document is not a JSON array of objects with string values.
    Json { message: String },
    DescriptionMissing,
    GuidMissing,
    NameMissing,
    /// A row's GUID is not in text form.
    BadGuid(EfiGuidError),
}

/// The table, keyed by row name; empty until loaded.
pub struct EfiGuidList {
    pub guids_map: Option<Vec<EfiGuidListEntry>>,
}

/// What `serde_json` reads from the text of an array of objects whose values are all
/// strings: each object's members, ordered by key, a repeated key keeping its last
/// value; nothing for any other text.
pub uninterp spec fn json_string_objects(text: Seq<char>) -> Option<Seq<Seq<(Seq<char>, Seq<char>)>>>;

/// Relies on `serde_json::from_str` into `Vec<BTreeMap<String, String>>`: the result
/// depends on the text alone.
#[verifier::external_body]
fn parse_json_objects(text: &str) -> (r: Result<Vec<Vec<(String, String)>>, String>)
    ensures
        r is Ok <==> json_string_objects(text@) is Some,
        r matches Ok(v) ==> json_string_objects(text@) == Some(v.deep_view()),
{
    match serde_json::from_str::<Vec<std::collections::BTreeMap<String, String>>>(text) {
        Ok(v) => Ok(v.into_iter().map(|m| m.into_iter().collect()).collect()),
        Err(e) => Err(e.to_string()),
    }
}

/// The last value given for `key` among `pairs`.
pub open spec fn last_value(pairs: Seq<(Seq<char>, Seq<char>)>, key: Seq<char>) -> Option<Seq<char>>
    decreases pairs.len(),
{
    if pairs.len() == 0 {
        None
    } else if pairs.last().0 == key {
        Some(pairs.last().1)
    } else {
        last_value(pairs.drop_last(), key)
    }
}

/// A row as plain values: GUID, name, description.
pub open spec fn entry_view(e: EfiGuidListEntry) -> (EfiGuid, Seq<char>, Seq<char>) {
    (e.guid, e.name@, e.description@)
}

/// The row that an object's members describe, or why they do not describe one;
/// members with other keys are ignored.
pub open spec fn entry_spec(pairs: Seq<(Seq<char>, Seq<char>)>) -> Result<
    (EfiGuid, Seq<char>, Seq<char>),
    GuidListError,
> {
    let d = last_value(pairs, "description"@);
    let g = last_value(pairs, "guid"@);
    let n = last_value(pairs, "name"@);
    if d is None {
        Err(GuidListError::DescriptionMissing)
    } else if g is None {
        Err(GuidListError::GuidMissing)
    } else if n is None {
        Err(GuidListError::NameMissing)
    } else {
        match parse_spec(g->0) {
            Ok(guid) => Ok((guid, n->0, d->0)),
            Err(e) => Err(GuidListError::BadGuid(e)),
        }
    }
}

fn same_text(a: &str, b: &str) -> (r: bool)
    ensures
        r == (a@ == b@),
{
    let x = chars_of(a);
    let y = chars_of(b);
    if x.len() != y.len() {
        return false;
    }
    let mut i: usize = 0;
    while i < x.len()
        invariant
            x@ == a@,
            y@ == b@,
            x@.len() == y@.len(),
            i <= x@.len(),
            x@.subrange(0, i as int) == y@.subrange(0, i as int),
        decreases x@.len() - i,
    {
        if x[i] != y[i] {
            return false;
        }
        assert(x@.subrange(0, i + 1) =~= x@.subrange(0, i as int).push(x@[i as int]));
        assert(y@.subrange(0, i + 1) =~= y@.subrange(0, i as int).push(y@[i as int]));
        i = i + 1;
    }
    assert(x@ =~= x@.subrange(0, i as int));
    assert(y@ =~= y@.subrange(0, i as int));
    true
}

/// The last value given for `key` among `pairs`.
fn find_last(pairs: &Vec<(String, String)>, key: &str) -> (r: Option<String>)
    ensures
        r is Some <==> last_value(pairs.deep_view(), key@) is Some,
        r matches Some(s) ==> last_value(pairs.deep_view(), key@) == Some(s@),
{
    let mut i: usize = pairs.len();
    let ghost all = pairs.deep_view();
    assert(all.subrange(0, i as int) =~= all);
    while i > 0
        invariant
            i <= pairs@.len(),
            all == pairs.deep_view(),
            last_value(all, key@) == last_value(all.subrange(0, i as int), key@),
        decreases i,
    {
        let ghost pre = all.subrange(0, i as int);
        assert(pre.last() == all[i - 1]);
        assert(pre.drop_last() =~= all.subrange(0, i - 1));
        if same_text(pairs[i - 1].0.as_str(), key) {
            return Some(pairs[i - 1].1.clone());
        }
        i = i - 1;
    }
    None
}

impl EfiGuidListEntry {
    /// Builds a row from an object's members, as the table's JSON document gives
    /// them: `guid`, `name` and `description` are required, other keys are ignored.
    pub fn from_pairs(pairs: &Vec<(String, String)>) -> (r: Result<EfiGuidListEntry, GuidListError>)
        ensures
            match entry_spec(pairs.deep_view()) {
                Ok(v) => r matches Ok(e) && entry_view(e) == v,
                Err(err) => r == Err::<EfiGuidListEntry, GuidListError>(err),
            },
    {
        let description = find_last(pairs, "description");
        let guid = find_last(pairs, "guid");
        let name = find_last(pairs, "name");
        let description = match description {
            Some(d) => d,
            None => {
                return Err(GuidListError::DescriptionMissing);
            },
        };
        let guid = match guid {
            Some(g) => g,
            None => {
                return Err(GuidListError::GuidMissing);
            },
        };
        let name = match name {
            Some(n) => n,
            None => {
                return Err(GuidListError::NameMissing);
            },
        };
        match EfiGuid::parse(guid.as_str()) {
            Ok(g) => Ok(EfiGuidListEntry { guid: g, name, description }),
            Err(e) => Err(GuidListError::BadGuid(e)),
        }
    }

    /// `{<guid>}\t{<name>}\t<description>`.
    pub fn to_string(&self) -> (r: String)
        ensures
            r@ == "{"@ + guid_text(self.guid) + "}\t{"@ + self.name@ + "}\t"@ + self.description@,
    {
        let mut out: Vec<char> = Vec::new();
        push_str(&mut out, "{");
        let g = self.guid.to_string();
        push_str(&mut out, g.as_str());
        push_str(&mut out, "}\t{");
        push_str(&mut out, self.name.as_str());
        push_str(&mut out, "}\t");
        push_str(&mut out, self.description.as_str());
        string_from_chars(&out)
    }
}

/// The table as a map from row name to row.
pub open spec fn table_view(s: Seq<EfiGuidListEntry>) -> Map<Seq<char>, (EfiGuid, Seq<char>, Seq<char>)>
    decreases s.len(),
{
    if s.len() == 0 {
        Map::empty()
    } else {
        table_view(s.drop_last()).insert(s.last().name@, entry_view(s.last()))
    }
}

pub open spec fn distinct_names(s: Seq<EfiGuidListEntry>) -> bool {
    forall|i: int, j: int| 0 <= i < j < s.len() ==> (#[trigger] s[i]).name@ != (#[trigger] s[j]).name@
}

/// The row that every loaded table holds under the name `zero`.
pub open spec fn zero_row() -> (EfiGuid, Seq<char>, Seq<char>) {
    (EfiGuid { a: 0, b: 0, c: 0, d: [0u8, 0, 0, 0, 0, 0, 0, 0] }, "zero"@, "zeroed sentinel guid"@)
}

/// The rows that the objects describe, each replacing an earlier one of the same
/// name, or the error of the first object that describes no row.
pub open spec fn rows_spec(objs: Seq<Seq<(Seq<char>, Seq<char>)>>) -> Result<
    Map<Seq<char>, (EfiGuid, Seq<char>, Seq<char>)>,
    GuidListError,
>
    decreases objs.len(),
{
    if objs.len() == 0 {
        Ok(Map::empty())
    } else {
        match rows_spec(objs.drop_last()) {
            Err(e) => Err(e),
            Ok(m) => match entry_spec(objs.last()) {
                Err(e) => Err(e),
                Ok(v) => Ok(m.insert(v.1, v)),
            },
        }
    }
}

/// The table that a JSON document gives: its rows and the `zero` row.
pub open spec fn load_spec(text: Seq<char>) -> Result<
    Map<Seq<char>, (EfiGuid, Seq<char>, Seq<char>)>,
    GuidListError,
> {
    match rows_spec(json_string_objects(text)->0) {
        Ok(m) => Ok(m.insert("zero"@, zero_row())),
        Err(e) => Err(e),
    }
}

proof fn lemma_update_row(s: Seq<EfiGuidListEntry>, p: int, e: EfiGuidListEntry)
    requires
        distinct_names(s),
        0 <= p < s.len(),
        s[p].name@ == e.name@,
    ensures
        table_view(s.update(p, e)) == table_view(s).insert(e.name@, entry_view(e)),
        distinct_names(s.update(p, e)),
    decreases s.len(),
{
    let u = s.update(p, e);
    assert(distinct_names(u)) by {
        assert forall|i: int, j: int| 0 <= i < j < u.len() implies (#[trigger] u[i]).name@
            != (#[trigger] u[j]).name@ by {
            assert(s[i].name@ != s[j].name@);
        }
    }
    if p == s.len() - 1 {
        assert(u.drop_last() =~= s.drop_last());
        assert(table_view(u) =~= table_view(s).insert(e.name@, entry_view(e)));
    } else {
        let t = s.drop_last();
        assert(distinct_names(t));
        lemma_update_row(t, p, e);
        assert(u.drop_last() =~= t.update(p, e));
        assert(u.last() == s.last());
        assert(s.last().name@ != s[p].name@);
        assert(table_view(u) =~= table_view(s).insert(e.name@, entry_view(e)));
    }
}

proof fn lemma_push_row(s: Seq<EfiGuidListEntry>, e: EfiGuidListEntry)
    requires
        distinct_names(s),
        forall|i: int| 0 <= i < s.len() ==> (#[trigger] s[i]).name@ != e.name@,
    ensures
        table_view(s.push(e)) == table_view(s).insert(e.name@, entry_view(e)),
        distinct_names(s.push(e)),
{
    let u = s.push(e);
    assert(u.drop_last() =~= s);
    assert(distinct_names(u)) by {
        assert forall|i: int, j: int| 0 <= i < j < u.len() implies (#[trigger] u[i]).name@
            != (#[trigger] u[j]).name@ by {
            if j == s.len() {
                assert(u[i] == s[i]);
            } else {
                assert(s[i].name@ != s[j].name@);
            }
        }
    }
}

/// Puts `e` into the table, in place of a row of the same name if there is one.
fn put_row(rows: &mut Vec<EfiGuidListEntry>, e: EfiGuidListEntry)
    requires
        distinct_names(old(rows)@),
    ensures
        distinct_names(final(rows)@),
        table_view(final(rows)@) == table_view(old(rows)@).insert(e.name@, entry_view(e)),
{
    let mut i: usize = 0;
    while i < rows.len()
        invariant
            i <= rows@.len(),
            rows@ == old(rows)@,
            distinct_names(old(rows)@),
            forall|j: int| 0 <= j < i ==> (#[trigger] rows@[j]).name@ != e.name@,
        decreases rows@.len() - i,
    {
        if rows[i].name == e.name {
            proof {
                lemma_update_row(rows@, i as int, e);
            }
            rows.set(i, e);
            return;
        }
        i = i + 1;
    }
    proof {
        lemma_push_row(rows@, e);
    }
    rows.push(e);
}

/// Whether row `a` goes strictly before row `b` in the order `field` asks for.
pub open spec fn row_before(field: GuidListSortField, a: EfiGuidListEntry, b: EfiGuidListEntry) -> bool {
    match field {
        GuidListSortField::Guid => guid_less(a.guid, b.guid),
        GuidListSortField::Id => text_less(a.name@, b.name@),
        GuidListSortField::Unsorted => false,
    }
}

/// Text order: by code point, a proper prefix first.
pub open spec fn text_less(x: Seq<char>, y: Seq<char>) -> bool
    decreases x.len(),
{
    if x.len() == 0 {
        y.len() > 0
    } else if y.len() == 0 {
        false
    } else if x[0] != y[0] {
        (x[0] as u32) < (y[0] as u32)
    } else {
        text_less(x.drop_first(), y.drop_first())
    }
}

/// `x` placed into `s` before the first row that it goes before.
pub open spec fn insert_row(field: GuidListSortField, s: Seq<EfiGuidListEntry>, x: EfiGuidListEntry) -> Seq<EfiGuidListEntry>
    decreases s.len(),
{
    if s.len() == 0 {
        seq![x]
    } else if row_before(field, x, s[0]) {
        seq![x] + s
    } else {
        seq![s[0]] + insert_row(field, s.drop_first(), x)
    }
}

/// The rows `s` ordered as `field` asks, rows that neither precedes kept in their order.
pub open spec fn sorted_rows(field: GuidListSortField, s: Seq<EfiGuidListEntry>) -> Seq<EfiGuidListEntry>
    decreases s.len(),
{
    if s.len() == 0 {
        s
    } else {
        insert_row(field, sorted_rows(field, s.drop_last()), s.last())
    }
}

proof fn lemma_insert_row_at(field: GuidListSortField, s: Seq<EfiGuidListEntry>, x: EfiGuidListEntry, p: int)
    requires
        0 <= p <= s.len(),
        forall|j: int| 0 <= j < p ==> !row_before(field, x, #[trigger] s[j]),
        p < s.len() ==> row_before(field, x, s[p]),
    ensures
        insert_row(field, s, x) == s.insert(p, x),
    decreases s.len(),
{
    if s.len() == 0 {
        assert(s.insert(p, x) =~= seq![x]);
    } else if p == 0 {
        assert(s.insert(p, x) =~= seq![x] + s);
    } else {
        let t = s.drop_first();
        assert(!row_before(field, x, s[0]));
        assert forall|j: int| 0 <= j < p - 1 implies !row_before(field, x, #[trigger] t[j]) by {
            assert(t[j] == s[j + 1]);
        }
        lemma_insert_row_at(field, t, x, p - 1);
        assert(s.insert(p, x) =~= seq![s[0]] + t.insert(p - 1, x));
    }
}

fn text_before(a: &str, b: &str) -> (r: bool)
    ensures
        r == text_less(a@, b@),
{
    let x = chars_of(a);
    let y = chars_of(b);
    let mut i: usize = 0;
    assert(x@.subrange(0, x@.len() as int) =~= x@);
    assert(y@.subrange(0, y@.len() as int) =~= y@);
    while i < x.len() && i < y.len() && x[i] == y[i]
        invariant
            x@ == a@,
            y@ == b@,
            i <= x@.len(),
            i <= y@.len(),
            text_less(a@, b@) == text_less(x@.subrange(i as int, x@.len() as int), y@.subrange(i as int, y@.len() as int)),
        decreases x@.len() - i,
    {
        let ghost xs = x@.subrange(i as int, x@.len() as int);
        let ghost ys = y@.subrange(i as int, y@.len() as int);
        assert(xs.drop_first() =~= x@.subrange(i + 1, x@.len() as int));
        assert(ys.drop_first() =~= y@.subrange(i + 1, y@.len() as int));
        i = i + 1;
    }
    let ghost xs = x@.subrange(i as int, x@.len() as int);
    let ghost ys = y@.subrange(i as int, y@.len() as int);
    if i == x.len() {
        i < y.len()
    } else if i == y.len() {
        false
    } else {
        assert(xs[0] == x@[i as int] && ys[0] == y@[i as int]);
        (x[i] as u32) < (y[i] as u32)
    }
}

fn goes_before(field: GuidListSortField, a: &EfiGuidListEntry, b: &EfiGuidListEntry) -> (r: bool)
    ensures
        r == row_before(field, *a, *b),
{
    match field {
        GuidListSortField::Guid => match a.guid.compare(&b.guid) {
            core::cmp::Ordering::Less => true,
            _ => false,
        },
        GuidListSortField::Id => text_before(a.name.as_str(), b.name.as_str()),
        GuidListSortField::Unsorted => false,
    }
}

/// The rows that references point to.
pub open spec fn deref_rows(s: Seq<&EfiGuidListEntry>) -> Seq<EfiGuidListEntry> {
    s.map_values(|e: &EfiGuidListEntry| *e)
}

impl EfiGuidList {
    /// An empty table, not yet loaded.
    pub fn new() -> (r: EfiGuidList)
        ensures
            r.guids_map is None,
    {
        EfiGuidList { guids_map: None }
    }

    /// Loads the table from its JSON document: an array of objects with `guid`,
    /// `name` and `description` strings. A row replaces an earlier one of the same
    /// name; the `zero` row for the all-zero GUID is added last. On an error the table
    /// is left as it was.
    pub fn load_from_str(&mut self, text: &str) -> (r: Result<(), GuidListError>)
        ensures
            json_string_objects(text@) is None ==> r matches Err(GuidListError::Json { .. }),
            json_string_objects(text@) is Some ==> match load_spec(text@) {
                Ok(m) => r is Ok && (final(self).guids_map matches Some(rows) && distinct_names(
                    rows@,
                ) && table_view(rows@) == m),
                Err(e) => r == Err::<(), GuidListError>(e),
            },
            r is Err ==> final(self).guids_map == old(self).guids_map,
    {
        let objs = match parse_json_objects(text) {
            Ok(v) => v,
            Err(message) => {
                return Err(GuidListError::Json { message });
            },
        };
        let ghost all = objs.deep_view();
        let mut rows: Vec<EfiGuidListEntry> = Vec::new();
        let mut i: usize = 0;
        while i < objs.len()
            invariant
                i <= objs@.len(),
                all == objs.deep_view(),
                json_string_objects(text@) == Some(all),
                old(self).guids_map == self.guids_map,
                all.len() == objs@.len(),
                distinct_names(rows@),
                rows_spec(all.subrange(0, i as int)) == Ok::<
                    Map<Seq<char>, (EfiGuid, Seq<char>, Seq<char>)>,
                    GuidListError,
                >(table_view(rows@)),
            decreases objs@.len() - i,
        {
            let ghost pre = all.subrange(0, i + 1);
            assert(pre.drop_last() =~= all.subrange(0, i as int));
            assert(pre.last() == objs@[i as int].deep_view());
            let entry = match EfiGuidListEntry::from_pairs(&objs[i]) {
                Ok(e) => e,
                Err(e) => {
                    proof {
                        lemma_rows_error_stays(all, i as int + 1, e);
                        assert(all.subrange(0, all.len() as int) =~= all);
                    }
                    return Err(e);
                },
            };
            put_row(&mut rows, entry);
            i = i + 1;
        }
        assert(all.subrange(0, i as int) =~= all);
        let zero = EfiGuidListEntry {
            guid: EfiGuid { a: 0, b: 0, c: 0, d: [0u8, 0, 0, 0, 0, 0, 0, 0] },
            name: string_from_chars(&chars_of("zero")),
            description: string_from_chars(&chars_of("zeroed sentinel guid")),
        };
        put_row(&mut rows, zero);
        self.guids_map = Some(rows);
        Ok(())
    }

    /// The rows, ordered by GUID, by name, or as stored; none before a load.
    pub fn guids(&self, sorted_by: GuidListSortField) -> (r: Vec<&EfiGuidListEntry>)
        ensures
            match self.guids_map {
                Some(rows) => deref_rows(r@) == sorted_rows(sorted_by, rows@),
                None => r@.len() == 0,
            },
    {
        let rows = match &self.guids_map {
            Some(rows) => rows,
            None => {
                return Vec::new();
            },
        };
        let mut out: Vec<&EfiGuidListEntry> = Vec::new();
        let mut i: usize = 0;
        while i < rows.len()
            invariant
                i <= rows@.len(),
                self.guids_map == Some(*rows),
                deref_rows(out@) == sorted_rows(sorted_by, rows@.subrange(0, i as int)),
            decreases rows@.len() - i,
        {
            let x = &rows[i];
            let mut p: usize = 0;
            while p < out.len() && !goes_before(sorted_by, x, out[p])
                invariant
                    p <= out@.len(),
                    forall|j: int| 0 <= j < p ==> !row_before(sorted_by, *x, #[trigger] deref_rows(out@)[j]),
                decreases out@.len() - p,
            {
                p = p + 1;
            }
            proof {
                lemma_insert_row_at(sorted_by, deref_rows(out@), *x, p as int);
                assert(rows@.subrange(0, i + 1).drop_last() =~= rows@.subrange(0, i as int));
            }
            let ghost before = out@;
            out.insert(p, x);
            assert(deref_rows(out@) =~= deref_rows(before).insert(p as int, *x));
            i = i + 1;
        }
        assert(rows@.subrange(0, i as int) =~= rows@);
        out
    }
}

impl Default for EfiGuidList {
    fn default() -> (r: EfiGuidList)
        ensures
            r.guids_map is None,
    {
        EfiGuidList::new()
    }
}

proof fn lemma_rows_error_stays(all: Seq<Seq<(Seq<char>, Seq<char>)>>, k: int, e: GuidListError)
    requires
        1 <= k <= all.len(),
        rows_spec(all.subrange(0, k - 1)) is Ok,
        entry_spec(all[k - 1]) == Err::<(EfiGuid, Seq<char>, Seq<char>), GuidListError>(e),
    ensures
        rows_spec(all) == Err::<Map<Seq<char>, (EfiGuid, Seq<char>, Seq<char>)>, GuidListError>(e),
    decreases all.len() - k,
{
    assert(all.subrange(0, k).drop_last() =~= all.subrange(0, k - 1));
    assert(all.subrange(0, k).last() == all[k - 1]);
    if k < all.len() {
        lemma_rows_error_prefix(all, k, e);
    } else {
        assert(all.subrange(0, k) =~= all);
    }
}

proof fn lemma_rows_error_prefix(all: Seq<Seq<(Seq<char>, Seq<char>)>>, k: int, e: GuidListError)
    requires
        1 <= k <= all.len(),
        rows_spec(all.subrange(0, k)) == Err::<Map<Seq<char>, (EfiGuid, Seq<char>, Seq<char>)>, GuidListError>(e),
    ensures
        rows_spec(all) == Err::<Map<Seq<char>, (EfiGuid, Seq<char>, Seq<char>)>, GuidListError>(e),
    decreases all.len() - k,
{
    if k < all.len() {
        assert(all.subrange(0, k + 1).drop_last() =~= all.subrange(0, k));
        lemma_rows_error_prefix(all, k + 1, e);
    } else {
        assert(all.subrange(0, k) =~= all);
    }
}

} // verus!

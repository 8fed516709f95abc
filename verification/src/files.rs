//! Directory listings: entries of this machine's directories, the remote
//! listing, and the order the dashboard shows them in (directories first,
//! then by lower-cased name, a stable sort).
use vstd::prelude::*;
use crate::parse::{read_listing, listed_entries, FileEntry, FileEntryView};
use crate::text::{chars_of, decimal, decimal_string};
use crate::task::lit;

verus! {

broadcast use vstd::string::group_string_axioms;

// ─── Comparing names ────────────────────────────────────────────────────────

/// The lower-case form of a text, as `str::to_lowercase` gives it.
pub uninterp spec fn lowercase(s: Seq<char>) -> Seq<char>;

/// Calls `str::to_lowercase`; the result is named by `lowercase`.
#[verifier::external_body]
fn to_lowercase(s: &str) -> (r: String)
    ensures
        r@ == lowercase(s@),
{
    s.to_lowercase()
}

/// Lexicographic order of texts by character value (the order of `String`).
pub open spec fn text_le(a: Seq<char>, b: Seq<char>) -> bool
    decreases a.len(),
{
    if a.len() == 0 {
        true
    } else if b.len() == 0 {
        false
    } else if a[0] != b[0] {
        a[0] < b[0]
    } else {
        text_le(a.drop_first(), b.drop_first())
    }
}

pub proof fn lemma_text_le_total(a: Seq<char>, b: Seq<char>)
    ensures
        text_le(a, b) || text_le(b, a),
    decreases a.len(),
{
    if a.len() > 0 && b.len() > 0 && a[0] == b[0] {
        lemma_text_le_total(a.drop_first(), b.drop_first());
    }
}

pub proof fn lemma_text_le_trans(a: Seq<char>, b: Seq<char>, c: Seq<char>)
    requires
        text_le(a, b),
        text_le(b, c),
    ensures
        text_le(a, c),
    decreases a.len(),
{
    if a.len() > 0 && b.len() > 0 && c.len() > 0 && a[0] == b[0] && b[0] == c[0] {
        lemma_text_le_trans(a.drop_first(), b.drop_first(), c.drop_first());
    }
}

pub proof fn lemma_text_le_antisym(a: Seq<char>, b: Seq<char>)
    requires
        text_le(a, b),
        text_le(b, a),
    ensures
        a == b,
    decreases a.len(),
{
    if a.len() > 0 && b.len() > 0 {
        lemma_text_le_antisym(a.drop_first(), b.drop_first());
        assert(a =~= seq![a[0]] + a.drop_first());
        assert(b =~= seq![b[0]] + b.drop_first());
    } else if a.len() == 0 && b.len() == 0 {
        assert(a =~= b);
    }
}

/// Compares two texts by `text_le`.
pub fn chars_le(a: &Vec<char>, b: &Vec<char>) -> (r: bool)
    ensures
        r == text_le(a@, b@),
{
    let mut i: usize = 0;
    assert(a@.skip(0) =~= a@);
    assert(b@.skip(0) =~= b@);
    while i < a.len() && i < b.len() && a[i] == b[i]
        invariant
            i <= a.len(),
            i <= b.len(),
            text_le(a@, b@) == text_le(a@.skip(i as int), b@.skip(i as int)),
        decreases a.len() - i,
    {
        assert(a@.skip(i as int).drop_first() =~= a@.skip(i + 1));
        assert(b@.skip(i as int).drop_first() =~= b@.skip(i + 1));
        i = i + 1;
    }
    if i == a.len() {
        true
    } else if i == b.len() {
        false
    } else {
        assert(a@.skip(i as int)[0] == a@[i as int]);
        assert(b@.skip(i as int)[0] == b@[i as int]);
        a[i] < b[i]
    }
}

// ─── The order of entries ───────────────────────────────────────────────────

/// `a` may stand before `b`: directories before files, and within each, by
/// lower-cased name.
pub open spec fn entry_le(a: FileEntryView, b: FileEntryView) -> bool {
    (a.is_dir && !b.is_dir) || (a.is_dir == b.is_dir && text_le(
        lowercase(a.name),
        lowercase(b.name),
    ))
}

/// Entries that the order cannot tell apart.
pub open spec fn same_key(a: FileEntryView, b: FileEntryView) -> bool {
    a.is_dir == b.is_dir && lowercase(a.name) == lowercase(b.name)
}

pub open spec fn key_class(y: FileEntryView) -> spec_fn(FileEntryView) -> bool {
    |e: FileEntryView| same_key(e, y)
}

/// Every two entries stand in order.
pub open spec fn entries_sorted(s: Seq<FileEntryView>) -> bool {
    forall|i: int, j: int| 0 <= i < j < s.len() ==> entry_le(#[trigger] s[i], #[trigger] s[j])
}

/// `r` is `s` sorted stably: in order, and the entries of each class of
/// equal keys in the order they had in `s`.
pub open spec fn stably_sorted(s: Seq<FileEntryView>, r: Seq<FileEntryView>) -> bool {
    &&& r.len() == s.len()
    &&& entries_sorted(r)
    &&& forall|y: FileEntryView| #[trigger] r.filter(key_class(y)) == s.filter(key_class(y))
}

proof fn lemma_entry_le_total(a: FileEntryView, b: FileEntryView)
    ensures
        entry_le(a, b) || entry_le(b, a),
{
    lemma_text_le_total(lowercase(a.name), lowercase(b.name));
}

proof fn lemma_entry_le_trans(a: FileEntryView, b: FileEntryView, c: FileEntryView)
    requires
        entry_le(a, b),
        entry_le(b, c),
    ensures
        entry_le(a, c),
{
    if a.is_dir == b.is_dir && b.is_dir == c.is_dir {
        lemma_text_le_trans(lowercase(a.name), lowercase(b.name), lowercase(c.name));
    }
}

proof fn lemma_same_key_le(a: FileEntryView, b: FileEntryView)
    requires
        same_key(a, b),
    ensures
        entry_le(a, b),
{
    lemma_text_le_total(lowercase(a.name), lowercase(b.name));
}

/// Inserting an element that the predicate holds of, behind every element
/// that it holds of, appends it to the filtered sequence; inserting one that
/// it fails leaves the filtered sequence as it was.
proof fn lemma_filter_insert<A>(s: Seq<A>, p: int, x: A, pred: spec_fn(A) -> bool)
    requires
        0 <= p <= s.len(),
        pred(x) ==> forall|k: int| p <= k < s.len() ==> !pred(#[trigger] s[k]),
    ensures
        s.insert(p, x).filter(pred) == if pred(x) {
            s.filter(pred).push(x)
        } else {
            s.filter(pred)
        },
{
    broadcast use Seq::filter_distributes_over_add;

    let a = s.take(p);
    let b = s.skip(p);
    assert(s =~= a + b);
    assert(s.insert(p, x) =~= a + seq![x] + b);
    reveal_with_fuel(Seq::filter, 2);
    assert(seq![x].drop_last() =~= Seq::<A>::empty());
    if pred(x) {
        assert(b.all(|e: A| !pred(e))) by {
            assert forall|k: int| 0 <= k < b.len() implies !pred(#[trigger] b[k]) by {
                assert(b[k] == s[p + k]);
            }
        }
        b.lemma_all_neg_filter_empty(pred);
        assert(b.filter(pred) =~= Seq::<A>::empty());
        assert(seq![x].filter(pred) =~= seq![x]);
        assert((a + seq![x] + b).filter(pred) == (a + seq![x]).filter(pred) + b.filter(pred));
        assert((a + seq![x]).filter(pred) == a.filter(pred) + seq![x].filter(pred));
        assert(s.filter(pred) == a.filter(pred) + b.filter(pred));
        assert(s.insert(p, x).filter(pred) =~= s.filter(pred).push(x));
    } else {
        assert(seq![x].filter(pred) =~= Seq::<A>::empty());
        assert((a + seq![x] + b).filter(pred) == (a + seq![x]).filter(pred) + b.filter(pred));
        assert((a + seq![x]).filter(pred) == a.filter(pred) + seq![x].filter(pred));
        assert(s.filter(pred) == a.filter(pred) + b.filter(pred));
        assert(s.insert(p, x).filter(pred) =~= s.filter(pred));
    }
}

/// One step of insertion sort keeps the result a stable sort of the prefix.
proof fn lemma_insert_step(s: Seq<FileEntryView>, i: int, r: Seq<FileEntryView>, p: int)
    requires
        0 <= i < s.len(),
        stably_sorted(s.take(i), r),
        0 <= p <= r.len(),
        forall|k: int| 0 <= k < p ==> entry_le(#[trigger] r[k], s[i]),
        forall|k: int| p <= k < r.len() ==> !entry_le(#[trigger] r[k], s[i]),
    ensures
        stably_sorted(s.take(i + 1), r.insert(p, s[i])),
{
    reveal_with_fuel(Seq::filter, 1);
    let x = s[i];
    let n = r.insert(p, x);
    assert(s.take(i + 1).drop_last() =~= s.take(i));
    assert(s.take(i + 1).last() == x);
    assert forall|a: int, b: int| 0 <= a < b < n.len() implies entry_le(#[trigger] n[a], #[trigger] n[b]) by {
        if b < p {
            assert(n[a] == r[a] && n[b] == r[b]);
        } else if a > p {
            assert(n[a] == r[a - 1] && n[b] == r[b - 1]);
        } else if a == p {
            assert(n[b] == r[b - 1]);
            lemma_entry_le_total(r[b - 1], x);
        } else if b == p {
            assert(n[a] == r[a]);
        } else {
            assert(n[a] == r[a] && n[b] == r[b - 1]);
            assert(entry_le(r[a], x));
            lemma_entry_le_total(r[b - 1], x);
            lemma_entry_le_trans(r[a], x, r[b - 1]);
        }
    }
    assert forall|y: FileEntryView| #[trigger] n.filter(key_class(y)) == s.take(i + 1).filter(
        key_class(y),
    ) by {
        let pred = key_class(y);
        if pred(x) {
            assert forall|k: int| p <= k < r.len() implies !pred(#[trigger] r[k]) by {
                if pred(r[k]) {
                    assert(same_key(r[k], x));
                    lemma_same_key_le(r[k], x);
                }
            }
        }
        lemma_filter_insert(r, p, x, pred);
        assert(r.filter(pred) == s.take(i).filter(pred));
    }
}

// ─── Sorting ────────────────────────────────────────────────────────────────

/// Sorts entries stably: directories first, then by lower-cased name.
pub fn sort_file_entries(v: Vec<FileEntry>) -> (r: Vec<FileEntry>)
    ensures
        stably_sorted(v@.map_values(|e: FileEntry| e@), r@.map_values(|e: FileEntry| e@)),
{
    let ghost s = v@.map_values(|e: FileEntry| e@);
    let mut out: Vec<FileEntry> = Vec::new();
    let mut keys: Vec<Vec<char>> = Vec::new();
    let mut rest = v;
    let n = rest.len();
    assert(s.take(0) =~= Seq::<FileEntryView>::empty());
    assert(out@.map_values(|e: FileEntry| e@) =~= Seq::<FileEntryView>::empty());
    let mut i: usize = 0;
    while i < n
        invariant
            n == v@.len(),
            i <= n,
            rest@ == v@.skip(i as int),
            s == v@.map_values(|e: FileEntry| e@),
            keys@.len() == out@.len(),
            forall|k: int| 0 <= k < out@.len() ==> #[trigger] keys@[k]@ == lowercase(out@[k].name@),
            stably_sorted(s.take(i as int), out@.map_values(|e: FileEntry| e@)),
        decreases n - i,
    {
        assert(rest@[0] == v@[i as int]);
        let e = rest.remove(0);
        let key = to_lowercase(e.name.as_str());
        let kc = chars_of(key.as_str());
        let ghost ov = out@.map_values(|e: FileEntry| e@);
        let mut p = out.len();
        while p > 0 && !(out[p - 1].is_dir == e.is_dir && chars_le(&keys[p - 1], &kc) || out[p - 1].is_dir && !e.is_dir)
            invariant
                p <= out@.len(),
                keys@.len() == out@.len(),
                forall|k: int| 0 <= k < out@.len() ==> #[trigger] keys@[k]@ == lowercase(out@[k].name@),
                kc@ == lowercase(e.name@),
                ov == out@.map_values(|e: FileEntry| e@),
                forall|k: int| p <= k < ov.len() ==> !entry_le(#[trigger] ov[k], e@),
            decreases p,
        {
            assert(ov[p - 1] == out@[p - 1]@);
            p = p - 1;
        }
        proof {
            if p > 0 {
                assert(ov[p - 1] == out@[p - 1]@);
                assert(entry_le(ov[p - 1], e@));
                assert forall|k: int| 0 <= k < p implies entry_le(#[trigger] ov[k], e@) by {
                    if k < p - 1 {
                        lemma_entry_le_trans(ov[k], ov[p - 1], e@);
                    }
                }
            }
            assert(s[i as int] == e@);
            lemma_insert_step(s, i as int, ov, p as int);
        }
        let ghost old_keys = keys@;
        let ghost old_out = out@;
        out.insert(p, e);
        keys.insert(p, kc);
        assert(out@.map_values(|e: FileEntry| e@) =~= ov.insert(p as int, s[i as int]));
        assert forall|k: int| 0 <= k < out@.len() implies #[trigger] keys@[k]@ == lowercase(out@[k].name@) by {
            if k < p {
                assert(keys@[k] == old_keys[k] && out@[k] == old_out[k]);
            } else if k > p {
                assert(keys@[k] == old_keys[k - 1] && out@[k] == old_out[k - 1]);
            }
        }
        assert(rest@ =~= v@.skip(i + 1));
        i = i + 1;
    }
    assert(s.take(n as int) =~= s);
    out
}


// ─── Listings ───────────────────────────────────────────────────────────────

/// Reads a remote directory listing (see `file_list`) into entries, sorted
/// stably with directories first, then by lower-cased name. It never fails.
pub fn parse_file_entries(output: &str) -> (r: Result<Vec<FileEntry>, String>)
    ensures
        r matches Ok(v) && stably_sorted(listed_entries(output@), v@.map_values(|e: FileEntry| e@)),
{
    let entries = read_listing(output);
    Ok(sort_file_entries(entries))
}

/// The mode text that a local listing shows for directories and for files.
pub open spec fn local_permissions(is_dir: bool) -> Seq<char> {
    if is_dir {
        "drwxr-xr-x"@
    } else {
        "-rw-r--r--"@
    }
}

/// The modification time a local listing shows: whole seconds since the
/// epoch, or nothing where the time could not be read.
pub open spec fn local_modified(secs: Option<u64>) -> Seq<char> {
    match secs {
        Some(t) => decimal(t as nat),
        None => Seq::empty(),
    }
}

/// An entry of a local directory.
pub fn local_file_entry(name: String, is_dir: bool, size: u64, modified_secs: Option<u64>) -> (e: FileEntry)
    ensures
        e@ == (FileEntryView {
            name: name@,
            is_dir,
            size,
            modified: local_modified(modified_secs),
            permissions: local_permissions(is_dir),
        }),
{
    let modified = match modified_secs {
        Some(t) => decimal_string(t),
        None => String::new(),
    };
    let permissions = if is_dir {
        lit("drwxr-xr-x")
    } else {
        lit("-rw-r--r--")
    };
    FileEntry { name, is_dir, size, modified, permissions }
}

} // verus!

//! The file browser of the terminal UI: which directory entries are listed, in
//! which order, and the selection within them.

use vstd::prelude::*;

use crate::text::{chars_equal, chars_of, lex_less, lex_less_exec, lowercase, to_lowercase};
use crate::text::{lemma_lex_less_irreflexive, lemma_lex_less_total, lemma_lex_less_transitive};
use crate::tui::form::opt_view;

verus! {

broadcast use vstd::seq_lib::group_to_multiset_ensures;

// ---------------------------------------------------------------------------
// Paths
// ---------------------------------------------------------------------------

/// The extension of a path, as `Path::extension` gives it (by the path rules of
/// the build target).
pub uninterp spec fn path_extension(path: Seq<char>) -> Option<Seq<char>>;

/// The parent directory of a path, as `Path::parent` gives it (by the path rules
/// of the build target).
pub uninterp spec fn path_parent(path: Seq<char>) -> Option<Seq<char>>;

/// Calls `Path::extension` on `path`. Its result, which follows std's rules on file
/// names, is named `path_extension` and nothing more is claimed of it.
#[verifier::external_body]
fn extension_of(path: &str) -> (r: Option<String>)
    ensures
        opt_view(r) == path_extension(path@),
{
    match std::path::Path::new(path).extension() {
        Some(e) => Some(e.to_string_lossy().into_owned()),
        None => None,
    }
}

/// Calls `Path::parent` on `path`. Its result, which follows std's rules on path
/// components, is named `path_parent` and nothing more is claimed of it.
#[verifier::external_body]
fn parent_of(path: &str) -> (r: Option<String>)
    ensures
        opt_view(r) == path_parent(path@),
{
    match std::path::Path::new(path).parent() {
        Some(p) => Some(p.to_string_lossy().into_owned()),
        None => None,
    }
}

/// The last component of a path, as `Path::file_name` gives it (by the path rules
/// of the build target).
pub uninterp spec fn path_file_name(path: Seq<char>) -> Option<Seq<char>>;

/// Calls `Path::file_name` on `path`. Its result, which follows std's rules on path
/// components, is named `path_file_name` and nothing more is claimed of it.
#[verifier::external_body]
pub(crate) fn file_name_of(path: &str) -> (r: Option<String>)
    ensures
        opt_view(r) == path_file_name(path@),
{
    match std::path::Path::new(path).file_name() {
        Some(n) => Some(n.to_string_lossy().into_owned()),
        None => None,
    }
}

/// The video extensions that are recognised, in lower case.
pub open spec fn video_extensions() -> Seq<Seq<char>> {
    seq![
        seq!['m', 'p', '4'],
        seq!['m', 'o', 'v'],
        seq!['m', 'k', 'v'],
        seq!['a', 'v', 'i'],
        seq!['w', 'e', 'b', 'm'],
        seq!['m', '4', 'v'],
        seq!['f', 'l', 'v'],
        seq!['w', 'm', 'v'],
        seq!['m', 'p', 'g'],
        seq!['m', 'p', 'e', 'g'],
        seq!['t', 's'],
        seq!['m', '2', 't', 's'],
        seq!['3', 'g', 'p'],
        seq!['o', 'g', 'v'],
    ]
}

/// Whether a path names a video: its extension, in lower case, is a recognised one.
pub open spec fn is_video_path(path: Seq<char>) -> bool {
    match path_extension(path) {
        Some(e) => video_extensions().contains(lowercase(e)),
        None => false,
    }
}

/// Whether `ext` (already in lower case) is a recognised video extension.
pub fn is_video_extension(ext: &str) -> (r: bool)
    ensures
        r == video_extensions().contains(ext@),
{
    let e = chars_of(ext);
    let known: [&[char]; 14] = [
        &['m', 'p', '4'],
        &['m', 'o', 'v'],
        &['m', 'k', 'v'],
        &['a', 'v', 'i'],
        &['w', 'e', 'b', 'm'],
        &['m', '4', 'v'],
        &['f', 'l', 'v'],
        &['w', 'm', 'v'],
        &['m', 'p', 'g'],
        &['m', 'p', 'e', 'g'],
        &['t', 's'],
        &['m', '2', 't', 's'],
        &['3', 'g', 'p'],
        &['o', 'g', 'v'],
    ];
    proof {
        assert(known@.map_values(|s: &[char]| s@) =~= video_extensions());
    }
    let mut i: usize = 0;
    while i < 14
        invariant
            i <= 14,
            known@.len() == 14,
            e@ == ext@,
            known@.map_values(|s: &[char]| s@) == video_extensions(),
            forall|k: int| 0 <= k < i ==> video_extensions()[k] != ext@,
        decreases 14 - i,
    {
        if chars_equal(e.as_slice(), known[i]) {
            proof {
                assert(video_extensions()[i as int] == known@[i as int]@);
            }
            return true;
        }
        proof {
            assert(video_extensions()[i as int] == known@[i as int]@);
        }
        i = i + 1;
    }
    proof {
        if video_extensions().contains(ext@) {
            let k = choose|k: int| 0 <= k < 14 && video_extensions()[k] == ext@;
            assert(video_extensions()[k] != ext@);
        }
    }
    false
}

/// Whether `path` names a video file (by its extension, case-insensitively).
pub fn is_video(path: &str) -> (r: bool)
    ensures
        r == is_video_path(path@),
{
    match extension_of(path) {
        Some(e) => {
            let lower = to_lowercase(e.as_str());
            is_video_extension(lower.as_str())
        },
        None => false,
    }
}

// ---------------------------------------------------------------------------
// Entries
// ---------------------------------------------------------------------------

/// An entry of a directory.
pub struct Entry {
    pub name: String,
    pub path: String,
    pub is_dir: bool,
}

/// The abstract value of an entry.
pub struct EntryModel {
    pub name: Seq<char>,
    pub path: Seq<char>,
    pub is_dir: bool,
}

impl View for Entry {
    type V = EntryModel;

    open spec fn view(&self) -> EntryModel {
        EntryModel { name: self.name@, path: self.path@, is_dir: self.is_dir }
    }
}

/// The abstract values of a list of entries.
pub open spec fn entries_view(v: Seq<Entry>) -> Seq<EntryModel> {
    Seq::new(v.len(), |i: int| v[i]@)
}

/// Hidden entries are those whose name starts with a dot.
pub open spec fn is_hidden(e: EntryModel) -> bool {
    e.name.len() > 0 && e.name[0] == '.'
}

/// Directories that the browser lists.
pub open spec fn listed_dir(e: EntryModel) -> bool {
    !is_hidden(e) && e.is_dir
}

/// Files that the browser lists: visible videos.
pub open spec fn listed_video(e: EntryModel) -> bool {
    !is_hidden(e) && !e.is_dir && is_video_path(e.path)
}

/// The key that entries are ordered by: the name in lower case.
pub open spec fn sort_key(e: EntryModel) -> Seq<char> {
    lowercase(e.name)
}

/// `x` inserted into `s` after every element whose key is not above its own.
pub open spec fn insert_by_key(s: Seq<EntryModel>, x: EntryModel) -> Seq<EntryModel>
    decreases s.len(),
{
    if s.len() == 0 {
        seq![x]
    } else if lex_less(sort_key(x), sort_key(s.last())) {
        insert_by_key(s.drop_last(), x).push(s.last())
    } else {
        s.push(x)
    }
}

/// `s` sorted by key, entries with equal keys keeping their order (a stable sort,
/// as `sort_by_key` performs).
pub open spec fn sort_by_key(s: Seq<EntryModel>) -> Seq<EntryModel>
    decreases s.len(),
{
    if s.len() == 0 {
        s
    } else {
        insert_by_key(sort_by_key(s.drop_last()), s.last())
    }
}

/// The entries of `s` that the browser lists as directories, in order.
pub open spec fn listed_dirs(s: Seq<EntryModel>) -> Seq<EntryModel>
    decreases s.len(),
{
    if s.len() == 0 {
        s
    } else if listed_dir(s.last()) {
        listed_dirs(s.drop_last()).push(s.last())
    } else {
        listed_dirs(s.drop_last())
    }
}

/// The entries of `s` that the browser lists as videos, in order.
pub open spec fn listed_videos(s: Seq<EntryModel>) -> Seq<EntryModel>
    decreases s.len(),
{
    if s.len() == 0 {
        s
    } else if listed_video(s.last()) {
        listed_videos(s.drop_last()).push(s.last())
    } else {
        listed_videos(s.drop_last())
    }
}

proof fn lemma_listed_members(s: Seq<EntryModel>)
    ensures
        forall|i: int| 0 <= i < listed_dirs(s).len() ==> listed_dir(#[trigger] listed_dirs(s)[i]),
        forall|i: int| 0 <= i < listed_videos(s).len() ==> listed_video(#[trigger] listed_videos(s)[i]),
    decreases s.len(),
{
    if s.len() > 0 {
        lemma_listed_members(s.drop_last());
        let d = listed_dirs(s.drop_last());
        let v = listed_videos(s.drop_last());
        assert forall|i: int| 0 <= i < listed_dirs(s).len() implies listed_dir(#[trigger] listed_dirs(s)[i]) by {
            if i < d.len() {
                assert(listed_dirs(s)[i] == d[i]);
            }
        }
        assert forall|i: int| 0 <= i < listed_videos(s).len() implies listed_video(#[trigger] listed_videos(s)[i]) by {
            if i < v.len() {
                assert(listed_videos(s)[i] == v[i]);
            }
        }
    }
}

/// What the browser lists for the entries of a directory: the visible
/// directories, then the visible videos, each group sorted by lower-case name.
pub open spec fn listing(raw: Seq<EntryModel>) -> Seq<EntryModel> {
    sort_by_key(listed_dirs(raw)) + sort_by_key(listed_videos(raw))
}

/// Keys never decrease along `s`.
pub open spec fn sorted_by_key(s: Seq<EntryModel>) -> bool {
    forall|i: int, j: int|
        0 <= i < j < s.len() ==> !lex_less(sort_key(#[trigger] s[j]), sort_key(#[trigger] s[i]))
}

proof fn lemma_insert_at(s: Seq<EntryModel>, x: EntryModel, p: int)
    requires
        0 <= p <= s.len(),
        forall|q: int| p <= q < s.len() ==> lex_less(sort_key(x), sort_key(#[trigger] s[q])),
        p == 0 || !lex_less(sort_key(x), sort_key(s[p - 1])),
    ensures
        insert_by_key(s, x) == s.insert(p, x),
    decreases s.len(),
{
    if s.len() == 0 {
        assert(s.insert(p, x) =~= seq![x]);
    } else if p == s.len() {
        assert(s.insert(p, x) =~= s.push(x));
    } else {
        let t = s.drop_last();
        assert forall|q: int| p <= q < t.len() implies lex_less(sort_key(x), sort_key(#[trigger] t[q])) by {
            assert(t[q] == s[q]);
        }
        if p > 0 {
            assert(t[p - 1] == s[p - 1]);
        }
        lemma_insert_at(t, x, p);
        assert(t.insert(p, x).push(s.last()) =~= s.insert(p, x));
    }
}

proof fn lemma_insert_multiset(s: Seq<EntryModel>, x: EntryModel)
    ensures
        insert_by_key(s, x).to_multiset() == s.to_multiset().insert(x),
    decreases s.len(),
{
    if s.len() == 0 {
        assert(seq![x] =~= Seq::<EntryModel>::empty().push(x));
    } else if lex_less(sort_key(x), sort_key(s.last())) {
        let t = s.drop_last();
        lemma_insert_multiset(t, x);
        assert(t.push(s.last()) =~= s);
        assert(insert_by_key(s, x).to_multiset() =~= s.to_multiset().insert(x));
    }
}

proof fn lemma_sort_multiset(s: Seq<EntryModel>)
    ensures
        sort_by_key(s).to_multiset() == s.to_multiset(),
    decreases s.len(),
{
    if s.len() > 0 {
        lemma_sort_multiset(s.drop_last());
        lemma_insert_multiset(sort_by_key(s.drop_last()), s.last());
        assert(s.drop_last().push(s.last()) =~= s);
    }
}

proof fn lemma_insert_sorted(s: Seq<EntryModel>, x: EntryModel)
    requires
        sorted_by_key(s),
    ensures
        sorted_by_key(insert_by_key(s, x)),
    decreases s.len(),
{
    let kx = sort_key(x);
    if s.len() == 0 {
    } else if lex_less(kx, sort_key(s.last())) {
        let t = s.drop_last();
        let last = s.last();
        assert(sorted_by_key(t)) by {
            assert forall|i: int, j: int| 0 <= i < j < t.len() implies !lex_less(
                sort_key(#[trigger] t[j]),
                sort_key(#[trigger] t[i]),
            ) by {
                assert(t[i] == s[i] && t[j] == s[j]);
            }
        }
        lemma_insert_sorted(t, x);
        lemma_insert_multiset(t, x);
        let r = insert_by_key(t, x);
        assert forall|k: int| 0 <= k < r.len() implies !lex_less(sort_key(last), sort_key(#[trigger] r[k])) by {
            let y = r[k];
            assert(r.to_multiset().count(y) > 0);
            if y == x {
                if lex_less(sort_key(last), kx) {
                    lemma_lex_less_transitive(kx, sort_key(last), kx);
                    lemma_lex_less_irreflexive(kx);
                }
            } else {
                assert(t.to_multiset().count(y) > 0);
                assert(t.contains(y));
                let m = choose|m: int| 0 <= m < t.len() && t[m] == y;
                assert(s[m] == y);
                assert(s[s.len() - 1] == last);
            }
        }
        assert forall|i: int, j: int| 0 <= i < j < r.push(last).len() implies !lex_less(
            sort_key(#[trigger] r.push(last)[j]),
            sort_key(#[trigger] r.push(last)[i]),
        ) by {
            if j == r.len() {
                assert(r.push(last)[i] == r[i]);
            } else {
                assert(r.push(last)[i] == r[i] && r.push(last)[j] == r[j]);
            }
        }
    } else {
        let last = s.last();
        assert forall|i: int, j: int| 0 <= i < j < s.push(x).len() implies !lex_less(
            sort_key(#[trigger] s.push(x)[j]),
            sort_key(#[trigger] s.push(x)[i]),
        ) by {
            if j == s.len() {
                let y = s[i];
                assert(s.push(x)[i] == y);
                if lex_less(kx, sort_key(y)) {
                    lemma_lex_less_total(sort_key(last), sort_key(y));
                    if i < s.len() - 1 {
                        assert(!lex_less(sort_key(s[s.len() - 1]), sort_key(s[i])));
                    }
                    if lex_less(sort_key(y), sort_key(last)) {
                        lemma_lex_less_transitive(kx, sort_key(y), sort_key(last));
                    }
                }
            } else {
                assert(s.push(x)[i] == s[i] && s.push(x)[j] == s[j]);
            }
        }
    }
}

proof fn lemma_sort_sorted(s: Seq<EntryModel>)
    ensures
        sorted_by_key(sort_by_key(s)),
    decreases s.len(),
{
    if s.len() > 0 {
        lemma_sort_sorted(s.drop_last());
        lemma_insert_sorted(sort_by_key(s.drop_last()), s.last());
    }
}

/// The listing holds the visible directories and the visible videos of the
/// directory, each exactly as often as they occur in it, and nothing else.
pub proof fn lemma_listing_members(raw: Seq<EntryModel>)
    ensures
        listing(raw).to_multiset() == listed_dirs(raw).to_multiset().add(
            listed_videos(raw).to_multiset(),
        ),
{
    let d = listed_dirs(raw);
    let v = listed_videos(raw);
    lemma_sort_multiset(d);
    lemma_sort_multiset(v);
    vstd::seq_lib::lemma_multiset_commutative(sort_by_key(d), sort_by_key(v));
}

/// In the listing, the directories come first, then the videos; within each
/// group the whole lower-case names never decrease: an entry whose lower-case
/// name is lexicographically smaller than another's comes before it.
pub proof fn lemma_listing_order(raw: Seq<EntryModel>)
    ensures
        ({
            let d = sort_by_key(listed_dirs(raw));
            let v = sort_by_key(listed_videos(raw));
            &&& listing(raw) == d + v
            &&& forall|i: int| 0 <= i < d.len() ==> (#[trigger] d[i]).is_dir
            &&& forall|i: int| 0 <= i < v.len() ==> !(#[trigger] v[i]).is_dir
            &&& forall|i: int, j: int|
                0 <= i < j < d.len() ==> !lex_less(
                    lowercase((#[trigger] d[j]).name),
                    lowercase((#[trigger] d[i]).name),
                )
            &&& forall|i: int, j: int|
                0 <= i < j < v.len() ==> !lex_less(
                    lowercase((#[trigger] v[j]).name),
                    lowercase((#[trigger] v[i]).name),
                )
        }),
{
    let df = listed_dirs(raw);
    let vf = listed_videos(raw);
    let d = sort_by_key(df);
    let v = sort_by_key(vf);
    lemma_sort_sorted(df);
    lemma_sort_sorted(vf);
    lemma_sort_multiset(df);
    lemma_sort_multiset(vf);
    assert forall|i: int| 0 <= i < d.len() implies (#[trigger] d[i]).is_dir by {
        assert(d.to_multiset().count(d[i]) > 0);
        assert(df.contains(d[i]));
        lemma_listed_members(raw);
    }
    assert forall|i: int| 0 <= i < v.len() implies !(#[trigger] v[i]).is_dir by {
        assert(v.to_multiset().count(v[i]) > 0);
        assert(vf.contains(v[i]));
        lemma_listed_members(raw);
    }
}

/// Key of an entry, as characters.
fn key_of(e: &Entry) -> (k: Vec<char>)
    ensures
        k@ == sort_key(e@),
{
    let lower = to_lowercase(e.name.as_str());
    chars_of(lower.as_str())
}

/// Inserts `x` (whose key is `k`) into the sorted list `out`, whose keys are `keys`.
fn insert_sorted(out: &mut Vec<Entry>, keys: &mut Vec<Vec<char>>, x: Entry, k: Vec<char>)
    requires
        old(keys)@.len() == old(out)@.len(),
        forall|i: int| 0 <= i < old(keys)@.len() ==> (#[trigger] old(keys)@[i])@ == sort_key(old(out)@[i]@),
        k@ == sort_key(x@),
    ensures
        entries_view(final(out)@) == insert_by_key(entries_view(old(out)@), x@),
        final(keys)@.len() == final(out)@.len(),
        forall|i: int| 0 <= i < final(keys)@.len() ==> (#[trigger] final(keys)@[i])@ == sort_key(final(out)@[i]@),
{
    let ghost s = entries_view(out@);
    let mut p = out.len();
    while p > 0 && lex_less_exec(k.as_slice(), keys[p - 1].as_slice())
        invariant
            p <= out@.len(),
            keys@.len() == out@.len(),
            s == entries_view(out@),
            forall|i: int| 0 <= i < keys@.len() ==> (#[trigger] keys@[i])@ == sort_key(out@[i]@),
            k@ == sort_key(x@),
            forall|q: int| p <= q < s.len() ==> lex_less(sort_key(x@), sort_key(#[trigger] s[q])),
        decreases p,
    {
        proof {
            assert(keys@[p - 1]@ == sort_key(s[p - 1]));
        }
        p = p - 1;
    }
    proof {
        if p > 0 {
            assert(keys@[p - 1]@ == sort_key(s[p - 1]));
        }
        lemma_insert_at(s, x@, p as int);
    }
    let ghost xv = x@;
    out.insert(p, x);
    keys.insert(p, k);
    proof {
        assert(entries_view(out@) =~= s.insert(p as int, xv));
        assert forall|i: int| 0 <= i < keys@.len() implies (#[trigger] keys@[i])@ == sort_key(out@[i]@) by {
            if i < p {
                assert(keys@[i] == old(keys)@[i] && out@[i] == old(out)@[i]);
            } else if i > p {
                assert(keys@[i] == old(keys)@[i - 1] && out@[i] == old(out)@[i - 1]);
            }
        }
    }
}

/// A copy of an entry.
fn copy_entry(e: &Entry) -> (r: Entry)
    ensures
        r@ == e@,
{
    Entry { name: e.name.clone(), path: e.path.clone(), is_dir: e.is_dir }
}

/// What the browser lists of the raw entries of a directory: visible
/// directories first, then visible video files, each group sorted by lower-case
/// name (entries with equal names keep their order).
pub fn arrange_entries(raw: &Vec<Entry>) -> (r: Vec<Entry>)
    ensures
        entries_view(r@) == listing(entries_view(raw@)),
{
    let ghost rv = entries_view(raw@);
    let mut dirs: Vec<Entry> = Vec::new();
    let mut dir_keys: Vec<Vec<char>> = Vec::new();
    let mut files: Vec<Entry> = Vec::new();
    let mut file_keys: Vec<Vec<char>> = Vec::new();
    let mut i: usize = 0;
    proof {
        assert(rv.take(0) =~= Seq::<EntryModel>::empty());
        assert(entries_view(dirs@) =~= Seq::<EntryModel>::empty());
        assert(entries_view(files@) =~= Seq::<EntryModel>::empty());
    }
    while i < raw.len()
        invariant
            i <= raw@.len(),
            rv == entries_view(raw@),
            entries_view(dirs@) == sort_by_key(listed_dirs(rv.take(i as int))),
            entries_view(files@) == sort_by_key(listed_videos(rv.take(i as int))),
            dir_keys@.len() == dirs@.len(),
            forall|k: int| 0 <= k < dir_keys@.len() ==> (#[trigger] dir_keys@[k])@ == sort_key(dirs@[k]@),
            file_keys@.len() == files@.len(),
            forall|k: int| 0 <= k < file_keys@.len() ==> (#[trigger] file_keys@[k])@ == sort_key(files@[k]@),
        decreases raw@.len() - i,
    {
        let e = &raw[i];
        let ghost ev = e@;
        let ghost pre = rv.take(i as int);
        proof {
            assert(rv[i as int] == ev);
            assert(rv.take(i + 1).drop_last() =~= pre);
            assert(rv.take(i + 1).last() == ev);
            assert(listed_dirs(pre).push(ev).drop_last() =~= listed_dirs(pre));
            assert(listed_videos(pre).push(ev).drop_last() =~= listed_videos(pre));
        }
        let c = chars_of(e.name.as_str());
        let hidden = c.len() > 0 && c[0] == '.';
        if !hidden && e.is_dir {
            let k = key_of(e);
            insert_sorted(&mut dirs, &mut dir_keys, copy_entry(e), k);
        } else if !hidden && !e.is_dir && is_video(e.path.as_str()) {
            let k = key_of(e);
            insert_sorted(&mut files, &mut file_keys, copy_entry(e), k);
        }
        i = i + 1;
    }
    proof {
        assert(rv.take(raw@.len() as int) =~= rv);
    }
    let ghost dv = entries_view(dirs@);
    let ghost fv = entries_view(files@);
    dirs.append(&mut files);
    proof {
        assert(entries_view(dirs@) =~= dv + fv);
    }
    dirs
}

// ---------------------------------------------------------------------------
// Selection
// ---------------------------------------------------------------------------

/// The position that a selection counts from: the selected index taken as a
/// 32-bit signed number (wrapping, as `as i32` does), or 0 without a selection.
pub open spec fn sel_position(sel: Option<int>) -> int {
    match sel {
        Some(c) => (c as i32) as int,
        None => 0,
    }
}

/// The selection after moving it by `delta` in a list of `len` items, wrapping
/// around the ends; no selection counts as the first item, and an empty list keeps
/// the selection as it is.
pub open spec fn moved(sel: Option<int>, len: int, delta: int) -> Option<int> {
    if len == 0 {
        sel
    } else {
        Some((sel_position(sel) + delta) % len)
    }
}

/// A selection as a mathematical integer.
pub open spec fn sel_view(s: Option<usize>) -> Option<int> {
    match s {
        Some(i) => Some(i as int),
        None => None,
    }
}

/// Moves the selection by `delta` among `len` items, wrapping around the ends (the
/// Euclidean remainder of the 32-bit position). Nothing happens on an empty list.
/// The 32-bit sum of the position and `delta` must not overflow.
pub fn move_sel(state: &mut Option<usize>, len: usize, delta: i32)
    requires
        len <= i32::MAX,
        i32::MIN <= sel_position(sel_view(*old(state))) + delta <= i32::MAX,
    ensures
        sel_view(*final(state)) == moved(sel_view(*old(state)), len as int, delta as int),
{
    if len == 0 {
        return;
    }
    let cur: i64 = match *state {
        Some(c) => (c as i32) as i64,
        None => 0,
    };
    let t: i64 = cur + delta as i64;
    let n: i64 = len as i64;
    let next: i64 = if t >= 0 {
        let r = ((t as u64) % (n as u64)) as i64;
        proof {
            vstd::arithmetic::div_mod::lemma_fundamental_div_mod(t as int, n as int);
        }
        r
    } else {
        let m = ((-t) as u64) % (n as u64);
        let r: i64 = if m == 0 {
            0
        } else {
            n - (m as i64)
        };
        proof {
            let a = (-t) as int;
            let q = a / (n as int);
            vstd::arithmetic::div_mod::lemma_fundamental_div_mod(a, n as int);
            assert(a == (n as int) * q + (m as int));
            if m == 0 {
                assert(t as int == (-q) * (n as int) + 0) by (nonlinear_arith)
                    requires
                        a == (n as int) * q,
                        t as int == -a,
                ;
                vstd::arithmetic::div_mod::lemma_fundamental_div_mod_converse(t as int, n as int, -q, 0);
            } else {
                assert(t as int == (-q - 1) * (n as int) + (n - m)) by (nonlinear_arith)
                    requires
                        a == (n as int) * q + (m as int),
                        t as int == -a,
                ;
                vstd::arithmetic::div_mod::lemma_fundamental_div_mod_converse(
                    t as int,
                    n as int,
                    -q - 1,
                    (n - m) as int,
                );
            }
        }
        r
    };
    proof {
        if t >= 0 {
            assert((t as u64) % (n as u64) == (t as int) % (n as int));
        }
    }
    *state = Some(next as usize);
}

/// The abstract state of the browser.
pub struct BrowserModel {
    pub cwd: Seq<char>,
    pub entries: Seq<EntryModel>,
    pub selected: Option<int>,
}

/// The file browser: the current directory, its listed entries, and the selected one.
pub struct Browser {
    pub cwd: String,
    pub entries: Vec<Entry>,
    pub selected: Option<usize>,
}

impl View for Browser {
    type V = BrowserModel;

    open spec fn view(&self) -> BrowserModel {
        BrowserModel {
            cwd: self.cwd@,
            entries: entries_view(self.entries@),
            selected: sel_view(self.selected),
        }
    }
}

/// What the browser does when asked to open the selected entry.
pub enum Opened {
    /// Nothing is selected.
    Nothing,
    /// A directory was entered: its entries are to be read and given to `reload`.
    Directory,
    /// A video was chosen.
    Video(String),
}

impl BrowserModel {
    /// A list small enough for 32-bit positions, and a selection inside it.
    pub open spec fn wf(self) -> bool {
        &&& self.entries.len() <= i32::MAX
        &&& match self.selected {
            Some(i) => 0 <= i < self.entries.len(),
            None => true,
        }
    }

    /// The browser showing `entries`: the first one selected, if there is one.
    pub open spec fn reload(self, entries: Seq<EntryModel>) -> BrowserModel {
        BrowserModel {
            entries,
            selected: if entries.len() > 0 {
                Some(0)
            } else {
                None
            },
            ..self
        }
    }

    /// The browser after moving the selection down one entry, wrapping around.
    pub open spec fn next(self) -> BrowserModel {
        BrowserModel { selected: moved(self.selected, self.entries.len() as int, 1), ..self }
    }

    /// The browser after moving the selection up one entry, wrapping around.
    pub open spec fn prev(self) -> BrowserModel {
        BrowserModel { selected: moved(self.selected, self.entries.len() as int, -1), ..self }
    }

    /// The selected entry, when the selection designates one.
    pub open spec fn selected_entry(self) -> Option<EntryModel> {
        match self.selected {
            Some(i) => if 0 <= i < self.entries.len() {
                Some(self.entries[i])
            } else {
                None
            },
            None => None,
        }
    }

    /// The browser after opening the selected entry: a directory becomes the
    /// current directory (its entries are read next); a file is left as it is.
    pub open spec fn open(self) -> BrowserModel {
        match self.selected_entry() {
            Some(e) => if e.is_dir {
                BrowserModel { cwd: e.path, ..self }
            } else {
                self
            },
            None => self,
        }
    }

    /// The browser after going to the parent directory, when there is one.
    pub open spec fn up(self) -> BrowserModel {
        match path_parent(self.cwd) {
            Some(p) => BrowserModel { cwd: p, ..self },
            None => self,
        }
    }
}

impl Entry {
    /// The text of the entry in the list: directories end with `/`, files are
    /// indented by two spaces.
    pub fn list_text(&self) -> (r: String)
        ensures
            r@ == if self.is_dir {
                self.name@ + "/"@
            } else {
                "  "@ + self.name@
            },
    {
        if self.is_dir {
            crate::text::concatenate(self.name.as_str(), "/")
        } else {
            crate::text::concatenate("  ", self.name.as_str())
        }
    }
}

impl Browser {
    /// A browser in `cwd` showing `entries`, the first one selected.
    pub fn new(cwd: String, entries: Vec<Entry>) -> (r: Browser)
        requires
            entries@.len() <= i32::MAX,
        ensures
            r@ == (BrowserModel { cwd: cwd@, entries: Seq::empty(), selected: None }).reload(
                entries_view(entries@),
            ),
            r@.wf(),
    {
        let mut b = Browser { cwd, entries: Vec::new(), selected: None };
        b.reload(entries);
        b
    }

    /// Shows `entries` (those of the current directory), the first one selected.
    pub fn reload(&mut self, entries: Vec<Entry>)
        requires
            entries@.len() <= i32::MAX,
        ensures
            final(self)@ == old(self)@.reload(entries_view(entries@)),
            final(self)@.wf(),
    {
        self.selected = if entries.len() > 0 {
            Some(0)
        } else {
            None
        };
        self.entries = entries;
    }

    /// The selected entry.
    pub fn selected(&self) -> (r: Option<&Entry>)
        ensures
            match r {
                Some(e) => self@.selected_entry() == Some(e@),
                None => self@.selected_entry() is None,
            },
    {
        match self.selected {
            Some(i) => if i < self.entries.len() {
                Some(&self.entries[i])
            } else {
                None
            },
            None => None,
        }
    }

    /// Selects the next entry, wrapping around to the first.
    pub fn next(&mut self)
        requires
            old(self)@.wf(),
        ensures
            final(self)@ == old(self)@.next(),
            final(self)@.wf(),
    {
        let len = self.entries.len();
        move_sel(&mut self.selected, len, 1);
        proof {
            if len > 0 {
                let c = sel_position(sel_view(old(self).selected));
                assert(0 <= (c + 1) % (len as int) < len) by (nonlinear_arith)
                    requires
                        len > 0,
                ;
            }
        }
    }

    /// Selects the previous entry, wrapping around to the last.
    pub fn prev(&mut self)
        requires
            old(self)@.wf(),
        ensures
            final(self)@ == old(self)@.prev(),
            final(self)@.wf(),
    {
        let len = self.entries.len();
        move_sel(&mut self.selected, len, -1);
        proof {
            if len > 0 {
                let c = sel_position(sel_view(old(self).selected));
                assert(0 <= (c - 1) % (len as int) < len) by (nonlinear_arith)
                    requires
                        len > 0,
                ;
            }
        }
    }

    /// Opens the selected entry: enters a directory (whose entries the caller then
    /// reads and gives to `reload`), or returns the chosen video.
    pub fn open(&mut self) -> (r: Opened)
        requires
            old(self)@.wf(),
        ensures
            final(self)@ == old(self)@.open(),
            final(self)@.wf(),
            match old(self)@.selected_entry() {
                Some(e) => if e.is_dir {
                    r is Directory
                } else {
                    r matches Opened::Video(p) && p@ == e.path
                },
                None => r is Nothing,
            },
    {
        let (is_dir, path) = match self.selected() {
            Some(e) => (e.is_dir, e.path.clone()),
            None => {
                return Opened::Nothing;
            },
        };
        if is_dir {
            self.cwd = path;
            Opened::Directory
        } else {
            Opened::Video(path)
        }
    }

    /// Goes to the parent directory, when there is one; returns whether it did (the
    /// caller then reads its entries and gives them to `reload`).
    pub fn up(&mut self) -> (r: bool)
        requires
            old(self)@.wf(),
        ensures
            final(self)@ == old(self)@.up(),
            final(self)@.wf(),
            r == path_parent(old(self)@.cwd) is Some,
    {
        match parent_of(self.cwd.as_str()) {
            Some(p) => {
                self.cwd = p;
                true
            },
            None => false,
        }
    }
}

// ---------------------------------------------------------------------------
// Laws
// ---------------------------------------------------------------------------

/// Moving the selection down and then up (or up and then down) in a non-empty
/// list brings it back to the same entry.
pub proof fn lemma_browser_next_prev(b: BrowserModel)
    requires
        b.wf(),
        b.entries.len() > 0,
        b.selected is Some,
    ensures
        b.next().prev() == b,
        b.prev().next() == b,
{
    let n = b.entries.len() as int;
    let c = b.selected->0;
    assert(((c + 1) % n - 1) % n == c) by (nonlinear_arith)
        requires
            0 <= c < n,
    ;
    assert(((c - 1) % n + 1) % n == c) by (nonlinear_arith)
        requires
            0 <= c < n,
    ;
}

/// Moving down selects the next entry, or the first after the last; moving up
/// selects the previous entry, or the last before the first. Without a selection,
/// the moves count from the first entry. Nothing else changes.
pub proof fn lemma_browser_moves(b: BrowserModel)
    requires
        b.wf(),
        b.entries.len() > 0,
    ensures
        ({
            let n = b.entries.len() as int;
            let i = match b.selected {
                Some(i) => i,
                None => 0,
            };
            &&& b.next().selected == Some(if i + 1 < n {
                i + 1
            } else {
                0
            })
            &&& b.prev().selected == Some(if i > 0 {
                i - 1
            } else {
                n - 1
            })
            &&& b.next().entries == b.entries && b.next().cwd == b.cwd
            &&& b.prev().entries == b.entries && b.prev().cwd == b.cwd
        }),
{
    let n = b.entries.len() as int;
    let i = match b.selected {
        Some(i) => i,
        None => 0,
    };
    assert(sel_position(b.selected) == i);
    if i + 1 < n {
        vstd::arithmetic::div_mod::lemma_fundamental_div_mod_converse(i + 1, n, 0, i + 1);
    } else {
        vstd::arithmetic::div_mod::lemma_fundamental_div_mod_converse(i + 1, n, 1, 0);
    }
    if i > 0 {
        vstd::arithmetic::div_mod::lemma_fundamental_div_mod_converse(i - 1, n, 0, i - 1);
    } else {
        vstd::arithmetic::div_mod::lemma_fundamental_div_mod_converse(i - 1, n, -1, n - 1);
    }
}

/// Every operation of the browser keeps the selection inside the list.
pub proof fn lemma_browser_wf_kept(b: BrowserModel, entries: Seq<EntryModel>)
    requires
        b.wf(),
        entries.len() <= i32::MAX,
    ensures
        b.next().wf(),
        b.prev().wf(),
        b.open().wf(),
        b.up().wf(),
        b.reload(entries).wf(),
{
    let n = b.entries.len() as int;
    if n > 0 {
        let c = sel_position(b.selected);
        assert(0 <= (c + 1) % n < n) by (nonlinear_arith)
            requires
                n > 0,
        ;
        assert(0 <= (c - 1) % n < n) by (nonlinear_arith)
            requires
                n > 0,
        ;
    }
}

} // verus!

//! Snapshots: the regular files of a source directory with their
//! modification times, kept sorted by path.

use vstd::prelude::*;

verus! {

/// A modification time: whole seconds since the Unix epoch (UTC) and the
/// nanoseconds within that second.
#[derive(Clone, Copy, Debug, PartialEq, Eq, Structural)]
pub struct FileTime {
    pub secs: i64,
    pub nanos: u32,
}

/// One file of a snapshot, as plain values.
pub type EntrySpec = (Seq<char>, FileTime);

/// Lexicographic order of paths, character by character.
pub open spec fn path_lt(a: Seq<char>, b: Seq<char>) -> bool
    decreases a.len(),
{
    if a.len() == 0 {
        b.len() > 0
    } else if b.len() == 0 {
        false
    } else if a[0] != b[0] {
        (a[0] as int) < (b[0] as int)
    } else {
        path_lt(a.drop_first(), b.drop_first())
    }
}

/// Entries in strictly ascending path order (so no path occurs twice).
pub open spec fn sorted_by_path(s: Seq<EntrySpec>) -> bool {
    forall|i: int, j: int| 0 <= i < j < s.len() ==> path_lt(#[trigger] s[i].0, #[trigger] s[j].0)
}

/// No two entries share a path.
pub open spec fn unique_paths(s: Seq<EntrySpec>) -> bool {
    forall|i: int, j: int| 0 <= i < s.len() && 0 <= j < s.len() && i != j ==> #[trigger] s[i].0 != #[trigger] s[j].0
}

/// No path sorts before itself.
pub proof fn lemma_path_lt_irreflexive(a: Seq<char>)
    ensures
        !path_lt(a, a),
    decreases a.len(),
{
    if a.len() > 0 {
        lemma_path_lt_irreflexive(a.drop_first());
    }
}

/// The path order is transitive.
pub proof fn lemma_path_lt_transitive(a: Seq<char>, b: Seq<char>, c: Seq<char>)
    requires
        path_lt(a, b),
        path_lt(b, c),
    ensures
        path_lt(a, c),
    decreases a.len(),
{
    if a.len() > 0 && b.len() > 0 && c.len() > 0 && a[0] == b[0] && b[0] == c[0] {
        lemma_path_lt_transitive(a.drop_first(), b.drop_first(), c.drop_first());
    }
}

/// Of two different paths, one sorts before the other.
pub proof fn lemma_path_lt_total(a: Seq<char>, b: Seq<char>)
    requires
        a != b,
    ensures
        path_lt(a, b) || path_lt(b, a),
    decreases a.len(),
{
    if a.len() > 0 && b.len() > 0 {
        if a[0] == b[0] {
            if a.drop_first() == b.drop_first() {
                assert(a =~= seq![a[0]] + a.drop_first());
                assert(b =~= seq![b[0]] + b.drop_first());
            }
            lemma_path_lt_total(a.drop_first(), b.drop_first());
        } else {
            assert((a[0] as int) != (b[0] as int));
        }
    } else if a.len() == 0 && b.len() == 0 {
        assert(a =~= b);
    }
}

/// Two paths never sort before each other.
pub proof fn lemma_path_lt_asymmetric(a: Seq<char>, b: Seq<char>)
    requires
        path_lt(a, b),
    ensures
        !path_lt(b, a),
{
    if path_lt(b, a) {
        lemma_path_lt_transitive(a, b, a);
        lemma_path_lt_irreflexive(a);
    }
}

/// Whether path `a` sorts before path `b`.
pub fn path_less(a: &str, b: &str) -> (r: bool)
    ensures
        r == path_lt(a@, b@),
{
    let n = a.unicode_len();
    let m = b.unicode_len();
    let mut i: usize = 0;
    proof {
        assert(a@.skip(0) =~= a@);
        assert(b@.skip(0) =~= b@);
    }
    while i < n && i < m
        invariant
            i <= n,
            i <= m,
            n == a@.len(),
            m == b@.len(),
            path_lt(a@, b@) == path_lt(a@.skip(i as int), b@.skip(i as int)),
        decreases n - i,
    {
        let x = a.get_char(i);
        let y = b.get_char(i);
        if x != y {
            return (x as u32) < (y as u32);
        }
        proof {
            assert(a@.skip(i as int).drop_first() =~= a@.skip(i + 1));
            assert(b@.skip(i as int).drop_first() =~= b@.skip(i + 1));
        }
        i = i + 1;
    }
    i < m
}


/// The plain view of a list of entries.
pub open spec fn entries_view(v: Seq<(String, FileTime)>) -> Seq<EntrySpec> {
    v.map_values(|e: (String, FileTime)| (e.0@, e.1))
}

/// Whether two lists of entries hold the same pairs, in whatever order.
pub open spec fn same_pairs(a: Seq<EntrySpec>, b: Seq<EntrySpec>) -> bool {
    forall|x: EntrySpec| a.contains(x) <==> b.contains(x)
}

/// The regular files of a directory with their modification times, sorted
/// by path, each path once.
#[derive(Debug)]
pub struct Snapshot {
    entries: Vec<(String, FileTime)>,
}

impl View for Snapshot {
    type V = Seq<EntrySpec>;

    closed spec fn view(&self) -> Seq<EntrySpec> {
        entries_view(self.entries@)
    }
}

/// Inserting `e` into `s` adds `e` to what `s` holds and nothing else.
proof fn lemma_insert_contents(s: Seq<EntrySpec>, p: int, e: EntrySpec)
    requires
        0 <= p <= s.len(),
    ensures
        forall|x: EntrySpec| s.insert(p, e).contains(x) <==> (s.contains(x) || x == e),
{
    s.insert_ensures(p, e);
    let t = s.insert(p, e);
    assert forall|x: EntrySpec| t.contains(x) <==> (s.contains(x) || x == e) by {
        if t.contains(x) {
            let k = choose|k: int| 0 <= k < t.len() && t[k] == x;
            if k < p {
                assert(s[k] == x);
            } else if k > p {
                assert(s[k - 1] == x);
            }
        }
        if s.contains(x) {
            let k = choose|k: int| 0 <= k < s.len() && s[k] == x;
            if k < p {
                assert(t[k] == x);
            } else {
                assert(t[k + 1] == x);
            }
        }
        if x == e {
            assert(t[p] == x);
        }
    }
}

impl Snapshot {
    /// Entries are kept in strictly ascending path order.
    #[verifier::type_invariant]
    spec fn sorted(&self) -> bool {
        sorted_by_path(entries_view(self.entries@))
    }

    /// Builds a snapshot from a directory listing in any order.
    pub fn from_entries(entries: Vec<(String, FileTime)>) -> (r: Snapshot)
        requires
            unique_paths(entries_view(entries@)),
        ensures
            sorted_by_path(r@),
            same_pairs(r@, entries_view(entries@)),
            r@.len() == entries@.len(),
    {
        let ghost orig = entries_view(entries@);
        let mut out: Vec<(String, FileTime)> = Vec::new();
        let mut i: usize = 0;
        while i < entries.len()
            invariant
                i <= entries@.len(),
                orig == entries_view(entries@),
                unique_paths(orig),
                sorted_by_path(entries_view(out@)),
                same_pairs(entries_view(out@), orig.subrange(0, i as int)),
                out@.len() == i,
            decreases entries@.len() - i,
        {
            let e = (entries[i].0.clone(), entries[i].1);
            let ghost ev: EntrySpec = (e.0@, e.1);
            let ghost ov = entries_view(out@);
            assert(ev == orig[i as int]);
            assert forall|k: int| 0 <= k < ov.len() implies ov[k].0 != ev.0 by {
                assert(orig.subrange(0, i as int).contains(ov[k]));
                let j = choose|j: int| 0 <= j < i && orig.subrange(0, i as int)[j] == ov[k];
                assert(orig[j] == ov[k]);
            }
            let mut p: usize = 0;
            while p < out.len() && path_less(out[p].0.as_str(), e.0.as_str())
                invariant
                    p <= out@.len(),
                    ov == entries_view(out@),
                    ev == (e.0@, e.1),
                    forall|k: int| 0 <= k < p ==> path_lt(ov[k].0, ev.0),
                decreases out@.len() - p,
            {
                p = p + 1;
            }
            if p < out.len() {
                proof {
                    lemma_path_lt_total(ov[p as int].0, ev.0);
                }
            }
            out.insert(p, e);
            proof {
                let nv = entries_view(out@);
                assert(nv =~= ov.insert(p as int, ev));
                ov.insert_ensures(p as int, ev);
                lemma_insert_contents(ov, p as int, ev);
                assert forall|a: int, b: int| 0 <= a < b < nv.len() implies path_lt(
                    #[trigger] nv[a].0,
                    #[trigger] nv[b].0,
                ) by {
                    if b < p {
                        assert(nv[a] == ov[a] && nv[b] == ov[b]);
                    } else if a < p && b == p {
                    } else if a < p && b > p {
                        assert(path_lt(ov[a].0, ev.0));
                        assert(path_lt(ev.0, ov[p as int].0));
                        lemma_path_lt_transitive(ov[a].0, ev.0, ov[p as int].0);
                        if b - 1 > p {
                            lemma_path_lt_transitive(ov[a].0, ov[p as int].0, ov[b - 1].0);
                        }
                    } else if a == p {
                        if b - 1 > p {
                            lemma_path_lt_transitive(ev.0, ov[p as int].0, ov[b - 1].0);
                        }
                    } else {
                        assert(nv[a] == ov[a - 1]);
                        assert(nv[b] == ov[b - 1]);
                    }
                }
                assert(orig.subrange(0, i + 1) =~= orig.subrange(0, i as int).push(ev));
                assert forall|x: EntrySpec| nv.contains(x) <==> orig.subrange(0, i + 1).contains(x) by {
                    let pre = orig.subrange(0, i as int);
                    if pre.contains(x) {
                        let k = choose|k: int| 0 <= k < pre.len() && pre[k] == x;
                        assert(pre.push(ev)[k] == x);
                    }
                    if x == ev {
                        assert(pre.push(ev)[i as int] == x);
                    }
                    if pre.push(ev).contains(x) {
                        let k = choose|k: int| 0 <= k < pre.len() + 1 && pre.push(ev)[k] == x;
                        if k < i {
                            assert(pre[k] == x);
                        }
                    }
                }
            }
            i = i + 1;
        }
        proof {
            assert(orig.subrange(0, i as int) =~= orig);
        }
        Snapshot { entries: out }
    }

    /// The entries, sorted by path.
    pub fn entries(&self) -> (r: &Vec<(String, FileTime)>)
        ensures
            entries_view(r@) == self@,
            sorted_by_path(self@),
    {
        proof {
            use_type_invariant(self);
        }
        &self.entries
    }

    /// The paths of the entries, in sorted order: the converter's inputs.
    pub fn args(&self) -> (r: Vec<String>)
        ensures
            r@.len() == self@.len(),
            forall|i: int| 0 <= i < r@.len() ==> #[trigger] r@[i]@ == self@[i].0,
    {
        let mut r: Vec<String> = Vec::new();
        let mut i: usize = 0;
        while i < self.entries.len()
            invariant
                i <= self.entries@.len(),
                r@.len() == i,
                forall|k: int| 0 <= k < i ==> #[trigger] r@[k]@ == self@[k].0,
            decreases self.entries@.len() - i,
        {
            r.push(self.entries[i].0.clone());
            i = i + 1;
        }
        r
    }

    /// An equal snapshot.
    pub fn duplicate(&self) -> (r: Snapshot)
        ensures
            r@ == self@,
    {
        let mut out: Vec<(String, FileTime)> = Vec::new();
        let mut i: usize = 0;
        while i < self.entries.len()
            invariant
                i <= self.entries@.len(),
                out@.len() == i,
                forall|k: int| 0 <= k < i ==> #[trigger] entries_view(out@)[k] == self@[k],
            decreases self.entries@.len() - i,
        {
            let ghost before = out@;
            out.push((self.entries[i].0.clone(), self.entries[i].1));
            proof {
                assert forall|k: int| 0 <= k <= i implies #[trigger] entries_view(out@)[k] == self@[k] by {
                    if k < i {
                        assert(out@[k] == before[k]);
                        assert(entries_view(before)[k] == self@[k]);
                    }
                }
            }
            i = i + 1;
        }
        proof {
            use_type_invariant(self);
            assert(entries_view(out@) =~= self@);
        }
        Snapshot { entries: out }
    }
}

impl PartialEq for Snapshot {
    fn eq(&self, other: &Snapshot) -> (r: bool) {
        if self.entries.len() != other.entries.len() {
            assert(self@.len() != other@.len());
            return false;
        }
        let mut i: usize = 0;
        while i < self.entries.len()
            invariant
                i <= self.entries@.len(),
                self.entries@.len() == other.entries@.len(),
                forall|k: int| 0 <= k < i ==> #[trigger] self@[k] == other@[k],
            decreases self.entries@.len() - i,
        {
            if self.entries[i].0 != other.entries[i].0 || self.entries[i].1 != other.entries[i].1 {
                assert(self@[i as int] != other@[i as int]);
                return false;
            }
            i = i + 1;
        }
        proof {
            assert(self@ =~= other@);
        }
        true
    }
}

impl vstd::std_specs::cmp::PartialEqSpecImpl for Snapshot {
    open spec fn obeys_eq_spec() -> bool {
        true
    }

    open spec fn eq_spec(&self, other: &Snapshot) -> bool {
        self@ == other@
    }
}

/// Whether no path occurs twice among `entries`.
pub fn has_unique_paths(entries: &Vec<(String, FileTime)>) -> (r: bool)
    ensures
        r == unique_paths(entries_view(entries@)),
{
    let ghost v = entries_view(entries@);
    let mut i: usize = 0;
    while i < entries.len()
        invariant
            i <= entries@.len(),
            v == entries_view(entries@),
            forall|a: int, b: int|
                0 <= a < i && 0 <= b < v.len() && a != b ==> #[trigger] v[a].0 != #[trigger] v[b].0,
        decreases entries@.len() - i,
    {
        let mut j: usize = 0;
        while j < entries.len()
            invariant
                i < entries@.len(),
                j <= entries@.len(),
                v == entries_view(entries@),
                forall|a: int, b: int|
                    0 <= a < i && 0 <= b < v.len() && a != b ==> #[trigger] v[a].0 != #[trigger] v[b].0,
                forall|b: int| 0 <= b < j && b != i ==> v[i as int].0 != #[trigger] v[b].0,
            decreases entries@.len() - j,
        {
            if j != i && entries[i].0 == entries[j].0 {
                assert(v[i as int].0 == v[j as int].0);
                return false;
            }
            j = j + 1;
        }
        i = i + 1;
    }
    true
}

/// A sorted list of entries is fixed by the pairs it holds: two sorted lists
/// with the same pairs are equal.
pub proof fn lemma_sorted_determined_by_pairs(a: Seq<EntrySpec>, b: Seq<EntrySpec>)
    requires
        sorted_by_path(a),
        sorted_by_path(b),
        same_pairs(a, b),
    ensures
        a == b,
    decreases a.len(),
{
    if a.len() == 0 {
        if b.len() > 0 {
            assert(b.contains(b[0]));
        }
        assert(a =~= b);
    } else {
        assert(a.contains(a[0]));
        assert(b.len() > 0);
        assert(b.contains(b[0]));
        let ka = choose|k: int| 0 <= k < b.len() && b[k] == a[0];
        let kb = choose|k: int| 0 <= k < a.len() && a[k] == b[0];
        if a[0] != b[0] {
            assert(ka > 0 && kb > 0);
            assert(path_lt(b[0].0, b[ka].0));
            assert(path_lt(a[0].0, a[kb].0));
            lemma_path_lt_asymmetric(a[0].0, b[0].0);
        }
        let ta = a.drop_first();
        let tb = b.drop_first();
        assert forall|x: EntrySpec| ta.contains(x) <==> tb.contains(x) by {
            if ta.contains(x) {
                let k = choose|k: int| 0 <= k < ta.len() && ta[k] == x;
                assert(a.contains(x) && a[k + 1] == x);
                assert(path_lt(a[0].0, a[k + 1].0));
                lemma_path_lt_irreflexive(x.0);
                let m = choose|m: int| 0 <= m < b.len() && b[m] == x;
                assert(m != 0);
                assert(tb[m - 1] == x);
            }
            if tb.contains(x) {
                let k = choose|k: int| 0 <= k < tb.len() && tb[k] == x;
                assert(b.contains(x) && b[k + 1] == x);
                assert(path_lt(b[0].0, b[k + 1].0));
                lemma_path_lt_irreflexive(x.0);
                let m = choose|m: int| 0 <= m < a.len() && a[m] == x;
                assert(m != 0);
                assert(ta[m - 1] == x);
            }
        }
        lemma_sorted_determined_by_pairs(ta, tb);
        assert(a =~= seq![a[0]] + ta);
        assert(b =~= seq![b[0]] + tb);
    }
}

/// The snapshot of a directory does not depend on the order in which its
/// entries were listed: two listings with the same pairs give equal
/// snapshots.
pub proof fn lemma_listing_order_irrelevant(
    listing1: Seq<EntrySpec>,
    listing2: Seq<EntrySpec>,
    snap1: Seq<EntrySpec>,
    snap2: Seq<EntrySpec>,
)
    requires
        same_pairs(listing1, listing2),
        sorted_by_path(snap1),
        same_pairs(snap1, listing1),
        sorted_by_path(snap2),
        same_pairs(snap2, listing2),
    ensures
        snap1 == snap2,
{
    lemma_sorted_determined_by_pairs(snap1, snap2);
}

} // verus!

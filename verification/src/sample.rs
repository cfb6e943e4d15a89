use vstd::prelude::*;
use crate::text::{LineV, folded_text, line_text, sum_weights};

verus! {

/// A sample key: a thread label and the resolved call stack, outermost
/// frame first. Two keys are the same exactly when label and stack match.
pub struct SampleKey {
    pub thread: String,
    pub frames: Vec<String>,
}

/// The mathematical value of a `SampleKey`.
pub struct KeyV {
    pub thread: Seq<char>,
    pub frames: Seq<Seq<char>>,
}

impl DeepView for SampleKey {
    type V = KeyV;

    open spec fn deep_view(&self) -> KeyV {
        KeyV { thread: self.thread@, frames: self.frames.deep_view() }
    }
}

/// One row of a sample table: a key and its occurrence count.
pub struct Entry {
    pub key: SampleKey,
    pub count: u64,
}

/// The mathematical value of an `Entry`.
pub struct EntryV {
    pub key: KeyV,
    pub count: u64,
}

impl DeepView for Entry {
    type V = EntryV;

    open spec fn deep_view(&self) -> EntryV {
        EntryV { key: self.key.deep_view(), count: self.count }
    }
}

/// Well-formedness of a sample table: every count is at least one, no key
/// has an empty stack, and keys are pairwise distinct.
pub open spec fn wf_entries(s: Seq<EntryV>) -> bool {
    &&& forall|i: int| 0 <= i < s.len() ==> (#[trigger] s[i]).count >= 1
    &&& forall|i: int| 0 <= i < s.len() ==> (#[trigger] s[i]).key.frames.len() >= 1
    &&& forall|i: int, j: int| 0 <= i < j < s.len() ==> (#[trigger] s[i]).key != (#[trigger] s[j]).key
}

/// The total occurrence count of a sample table.
pub open spec fn total_count(s: Seq<EntryV>) -> int
    decreases s.len(),
{
    if s.len() == 0 {
        0
    } else {
        total_count(s.drop_last()) + s.last().count
    }
}

/// The folded line that one table entry produces.
pub open spec fn entry_line(e: EntryV) -> LineV {
    LineV { head: e.key.thread, parts: e.key.frames, weight: e.count }
}

/// The logical lines of the folded report of a sample table.
pub open spec fn entry_lines(s: Seq<EntryV>) -> Seq<LineV> {
    s.map_values(|e: EntryV| entry_line(e))
}

/// Equality test on `String`s, specified over their character sequences.
pub fn str_eq(a: &String, b: &String) -> (r: bool)
    ensures
        r == (a@ == b@),
{
    *a == *b
}

/// Equality test on string vectors, specified over their deep views.
pub fn str_vec_eq(a: &Vec<String>, b: &Vec<String>) -> (r: bool)
    ensures
        r == (a.deep_view() == b.deep_view()),
{
    if a.len() != b.len() {
        proof {
            assert(a.deep_view().len() == a.len());
            assert(b.deep_view().len() == b.len());
        }
        return false;
    }
    let n = a.len();
    let mut i: usize = 0;
    while i < n
        invariant
            0 <= i <= n,
            n == a.len() == b.len(),
            forall|j: int| 0 <= j < i ==> a.deep_view()[j] == b.deep_view()[j],
        decreases n - i,
    {
        if !str_eq(&a[i], &b[i]) {
            proof {
                assert(a.deep_view()[i as int] != b.deep_view()[i as int]);
            }
            return false;
        }
        i = i + 1;
    }
    proof {
        assert(a.deep_view() =~= b.deep_view());
    }
    true
}

/// Equality test on sample keys, specified over their deep views.
pub fn key_eq(a: &SampleKey, b: &SampleKey) -> (r: bool)
    ensures
        r == (a.deep_view() == b.deep_view()),
{
    let r = str_eq(&a.thread, &b.thread) && str_vec_eq(&a.frames, &b.frames);
    r
}

/// Copies a string vector; the copy has the same view.
pub fn clone_strings(v: &Vec<String>) -> (r: Vec<String>)
    ensures
        r@ == v@,
{
    let n = v.len();
    let mut r: Vec<String> = Vec::new();
    let mut i: usize = 0;
    while i < n
        invariant
            0 <= i <= n,
            n == v.len(),
            r@ == v@.take(i as int),
        decreases n - i,
    {
        let s = v[i].clone();
        r.push(s);
        proof {
            assert(r@ =~= v@.take(i + 1));
        }
        i = i + 1;
    }
    proof {
        assert(v@.take(n as int) =~= v@);
    }
    r
}

/// An immutable point-in-time copy of a sample table. It is never shared
/// with live collector state, so its total count and entries are fixed for
/// its whole lifetime.
pub struct Snapshot {
    pub entries: Vec<Entry>,
}

impl DeepView for Snapshot {
    type V = Seq<EntryV>;

    open spec fn deep_view(&self) -> Seq<EntryV> {
        self.entries.deep_view()
    }
}

impl Snapshot {
    pub open spec fn wf(&self) -> bool {
        wf_entries(self.deep_view())
    }

    /// The snapshot's total sample count.
    pub open spec fn spec_total(&self) -> int {
        total_count(self.deep_view())
    }

    /// An empty snapshot, ready to take externally aggregated rows.
    pub fn new() -> (r: Snapshot)
        ensures
            r.deep_view() =~= Seq::<EntryV>::empty(),
            r.wf(),
    {
        Snapshot { entries: Vec::new() }
    }

    /// The number of distinct sample keys.
    pub fn len(&self) -> (r: usize)
        ensures
            r == self.deep_view().len(),
    {
        self.entries.len()
    }

    /// The snapshot's total sample count, or `None` where the mathematical
    /// total does not fit in a counter word. Callers that hand the folded
    /// lines to the flamegraph renderer use this to keep the renderer's
    /// own summation within bounds.
    pub fn total(&self) -> (r: Option<u64>)
        ensures
            r matches Some(t) ==> t == total_count(self.deep_view()),
            r is None ==> total_count(self.deep_view()) > u64::MAX,
    {
        let mut acc: u64 = 0;
        let n = self.entries.len();
        let mut i: usize = 0;
        while i < n
            invariant
                0 <= i <= n,
                n == self.entries.len(),
                acc == total_count(self.deep_view().take(i as int)),
            decreases n - i,
        {
            let c = self.entries[i].count;
            proof {
                assert(self.deep_view().take(i + 1).drop_last() =~= self.deep_view().take(i as int));
                assert(self.deep_view().take(i + 1).last() == self.deep_view()[i as int]);
                assert(self.deep_view()[i as int].count == c);
            }
            acc = match acc.checked_add(c) {
                Some(v) => v,
                None => {
                    proof {
                        lemma_total_count_take_le(self.deep_view(), i + 1);
                    }
                    return None;
                },
            };
            i = i + 1;
        }
        proof {
            assert(self.deep_view().take(n as int) =~= self.deep_view());
        }
        Some(acc)
    }

    /// Folds `count` occurrences of (`thread`, `frames`) into the snapshot:
    /// an existing equal key has its count raised (saturating), a new key is
    /// appended with `count`. A key with an empty stack or a zero count is
    /// dropped, never stored.
    pub fn add_count(&mut self, thread: String, frames: Vec<String>, count: u64)
        requires
            old(self).wf(),
        ensures
            final(self).wf(),
            merged_count(
                old(self).deep_view(),
                final(self).deep_view(),
                thread@,
                frames.deep_view(),
                count,
            ),
    {
        merge_count(&mut self.entries, thread, frames, count);
    }

    /// The folded-stack text report of this snapshot: one line per entry,
    /// in entry order, each line `<thread>;<outer>;...;<inner> <count>`.
    /// The result is a pure function of the snapshot's value, so encoding
    /// the same snapshot twice yields identical text.
    pub fn folded(&self) -> (r: String)
        requires
            self.wf(),
        ensures
            r@ == folded_text(entry_lines(self.deep_view())),
    {
        let mut out = String::new();
        let n = self.entries.len();
        let ghost lines: Seq<LineV> = entry_lines(self.deep_view());
        let mut i: usize = 0;
        while i < n
            invariant
                0 <= i <= n,
                n == self.entries.len(),
                self.wf(),
                lines == entry_lines(self.deep_view()),
                out@ == folded_text(lines.take(i as int)),
            decreases n - i,
        {
            let e = &self.entries[i];
            proof {
                assert(self.deep_view()[i as int] == e.deep_view());
                assert(e.key.frames.deep_view().len() == e.key.frames.len());
                assert(self.deep_view()[i as int].key.frames.len() >= 1);
            }
            crate::text::append_line(&mut out, &e.key.thread, &e.key.frames, e.count);
            proof {
                assert(lines.take(i + 1).drop_last() =~= lines.take(i as int));
                assert(lines.take(i + 1).last() == lines[i as int]);
                assert(lines[i as int] == entry_line(self.deep_view()[i as int]));
                assert(line_text(lines[i as int]) == line_text(
                    LineV {
                        head: e.key.thread@,
                        parts: e.key.frames.deep_view(),
                        weight: e.count,
                    },
                ));
                assert(out@ =~= folded_text(lines.take(i + 1)));
            }
            i = i + 1;
        }
        proof {
            assert(lines.take(n as int) =~= lines);
        }
        out
    }
}

/// The folded lines of a sample table without their line breaks, one per
/// entry, in entry order.
pub open spec fn bare_lines(s: Seq<EntryV>) -> Seq<Seq<char>> {
    entry_lines(s).map_values(|l: LineV| crate::text::line_bare(l))
}

impl Snapshot {
    /// The folded report as separate lines, one per entry, in entry order,
    /// without line breaks.
    pub fn folded_lines(&self) -> (r: Vec<String>)
        requires
            self.wf(),
        ensures
            r.deep_view() == bare_lines(self.deep_view()),
    {
        let ghost lines: Seq<Seq<char>> = bare_lines(self.deep_view());
        let n = self.entries.len();
        let mut r: Vec<String> = Vec::new();
        let mut i: usize = 0;
        while i < n
            invariant
                0 <= i <= n,
                n == self.entries.len(),
                self.wf(),
                lines == bare_lines(self.deep_view()),
                lines.len() == n,
                r.deep_view() =~= lines.take(i as int),
            decreases n - i,
        {
            let e = &self.entries[i];
            proof {
                assert(self.deep_view()[i as int] == e.deep_view());
                assert(e.key.frames.deep_view().len() == e.key.frames.len());
                assert(self.deep_view()[i as int].key.frames.len() >= 1);
            }
            let mut line = String::new();
            crate::text::append_line_bare(&mut line, &e.key.thread, &e.key.frames, e.count);
            let ghost pre: Seq<Seq<char>> = r.deep_view();
            let ghost prev: Seq<String> = r@;
            proof {
                assert(pre.len() == i as int);
                assert(prev.len() == i as int);
                assert(line@ == crate::text::line_bare(entry_line(self.deep_view()[i as int])));
                assert(lines[i as int] == crate::text::line_bare(
                    entry_lines(self.deep_view())[i as int],
                ));
                assert(entry_lines(self.deep_view())[i as int] == entry_line(
                    self.deep_view()[i as int],
                ));
            }
            r.push(line);
            proof {
                assert forall|j: int| 0 <= j < r@.len() implies r.deep_view()[j] == lines.take(
                    i + 1,
                )[j] by {
                    assert(r.deep_view()[j] == r@[j].deep_view());
                    if j < i as int {
                        assert(r@[j] == prev[j]);
                        assert(pre[j] == prev[j].deep_view());
                        assert(pre[j] == lines.take(i as int)[j]);
                    } else {
                        assert(r@[j]@ == lines[i as int]);
                    }
                }
                assert(r.deep_view().len() == lines.take(i + 1).len());
                assert(r.deep_view() =~= lines.take(i + 1));
            }
            i = i + 1;
        }
        proof {
            assert(lines.take(n as int) =~= lines);
        }
        r
    }
}

/// How a table changes when `count` occurrences of the key
/// (`thread`, `frames`) are folded in: an empty stack or a zero count
/// leaves the table as it was; an existing equal key has its count raised
/// by `count` (saturating); a new key is appended with `count`.
pub open spec fn merged_count(
    before: Seq<EntryV>,
    after: Seq<EntryV>,
    thread: Seq<char>,
    frames: Seq<Seq<char>>,
    count: u64,
) -> bool {
    let k = KeyV { thread: thread, frames: frames };
    &&& (frames.len() == 0 || count == 0 ==> after == before)
    &&& (frames.len() >= 1 && count >= 1 ==> {
        &&& ((forall|i: int| 0 <= i < before.len() ==> (#[trigger] before[i]).key != k)
            ==> after == before.push(EntryV { key: k, count: count }))
        &&& (forall|i: int|
            0 <= i < before.len() && (#[trigger] before[i]).key == k ==> after == before.update(
                i,
                EntryV { key: k, count: sat_add(before[i].count, count) },
            ))
    })
}

/// Folds `count` occurrences of (`thread`, `frames`) into a well-formed
/// table, preserving well-formedness.
pub fn merge_count(entries: &mut Vec<Entry>, thread: String, frames: Vec<String>, count: u64)
    requires
        wf_entries(old(entries).deep_view()),
    ensures
        wf_entries(final(entries).deep_view()),
        merged_count(
            old(entries).deep_view(),
            final(entries).deep_view(),
            thread@,
            frames.deep_view(),
            count,
        ),
{
    let ghost k = KeyV { thread: thread@, frames: frames.deep_view() };
    if frames.len() == 0 || count == 0 {
        proof {
            assert(frames.deep_view().len() == frames@.len());
        }
        return ;
    }
    proof {
        assert(frames.deep_view().len() == frames@.len());
        assert(frames.deep_view().len() >= 1);
    }
    let key = SampleKey { thread, frames };
    proof {
        assert(key.deep_view() == k);
    }
    match find_key(entries, &key) {
        Some(i) => {
            let c = entries[i].count;
            let newc = c.saturating_add(count);
            let e = entries.remove(i);
            entries.insert(i, Entry { key: e.key, count: newc });
            proof {
                let now = entries.deep_view();
                let target = old(entries).deep_view().update(
                    i as int,
                    EntryV {
                        key: k,
                        count: sat_add(old(entries).deep_view()[i as int].count, count),
                    },
                );
                assert(e.deep_view() == old(entries).deep_view()[i as int]);
                assert(now =~= target);
                assert forall|p: int, q: int|
                    0 <= p < q < now.len() implies (#[trigger] now[p]).key != (
                #[trigger] now[q]).key by {
                    assert(old(entries).deep_view()[p].key == now[p].key);
                    assert(old(entries).deep_view()[q].key == now[q].key);
                }
                assert(wf_entries(now));
                assert forall|j: int|
                    0 <= j < old(entries).deep_view().len() && (#[trigger] old(
                        entries,
                    ).deep_view()[j]).key == k implies entries.deep_view() == old(
                    entries,
                ).deep_view().update(
                    j,
                    EntryV { key: k, count: sat_add(old(entries).deep_view()[j].count, count) },
                ) by {
                    if j != i as int {
                        assert(old(entries).deep_view()[j].key != old(
                            entries,
                        ).deep_view()[i as int].key);
                    }
                }
            }
        },
        None => {
            entries.push(Entry { key, count });
            proof {
                let now = entries.deep_view();
                assert(now =~= old(entries).deep_view().push(EntryV { key: k, count: count }));
                assert forall|p: int, q: int|
                    0 <= p < q < now.len() implies (#[trigger] now[p]).key != (
                #[trigger] now[q]).key by {
                    if q < now.len() - 1 {
                        assert(old(entries).deep_view()[p].key != old(entries).deep_view()[q].key);
                    } else {
                        assert(old(entries).deep_view()[p].key != k);
                    }
                }
                assert(wf_entries(now));
            }
        },
    }
}

/// Copies a sample table row for row; the copy has the same value.
pub fn clone_entries(entries: &Vec<Entry>) -> (r: Vec<Entry>)
    ensures
        r.deep_view() == entries.deep_view(),
{
    let n = entries.len();
    let mut v: Vec<Entry> = Vec::new();
    let mut i: usize = 0;
    while i < n
        invariant
            0 <= i <= n,
            n == entries.len(),
            v.deep_view() =~= entries.deep_view().take(i as int),
        decreases n - i,
    {
        let e = &entries[i];
        let key = SampleKey { thread: e.key.thread.clone(), frames: clone_strings(&e.key.frames) };
        proof {
            assert(key.frames.deep_view() =~= e.key.frames.deep_view());
            assert(key.deep_view() == e.key.deep_view());
        }
        let ghost pre: Seq<EntryV> = v.deep_view();
        let ghost prev: Seq<Entry> = v@;
        let c = e.count;
        let ghost target: EntryV = entries.deep_view()[i as int];
        proof {
            assert(target == e.deep_view());
            assert(key.deep_view() == target.key);
            assert(entries.deep_view().len() == entries@.len());
            assert(entries.deep_view().take(i as int).len() == i as int);
            assert(pre.len() == i as int);
            assert(prev.len() == i as int);
        }
        v.push(Entry { key, count: c });
        proof {
            assert(v@ == prev.push(Entry { key, count: c }));
            assert forall|j: int| 0 <= j < v@.len() implies v.deep_view()[j]
                == entries.deep_view().take(i + 1)[j] by {
                if j < i as int {
                    assert(v@[j] == prev[j]);
                    assert(v.deep_view()[j] == v@[j].deep_view());
                    assert(pre[j] == prev[j].deep_view());
                    assert(v.deep_view()[j] == pre[j]);
                    assert(pre[j] == entries.deep_view().take(i as int)[j]);
                } else {
                    assert(v@[j] == (Entry { key, count: c }));
                    assert(v.deep_view()[j] == (EntryV { key: key.deep_view(), count: c }));
                }
            }
            assert(v.deep_view() =~= entries.deep_view().take(i + 1));
        }
        i = i + 1;
    }
    proof {
        assert(entries.deep_view().take(n as int) =~= entries.deep_view());
        assert(v.deep_view() =~= entries.deep_view());
    }
    v
}

/// Finds the row whose key equals `key`, if there is one.
pub fn find_key(entries: &Vec<Entry>, key: &SampleKey) -> (r: Option<usize>)
    ensures
        match r {
            Some(i) => i < entries.deep_view().len() && entries.deep_view()[i as int].key
                == key.deep_view(),
            None => forall|j: int|
                0 <= j < entries.deep_view().len() ==> (#[trigger] entries.deep_view()[j]).key
                    != key.deep_view(),
        },
{
    let n = entries.len();
    let mut i: usize = 0;
    while i < n
        invariant
            0 <= i <= n,
            n == entries.len(),
            forall|j: int|
                0 <= j < i ==> (#[trigger] entries.deep_view()[j]).key != key.deep_view(),
        decreases n - i,
    {
        if key_eq(&entries[i].key, key) {
            return Some(i);
        }
        i = i + 1;
    }
    None
}

/// Saturating addition on counts, the overflow policy of every
/// accumulation in this library.
pub open spec fn sat_add(a: u64, b: u64) -> u64 {
    if a + b <= u64::MAX {
        (a + b) as u64
    } else {
        u64::MAX
    }
}

/// Counts are nonnegative, so the total of a prefix never exceeds the
/// total of the whole table.
pub proof fn lemma_total_count_take_le(s: Seq<EntryV>, i: int)
    requires
        0 <= i <= s.len(),
    ensures
        total_count(s.take(i)) <= total_count(s),
    decreases s.len() - i,
{
    if i == s.len() {
        assert(s.take(i) =~= s);
    } else {
        assert(s.take(i + 1).drop_last() =~= s.take(i));
        assert(s.take(i + 1).last() == s[i]);
        lemma_total_count_take_le(s, i + 1);
    }
}

/// Row `i` of `before` survives into `after`: some row of `after` has the
/// same key and a count at least as large.
pub open spec fn key_kept(before: Seq<EntryV>, after: Seq<EntryV>, i: int) -> bool {
    exists|j: int|
        0 <= j < after.len() && (#[trigger] after[j]).key == before[i].key && after[j].count
            >= before[i].count
}

/// Monotonic growth: a recording step never removes a key and never
/// lowers a count. Every key of the table before the step is still there
/// afterwards, with a count at least as large.
pub proof fn lemma_merge_never_decreases_counts(
    before: Seq<EntryV>,
    after: Seq<EntryV>,
    thread: Seq<char>,
    frames: Seq<Seq<char>>,
    count: u64,
)
    requires
        wf_entries(before),
        merged_count(before, after, thread, frames, count),
    ensures
        after.len() >= before.len(),
        forall|i: int| 0 <= i < before.len() ==> #[trigger] key_kept(before, after, i),
{
    let k = KeyV { thread: thread, frames: frames };
    if frames.len() == 0 || count == 0 {
        assert(after == before);
        assert forall|i: int| 0 <= i < before.len() implies #[trigger] key_kept(
            before,
            after,
            i,
        ) by {
            assert(0 <= i < after.len() && after[i].key == before[i].key && after[i].count
                >= before[i].count);
        }
    } else if exists|i: int| 0 <= i < before.len() && (#[trigger] before[i]).key == k {
        let w = choose|i: int| 0 <= i < before.len() && (#[trigger] before[i]).key == k;
        assert(after == before.update(w, EntryV { key: k, count: sat_add(before[w].count, count) }));
        assert forall|i: int| 0 <= i < before.len() implies #[trigger] key_kept(
            before,
            after,
            i,
        ) by {
            if i == w {
                assert(after[i].key == k);
                assert(before[i].key == k);
                assert(after[i].count == sat_add(before[i].count, count));
                assert(after[i].count >= before[i].count);
            } else {
                assert(after[i].key == before[i].key && after[i].count == before[i].count);
            }
            assert(0 <= i < after.len() && after[i].key == before[i].key && after[i].count
                >= before[i].count);
        }
    } else {
        assert(after == before.push(EntryV { key: k, count: count }));
        assert forall|i: int| 0 <= i < before.len() implies #[trigger] key_kept(
            before,
            after,
            i,
        ) by {
            assert(0 <= i < after.len() && after[i].key == before[i].key && after[i].count
                >= before[i].count);
        }
    }
}

/// Conservation: the folded report of a sample table carries one line per
/// entry, and the weights those lines carry sum to the table's total
/// sample count.
pub proof fn lemma_folded_count_conservation(s: Seq<EntryV>)
    ensures
        entry_lines(s).len() == s.len(),
        sum_weights(entry_lines(s)) == total_count(s),
    decreases s.len(),
{
    if s.len() > 0 {
        lemma_folded_count_conservation(s.drop_last());
        assert(entry_lines(s).drop_last() =~= entry_lines(s.drop_last()));
        assert(entry_lines(s).last() == entry_line(s.last()));
    }
}

/// Determinism: the folded report is a function of the snapshot's value
/// alone. Any two encodings of the same table are the same text, and
/// hence byte-identical once the text is brought to its UTF-8 bytes.
pub proof fn lemma_folded_deterministic(s: Seq<EntryV>, r1: Seq<char>, r2: Seq<char>)
    requires
        r1 == folded_text(entry_lines(s)),
        r2 == folded_text(entry_lines(s)),
    ensures
        r1 == r2,
        vstd::utf8::encode_utf8(r1) == vstd::utf8::encode_utf8(r2),
{
}

} // verus!

use vstd::prelude::*;
use vstd::string::StringExecFns;
use crate::sample::{EntryV, Snapshot, str_eq};

verus! {

/// One entry of the location table: a distinct resolved stack frame,
/// referencing the string table for its symbol name. The entry's position
/// in the table is its identifier; position zero is a reserved dummy so
/// that every real identifier is nonzero, as the profile format demands.
pub struct PbLocation {
    pub name_idx: usize,
}

/// One entry of the sample table: the location identifiers of the key's
/// frames (outermost first), the occurrence count, and the string-table
/// index of the thread label.
pub struct PbSample {
    pub loc_ids: Vec<usize>,
    pub count: u64,
    pub thread_idx: usize,
}

/// The normalized, cross-referenced table structure of the binary profile:
/// a deduplicated string table, a deduplicated location table, and one
/// sample row per distinct sample key.
pub struct Profile {
    pub strings: Vec<String>,
    pub locations: Vec<PbLocation>,
    pub samples: Vec<PbSample>,
    /// String-table index of the sample-type name.
    pub type_idx: usize,
    /// String-table index of the sample-type unit.
    pub unit_idx: usize,
    /// String-table index of the thread label key.
    pub label_idx: usize,
}

/// Pairwise-distinct string table.
pub open spec fn distinct_strings(s: Seq<Seq<char>>) -> bool {
    forall|i: int, j: int| 0 <= i < j < s.len() ==> s[i] != s[j]
}

/// No two real location-table entries name the same string.
pub open spec fn injective_locations(ls: Seq<PbLocation>) -> bool {
    forall|i: int, j: int|
        1 <= i < j < ls.len() ==> (#[trigger] ls[i]).name_idx != (#[trigger] ls[j]).name_idx
}

/// Structural correctness of a profile: every reference resolves. The
/// string table starts with the empty string, every location's name index
/// is a valid string index, every sample's location identifiers point at
/// real (nonzero) location entries, and both tables are deduplicated.
pub open spec fn wf_profile(p: Profile) -> bool {
    &&& p.strings.deep_view().len() >= 1
    &&& p.strings.deep_view()[0] == Seq::<char>::empty()
    &&& distinct_strings(p.strings.deep_view())
    &&& p.locations@.len() >= 1
    &&& injective_locations(p.locations@)
    &&& forall|l: int|
        0 <= l < p.locations@.len() ==> (#[trigger] p.locations@[l]).name_idx
            < p.strings.deep_view().len()
    &&& forall|i: int|
        0 <= i < p.samples@.len() ==> (#[trigger] p.samples@[i]).thread_idx
            < p.strings.deep_view().len()
    &&& forall|i: int, j: int|
        0 <= i < p.samples@.len() && 0 <= j < p.samples@[i].loc_ids@.len() ==> 1 <= (
        #[trigger] p.samples@[i].loc_ids@[j]) < p.locations@.len()
    &&& p.type_idx < p.strings.deep_view().len()
    &&& p.unit_idx < p.strings.deep_view().len()
    &&& p.label_idx < p.strings.deep_view().len()
}

/// The profile represents the sample table: one sample row per entry, in
/// order, carrying the entry's count, and every frame resolving through
/// the location table to the frame's symbol.
pub open spec fn represents(p: Profile, entries: Seq<EntryV>) -> bool {
    &&& p.samples@.len() == entries.len()
    &&& forall|i: int|
        0 <= i < entries.len() ==> (#[trigger] p.samples@[i]).count == entries[i].count
    &&& forall|i: int|
        0 <= i < entries.len() ==> p.strings.deep_view()[(
        #[trigger] p.samples@[i]).thread_idx as int] == entries[i].key.thread
    &&& forall|i: int|
        0 <= i < entries.len() ==> (#[trigger] p.samples@[i]).loc_ids@.len()
            == entries[i].key.frames.len()
    &&& forall|i: int, j: int|
        0 <= i < entries.len() && 0 <= j < entries[i].key.frames.len()
            ==> p.strings.deep_view()[p.locations@[(
        #[trigger] p.samples@[i].loc_ids@[j]) as int].name_idx as int] == entries[i].key.frames[j]
}

/// Returns the string-table index of `s`, interning it if it is new.
/// Existing indices keep their strings.
fn intern_string(strings: &mut Vec<String>, s: &String) -> (r: usize)
    requires
        distinct_strings(old(strings).deep_view()),
    ensures
        distinct_strings(final(strings).deep_view()),
        r < final(strings).deep_view().len(),
        final(strings).deep_view()[r as int] == s@,
        old(strings).deep_view().len() <= final(strings).deep_view().len(),
        final(strings).deep_view().len() == old(strings).deep_view().len() || (
        final(strings).deep_view().len() == old(strings).deep_view().len() + 1
            && r == old(strings).deep_view().len()),
        forall|k: int|
            0 <= k < old(strings).deep_view().len() ==> final(strings).deep_view()[k] == old(
                strings,
            ).deep_view()[k],
{
    let n = strings.len();
    let mut i: usize = 0;
    while i < n
        invariant
            0 <= i <= n,
            n == strings.len(),
            *strings == *old(strings),
            strings.deep_view() == old(strings).deep_view(),
            distinct_strings(strings.deep_view()),
            forall|j: int| 0 <= j < i ==> strings.deep_view()[j] != s@,
        decreases n - i,
    {
        if str_eq(&strings[i], s) {
            proof {
                assert(strings.deep_view()[i as int] == strings@[i as int]@);
                assert(strings.deep_view() == old(strings).deep_view());
                assert(strings.deep_view().len() == strings@.len());
            }
            return i;
        }
        i = i + 1;
    }
    let ghost pre: Seq<Seq<char>> = strings.deep_view();
    let ghost prev: Seq<String> = strings@;
    let c = s.clone();
    strings.push(c);
    proof {
        assert(strings@ == prev.push(c));
        assert(pre.len() == prev.len());
        assert forall|k: int| 0 <= k < strings@.len() implies strings.deep_view()[k] == (
        if k < pre.len() {
            pre[k]
        } else {
            s@
        }) by {
            assert(strings.deep_view()[k] == strings@[k].deep_view());
            if k < pre.len() {
                assert(strings@[k] == prev[k]);
                assert(pre[k] == prev[k].deep_view());
            } else {
                assert(strings@[k] == c);
            }
        }
        assert(distinct_strings(strings.deep_view()));
    }
    n
}

/// Returns the identifier of the real location naming string `name_idx`,
/// interning a new location if none does. Identifiers are nonzero, and
/// existing identifiers keep their entries.
fn intern_location(locations: &mut Vec<PbLocation>, name_idx: usize) -> (r: usize)
    requires
        injective_locations(old(locations)@),
        old(locations)@.len() >= 1,
    ensures
        injective_locations(final(locations)@),
        1 <= r < final(locations)@.len(),
        final(locations)@[r as int].name_idx == name_idx,
        old(locations)@.len() <= final(locations)@.len(),
        final(locations)@.len() == old(locations)@.len() || (
        final(locations)@.len() == old(locations)@.len() + 1 && r == old(locations)@.len()),
        forall|k: int|
            0 <= k < old(locations)@.len() ==> final(locations)@[k] == old(locations)@[k],
{
    let n = locations.len();
    let mut i: usize = 1;
    while i < n
        invariant
            1 <= i <= n || (n < 1 && i == 1),
            n == locations.len(),
            n >= 1,
            *locations == *old(locations),
            locations@ == old(locations)@,
            injective_locations(locations@),
            forall|j: int| 1 <= j < i ==> locations@[j].name_idx != name_idx,
        decreases n - i,
    {
        if locations[i].name_idx == name_idx {
            proof {
                assert(locations@ == old(locations)@);
            }
            return i;
        }
        i = i + 1;
    }
    locations.push(PbLocation { name_idx });
    proof {
        assert(locations@ == old(locations)@.push(PbLocation { name_idx }));
        assert(injective_locations(locations@));
    }
    n
}

impl Profile {
    pub open spec fn wf(&self) -> bool {
        wf_profile(*self)
    }

    /// Builds the normalized table structure of a snapshot: interns every
    /// thread label and frame symbol once, gives every distinct frame one
    /// location entry, and emits one sample row per snapshot entry. The
    /// result is structurally correct (`wf`) and `represents` the
    /// snapshot's table.
    pub fn build(snap: &Snapshot) -> (p: Profile)
        ensures
            p.wf(),
            represents(p, snap.deep_view()),
            p.strings.deep_view()[p.type_idx as int] == "samples"@,
            p.strings.deep_view()[p.unit_idx as int] == "count"@,
            p.strings.deep_view()[p.label_idx as int] == "thread"@,
    {
        let mut strings: Vec<String> = Vec::new();
        strings.push(String::new());
        proof {
            assert(strings.deep_view() =~= seq![Seq::<char>::empty()]);
        }
        let st = intern_name(&mut strings, 0);
        let un = intern_name(&mut strings, 1);
        let lb = intern_name(&mut strings, 2);
        let mut locations: Vec<PbLocation> = Vec::new();
        locations.push(PbLocation { name_idx: 0 });
        let mut samples: Vec<PbSample> = Vec::new();
        let ghost entries: Seq<EntryV> = snap.deep_view();
        let n = snap.entries.len();
        let mut i: usize = 0;
        while i < n
            invariant
                0 <= i <= n,
                n == snap.entries.len(),
                entries == snap.deep_view(),
                entries.len() == n,
                distinct_strings(strings.deep_view()),
                strings.deep_view().len() >= 1,
                strings.deep_view()[0] == Seq::<char>::empty(),
                st < strings.deep_view().len(),
                un < strings.deep_view().len(),
                lb < strings.deep_view().len(),
                strings.deep_view()[st as int] == "samples"@,
                strings.deep_view()[un as int] == "count"@,
                strings.deep_view()[lb as int] == "thread"@,
                locations@.len() >= 1,
                injective_locations(locations@),
                forall|l: int|
                    0 <= l < locations@.len() ==> (#[trigger] locations@[l]).name_idx
                        < strings.deep_view().len(),
                samples@.len() == i,
                forall|q: int|
                    0 <= q < i ==> (#[trigger] samples@[q]).count == entries[q].count,
                forall|q: int|
                    0 <= q < i ==> (#[trigger] samples@[q]).thread_idx
                        < strings.deep_view().len(),
                forall|q: int|
                    0 <= q < i ==> strings.deep_view()[(
                    #[trigger] samples@[q]).thread_idx as int] == entries[q].key.thread,
                forall|q: int|
                    0 <= q < i ==> (#[trigger] samples@[q]).loc_ids@.len()
                        == entries[q].key.frames.len(),
                forall|q: int, j: int|
                    0 <= q < i && 0 <= j < samples@[q].loc_ids@.len() ==> 1 <= (
                    #[trigger] samples@[q].loc_ids@[j]) < locations@.len(),
                forall|q: int, j: int|
                    0 <= q < i && 0 <= j < entries[q].key.frames.len()
                        ==> strings.deep_view()[locations@[(
                    #[trigger] samples@[q].loc_ids@[j]) as int].name_idx as int]
                        == entries[q].key.frames[j],
            decreases n - i,
        {
            let e = &snap.entries[i];
            proof {
                assert(entries[i as int] == e.deep_view());
            }
            let thread_idx = intern_string(&mut strings, &e.key.thread);
            let m = e.key.frames.len();
            let mut loc_ids: Vec<usize> = Vec::new();
            let mut j: usize = 0;
            while j < m
                invariant
                    0 <= j <= m,
                    m == e.key.frames.len(),
                    e == &snap.entries[i as int],
                    0 <= i < n,
                    n == snap.entries.len(),
                    entries == snap.deep_view(),
                    entries.len() == n,
                    entries[i as int] == e.deep_view(),
                    distinct_strings(strings.deep_view()),
                    strings.deep_view().len() >= 1,
                    strings.deep_view()[0] == Seq::<char>::empty(),
                    st < strings.deep_view().len(),
                    un < strings.deep_view().len(),
                    lb < strings.deep_view().len(),
                    strings.deep_view()[st as int] == "samples"@,
                    strings.deep_view()[un as int] == "count"@,
                    strings.deep_view()[lb as int] == "thread"@,
                    thread_idx < strings.deep_view().len(),
                    strings.deep_view()[thread_idx as int] == e.key.thread@,
                    locations@.len() >= 1,
                    injective_locations(locations@),
                    forall|l: int|
                        0 <= l < locations@.len() ==> (#[trigger] locations@[l]).name_idx
                            < strings.deep_view().len(),
                    loc_ids@.len() == j,
                    forall|t: int|
                        0 <= t < j ==> 1 <= (#[trigger] loc_ids@[t]) < locations@.len(),
                    forall|t: int|
                        0 <= t < j ==> strings.deep_view()[locations@[(
                        #[trigger] loc_ids@[t]) as int].name_idx as int]
                            == e.key.frames.deep_view()[t],
                    samples@.len() == i,
                    forall|q: int|
                        0 <= q < i ==> (#[trigger] samples@[q]).count == entries[q].count,
                    forall|q: int|
                        0 <= q < i ==> (#[trigger] samples@[q]).thread_idx
                            < strings.deep_view().len(),
                    forall|q: int|
                        0 <= q < i ==> strings.deep_view()[(
                        #[trigger] samples@[q]).thread_idx as int] == entries[q].key.thread,
                    forall|q: int|
                        0 <= q < i ==> (#[trigger] samples@[q]).loc_ids@.len()
                            == entries[q].key.frames.len(),
                    forall|q: int, t: int|
                        0 <= q < i && 0 <= t < samples@[q].loc_ids@.len() ==> 1 <= (
                        #[trigger] samples@[q].loc_ids@[t]) < locations@.len(),
                    forall|q: int, t: int|
                        0 <= q < i && 0 <= t < entries[q].key.frames.len()
                            ==> strings.deep_view()[locations@[(
                        #[trigger] samples@[q].loc_ids@[t]) as int].name_idx as int]
                            == entries[q].key.frames[t],
                decreases m - j,
            {
                let sidx = intern_string(&mut strings, &e.key.frames[j]);
                proof {
                    assert(e.key.frames.deep_view()[j as int] == e.key.frames@[j as int]@);
                }
                let ghost locs1: Seq<PbLocation> = locations@;
                let ghost strs1: Seq<Seq<char>> = strings.deep_view();
                let l = intern_location(&mut locations, sidx);
                loc_ids.push(l);
                proof {
                    assert(loc_ids@.len() == j + 1);
                    assert forall|t: int| 0 <= t < locations@.len() implies (
                    #[trigger] locations@[t]).name_idx < strings.deep_view().len() by {
                        if t < locs1.len() {
                            assert(locations@[t] == locs1[t]);
                        } else {
                            assert(t == locs1.len());
                            assert(locations@[t].name_idx == sidx);
                        }
                    }
                }
                j = j + 1;
            }
            proof {
                assert(e.key.frames.deep_view().len() == e.key.frames@.len());
            }
            samples.push(PbSample { loc_ids, count: e.count, thread_idx });
            proof {
                assert(samples@.len() == i + 1);
                assert(samples@[i as int] == (PbSample {
                    loc_ids: samples@[i as int].loc_ids,
                    count: e.count,
                    thread_idx,
                }));
                assert(entries[i as int].key.frames == e.key.frames.deep_view());
            }
            i = i + 1;
        }
        let p = Profile { strings, locations, samples, type_idx: st, unit_idx: un, label_idx: lb };
        proof {
            assert(p.samples@.len() == entries.len());
        }
        p
    }
}

/// Interns one of the three fixed profile strings: the sample-type name,
/// its unit, and the thread label key.
fn intern_name(strings: &mut Vec<String>, which: u8) -> (r: usize)
    requires
        distinct_strings(old(strings).deep_view()),
        which < 3,
    ensures
        distinct_strings(final(strings).deep_view()),
        r < final(strings).deep_view().len(),
        final(strings).deep_view()[r as int] == (if which == 0 {
            "samples"@
        } else if which == 1 {
            "count"@
        } else {
            "thread"@
        }),
        old(strings).deep_view().len() <= final(strings).deep_view().len(),
        forall|k: int|
            0 <= k < old(strings).deep_view().len() ==> final(strings).deep_view()[k] == old(
                strings,
            ).deep_view()[k],
{
    if which == 0 {
        let s = String::from_str("samples");
        intern_string(strings, &s)
    } else if which == 1 {
        let s = String::from_str("count");
        intern_string(strings, &s)
    } else {
        let s = String::from_str("thread");
        intern_string(strings, &s)
    }
}

} // verus!

use vstd::prelude::*;
use crate::error::ProfError;
use crate::sample::{Entry, EntryV, Snapshot, clone_entries, merge_count, merged_count, wf_entries};

verus! {

/// A raw resolved stack frame as delivered by the sampling mechanism: the
/// symbol name and the library the frame belongs to. Frame exclusion is
/// decided on the library name.
pub struct Frame {
    pub symbol: String,
    pub library: String,
}

/// The mathematical value of a `Frame`.
pub struct FrameV {
    pub symbol: Seq<char>,
    pub library: Seq<char>,
}

impl DeepView for Frame {
    type V = FrameV;

    open spec fn deep_view(&self) -> FrameV {
        FrameV { symbol: self.symbol@, library: self.library@ }
    }
}

/// The symbols that remain of a raw stack once every frame whose library
/// is in the exclusion set has been dropped, in stack order.
pub open spec fn filtered_symbols(excl: Seq<Seq<char>>, stack: Seq<FrameV>) -> Seq<Seq<char>>
    decreases stack.len(),
{
    if stack.len() == 0 {
        Seq::empty()
    } else {
        let rest = filtered_symbols(excl, stack.drop_last());
        if excl.contains(stack.last().library) {
            rest
        } else {
            rest.push(stack.last().symbol)
        }
    }
}

/// Filtering completeness: a stack whose frames all lie in the exclusion
/// set filters to nothing, so (by `record`'s contract) it never enters the
/// sample table and cannot appear in any exported format.
pub proof fn lemma_fully_excluded_stack_dropped(excl: Seq<Seq<char>>, stack: Seq<FrameV>)
    requires
        forall|i: int| 0 <= i < stack.len() ==> excl.contains((#[trigger] stack[i]).library),
    ensures
        filtered_symbols(excl, stack).len() == 0,
    decreases stack.len(),
{
    if stack.len() > 0 {
        assert(stack.last() == stack[stack.len() - 1]);
        assert forall|i: int| 0 <= i < stack.drop_last().len() implies excl.contains(
            (#[trigger] stack.drop_last()[i]).library,
        ) by {
            assert(stack.drop_last()[i] == stack[i]);
        }
        lemma_fully_excluded_stack_dropped(excl, stack.drop_last());
    }
}

/// Filtering completeness, end to end: a recording step (`record`'s
/// contract is `merged_count` over the filtered stack) whose raw stack
/// lies entirely in the exclusion set leaves the sample table exactly as
/// it was, so the sample appears in no exported format.
pub proof fn lemma_fully_excluded_sample_never_recorded(
    before: Seq<EntryV>,
    after: Seq<EntryV>,
    thread: Seq<char>,
    excl: Seq<Seq<char>>,
    stack: Seq<FrameV>,
)
    requires
        forall|i: int| 0 <= i < stack.len() ==> excl.contains((#[trigger] stack[i]).library),
        merged_count(before, after, thread, filtered_symbols(excl, stack), 1),
    ensures
        after == before,
{
    lemma_fully_excluded_stack_dropped(excl, stack);
}

/// Membership test on the exclusion set, specified over its deep view.
pub fn contains_str(v: &Vec<String>, s: &String) -> (r: bool)
    ensures
        r == v.deep_view().contains(s@),
{
    let n = v.len();
    let mut i: usize = 0;
    while i < n
        invariant
            0 <= i <= n,
            n == v.len(),
            forall|j: int| 0 <= j < i ==> v.deep_view()[j] != s@,
        decreases n - i,
    {
        if crate::sample::str_eq(&v[i], s) {
            proof {
                assert(v.deep_view()[i as int] == s@);
            }
            return true;
        }
        i = i + 1;
    }
    proof {
        assert forall|j: int| 0 <= j < v.deep_view().len() implies v.deep_view()[j] != s@ by {}
        assert(!v.deep_view().contains(s@));
    }
    false
}

/// Drops every frame whose library is excluded and keeps the symbols of
/// the rest, in stack order.
pub fn filter_stack(excluded: &Vec<String>, stack: &Vec<Frame>) -> (r: Vec<String>)
    ensures
        r.deep_view() == filtered_symbols(excluded.deep_view(), stack.deep_view()),
{
    let ghost ev: Seq<Seq<char>> = excluded.deep_view();
    let ghost sv: Seq<FrameV> = stack.deep_view();
    let n = stack.len();
    let mut r: Vec<String> = Vec::new();
    let mut i: usize = 0;
    while i < n
        invariant
            0 <= i <= n,
            n == stack.len(),
            ev == excluded.deep_view(),
            sv == stack.deep_view(),
            r.deep_view() == filtered_symbols(ev, sv.take(i as int)),
        decreases n - i,
    {
        proof {
            assert(sv.take(i + 1).drop_last() =~= sv.take(i as int));
            assert(sv.take(i + 1).last() == sv[i as int]);
            assert(sv[i as int] == stack[i as int].deep_view());
        }
        if !contains_str(excluded, &stack[i].library) {
            let s = stack[i].symbol.clone();
            r.push(s);
            proof {
                assert(r.deep_view() =~= filtered_symbols(ev, sv.take(i + 1)));
            }
        } else {
            proof {
                assert(r.deep_view() =~= filtered_symbols(ev, sv.take(i + 1)));
            }
        }
        i = i + 1;
    }
    proof {
        assert(sv.take(n as int) =~= sv);
    }
    r
}

/// The stack sample collector: accumulates occurrence counts per
/// (thread, filtered call stack) key. The sampling mechanism itself is an
/// outside collaborator; it hands raw (thread, stack) observations to
/// `record`.
pub struct Collector {
    /// Whether background sampling has been started.
    pub running: bool,
    /// Sampling frequency in samples per second, fixed at construction.
    pub frequency: u64,
    /// Library names whose frames are excluded at symbol-resolution time.
    pub excluded: Vec<String>,
    /// The live sample table.
    pub entries: Vec<Entry>,
}

impl Collector {
    /// The live sample table as a mathematical value.
    pub open spec fn table(&self) -> Seq<EntryV> {
        self.entries.deep_view()
    }

    pub open spec fn excluded_set(&self) -> Seq<Seq<char>> {
        self.excluded.deep_view()
    }

    pub open spec fn wf(&self) -> bool {
        wf_entries(self.table())
    }

    /// A collector with an empty table that is not yet running.
    pub fn new(frequency: u64, excluded: Vec<String>) -> (r: Collector)
        ensures
            r.wf(),
            !r.running,
            r.frequency == frequency,
            r.excluded_set() == excluded.deep_view(),
            r.table() =~= Seq::<EntryV>::empty(),
    {
        Collector { running: false, frequency, excluded, entries: Vec::new() }
    }

    /// Marks background sampling as started. Starting twice without an
    /// intervening stop is an error: the second call reports
    /// `AlreadyRunning` and changes nothing.
    pub fn start(&mut self) -> (r: Result<(), ProfError>)
        ensures
            old(self).running ==> r == Result::<(), ProfError>::Err(ProfError::AlreadyRunning)
                && *final(self) == *old(self),
            !old(self).running ==> r == Result::<(), ProfError>::Ok(()) && *final(self) == (
            Collector { running: true, ..*old(self) }),
    {
        if self.running {
            Err(ProfError::AlreadyRunning)
        } else {
            self.running = true;
            Ok(())
        }
    }

    /// Records one raw stack sample for `thread`. Frames in excluded
    /// libraries are dropped; if nothing remains the whole sample is
    /// dropped, otherwise the count of the surviving key rises by one
    /// (saturating), or the key enters the table with count one.
    pub fn record(&mut self, thread: String, stack: &Vec<Frame>)
        requires
            old(self).wf(),
        ensures
            final(self).wf(),
            final(self).running == old(self).running,
            final(self).frequency == old(self).frequency,
            final(self).excluded_set() == old(self).excluded_set(),
            merged_count(
                old(self).table(),
                final(self).table(),
                thread@,
                filtered_symbols(old(self).excluded_set(), stack.deep_view()),
                1,
            ),
    {
        let symbols = filter_stack(&self.excluded, stack);
        merge_count(&mut self.entries, thread, symbols, 1);
    }

    /// An immutable copy of the current sample table. The copy shares no
    /// state with the collector, so later samples cannot change it, and
    /// every key it holds was fully recorded before this call.
    pub fn snapshot(&self) -> (r: Snapshot)
        requires
            self.wf(),
        ensures
            r.deep_view() == self.table(),
            r.wf(),
    {
        Snapshot { entries: clone_entries(&self.entries) }
    }
}

} // verus!

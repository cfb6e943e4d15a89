use vstd::prelude::*;
use crate::sample::{Entry, EntryV, Snapshot, clone_entries, merge_count, merged_count, str_eq,
    wf_entries};
use crate::text::folded_text;
use crate::sample::entry_lines;

verus! {

/// A span that has been entered and not yet exited.
pub struct SpanOpen {
    pub name: String,
    pub entered_at: u64,
}

/// The mathematical value of a `SpanOpen`.
pub struct SpanOpenV {
    pub name: Seq<char>,
    pub entered_at: u64,
}

impl DeepView for SpanOpen {
    type V = SpanOpenV;

    open spec fn deep_view(&self) -> SpanOpenV {
        SpanOpenV { name: self.name@, entered_at: self.entered_at }
    }
}

/// The stack of active spans of one thread, outermost first.
pub struct ThreadSpans {
    pub thread: String,
    pub stack: Vec<SpanOpen>,
}

/// The mathematical value of a `ThreadSpans`.
pub struct ThreadSpansV {
    pub thread: Seq<char>,
    pub stack: Seq<SpanOpenV>,
}

impl DeepView for ThreadSpans {
    type V = ThreadSpansV;

    open spec fn deep_view(&self) -> ThreadSpansV {
        ThreadSpansV { thread: self.thread@, stack: self.stack.deep_view() }
    }
}

/// The span names of an active-span stack, outermost first.
pub open spec fn names_of(stack: Seq<SpanOpenV>) -> Seq<Seq<char>> {
    stack.map_values(|s: SpanOpenV| s.name)
}

/// Saturating subtraction: the elapsed time credited to a span whose exit
/// timestamp precedes its recorded entry is zero.
pub open spec fn sat_sub(a: u64, b: u64) -> u64 {
    if a >= b {
        (a - b) as u64
    } else {
        0
    }
}

/// The span flame recorder: observes span enter/exit events from the
/// hosting application's instrumentation and accumulates elapsed-time
/// weights per (thread, nested span-name stack) key. This key is made of
/// human-assigned span names, not sampled instruction symbols, and is kept
/// in its own table, never in a collector's sample table.
pub struct SpanRecorder {
    /// Per-thread stacks of currently active spans.
    pub active: Vec<ThreadSpans>,
    /// Accumulated duration weight per (thread, span-name stack) key.
    pub weights: Vec<Entry>,
}

/// Well-formedness of the active-span state: one stack per thread label.
pub open spec fn wf_active(s: Seq<ThreadSpansV>) -> bool {
    forall|i: int, j: int|
        0 <= i < j < s.len() ==> (#[trigger] s[i]).thread != (#[trigger] s[j]).thread
}

/// Finds the active-span stack of `thread`, if there is one.
pub fn find_thread(active: &Vec<ThreadSpans>, thread: &String) -> (r: Option<usize>)
    ensures
        match r {
            Some(i) => i < active.deep_view().len() && active.deep_view()[i as int].thread
                == thread@,
            None => forall|j: int|
                0 <= j < active.deep_view().len() ==> (#[trigger] active.deep_view()[j]).thread
                    != thread@,
        },
{
    let n = active.len();
    let mut i: usize = 0;
    while i < n
        invariant
            0 <= i <= n,
            n == active.len(),
            forall|j: int| 0 <= j < i ==> (#[trigger] active.deep_view()[j]).thread != thread@,
        decreases n - i,
    {
        if str_eq(&active[i].thread, thread) {
            return Some(i);
        }
        i = i + 1;
    }
    None
}

impl SpanRecorder {
    pub open spec fn active_view(&self) -> Seq<ThreadSpansV> {
        self.active.deep_view()
    }

    pub open spec fn weights_view(&self) -> Seq<EntryV> {
        self.weights.deep_view()
    }

    pub open spec fn wf(&self) -> bool {
        wf_active(self.active_view()) && wf_entries(self.weights_view())
    }

    /// A recorder with no active spans and no accumulated weight.
    pub fn new() -> (r: SpanRecorder)
        ensures
            r.wf(),
            r.active_view() =~= Seq::<ThreadSpansV>::empty(),
            r.weights_view() =~= Seq::<EntryV>::empty(),
    {
        SpanRecorder { active: Vec::new(), weights: Vec::new() }
    }

    /// A span named `name` was entered on `thread` at time `now`: the name
    /// is pushed onto that thread's active stack. Weights do not change.
    pub fn on_enter(&mut self, thread: String, name: String, now: u64)
        requires
            old(self).wf(),
        ensures
            final(self).wf(),
            final(self).weights_view() == old(self).weights_view(),
            (forall|i: int|
                0 <= i < old(self).active_view().len() ==> (#[trigger] old(
                    self,
                ).active_view()[i]).thread != thread@) ==> final(self).active_view() == old(
                self,
            ).active_view().push(
                ThreadSpansV {
                    thread: thread@,
                    stack: seq![SpanOpenV { name: name@, entered_at: now }],
                },
            ),
            forall|i: int|
                0 <= i < old(self).active_view().len() && (#[trigger] old(
                    self,
                ).active_view()[i]).thread == thread@ ==> final(self).active_view() == old(
                    self,
                ).active_view().update(
                    i,
                    ThreadSpansV {
                        thread: old(self).active_view()[i].thread,
                        stack: old(self).active_view()[i].stack.push(
                            SpanOpenV { name: name@, entered_at: now },
                        ),
                    },
                ),
    {
        let ghost before: Seq<ThreadSpansV> = self.active_view();
        match find_thread(&self.active, &thread) {
            Some(i) => {
                let mut t = self.active.remove(i);
                let ghost tv: ThreadSpansV = before[i as int];
                proof {
                    assert(t.deep_view() == tv);
                }
                t.stack.push(SpanOpen { name, entered_at: now });
                proof {
                    assert(t.stack.deep_view() =~= tv.stack.push(
                        SpanOpenV { name: name@, entered_at: now },
                    ));
                }
                self.active.insert(i, t);
                proof {
                    let now_v = self.active_view();
                    let target = before.update(
                        i as int,
                        ThreadSpansV {
                            thread: tv.thread,
                            stack: tv.stack.push(SpanOpenV { name: name@, entered_at: now }),
                        },
                    );
                    assert(now_v =~= target);
                    assert forall|p: int, q: int|
                        0 <= p < q < now_v.len() implies (#[trigger] now_v[p]).thread != (
                    #[trigger] now_v[q]).thread by {
                        assert(before[p].thread == now_v[p].thread);
                        assert(before[q].thread == now_v[q].thread);
                    }
                    assert forall|j: int|
                        0 <= j < before.len() && (#[trigger] before[j]).thread == thread@
                        implies self.active_view() == before.update(
                        j,
                        ThreadSpansV {
                            thread: before[j].thread,
                            stack: before[j].stack.push(
                                SpanOpenV { name: name@, entered_at: now },
                            ),
                        },
                    ) by {
                        if j != i as int {
                            assert(before[j].thread != before[i as int].thread);
                        }
                    }
                }
            },
            None => {
                let mut stack: Vec<SpanOpen> = Vec::new();
                stack.push(SpanOpen { name, entered_at: now });
                proof {
                    assert(stack.deep_view() =~= seq![SpanOpenV { name: name@, entered_at: now }]);
                }
                self.active.push(ThreadSpans { thread, stack });
                proof {
                    let now_v = self.active_view();
                    assert(now_v =~= before.push(
                        ThreadSpansV {
                            thread: thread@,
                            stack: seq![SpanOpenV { name: name@, entered_at: now }],
                        },
                    ));
                    assert forall|p: int, q: int|
                        0 <= p < q < now_v.len() implies (#[trigger] now_v[p]).thread != (
                    #[trigger] now_v[q]).thread by {
                        if q < now_v.len() - 1 {
                            assert(before[p].thread != before[q].thread);
                        } else {
                            assert(before[p].thread != thread@);
                        }
                    }
                }
            },
        }
    }

    /// The innermost active span of `thread` exited at time `now`: it is
    /// popped, and the elapsed time since its entry (zero if the clock ran
    /// backwards) is added, saturating, to the weight of the
    /// (thread, span-name stack at exit) key. An exit without a matching
    /// enter changes nothing.
    pub fn on_exit(&mut self, thread: &String, now: u64)
        requires
            old(self).wf(),
        ensures
            final(self).wf(),
            (forall|i: int|
                0 <= i < old(self).active_view().len() ==> (#[trigger] old(
                    self,
                ).active_view()[i]).thread != thread@) ==> final(self).active_view() == old(
                self,
            ).active_view() && final(self).weights_view() == old(self).weights_view(),
            forall|i: int|
                0 <= i < old(self).active_view().len() && (#[trigger] old(
                    self,
                ).active_view()[i]).thread == thread@ ==> {
                    let stack = old(self).active_view()[i].stack;
                    if stack.len() == 0 {
                        &&& final(self).active_view() == old(self).active_view()
                        &&& final(self).weights_view() == old(self).weights_view()
                    } else {
                        final(self).active_view() == old(self).active_view().update(
                            i,
                            ThreadSpansV {
                                thread: old(self).active_view()[i].thread,
                                stack: stack.drop_last(),
                            },
                        ) && merged_count(
                            old(self).weights_view(),
                            final(self).weights_view(),
                            thread@,
                            names_of(stack),
                            sat_sub(now, stack.last().entered_at),
                        )
                    }
                },
    {
        let ghost before: Seq<ThreadSpansV> = self.active_view();
        match find_thread(&self.active, thread) {
            Some(i) => {
                let mut t = self.active.remove(i);
                let ghost tv: ThreadSpansV = before[i as int];
                proof {
                    assert(t.deep_view() == tv);
                    assert(t.stack.deep_view().len() == t.stack@.len());
                }
                match t.stack.pop() {
                    Some(top) => {
                        proof {
                            assert(tv.stack.len() >= 1);
                            assert(t.stack.deep_view() =~= tv.stack.drop_last());
                            assert(top.deep_view() == tv.stack.last());
                        }
                        let elapsed = now.saturating_sub(top.entered_at);
                        let mut names = collect_names(&t.stack);
                        let ghost names0: Seq<Seq<char>> = names.deep_view();
                        let ghost namesq: Seq<String> = names@;
                        proof {
                            assert(names0 == names_of(tv.stack.drop_last()));
                            assert(names0.len() == tv.stack.drop_last().len());
                            assert(namesq.len() == names0.len());
                        }
                        names.push(top.name);
                        proof {
                            assert(names@ == namesq.push(top.name));
                            assert forall|j: int| 0 <= j < names@.len() implies names.deep_view()[j]
                                == names_of(tv.stack)[j] by {
                                assert(names.deep_view()[j] == names@[j].deep_view());
                                assert(names_of(tv.stack)[j] == tv.stack[j].name);
                                if j < namesq.len() {
                                    assert(names@[j] == namesq[j]);
                                    assert(names0[j] == namesq[j].deep_view());
                                    assert(names0[j] == names_of(tv.stack.drop_last())[j]);
                                    assert(names_of(tv.stack.drop_last())[j] == tv.stack.drop_last()[j].name);
                                    assert(tv.stack.drop_last()[j] == tv.stack[j]);
                                } else {
                                    assert(names@[j] == top.name);
                                    assert(tv.stack[j] == tv.stack.last());
                                }
                            }
                            assert(names.deep_view().len() == names_of(tv.stack).len());
                            assert(names.deep_view() =~= names_of(tv.stack));
                        }
                        let label = t.thread.clone();
                        self.active.insert(i, t);
                        proof {
                            let now_v = self.active_view();
                            let target = before.update(
                                i as int,
                                ThreadSpansV { thread: tv.thread, stack: tv.stack.drop_last() },
                            );
                            assert(now_v =~= target);
                            assert forall|p: int, q: int|
                                0 <= p < q < now_v.len() implies (#[trigger] now_v[p]).thread
                                != (#[trigger] now_v[q]).thread by {
                                assert(before[p].thread == now_v[p].thread);
                                assert(before[q].thread == now_v[q].thread);
                            }
                        }
                        merge_count(&mut self.weights, label, names, elapsed);
                        proof {
                            assert forall|j: int|
                                0 <= j < before.len() && (#[trigger] before[j]).thread == thread@
                                implies j == i as int by {
                                if j != i as int {
                                    assert(before[j].thread != before[i as int].thread);
                                }
                            }
                        }
                    },
                    None => {
                        proof {
                            assert(tv.stack.len() == 0);
                        }
                        self.active.insert(i, t);
                        proof {
                            assert(self.active_view() =~= before);
                            assert forall|j: int|
                                0 <= j < before.len() && (#[trigger] before[j]).thread == thread@
                                implies j == i as int by {
                                if j != i as int {
                                    assert(before[j].thread != before[i as int].thread);
                                }
                            }
                        }
                    },
                }
            },
            None => {},
        }
    }

    /// Converts the accumulated span weights, at this instant, into the
    /// folded-stack text report: one line per (thread, span stack) key,
    /// `<thread>;<outer-span>;...;<inner-span> <weight>`. Events recorded
    /// after this call do not affect the returned text.
    pub fn flush(&self) -> (r: String)
        requires
            self.wf(),
        ensures
            r@ == folded_text(entry_lines(self.weights_view())),
    {
        let snap = Snapshot { entries: clone_entries(&self.weights) };
        snap.folded()
    }
}

/// Copies the span names of an active-span stack, outermost first.
pub fn collect_names(stack: &Vec<SpanOpen>) -> (r: Vec<String>)
    ensures
        r.deep_view() == names_of(stack.deep_view()),
{
    let n = stack.len();
    let mut r: Vec<String> = Vec::new();
    let mut i: usize = 0;
    while i < n
        invariant
            0 <= i <= n,
            n == stack.len(),
            r.deep_view() =~= names_of(stack.deep_view().take(i as int)),
        decreases n - i,
    {
        let ghost sv: Seq<SpanOpenV> = stack.deep_view();
        let ghost pre: Seq<Seq<char>> = r.deep_view();
        let ghost prev: Seq<String> = r@;
        proof {
            assert(sv.take(i as int).len() == i as int);
            assert(pre.len() == i as int);
            assert(prev.len() == i as int);
        }
        let s = stack[i].name.clone();
        r.push(s);
        proof {
            assert(r@ == prev.push(s));
            assert forall|j: int| 0 <= j < r@.len() implies r.deep_view()[j] == names_of(
                sv.take(i + 1),
            )[j] by {
                assert(r.deep_view()[j] == r@[j].deep_view());
                assert(names_of(sv.take(i + 1))[j] == sv.take(i + 1)[j].name);
                if j < i as int {
                    assert(r@[j] == prev[j]);
                    assert(pre[j] == prev[j].deep_view());
                    assert(pre[j] == names_of(sv.take(i as int))[j]);
                    assert(names_of(sv.take(i as int))[j] == sv.take(i as int)[j].name);
                } else {
                    assert(r@[j] == s);
                    assert(s@ == stack[i as int].name@);
                    assert(sv[i as int] == stack[i as int].deep_view());
                }
            }
            assert(r.deep_view().len() == names_of(sv.take(i + 1)).len());
            assert(r.deep_view() =~= names_of(sv.take(i + 1)));
        }
        i = i + 1;
    }
    proof {
        assert(stack.deep_view().take(n as int) =~= stack.deep_view());
        assert(r.deep_view() =~= names_of(stack.deep_view()));
    }
    r
}

} // verus!

//! The progress line of each running execution.
use crate::text::str_eq;
use crate::text;
use vstd::prelude::*;

verus! {

/// A shown summary is not replaced for this many milliseconds.
pub const SUMMARY_DEBOUNCE_MS: u64 = 1500;

/// The latest summary shown for an execution.
#[derive(Clone, Debug)]
pub struct ProgressEntry {
    pub execution_id: String,
    pub summary: String,
    /// When the summary last changed, on the dashboard's millisecond clock.
    pub changed_at: u64,
}

/// The summary shown for `id` and when it last changed.
pub open spec fn lookup(e: Seq<ProgressEntry>, id: Seq<char>) -> Option<(Seq<char>, u64)>
    decreases e.len(),
{
    if e.len() == 0 {
        None
    } else if e.last().execution_id@ == id {
        Some((e.last().summary@, e.last().changed_at))
    } else {
        lookup(e.drop_last(), id)
    }
}

/// The summaries of the running executions.
#[derive(Clone, Debug)]
pub struct ProgressSummaries {
    pub entries: Vec<ProgressEntry>,
}

/// Whether a new summary is taken over: nothing is shown yet, or something else
/// has been shown for the debounce time.
pub open spec fn takes_over(
    shown: Option<(Seq<char>, u64)>,
    summary: Seq<char>,
    now_ms: u64,
) -> bool {
    match shown {
        None => true,
        Some((text, at)) => text != summary && now_ms - at >= SUMMARY_DEBOUNCE_MS,
    }
}

proof fn lemma_lookup_push(e: Seq<ProgressEntry>, x: ProgressEntry, id: Seq<char>)
    ensures
        lookup(e.push(x), id) == if x.execution_id@ == id {
            Some((x.summary@, x.changed_at))
        } else {
            lookup(e, id)
        },
{
    assert(e.push(x).drop_last() =~= e);
}

impl ProgressSummaries {
    /// The summary shown for `id` and when it last changed.
    pub open spec fn shown(self, id: Seq<char>) -> Option<(Seq<char>, u64)> {
        lookup(self.entries@, id)
    }

    /// Nothing shown.
    pub fn new() -> (r: ProgressSummaries)
        ensures
            forall|id: Seq<char>| (#[trigger] r.shown(id)) is None,
    {
        ProgressSummaries { entries: Vec::new() }
    }

    /// The entry of `id`, if there is one.
    fn find(&self, id: &str) -> (r: Option<&ProgressEntry>)
        ensures
            match r {
                Some(e) => self.shown(id@) == Some((e.summary@, e.changed_at)),
                None => self.shown(id@) is None,
            },
    {
        let mut i: usize = self.entries.len();
        assert(self.entries@.take(i as int) =~= self.entries@);
        while i > 0
            invariant
                i <= self.entries@.len(),
                lookup(self.entries@, id@) == lookup(self.entries@.take(i as int), id@),
            decreases i,
        {
            let ghost t = self.entries@.take(i as int);
            assert(t.drop_last() =~= self.entries@.take(i - 1));
            assert(t.last() == self.entries@[i - 1]);
            if str_eq(self.entries[i - 1].execution_id.as_str(), id) {
                return Some(&self.entries[i - 1]);
            }
            i -= 1;
        }
        None
    }

    /// The summary shown for an execution.
    pub fn get_progress_summary(&self, execution_id: &str) -> (r: Option<&str>)
        ensures
            match r {
                Some(s) => self.shown(execution_id@) matches Some(e) && (e).0 == s@,
                None => self.shown(execution_id@) is None,
            },
    {
        match self.find(execution_id) {
            Some(e) => Some(e.summary.as_str()),
            None => None,
        }
    }

    /// Takes over `summary` for an execution, unless the one shown is the same
    /// or too fresh. Other executions keep theirs.
    pub fn record(&mut self, execution_id: &str, summary: &str, now_ms: u64)
        ensures
            forall|id: Seq<char>| #[trigger]
                final(self).shown(id) == if id == execution_id@ && takes_over(
                    old(self).shown(id),
                    summary@,
                    now_ms,
                ) {
                    Some((summary@, now_ms))
                } else {
                    old(self).shown(id)
                },
    {
        let take: bool = match self.find(execution_id) {
            None => true,
            Some(e) => !str_eq(e.summary.as_str(), summary) && now_ms >= e.changed_at && now_ms
                - e.changed_at >= SUMMARY_DEBOUNCE_MS,
        };
        if take {
            let x: ProgressEntry = ProgressEntry {
                execution_id: execution_id.to_owned(),
                summary: summary.to_owned(),
                changed_at: now_ms,
            };
            let ghost before = self.entries@;
            self.entries.push(x);
            proof {
                assert forall|id: Seq<char>| #[trigger]
                    self.shown(id) == if id == execution_id@ {
                        Some((summary@, now_ms))
                    } else {
                        lookup(before, id)
                    } by {
                    lemma_lookup_push(before, x, id);
                }
            }
        }
    }

    /// Drops the summary of an execution.
    pub fn remove(&mut self, execution_id: &str)
        ensures
            forall|id: Seq<char>| #[trigger]
                final(self).shown(id) == if id == execution_id@ {
                    None
                } else {
                    old(self).shown(id)
                },
    {
        let mut kept: Vec<ProgressEntry> = Vec::new();
        let mut i: usize = 0;
        while i < self.entries.len()
            invariant
                i <= self.entries@.len(),
                forall|id: Seq<char>| #[trigger]
                    lookup(kept@, id) == if id == execution_id@ {
                        None
                    } else {
                        lookup(self.entries@.take(i as int), id)
                    },
            decreases self.entries@.len() - i,
        {
            let ghost prev = self.entries@.take(i as int);
            let ghost x = self.entries@[i as int];
            let ghost before = kept@;
            assert(self.entries@.take(i + 1) =~= prev.push(x));
            let e: &ProgressEntry = &self.entries[i];
            if !str_eq(e.execution_id.as_str(), execution_id) {
                kept.push(
                    ProgressEntry {
                        execution_id: e.execution_id.clone(),
                        summary: e.summary.clone(),
                        changed_at: e.changed_at,
                    },
                );
            }
            proof {
                assert forall|id: Seq<char>| #[trigger]
                    lookup(kept@, id) == if id == execution_id@ {
                        None
                    } else {
                        lookup(prev.push(x), id)
                    } by {
                    lemma_lookup_push(before, x, id);
                    lemma_lookup_push(prev, x, id);
                    if kept@.len() > before.len() {
                        lemma_lookup_push(before, kept@.last(), id);
                        assert(kept@ =~= before.push(kept@.last()));
                    }
                    assert(lookup(before, id) == if id == execution_id@ {
                        None
                    } else {
                        lookup(prev, id)
                    });
                }
            }
            i += 1;
        }
        assert(self.entries@.take(i as int) =~= self.entries@);
        self.entries = kept;
    }

    /// Drops the summaries of all executions but `running`.
    pub fn retain(&mut self, running: &Vec<String>)
        ensures
            forall|id: Seq<char>| #[trigger]
                final(self).shown(id) == if text::texts(running@).contains(id) {
                    old(self).shown(id)
                } else {
                    None
                },
    {
        let mut kept: Vec<ProgressEntry> = Vec::new();
        let mut i: usize = 0;
        while i < self.entries.len()
            invariant
                i <= self.entries@.len(),
                forall|id: Seq<char>| #[trigger]
                    lookup(kept@, id) == if text::texts(running@).contains(id) {
                        lookup(self.entries@.take(i as int), id)
                    } else {
                        None
                    },
            decreases self.entries@.len() - i,
        {
            let ghost prev = self.entries@.take(i as int);
            let ghost x = self.entries@[i as int];
            let ghost before = kept@;
            assert(self.entries@.take(i + 1) =~= prev.push(x));
            let keep: bool = holds(running, self.entries[i].execution_id.as_str());
            if keep {
                let e: &ProgressEntry = &self.entries[i];
                let y: ProgressEntry = ProgressEntry {
                    execution_id: e.execution_id.clone(),
                    summary: e.summary.clone(),
                    changed_at: e.changed_at,
                };
                kept.push(y);
                proof {
                    assert forall|id: Seq<char>| #[trigger]
                        lookup(kept@, id) == if text::texts(running@).contains(id) {
                            lookup(prev.push(x), id)
                        } else {
                            None
                        } by {
                        lemma_lookup_push(before, y, id);
                        lemma_lookup_push(prev, x, id);
                        assert(lookup(before, id) == if text::texts(running@).contains(id) {
                            lookup(prev, id)
                        } else {
                            None
                        });
                    }
                }
            } else {
                proof {
                    assert forall|id: Seq<char>| #[trigger]
                        lookup(kept@, id) == if text::texts(running@).contains(id) {
                            lookup(prev.push(x), id)
                        } else {
                            None
                        } by {
                        lemma_lookup_push(prev, x, id);
                    }
                }
            }
            i += 1;
        }
        assert(self.entries@.take(i as int) =~= self.entries@);
        self.entries = kept;
    }
}

/// Whether `v` holds the string `s`.
pub fn holds(v: &Vec<String>, s: &str) -> (r: bool)
    ensures
        r == text::texts(v@).contains(s@),
{
    let mut i: usize = 0;
    while i < v.len()
        invariant
            i <= v@.len(),
            forall|k: int| 0 <= k < i ==> (#[trigger] v@[k])@ != s@,
        decreases v@.len() - i,
    {
        if str_eq(v[i].as_str(), s) {
            assert(text::texts(v@)[i as int] == s@);
            return true;
        }
        i += 1;
    }
    proof {
        if text::texts(v@).contains(s@) {
            let k = choose|k: int| 0 <= k < text::texts(v@).len() && text::texts(v@)[k] == s@;
            assert(v@[k]@ == s@);
        }
    }
    false
}

/// The summary that is shown of an execution is the last that was entered for it.
pub proof fn law_last_entry_is_shown(e: Seq<ProgressEntry>, x: ProgressEntry, id: Seq<char>)
    ensures
        lookup(e.push(x), x.execution_id@) == Some((x.summary@, x.changed_at)),
        x.execution_id@ != id ==> lookup(e.push(x), id) == lookup(e, id),
        lookup(Seq::empty(), id) is None,
{
    lemma_lookup_push(e, x, id);
    lemma_lookup_push(e, x, x.execution_id@);
}

/// A first summary is shown at once, another one when the one before has been
/// shown for a second and a half; the same one changes nothing.
pub proof fn law_summaries_stay_for_a_while(shown: Seq<char>, at: u64, next: Seq<char>, now: u64)
    ensures
        takes_over(None, next, now),
        !takes_over(Some((shown, at)), shown, now),
        next != shown ==> (takes_over(Some((shown, at)), next, now) <==> now - at >= 1500),
{
}

} // verus!

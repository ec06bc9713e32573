//! The orchestrator's decisions: which walked files to parse, how run
//! statistics accumulate, and the bounded fan-out window that caps how many
//! ingestion operations are in flight at once.  The walking, the worker
//! pool and the event scheduler live outside the library; they hand plain
//! values in and out.

use vstd::prelude::*;
use vstd::string::*;
use crate::lang::{Language, spec_detect_language, detect_language};
use crate::keyed::concat_fold;

verus! {

/// The cap on simultaneously in-flight ingestion operations.
pub const FANOUT_CAP: usize = 32;

/// Aggregate counters of one indexing run.
#[derive(Debug, Clone)]
pub struct IndexingStats {
    pub files_processed: usize,
    pub files_skipped: usize,
    pub nodes_created: usize,
}

impl Default for IndexingStats {
    /// All counters start at zero.
    fn default() -> (r: Self)
        ensures
            r.files_processed == 0,
            r.files_skipped == 0,
            r.nodes_created == 0,
    {
        IndexingStats { files_processed: 0, files_skipped: 0, nodes_created: 0 }
    }
}

/// What one walked path contributes to the parse plan: itself when its
/// extension names a supported language.
pub open spec fn accept_fn() -> spec_fn(Seq<char>) -> Seq<Seq<char>> {
    |p: Seq<char>|
        if spec_detect_language(p) != Language::Unknown {
            seq![p]
        } else {
            Seq::empty()
        }
}

/// The accepted paths of a walk, in walk order.
pub open spec fn spec_accepted(paths: Seq<Seq<char>>) -> Seq<Seq<char>> {
    concat_fold(paths, accept_fn())
}

/// Splits the walked paths into those to parse and the count of skipped
/// ones: a file with an unrecognized extension is skipped, not processed.
pub fn plan_index(paths: &Vec<String>) -> (r: (Vec<String>, usize))
    ensures
        r.0.deep_view() == spec_accepted(paths.deep_view()),
        r.0@.len() + r.1 == paths@.len(),
{
    let ghost dv = paths.deep_view();
    let n = paths.len();
    let mut accepted: Vec<String> = Vec::new();
    let mut skipped: usize = 0;
    let mut i: usize = 0;
    proof {
        assert(dv.take(0) =~= Seq::<Seq<char>>::empty());
        assert(accepted.deep_view() =~= concat_fold(dv.take(0), accept_fn()));
    }
    while i < n
        invariant
            i <= n,
            n == paths@.len(),
            dv == paths.deep_view(),
            accepted.deep_view() == concat_fold(dv.take(i as int), accept_fn()),
            accepted@.len() + skipped == i,
        decreases n - i,
    {
        let ghost k = i as int;
        let ghost prev = accepted.deep_view();
        proof {
            assert(dv[k] == paths@[k]@);
            assert(dv.take(k + 1).subrange(0, k) =~= dv.take(k));
            assert(dv.take(k + 1)[k] == dv[k]);
        }
        let lang = detect_language(paths[i].as_str());
        match lang {
            Language::Unknown => {
                skipped = skipped + 1;
            },
            _ => {
                accepted.push(paths[i].clone());
                proof {
                    assert(accepted.deep_view() =~= prev.push(dv[k]));
                }
            },
        }
        proof {
            assert(accepted.deep_view() =~= concat_fold(dv.take(k + 1), accept_fn()));
        }
        i = i + 1;
    }
    proof {
        assert(dv.take(n as int) =~= dv);
    }
    (accepted, skipped)
}

/// Credits one file's ingestion outcome to the counters: an approximate
/// node count of the file's symbols plus one for the file itself when the
/// ingestion succeeded, and nothing when it failed.
pub fn record_outcome(stats: &mut IndexingStats, symbols_in_file: usize, ingested: bool)
    ensures
        final(stats).files_processed == old(stats).files_processed,
        final(stats).files_skipped == old(stats).files_skipped,
        ingested ==> final(stats).nodes_created == if old(stats).nodes_created + symbols_in_file
            + 1 <= usize::MAX {
            old(stats).nodes_created + symbols_in_file + 1
        } else {
            usize::MAX as int
        },
        !ingested ==> final(stats).nodes_created == old(stats).nodes_created,
{
    if ingested {
        let add = if symbols_in_file < usize::MAX {
            symbols_in_file + 1
        } else {
            usize::MAX
        };
        if stats.nodes_created <= usize::MAX - add {
            stats.nodes_created = stats.nodes_created + add;
        } else {
            stats.nodes_created = usize::MAX;
        }
    }
}

/// The bounded fan-out window: a counter of in-flight ingestion
/// operations that can never exceed its cap.
pub struct FanoutWindow {
    in_flight: usize,
    cap: usize,
}

impl FanoutWindow {
    /// The window's invariant: never more operations in flight than the cap.
    pub closed spec fn wf(&self) -> bool {
        self.in_flight <= self.cap
    }

    /// The number of operations in flight.
    pub closed spec fn spec_in_flight(&self) -> int {
        self.in_flight as int
    }

    /// The cap.
    pub closed spec fn spec_cap(&self) -> int {
        self.cap as int
    }

    /// A fresh window with nothing in flight.
    pub fn new(cap: usize) -> (w: FanoutWindow)
        ensures
            w.wf(),
            w.spec_in_flight() == 0,
            w.spec_cap() == cap,
    {
        FanoutWindow { in_flight: 0, cap }
    }

    /// Claims a slot for one more in-flight operation, refusing exactly
    /// when the window is full: the number in flight never exceeds the cap.
    pub fn try_start(&mut self) -> (started: bool)
        requires
            old(self).wf(),
        ensures
            final(self).wf(),
            final(self).spec_cap() == old(self).spec_cap(),
            started == (old(self).spec_in_flight() < old(self).spec_cap()),
            started ==> final(self).spec_in_flight() == old(self).spec_in_flight() + 1,
            !started ==> final(self).spec_in_flight() == old(self).spec_in_flight(),
    {
        if self.in_flight < self.cap {
            self.in_flight = self.in_flight + 1;
            true
        } else {
            false
        }
    }

    /// Releases the slot of one completed operation.
    pub fn complete(&mut self)
        requires
            old(self).wf(),
            old(self).spec_in_flight() > 0,
        ensures
            final(self).wf(),
            final(self).spec_cap() == old(self).spec_cap(),
            final(self).spec_in_flight() == old(self).spec_in_flight() - 1,
    {
        self.in_flight = self.in_flight - 1;
    }
}

/// Bounded fan-out: in every reachable window state, the number of
/// in-flight ingestion operations is at most the cap.
pub proof fn lemma_fanout_bounded(w: FanoutWindow)
    requires
        w.wf(),
    ensures
        w.spec_in_flight() <= w.spec_cap(),
{
}

} // verus!

//! The crawl orchestration rules: which feed hashes a cycle resolves,
//! which declared files are selected under the preload quotas, and the
//! per-hash resolution state machine.
//!
//! One hash is driven at a time, never concurrently, to bound the engine's
//! outbound connection footprint. The engine calls, the store calls and
//! the waiting happen at the edge: the loop there performs the action this
//! module decides, reports the outcome as an event, and steps again.

use vstd::prelude::*;

use crate::api::info_hash::InfoHash;
use crate::text;

verus! {

/// Where one hash stands in its resolution.
#[derive(Clone, Copy, Debug, PartialEq, Eq, Structural)]
pub enum Phase {
    /// Fresh from the feed; the store has not been consulted.
    Discovered,
    /// The store already holds the hash; nothing to do. Terminal.
    Skipped,
    /// Submitting the paused job, every file excluded, seed peers attached.
    Submitting,
    /// Waiting for the engine to initialize the metadata.
    AwaitingMetadata,
    /// Applying the quota-checked file selection and unpausing.
    ApplyingSelection,
    /// Waiting for the selected subset to complete.
    AwaitingCompletion,
    /// Reading back metadata bytes and materialized images.
    ReadingBack,
    /// Writing the assembled record to the store.
    Persisting,
    /// Persisted; the job was removed and the scratch directory cleared.
    /// Terminal.
    Resolved,
    /// The per-hash deadline fired; the scratch directory is left in
    /// place. Terminal.
    TimedOut,
    /// The engine reported an error; logged and abandoned. Terminal.
    EngineFailed,
}

/// What the edge reports back after performing an action.
#[derive(Clone, Copy, Debug, PartialEq, Eq, Structural)]
pub enum Event {
    /// The store's answer to the existence check.
    AlreadyIndexed(bool),
    /// The awaited engine or store step succeeded.
    EngineOk,
    /// The engine or store reported an error.
    EngineError,
    /// The per-hash deadline elapsed.
    Timeout,
}

/// What the edge must do next.
#[derive(Clone, Copy, Debug, PartialEq, Eq, Structural)]
pub enum Action {
    /// Ask the store whether the hash is already enrolled.
    CheckStore,
    /// Build the magnet reference and submit the job paused, with every
    /// file excluded and the configured seed peers as initial contacts.
    Submit,
    /// Wait for metadata initialization.
    AwaitMetadata,
    /// Enumerate the file list, select files under the quotas, apply the
    /// selection, and unpause.
    ApplySelection,
    /// Wait for the selected subset to complete.
    AwaitCompletion,
    /// Read back the metadata bytes and the materialized images.
    ReadBack,
    /// Assemble the record and write it to the store.
    Persist,
    /// Remove the job from the engine and clear the scratch directory.
    /// Issued only after a successful persist: a failed persist must not
    /// lose the only copy of the data.
    Finalize,
    /// Log if in debug mode and move to the next hash; the scratch
    /// directory stays for inspection.
    Abandon,
    /// Log unconditionally and move to the next hash.
    Abort,
    /// Nothing; the hash is settled.
    Idle,
}

/// Whether a phase is settled: no event changes it.
pub open spec fn is_terminal(p: Phase) -> bool {
    p is Skipped || p is Resolved || p is TimedOut || p is EngineFailed
}

/// The resolution state machine: one bounded timeout covers the whole
/// sequence, an engine error at any step abandons the hash, and the
/// scratch directory is cleared only after a successful persist.
pub open spec fn spec_step(p: Phase, e: Event) -> (Phase, Action) {
    if is_terminal(p) {
        (p, Action::Idle)
    } else if e is Timeout {
        (Phase::TimedOut, Action::Abandon)
    } else if e is EngineError {
        (Phase::EngineFailed, Action::Abort)
    } else {
        match p {
            Phase::Discovered => match e {
                Event::AlreadyIndexed(known) => if known {
                    (Phase::Skipped, Action::Idle)
                } else {
                    (Phase::Submitting, Action::Submit)
                },
                _ => (p, Action::CheckStore),
            },
            Phase::Submitting => match e {
                Event::EngineOk => (Phase::AwaitingMetadata, Action::AwaitMetadata),
                _ => (p, Action::Submit),
            },
            Phase::AwaitingMetadata => match e {
                Event::EngineOk => (Phase::ApplyingSelection, Action::ApplySelection),
                _ => (p, Action::AwaitMetadata),
            },
            Phase::ApplyingSelection => match e {
                Event::EngineOk => (Phase::AwaitingCompletion, Action::AwaitCompletion),
                _ => (p, Action::ApplySelection),
            },
            Phase::AwaitingCompletion => match e {
                Event::EngineOk => (Phase::ReadingBack, Action::ReadBack),
                _ => (p, Action::AwaitCompletion),
            },
            Phase::ReadingBack => match e {
                Event::EngineOk => (Phase::Persisting, Action::Persist),
                _ => (p, Action::ReadBack),
            },
            Phase::Persisting => match e {
                Event::EngineOk => (Phase::Resolved, Action::Finalize),
                _ => (p, Action::Persist),
            },
            _ => (p, Action::Idle),
        }
    }
}

/// Advances one hash by one observed event.
pub fn step(p: Phase, e: Event) -> (r: (Phase, Action))
    ensures
        r == spec_step(p, e),
{
    if matches!(p, Phase::Skipped | Phase::Resolved | Phase::TimedOut | Phase::EngineFailed) {
        return (p, Action::Idle);
    }
    match e {
        Event::Timeout => (Phase::TimedOut, Action::Abandon),
        Event::EngineError => (Phase::EngineFailed, Action::Abort),
        Event::AlreadyIndexed(known) => match p {
            Phase::Discovered => if known {
                (Phase::Skipped, Action::Idle)
            } else {
                (Phase::Submitting, Action::Submit)
            },
            Phase::Submitting => (p, Action::Submit),
            Phase::AwaitingMetadata => (p, Action::AwaitMetadata),
            Phase::ApplyingSelection => (p, Action::ApplySelection),
            Phase::AwaitingCompletion => (p, Action::AwaitCompletion),
            Phase::ReadingBack => (p, Action::ReadBack),
            _ => (p, Action::Persist),
        },
        Event::EngineOk => match p {
            Phase::Discovered => (p, Action::CheckStore),
            Phase::Submitting => (Phase::AwaitingMetadata, Action::AwaitMetadata),
            Phase::AwaitingMetadata => (Phase::ApplyingSelection, Action::ApplySelection),
            Phase::ApplyingSelection => (Phase::AwaitingCompletion, Action::AwaitCompletion),
            Phase::AwaitingCompletion => (Phase::ReadingBack, Action::ReadBack),
            Phase::ReadingBack => (Phase::Persisting, Action::Persist),
            _ => (Phase::Resolved, Action::Finalize),
        },
    }
}

/// The scratch directory is cleared, and the engine-side job removed, only
/// by `Finalize`, and `Finalize` is issued exactly when a persist
/// succeeded: a failure in persistence never silently clears the scratch
/// directory.
pub proof fn lemma_finalize_only_after_persist(p: Phase, e: Event)
    ensures
        spec_step(p, e).1 == Action::Finalize <==> (p is Persisting && e is EngineOk),
{
}

/// The deadline abandons any unsettled hash: no record is written, the
/// scratch directory is left in place, and the hash is settled for this
/// cycle.
pub proof fn lemma_timeout_abandons(p: Phase)
    ensures
        !is_terminal(p) ==> spec_step(p, Event::Timeout) == (Phase::TimedOut, Action::Abandon),
        is_terminal(p) ==> spec_step(p, Event::Timeout).0 == p,
{
}

/// An engine error settles any unsettled hash as failed; a settled hash
/// never changes phase again.
pub proof fn lemma_settled_stays(p: Phase, e: Event)
    ensures
        !is_terminal(p) && e is EngineError ==> spec_step(p, e).0 == Phase::EngineFailed,
        is_terminal(p) ==> spec_step(p, e).0 == p && spec_step(p, e).1 == Action::Idle,
{
}

/// Whether some hash of `s` holds the same bytes as `h`.
pub open spec fn seq_has(s: Seq<InfoHash>, h: InfoHash) -> bool {
    exists|i: int| 0 <= i < s.len() && (#[trigger] s[i])@ == h@
}

/// The hashes a cycle resolves, in feed order: each feed hash that the
/// store does not hold yet and that no earlier feed entry already
/// resolved. Resolution is strictly sequential, so a hash persisted
/// earlier in the cycle is skipped when it reappears.
pub open spec fn plan(feed: Seq<InfoHash>, indexed: Seq<InfoHash>) -> Seq<InfoHash>
    decreases feed.len(),
{
    if feed.len() == 0 {
        Seq::empty()
    } else {
        let rest = plan(feed.drop_last(), indexed);
        if seq_has(indexed, feed.last()) || seq_has(rest, feed.last()) {
            rest
        } else {
            rest.push(feed.last())
        }
    }
}

/// Whether `list` holds a hash with the bytes of `h`.
pub fn known(list: &Vec<InfoHash>, h: &InfoHash) -> (r: bool)
    ensures
        r == seq_has(list@, *h),
{
    let mut i: usize = 0;
    while i < list.len()
        invariant
            0 <= i <= list@.len(),
            forall|k: int| 0 <= k < i ==> (#[trigger] list@[k])@ != h@,
        decreases list@.len() - i,
    {
        if list[i].same(h) {
            return true;
        }
        i += 1;
    }
    false
}

/// The hashes this cycle must resolve: the feed's hashes that are neither
/// enrolled in the store nor repeated from earlier in the feed.
pub fn select_new(feed: &Vec<InfoHash>, indexed: &Vec<InfoHash>) -> (r: Vec<InfoHash>)
    ensures
        r@ == plan(feed@, indexed@),
{
    let mut out: Vec<InfoHash> = Vec::new();
    let mut i: usize = 0;
    while i < feed.len()
        invariant
            0 <= i <= feed@.len(),
            out@ == plan(feed@.subrange(0, i as int), indexed@),
        decreases feed@.len() - i,
    {
        proof {
            let pre = feed@.subrange(0, i + 1);
            assert(pre.drop_last() =~= feed@.subrange(0, i as int));
            assert(pre.last() == feed@[i as int]);
        }
        let h = feed[i];
        if !known(indexed, &h) && !known(&out, &h) {
            out.push(h);
        }
        i += 1;
    }
    proof {
        assert(feed@.subrange(0, feed@.len() as int) =~= feed@);
    }
    out
}

/// Every hash of `a` known somewhere stays known when `b` is appended.
proof fn lemma_seq_has_append(a: Seq<InfoHash>, b: Seq<InfoHash>, h: InfoHash)
    ensures
        seq_has(a, h) ==> seq_has(a + b, h),
        seq_has(b, h) ==> seq_has(a + b, h),
{
    if seq_has(a, h) {
        let i = choose|i: int| 0 <= i < a.len() && (#[trigger] a[i])@ == h@;
        assert((a + b)[i]@ == h@);
    }
    if seq_has(b, h) {
        let i = choose|i: int| 0 <= i < b.len() && (#[trigger] b[i])@ == h@;
        assert((a + b)[a.len() + i]@ == h@);
    }
}

/// Whatever one cycle resolves, every feed hash is afterwards enrolled:
/// it was either already in the store or in the cycle's plan.
proof fn lemma_plan_covers(feed: Seq<InfoHash>, indexed: Seq<InfoHash>, k: int)
    requires
        0 <= k < feed.len(),
    ensures
        seq_has(indexed + plan(feed, indexed), feed[k]),
    decreases feed.len(),
{
    let rest = plan(feed.drop_last(), indexed);
    let full = plan(feed, indexed);
    if k == feed.len() - 1 {
        if seq_has(indexed, feed.last()) {
            lemma_seq_has_append(indexed, full, feed.last());
        } else if seq_has(rest, feed.last()) {
            lemma_plan_extends(feed, indexed);
            let i = choose|i: int| 0 <= i < rest.len() && (#[trigger] rest[i])@ == feed.last()@;
            assert(full[i]@ == feed.last()@);
            lemma_seq_has_append(indexed, full, feed.last());
        } else {
            assert(full.last()@ == feed.last()@);
            lemma_seq_has_append(indexed, full, feed.last());
        }
    } else {
        lemma_plan_covers(feed.drop_last(), indexed, k);
        assert(feed.drop_last()[k] == feed[k]);
        lemma_plan_extends(feed, indexed);
        let prev = indexed + rest;
        let i = choose|i: int| 0 <= i < prev.len() && (#[trigger] prev[i])@ == feed[k]@;
        assert((indexed + full)[i]@ == feed[k]@);
    }
}

/// A cycle's plan only grows as the feed grows: the plan for the shorter
/// feed is a prefix of the plan for the full feed.
proof fn lemma_plan_extends(feed: Seq<InfoHash>, indexed: Seq<InfoHash>)
    requires
        feed.len() > 0,
    ensures
        plan(feed.drop_last(), indexed).is_prefix_of(plan(feed, indexed)),
{
}

/// A feed whose hashes the store all holds plans nothing.
proof fn lemma_plan_empty(feed: Seq<InfoHash>, indexed: Seq<InfoHash>)
    requires
        forall|k: int| 0 <= k < feed.len() ==> seq_has(indexed, #[trigger] feed[k]),
    ensures
        plan(feed, indexed).len() == 0,
    decreases feed.len(),
{
    if feed.len() > 0 {
        assert(seq_has(indexed, feed.last()));
        lemma_plan_empty(feed.drop_last(), indexed);
    }
}

/// Crawling is idempotent: after one cycle over a feed has persisted every
/// hash it planned, a second cycle over the unchanged feed and the now
/// populated store plans nothing — no hash is resolved twice.
pub proof fn lemma_crawl_idempotent(feed: Seq<InfoHash>, indexed: Seq<InfoHash>)
    ensures
        plan(feed, indexed + plan(feed, indexed)).len() == 0,
{
    let populated = indexed + plan(feed, indexed);
    assert forall|k: int| 0 <= k < feed.len() implies seq_has(populated, #[trigger] feed[k]) by {
        lemma_plan_covers(feed, indexed, k);
    }
    lemma_plan_empty(feed, populated);
}

/// One declared file, as the engine enumerates it.
pub struct FileMeta {
    pub path: String,
    pub length: u64,
}

/// Whether a declared path names a preview image: the fixed allow-list of
/// lowercase image extensions.
pub open spec fn is_image_path(s: Seq<char>) -> bool {
    text::ends_with(s, ".jpg"@) || text::ends_with(s, ".jpeg"@) || text::ends_with(s, ".png"@)
        || text::ends_with(s, ".gif"@) || text::ends_with(s, ".webp"@)
}

/// Decides whether a declared path names a preview image.
pub fn image_path(s: &str) -> (r: bool)
    ensures
        r == is_image_path(s@),
{
    text::ends_with_str(s, ".jpg") || text::ends_with_str(s, ".jpeg") || text::ends_with_str(
        s,
        ".png",
    ) || text::ends_with_str(s, ".gif") || text::ends_with_str(s, ".webp")
}

/// The indices selected from position `i` on, having already taken `cnt`
/// files of `sz` total bytes: an image file is taken unless the count
/// quota is exhausted or it would push the cumulative size over the
/// limit; a skipped file is advisory, later smaller files may still fit.
pub open spec fn select_from(
    files: Seq<FileMeta>,
    i: int,
    cnt: int,
    sz: int,
    max_count: Option<usize>,
    max_size: Option<u64>,
) -> Seq<usize>
    decreases files.len() - i,
{
    if i < 0 || i >= files.len() {
        Seq::empty()
    } else {
        let f = files[i];
        let take = is_image_path(f.path@) && (max_count is None || cnt < max_count->0) && (
        max_size is None || sz + f.length <= max_size->0);
        if take {
            seq![i as usize] + select_from(files, i + 1, cnt + 1, sz + f.length, max_count, max_size)
        } else {
            select_from(files, i + 1, cnt, sz, max_count, max_size)
        }
    }
}

/// Selects the preview images to download for one torrent, applying the
/// quotas independently of every other torrent. Quota overrun is
/// advisory: an over-quota file is skipped, never an error.
pub fn select_files(files: &Vec<FileMeta>, max_count: Option<usize>, max_size: Option<u64>) -> (r:
    Vec<usize>)
    ensures
        r@ == select_from(files@, 0, 0, 0, max_count, max_size),
{
    let mut out: Vec<usize> = Vec::new();
    let mut cnt: usize = 0;
    let mut sz: u128 = 0;
    let mut i: usize = 0;
    while i < files.len()
        invariant
            0 <= i <= files@.len(),
            cnt <= i,
            sz <= i * 0x10000000000000000,
            select_from(files@, 0, 0, 0, max_count, max_size) == out@ + select_from(
                files@,
                i as int,
                cnt as int,
                sz as int,
                max_count,
                max_size,
            ),
        decreases files@.len() - i,
    {
        let f = &files[i];
        let take = image_path(f.path.as_str()) && (match max_count {
            Some(mc) => cnt < mc,
            None => true,
        }) && (match max_size {
            Some(ms) => sz + (f.length as u128) <= ms as u128,
            None => true,
        });
        if take {
            out.push(i);
            cnt += 1;
            sz = sz + (f.length as u128);
            proof {
                assert(out@ + select_from(
                    files@,
                    i + 1,
                    cnt as int,
                    sz as int,
                    max_count,
                    max_size,
                ) =~= out@.drop_last() + (seq![i as usize] + select_from(
                    files@,
                    i + 1,
                    cnt as int,
                    sz as int,
                    max_count,
                    max_size,
                )));
            }
        }
        i += 1;
    }
    proof {
        assert(out@ + select_from(
            files@,
            files@.len() as int,
            cnt as int,
            sz as int,
            max_count,
            max_size,
        ) =~= out@);
    }
    out
}

} // verus!

//! Deciding which file system changes rebuild the site: changes to
//! dotfiles and to the build output are ignored, and a rebuild is dropped
//! when the last one is more recent than the debounce interval.

use vstd::prelude::*;
use crate::text::{chars_of, push_char, string_of};

verus! {

/// Whether the glob pattern `pattern` (compiled with the glob crate, or
/// matching nothing if it does not compile) matches `path`.
pub uninterp spec fn glob_match(pattern: Seq<char>, path: Seq<char>) -> bool;

/// Relies on `glob::Pattern::new` and `glob::Pattern::matches`: whether
/// `path` matches `pattern` under the default match options.
#[verifier::external_body]
pub(crate) fn glob_matches(pattern: &str, path: &str) -> (r: bool)
    ensures
        r == glob_match(pattern@, path@),
{
    match glob::Pattern::new(pattern) {
        Ok(p) => p.matches(path),
        Err(_) => false,
    }
}

/// The pattern of dotfiles anywhere in the tree.
pub open spec fn dotfile_pattern() -> Seq<char> {
    seq!['*', '*', '/', '.', '*']
}

/// `s` without its trailing slashes.
pub open spec fn trim_end_slashes(s: Seq<char>) -> Seq<char>
    decreases s.len(),
{
    if s.len() > 0 && s.last() == '/' {
        trim_end_slashes(s.drop_last())
    } else {
        s
    }
}

/// `s` without its trailing slashes.
pub fn trim_trailing_slashes(s: &str) -> (r: String)
    ensures
        r@ == trim_end_slashes(s@),
{
    let cs = chars_of(s);
    let mut n = cs.len();
    assert(cs@.subrange(0, n as int) =~= cs@);
    while n > 0 && cs[n - 1] == '/'
        invariant
            n <= cs@.len(),
            trim_end_slashes(cs@) == trim_end_slashes(cs@.subrange(0, n as int)),
        decreases n,
    {
        assert(cs@.subrange(0, n as int).drop_last() =~= cs@.subrange(0, n - 1));
        n -= 1;
    }
    assert(cs@ =~= s@);
    string_of(vstd::slice::slice_subrange(cs.as_slice(), 0, n))
}

/// The glob pattern of everything inside the directory `dir`:
/// `dir/**/*`, with the trailing slashes of `dir` removed.
pub open spec fn inside_pattern(dir: Seq<char>) -> Seq<char> {
    trim_end_slashes(dir) + seq!['/', '*', '*', '/', '*']
}

/// The glob pattern of everything inside the directory `dir`, see
/// [`inside_pattern`].
pub fn dir_pattern(dir: &str) -> (r: String)
    ensures
        r@ == inside_pattern(dir@),
{
    let mut d = trim_trailing_slashes(dir);
    push_char(&mut d, '/');
    push_char(&mut d, '*');
    push_char(&mut d, '*');
    push_char(&mut d, '/');
    push_char(&mut d, '*');
    assert(d@ =~= inside_pattern(dir@));
    d
}

/// Whether `path` matches the glob pattern of the inside of `dir`.
pub fn is_under_dir(path: &str, dir: &str) -> (r: bool)
    ensures
        r == glob_match(inside_pattern(dir@), path@),
{
    let pattern = dir_pattern(dir);
    glob_matches(pattern.as_str(), path)
}

/// The kind of a file system change.
#[derive(Clone, Copy, Debug, PartialEq, Eq, Structural)]
pub enum EventKind {
    /// A file was created.
    Create,
    /// A file was written.
    Write,
    /// A file was removed.
    Remove,
    /// A file was renamed.
    Rename,
    /// Anything else.
    Other,
}

/// What to do with a change.
#[derive(Clone, Copy, Debug, PartialEq, Eq, Structural)]
pub enum Decision {
    /// The change does not concern the site's sources.
    Ignore,
    /// The change comes too soon after the last rebuild, or during one.
    Drop,
    /// Rebuild the site now.
    Rebuild,
}

/// A change to `path` of kind `kind` concerns the site, whose output goes
/// to `build_dir`.
pub open spec fn qualifies(kind: EventKind, path: Seq<char>, build_dir: Seq<char>) -> bool {
    &&& kind != EventKind::Other
    &&& !glob_match(dotfile_pattern(), path)
    &&& !glob_match(inside_pattern(build_dir), path)
}

/// Milliseconds from `last` to `now`, zero if `now` is earlier.
pub open spec fn elapsed(now: u64, last: u64) -> int {
    if now >= last {
        now - last
    } else {
        0
    }
}

/// The decision for a change of kind `kind` to `path` at `now`, with the
/// output in `build_dir`, given when the last rebuild started and whether
/// one is running.
pub open spec fn event_decision(
    build_dir: Seq<char>,
    last: Option<u64>,
    rebuilding: bool,
    interval: u64,
    kind: EventKind,
    path: Seq<char>,
    now: u64,
) -> Decision {
    if qualifies(kind, path, build_dir) {
        decide(last, rebuilding, interval, now)
    } else {
        Decision::Ignore
    }
}

/// Number of rebuilds that the watch loop starts for `events` (kind, path
/// and time of each), when the last rebuild started at `last` and each
/// rebuild is over before the next change is looked at.
pub open spec fn rebuild_count(
    build_dir: Seq<char>,
    last: Option<u64>,
    interval: u64,
    events: Seq<(EventKind, Seq<char>, u64)>,
) -> nat
    decreases events.len(),
{
    if events.len() == 0 {
        0
    } else {
        let (kind, path, now) = events[0];
        if event_decision(build_dir, last, false, interval, kind, path, now) == Decision::Rebuild {
            1 + rebuild_count(build_dir, Some(now), interval, events.drop_first())
        } else {
            rebuild_count(build_dir, last, interval, events.drop_first())
        }
    }
}

/// A change to a path that the pattern of the build directory's inside
/// matches never starts a rebuild, whatever the state of the debouncer.
pub proof fn output_changes_never_rebuild(
    build_dir: Seq<char>,
    last: Option<u64>,
    rebuilding: bool,
    interval: u64,
    kind: EventKind,
    path: Seq<char>,
    now: u64,
)
    requires
        glob_match(inside_pattern(build_dir), path),
    ensures
        event_decision(build_dir, last, rebuilding, interval, kind, path, now) != Decision::Rebuild,
{
}

proof fn lemma_no_rebuild_inside_window(
    build_dir: Seq<char>,
    start: u64,
    interval: u64,
    events: Seq<(EventKind, Seq<char>, u64)>,
)
    requires
        forall|i: int| 0 <= i < events.len() ==> start <= (#[trigger] events[i]).2 && events[i].2 - start < interval,
    ensures
        rebuild_count(build_dir, Some(start), interval, events) == 0,
    decreases events.len(),
{
    if events.len() > 0 {
        let rest = events.drop_first();
        assert forall|i: int| 0 <= i < rest.len() implies start <= (#[trigger] rest[i]).2 && rest[i].2 - start < interval by {
            assert(rest[i] == events[i + 1]);
        }
        lemma_no_rebuild_inside_window(build_dir, start, interval, rest);
    }
}

/// A burst of qualifying changes, in time order and all within less than
/// the debounce interval of the first, starts exactly one rebuild when the
/// last rebuild started at least the interval before the burst (or never).
pub proof fn burst_rebuilds_once(
    build_dir: Seq<char>,
    last: Option<u64>,
    interval: u64,
    events: Seq<(EventKind, Seq<char>, u64)>,
)
    requires
        events.len() >= 1,
        forall|i: int| 0 <= i < events.len() ==> qualifies((#[trigger] events[i]).0, events[i].1, build_dir),
        forall|i: int, j: int| 0 <= i <= j < events.len() ==> (#[trigger] events[i]).2 <= (#[trigger] events[j]).2,
        events.last().2 - events[0].2 < interval,
        last matches Some(t) ==> elapsed(events[0].2, t) >= interval,
    ensures
        rebuild_count(build_dir, last, interval, events) == 1,
{
    let start = events[0].2;
    let rest = events.drop_first();
    assert(qualifies(events[0].0, events[0].1, build_dir));
    assert forall|i: int| 0 <= i < rest.len() implies start <= (#[trigger] rest[i]).2 && rest[i].2 - start < interval by {
        assert(rest[i] == events[i + 1]);
        assert(events[0].2 <= events[i + 1].2);
        assert(events[i + 1].2 <= events[events.len() - 1].2);
    }
    lemma_no_rebuild_inside_window(build_dir, start, interval, rest);
}

/// The debouncing state of the watch loop.
pub struct Debouncer {
    /// Directory the site is built into; changes inside it are ignored.
    pub build_dir: String,
    /// Least time between two rebuilds, in milliseconds.
    pub interval_ms: u64,
    /// When the last rebuild started, in milliseconds of a monotonic clock.
    pub last_rebuild: Option<u64>,
    /// A rebuild is running.
    pub rebuilding: bool,
}

/// The decision for a qualifying change at `now`, given when the last
/// rebuild started and whether one is running.
pub open spec fn decide(last: Option<u64>, rebuilding: bool, interval: u64, now: u64) -> Decision {
    if rebuilding {
        Decision::Drop
    } else {
        match last {
            Some(t) => if elapsed(now, t) < interval {
                Decision::Drop
            } else {
                Decision::Rebuild
            },
            None => Decision::Rebuild,
        }
    }
}

impl Debouncer {
    /// An idle debouncer that has seen no rebuild yet.
    pub fn new(build_dir: &str, interval_ms: u64) -> (r: Debouncer)
        ensures
            r.build_dir@ == build_dir@,
            r.interval_ms == interval_ms,
            r.last_rebuild is None,
            !r.rebuilding,
    {
        Debouncer { build_dir: build_dir.to_owned(), interval_ms, last_rebuild: None, rebuilding: false }
    }

    /// Decides on a change of kind `kind` to `path` seen at `now`. A
    /// rebuild is asked for only for a qualifying change when none is
    /// running and the last one started at least the interval ago; it is
    /// then recorded as started at `now`.
    pub fn on_event(&mut self, kind: EventKind, path: &str, now: u64) -> (r: Decision)
        ensures
            final(self).build_dir@ == old(self).build_dir@,
            final(self).interval_ms == old(self).interval_ms,
            r == event_decision(
                old(self).build_dir@,
                old(self).last_rebuild,
                old(self).rebuilding,
                old(self).interval_ms,
                kind,
                path@,
                now,
            ),
            r == Decision::Rebuild ==> final(self).last_rebuild == Some(now) && final(self).rebuilding,
            r != Decision::Rebuild ==> final(self).last_rebuild == old(self).last_rebuild
                && final(self).rebuilding == old(self).rebuilding,
    {
        if kind == EventKind::Other {
            return Decision::Ignore;
        }
        proof {
            reveal_strlit("**/.*");
            assert("**/.*"@ =~= dotfile_pattern());
        }
        if glob_matches("**/.*", path) || is_under_dir(path, self.build_dir.as_str()) {
            return Decision::Ignore;
        }
        if self.rebuilding {
            return Decision::Drop;
        }
        if let Some(t) = self.last_rebuild {
            let e = if now >= t { now - t } else { 0 };
            if e < self.interval_ms {
                return Decision::Drop;
            }
        }
        self.last_rebuild = Some(now);
        self.rebuilding = true;
        Decision::Rebuild
    }

    /// Records that the running rebuild is over, whether it failed or not.
    pub fn finish_rebuild(&mut self)
        ensures
            final(self).build_dir@ == old(self).build_dir@,
            final(self).interval_ms == old(self).interval_ms,
            final(self).last_rebuild == old(self).last_rebuild,
            !final(self).rebuilding,
    {
        self.rebuilding = false;
    }
}

} // verus!

//! The path resolver: where a request path leads below the root directory,
//! and whether it names a static file, a script, or nothing that is served.

use vstd::prelude::*;
use crate::bytes::{ascii, ascii_bytes, copy_bytes, append_bytes, starts_with, DOT, SLASH};

verus! {

/// The segments of a path: the runs of bytes between its slashes, empty runs
/// included, so that a path with `n` slashes has `n + 1` segments.
pub open spec fn segments(path: Seq<u8>) -> Seq<Seq<u8>>
    decreases path.len(),
{
    if path.len() == 0 {
        seq![Seq::empty()]
    } else {
        let before = segments(path.drop_last());
        if path.last() == SLASH {
            before.push(Seq::empty())
        } else {
            before.drop_last().push(before.last().push(path.last()))
        }
    }
}

/// The segment `..`, which leads to the parent directory.
pub open spec fn is_parent(segment: Seq<u8>) -> bool {
    segment =~= seq![DOT, DOT]
}

/// The empty segment and the segment `.`, which lead nowhere.
pub open spec fn is_idle(segment: Seq<u8>) -> bool {
    segment.len() == 0 || segment =~= seq![DOT]
}

/// By how many levels a segment moves down from the directory it is met in.
pub open spec fn descent(segment: Seq<u8>) -> int {
    if is_parent(segment) {
        -1
    } else if is_idle(segment) {
        0
    } else {
        1
    }
}

/// How many levels below the starting directory a run of segments ends.
pub open spec fn depth(segs: Seq<Seq<u8>>) -> int
    decreases segs.len(),
{
    if segs.len() == 0 {
        0
    } else {
        depth(segs.drop_last()) + descent(segs.last())
    }
}

/// Whether a request path, appended to the root, leads out of the root
/// directory: it does not begin with a slash, or somewhere along it the `..`
/// segments so far outnumber the named ones.
pub open spec fn escapes_root(path: Seq<u8>) -> bool {
    ||| path.len() == 0
    ||| path[0] != SLASH
    ||| exists|k: int|
        0 <= k <= segments(path).len() && depth(#[trigger] segments(path).take(k)) < 0
}

/// What the segments of a path become when one byte is added to it.
pub proof fn lemma_segments_push(path: Seq<u8>, b: u8)
    ensures
        segments(path).len() >= 1,
        segments(path.push(b)) == if b == SLASH {
            segments(path).push(Seq::empty())
        } else {
            segments(path).drop_last().push(segments(path).last().push(b))
        },
    decreases path.len(),
{
    if path.len() > 0 {
        lemma_segments_push(path.drop_last(), path.last());
    }
    assert(path.push(b).drop_last() =~= path);
}

proof fn lemma_depth_without_parent(segs: Seq<Seq<u8>>)
    requires
        forall|k: int| 0 <= k < segs.len() ==> !is_parent(#[trigger] segs[k]),
    ensures
        depth(segs) >= 0,
    decreases segs.len(),
{
    if segs.len() > 0 {
        assert forall|k: int| 0 <= k < segs.drop_last().len() implies !is_parent(
            #[trigger] segs.drop_last()[k],
        ) by {}
        lemma_depth_without_parent(segs.drop_last());
    }
}

/// A path that begins with a slash and holds no `..` segment stays inside the
/// root: only a `..` segment leads out of it.
pub proof fn lemma_path_without_parent_stays(path: Seq<u8>)
    requires
        path.len() > 0,
        path[0] == SLASH,
        forall|k: int| 0 <= k < segments(path).len() ==> !is_parent(#[trigger] segments(path)[k]),
    ensures
        !escapes_root(path),
{
    assert forall|k: int| 0 <= k <= segments(path).len() implies depth(
        #[trigger] segments(path).take(k),
    ) >= 0 by {
        let head = segments(path).take(k);
        assert forall|j: int| 0 <= j < head.len() implies !is_parent(#[trigger] head[j]) by {}
        lemma_depth_without_parent(head);
    }
}

/// Where a walk along `segs` ends that starts in the directory `start`, a
/// directory being the run of names that leads to it from the top of the file
/// system: a named segment enters the directory of that name, `..` goes back
/// to the parent, or stays where there is none, and the other segments stay.
pub open spec fn walk(start: Seq<Seq<u8>>, segs: Seq<Seq<u8>>) -> Seq<Seq<u8>>
    decreases segs.len(),
{
    if segs.len() == 0 {
        start
    } else {
        let at = walk(start, segs.drop_last());
        if is_parent(segs.last()) {
            if at.len() > 0 {
                at.drop_last()
            } else {
                at
            }
        } else if is_idle(segs.last()) {
            at
        } else {
            at.push(segs.last())
        }
    }
}

proof fn lemma_walk_below(root: Seq<Seq<u8>>, segs: Seq<Seq<u8>>)
    requires
        forall|k: int| 0 <= k <= segs.len() ==> depth(#[trigger] segs.take(k)) >= 0,
    ensures
        root.is_prefix_of(walk(root, segs)),
        walk(root, segs).len() == root.len() + depth(segs),
    decreases segs.len(),
{
    assert(segs.take(segs.len() as int) =~= segs);
    if segs.len() > 0 {
        let before = segs.drop_last();
        assert forall|k: int| 0 <= k <= before.len() implies depth(#[trigger] before.take(k))
            >= 0 by {
            assert(before.take(k) =~= segs.take(k));
        }
        lemma_walk_below(root, before);
    }
}

/// A path that does not escape the root never leaves it: a walk along any
/// part of the path that starts in the root directory ends in the root
/// directory or below it.
pub proof fn lemma_inside_path_stays_below_root(root: Seq<Seq<u8>>, path: Seq<u8>, k: int)
    requires
        !escapes_root(path),
        0 <= k <= segments(path).len(),
    ensures
        root.is_prefix_of(walk(root, segments(path).take(k))),
{
    let part = segments(path).take(k);
    assert forall|j: int| 0 <= j <= part.len() implies depth(#[trigger] part.take(j)) >= 0 by {
        assert(part.take(j) =~= segments(path).take(j));
    }
    lemma_walk_below(root, part);
}

/// A path that begins with a slash and escapes the root does leave it: a walk
/// along some part of the path that starts in the root directory ends
/// outside, wherever the root lies below the top of the file system.
pub proof fn lemma_escaping_path_leaves_root(root: Seq<Seq<u8>>, path: Seq<u8>) -> (k: int)
    requires
        path.len() > 0,
        path[0] == SLASH,
        escapes_root(path),
        root.len() > 0,
    ensures
        0 <= k <= segments(path).len(),
        !root.is_prefix_of(walk(root, segments(path).take(k))),
{
    let segs = segments(path);
    let k = lemma_first_escape(segs, segs.len() as int);
    let part = segs.take(k);
    assert(part.len() > 0) by {
        if part.len() == 0 {
            assert(depth(part) == 0);
        }
    }
    let before = part.drop_last();
    assert(before =~= segs.take(k - 1));
    assert forall|j: int| 0 <= j <= before.len() implies depth(#[trigger] before.take(j))
        >= 0 by {
        assert(before.take(j) =~= segs.take(j));
    }
    lemma_walk_below(root, before);
    k
}

/// The least length of a run of leading segments that ends above where it
/// began, where there is such a run of `n` segments at most.
proof fn lemma_first_escape(segs: Seq<Seq<u8>>, n: int) -> (k: int)
    requires
        0 <= n <= segs.len(),
        exists|j: int| 0 <= j <= n && depth(#[trigger] segs.take(j)) < 0,
    ensures
        0 <= k <= n,
        depth(segs.take(k)) < 0,
        forall|j: int| 0 <= j < k ==> depth(#[trigger] segs.take(j)) >= 0,
    decreases n,
{
    if exists|j: int| 0 <= j < n && depth(#[trigger] segs.take(j)) < 0 {
        lemma_first_escape(segs, n - 1)
    } else {
        n
    }
}

/// Whether the request path leads out of the root directory.
pub fn leaves_root(path: &[u8]) -> (out: bool)
    ensures
        out == escapes_root(path@),
{
    if path.len() == 0 || path[0] != SLASH {
        return true;
    }
    let mut i: usize = 0;
    let mut level: usize = 0;
    let mut escaped: bool = false;
    let mut seg_len: usize = 0;
    let mut dots_only: bool = true;
    proof {
        assert forall|k: int| 0 <= k < segments(path@.take(0)).len() implies depth(
            #[trigger] segments(path@.take(0)).take(k),
        ) >= 0 by {}
    }
    while i < path.len()
        invariant
            i <= path.len(),
            segments(path@.take(i as int)).len() >= 1,
            seg_len == segments(path@.take(i as int)).last().len(),
            seg_len <= i,
            dots_only == (forall|j: int|
                0 <= j < seg_len ==> segments(path@.take(i as int)).last()[j] == DOT),
            escaped == (exists|k: int|
                0 <= k < segments(path@.take(i as int)).len() && depth(
                    #[trigger] segments(path@.take(i as int)).take(k),
                ) < 0),
            !escaped ==> level == depth(segments(path@.take(i as int)).drop_last()),
            level + seg_len <= i,
        decreases path.len() - i,
    {
        let b: u8 = path[i];
        let ghost segs = segments(path@.take(i as int));
        let ghost next = segments(path@.take(i + 1));
        proof {
            lemma_segments_push(path@.take(i as int), b);
            assert(path@.take(i + 1) =~= path@.take(i as int).push(b));
        }
        if b == SLASH {
            let parent: bool = dots_only && seg_len == 2;
            let idle: bool = seg_len == 0 || (dots_only && seg_len == 1);
            proof {
                assert(next.drop_last() =~= segs);
                assert forall|k: int| 0 <= k < segs.len() implies #[trigger] next.take(k)
                    =~= segs.take(k) by {}
            }
            let ghost was_escaped = escaped;
            if !escaped {
                if parent {
                    if level == 0 {
                        escaped = true;
                    } else {
                        level -= 1;
                    }
                } else if !idle {
                    level += 1;
                }
            }
            seg_len = 0;
            dots_only = true;
            proof {
                if was_escaped {
                    let k = choose|k: int|
                        0 <= k < segs.len() && depth(#[trigger] segs.take(k)) < 0;
                    assert(next.take(k) =~= segs.take(k));
                } else if !escaped {
                    assert forall|k: int| 0 <= k < next.len() implies depth(
                        #[trigger] next.take(k),
                    ) >= 0 by {}
                }
            }
        } else {
            proof {
                assert forall|k: int| 0 <= k < segs.len() implies #[trigger] next.take(k)
                    =~= segs.take(k) by {}
                if escaped {
                    let k = choose|k: int|
                        0 <= k < segs.len() && depth(#[trigger] segs.take(k)) < 0;
                    assert(next.take(k) =~= segs.take(k));
                } else {
                    assert forall|k: int| 0 <= k < next.len() implies depth(
                        #[trigger] next.take(k),
                    ) >= 0 by {}
                }
                if dots_only && b == DOT {
                    assert forall|j: int| 0 <= j < seg_len + 1 implies next.last()[j]
                        == DOT by {}
                } else if b != DOT {
                    assert(next.last()[seg_len as int] != DOT);
                } else {
                    let j = choose|j: int| 0 <= j < seg_len && segs.last()[j] != DOT;
                    assert(next.last()[j] != DOT);
                }
            }
            seg_len += 1;
            dots_only = dots_only && b == DOT;
        }
        i += 1;
    }
    let ghost segs = segments(path@);
    proof {
        assert(path@.take(path.len() as int) =~= path@);
        assert(segs.take(segs.len() as int) =~= segs);
    }
    if escaped {
        return true;
    }
    let out: bool = dots_only && seg_len == 2 && level == 0;
    proof {
        if !out {
            assert forall|k: int| 0 <= k <= segs.len() implies depth(#[trigger] segs.take(k))
                >= 0 by {}
        }
    }
    out
}

/// What the server is set up with: the directory it serves from, and the
/// prefix of the request paths that name scripts. It is read and never changed
/// while requests are handled.
#[derive(Debug, PartialEq, Eq)]
pub struct Config {
    pub root: Vec<u8>,
    pub script_prefix: Vec<u8>,
}

impl Config {
    /// A configuration for `root` with the script prefix `/scripts/`.
    pub fn new(root: Vec<u8>) -> (config: Config)
        ensures
            config.root@ == root@,
            config.script_prefix@ == ascii("/scripts/"@),
    {
        proof {
            reveal_strlit("/scripts/");
        }
        Config { root, script_prefix: ascii_bytes("/scripts/") }
    }

    /// A configuration for `root` with a script prefix of the caller's choice.
    pub fn with_script_prefix(root: Vec<u8>, script_prefix: Vec<u8>) -> (config: Config)
        ensures
            config.root@ == root@,
            config.script_prefix@ == script_prefix@,
    {
        Config { root, script_prefix }
    }
}

/// What a request path names.
#[derive(Clone, Copy, Debug, PartialEq, Eq, Structural)]
pub enum Classification {
    /// An existing regular file, served as it is.
    StaticFile,
    /// A path under the script prefix, run as a child process.
    Script,
    /// Nothing that is served.
    Unroutable,
}

/// A request path resolved against the root: what it names, and the path in
/// the file system that it stands for.
#[derive(Debug, PartialEq, Eq)]
pub struct ResolvedTarget {
    pub kind: Classification,
    pub path: Vec<u8>,
}

/// What a request path names, given whether the root followed by the path is
/// an existing regular file. A path that leads out of the root names nothing,
/// a regular file is a static file wherever it lies, and any other path under
/// the script prefix is a script whether or not it exists.
pub open spec fn classify(script_prefix: Seq<u8>, path: Seq<u8>, regular_file: bool)
    -> Classification {
    if escapes_root(path) {
        Classification::Unroutable
    } else if regular_file {
        Classification::StaticFile
    } else if script_prefix.is_prefix_of(path) {
        Classification::Script
    } else {
        Classification::Unroutable
    }
}

/// The path in the file system that a request path stands for: the root with
/// the request path appended, byte for byte.
pub fn locate(config: &Config, path: &[u8]) -> (full: Vec<u8>)
    ensures
        full@ == config.root@ + path@,
{
    let mut full: Vec<u8> = copy_bytes(config.root.as_slice());
    append_bytes(&mut full, path);
    full
}

/// Resolves a request path. `regular_file` says whether the located path is an
/// existing regular file; the caller probes the file system for it, and only
/// for a path that stays inside the root.
pub fn resolve(config: &Config, path: &[u8], regular_file: bool) -> (target: ResolvedTarget)
    ensures
        target.kind == classify(config.script_prefix@, path@, regular_file),
        target.path@ == config.root@ + path@,
{
    let full: Vec<u8> = locate(config, path);
    let kind: Classification = if leaves_root(path) {
        Classification::Unroutable
    } else if regular_file {
        Classification::StaticFile
    } else if starts_with(path, config.script_prefix.as_slice()) {
        Classification::Script
    } else {
        Classification::Unroutable
    };
    ResolvedTarget { kind, path: full }
}

} // verus!

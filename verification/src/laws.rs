use vstd::prelude::*;

use crate::config::Config;
use crate::config::in_range;
use crate::config::nonblank_passing_upto;
use crate::config::passing_upto;
use crate::config::process_spec;
use crate::config::process_upto;
use crate::config::run_spec;
use crate::config::run_upto;
use crate::format::numbered_line;

verus! {

/// Every passing position contributes exactly one output line,
/// whatever the numbering mode.
proof fn lemma_process_upto_len(cfg: Config, lines: Seq<Seq<char>>, n: int)
    requires
        n <= lines.len(),
    ensures
        process_upto(cfg, lines, n).len() == passing_upto(cfg.line_range, n),
    decreases n,
{
    if n > 0 {
        lemma_process_upto_len(cfg, lines, n - 1);
    }
}

/// With no range configured, every position passes, so the output
/// of a source has exactly one line per input line, in every mode.
pub proof fn lemma_no_range_full_count(cfg: Config, lines: Seq<Seq<char>>)
    requires
        cfg.line_range is None,
    ensures
        process_spec(cfg, lines).len() == lines.len(),
{
    lemma_process_upto_len(cfg, lines, lines.len() as int);
    lemma_passing_upto_no_range(cfg.line_range, lines.len() as int);
}

proof fn lemma_passing_upto_no_range(range: Option<(usize, usize)>, n: int)
    requires
        range is None,
        n >= 0,
    ensures
        passing_upto(range, n) == n,
    decreases n,
{
    if n > 0 {
        lemma_passing_upto_no_range(range, n - 1);
    }
}

proof fn lemma_plain_upto(cfg: Config, lines: Seq<Seq<char>>, n: int)
    requires
        0 <= n <= lines.len(),
        cfg.line_range is None,
        !cfg.number_lines,
        !cfg.number_nonblank_lines,
    ensures
        process_upto(cfg, lines, n) =~= lines.take(n),
    decreases n,
{
    if n > 0 {
        lemma_plain_upto(cfg, lines, n - 1);
        assert(lines.take(n) =~= lines.take(n - 1).push(lines[n - 1]));
    }
}

/// Plain mode with no range is the identity: the output is the
/// input, line for line; in particular the line counts are equal.
pub proof fn lemma_plain_identity(cfg: Config, lines: Seq<Seq<char>>)
    requires
        cfg.line_range is None,
        !cfg.number_lines,
        !cfg.number_nonblank_lines,
    ensures
        process_spec(cfg, lines) == lines,
        process_spec(cfg, lines).len() == lines.len(),
{
    lemma_plain_upto(cfg, lines, lines.len() as int);
}

proof fn lemma_number_all_upto(cfg: Config, lines: Seq<Seq<char>>, n: int)
    requires
        0 <= n <= lines.len(),
        cfg.line_range is None,
        cfg.number_lines,
    ensures
        process_upto(cfg, lines, n).len() == n,
        forall|i: int|
            0 <= i < n ==> process_upto(cfg, lines, n)[i] == numbered_line(
                (i + 1) as nat,
                lines[i],
            ),
    decreases n,
{
    if n > 0 {
        lemma_number_all_upto(cfg, lines, n - 1);
    }
}

/// Number-all mode with no range: output line `i` (0-based) is the
/// input line `i` prefixed with its 1-based position, right-aligned
/// in a field of width 6 and followed by a tab, for every line.
pub proof fn lemma_number_all(cfg: Config, lines: Seq<Seq<char>>)
    requires
        cfg.line_range is None,
        cfg.number_lines,
    ensures
        process_spec(cfg, lines).len() == lines.len(),
        forall|i: int|
            0 <= i < lines.len() ==> process_spec(cfg, lines)[i] == numbered_line(
                (i + 1) as nat,
                lines[i],
            ),
{
    lemma_number_all_upto(cfg, lines, lines.len() as int);
}

proof fn lemma_number_nonblank_upto(cfg: Config, lines: Seq<Seq<char>>, n: int)
    requires
        0 <= n <= lines.len(),
        cfg.line_range is None,
        !cfg.number_lines,
        cfg.number_nonblank_lines,
    ensures
        process_upto(cfg, lines, n).len() == n,
        forall|i: int|
            0 <= i < n && lines[i].len() == 0 ==> process_upto(cfg, lines, n)[i] == Seq::<
                char,
            >::empty(),
        forall|i: int|
            0 <= i < n && lines[i].len() > 0 ==> process_upto(cfg, lines, n)[i] == numbered_line(
                nonblank_passing_upto(lines, cfg.line_range, i) + 1,
                lines[i],
            ),
    decreases n,
{
    if n > 0 {
        lemma_number_nonblank_upto(cfg, lines, n - 1);
    }
}

/// Number-nonblank mode with no range: every line appears in the
/// output at its own position; a blank line renders as an empty
/// line with no number; a non-blank line is numbered with one more
/// than the count of non-blank lines before it — so the numbers
/// emitted over the source are exactly 1, 2, 3, … in order.
pub proof fn lemma_number_nonblank(cfg: Config, lines: Seq<Seq<char>>)
    requires
        cfg.line_range is None,
        !cfg.number_lines,
        cfg.number_nonblank_lines,
    ensures
        process_spec(cfg, lines).len() == lines.len(),
        forall|i: int|
            0 <= i < lines.len() && lines[i].len() == 0 ==> process_spec(cfg, lines)[i] == Seq::<
                char,
            >::empty(),
        forall|i: int|
            0 <= i < lines.len() && lines[i].len() > 0 ==> process_spec(cfg, lines)[i]
                == numbered_line(nonblank_passing_upto(lines, cfg.line_range, i) + 1, lines[i]),
{
    lemma_number_nonblank_upto(cfg, lines, lines.len() as int);
}

proof fn lemma_passing_upto_range(s: int, e: int, range: Option<(usize, usize)>, n: int)
    requires
        n >= 0,
        range is Some,
        s == range.unwrap().0,
        e == range.unwrap().1,
    ensures
        passing_upto(range, n) == if vstd::math::min(e, n) >= vstd::math::max(s, 1) {
            vstd::math::min(e, n) - vstd::math::max(s, 1) + 1
        } else {
            0
        },
    decreases n,
{
    if n > 0 {
        lemma_passing_upto_range(s, e, range, n - 1);
    }
}

/// Range filtering: with range `(s, e)` over a source of length `L`,
/// the number of output lines is `max(0, min(e, L) - max(s, 1) + 1)`,
/// in every mode; in particular an inverted range (`s > e`) yields
/// no output at all.
pub proof fn lemma_range_count(cfg: Config, lines: Seq<Seq<char>>, s: usize, e: usize)
    requires
        cfg.line_range == Some((s, e)),
    ensures
        process_spec(cfg, lines).len() == vstd::math::max(
            0,
            vstd::math::min(e as int, lines.len() as int) - vstd::math::max(s as int, 1) + 1,
        ),
        s > e ==> process_spec(cfg, lines).len() == 0,
{
    lemma_process_upto_len(cfg, lines, lines.len() as int);
    lemma_passing_upto_range(s as int, e as int, cfg.line_range, lines.len() as int);
}

/// The processor is a pure function of its configuration and input:
/// two runs over the same static input yield identical output.
pub proof fn lemma_process_deterministic(
    cfg: Config,
    lines: Seq<Seq<char>>,
    out1: Seq<Seq<char>>,
    out2: Seq<Seq<char>>,
)
    requires
        out1 == process_spec(cfg, lines),
        out2 == process_spec(cfg, lines),
    ensures
        out1 == out2,
{
}

proof fn lemma_run_upto_prefix_eq(
    cfg: Config,
    s1: Seq<Option<Seq<Seq<char>>>>,
    s2: Seq<Option<Seq<Seq<char>>>>,
    n: int,
)
    requires
        n <= s1.len(),
        n <= s2.len(),
        forall|j: int| 0 <= j < n ==> s1[j] == s2[j],
    ensures
        run_upto(cfg, s1, n) == run_upto(cfg, s2, n),
    decreases n,
{
    if n > 0 {
        lemma_run_upto_prefix_eq(cfg, s1, s2, n - 1);
    }
}

proof fn lemma_run_upto_remove(
    cfg: Config,
    sources: Seq<Option<Seq<Seq<char>>>>,
    k: int,
    n: int,
)
    requires
        0 <= k < n <= sources.len(),
        sources[k] is None,
    ensures
        run_upto(cfg, sources, n) == run_upto(cfg, sources.remove(k), n - 1),
    decreases n,
{
    let removed = sources.remove(k);
    if n - 1 == k {
        lemma_run_upto_prefix_eq(cfg, sources, removed, k);
    } else {
        lemma_run_upto_remove(cfg, sources, k, n - 1);
        assert(sources[n - 1] == removed[n - 2]);
    }
}

/// Per-source failure isolation: a source that failed to open
/// contributes nothing to a run — the run's output is exactly the
/// output of the same run without that source, so the sources after
/// a failed one are still processed.
pub proof fn lemma_failed_source_isolated(
    cfg: Config,
    sources: Seq<Option<Seq<Seq<char>>>>,
    k: int,
)
    requires
        0 <= k < sources.len(),
        sources[k] is None,
    ensures
        run_spec(cfg, sources) == run_spec(cfg, sources.remove(k)),
{
    lemma_run_upto_remove(cfg, sources, k, sources.len() as int);
}

} // verus!

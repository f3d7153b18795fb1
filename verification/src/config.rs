use vstd::prelude::*;
use vstd::string::*;

use crate::format::numbered_line;
use crate::format::format_numbered;

verus! {

/// One run's configuration: the sources to read (a path, or `-` for
/// standard input), the numbering mode, and an optional inclusive
/// 1-based line range.
///
/// At most one of the two numbering flags is true at a time.
pub struct Config {
    pub files: Vec<String>,
    pub number_lines: bool,
    pub number_nonblank_lines: bool,
    pub line_range: Option<(usize, usize)>,
}

/// Does the 1-based position `pos` pass the configured range?
/// With no range every position passes; with range `(s, e)` exactly
/// the positions `s <= pos <= e` pass, so an inverted range admits none.
pub open spec fn in_range(range: Option<(usize, usize)>, pos: nat) -> bool {
    match range {
        Option::None => true,
        Option::Some((s, e)) => s <= pos && pos <= e,
    }
}

/// How many of the 1-based positions `1..=n` pass the range.
pub open spec fn passing_upto(range: Option<(usize, usize)>, n: int) -> nat
    decreases n,
{
    if n <= 0 {
        0
    } else {
        passing_upto(range, n - 1) + (if in_range(range, n as nat) {
            1nat
        } else {
            0nat
        })
    }
}

/// How many of the first `n` lines are non-blank and pass the range:
/// the value of the number-nonblank counter after `n` lines.
pub open spec fn nonblank_passing_upto(
    lines: Seq<Seq<char>>,
    range: Option<(usize, usize)>,
    n: int,
) -> nat
    decreases n,
{
    if n <= 0 {
        0
    } else {
        nonblank_passing_upto(lines, range, n - 1) + (if in_range(range, n as nat) && lines[n
            - 1].len() > 0 {
            1nat
        } else {
            0nat
        })
    }
}

/// The processor's output on the first `n` lines of one source:
/// lines outside the range are dropped; a passing line is rendered
/// according to the numbering mode, keeping its true 1-based position
/// under number-all, and the running non-blank count under
/// number-nonblank (where a blank passing line renders as empty).
pub open spec fn process_upto(cfg: Config, lines: Seq<Seq<char>>, n: int) -> Seq<Seq<char>>
    decreases n,
{
    if n <= 0 {
        Seq::empty()
    } else {
        let prev = process_upto(cfg, lines, n - 1);
        let pos = n as nat;
        let line = lines[n - 1];
        if !in_range(cfg.line_range, pos) {
            prev
        } else if cfg.number_lines {
            prev.push(numbered_line(pos, line))
        } else if cfg.number_nonblank_lines {
            if line.len() > 0 {
                prev.push(numbered_line(nonblank_passing_upto(lines, cfg.line_range, n), line))
            } else {
                prev.push(Seq::<char>::empty())
            }
        } else {
            prev.push(line)
        }
    }
}

/// The processor's output on one whole source.
pub open spec fn process_spec(cfg: Config, lines: Seq<Seq<char>>) -> Seq<Seq<char>> {
    process_upto(cfg, lines, lines.len() as int)
}

/// What one source contributes to a run: nothing if it failed to
/// open, its processed lines otherwise.
pub open spec fn source_output(cfg: Config, source: Option<Seq<Seq<char>>>) -> Seq<Seq<char>> {
    match source {
        Option::None => Seq::empty(),
        Option::Some(lines) => process_spec(cfg, lines),
    }
}

/// A whole run's output over the first `n` sources, in order.
pub open spec fn run_upto(
    cfg: Config,
    sources: Seq<Option<Seq<Seq<char>>>>,
    n: int,
) -> Seq<Seq<char>>
    decreases n,
{
    if n <= 0 {
        Seq::empty()
    } else {
        run_upto(cfg, sources, n - 1) + source_output(cfg, sources[n - 1])
    }
}

/// A whole run's output: each source's contribution, in the order
/// the sources were configured.
pub open spec fn run_spec(cfg: Config, sources: Seq<Option<Seq<Seq<char>>>>) -> Seq<Seq<char>> {
    run_upto(cfg, sources, sources.len() as int)
}

impl Config {
    /// At most one numbering mode is selected.
    pub open spec fn wf(&self) -> bool {
        !(self.number_lines && self.number_nonblank_lines)
    }

    pub fn new(
        files: Vec<String>,
        number_lines: bool,
        number_nonblank_lines: bool,
        line_range: Option<(usize, usize)>,
    ) -> (c: Self)
        requires
            !(number_lines && number_nonblank_lines),
        ensures
            c.files == files,
            c.number_lines == number_lines,
            c.number_nonblank_lines == number_nonblank_lines,
            c.line_range == line_range,
            c.wf(),
    {
        Config { files, number_lines, number_nonblank_lines, line_range }
    }

    /// Render a line under number-all mode: the 0-based position is
    /// shifted to 1-based and right-aligned in a field of width 6.
    pub fn fmt_number_lines(&self, line: &String, line_number: usize) -> (r: String)
        requires
            line_number < usize::MAX,
        ensures
            r@ == numbered_line((line_number + 1) as nat, line@),
    {
        format_numbered((line_number as u64) + 1, line.as_str())
    }

    /// Render a line under number-nonblank mode: a non-blank line
    /// advances the counter and is numbered with its new value; a
    /// blank line leaves the counter alone and renders as empty.
    pub fn fmt_number_nonblank_lines(&self, line: &String, last_number: &mut u32) -> (r: String)
        requires
            *old(last_number) < u32::MAX,
        ensures
            line@.len() > 0 ==> *final(last_number) == *old(last_number) + 1 && r@
                == numbered_line(*final(last_number) as nat, line@),
            line@.len() == 0 ==> *final(last_number) == *old(last_number) && r@ == Seq::<
                char,
            >::empty(),
    {
        if !line.as_str().is_empty() {
            *last_number += 1;
            format_numbered(*last_number as u64, line.as_str())
        } else {
            String::new()
        }
    }

    /// Process one already-read source: apply the range filter to
    /// each line in order, then render the passing lines under the
    /// configured numbering mode. The non-blank counter starts at
    /// zero for every call, so state never leaks across sources.
    pub fn process_flags(&self, lines: &Vec<String>) -> (out: Vec<String>)
        requires
            self.wf(),
            lines@.len() <= u32::MAX,
        ensures
            out.deep_view() == process_spec(*self, lines.deep_view()),
    {
        let mut out: Vec<String> = Vec::new();
        let mut last_num: u32 = 0;
        let mut i: usize = 0;
        while i < lines.len()
            invariant
                self.wf(),
                lines@.len() <= u32::MAX,
                i <= lines@.len(),
                self.number_nonblank_lines ==> last_num as nat == nonblank_passing_upto(
                    lines.deep_view(),
                    self.line_range,
                    i as int,
                ),
                last_num <= i,
                out.deep_view() == process_upto(*self, lines.deep_view(), i as int),
            decreases lines@.len() - i,
        {
            let pass = match self.line_range {
                Option::None => true,
                Option::Some((s, e)) => s <= i + 1 && i + 1 <= e,
            };
            let line = &lines[i];
            if pass {
                if self.number_lines {
                    let rendered = self.fmt_number_lines(line, i);
                    out.push(rendered);
                } else if self.number_nonblank_lines {
                    let rendered = self.fmt_number_nonblank_lines(line, &mut last_num);
                    out.push(rendered);
                } else {
                    out.push(line.clone());
                }
            }
            proof {
                assert(out.deep_view() =~= process_upto(
                    *self,
                    lines.deep_view(),
                    (i + 1) as int,
                ));
            }
            i = i + 1;
        }
        out
    }
}

/// Drive a whole run over already-opened sources: `sources[k]` holds
/// the lines of the k-th source, or `None` where opening it failed.
/// A failed source contributes no output, and the sources after it
/// are still processed, each with fresh numbering state.
pub fn run(config: &Config, sources: &Vec<Option<Vec<String>>>) -> (out: Vec<String>)
    requires
        config.wf(),
        forall|k: int|
            0 <= k < sources@.len() && sources@[k] is Some ==> sources@[k].unwrap()@.len()
                <= u32::MAX,
    ensures
        out.deep_view() == run_spec(*config, sources.deep_view()),
{
    let mut out: Vec<String> = Vec::new();
    let mut k: usize = 0;
    while k < sources.len()
        invariant
            config.wf(),
            k <= sources@.len(),
            forall|j: int|
                0 <= j < sources@.len() && sources@[j] is Some ==> sources@[j].unwrap()@.len()
                    <= u32::MAX,
            out.deep_view() == run_upto(*config, sources.deep_view(), k as int),
        decreases sources@.len() - k,
    {
        match &sources[k] {
            Option::None => {},
            Option::Some(lines) => {
                let mut produced = config.process_flags(lines);
                out.append(&mut produced);
            },
        }
        proof {
            assert(out.deep_view() =~= run_upto(*config, sources.deep_view(), (k + 1) as int));
        }
        k = k + 1;
    }
    out
}

} // verus!

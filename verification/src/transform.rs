use vstd::prelude::*;

use crate::config::Config;
use crate::text::{
    is_blank, tab_expanded, spec_number_prefix, line_is_blank, expand_tabs, number_prefix,
};

verus! {

/// The content of one output line before any numbering: the input line with
/// tabs expanded when `show_tabs` is set, then a `$` marker appended when
/// `show_ends` is set.
pub open spec fn spec_body(line: Seq<char>, cfg: Config) -> Seq<char> {
    let expanded = if cfg.show_tabs {
        tab_expanded(line)
    } else {
        line
    };
    if cfg.show_ends {
        expanded + seq!['$']
    } else {
        expanded
    }
}

/// Whether an emitted line receives a numbering prefix: with
/// `number_nonblank` exactly the non-blank lines, else all lines when
/// `number` is set. The blank test looks at the original line content.
pub open spec fn is_numbered(line: Seq<char>, cfg: Config) -> bool {
    if cfg.number_nonblank {
        !is_blank(line)
    } else {
        cfg.number
    }
}

/// One fully transformed output line; `number` is the 1-based input
/// position of the line within its source.
pub open spec fn spec_render(line: Seq<char>, number: nat, cfg: Config) -> Seq<char> {
    if is_numbered(line, cfg) {
        spec_number_prefix(number) + spec_body(line, cfg)
    } else {
        spec_body(line, cfg)
    }
}

/// All output lines of a source from input position `i` on, ignoring any
/// line limit. `prev_blank` records whether the last emitted line was
/// blank; with `squeeze_blank` a blank line following an emitted blank line
/// is dropped and leaves the flag standing.
pub open spec fn transform_all(
    lines: Seq<Seq<char>>,
    cfg: Config,
    i: int,
    prev_blank: bool,
) -> Seq<Seq<char>>
    decreases lines.len() - i,
{
    if i < 0 || i >= lines.len() {
        Seq::empty()
    } else if cfg.squeeze_blank && is_blank(lines[i]) && prev_blank {
        transform_all(lines, cfg, i + 1, prev_blank)
    } else {
        seq![spec_render(lines[i], (i + 1) as nat, cfg)] + transform_all(
            lines,
            cfg,
            i + 1,
            is_blank(lines[i]),
        )
    }
}

/// The complete output for one source: every line transformed in input
/// order, runs of blank lines squeezed when asked, and the result cut off
/// after `max_lines` emitted lines when a limit is set.
pub open spec fn spec_transform(lines: Seq<Seq<char>>, cfg: Config) -> Seq<Seq<char>> {
    let full = transform_all(lines, cfg, 0, false);
    match cfg.max_lines {
        None => full,
        Some(m) => full.take(vstd::math::min(m as int, full.len() as int)),
    }
}

/// The views of a source's lines.
pub open spec fn line_views(lines: Seq<String>) -> Seq<Seq<char>> {
    lines.map_values(|l: String| l@)
}

/// Builds one output line from the input line at 1-based position `number`.
pub fn render_line(line: &str, number: usize, cfg: &Config) -> (r: String)
    ensures
        r@ == spec_render(line@, number as nat, *cfg),
{
    let mut body = if cfg.show_tabs {
        expand_tabs(line)
    } else {
        String::from_str(line)
    };
    if cfg.show_ends {
        crate::text::push_char(&mut body, '$');
    }
    let numbered = if cfg.number_nonblank {
        !line_is_blank(line)
    } else {
        cfg.number
    };
    if numbered {
        let mut r = number_prefix(number);
        r.append(body.as_str());
        r
    } else {
        body
    }
}

/// Streams one source through the transform: the caller feeds input lines
/// in order and emits the returned output lines, stopping once `done`
/// reports that the line limit has been reached.
pub struct LineTransformer {
    /// The options the source is transformed under.
    pub cfg: Config,
    /// Input lines consumed so far.
    pub index: usize,
    /// Output lines emitted so far.
    pub emitted: usize,
    /// Whether the last emitted line was blank.
    pub prev_blank: bool,
}

impl LineTransformer {
    /// Basic well-formedness: no more lines emitted than consumed.
    pub open spec fn wf(self) -> bool {
        self.emitted <= self.index
    }

    /// True once the line limit has been reached: no further line will be
    /// emitted from this source.
    pub open spec fn spec_done(self) -> bool {
        match self.cfg.max_lines {
            Some(m) => self.emitted >= m,
            None => false,
        }
    }

    /// A fresh transformer at the start of a source.
    pub fn new(cfg: Config) -> (t: Self)
        ensures
            t.cfg == cfg,
            t.index == 0,
            t.emitted == 0,
            !t.prev_blank,
            t.wf(),
    {
        LineTransformer { cfg, index: 0, emitted: 0, prev_blank: false }
    }

    /// Whether the line limit has been reached.
    pub fn done(&self) -> (b: bool)
        ensures
            b == self.spec_done(),
    {
        match self.cfg.max_lines {
            Some(m) => self.emitted >= m,
            None => false,
        }
    }

    /// Consumes the next input line and returns the output line to emit,
    /// or `None` when the line is squeezed away.
    pub fn step(&mut self, line: &str) -> (out: Option<String>)
        requires
            old(self).wf(),
            !old(self).spec_done(),
            old(self).index < usize::MAX,
        ensures
            final(self).cfg == old(self).cfg,
            final(self).index == old(self).index + 1,
            final(self).wf(),
            match out {
                None => final(self).emitted == old(self).emitted && final(self).prev_blank
                    == old(self).prev_blank && old(self).cfg.squeeze_blank && is_blank(line@)
                    && old(self).prev_blank,
                Some(l) => l@ == spec_render(line@, (old(self).index + 1) as nat, old(self).cfg)
                    && final(self).emitted == old(self).emitted + 1
                    && final(self).prev_blank == is_blank(line@)
                    && !(old(self).cfg.squeeze_blank && is_blank(line@) && old(self).prev_blank),
            },
    {
        let blank = line_is_blank(line);
        self.index = self.index + 1;
        if self.cfg.squeeze_blank && blank && self.prev_blank {
            None
        } else {
            let r = render_line(line, self.index, &self.cfg);
            self.emitted = self.emitted + 1;
            self.prev_blank = blank;
            Some(r)
        }
    }
}

/// Transforms all lines of one source at once.
pub fn transform_source(lines: &Vec<String>, cfg: &Config) -> (out: Vec<String>)
    ensures
        out@.map_values(|l: String| l@) == spec_transform(line_views(lines@), *cfg),
{
    let ghost views = line_views(lines@);
    let ghost full = transform_all(views, *cfg, 0, false);
    let mut t = LineTransformer::new(*cfg);
    let mut out: Vec<String> = Vec::new();
    let mut i: usize = 0;
    while i < lines.len()
        invariant
            t.cfg == *cfg,
            t.wf(),
            t.index == i,
            t.emitted == out.len(),
            i <= lines.len(),
            views == line_views(lines@),
            full == transform_all(views, *cfg, 0, false),
            out@.map_values(|l: String| l@) + transform_all(views, *cfg, i as int, t.prev_blank)
                == full,
            match cfg.max_lines {
                Some(m) => out.len() <= m,
                None => true,
            },
        ensures
            out@.map_values(|l: String| l@) + transform_all(views, *cfg, i as int, t.prev_blank)
                == full,
            i == lines.len() || (t.spec_done() && match cfg.max_lines {
                Some(m) => out.len() == m,
                None => false,
            }),
            match cfg.max_lines {
                Some(m) => out.len() <= m,
                None => true,
            },
        decreases lines.len() - i,
    {
        if t.done() {
            break;
        }
        let ghost out_views_pre = out@.map_values(|l: String| l@);
        let ghost prev_pre = t.prev_blank;
        let line = &lines[i];
        assert(views[i as int] == line@);
        let o = t.step(line.as_str());
        match o {
            Some(l) => {
                out.push(l);
                proof {
                    assert(out@.map_values(|l: String| l@) =~= out_views_pre + seq![
                        spec_render(views[i as int], (i + 1) as nat, *cfg),
                    ]);
                    assert(transform_all(views, *cfg, i as int, prev_pre) == seq![
                        spec_render(views[i as int], (i + 1) as nat, *cfg),
                    ] + transform_all(views, *cfg, i + 1, is_blank(views[i as int])));
                    assert(out@.map_values(|l: String| l@) + transform_all(
                        views,
                        *cfg,
                        i + 1,
                        t.prev_blank,
                    ) =~= full);
                }
            },
            None => {
                proof {
                    assert(transform_all(views, *cfg, i as int, prev_pre) == transform_all(
                        views,
                        *cfg,
                        i + 1,
                        prev_pre,
                    ));
                }
            },
        }
        i += 1;
    }
    proof {
        let out_views = out@.map_values(|l: String| l@);
        if i >= lines.len() {
            assert(transform_all(views, *cfg, i as int, t.prev_blank) =~= Seq::<Seq<char>>::empty());
            assert(out_views + Seq::<Seq<char>>::empty() =~= out_views);
            assert(out_views == full);
            match cfg.max_lines {
                Some(m) => {
                    let k = vstd::math::min(m as int, full.len() as int);
                    assert(full.len() == out.len());
                    assert(k == full.len() as int);
                    assert(full.take(k) =~= full);
                },
                None => {},
            }
        } else {
            // exited through the line-limit break
            match cfg.max_lines {
                Some(m) => {
                    let rest = transform_all(views, *cfg, i as int, t.prev_blank);
                    assert(full.len() == out.len() + rest.len());
                    let k = vstd::math::min(m as int, full.len() as int);
                    assert(k == m as int);
                    assert(full.take(k) =~= out_views);
                },
                None => {},
            }
        }
    }
    out
}

} // verus!

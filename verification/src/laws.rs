use vstd::prelude::*;

use crate::config::Config;
use crate::text::{is_blank, tab_expanded, tab_expansion_of, spec_number_prefix};
use crate::transform::{spec_body, spec_render, is_numbered, transform_all, spec_transform};

verus! {

/// With no options set, each line from `i` on passes through unchanged.
proof fn transform_all_identity(lines: Seq<Seq<char>>, cfg: Config, i: int, prev_blank: bool)
    requires
        !cfg.number,
        !cfg.number_nonblank,
        !cfg.show_ends,
        !cfg.squeeze_blank,
        !cfg.show_tabs,
        0 <= i <= lines.len(),
    ensures
        transform_all(lines, cfg, i, prev_blank) == lines.skip(i),
    decreases lines.len() - i,
{
    if i >= lines.len() {
        assert(transform_all(lines, cfg, i, prev_blank) =~= lines.skip(i));
    } else {
        transform_all_identity(lines, cfg, i + 1, is_blank(lines[i]));
        assert(spec_render(lines[i], (i + 1) as nat, cfg) == lines[i]);
        assert(lines.skip(i) =~= seq![lines[i]] + lines.skip(i + 1));
    }
}

/// With no options set the transform is the identity: the output lines are
/// exactly the input lines.
pub proof fn lemma_identity(lines: Seq<Seq<char>>, cfg: Config)
    requires
        !cfg.number,
        !cfg.number_nonblank,
        !cfg.show_ends,
        !cfg.squeeze_blank,
        !cfg.show_tabs,
        cfg.max_lines is None,
    ensures
        spec_transform(lines, cfg) == lines,
{
    transform_all_identity(lines, cfg, 0, false);
    assert(lines.skip(0) =~= lines);
}

/// Without `squeeze_blank`, the lines from `i` on map one for one onto the
/// output, each rendered at its own input position.
proof fn transform_all_no_squeeze(lines: Seq<Seq<char>>, cfg: Config, i: int, prev_blank: bool)
    requires
        !cfg.squeeze_blank,
        0 <= i <= lines.len(),
    ensures
        transform_all(lines, cfg, i, prev_blank).len() == lines.len() - i,
        forall|j: int|
            i <= j < lines.len() ==> #[trigger] transform_all(lines, cfg, i, prev_blank)[j - i]
                == spec_render(lines[j], (j + 1) as nat, cfg),
    decreases lines.len() - i,
{
    if i < lines.len() {
        transform_all_no_squeeze(lines, cfg, i + 1, is_blank(lines[i]));
        let r = transform_all(lines, cfg, i, prev_blank);
        let rest = transform_all(lines, cfg, i + 1, is_blank(lines[i]));
        assert(r == seq![spec_render(lines[i], (i + 1) as nat, cfg)] + rest);
        assert forall|j: int| i <= j < lines.len() implies #[trigger] r[j - i] == spec_render(
            lines[j],
            (j + 1) as nat,
            cfg,
        ) by {
            if j > i {
                assert(rest[j - (i + 1)] == spec_render(lines[j], (j + 1) as nat, cfg));
                assert(r[j - i] == rest[j - i - 1]);
            }
        }
    }
}

/// With `number` set every output line is the numbering prefix for its
/// 1-based input position followed by the transformed line content.
pub proof fn lemma_number(lines: Seq<Seq<char>>, cfg: Config)
    requires
        cfg.number,
        !cfg.number_nonblank,
        !cfg.squeeze_blank,
        cfg.max_lines is None,
    ensures
        spec_transform(lines, cfg).len() == lines.len(),
        forall|i: int|
            0 <= i < lines.len() ==> #[trigger] spec_transform(lines, cfg)[i]
                == spec_number_prefix((i + 1) as nat) + spec_body(lines[i], cfg),
{
    transform_all_no_squeeze(lines, cfg, 0, false);
    let full = transform_all(lines, cfg, 0, false);
    assert forall|i: int| 0 <= i < lines.len() implies #[trigger] spec_transform(lines, cfg)[i]
        == spec_number_prefix((i + 1) as nat) + spec_body(lines[i], cfg) by {
        assert(full[i - 0] == spec_render(lines[i], (i + 1) as nat, cfg));
    }
}

/// With `number_nonblank` set, blank lines receive no numbering prefix and
/// non-blank lines are numbered with their 1-based input position.
pub proof fn lemma_number_nonblank(lines: Seq<Seq<char>>, cfg: Config)
    requires
        cfg.number_nonblank,
        !cfg.squeeze_blank,
        cfg.max_lines is None,
    ensures
        spec_transform(lines, cfg).len() == lines.len(),
        forall|i: int|
            0 <= i < lines.len() && is_blank(lines[i]) ==> #[trigger] spec_transform(lines, cfg)[i]
                == spec_body(lines[i], cfg),
        forall|i: int|
            0 <= i < lines.len() && !is_blank(lines[i]) ==> #[trigger] spec_transform(lines, cfg)[i]
                == spec_number_prefix((i + 1) as nat) + spec_body(lines[i], cfg),
{
    transform_all_no_squeeze(lines, cfg, 0, false);
    let full = transform_all(lines, cfg, 0, false);
    assert forall|i: int| 0 <= i < lines.len() implies #[trigger] spec_transform(lines, cfg)[i]
        == spec_render(lines[i], (i + 1) as nat, cfg) by {
        assert(full[i - 0] == spec_render(lines[i], (i + 1) as nat, cfg));
    }
}

/// With `show_ends`, every line of the unlimited output ends with `$`.
proof fn transform_all_show_ends(lines: Seq<Seq<char>>, cfg: Config, i: int, prev_blank: bool)
    requires
        cfg.show_ends,
        0 <= i <= lines.len(),
    ensures
        forall|j: int|
            0 <= j < transform_all(lines, cfg, i, prev_blank).len() ==> {
                let l = #[trigger] transform_all(lines, cfg, i, prev_blank)[j];
                l.len() >= 1 && l[l.len() - 1] == '$'
            },
    decreases lines.len() - i,
{
    if i < lines.len() {
        if cfg.squeeze_blank && is_blank(lines[i]) && prev_blank {
            transform_all_show_ends(lines, cfg, i + 1, prev_blank);
            let r = transform_all(lines, cfg, i, prev_blank);
            let rest = transform_all(lines, cfg, i + 1, prev_blank);
            assert(r == rest);
            assert forall|j: int| 0 <= j < r.len() implies {
                let l = #[trigger] r[j];
                l.len() >= 1 && l[l.len() - 1] == '$'
            } by {
                assert(rest[j].len() >= 1 && rest[j][rest[j].len() - 1] == '$');
            }
        } else {
            transform_all_show_ends(lines, cfg, i + 1, is_blank(lines[i]));
            let first = spec_render(lines[i], (i + 1) as nat, cfg);
            let b = spec_body(lines[i], cfg);
            assert(b.len() >= 1 && b[b.len() - 1] == '$');
            assert(first.len() >= 1 && first[first.len() - 1] == '$');
            let r = transform_all(lines, cfg, i, prev_blank);
            let rest = transform_all(lines, cfg, i + 1, is_blank(lines[i]));
            assert(r == seq![first] + rest);
            assert forall|j: int| 0 <= j < r.len() implies {
                let l = #[trigger] r[j];
                l.len() >= 1 && l[l.len() - 1] == '$'
            } by {
                if j > 0 {
                    assert(r[j] == rest[j - 1]);
                    assert(rest[j - 1].len() >= 1 && rest[j - 1][rest[j - 1].len() - 1] == '$');
                }
            }
        }
    }
}

/// With `show_ends`, under any combination of the other options, every
/// emitted line ends with a `$` marker.
pub proof fn lemma_show_ends(lines: Seq<Seq<char>>, cfg: Config)
    requires
        cfg.show_ends,
    ensures
        forall|j: int|
            0 <= j < spec_transform(lines, cfg).len() ==> {
                let l = #[trigger] spec_transform(lines, cfg)[j];
                l.len() >= 1 && l[l.len() - 1] == '$'
            },
{
    transform_all_show_ends(lines, cfg, 0, false);
    let full = transform_all(lines, cfg, 0, false);
    assert forall|j: int| 0 <= j < spec_transform(lines, cfg).len() implies {
        let l = #[trigger] spec_transform(lines, cfg)[j];
        l.len() >= 1 && l[l.len() - 1] == '$'
    } by {
        assert(spec_transform(lines, cfg)[j] == full[j]);
        assert(full[j].len() >= 1 && full[j][full[j].len() - 1] == '$');
    }
}

/// Tab expansion leaves a line without tabs unchanged: no character other
/// than a horizontal tab is altered.
pub proof fn lemma_tab_expanded_no_tabs(s: Seq<char>)
    requires
        forall|i: int| 0 <= i < s.len() ==> s[i] != '\t',
    ensures
        tab_expanded(s) == s,
    decreases s.len(),
{
    if s.len() == 0 {
        assert(tab_expanded(s) =~= s);
    } else {
        lemma_tab_expanded_no_tabs(s.drop_last());
        assert(tab_expansion_of(s.last()) == seq![s.last()]);
        assert(s.drop_last() + seq![s.last()] =~= s);
    }
}

/// Tab expansion leaves no horizontal tab in the result: every tab has
/// been replaced.
pub proof fn lemma_tab_expanded_tab_free(s: Seq<char>)
    ensures
        forall|i: int| 0 <= i < tab_expanded(s).len() ==> #[trigger] tab_expanded(s)[i] != '\t',
    decreases s.len(),
{
    if s.len() > 0 {
        lemma_tab_expanded_tab_free(s.drop_last());
        let t = tab_expanded(s);
        let tp = tab_expanded(s.drop_last());
        let e = tab_expansion_of(s.last());
        assert(t == tp + e);
        assert forall|i: int| 0 <= i < t.len() implies #[trigger] t[i] != '\t' by {
            if i < tp.len() {
                assert(t[i] == tp[i]);
            } else {
                assert(t[i] == e[i - tp.len()]);
                if s.last() == '\t' {
                    assert(e == seq!['^', 'I']);
                } else {
                    assert(e == seq![s.last()]);
                }
            }
        }
    }
}

/// Whether the squeeze step keeps input line `i`: a line is dropped exactly
/// when it and its predecessor are both blank.
pub open spec fn squeeze_keeps(lines: Seq<Seq<char>>, i: int) -> bool {
    !(0 < i && i < lines.len() && is_blank(lines[i]) && is_blank(lines[i - 1]))
}

/// The lines from `i` on that the squeeze step keeps, each rendered at its
/// own input position.
pub open spec fn squeezed_render(lines: Seq<Seq<char>>, cfg: Config, i: int) -> Seq<Seq<char>>
    decreases lines.len() - i,
{
    if i < 0 || i >= lines.len() {
        Seq::empty()
    } else if !squeeze_keeps(lines, i) {
        squeezed_render(lines, cfg, i + 1)
    } else {
        seq![spec_render(lines[i], (i + 1) as nat, cfg)] + squeezed_render(lines, cfg, i + 1)
    }
}

/// With `squeeze_blank`, the output from `i` on is exactly the kept lines,
/// rendered; the running `prev_blank` flag agrees with the blankness of the
/// previous input line.
proof fn transform_all_squeeze(lines: Seq<Seq<char>>, cfg: Config, i: int, prev_blank: bool)
    requires
        cfg.squeeze_blank,
        0 <= i <= lines.len(),
        prev_blank == (0 < i && is_blank(lines[i - 1])),
    ensures
        transform_all(lines, cfg, i, prev_blank) == squeezed_render(lines, cfg, i),
    decreases lines.len() - i,
{
    if i < lines.len() {
        if is_blank(lines[i]) && prev_blank {
            assert(!squeeze_keeps(lines, i));
            transform_all_squeeze(lines, cfg, i + 1, prev_blank);
        } else {
            assert(squeeze_keeps(lines, i));
            transform_all_squeeze(lines, cfg, i + 1, is_blank(lines[i]));
        }
    }
}

/// With `squeeze_blank` set and no line limit, the output consists of
/// exactly the kept input lines, rendered in order: of each run of two or
/// more consecutive blank lines only the first is emitted, and an isolated
/// blank line is kept.
pub proof fn lemma_squeeze(lines: Seq<Seq<char>>, cfg: Config)
    requires
        cfg.squeeze_blank,
        cfg.max_lines is None,
    ensures
        spec_transform(lines, cfg) == squeezed_render(lines, cfg, 0),
{
    transform_all_squeeze(lines, cfg, 0, false);
}

/// With only `squeeze_blank` set, the kept lines from `i` on contain no
/// two consecutive blank lines, and when the previous input line was blank
/// the first kept line is not blank.
proof fn squeezed_no_adjacent_blanks(lines: Seq<Seq<char>>, cfg: Config, i: int)
    requires
        !cfg.number,
        !cfg.number_nonblank,
        !cfg.show_ends,
        !cfg.show_tabs,
        cfg.squeeze_blank,
        0 <= i <= lines.len(),
    ensures
        forall|j: int|
            0 <= j && j + 1 < squeezed_render(lines, cfg, i).len() ==> !(is_blank(
                #[trigger] squeezed_render(lines, cfg, i)[j],
            ) && is_blank(squeezed_render(lines, cfg, i)[j + 1])),
        (0 < i && is_blank(lines[i - 1]) && squeezed_render(lines, cfg, i).len() > 0) ==> !is_blank(
            squeezed_render(lines, cfg, i)[0],
        ),
    decreases lines.len() - i,
{
    if i < lines.len() {
        squeezed_no_adjacent_blanks(lines, cfg, i + 1);
        if squeeze_keeps(lines, i) {
            let rest = squeezed_render(lines, cfg, i + 1);
            let r = squeezed_render(lines, cfg, i);
            assert(spec_render(lines[i], (i + 1) as nat, cfg) == lines[i]);
            assert(r == seq![lines[i]] + rest);
            assert(forall|j: int| 0 <= j && j + 1 < r.len() ==> r[j + 1] == rest[j]);
        }
    }
}

/// With only `squeeze_blank` set, no two consecutive output lines are
/// blank.
pub proof fn lemma_squeeze_no_adjacent_blanks(lines: Seq<Seq<char>>, cfg: Config)
    requires
        !cfg.number,
        !cfg.number_nonblank,
        !cfg.show_ends,
        !cfg.show_tabs,
        cfg.squeeze_blank,
        cfg.max_lines is None,
    ensures
        forall|j: int|
            0 <= j && j + 1 < spec_transform(lines, cfg).len() ==> !(is_blank(
                #[trigger] spec_transform(lines, cfg)[j],
            ) && is_blank(spec_transform(lines, cfg)[j + 1])),
{
    lemma_squeeze(lines, cfg);
    squeezed_no_adjacent_blanks(lines, cfg, 0);
}

/// The unlimited output does not depend on the line limit: two
/// configurations that agree on every option but `max_lines` transform
/// alike.
proof fn transform_all_ignores_max(
    lines: Seq<Seq<char>>,
    cfg1: Config,
    cfg2: Config,
    i: int,
    prev_blank: bool,
)
    requires
        cfg1.number == cfg2.number,
        cfg1.number_nonblank == cfg2.number_nonblank,
        cfg1.show_ends == cfg2.show_ends,
        cfg1.squeeze_blank == cfg2.squeeze_blank,
        cfg1.show_tabs == cfg2.show_tabs,
        0 <= i <= lines.len(),
    ensures
        transform_all(lines, cfg1, i, prev_blank) == transform_all(lines, cfg2, i, prev_blank),
    decreases lines.len() - i,
{
    if i < lines.len() {
        if cfg1.squeeze_blank && is_blank(lines[i]) && prev_blank {
            transform_all_ignores_max(lines, cfg1, cfg2, i + 1, prev_blank);
        } else {
            transform_all_ignores_max(lines, cfg1, cfg2, i + 1, is_blank(lines[i]));
            assert(spec_render(lines[i], (i + 1) as nat, cfg1) == spec_render(
                lines[i],
                (i + 1) as nat,
                cfg2,
            ));
        }
    }
}

/// With `max_lines` set to `m`, the output is exactly the first
/// `min(m, n)` lines of the unlimited output of `n` lines: the limit cuts
/// the output off and changes nothing else.
pub proof fn lemma_max_lines(lines: Seq<Seq<char>>, cfg: Config, m: usize)
    requires
        cfg.max_lines == Some(m),
    ensures
        spec_transform(lines, cfg) == spec_transform(lines, cfg.without_max()).take(
            vstd::math::min(m as int, spec_transform(lines, cfg.without_max()).len() as int),
        ),
        spec_transform(lines, cfg).len() == vstd::math::min(
            m as int,
            spec_transform(lines, cfg.without_max()).len() as int,
        ),
{
    transform_all_ignores_max(lines, cfg, cfg.without_max(), 0, false);
}

/// With tabs, ends and numbering all set, each output line is built in
/// order: tabs expanded, then the `$` marker appended, then the numbering
/// prefix put in front.
pub proof fn lemma_compose(lines: Seq<Seq<char>>, cfg: Config)
    requires
        cfg.number,
        cfg.show_ends,
        cfg.show_tabs,
        !cfg.number_nonblank,
        !cfg.squeeze_blank,
        cfg.max_lines is None,
    ensures
        spec_transform(lines, cfg).len() == lines.len(),
        forall|i: int|
            0 <= i < lines.len() ==> #[trigger] spec_transform(lines, cfg)[i]
                == spec_number_prefix((i + 1) as nat) + (tab_expanded(lines[i]) + seq!['$']),
{
    transform_all_no_squeeze(lines, cfg, 0, false);
    let full = transform_all(lines, cfg, 0, false);
    assert forall|i: int| 0 <= i < lines.len() implies #[trigger] spec_transform(lines, cfg)[i]
        == spec_number_prefix((i + 1) as nat) + (tab_expanded(lines[i]) + seq!['$']) by {
        assert(full[i - 0] == spec_render(lines[i], (i + 1) as nat, cfg));
    }
}

/// An empty source yields no output lines, whatever the options.
pub proof fn lemma_empty_input(cfg: Config)
    ensures
        spec_transform(Seq::empty(), cfg) == Seq::<Seq<char>>::empty(),
{
    assert(transform_all(Seq::empty(), cfg, 0, false) =~= Seq::<Seq<char>>::empty());
    match cfg.max_lines {
        Some(m) => {
            assert(spec_transform(Seq::empty(), cfg) =~= Seq::<Seq<char>>::empty());
        },
        None => {},
    }
}

} // verus!

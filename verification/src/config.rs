use vstd::prelude::*;

verus! {

/// The formatting options, fixed for the duration of one invocation.
#[derive(Clone, Copy)]
pub struct Config {
    /// Prefix every output line with its 1-based input position.
    pub number: bool,
    /// Prefix only non-blank lines with their 1-based input position;
    /// takes priority over `number` when both are set.
    pub number_nonblank: bool,
    /// Append a `$` marker to each output line, after tab substitution.
    pub show_ends: bool,
    /// Collapse each run of two or more consecutive blank lines into one.
    pub squeeze_blank: bool,
    /// Replace each horizontal tab with the two-character sequence `^I`.
    pub show_tabs: bool,
    /// Stop after this many emitted lines per source; `None` means unlimited.
    pub max_lines: Option<usize>,
}

impl Config {
    /// A configuration with no options set: the transform is the identity.
    pub fn plain() -> (cfg: Config)
        ensures
            !cfg.number,
            !cfg.number_nonblank,
            !cfg.show_ends,
            !cfg.squeeze_blank,
            !cfg.show_tabs,
            cfg.max_lines is None,
    {
        Config {
            number: false,
            number_nonblank: false,
            show_ends: false,
            squeeze_blank: false,
            show_tabs: false,
            max_lines: None,
        }
    }

    /// The same options with the line limit removed.
    pub open spec fn without_max(self) -> Config {
        Config { max_lines: None, ..self }
    }
}

} // verus!

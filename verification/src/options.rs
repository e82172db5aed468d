//! Formatting options and indentation strings.

use vstd::prelude::*;

verus! {

/// Immutable configuration threaded through every printer call.
#[derive(Clone, Copy, Debug)]
pub struct FormatOptions {
    /// Spaces per indentation level when spaces are used.
    pub tab_size: usize,
    /// Indent with tabs instead of spaces.
    pub use_tabs: bool,
    /// Whether the outermost recast appends a trailing newline.
    pub insert_final_newline: bool,
}

/// `n` space characters.
pub open spec fn spaces(n: int) -> Seq<char>
    decreases n,
{
    if n <= 0 {
        Seq::empty()
    } else {
        spaces(n - 1).push(' ')
    }
}

/// The text of one indentation step.
pub open spec fn indent_unit(opts: FormatOptions) -> Seq<char> {
    if opts.use_tabs {
        seq!['\t']
    } else {
        spaces(opts.tab_size as int)
    }
}

/// The indentation prefix at `level`.
pub open spec fn indentation(opts: FormatOptions, level: int) -> Seq<char>
    decreases level,
{
    if level <= 0 {
        Seq::empty()
    } else {
        indentation(opts, level - 1) + indent_unit(opts)
    }
}

/// Indentation for text that hangs under a pipe operator: the level's own
/// prefix plus the width of the pipe token and its trailing space.
pub open spec fn indentation_offset_pipe(opts: FormatOptions, level: int) -> Seq<char> {
    indentation(opts, level) + spaces(3)
}

impl FormatOptions {
    /// Append `n` spaces to `out`.
    fn push_spaces(out: &mut String, n: usize)
        ensures
            final(out)@ == old(out)@ + spaces(n as int),
    {
        let mut j: usize = 0;
        while j < n
            invariant
                j <= n,
                out@ == old(out)@ + spaces(j as int),
            decreases n - j,
        {
            out.append(" ");
            proof {
                reveal_strlit(" ");
                assert(spaces(j + 1) == spaces(j as int).push(' '));
                assert(out@ =~= old(out)@ + spaces(j + 1 as int));
            }
            j = j + 1;
        }
    }

    /// The indentation string for `indentation_level`.
    pub fn get_indentation(&self, indentation_level: usize) -> (r: String)
        ensures
            r@ == indentation(*self, indentation_level as int),
    {
        let mut out = String::new();
        let mut i: usize = 0;
        while i < indentation_level
            invariant
                i <= indentation_level,
                out@ == indentation(*self, i as int),
            decreases indentation_level - i,
        {
            if self.use_tabs {
                out.append("\t");
                proof {
                    reveal_strlit("\t");
                    assert(out@ =~= indentation(*self, i + 1 as int));
                }
            } else {
                Self::push_spaces(&mut out, self.tab_size);
            }
            i = i + 1;
        }
        out
    }

    /// The indentation string for text hanging under a pipe operator.
    pub fn get_indentation_offset_pipe(&self, indentation_level: usize) -> (r: String)
        ensures
            r@ == indentation_offset_pipe(*self, indentation_level as int),
    {
        let mut out = self.get_indentation(indentation_level);
        Self::push_spaces(&mut out, 3);
        out
    }
}

impl Default for FormatOptions {
    /// Two-space indentation and a forced trailing newline.
    fn default() -> (r: Self)
        ensures
            r.tab_size == 2,
            !r.use_tabs,
            r.insert_final_newline,
    {
        FormatOptions { tab_size: 2, use_tabs: false, insert_final_newline: true }
    }
}

} // verus!

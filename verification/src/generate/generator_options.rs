//! How generated source is laid out.

use vstd::prelude::*;
use crate::text::from_chars;

verus! {

/// Which kind of indentation to use.
#[derive(Debug, Clone, Copy, PartialEq, Eq, Structural)]
pub enum IndentStyle {
    Spaces(usize),
    Tabs,
}

/// Formatting options.
#[derive(Debug, Clone, Copy, PartialEq, Eq, Structural)]
pub struct GeneratorOptions {
    pub indent_style: IndentStyle,
    pub blank_lines_between_entities: bool,
}

impl Default for GeneratorOptions {
    fn default() -> (r: Self)
        ensures
            r == (GeneratorOptions {
                indent_style: IndentStyle::Spaces(4),
                blank_lines_between_entities: true,
            }),
    {
        GeneratorOptions { indent_style: IndentStyle::Spaces(4), blank_lines_between_entities: true }
    }
}

/// `count` times the character `c`.
pub open spec fn repeated(c: char, count: nat) -> Seq<char> {
    Seq::new(count, |i: int| c)
}

impl IndentStyle {
    /// The indentation of a level.
    pub open spec fn indent(self, level: nat) -> Seq<char> {
        match self {
            IndentStyle::Spaces(size) => repeated(' ', (level * size) as nat),
            IndentStyle::Tabs => repeated('\t', level),
        }
    }

    /// Whether the indentation of a level has a length that fits.
    pub open spec fn fits(self, level: nat) -> bool {
        match self {
            IndentStyle::Spaces(size) => level * size <= usize::MAX,
            IndentStyle::Tabs => true,
        }
    }

    /// Writes the indentation of a level.
    pub fn indent_string(&self, level: usize) -> (r: String)
        requires
            self.fits(level as nat),
        ensures
            r@ == self.indent(level as nat),
    {
        let (c, count): (char, usize) = match self {
            IndentStyle::Spaces(size) => (' ', level * *size),
            IndentStyle::Tabs => ('\t', level),
        };
        let mut chars: Vec<char> = Vec::new();
        let mut i: usize = 0;
        while i < count
            invariant
                i <= count,
                chars@ == repeated(c, i as nat),
            decreases count - i,
        {
            chars.push(c);
            assert(repeated(c, (i + 1) as nat) =~= repeated(c, i as nat).push(c));
            i += 1;
        }
        from_chars(&chars)
    }
}

} // verus!

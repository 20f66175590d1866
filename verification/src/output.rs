//! The indenting output builder: a small text accumulator that the code
//! generator drives. It supports appending raw text, emitting the current
//! indentation, and moving one indentation level in or out.

use crate::text::push_char;
use vstd::prelude::*;
use vstd::string::StringExecFns;

verus! {

/// A run of `n` spaces.
pub open spec fn spaces(n: nat) -> Seq<char> {
    Seq::new(n, |i: int| ' ')
}

/// Accumulates generated text with a current indentation depth, measured in
/// `indent_size` spaces per level.
pub struct Output {
    pub output: String,
    pub indent_size: usize,
    pub current_indent: usize,
}

impl Output {
    /// An empty accumulator at the given size and depth.
    pub fn new(indent_size: usize, current_indent: usize) -> (r: Output)
        ensures
            r.output@ == Seq::<char>::empty(),
            r.indent_size == indent_size,
            r.current_indent == current_indent,
    {
        Output { output: String::new(), indent_size, current_indent }
    }

    /// Hand the accumulated text over.
    pub fn destruct(self) -> (r: String)
        ensures
            r@ == self.output@,
    {
        self.output
    }

    /// Append raw text.
    pub fn write(&mut self, string: &str)
        ensures
            final(self).output@ == old(self).output@ + string@,
            final(self).indent_size == old(self).indent_size,
            final(self).current_indent == old(self).current_indent,
    {
        self.output.append(string);
    }

    /// Append the current indentation: `current_indent` levels of
    /// `indent_size` spaces.
    pub fn write_indent(&mut self)
        requires
            old(self).indent_size <= 8,
            old(self).current_indent <= 8,
        ensures
            final(self).output@ == old(self).output@ + spaces(
                (old(self).indent_size * old(self).current_indent) as nat,
            ),
            final(self).indent_size == old(self).indent_size,
            final(self).current_indent == old(self).current_indent,
    {
        proof {
            let sz = self.indent_size;
            let d = self.current_indent;
            assert(sz * d <= 64) by (nonlinear_arith)
                requires
                    sz <= 8,
                    d <= 8,
            ;
        }
        let total = self.indent_size * self.current_indent;
        let mut i: usize = 0;
        while i < total
            invariant
                i <= total,
                self.indent_size == old(self).indent_size,
                self.current_indent == old(self).current_indent,
                self.output@ == old(self).output@ + spaces(i as nat),
            decreases total - i,
        {
            push_char(&mut self.output, ' ');
            i = i + 1;
            proof {
                assert(self.output@ =~= old(self).output@ + spaces(i as nat));
            }
        }
    }

    /// Move one indentation level in.
    pub fn increase_indent(&mut self)
        requires
            old(self).current_indent < usize::MAX,
        ensures
            final(self).output@ == old(self).output@,
            final(self).indent_size == old(self).indent_size,
            final(self).current_indent == old(self).current_indent + 1,
    {
        self.current_indent = self.current_indent + 1;
    }

    /// Move one indentation level out; never called at depth zero.
    pub fn decrease_indent(&mut self)
        requires
            old(self).current_indent > 0,
        ensures
            final(self).output@ == old(self).output@,
            final(self).indent_size == old(self).indent_size,
            final(self).current_indent == old(self).current_indent - 1,
    {
        self.current_indent = self.current_indent - 1;
    }
}

} // verus!

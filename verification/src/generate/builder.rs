//! Line-oriented code building with indentation tracking.

use vstd::prelude::*;

use crate::strutil::{repeat_str, spec_repeat};

verus! {

/// Helper to build a block of code line by line, with indentation.
pub struct CodeBuilder {
    code: String,
    indent_str: String,
    indent_level: usize,
}

impl CodeBuilder {
    /// The code built so far.
    pub closed spec fn spec_code(self) -> Seq<char> {
        self.code@
    }

    /// The string one level of indentation adds.
    pub closed spec fn spec_indent_str(self) -> Seq<char> {
        self.indent_str@
    }

    /// The current indentation depth.
    pub closed spec fn spec_indent_level(self) -> nat {
        self.indent_level as nat
    }

    pub fn new(indent_str: String) -> (r: Self)
        ensures
            r.spec_code() == Seq::<char>::empty(),
            r.spec_indent_str() == indent_str@,
            r.spec_indent_level() == 0,
    {
        CodeBuilder { code: String::new(), indent_str, indent_level: 0 }
    }

    pub fn push_indent(&mut self)
        requires
            old(self).spec_indent_level() < usize::MAX,
        ensures
            final(self).spec_indent_level() == old(self).spec_indent_level() + 1,
            final(self).spec_code() == old(self).spec_code(),
            final(self).spec_indent_str() == old(self).spec_indent_str(),
    {
        self.indent_level = self.indent_level + 1;
    }

    pub fn pop_indent(&mut self)
        requires
            old(self).spec_indent_level() > 0,
        ensures
            final(self).spec_indent_level() == old(self).spec_indent_level() - 1,
            final(self).spec_code() == old(self).spec_code(),
            final(self).spec_indent_str() == old(self).spec_indent_str(),
    {
        self.indent_level = self.indent_level - 1;
    }

    /// Appends one line: the current indentation, the text, a newline.
    pub fn add_line(&mut self, line: &str)
        ensures
            final(self).spec_code() == old(self).spec_code() + spec_repeat(
                old(self).spec_indent_str(),
                old(self).spec_indent_level(),
            ) + line@ + "\n"@,
            final(self).spec_indent_str() == old(self).spec_indent_str(),
            final(self).spec_indent_level() == old(self).spec_indent_level(),
    {
        let indent = repeat_str(self.indent_str.as_str(), self.indent_level);
        self.code.append(indent.as_str());
        self.code.append(line);
        self.code.append("\n");
    }

    /// Appends a bare newline.
    pub fn _newline(&mut self)
        ensures
            final(self).spec_code() == old(self).spec_code() + "\n"@,
            final(self).spec_indent_str() == old(self).spec_indent_str(),
            final(self).spec_indent_level() == old(self).spec_indent_level(),
    {
        self.code.append("\n");
    }

    /// Hands the built code out; all indentation must have been popped.
    pub fn build(self) -> (r: String)
        requires
            self.spec_indent_level() == 0,
        ensures
            r@ == self.spec_code(),
    {
        self.code
    }
}

} // verus!

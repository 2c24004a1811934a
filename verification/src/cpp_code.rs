//! The buffer that emitted source text is written to, one indented line at
//! a time.

use vstd::prelude::*;
use vstd::string::StringExecFns;

verus! {

/// The model of the buffer: the text so far and the indentation level.
pub struct Page {
    pub code: Seq<char>,
    pub tabs: usize,
}

/// The text that indents a line at level `n`: four spaces per level.
pub open spec fn indent(n: nat) -> Seq<char>
    decreases n,
{
    if n == 0 {
        Seq::empty()
    } else {
        indent((n - 1) as nat) + "    "@
    }
}

/// The page with one more line: indentation, the text, a line feed.
#[verifier::opaque]
pub open spec fn line(page: Page, text: Seq<char>) -> Page {
    Page { code: page.code + indent(page.tabs as nat) + text + "\n"@, tabs: page.tabs }
}

/// A line leaves the level as it is.
pub proof fn lemma_line_keeps_level(page: Page, text: Seq<char>)
    ensures
        line(page, text).tabs == page.tabs,
{
    reveal(line);
}

/// The page one level deeper. The level wraps at the machine word.
pub open spec fn raise(page: Page) -> Page {
    Page { code: page.code, tabs: page.tabs.wrapping_add(1) }
}

/// The page one level less deep. The level wraps at the machine word.
pub open spec fn lower(page: Page) -> Page {
    Page { code: page.code, tabs: page.tabs.wrapping_sub(1) }
}

/// The declaration of a local variable.
pub open spec fn var_def(name: Seq<char>) -> Seq<char> {
    "u8 "@ + name + ";"@
}

/// The buffer.
#[derive(Debug)]
pub struct CppCode {
    pub code: String,
    pub tab_count: usize,
}

impl View for CppCode {
    type V = Page;

    open spec fn view(&self) -> Page {
        Page { code: self.code@, tabs: self.tab_count }
    }
}

impl CppCode {
    pub fn new(code: String, tab_count: usize) -> (r: Self)
        ensures
            r@ == (Page { code: code@, tabs: tab_count }),
    {
        Self { code, tab_count }
    }

    /// One level deeper.
    pub fn enter(&mut self)
        ensures
            final(self)@ == raise(old(self)@),
    {
        self.tab_count = self.tab_count.wrapping_add(1);
    }

    /// One level less deep.
    pub fn leave(&mut self)
        ensures
            final(self)@ == lower(old(self)@),
    {
        self.tab_count = self.tab_count.wrapping_sub(1);
    }

    /// Appends text as it is.
    pub fn push(&mut self, new_code: &str)
        ensures
            final(self)@ == (Page { code: old(self)@.code + new_code@, tabs: old(self)@.tabs }),
    {
        self.code.append(new_code);
    }

    /// Appends the indentation of the current level.
    pub fn push_tab(&mut self)
        ensures
            final(self)@ == (Page {
                code: old(self)@.code + indent(old(self)@.tabs as nat),
                tabs: old(self)@.tabs,
            }),
    {
        let ghost start = self@;
        let mut i: usize = 0;
        assert(start.code + indent(0) =~= start.code);
        while i < self.tab_count
            invariant
                i <= self.tab_count,
                self.tab_count == start.tabs,
                self@.code == start.code + indent(i as nat),
            decreases self.tab_count - i,
        {
            self.push("    ");
            i += 1;
            assert(start.code + indent((i - 1) as nat) + "    "@ =~= start.code + indent(i as nat));
        }
    }

    /// Appends one line: indentation, the text, a line feed.
    pub fn push_line(&mut self, new_code: &str)
        ensures
            final(self)@ == line(old(self)@, new_code@),
    {
        reveal(line);
        self.push_tab();
        self.push(new_code);
        self.push("\n");
    }

    /// Appends the declaration of a local variable.
    pub fn push_var_def(&mut self, name: &str)
        ensures
            final(self)@ == line(old(self)@, var_def(name@)),
    {
        let mut text = String::from_str("u8 ");
        text.append(name);
        text.append(";");
        self.push_line(text.as_str());
    }
}

impl Default for CppCode {
    /// The empty buffer at level 0.
    fn default() -> (r: Self)
        ensures
            r@ == (Page { code: Seq::empty(), tabs: 0 }),
    {
        Self::new(String::new(), 0usize)
    }
}

} // verus!

//! A message log that only collects; printing is the caller's business.

use vstd::prelude::*;

use crate::strutil::views_of;

verus! {

/// Collects diagnostic messages during model building; the caller decides
/// where they go afterwards.
pub struct Logger {
    verbose: bool,
    messages: Vec<String>,
}

impl Logger {
    /// The messages recorded so far.
    pub closed spec fn spec_messages(self) -> Seq<Seq<char>> {
        views_of(self.messages@)
    }

    /// Whether verbose messages are kept.
    pub closed spec fn spec_verbose(self) -> bool {
        self.verbose
    }

    pub fn new(verbose: bool) -> (r: Self)
        ensures
            r.spec_verbose() == verbose,
            r.spec_messages() == Seq::<Seq<char>>::empty(),
    {
        let r = Logger { verbose, messages: Vec::new() };
        proof {
            assert(views_of(r.messages@) =~= Seq::<Seq<char>>::empty());
        }
        r
    }

    pub fn is_verbose(&self) -> (r: bool)
        ensures
            r == self.spec_verbose(),
    {
        self.verbose
    }

    /// Records a message unconditionally.
    pub fn log(&mut self, message: String)
        ensures
            final(self).spec_messages() == old(self).spec_messages().push(message@),
            final(self).spec_verbose() == old(self).spec_verbose(),
    {
        let ghost oldm = self.messages@;
        let ghost mv = message@;
        self.messages.push(message);
        proof {
            assert(views_of(self.messages@) =~= views_of(oldm).push(mv));
        }
    }

    /// Records a message only in verbose mode.
    pub fn log_verbose(&mut self, message: String)
        ensures
            final(self).spec_verbose() == old(self).spec_verbose(),
            old(self).spec_verbose() ==> final(self).spec_messages() == old(
                self,
            ).spec_messages().push(message@),
            !old(self).spec_verbose() ==> final(self).spec_messages() == old(
                self,
            ).spec_messages(),
    {
        if self.verbose {
            self.log(message);
        }
    }

    /// Records a lazily built message only in verbose mode; the builder runs
    /// only then.
    pub fn log_verbose_with<F: FnOnce() -> String>(&mut self, f: F)
        requires
            call_requires(f, ()),
        ensures
            final(self).spec_verbose() == old(self).spec_verbose(),
            !old(self).spec_verbose() ==> final(self).spec_messages() == old(
                self,
            ).spec_messages(),
            old(self).spec_verbose() ==> exists|m: String|
                call_ensures(f, (), m) && final(self).spec_messages() == old(
                    self,
                ).spec_messages().push(m@),
    {
        if self.verbose {
            let m = f();
            self.log(m);
        }
    }

    /// Hands out the collected messages and clears them.
    pub fn take_messages(&mut self) -> (r: Vec<String>)
        ensures
            views_of(r@) == old(self).spec_messages(),
            final(self).spec_messages() == Seq::<Seq<char>>::empty(),
            final(self).spec_verbose() == old(self).spec_verbose(),
    {
        let mut out: Vec<String> = Vec::new();
        core::mem::swap(&mut out, &mut self.messages);
        proof {
            assert(views_of(self.messages@) =~= Seq::<Seq<char>>::empty());
        }
        out
    }

    /// Read access to the collected messages.
    pub fn messages(&self) -> (r: &Vec<String>)
        ensures
            views_of(r@) == self.spec_messages(),
    {
        &self.messages
    }
}

} // verus!

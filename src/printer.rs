//! The text that the output shows: result lines, error lines and the prefix
//! that clears a progress line before anything else is written over it.
use vstd::prelude::*;
use vstd::string::*;

verus! {

/// How output is written: with progress shown, each write first clears the
/// progress line.
pub struct Printer {
    show_progress: bool,
    verbosity: u64,
    cleaner: &'static str,
}

impl Printer {
    pub closed spec fn spec_show_progress(&self) -> bool {
        self.show_progress
    }

    pub closed spec fn spec_verbosity(&self) -> u64 {
        self.verbosity
    }

    /// What each write begins with.
    pub closed spec fn prefix(&self) -> Seq<char> {
        self.cleaner@
    }

    pub fn new(show_progress: bool, verbosity: u64) -> (r: Self)
        ensures
            r.spec_show_progress() == show_progress,
            r.spec_verbosity() == verbosity,
            show_progress ==> r.prefix() == "\r\x1b[2K"@,
            !show_progress ==> r.prefix() == ""@,
    {
        let cleaner: &'static str;
        if show_progress {
            // back to the start of the line, then clear it
            cleaner = "\r\x1b[2K";
        } else {
            cleaner = "";
        }
        Printer { show_progress, verbosity, cleaner }
    }

    pub fn show_progress(&self) -> (r: bool)
        ensures
            r == self.spec_show_progress(),
    {
        self.show_progress
    }

    pub fn verbosity(&self) -> (r: u64)
        ensures
            r == self.spec_verbosity(),
    {
        self.verbosity
    }

    /// What each write begins with.
    pub fn cleaner(&self) -> (r: &'static str)
        ensures
            r@ == self.prefix(),
    {
        self.cleaner
    }

    /// The line that shows a URL.
    pub fn url_line(&self, url: &str) -> (r: String)
        ensures
            r@ == self.prefix() + url@,
    {
        let mut r = String::from_str(self.cleaner);
        r.append(url);
        r
    }

    /// The line that shows an error, written only when verbose.
    pub fn error_line(&self, err: &str) -> (r: Option<String>)
        ensures
            r is Some <==> self.spec_verbosity() > 0,
            r is Some ==> r->0@ == self.prefix() + "[-] "@ + err@ + ": "@,
    {
        if self.verbosity > 0 {
            let mut r = String::from_str(self.cleaner);
            r.append("[-] ");
            r.append(err);
            r.append(": ");
            Some(r)
        } else {
            None
        }
    }
}

} // verus!

//! Showing something until a key is pressed.

use vstd::prelude::*;
use super::{Back, Outcome, Quit};
use crate::terminal::event::Key;

verus! {

/// Something to show, and more to show under it if there is more.
#[derive(Debug)]
pub struct Info<'i, 'a, I: ?Sized, A: ?Sized> {
    info: &'i I,
    additional: Option<&'a A>,
}

impl<'i, 'a, I: ?Sized, A: ?Sized> Info<'i, 'a, I, A> {
    pub closed spec fn spec_info(&self) -> &'i I {
        self.info
    }

    pub closed spec fn spec_additional(&self) -> Option<&'a A> {
        self.additional
    }

    #[inline]
    #[must_use]
    pub fn new_with(info: &'i I, additional: Option<&'a A>) -> (r: Self)
        ensures
            r.spec_info() == info,
            r.spec_additional() == additional,
    {
        Self { info, additional }
    }

    #[must_use]
    #[inline]
    pub fn info(&self) -> (r: &'i I)
        ensures
            r == self.spec_info(),
    {
        self.info
    }

    #[must_use]
    #[inline]
    pub fn additional(&self) -> (r: Option<&'a A>)
        ensures
            r == self.spec_additional(),
    {
        self.additional
    }
}

impl<'i, I: ?Sized> Info<'i, 'i, I, str> {
    /// Something to show, and nothing more.
    #[inline]
    #[must_use]
    pub fn new(info: &'i I) -> (r: Self)
        ensures
            r.spec_info() == info,
            r.spec_additional() is None,
    {
        Self { info, additional: None }
    }
}

/// How the prompt ends on `key`: by going back, by quitting, or else, on any
/// other key, by going on.
pub open spec fn spec_info_decide(key: Key) -> Outcome<()> {
    if crate::terminal::event::spec_is_back(key) {
        Outcome::Back(Back)
    } else if crate::terminal::event::spec_is_quit(key) {
        Outcome::Quit(Quit)
    } else {
        Outcome::Answer(())
    }
}

/// How the prompt ends on `key`.
pub fn info_decide(key: &Key) -> (outcome: Outcome<()>)
    ensures
        outcome == spec_info_decide(*key),
{
    if crate::terminal::event::is_back(key) {
        Outcome::Back(Back)
    } else if crate::terminal::event::is_quit(key) {
        Outcome::Quit(Quit)
    } else {
        Outcome::Answer(())
    }
}

} // verus!

//! Choosing one of several choices.

use vstd::prelude::*;
use super::{Back, Decision, Outcome, Quit};
use crate::terminal::event::{Key, KeyCode};

verus! {

/// The most choices there can be.
pub const MAX_LEN: usize = 32767;

/// Why a number of choices will not do.
#[derive(Clone, Copy, PartialEq, Eq, Debug, Structural)]
pub enum ChoicesError {
    IsEmpty,
    TooLong,
}

/// What a number of choices is held to: there is one at least, and no more
/// than `MAX_LEN`.
pub open spec fn spec_check_choices_len(len: nat) -> Result<(), ChoicesError> {
    if len == 0 {
        Err(ChoicesError::IsEmpty)
    } else if len > MAX_LEN {
        Err(ChoicesError::TooLong)
    } else {
        Ok(())
    }
}

/// Holds a number of choices to what it must be.
#[inline]
pub fn check_choices_len(len: usize) -> (r: Result<(), ChoicesError>)
    ensures
        r == spec_check_choices_len(len as nat),
{
    if len == 0 {
        Err(ChoicesError::IsEmpty)
    } else if len > MAX_LEN {
        Err(ChoicesError::TooLong)
    } else {
        Ok(())
    }
}

/// Passes a number of choices that was held to what it must be.
#[inline]
pub fn unwrap_choices_check(r: Result<(), ChoicesError>)
    requires
        r is Ok,
{
}

/// Choices to choose from: one at least, and no more than `MAX_LEN`.
#[derive(Debug)]
pub struct Choices<'c, T> {
    items: &'c [T],
}

impl<'c, T> Clone for Choices<'c, T> {
    fn clone(&self) -> (r: Self)
        ensures
            r == *self,
    {
        proof {
            use_type_invariant(self);
        }
        Choices { items: self.items }
    }
}

impl<'c, T> Copy for Choices<'c, T> {

}

impl<'c, T> View for Choices<'c, T> {
    type V = Seq<T>;

    closed spec fn view(&self) -> Seq<T> {
        self.items@
    }
}

impl<'c, T> Choices<'c, T> {
    #[verifier::type_invariant]
    closed spec fn inv(self) -> bool {
        0 < self.items@.len() <= MAX_LEN
    }

    /// Holds the choices to what they must be. Choices that exist pass.
    pub fn check(&self) -> (r: Result<(), ChoicesError>)
        ensures
            r == spec_check_choices_len(self@.len()),
            r is Ok,
    {
        proof {
            use_type_invariant(self);
        }
        check_choices_len(self.items.len())
    }

    /// The choices `choices`, of which there are as many as there must be.
    pub fn new(choices: &'c [T]) -> (r: Self)
        requires
            spec_check_choices_len(choices@.len()) is Ok,
        ensures
            r@ == choices@,
    {
        Choices { items: choices }
    }

    /// The choices `choices`, if there are as many as there must be.
    pub fn try_new(choices: &'c [T]) -> (r: Result<Self, ChoicesError>)
        ensures
            match r {
                Ok(made) => spec_check_choices_len(choices@.len()) is Ok && made@ == choices@,
                Err(e) => spec_check_choices_len(choices@.len()) == Err::<(), ChoicesError>(e),
            },
    {
        match check_choices_len(choices.len()) {
            Ok(()) => Ok(Choices { items: choices }),
            Err(e) => Err(e),
        }
    }

    #[must_use]
    pub fn get(&self) -> (r: &'c [T])
        ensures
            r@ == self@,
    {
        self.items
    }

    /// The first choice.
    #[must_use]
    pub fn first(&self) -> (r: &'c T)
        ensures
            self@.len() > 0,
            *r == self@[0],
    {
        proof {
            use_type_invariant(self);
        }
        &self.items[0]
    }

    /// How many choices there are.
    #[inline]
    #[must_use]
    pub fn len(&self) -> (n: u16)
        ensures
            n == self@.len(),
            0 < n <= MAX_LEN,
    {
        proof {
            use_type_invariant(self);
        }
        self.items.len() as u16
    }
}

/// A question with choices to answer it.
#[derive(Debug)]
pub struct Select<'q, 'c, T, const IS_MAIN_MENU: bool> {
    question: &'q str,
    choices: Choices<'c, T>,
}

impl<'q, 'c, T, const IS_MAIN_MENU: bool> Select<'q, 'c, T, IS_MAIN_MENU> {
    pub closed spec fn spec_question(&self) -> Seq<char> {
        self.question@
    }

    pub closed spec fn spec_choices(&self) -> Seq<T> {
        self.choices@
    }

    /// Holds the choices to what they must be. Choices that exist pass.
    pub fn check(&self) -> (r: Result<(), ChoicesError>)
        ensures
            r == spec_check_choices_len(self.spec_choices().len()),
            r is Ok,
    {
        self.choices.check()
    }

    #[inline]
    #[must_use]
    pub fn new(question: &'q str, choices: Choices<'c, T>) -> (r: Self)
        ensures
            r.spec_question() == question@,
            r.spec_choices() == choices@,
    {
        Self { question, choices }
    }

    /// The question with `choices`, if there are as many as there must be.
    pub fn try_new(question: &'q str, choices: &'c [T]) -> (r: Result<Self, ChoicesError>)
        ensures
            match r {
                Ok(made) => spec_check_choices_len(choices@.len()) is Ok && made.spec_question()
                    == question@ && made.spec_choices() == choices@,
                Err(e) => spec_check_choices_len(choices@.len()) == Err::<(), ChoicesError>(e),
            },
    {
        match Choices::try_new(choices) {
            Ok(made) => Ok(Self { question, choices: made }),
            Err(e) => Err(e),
        }
    }

    #[must_use]
    #[inline]
    pub fn question(&self) -> (q: &'q str)
        ensures
            q@ == self.spec_question(),
    {
        self.question
    }

    #[inline]
    #[must_use]
    pub fn choices(&self) -> (c: Choices<'c, T>)
        ensures
            c@ == self.spec_choices(),
    {
        self.choices
    }

    /// Whether this is the menu from which there is no way back.
    pub fn is_main_menu(&self) -> (b: bool)
        ensures
            b == IS_MAIN_MENU,
    {
        IS_MAIN_MENU
    }

    /// The help shown under the choices.
    pub fn help(&self) -> (s: &'static str)
        ensures
            s@ == if IS_MAIN_MENU {
                super::consts::MAIN_MENU_SELECT_HELP@
            } else {
                super::consts::SELECT_HELP@
            },
    {
        if IS_MAIN_MENU {
            super::consts::MAIN_MENU_SELECT_HELP
        } else {
            super::consts::SELECT_HELP
        }
    }
}

/// The choice that a key moves to from choice `index` of `len`: up and down
/// go round, home and end go to the first and the last. None for a key that
/// moves nowhere.
pub open spec fn spec_moved(index: u16, len: u16, code: KeyCode) -> Option<u16> {
    match code {
        KeyCode::Up => Some(
            if index == 0 {
                (len - 1) as u16
            } else {
                (index - 1) as u16
            },
        ),
        KeyCode::Down => Some(
            if index >= len - 1 {
                0u16
            } else {
                (index + 1) as u16
            },
        ),
        KeyCode::Home => Some(0u16),
        KeyCode::End => Some((len - 1) as u16),
        _ => None,
    }
}

/// What the prompt does on `key` with choice `index` of `len` chosen. Enter
/// answers with the choice; going back and quitting come next; a key that
/// moves to another choice asks for that choice to be drawn as chosen.
pub open spec fn spec_select_decide(index: u16, len: u16, key: Key) -> Decision<u16, SelectMove> {
    if crate::terminal::event::spec_is_continue(key) {
        Decision::Done(Outcome::Answer(index))
    } else if crate::terminal::event::spec_is_back(key) {
        Decision::Done(Outcome::Back(Back))
    } else if crate::terminal::event::spec_is_quit(key) {
        Decision::Done(Outcome::Quit(Quit))
    } else {
        match spec_moved(index, len, key.0) {
            Some(to) => if to == index {
                Decision::Ignore
            } else {
                Decision::Redraw(SelectMove { from: index, to })
            },
            None => Decision::Ignore,
        }
    }
}

/// The choice that was chosen, and the one that is chosen now.
#[derive(Clone, Copy, Debug, PartialEq, Eq, Structural)]
pub struct SelectMove {
    pub from: u16,
    pub to: u16,
}

/// What the prompt does on `key` with choice `index` of `len` chosen.
pub fn select_decide(index: u16, len: u16, key: &Key) -> (d: Decision<u16, SelectMove>)
    requires
        index < len,
    ensures
        d == spec_select_decide(index, len, *key),
        d matches Decision::Redraw(m) ==> m.from == index && m.to < len && m.to != index,
        d matches Decision::Done(Outcome::Answer(i)) ==> i == index,
{
    if crate::terminal::event::is_continue(key) {
        return Decision::Done(Outcome::Answer(index));
    }
    if crate::terminal::event::is_back(key) {
        return Decision::Done(Outcome::Back(Back));
    }
    if crate::terminal::event::is_quit(key) {
        return Decision::Done(Outcome::Quit(Quit));
    }
    let end: u16 = len - 1;
    let to: u16 = match key.0 {
        KeyCode::Up => if index == 0 {
            end
        } else {
            index - 1
        },
        KeyCode::Down => if index >= end {
            0
        } else {
            index + 1
        },
        KeyCode::Home => 0,
        KeyCode::End => end,
        _ => {
            return Decision::Ignore;
        },
    };
    if to == index {
        Decision::Ignore
    } else {
        Decision::Redraw(SelectMove { from: index, to })
    }
}

/// The row of choice `index`, when the first choice stands on row `first`;
/// the last row that is counted if it would lie beyond.
pub fn choice_row(first: u16, index: u16) -> (row: u16)
    ensures
        row == crate::terminal::screen_area::saturating_row(first as int, index as int),
{
    if index <= u16::MAX - first {
        first + index
    } else {
        u16::MAX
    }
}

} // verus!

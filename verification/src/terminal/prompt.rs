//! Prompts: what each shows, and what it decides on each key.

use vstd::prelude::*;
use core::ops::ControlFlow;
use crate::terminal::screen_area::ScreenArea;
use crate::write::Write;

pub mod consts;
pub mod info;
pub mod select;
pub mod unsigned_int;
pub mod utils;

verus! {

/// The user backed out of the menu.
#[derive(Clone, Copy, Debug, PartialEq, Eq, Structural)]
#[must_use]
pub struct Back;

/// The user quit the program.
#[derive(Clone, Copy, Debug, PartialEq, Eq, Structural)]
#[must_use]
pub struct Quit;

/// How a prompt ends.
#[derive(Debug)]
pub enum Outcome<T> {
    /// The prompt was answered.
    Answer(T),
    /// The user wants to return to the menu before.
    Back(Back),
    /// The user wants to leave the program.
    Quit(Quit),
}

/// What a prompt does after a key.
#[derive(Debug)]
pub enum Decision<T, A> {
    /// The prompt ends.
    Done(Outcome<T>),
    /// The prompt goes on, after the screen was brought up to date in this
    /// way.
    Redraw(A),
    /// The key means nothing here.
    Ignore,
}

/// How a program ends: the user quit, or something failed.
pub type Terminate<E> = Result<Quit, E>;

/// The result of a prompt. `Continue(Continue(answer))`: the prompt was
/// answered. `Continue(Break(Back))`: the user wants to return to the menu
/// before. `Break(Ok(Quit))`: the user wants to leave the program.
/// `Break(Err(error))`: something failed and the program should end.
pub type PromptResult<T, E> = ControlFlow<Terminate<E>, ControlFlow<Back, T>>;

impl<T> Outcome<T> {
    /// The outcome as the result of a prompt.
    pub fn into_result<E>(self) -> (r: PromptResult<T, E>)
        ensures
            r == match self {
                Outcome::Answer(answer) => ControlFlow::<
                    Terminate<E>,
                    ControlFlow<Back, T>,
                >::Continue(ControlFlow::Continue(answer)),
                Outcome::Back(back) => ControlFlow::Continue(ControlFlow::Break(back)),
                Outcome::Quit(quit) => ControlFlow::Break(Ok(quit)),
            },
    {
        match self {
            Outcome::Answer(answer) => ControlFlow::Continue(ControlFlow::Continue(answer)),
            Outcome::Back(back) => ControlFlow::Continue(ControlFlow::Break(back)),
            Outcome::Quit(quit) => ControlFlow::Break(Ok(quit)),
        }
    }
}

/// The result of a prompt that could not write to the screen.
pub fn failed<T, E>(error: E) -> (r: PromptResult<T, E>)
    ensures
        r == ControlFlow::<Terminate<E>, ControlFlow<Back, T>>::Break(Err(error)),
{
    ControlFlow::Break(Err(error))
}

/// A prompt that can be shown in a screen area.
pub trait PromptWith<W: Write> {
    type Output;

    fn prompt_with(&self, screen_area: &mut ScreenArea<W>) -> PromptResult<Self::Output, W::Error>;
}

/// A prompt that can be shown on a screen of its own choosing.
pub trait Prompt<W: Write> {
    type Output;

    fn prompt(&self) -> PromptResult<Self::Output, W::Error>;
}

} // verus!

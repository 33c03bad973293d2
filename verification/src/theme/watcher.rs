//! The theme in use.
//!
//! It is resolved once, when it is first asked for. After that only a
//! configuration that was applied replaces it, so a file that is broken in
//! between cannot take it away.

use vstd::prelude::*;

use crate::theme::model;
use crate::theme::model::TerminalTheme;

verus! {

/// The theme in use, and a number that changes with it.
pub struct ThemeCache {
    theme: Option<TerminalTheme>,
    generation: u64,
}

/// A [`ThemeCache`] as a mathematical value.
pub struct Cached {
    pub theme: Option<TerminalTheme>,
    pub generation: u64,
}

impl View for ThemeCache {
    type V = Cached;

    closed spec fn view(&self) -> Cached {
        Cached { theme: self.theme, generation: self.generation }
    }
}

/// The number after `generation`; after the largest one comes zero.
pub open spec fn next_generation(generation: u64) -> int {
    if generation == u64::MAX {
        0
    } else {
        generation + 1
    }
}

impl Cached {
    /// What a question for the theme is answered when `resolved` stands ready.
    pub open spec fn answer(self, resolved: TerminalTheme) -> TerminalTheme {
        match self.theme {
            Some(t) => t,
            None => resolved,
        }
    }

    /// After a question for the theme.
    pub open spec fn asked(self, resolved: TerminalTheme) -> Cached {
        Cached { theme: Some(self.answer(resolved)), ..self }
    }

    /// After questions for the theme, one after the other.
    pub open spec fn asked_all(self, resolved: Seq<TerminalTheme>) -> Cached
        decreases resolved.len(),
    {
        if resolved.len() == 0 {
            self
        } else {
            self.asked_all(resolved.drop_last()).asked(resolved.last())
        }
    }

    /// With another theme in use.
    pub open spec fn applied(self, theme: TerminalTheme) -> Cached {
        Cached {
            theme: Some(theme),
            generation: next_generation(self.generation) as u64,
        }
    }
}

impl ThemeCache {
    /// No theme yet.
    pub fn new() -> (r: ThemeCache)
        ensures
            r@ == (Cached { theme: None, generation: 0 }),
    {
        ThemeCache { theme: None, generation: 0 }
    }

    /// The theme in use, if there is one.
    pub fn get(&self) -> (r: Option<TerminalTheme>)
        ensures
            r == self@.theme,
    {
        self.theme
    }

    /// The theme in use; `resolved` becomes it if there is none.
    pub fn get_or_insert(&mut self, resolved: TerminalTheme) -> (r: TerminalTheme)
        ensures
            r == old(self)@.answer(resolved),
            final(self)@ == old(self)@.asked(resolved),
    {
        match self.theme {
            Some(t) => t,
            None => {
                self.theme = Some(resolved);
                resolved
            },
        }
    }

    /// Replaces the theme in use.
    pub fn set(&mut self, theme: TerminalTheme)
        ensures
            final(self)@ == old(self)@.applied(theme),
    {
        self.theme = Some(theme);
        self.generation =
        if self.generation == u64::MAX {
            0
        } else {
            self.generation + 1
        };
    }

    /// Replaces the theme in use by the one that a configuration names: `named`
    /// if it names a known one, else `fallback`.
    pub fn set_from_config(&mut self, named: Option<TerminalTheme>, fallback: TerminalTheme)
        ensures
            final(self)@ == old(self)@.applied(configured(named, fallback)),
    {
        self.set(theme_for_config(named, fallback));
    }
}

/// The theme that a configuration names, as the application shows it.
pub open spec fn configured(
    named: Option<TerminalTheme>,
    fallback: TerminalTheme,
) -> TerminalTheme {
    match named {
        Some(t) => model::surfaced(t),
        None => model::surfaced(fallback),
    }
}

/// The theme that a configuration names, as the application shows it: `named`
/// if it names a known one, else `fallback`.
pub fn theme_for_config(named: Option<TerminalTheme>, fallback: TerminalTheme) -> (r:
    TerminalTheme)
    ensures
        r == configured(named, fallback),
{
    match named {
        Some(t) => model::apply_surface_overrides(t),
        None => model::apply_surface_overrides(fallback),
    }
}

/// A theme that was applied is what every later question is answered, whatever
/// else stands ready by then, and its number differs from the one before.
pub proof fn applied_themes_are_served(
    cache: Cached,
    theme: TerminalTheme,
    questions: Seq<TerminalTheme>,
    resolved: TerminalTheme,
)
    ensures
        cache.applied(theme).asked_all(questions).answer(resolved) == theme,
        cache.applied(theme).asked_all(questions).generation == cache.applied(theme).generation,
        cache.applied(theme).generation != cache.generation,
    decreases questions.len(),
{
    if questions.len() > 0 {
        applied_themes_are_served(cache, theme, questions.drop_last(), questions.last());
    }
}

/// The number that changes with the theme in use.
pub fn theme_generation(cache: &ThemeCache) -> (r: u64)
    ensures
        r == cache@.generation,
{
    cache.generation
}

/// Asking for the theme settles it: the first answer is what was resolved then, every
/// later one is the same whatever is resolved, and no view has to redraw for it.
pub proof fn the_first_answer_stands(
    cache: Cached,
    first: TerminalTheme,
    second: TerminalTheme,
)
    ensures
        cache.theme is None ==> cache.answer(first) == first,
        cache.theme is Some ==> cache.answer(first) == cache.theme->Some_0,
        cache.asked(first).answer(second) == cache.answer(first),
        cache.asked(first).theme == Some(cache.answer(first)),
        cache.asked(first).generation == cache.generation,
{
}

/// Applying a theme replaces the one in use, and every view sees that it did: the
/// generation is another one, the next number as long as there is one.
pub proof fn applied_themes_replace(cache: Cached, theme: TerminalTheme, resolved: TerminalTheme)
    ensures
        cache.applied(theme).theme == Some(theme),
        cache.applied(theme).answer(resolved) == theme,
        cache.applied(theme).generation != cache.generation,
        cache.generation < u64::MAX ==> cache.applied(theme).generation == cache.generation + 1,
        cache.generation == u64::MAX ==> cache.applied(theme).generation == 0,
{
}

/// A theme that was found by its name is shown, and the fallback only where there is
/// none; either as a theme is shown.
pub proof fn named_themes_come_first(named: TerminalTheme, fallback: TerminalTheme)
    ensures
        configured(Some(named), fallback) == model::surfaced(named),
        configured(None, fallback) == model::surfaced(fallback),
        named.ui is Some ==> configured(Some(named), fallback) == named,
        fallback.ui is Some ==> configured(None, fallback) == fallback,
{
}

} // verus!

//! Password categories, their length bounds and their toggleable options.

use core::ops::RangeInclusive;

use crate::list::Items;
use vstd::prelude::*;

verus! {

pub const PIN_MIN: usize = 3;
pub const PIN_MAX: usize = 12;
pub const RANDOM_MIN: usize = 8;
pub const RANDOM_MAX: usize = 100;

/// A flag of the random category that the user can toggle.
#[derive(Debug, Clone, Copy, PartialEq, Eq, Structural)]
pub enum Options {
    Numbers,
    Symbols,
}

/// A password category: digits only, or letters with optional digits and
/// symbols.
#[derive(Debug, Clone, PartialEq, Eq)]
pub enum PasswordType {
    Pin,
    Random { numbers: bool, symbols: bool, state: Items<Options> },
}

impl Options {
    pub fn name(&self) -> (r: &'static str)
        ensures
            r@ == (match self {
                Options::Numbers => "Numbers"@,
                Options::Symbols => "Symbols"@,
            }),
    {
        match self {
            Options::Numbers => "Numbers",
            Options::Symbols => "Symbols",
        }
    }
}

impl Default for PasswordType {
    fn default() -> (r: Self)
        ensures
            r is Pin,
    {
        PasswordType::Pin
    }
}

impl Default for Items<Options> {
    /// Both options, the first one selected.
    fn default() -> (r: Self)
        ensures
            r.items@ == seq![Options::Numbers, Options::Symbols],
            r.selected == Some(0usize),
    {
        let mut items: Vec<Options> = Vec::new();
        items.push(Options::Numbers);
        items.push(Options::Symbols);
        Items::new(items)
    }
}

impl Default for Items<PasswordType> {
    /// Pin, then Random with digits and symbols on; Pin selected.
    fn default() -> (r: Self)
        ensures
            r.items@.len() == 2,
            r.items@[0] is Pin,
            r.items@[1] matches PasswordType::Random { numbers, symbols, state }
                && numbers && symbols
                && state.items@ == seq![Options::Numbers, Options::Symbols]
                && state.selected == Some(0usize),
            r.selected == Some(0usize),
    {
        let mut items: Vec<PasswordType> = Vec::new();
        items.push(PasswordType::Pin);
        items.push(PasswordType::Random { numbers: true, symbols: true, state: Items::default() });
        Items::new(items)
    }
}

impl PasswordType {
    /// The toggle has an option to act on: always for Pin, and for Random
    /// when its option list has a valid selection.
    pub open spec fn toggle_ready(&self) -> bool {
        match self {
            PasswordType::Pin => true,
            PasswordType::Random { state, .. } => match state.selected {
                Some(c) => c < state.items@.len(),
                None => false,
            },
        }
    }

    pub fn name(&self) -> (r: &'static str)
        ensures
            r@ == (match self {
                PasswordType::Pin => "Pin"@,
                PasswordType::Random { .. } => "Random"@,
            }),
    {
        match self {
            PasswordType::Pin => "Pin",
            PasswordType::Random { .. } => "Random",
        }
    }

    /// The closed interval of lengths allowed for this category.
    pub fn get_range(&self) -> (r: RangeInclusive<usize>)
        ensures
            self is Pin ==> r@.start == PIN_MIN && r@.end == PIN_MAX,
            self is Random ==> r@.start == RANDOM_MIN && r@.end == RANDOM_MAX,
            !r@.exhausted,
    {
        match self {
            PasswordType::Pin => RangeInclusive::new(PIN_MIN, PIN_MAX),
            PasswordType::Random { .. } => RangeInclusive::new(RANDOM_MIN, RANDOM_MAX),
        }
    }

    /// Flips the flag of the selected option of a Random category; a Pin has
    /// nothing to toggle.
    pub fn handle_toggle(&mut self)
        requires
            old(self).toggle_ready(),
        ensures
            match *old(self) {
                PasswordType::Pin => *final(self) is Pin,
                PasswordType::Random { numbers, symbols, state } => {
                    let opt = state.items@[state.selected.unwrap() as int];
                    *final(self) == (PasswordType::Random {
                        numbers: if opt == Options::Numbers { !numbers } else { numbers },
                        symbols: if opt == Options::Symbols { !symbols } else { symbols },
                        state,
                    })
                },
            },
    {
        match self {
            PasswordType::Pin => {},
            PasswordType::Random { numbers, symbols, state } => {
                match state.get_selected() {
                    Some(Options::Numbers) => {
                        *numbers = !*numbers;
                    },
                    Some(Options::Symbols) => {
                        *symbols = !*symbols;
                    },
                    None => {},
                }
            },
        }
    }
}

} // verus!

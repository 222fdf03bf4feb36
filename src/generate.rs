//! Character classes and the generator that draws a string covering each
//! enabled class.

use rand::distributions::{Distribution, Slice, Uniform};
use rand::rngs::ThreadRng;
use rand::Rng;
use crate::password::PasswordType;
use vstd::prelude::*;

verus! {

#[verifier::external_type_specification]
#[verifier::external_body]
pub struct ExThreadRng(ThreadRng);

/// rand's per-thread generator; nothing is promised of its state.
pub assume_specification[ rand::thread_rng ]() -> ThreadRng;

/// Relies on rand's `Uniform::new_inclusive` for `char` and its `sample`:
/// a character of the closed range `[low, high]` (it panics if `low > high`).
#[verifier::external_body]
fn sample_between(rng: &mut ThreadRng, low: char, high: char) -> (r: char)
    requires
        (low as u32) <= (high as u32),
    ensures
        (low as u32) <= (r as u32) <= (high as u32),
{
    Uniform::new_inclusive(low, high).sample(rng)
}

/// Relies on rand's `Slice::new` and its `sample`: one element of a non-empty
/// slice (`new` fails only on an empty one).
#[verifier::external_body]
fn sample_slice(rng: &mut ThreadRng, items: &[char]) -> (r: char)
    requires
        items@.len() > 0,
    ensures
        items@.contains(r),
{
    *Slice::new(items).expect("slice is not empty").sample(rng)
}

/// Relies on rand's `Rng::gen_range` over `0..n`: an index below `n` (it
/// panics on an empty range).
#[verifier::external_body]
fn random_index(rng: &mut ThreadRng, n: usize) -> (r: usize)
    requires
        n > 0,
    ensures
        r < n,
{
    rng.gen_range(0..n)
}

/// Relies on `String::push`: the character is appended.
#[verifier::external_body]
fn push_char(s: &mut String, c: char)
    ensures
        final(s)@ == old(s)@.push(c),
{
    s.push(c)
}

/// The symbols a password may hold: printable ASCII punctuation without
/// whitespace, backtick, comma, period, quotes or backslash.
pub open spec fn symbol_chars() -> Seq<char> {
    seq!['!', '#', '$', '%', '&', '(', ')', '*', '+', '-', '/', ':', ';', '<', '=', '>', '?', '@', '[',
        ']', '^', '_', '{', '|', '}']
}

/// One pool of candidate characters.
#[derive(Debug, Clone, Copy, PartialEq, Eq, Structural)]
pub enum CharClass {
    Digits,
    Lower,
    Upper,
    Symbols,
}

pub open spec fn is_digit(c: char) -> bool {
    ('0' as u32) <= (c as u32) <= ('9' as u32)
}

pub open spec fn is_lower(c: char) -> bool {
    ('a' as u32) <= (c as u32) <= ('z' as u32)
}

pub open spec fn is_upper(c: char) -> bool {
    ('A' as u32) <= (c as u32) <= ('Z' as u32)
}

pub open spec fn is_symbol(c: char) -> bool {
    symbol_chars().contains(c)
}

/// Whether `c` belongs to `class`.
pub open spec fn in_class(class: CharClass, c: char) -> bool {
    match class {
        CharClass::Digits => is_digit(c),
        CharClass::Lower => is_lower(c),
        CharClass::Upper => is_upper(c),
        CharClass::Symbols => is_symbol(c),
    }
}

/// The enabled classes in their fixed order: digits, the two letter cases,
/// symbols.
pub open spec fn class_seq(numbers: bool, symbols: bool, letters: bool) -> Seq<CharClass> {
    (if numbers { seq![CharClass::Digits] } else { Seq::empty() })
        + (if letters { seq![CharClass::Lower, CharClass::Upper] } else { Seq::empty() })
        + (if symbols { seq![CharClass::Symbols] } else { Seq::empty() })
}

/// Whether `c` belongs to one of `classes`.
pub open spec fn in_any(classes: Seq<CharClass>, c: char) -> bool {
    exists|j: int| 0 <= j < classes.len() && in_class(#[trigger] classes[j], c)
}

/// What may stand at position `i`: one character of each class first, in
/// order, then a character of any class.
pub open spec fn fits_at(classes: Seq<CharClass>, i: int, c: char) -> bool {
    if i < classes.len() {
        in_class(classes[i], c)
    } else {
        in_any(classes, c)
    }
}

/// Every string the generator may produce from `classes` and `length`.
pub open spec fn drawn_from(classes: Seq<CharClass>, s: Seq<char>, length: nat) -> bool {
    &&& s.len() == length
    &&& forall|i: int| 0 <= i < s.len() ==> fits_at(classes, i, #[trigger] s[i])
}

impl CharClass {
    /// A character of this class, drawn uniformly.
    fn sample(&self, rng: &mut ThreadRng) -> (r: char)
        ensures
            in_class(*self, r),
    {
        match self {
            CharClass::Digits => sample_between(rng, '0', '9'),
            CharClass::Lower => sample_between(rng, 'a', 'z'),
            CharClass::Upper => sample_between(rng, 'A', 'Z'),
            CharClass::Symbols => {
                let symbols: [char; 25] = [
                    '!', '#', '$', '%', '&', '(', ')', '*', '+', '-', '/', ':', ';', '<', '=', '>',
                    '?', '@', '[', ']', '^', '_', '{', '|', '}',
                ];
                assert(symbols@ == symbol_chars());
                sample_slice(rng, &symbols)
            },
        }
    }
}

/// The enabled classes, in the order of `class_seq`.
fn get_distributions(numbers: bool, symbols: bool, letters: bool) -> (r: Vec<CharClass>)
    ensures
        r@ == class_seq(numbers, symbols, letters),
{
    let mut ranges: Vec<CharClass> = Vec::new();
    if numbers {
        ranges.push(CharClass::Digits);
    }
    if letters {
        ranges.push(CharClass::Lower);
        ranges.push(CharClass::Upper);
    }
    if symbols {
        ranges.push(CharClass::Symbols);
    }
    assert(ranges@ =~= class_seq(numbers, symbols, letters));
    ranges
}

/// A string of `length` characters: first one of each enabled class in
/// order, then characters of classes picked at random.
fn get_random_string(length: usize, numbers: bool, symbols: bool, letters: bool) -> (r: String)
    requires
        numbers || symbols || letters,
    ensures
        drawn_from(class_seq(numbers, symbols, letters), r@, length as nat),
{
    let distributions = get_distributions(numbers, symbols, letters);
    let ghost classes = distributions@;
    let k = distributions.len();
    let mut rng = rand::thread_rng();
    let mut out = String::new();
    let mut i: usize = 0;
    while i < length
        invariant
            i <= length,
            classes == class_seq(numbers, symbols, letters),
            distributions@ == classes,
            k == classes.len(),
            k > 0,
            out@.len() == i,
            forall|j: int| 0 <= j < i ==> fits_at(classes, j, #[trigger] out@[j]),
        decreases length - i,
    {
        let idx = if i < k {
            i
        } else {
            random_index(&mut rng, k)
        };
        let c = distributions[idx].sample(&mut rng);
        proof {
            if i >= k {
                assert(in_class(classes[idx as int], c));
            }
        }
        push_char(&mut out, c);
        i += 1;
    }
    out
}

impl PasswordType {
    /// The character classes this category draws from.
    pub open spec fn classes(&self) -> Seq<CharClass> {
        match self {
            PasswordType::Pin => class_seq(true, false, false),
            PasswordType::Random { numbers, symbols, .. } => class_seq(*numbers, *symbols, true),
        }
    }

    /// A fresh password of `length` characters for this category.
    pub fn generate(&self, length: usize) -> (r: String)
        ensures
            drawn_from(self.classes(), r@, length as nat),
            self is Pin ==> forall|i: int| 0 <= i < r@.len() ==> is_digit(#[trigger] r@[i]),
            (*self matches PasswordType::Random { numbers, symbols, .. } && numbers && symbols
                && length >= 4) ==> covers_all_classes(r@),
            (*self matches PasswordType::Random { numbers, symbols, .. } && !numbers && !symbols)
                ==> forall|i: int| 0 <= i < r@.len() ==> is_letter(#[trigger] r@[i]),
    {
        let r = match self {
            PasswordType::Pin => get_random_string(length, true, false, false),
            PasswordType::Random { numbers, symbols, .. } => get_random_string(
                length,
                *numbers,
                *symbols,
                true,
            ),
        };
        proof {
            match self {
                PasswordType::Pin => lemma_pin_digits(r@, length as nat),
                PasswordType::Random { numbers, symbols, .. } => {
                    if *numbers && *symbols && length >= 4 {
                        lemma_full_coverage(r@, length as nat);
                    }
                    if !*numbers && !*symbols {
                        lemma_letters_only(r@, length as nat);
                    }
                },
            }
        }
        r
    }
}

pub open spec fn is_letter(c: char) -> bool {
    is_lower(c) || is_upper(c)
}

/// At least one digit, one lowercase letter, one uppercase letter and one
/// symbol.
pub open spec fn covers_all_classes(s: Seq<char>) -> bool {
    &&& exists|i: int| 0 <= i < s.len() && is_digit(#[trigger] s[i])
    &&& exists|i: int| 0 <= i < s.len() && is_lower(#[trigger] s[i])
    &&& exists|i: int| 0 <= i < s.len() && is_upper(#[trigger] s[i])
    &&& exists|i: int| 0 <= i < s.len() && is_symbol(#[trigger] s[i])
}

/// A string drawn from the digit class alone has the requested length and
/// only digits.
pub proof fn lemma_pin_digits(s: Seq<char>, length: nat)
    requires
        drawn_from(class_seq(true, false, false), s, length),
    ensures
        s.len() == length,
        forall|i: int| 0 <= i < s.len() ==> is_digit(#[trigger] s[i]),
{
    let classes = class_seq(true, false, false);
    assert(classes =~= seq![CharClass::Digits]);
    assert forall|i: int| 0 <= i < s.len() implies is_digit(#[trigger] s[i]) by {
        assert(fits_at(classes, i, s[i]));
        if i >= classes.len() {
            let j = choose|j: int| 0 <= j < classes.len() && in_class(#[trigger] classes[j], s[i]);
            assert(j == 0);
        }
    }
}

/// A string of at least four characters drawn from all four classes holds a
/// character of each.
pub proof fn lemma_full_coverage(s: Seq<char>, length: nat)
    requires
        drawn_from(class_seq(true, true, true), s, length),
        length >= 4,
    ensures
        covers_all_classes(s),
{
    let classes = class_seq(true, true, true);
    assert(classes =~= seq![CharClass::Digits, CharClass::Lower, CharClass::Upper, CharClass::Symbols]);
    assert(fits_at(classes, 0, s[0]));
    assert(fits_at(classes, 1, s[1]));
    assert(fits_at(classes, 2, s[2]));
    assert(fits_at(classes, 3, s[3]));
}

/// A string drawn from the letter classes alone holds only ASCII letters.
pub proof fn lemma_letters_only(s: Seq<char>, length: nat)
    requires
        drawn_from(class_seq(false, false, true), s, length),
    ensures
        forall|i: int| 0 <= i < s.len() ==> is_letter(#[trigger] s[i]),
{
    let classes = class_seq(false, false, true);
    assert(classes =~= seq![CharClass::Lower, CharClass::Upper]);
    assert forall|i: int| 0 <= i < s.len() implies is_letter(#[trigger] s[i]) by {
        assert(fits_at(classes, i, s[i]));
        if i >= classes.len() {
            let j = choose|j: int| 0 <= j < classes.len() && in_class(#[trigger] classes[j], s[i]);
            assert(j == 0 || j == 1);
        }
    }
}

} // verus!

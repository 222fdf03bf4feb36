//! An ordered list of items with an optional cursor that moves cyclically.

use vstd::arithmetic::div_mod::{lemma_add_mod_noop_right, lemma_mod_add_multiples_vanish, lemma_small_mod};
use vstd::prelude::*;

verus! {

/// A navigation key, as far as a list cares about it.
#[derive(Debug, Clone, Copy, PartialEq, Eq, Structural)]
pub enum Key {
    Char(char),
    Up,
    Down,
    Other,
}

/// Items shown in order, with the index of the highlighted one.
#[derive(Debug, Clone, PartialEq, Eq)]
pub struct Items<T> {
    pub items: Vec<T>,
    pub selected: Option<usize>,
}

/// Cursor after one step forward in a list of `len` items.
pub open spec fn next_cursor(len: nat, sel: Option<int>) -> Option<int> {
    match sel {
        Some(c) => if len > 0 { Some((c + 1) % (len as int)) } else { Some(c) },
        None => None,
    }
}

/// Cursor after one step backward in a list of `len` items.
pub open spec fn prev_cursor(len: nat, sel: Option<int>) -> Option<int> {
    match sel {
        Some(c) => if len > 0 { Some((c - 1) % (len as int)) } else { Some(c) },
        None => None,
    }
}

/// The cursor as a mathematical value.
pub open spec fn cursor_int(sel: Option<usize>) -> Option<int> {
    match sel {
        Some(c) => Some(c as int),
        None => None,
    }
}

/// `k` steps forward from `sel` in a list of `len` items.
pub open spec fn next_n(len: nat, sel: Option<int>, k: nat) -> Option<int>
    decreases k,
{
    if k == 0 {
        sel
    } else {
        next_cursor(len, next_n(len, sel, (k - 1) as nat))
    }
}

impl<T> Items<T> {
    /// The cursor, if present, points at an item.
    pub open spec fn valid(&self) -> bool {
        match self.selected {
            Some(c) => c < self.items@.len(),
            None => true,
        }
    }

    /// A list over `items`, the first one selected if there is one.
    pub fn new(items: Vec<T>) -> (r: Self)
        ensures
            r.items@ == items@,
            r.selected == (if items@.len() > 0 { Some(0usize) } else { None::<usize> }),
            r.valid(),
    {
        let selected = if items.len() > 0 { Some(0usize) } else { None };
        Items { items, selected }
    }

    /// Moves the cursor to `index`, whether or not an item stands there.
    pub fn select(&mut self, index: usize)
        ensures
            final(self).items@ == old(self).items@,
            final(self).selected == Some(index),
    {
        self.selected = Some(index);
    }

    /// The item under the cursor, if the cursor points at one.
    pub fn get_selected(&self) -> (r: Option<&T>)
        ensures
            match self.selected {
                Some(c) => if c < self.items@.len() {
                    r == Some(&self.items@[c as int])
                } else {
                    r.is_none()
                },
                None => r.is_none(),
            },
    {
        match self.selected {
            Some(c) => if c < self.items.len() {
                Some(&self.items[c])
            } else {
                None
            },
            None => None,
        }
    }

    /// One step forward, from the last item to the first.
    pub fn next(&mut self)
        ensures
            final(self).items@ == old(self).items@,
            cursor_int(final(self).selected) == next_cursor(old(self).items@.len(), cursor_int(old(self).selected)),
            old(self).valid() ==> final(self).valid(),
    {
        let len = self.items.len();
        if let Some(c) = self.selected {
            if len > 0 {
                let n = (c % len + 1) % len;
                assert(n == (c + 1) % (len as int)) by {
                    lemma_add_mod_noop_right(1, c as int, len as int);
                }
                self.selected = Some(n);
            }
        }
    }

    /// One step back, from the first item to the last.
    pub fn previous(&mut self)
        ensures
            final(self).items@ == old(self).items@,
            cursor_int(final(self).selected) == prev_cursor(old(self).items@.len(), cursor_int(old(self).selected)),
            old(self).valid() ==> final(self).valid(),
    {
        let len = self.items.len();
        if let Some(c) = self.selected {
            if len > 0 {
                let m = c % len;
                let p = if m == 0 { len - 1 } else { m - 1 };
                assert(p == (c - 1) % (len as int)) by {
                    lemma_add_mod_noop_right(-1, c as int, len as int);
                    if m == 0 {
                        lemma_mod_add_multiples_vanish(-1, len as int);
                        lemma_small_mod((len - 1) as nat, len as nat);
                    } else {
                        lemma_small_mod((m - 1) as nat, len as nat);
                    }
                }
                self.selected = Some(p);
            }
        }
    }

    /// Down or `j` moves forward, Up or `k` moves back; other keys do nothing.
    pub fn handle_key_event(&mut self, event: Key)
        ensures
            final(self).items@ == old(self).items@,
            cursor_int(final(self).selected) == (match event {
                Key::Char('j') | Key::Down => next_cursor(old(self).items@.len(), cursor_int(old(self).selected)),
                Key::Char('k') | Key::Up => prev_cursor(old(self).items@.len(), cursor_int(old(self).selected)),
                _ => cursor_int(old(self).selected),
            }),
    {
        match event {
            Key::Char('j') | Key::Down => self.next(),
            Key::Char('k') | Key::Up => self.previous(),
            _ => {},
        }
    }
}

/// Where `c` is an index of a list of `len` items, `k` steps forward land on
/// `(c + k) mod len`.
pub proof fn lemma_next_n_index(len: nat, c: int, k: nat)
    requires
        len > 0,
        0 <= c < len,
    ensures
        next_n(len, Some(c), k) == Some((c + k) % (len as int)),
    decreases k,
{
    if k == 0 {
        lemma_small_mod(c as nat, len);
    } else {
        lemma_next_n_index(len, c, (k - 1) as nat);
        lemma_add_mod_noop_right(1, c + k - 1, len as int);
    }
}

/// In a non-empty list whose cursor is valid, as many steps forward as there
/// are items bring the cursor back where it was.
pub proof fn lemma_next_cycle<T>(s: &Items<T>)
    requires
        s.items@.len() > 0,
        s.valid(),
    ensures
        next_n(s.items@.len(), cursor_int(s.selected), s.items@.len()) == cursor_int(s.selected),
{
    let len = s.items@.len();
    if let Some(c) = s.selected {
        lemma_next_n_index(len, c as int, len);
        lemma_mod_add_multiples_vanish(c as int, len as int);
        lemma_small_mod(c as nat, len);
    } else {
        lemma_next_n_none(len, len);
    }
}

/// Without a cursor, steps forward keep it absent.
pub proof fn lemma_next_n_none(len: nat, k: nat)
    ensures
        next_n(len, None, k) == None::<int>,
    decreases k,
{
    if k > 0 {
        lemma_next_n_none(len, (k - 1) as nat);
    }
}

/// In a non-empty list whose cursor is valid, a step forward and a step back,
/// in either order, leave the cursor where it was.
pub proof fn lemma_next_previous_inverse<T>(s: &Items<T>)
    requires
        s.items@.len() > 0,
        s.valid(),
    ensures
        prev_cursor(s.items@.len(), next_cursor(s.items@.len(), cursor_int(s.selected))) == cursor_int(s.selected),
        next_cursor(s.items@.len(), prev_cursor(s.items@.len(), cursor_int(s.selected))) == cursor_int(s.selected),
{
    let len = s.items@.len() as int;
    if let Some(c) = s.selected {
        let c = c as int;
        lemma_add_mod_noop_right(-1, c + 1, len);
        lemma_add_mod_noop_right(1, c - 1, len);
        lemma_small_mod(c as nat, len as nat);
    }
}

/// A step back from the first item lands on the last one.
pub proof fn lemma_previous_from_first<T>(s: &Items<T>)
    requires
        s.items@.len() > 0,
        s.selected == Some(0usize),
    ensures
        prev_cursor(s.items@.len(), cursor_int(s.selected)) == Some(s.items@.len() - 1),
{
    let len = s.items@.len() as int;
    lemma_mod_add_multiples_vanish(-1, len);
    lemma_small_mod((len - 1) as nat, len as nat);
}

} // verus!

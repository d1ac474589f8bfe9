//! Character scanner: wraps a source string and exposes a one-character
//! lookahead/consume interface, a position counted in Unicode scalar
//! values, and a one-slot marker from which the exact substring scanned
//! since the marker was set can be retrieved.

use vstd::prelude::*;
use vstd::string::StrSliceExecFns;

verus! {

/// `ChScanner` wraps a string slice reference and provides a character
/// cursor with a position and a one-slot marker.
pub struct ChScanner<'a> {
    text: &'a str,
    length: usize,
    pos: usize,
    marker: Option<usize>,
}

impl<'a> ChScanner<'a> {
    /// The scanned text, as a sequence of Unicode scalar values.
    pub closed spec fn src(self) -> Seq<char> {
        self.text@
    }

    /// Index of the next character to be scanned.
    pub closed spec fn cursor(self) -> nat {
        self.pos as nat
    }

    /// The recorded marker position, if one is set.
    pub closed spec fn marker_pos(self) -> Option<nat> {
        match self.marker {
            Some(m) => Some(m as nat),
            None => None,
        }
    }

    /// The cached character count agrees with the text.
    pub closed spec fn length_ok(self) -> bool {
        self.length == self.text@.len()
    }

    /// Well-formedness: the cursor is inside the text and the marker, if
    /// set, does not lie ahead of the cursor.
    pub open spec fn wf(self) -> bool {
        &&& self.length_ok()
        &&& self.src().len() <= usize::MAX
        &&& self.cursor() <= self.src().len()
        &&& match self.marker_pos() {
            Some(m) => m <= self.cursor(),
            None => true,
        }
    }

    /// Creates a new initialized `ChScanner` over the given text.
    pub fn new_from_str(text: &'a str) -> (s: Self)
        ensures
            s.wf(),
            s.src() == text@,
            s.cursor() == 0,
            s.marker_pos() is None,
    {
        let length = text.unicode_len();
        ChScanner { text, length, pos: 0, marker: None }
    }

    /// Returns the index of the next to be scanned Unicode scalar value.
    pub fn position(&self) -> (p: usize)
        requires
            self.wf(),
        ensures
            p == self.cursor(),
    {
        self.pos
    }

    /// Returns the next character without consuming it, or `None` at the
    /// end of the text. Repeated calls without an interleaving `next`
    /// return the same result and change nothing.
    pub fn peek(&mut self) -> (c: Option<char>)
        requires
            old(self).wf(),
        ensures
            *final(self) == *old(self),
            c == (if old(self).cursor() < old(self).src().len() {
                Some(old(self).src()[old(self).cursor() as int])
            } else {
                None::<char>
            }),
    {
        if self.pos < self.length {
            Some(self.text.get_char(self.pos))
        } else {
            None
        }
    }

    /// Returns and consumes the next character, advancing the position by
    /// exactly one scalar value; returns `None` at the end of the text
    /// without advancing.
    pub fn next(&mut self) -> (c: Option<char>)
        requires
            old(self).wf(),
        ensures
            final(self).wf(),
            final(self).src() == old(self).src(),
            final(self).marker_pos() == old(self).marker_pos(),
            old(self).cursor() < old(self).src().len() ==> {
                &&& c == Some(old(self).src()[old(self).cursor() as int])
                &&& final(self).cursor() == old(self).cursor() + 1
            },
            old(self).cursor() >= old(self).src().len() ==> {
                &&& c is None
                &&& final(self).cursor() == old(self).cursor()
            },
    {
        if self.pos < self.length {
            let c = self.text.get_char(self.pos);
            self.pos = self.pos + 1;
            Some(c)
        } else {
            None
        }
    }

    /// Sets the marker at the current position, overwriting any previous
    /// marker.
    pub fn set_marker(&mut self)
        requires
            old(self).wf(),
        ensures
            final(self).wf(),
            final(self).src() == old(self).src(),
            final(self).cursor() == old(self).cursor(),
            final(self).marker_pos() == Some(old(self).cursor()),
    {
        self.marker = Some(self.pos);
    }

    /// Clears the marker; has no effect when no marker is set.
    pub fn clr_marker(&mut self)
        requires
            old(self).wf(),
        ensures
            final(self).wf(),
            final(self).src() == old(self).src(),
            final(self).cursor() == old(self).cursor(),
            final(self).marker_pos() is None,
    {
        self.marker = None;
    }

    /// Returns `true` when a marker is currently set, otherwise `false`.
    pub fn is_marker_set(&self) -> (b: bool)
        requires
            self.wf(),
        ensures
            b == (self.marker_pos() is Some),
    {
        self.marker.is_some()
    }

    /// Returns the substring from the marker up to (not including) the
    /// current position. A marker must be set.
    pub fn str_from_marker(&self) -> (r: &'a str)
        requires
            self.wf(),
            self.marker_pos() is Some,
        ensures
            r@ == self.src().subrange(
                self.marker_pos()->0 as int,
                self.cursor() as int,
            ),
    {
        let m = match self.marker {
            Some(m) => m,
            None => 0,
        };
        self.text.substring_char(m, self.pos)
    }

    /// Returns the position recorded when the marker was set. A marker
    /// must be set.
    pub fn pos_marker(&self) -> (p: usize)
        requires
            self.wf(),
            self.marker_pos() is Some,
        ensures
            p == self.marker_pos()->0,
    {
        match self.marker {
            Some(m) => m,
            None => 0,
        }
    }
}

} // verus!

use vstd::prelude::*;

use crate::document::Document;
use crate::prefix::{digit_of, is_digit, resolve, resolve_spec, fold_digits_sat};
use crate::sat::{sat_add_usize, sat_sub_usize};
use crate::scroll::ScrollState;

verus! {

/// Which loop owns the next key: the motion interpreter or the URL
/// entry field.
#[derive(Clone, Copy, PartialEq, Eq, Structural, Debug)]
pub enum Mode {
    Browsing,
    EditingUrl,
}

/// A key event, reduced to what the viewer distinguishes.
#[derive(Clone, Copy, PartialEq, Eq, Structural, Debug)]
pub enum Key {
    Char(char),
    Esc,
    Enter,
    Other,
}

/// What the caller must do after a key is interpreted.
#[derive(Clone, Copy, PartialEq, Eq, Structural, Debug)]
pub enum Action {
    /// Nothing beyond the normal redraw.
    Continue,
    /// Leave the run loop.
    Quit,
    /// Open the URL entry overlay.
    OpenUrlEntry,
    /// Hand the entered URL to the fetch pipeline.
    SubmitUrl,
    /// Route the event to the URL entry field.
    EditInput,
}

/// The viewer's whole mutable state: the mode, the scroll offsets, the
/// pending numeric prefix, and the document on display.
pub struct Browser {
    pub mode: Mode,
    pub scroll: ScrollState,
    pub buffer: Vec<u8>,
    pub document: Option<Document>,
}

/// `f` keeps `b`'s mode and document.
pub open spec fn keeps_doc_mode(b: Browser, f: Browser) -> bool {
    f.mode == b.mode && f.document == b.document
}

/// `f` is `b` after a motion: offsets at `v` and `h`, content bounds
/// kept, the prefix buffer consumed.
pub open spec fn moved(b: Browser, f: Browser, v: usize, h: usize) -> bool {
    keeps_doc_mode(b, f) && f.scroll.vertical == v && f.scroll.horizontal == h
        && f.scroll.vertical_content_length == b.scroll.vertical_content_length
        && f.scroll.horizontal_content_length == b.scroll.horizontal_content_length
        && f.buffer@ == Seq::<u8>::empty()
}

/// `f` is `b` after an absolute vertical jump to `v`: everything else,
/// the prefix buffer included, kept.
pub open spec fn jumped(b: Browser, f: Browser, v: int) -> bool {
    keeps_doc_mode(b, f) && f.scroll.vertical == v && f.scroll.horizontal == b.scroll.horizontal
        && f.scroll.vertical_content_length == b.scroll.vertical_content_length
        && f.scroll.horizontal_content_length == b.scroll.horizontal_content_length
        && f.buffer@ == b.buffer@
}

/// `f` is `b`, untouched.
pub open spec fn unchanged(b: Browser, f: Browser) -> bool {
    keeps_doc_mode(b, f) && f.scroll == b.scroll && f.buffer@ == b.buffer@
}

/// `f` is `b` back in browsing mode, everything else kept.
pub open spec fn to_browsing(b: Browser, f: Browser) -> bool {
    f.mode == Mode::Browsing && f.document == b.document && f.scroll == b.scroll && f.buffer@
        == b.buffer@
}

/// How one key moves the browsing state `b` to `f` with action `a`:
/// digits accumulate in the prefix buffer; `j`/`k` and `h`/`l` scroll by
/// the resolved count, saturating, and consume the buffer; `g` jumps to
/// the top whatever the prior offset or buffer; `G` jumps to the
/// document's line count and is a no-op without a document; `s` opens
/// URL entry; `q` and Escape quit; anything else does nothing.
pub open spec fn browsing_step(b: Browser, key: Key, f: Browser, a: Action) -> bool {
    match key {
        Key::Char(c) => {
            if c == 'q' {
                unchanged(b, f) && a == Action::Quit
            } else if c == 'j' {
                moved(
                    b,
                    f,
                    sat_add_usize(b.scroll.vertical, resolve_spec(b.buffer@)),
                    b.scroll.horizontal,
                ) && a == Action::Continue
            } else if c == 'k' {
                moved(
                    b,
                    f,
                    sat_sub_usize(b.scroll.vertical, resolve_spec(b.buffer@)),
                    b.scroll.horizontal,
                ) && a == Action::Continue
            } else if c == 'h' {
                moved(
                    b,
                    f,
                    b.scroll.vertical,
                    sat_sub_usize(b.scroll.horizontal, resolve_spec(b.buffer@)),
                ) && a == Action::Continue
            } else if c == 'l' {
                moved(
                    b,
                    f,
                    b.scroll.vertical,
                    sat_add_usize(b.scroll.horizontal, resolve_spec(b.buffer@)),
                ) && a == Action::Continue
            } else if c == 'g' {
                jumped(b, f, 0) && a == Action::Continue
            } else if c == 'G' {
                (match b.document {
                    Some(d) => jumped(b, f, d.lines@.len() as int),
                    None => unchanged(b, f),
                }) && a == Action::Continue
            } else if c == 's' {
                f.mode == Mode::EditingUrl && f.document == b.document && f.scroll == b.scroll
                    && f.buffer@ == b.buffer@ && a == Action::OpenUrlEntry
            } else if is_digit(c) {
                keeps_doc_mode(b, f) && f.scroll == b.scroll && f.buffer@ == b.buffer@.push(
                    digit_of(c),
                ) && a == Action::Continue
            } else {
                unchanged(b, f) && a == Action::Continue
            }
        },
        Key::Esc => unchanged(b, f) && a == Action::Quit,
        Key::Enter => unchanged(b, f) && a == Action::Continue,
        Key::Other => unchanged(b, f) && a == Action::Continue,
    }
}

/// How one key moves the URL entry state `b` to `f` with action `a`:
/// Enter confirms and hands the URL on, Escape abandons the entry, and
/// every other key belongs to the text field.
pub open spec fn editing_step(b: Browser, key: Key, f: Browser, a: Action) -> bool {
    match key {
        Key::Enter => to_browsing(b, f) && a == Action::SubmitUrl,
        Key::Esc => to_browsing(b, f) && a == Action::Continue,
        _ => unchanged(b, f) && a == Action::EditInput,
    }
}

impl Browser {
    /// The prefix buffer holds decimal digit values only.
    pub open spec fn wf(&self) -> bool {
        forall|i: int| 0 <= i < self.buffer@.len() ==> self.buffer@[i] < 10
    }

    /// A fresh browsing state: no document, origin offsets, empty
    /// prefix buffer.
    pub fn new() -> (b: Browser)
        ensures
            b.wf(),
            b.mode == Mode::Browsing,
            b.buffer@ == Seq::<u8>::empty(),
            b.document is None,
            b.scroll.vertical == 0 && b.scroll.horizontal == 0,
            b.scroll.vertical_content_length == 0 && b.scroll.horizontal_content_length == 0,
    {
        let b = Browser { mode: Mode::Browsing, scroll: ScrollState::new(), buffer: Vec::new(), document: None };
        proof {
            assert(b.buffer@ =~= Seq::<u8>::empty());
        }
        b
    }

    /// Interprets one key event in the current mode, per
    /// `browsing_step` and `editing_step`.
    pub fn on_key(&mut self, key: Key) -> (a: Action)
        requires
            old(self).wf(),
        ensures
            final(self).wf(),
            old(self).mode == Mode::Browsing ==> browsing_step(*old(self), key, *final(self), a),
            old(self).mode == Mode::EditingUrl ==> editing_step(*old(self), key, *final(self), a),
    {
        match self.mode {
            Mode::Browsing => {
                match key {
                    Key::Char(c) => {
                        if c == 'q' {
                            Action::Quit
                        } else if c == 'j' {
                            let count = resolve(&self.buffer);
                            self.scroll.scroll_down(count);
                            self.buffer.clear();
                            proof {
                                assert(self.buffer@ =~= Seq::<u8>::empty());
                            }
                            Action::Continue
                        } else if c == 'k' {
                            let count = resolve(&self.buffer);
                            self.scroll.scroll_up(count);
                            self.buffer.clear();
                            proof {
                                assert(self.buffer@ =~= Seq::<u8>::empty());
                            }
                            Action::Continue
                        } else if c == 'h' {
                            let count = resolve(&self.buffer);
                            self.scroll.scroll_left(count);
                            self.buffer.clear();
                            proof {
                                assert(self.buffer@ =~= Seq::<u8>::empty());
                            }
                            Action::Continue
                        } else if c == 'l' {
                            let count = resolve(&self.buffer);
                            self.scroll.scroll_right(count);
                            self.buffer.clear();
                            proof {
                                assert(self.buffer@ =~= Seq::<u8>::empty());
                            }
                            Action::Continue
                        } else if c == 'g' {
                            self.scroll.jump_top();
                            Action::Continue
                        } else if c == 'G' {
                            if let Some(d) = &self.document {
                                let n = d.line_count();
                                self.scroll.jump_bottom(n);
                            }
                            Action::Continue
                        } else if c == 's' {
                            self.mode = Mode::EditingUrl;
                            Action::OpenUrlEntry
                        } else {
                            let u = c as u32;
                            if 48 <= u && u <= 57 {
                                let d = (u - 48) as u8;
                                self.buffer.push(d);
                            }
                            Action::Continue
                        }
                    },
                    Key::Esc => Action::Quit,
                    Key::Enter => Action::Continue,
                    Key::Other => Action::Continue,
                }
            },
            Mode::EditingUrl => {
                match key {
                    Key::Enter => {
                        self.mode = Mode::Browsing;
                        Action::SubmitUrl
                    },
                    Key::Esc => {
                        self.mode = Mode::Browsing;
                        Action::Continue
                    },
                    _ => Action::EditInput,
                }
            },
        }
    }

    /// Replaces the displayed document wholesale with a freshly fetched
    /// one; scroll offsets, buffer and mode are kept.
    pub fn install_document(&mut self, doc: Document)
        requires
            old(self).wf(),
        ensures
            final(self).wf(),
            final(self).document == Some(doc),
            final(self).mode == old(self).mode,
            final(self).scroll == old(self).scroll,
            final(self).buffer@ == old(self).buffer@,
    {
        self.document = Some(doc);
    }

    /// Refreshes the per-frame content bounds: the document's line count
    /// (zero without a document) vertically, the viewport height
    /// horizontally.
    pub fn on_frame(&mut self, viewport_height: usize)
        requires
            old(self).wf(),
        ensures
            final(self).wf(),
            final(self).mode == old(self).mode,
            final(self).document == old(self).document,
            final(self).buffer@ == old(self).buffer@,
            final(self).scroll.vertical == old(self).scroll.vertical,
            final(self).scroll.horizontal == old(self).scroll.horizontal,
            final(self).scroll.vertical_content_length == (match old(self).document {
                Some(d) => d.lines@.len() as int,
                None => 0int,
            }),
            final(self).scroll.horizontal_content_length == viewport_height,
    {
        let lines = match &self.document {
            Some(d) => d.line_count(),
            None => 0,
        };
        self.scroll.set_content_lengths(lines, viewport_height);
    }
}

/// The vertical offset after `n` single `j` presses starting from `v0`.
pub open spec fn j_presses(v0: usize, n: nat) -> usize
    decreases n,
{
    if n == 0 {
        v0
    } else {
        sat_add_usize(j_presses(v0, (n - 1) as nat), 1)
    }
}

/// With no pending digits a `j` press resolves to a count of one (see
/// `browsing_step`), so `n` presses in a row move the vertical offset
/// from `v0` to exactly `v0 + n`, saturating at `usize::MAX` instead of
/// overflowing.
pub proof fn lemma_j_presses(v0: usize, n: nat)
    ensures
        resolve_spec(Seq::<u8>::empty()) == 1,
        j_presses(v0, n) == if v0 + n <= usize::MAX {
            (v0 + n) as usize
        } else {
            usize::MAX
        },
    decreases n,
{
    assert(fold_digits_sat(Seq::<u8>::empty()) == 0);
    if n > 0 {
        lemma_j_presses(v0, (n - 1) as nat);
    }
}

/// One `j` press on an empty prefix buffer moves the vertical offset
/// down by exactly one, saturating: the single step of `j_presses`.
pub proof fn lemma_j_step_with_empty_buffer(b: Browser, f: Browser, a: Action)
    requires
        b.buffer@ == Seq::<u8>::empty(),
        browsing_step(b, Key::Char('j'), f, a),
    ensures
        f.scroll.vertical == sat_add_usize(b.scroll.vertical, 1),
        f.scroll.vertical == j_presses(b.scroll.vertical, 1),
{
    assert(fold_digits_sat(Seq::<u8>::empty()) == 0);
    assert(j_presses(b.scroll.vertical, 0) == b.scroll.vertical);
}

} // verus!

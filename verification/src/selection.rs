//! The selection of a text widget, and how clicks and drags change it.

use vstd::prelude::*;
use vstd::std_specs::convert::FromSpec;
use vstd::std_specs::convert::FromSpecImpl;

use crate::boundary::SelectionBoundary;
use crate::cursor::{CCursorRange, Cursor, CursorRange};
use crate::galley::{Galley, GalleyView};
use crate::galley_laws::rewrapping_keeps_offsets;

verus! {

/// The selection as it is kept: in one form at a time.
#[derive(Clone, Copy, Debug, PartialEq, Eq, Structural)]
pub enum StoredRange {
    /// Nothing is selected.
    Empty,
    /// Two positions of a layout, of which the paragraph positions count.
    Laid(CursorRange),
    /// Two character offsets.
    Chars(CCursorRange),
}

/// What one frame tells about the pointer and the widget under it.
#[derive(Clone, Copy, Debug, PartialEq, Eq, Structural)]
pub struct PointerInput {
    /// The widget was double-clicked in this frame.
    pub double_clicked: bool,
    /// The widget was clicked in this frame.
    pub clicked: bool,
    /// Some pointer button is held down.
    pub any_down: bool,
    /// The last click is longer ago than two halves of a double click may
    /// be apart.
    pub click_delay_passed: bool,
    /// The widget reacts to drags.
    pub senses_drag: bool,
    /// The pointer is over the widget.
    pub hovered: bool,
    /// Some pointer button went down in this frame.
    pub any_pressed: bool,
    /// The shift key is held down.
    pub shift: bool,
}

/// What a [`TextCursorState`] holds.
pub struct SelectionView {
    pub range: StoredRange,
    /// The selection that the drag in progress began with.
    pub initial_cursor_range: Option<CursorRange>,
    pub selection_boundary: SelectionBoundary,
}

impl GalleyView {
    /// The two ends of `range`, each placed in this layout by its offset.
    pub open spec fn cursor_range(self, range: CCursorRange) -> CursorRange {
        CursorRange {
            primary: self.from_ccursor(range.primary),
            secondary: self.from_ccursor(range.secondary),
        }
    }

    /// What a press or a drag at `at` selects at the granularity `boundary`:
    /// the position alone, or the word or line around it.
    pub open spec fn bounded_range(self, boundary: SelectionBoundary, at: Cursor) -> CursorRange {
        match boundary {
            SelectionBoundary::Character => CursorRange { primary: at, secondary: at },
            _ => self.cursor_range(boundary.spec_select_bounded_at(self.text, at.ccursor)),
        }
    }
}

impl CCursorRange {
    /// The two ends of the range, each placed in `galley` by its offset.
    pub fn cursor_range(self, galley: &Galley) -> (r: CursorRange)
        ensures
            r == galley@.cursor_range(self),
    {
        CursorRange {
            primary: galley.from_ccursor(self.primary),
            secondary: galley.from_ccursor(self.secondary),
        }
    }
}

impl SelectionView {
    /// The state in which nothing is selected and nothing was clicked.
    pub open spec fn empty() -> SelectionView {
        SelectionView {
            range: StoredRange::Empty,
            initial_cursor_range: None,
            selection_boundary: SelectionBoundary::Character,
        }
    }

    /// The selection by character offsets.
    pub open spec fn char_range(self) -> Option<CCursorRange> {
        match self.range {
            StoredRange::Empty => None,
            StoredRange::Laid(r) => Some(r.spec_as_ccursor_range()),
            StoredRange::Chars(r) => Some(r),
        }
    }

    /// The selection placed in `galley`: by its paragraph positions where
    /// it is kept as positions, by its offsets otherwise.
    pub open spec fn range(self, galley: GalleyView) -> Option<CursorRange> {
        match self.range {
            StoredRange::Empty => None,
            StoredRange::Laid(r) => Some(
                CursorRange {
                    primary: galley.from_pcursor(r.primary.pcursor),
                    secondary: galley.from_pcursor(r.secondary.pcursor),
                },
            ),
            StoredRange::Chars(r) => Some(galley.cursor_range(r)),
        }
    }

    /// The state after the selection was set by character offsets.
    pub open spec fn set_char_range(self, ccursor_range: Option<CCursorRange>) -> SelectionView {
        SelectionView {
            range: match ccursor_range {
                Some(r) => StoredRange::Chars(r),
                None => StoredRange::Empty,
            },
            ..self
        }
    }

    /// The state after the selection was set by positions.
    pub open spec fn set_range(self, cursor_range: Option<CursorRange>) -> SelectionView {
        SelectionView {
            range: match cursor_range {
                Some(r) => StoredRange::Laid(r),
                None => StoredRange::Empty,
            },
            ..self
        }
    }

    /// The granularity after a frame: a double click asks for lines, a
    /// click for words, and once no button is down and the last click has
    /// grown old, single characters are selected again.
    pub open spec fn boundary_after(self, input: PointerInput) -> SelectionBoundary {
        if input.double_clicked {
            SelectionBoundary::Line
        } else if input.clicked {
            SelectionBoundary::Word
        } else if !input.any_down && input.click_delay_passed {
            SelectionBoundary::Character
        } else {
            self.selection_boundary
        }
    }

    /// The state after a frame with the pointer at `at`, and whether the
    /// frame touched the selection.
    ///
    /// A press over the widget starts a selection. With shift held it
    /// moves the primary end of the selection to the pointer, or selects
    /// the pointer's position where nothing was selected. Without shift it
    /// selects what the granularity gives at the pointer and remembers
    /// that as the drag's first selection. A drag that goes on moves the
    /// primary end at the granularity of characters; at that of words or
    /// lines it selects the union of the drag's first selection with what
    /// the granularity gives at the pointer.
    pub open spec fn pointer_interaction(
        self,
        input: PointerInput,
        at: Cursor,
        galley: GalleyView,
        is_being_dragged: bool,
    ) -> (SelectionView, bool) {
        let boundary = self.boundary_after(input);
        let state = SelectionView { selection_boundary: boundary, ..self };
        if !input.senses_drag {
            (state, false)
        } else if input.hovered && input.any_pressed {
            if input.shift {
                match state.range(galley) {
                    Some(r) => (
                        state.set_range(Some(CursorRange { primary: at, secondary: r.secondary })),
                        true,
                    ),
                    None => (
                        state.set_range(Some(CursorRange { primary: at, secondary: at })),
                        true,
                    ),
                }
            } else {
                let initial = galley.bounded_range(boundary, at);
                (
                    SelectionView {
                        range: StoredRange::Laid(initial),
                        initial_cursor_range: Some(initial),
                        selection_boundary: boundary,
                    },
                    true,
                )
            }
        } else if is_being_dragged {
            match boundary {
                SelectionBoundary::Character => match state.range(galley) {
                    Some(r) => (
                        state.set_range(Some(CursorRange { primary: at, secondary: r.secondary })),
                        true,
                    ),
                    None => (state, true),
                },
                _ => match state.initial_cursor_range {
                    Some(initial) => (
                        state.set_range(
                            Some(initial.spec_extend(galley.bounded_range(boundary, at))),
                        ),
                        true,
                    ),
                    None => (state, true),
                },
            }
        } else {
            (state, false)
        }
    }
}

/// The selection of a text, kept across frames and layouts.
#[derive(Clone, Copy, Debug)]
pub struct TextCursorState {
    range: StoredRange,
    initial_cursor_range: Option<CursorRange>,
    selection_boundary: SelectionBoundary,
}

impl View for TextCursorState {
    type V = SelectionView;

    closed spec fn view(&self) -> SelectionView {
        SelectionView {
            range: self.range,
            initial_cursor_range: self.initial_cursor_range,
            selection_boundary: self.selection_boundary,
        }
    }
}

impl Default for TextCursorState {
    fn default() -> (state: TextCursorState)
        ensures
            state@ == SelectionView::empty(),
    {
        TextCursorState {
            range: StoredRange::Empty,
            initial_cursor_range: None,
            selection_boundary: SelectionBoundary::Character,
        }
    }
}

impl From<CursorRange> for TextCursorState {
    fn from(cursor_range: CursorRange) -> (state: TextCursorState) {
        TextCursorState {
            range: StoredRange::Laid(cursor_range),
            initial_cursor_range: None,
            selection_boundary: SelectionBoundary::Character,
        }
    }
}

impl FromSpecImpl<CursorRange> for TextCursorState {
    open spec fn obeys_from_spec() -> bool {
        true
    }

    closed spec fn from_spec(cursor_range: CursorRange) -> TextCursorState {
        TextCursorState {
            range: StoredRange::Laid(cursor_range),
            initial_cursor_range: None,
            selection_boundary: SelectionBoundary::Character,
        }
    }
}

impl From<CCursorRange> for TextCursorState {
    fn from(ccursor_range: CCursorRange) -> (state: TextCursorState) {
        TextCursorState {
            range: StoredRange::Chars(ccursor_range),
            initial_cursor_range: None,
            selection_boundary: SelectionBoundary::Character,
        }
    }
}

impl FromSpecImpl<CCursorRange> for TextCursorState {
    open spec fn obeys_from_spec() -> bool {
        true
    }

    closed spec fn from_spec(ccursor_range: CCursorRange) -> TextCursorState {
        TextCursorState {
            range: StoredRange::Chars(ccursor_range),
            initial_cursor_range: None,
            selection_boundary: SelectionBoundary::Character,
        }
    }
}

impl TextCursorState {
    /// A state made from a selection of positions holds that selection,
    /// and nothing else.
    pub proof fn from_cursor_range_holds_it(cursor_range: CursorRange)
        ensures
            <TextCursorState as FromSpec<CursorRange>>::from_spec(cursor_range)@
                == SelectionView::empty().set_range(Some(cursor_range)),
    {
    }

    /// A state made from a selection of offsets holds that selection, and
    /// nothing else.
    pub proof fn from_ccursor_range_holds_it(ccursor_range: CCursorRange)
        ensures
            <TextCursorState as FromSpec<CCursorRange>>::from_spec(ccursor_range)@
                == SelectionView::empty().set_char_range(Some(ccursor_range)),
    {
    }

    /// A state that holds what its three parts say.
    pub fn from_parts(
        range: StoredRange,
        initial_cursor_range: Option<CursorRange>,
        selection_boundary: SelectionBoundary,
    ) -> (state: TextCursorState)
        ensures
            state@ == (SelectionView { range, initial_cursor_range, selection_boundary }),
    {
        TextCursorState { range, initial_cursor_range, selection_boundary }
    }

    /// The selection in the form in which it is kept.
    pub fn stored_range(&self) -> (range: StoredRange)
        ensures
            range == self@.range,
    {
        self.range
    }

    /// The selection that the drag in progress began with.
    pub fn initial_cursor_range(&self) -> (range: Option<CursorRange>)
        ensures
            range == self@.initial_cursor_range,
    {
        self.initial_cursor_range
    }

    /// The granularity at which clicks and drags select.
    pub fn selection_boundary(&self) -> (boundary: SelectionBoundary)
        ensures
            boundary == self@.selection_boundary,
    {
        self.selection_boundary
    }

    /// Whether nothing is selected.
    pub fn is_empty(&self) -> (empty: bool)
        ensures
            empty == (self@.range == StoredRange::Empty),
    {
        match self.range {
            StoredRange::Empty => true,
            _ => false,
        }
    }

    /// The selected range of characters.
    pub fn char_range(&self) -> (range: Option<CCursorRange>)
        ensures
            range == self@.char_range(),
    {
        match self.range {
            StoredRange::Empty => None,
            StoredRange::Laid(r) => Some(r.as_ccursor_range()),
            StoredRange::Chars(r) => Some(r),
        }
    }

    /// The selection, placed in `galley`.
    pub fn range(&self, galley: &Galley) -> (range: Option<CursorRange>)
        ensures
            range == self@.range(galley@),
    {
        match self.range {
            StoredRange::Empty => None,
            StoredRange::Laid(r) => Some(
                CursorRange {
                    primary: galley.from_pcursor(r.primary.pcursor),
                    secondary: galley.from_pcursor(r.secondary.pcursor),
                },
            ),
            StoredRange::Chars(r) => Some(r.cursor_range(galley)),
        }
    }

    /// Sets the selection by character offsets.
    pub fn set_char_range(&mut self, ccursor_range: Option<CCursorRange>)
        ensures
            final(self)@ == old(self)@.set_char_range(ccursor_range),
    {
        self.range = match ccursor_range {
            Some(r) => StoredRange::Chars(r),
            None => StoredRange::Empty,
        };
    }

    /// Sets the selection by positions.
    pub fn set_range(&mut self, cursor_range: Option<CursorRange>)
        ensures
            final(self)@ == old(self)@.set_range(cursor_range),
    {
        self.range = match cursor_range {
            Some(r) => StoredRange::Laid(r),
            None => StoredRange::Empty,
        };
    }

    /// What a press or a drag at `at` selects at the current granularity.
    fn bounded_range(&self, galley: &Galley, at: Cursor) -> (r: CursorRange)
        ensures
            r == galley@.bounded_range(self@.selection_boundary, at),
    {
        match self.selection_boundary {
            SelectionBoundary::Character => CursorRange::one(at),
            boundary => boundary.select_bounded_at(galley.text(), at.ccursor).cursor_range(galley),
        }
    }

    /// Handles the clicks and drags of one frame, with the pointer at
    /// `cursor_at_pointer`. Returns whether the frame touched the selection.
    pub fn pointer_interaction(
        &mut self,
        input: &PointerInput,
        cursor_at_pointer: Cursor,
        galley: &Galley,
        is_being_dragged: bool,
    ) -> (interacted: bool)
        ensures
            (final(self)@, interacted) == old(self)@.pointer_interaction(
                *input,
                cursor_at_pointer,
                galley@,
                is_being_dragged,
            ),
    {
        if input.double_clicked {
            self.selection_boundary = SelectionBoundary::Line;
        } else if input.clicked {
            self.selection_boundary = SelectionBoundary::Word;
        } else if !input.any_down && input.click_delay_passed {
            self.selection_boundary = SelectionBoundary::Character;
        }
        if input.senses_drag {
            if input.hovered && input.any_pressed {
                if input.shift {
                    match self.range(galley) {
                        Some(r) => {
                            let moved = CursorRange {
                                primary: cursor_at_pointer,
                                secondary: r.secondary,
                            };
                            self.set_range(Some(moved));
                        },
                        None => {
                            self.set_range(Some(CursorRange::one(cursor_at_pointer)));
                        },
                    }
                } else {
                    let initial = self.bounded_range(galley, cursor_at_pointer);
                    self.initial_cursor_range = Some(initial);
                    self.set_range(Some(initial));
                }
                true
            } else if is_being_dragged {
                match self.selection_boundary {
                    SelectionBoundary::Character => {
                        match self.range(galley) {
                            Some(r) => {
                                let moved = CursorRange {
                                    primary: cursor_at_pointer,
                                    secondary: r.secondary,
                                };
                                self.set_range(Some(moved));
                            },
                            None => {},
                        }
                    },
                    _ => {
                        match self.initial_cursor_range {
                            Some(initial) => {
                                let here = self.bounded_range(galley, cursor_at_pointer);
                                self.set_range(Some(initial.extend(&here)));
                            },
                            None => {},
                        }
                    },
                }
                true
            } else {
                false
            }
        } else {
            false
        }
    }

    /// A selection that was set by positions keeps the paragraph and the
    /// offset into it of both ends, in whatever layout it is read back:
    /// wrapping the text anew can only move an end to another row.
    pub proof fn range_keeps_paragraph_positions(
        state: SelectionView,
        cursor_range: CursorRange,
        galley: GalleyView,
    )
        ensures
            state.set_range(Some(cursor_range)).range(galley) is Some,
            state.set_range(Some(cursor_range)).range(galley)->0.primary.pcursor
                == cursor_range.primary.pcursor,
            state.set_range(Some(cursor_range)).range(galley)->0.secondary.pcursor
                == cursor_range.secondary.pcursor,
    {
    }

    /// A selection that is kept by positions selects the same characters
    /// in every layout of one text, between the same paragraph positions.
    pub proof fn range_survives_rewrapping(state: SelectionView, a: GalleyView, b: GalleyView)
        requires
            a.wf(),
            b.wf(),
            a.text == b.text,
            state.range is Laid,
        ensures
            state.range(a) is Some,
            state.range(b) is Some,
            state.range(a)->0.spec_as_ccursor_range() == state.range(b)->0.spec_as_ccursor_range(),
            state.range(a)->0.primary.pcursor == state.range(b)->0.primary.pcursor,
            state.range(a)->0.secondary.pcursor == state.range(b)->0.secondary.pcursor,
    {
        let kept = state.range->Laid_0;
        rewrapping_keeps_offsets(a, b, kept.primary.pcursor);
        rewrapping_keeps_offsets(a, b, kept.secondary.pcursor);
    }

    /// A drag that goes on changes neither the granularity nor the
    /// selection that the drag began with: of the state it touches the
    /// selection alone.
    pub proof fn drag_keeps_granularity_and_first_selection(
        state: SelectionView,
        input: PointerInput,
        at: Cursor,
        galley: GalleyView,
    )
        requires
            !input.double_clicked,
            !input.clicked,
            input.any_down,
            !input.any_pressed,
        ensures
            state.pointer_interaction(input, at, galley, true).0.selection_boundary
                == state.selection_boundary,
            state.pointer_interaction(input, at, galley, true).0.initial_cursor_range
                == state.initial_cursor_range,
            state.pointer_interaction(input, at, galley, true).1 == input.senses_drag,
    {
    }

    /// While words or lines are dragged over, the selection holds what
    /// the drag began with and the word or line under the pointer.
    pub proof fn drag_selects_union_with_first_selection(
        state: SelectionView,
        input: PointerInput,
        at: Cursor,
        galley: GalleyView,
        first: CursorRange,
    )
        requires
            !input.double_clicked,
            !input.clicked,
            input.any_down,
            !input.any_pressed,
            input.senses_drag,
            state.selection_boundary != SelectionBoundary::Character,
            state.initial_cursor_range == Some(first),
        ensures
            ({
                let after = state.pointer_interaction(input, at, galley, true).0;
                let here = galley.bounded_range(state.selection_boundary, at);
                &&& after.range == StoredRange::Laid(first.spec_extend(here))
                &&& after.char_range() is Some
                &&& after.char_range()->0.covers(first.spec_as_ccursor_range())
                &&& after.char_range()->0.covers(here.spec_as_ccursor_range())
            }),
    {
        let here = galley.bounded_range(state.selection_boundary, at);
        first.extend_spans_all_ends(here);
    }
}

} // verus!

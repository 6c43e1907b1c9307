//! A cursor over a list: which row is selected, and how to move it, by one
//! step or to the next row that may be selected.
//!
//! The cursor knows the length of the list it is paired with and nothing
//! else of it. A selected index always lies within that length.

use vstd::prelude::*;

verus! {

/// Why the cursor could not move.
#[derive(Debug, Copy, Clone, PartialEq, Eq, Structural)]
pub enum ScrollError {
    /// There is no row to move to in that direction.
    EndOfList,
    /// Nothing is selected, so there is nothing to move from.
    EmptyList,
}

/// A cursor over a list of known length.
#[derive(Debug, Copy, Clone)]
pub struct ListPointer {
    offset: usize,
    selected: Option<usize>,
    paused: bool,
    length: usize,
}

/// A cursor as plain values.
pub struct ListPointerView {
    /// The first row shown. It is carried along and never computed here.
    pub offset: nat,
    /// The selected row, which is kept while the cursor is paused.
    pub selected: Option<nat>,
    /// Whether the cursor is hidden from observers.
    pub paused: bool,
    /// The length of the list.
    pub length: nat,
}

impl ListPointerView {
    /// A selected row lies within the list.
    pub open spec fn wf(self) -> bool {
        self.selected matches Some(i) ==> i < self.length
    }

    /// What observers see: nothing while the cursor is paused.
    pub open spec fn visible(self) -> Option<nat> {
        if self.paused {
            None
        } else {
            self.selected
        }
    }

    /// The cursor with `selected` replaced.
    pub open spec fn at(self, selected: Option<nat>) -> ListPointerView {
        ListPointerView { selected, ..self }
    }

    /// The cursor moved to `target` where there is one, and left alone
    /// where there is none.
    pub open spec fn moved_to(self, target: Option<nat>) -> ListPointerView {
        match target {
            Some(_) => self.at(target),
            None => self,
        }
    }

    /// The row one step down, if the cursor is on a row and not on the last.
    pub open spec fn row_below(self) -> Option<nat> {
        match self.selected {
            Some(i) => if i + 1 < self.length {
                Some(i + 1)
            } else {
                None
            },
            None => None,
        }
    }

    /// The row one step up, if the cursor is on a row and not on the first.
    pub open spec fn row_above(self) -> Option<nat> {
        match self.selected {
            Some(i) => if i > 0 {
                Some((i - 1) as nat)
            } else {
                None
            },
            None => None,
        }
    }

    /// The first selectable row below the cursor, if the cursor is on a row
    /// and there is one.
    pub open spec fn selectable_below(self, selectable: Seq<bool>) -> Option<nat> {
        match self.selected {
            Some(i) => next_selectable(selectable, i as int),
            None => None,
        }
    }

    /// The last selectable row above the cursor, if the cursor is on a row
    /// and there is one.
    pub open spec fn selectable_above(self, selectable: Seq<bool>) -> Option<nat> {
        match self.selected {
            Some(i) => prev_selectable(selectable, i as int),
            None => None,
        }
    }

    /// The cursor after it has tried the next selectable row below and,
    /// where there is none, the last selectable row above.
    pub open spec fn bounced(self, selectable: Seq<bool>) -> ListPointerView {
        match self.selectable_below(selectable) {
            Some(j) => self.at(Some(j)),
            None => self.moved_to(self.selectable_above(selectable)),
        }
    }

    /// What a move answers that found the row `target`, or none: without a
    /// row to start from the list counts as empty, without a row to go to
    /// the cursor is at the end of the list.
    pub open spec fn move_outcome(self, target: Option<nat>) -> Result<(), ScrollError> {
        if self.selected is None {
            Err(ScrollError::EmptyList)
        } else if target is None {
            Err(ScrollError::EndOfList)
        } else {
            Ok(())
        }
    }
}

/// Whether `j` is the first selectable row after row `i`.
pub open spec fn is_next_selectable(selectable: Seq<bool>, i: int, j: int) -> bool {
    &&& i < j < selectable.len()
    &&& selectable[j]
    &&& forall|k: int| i < k < j ==> !selectable[k]
}

/// Whether `j` is the last selectable row before row `i`.
pub open spec fn is_prev_selectable(selectable: Seq<bool>, i: int, j: int) -> bool {
    &&& 0 <= j < i
    &&& j < selectable.len()
    &&& selectable[j]
    &&& forall|k: int| j < k < i && k < selectable.len() ==> !selectable[k]
}

/// The first selectable row after row `i`, if there is one.
pub open spec fn next_selectable(selectable: Seq<bool>, i: int) -> Option<nat> {
    if exists|j: int| is_next_selectable(selectable, i, j) {
        Some((choose|j: int| is_next_selectable(selectable, i, j)) as nat)
    } else {
        None
    }
}

/// The last selectable row before row `i`, if there is one.
pub open spec fn prev_selectable(selectable: Seq<bool>, i: int) -> Option<nat> {
    if exists|j: int| is_prev_selectable(selectable, i, j) {
        Some((choose|j: int| is_prev_selectable(selectable, i, j)) as nat)
    } else {
        None
    }
}

/// The first selectable row after row `i` is `j` if `j` is selectable and
/// no row between the two is.
pub proof fn lemma_next_selectable_found(selectable: Seq<bool>, i: int, j: int)
    requires
        is_next_selectable(selectable, i, j),
    ensures
        next_selectable(selectable, i) == Some(j as nat),
{
    let k = choose|k: int| is_next_selectable(selectable, i, k);
    assert(k == j) by {
        if k < j {
            assert(!selectable[k]);
        }
        if j < k {
            assert(!selectable[j]);
        }
    }
}

/// There is no selectable row after row `i` if every later row is not
/// selectable.
pub proof fn lemma_next_selectable_missing(selectable: Seq<bool>, i: int)
    requires
        forall|k: int| i < k < selectable.len() ==> !selectable[k],
    ensures
        next_selectable(selectable, i) is None,
{
}

/// The last selectable row before row `i` is `j` if `j` is selectable and
/// no row between the two is.
pub proof fn lemma_prev_selectable_found(selectable: Seq<bool>, i: int, j: int)
    requires
        is_prev_selectable(selectable, i, j),
    ensures
        prev_selectable(selectable, i) == Some(j as nat),
{
    let k = choose|k: int| is_prev_selectable(selectable, i, k);
    assert(k == j) by {
        if k < j {
            assert(!selectable[j]);
        }
        if j < k {
            assert(!selectable[k]);
        }
    }
}

/// There is no selectable row before row `i` if every earlier row is not
/// selectable.
pub proof fn lemma_prev_selectable_missing(selectable: Seq<bool>, i: int)
    requires
        forall|k: int| 0 <= k < i && k < selectable.len() ==> !selectable[k],
    ensures
        prev_selectable(selectable, i) is None,
{
}

/// How many rows around the selected one are kept in sight, for a window of
/// `height` rows.
pub open spec fn scroll_margin(height: nat) -> nat {
    if height <= 2 {
        0
    } else if height <= 4 {
        1
    } else {
        2
    }
}

impl View for ListPointer {
    type V = ListPointerView;

    closed spec fn view(&self) -> ListPointerView {
        ListPointerView {
            offset: self.offset as nat,
            selected: match self.selected {
                Some(i) => Some(i as nat),
                None => None,
            },
            paused: self.paused,
            length: self.length as nat,
        }
    }
}

impl ListPointer {
    #[verifier::type_invariant]
    spec fn in_range(self) -> bool {
        self.selected matches Some(i) ==> i < self.length
    }

    /// A cursor over a list of `length` rows: on the first row, or on none
    /// where the list is empty.
    pub fn new(length: usize) -> (p: ListPointer)
        ensures
            p@ == (ListPointerView {
                offset: 0,
                selected: if length == 0 {
                    None
                } else {
                    Some(0nat)
                },
                paused: false,
                length: length as nat,
            }),
    {
        let selected = match length {
            0 => None,
            _ => Some(0),
        };
        ListPointer { offset: 0, selected, paused: false, length }
    }

    /// The length of the list.
    pub fn length(&self) -> (n: usize)
        ensures
            n == self@.length,
    {
        self.length
    }

    /// The first row shown.
    pub fn offset(&self) -> (n: usize)
        ensures
            n == self@.offset,
    {
        self.offset
    }

    /// Whether the cursor is paused.
    pub fn is_paused(&self) -> (b: bool)
        ensures
            b == self@.paused,
    {
        self.paused
    }

    /// The selected row as observers see it: none while the cursor is
    /// paused. A row that is reported lies within the list.
    pub fn selected(&self) -> (row: Option<usize>)
        ensures
            self@.wf(),
            match row {
                Some(i) => self@.visible() == Some(i as nat),
                None => self@.visible() is None,
            },
    {
        proof {
            use_type_invariant(self);
        }
        if self.paused {
            None
        } else {
            self.selected
        }
    }

    /// The selected row itself, also while the cursor is paused.
    pub fn position(&self) -> (row: Option<usize>)
        ensures
            self@.wf(),
            match row {
                Some(i) => self@.selected == Some(i as nat),
                None => self@.selected is None,
            },
    {
        proof {
            use_type_invariant(self);
        }
        self.selected
    }

    /// Selects row `i`, or nothing. Fails with `EndOfList`, and changes
    /// nothing, exactly when `i` is a row beyond the list.
    pub fn select(&mut self, i: Option<usize>) -> (r: Result<(), ScrollError>)
        ensures
            match i {
                Some(k) => if k < old(self)@.length {
                    r is Ok && final(self)@ == old(self)@.at(Some(k as nat))
                } else {
                    r == Err::<(), ScrollError>(ScrollError::EndOfList) && final(self)@ == old(self)@
                },
                None => r is Ok && final(self)@ == old(self)@.at(None),
            },
    {
        if let Some(k) = i {
            if k < self.length {
                self.selected = Some(k);
                Ok(())
            } else {
                Err(ScrollError::EndOfList)
            }
        } else {
            self.selected = None;
            Ok(())
        }
    }

    /// Hides the cursor from observers. The selected row is kept.
    pub fn pause(&mut self)
        ensures
            final(self)@ == (ListPointerView { paused: true, ..old(self)@ }),
    {
        proof {
            use_type_invariant(&*self);
        }
        self.paused = true;
    }

    /// Shows the cursor again.
    pub fn unpause(&mut self)
        ensures
            final(self)@ == (ListPointerView { paused: false, ..old(self)@ }),
    {
        proof {
            use_type_invariant(&*self);
        }
        self.paused = false;
    }

    /// Moves one row down. Fails with `EmptyList` where nothing is selected
    /// and with `EndOfList` on the last row, and then changes nothing.
    pub fn try_next(&mut self) -> (r: Result<(), ScrollError>)
        ensures
            r == old(self)@.move_outcome(old(self)@.row_below()),
            final(self)@ == old(self)@.moved_to(old(self)@.row_below()),
    {
        proof {
            use_type_invariant(&*self);
        }
        if let Some(i) = self.selected {
            if i + 1 >= self.length {
                Err(ScrollError::EndOfList)
            } else {
                self.selected = Some(i + 1);
                Ok(())
            }
        } else {
            Err(ScrollError::EmptyList)
        }
    }

    /// Moves one row up. Fails with `EmptyList` where nothing is selected
    /// and with `EndOfList` on the first row, and then changes nothing.
    pub fn try_prev(&mut self) -> (r: Result<(), ScrollError>)
        ensures
            r == old(self)@.move_outcome(old(self)@.row_above()),
            final(self)@ == old(self)@.moved_to(old(self)@.row_above()),
    {
        proof {
            use_type_invariant(&*self);
        }
        if let Some(i) = self.selected {
            if i == 0 {
                Err(ScrollError::EndOfList)
            } else {
                self.selected = Some(i - 1);
                Ok(())
            }
        } else {
            Err(ScrollError::EmptyList)
        }
    }

    /// Moves down to the first row after the selected one that is marked
    /// `true` in `selectable`, which holds one mark per row of the list.
    ///
    /// Fails with `EmptyList` where nothing is selected and with `EndOfList`
    /// where no later row is marked, and then changes nothing.
    pub fn try_next_selectable(&mut self, selectable: &[bool]) -> (r: Result<(), ScrollError>)
        requires
            selectable@.len() == old(self)@.length,
        ensures
            r == old(self)@.move_outcome(old(self)@.selectable_below(selectable@)),
            final(self)@ == old(self)@.moved_to(old(self)@.selectable_below(selectable@)),
    {
        proof {
            use_type_invariant(&*self);
        }
        match self.selected {
            Some(i) => {
                let mut j: usize = i + 1;
                while j < selectable.len()
                    invariant
                        *self == *old(self),
                        self.selected == Some(i),
                        self.length == selectable@.len(),
                        i < j <= selectable@.len(),
                        forall|k: int| i < k < j ==> !selectable@[k],
                    decreases selectable@.len() - j,
                {
                    if selectable[j] {
                        self.selected = Some(j);
                        proof {
                            lemma_next_selectable_found(selectable@, i as int, j as int);
                        }
                        return Ok(());
                    }
                    j += 1;
                }
                proof {
                    lemma_next_selectable_missing(selectable@, i as int);
                }
                Err(ScrollError::EndOfList)
            },
            None => Err(ScrollError::EmptyList),
        }
    }

    /// Moves up to the last row before the selected one that is marked
    /// `true` in `selectable`, which holds one mark per row of the list.
    ///
    /// Fails with `EmptyList` where nothing is selected and with `EndOfList`
    /// where no earlier row is marked, and then changes nothing.
    pub fn try_prev_selectable(&mut self, selectable: &[bool]) -> (r: Result<(), ScrollError>)
        requires
            selectable@.len() == old(self)@.length,
        ensures
            r == old(self)@.move_outcome(old(self)@.selectable_above(selectable@)),
            final(self)@ == old(self)@.moved_to(old(self)@.selectable_above(selectable@)),
    {
        proof {
            use_type_invariant(&*self);
        }
        match self.selected {
            Some(i) => {
                let mut j: usize = i;
                while j > 0
                    invariant
                        *self == *old(self),
                        self.selected == Some(i),
                        self.length == selectable@.len(),
                        j <= i < selectable@.len(),
                        forall|k: int| j <= k < i ==> !selectable@[k],
                    decreases j,
                {
                    j -= 1;
                    if selectable[j] {
                        self.selected = Some(j);
                        proof {
                            lemma_prev_selectable_found(selectable@, i as int, j as int);
                        }
                        return Ok(());
                    }
                }
                proof {
                    lemma_prev_selectable_missing(selectable@, i as int);
                }
                Err(ScrollError::EndOfList)
            },
            None => Err(ScrollError::EmptyList),
        }
    }

    /// Tells the cursor that a row was added before the selected one. The
    /// cursor stays on the row it was on, whose index has grown by one.
    pub fn prepend_item(&mut self)
        requires
            old(self)@.length < usize::MAX,
        ensures
            final(self)@ == (ListPointerView {
                length: old(self)@.length + 1,
                selected: match old(self)@.selected {
                    Some(i) => Some(i + 1),
                    None => None,
                },
                ..old(self)@
            }),
    {
        proof {
            use_type_invariant(&*self);
        }
        self.length += 1;
        if let Some(i) = self.selected {
            self.selected = Some(i + 1);
        }
    }

    /// Tells the cursor that a row was added after the selected one. The
    /// selected index stays.
    pub fn append_item(&mut self)
        requires
            old(self)@.length < usize::MAX,
        ensures
            final(self)@ == (ListPointerView { length: old(self)@.length + 1, ..old(self)@ }),
    {
        proof {
            use_type_invariant(&*self);
        }
        self.length += 1;
    }

    /// The first row to show in a window of `height` rows, so that the
    /// selected row is in sight with `scroll_margin(height)` rows before it
    /// where there are that many, and the window does not reach past the end
    /// of the list where the list fills it.
    pub fn scroll_offset(&self, height: usize) -> (first: usize)
        ensures
            first == ({
                let row = match self@.visible() {
                    Some(i) => i,
                    None => 0,
                };
                let wanted = if row >= scroll_margin(height as nat) {
                    row - scroll_margin(height as nat)
                } else {
                    0
                };
                let last = if self@.length >= height {
                    self@.length - height
                } else {
                    0
                };
                if wanted <= last {
                    wanted
                } else {
                    last
                }
            }),
    {
        let row = match self.selected() {
            Some(i) => i,
            None => 0,
        };
        let margin: usize = if height <= 2 {
            0
        } else if height <= 4 {
            1
        } else {
            2
        };
        let last = if self.length >= height {
            self.length - height
        } else {
            0
        };
        let wanted = if row >= margin {
            row - margin
        } else {
            0
        };
        if wanted <= last {
            wanted
        } else {
            last
        }
    }
}

} // verus!

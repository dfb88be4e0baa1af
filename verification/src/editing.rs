//! Ctrl+Backspace in edit controls: which text it deletes.
use vstd::prelude::*;
use crate::wide::{utf16_encode, push_str_units};

verus! {

/// Whether a UTF-16 unit is white space for word deletion (space, tab, line feed, carriage return).
pub open spec fn is_space_unit(c: u16) -> bool {
    c == 0x20 || c == 0x09 || c == 0x0A || c == 0x0D
}

/// The position reached going left from `pos` over units whose being white
/// space is `space`.
pub open spec fn skip_back(s: Seq<u16>, pos: int, space: bool) -> int
    decreases pos,
{
    if pos > 0 && pos <= s.len() && is_space_unit(s[pos - 1]) == space {
        skip_back(s, pos - 1, space)
    } else {
        pos
    }
}

/// Where Ctrl+Backspace deletes back to from `pos`: over the white space
/// before the caret when there is some, else over the word before it.
pub open spec fn word_delete_start(s: Seq<u16>, pos: int) -> int {
    if pos > 0 && is_space_unit(s[pos - 1]) {
        skip_back(s, pos, true)
    } else {
        skip_back(s, pos, false)
    }
}

/// What Ctrl+Backspace does.
#[derive(Clone, Copy, Debug, PartialEq, Eq, Structural)]
pub enum BackspacePlan {
    /// Replace the selection with nothing.
    DeleteSelection,
    /// Nothing to delete; the key goes to the control's own handling.
    PassOn,
    /// Select the range (start, end) and replace it with nothing.
    DeleteRange(usize, u32),
}

/// The plan for Ctrl+Backspace with the selection (`start`, `end`) in `text`.
pub open spec fn backspace_plan(start: u32, end: u32, units: Seq<u16>) -> BackspacePlan {
    if start != end {
        BackspacePlan::DeleteSelection
    } else if start == 0 {
        BackspacePlan::PassOn
    } else {
        let pos = if start as int > units.len() { units.len() as int } else { start as int };
        BackspacePlan::DeleteRange(word_delete_start(units, pos) as usize, start)
    }
}

proof fn lemma_skip_back_bounds(s: Seq<u16>, pos: int, space: bool)
    requires
        0 <= pos <= s.len(),
    ensures
        0 <= skip_back(s, pos, space) <= pos,
    decreases pos,
{
    if pos > 0 && is_space_unit(s[pos - 1]) == space {
        lemma_skip_back_bounds(s, pos - 1, space);
    }
}

fn is_space(c: u16) -> (r: bool)
    ensures
        r == is_space_unit(c),
{
    c == 0x20 || c == 0x09 || c == 0x0A || c == 0x0D
}

/// Decides what Ctrl+Backspace deletes (see `backspace_plan`); `text` is the
/// control's text.
pub fn ctrl_backspace_plan(start: u32, end: u32, text: &str) -> (r: BackspacePlan)
    ensures
        r == backspace_plan(start, end, utf16_encode(text@)),
{
    if start != end {
        return BackspacePlan::DeleteSelection;
    }
    if start == 0 {
        return BackspacePlan::PassOn;
    }
    let mut units: Vec<u16> = Vec::new();
    push_str_units(&mut units, text);
    assert(units@ =~= utf16_encode(text@));
    let mut pos: usize = start as usize;
    if pos > units.len() {
        pos = units.len();
    }
    let ghost p0 = pos as int;
    let space = pos > 0 && is_space(units[pos - 1]);
    let mut new_pos = pos;
    while new_pos > 0 && is_space(units[new_pos - 1]) == space
        invariant
            0 <= new_pos <= p0 <= units@.len(),
            skip_back(units@, new_pos as int, space) == skip_back(units@, p0, space),
        decreases new_pos,
    {
        new_pos -= 1;
    }
    proof {
        assert(skip_back(units@, new_pos as int, space) == new_pos);
    }
    BackspacePlan::DeleteRange(new_pos, start)
}

proof fn lemma_skip_back_run(s: Seq<u16>, pos: int, space: bool)
    requires
        0 <= pos <= s.len(),
    ensures
        forall|k: int| skip_back(s, pos, space) <= k < pos ==> is_space_unit(#[trigger] s[k]) == space,
        skip_back(s, pos, space) == 0 || is_space_unit(s[skip_back(s, pos, space) - 1]) != space,
    decreases pos,
{
    if pos > 0 && is_space_unit(s[pos - 1]) == space {
        lemma_skip_back_run(s, pos - 1, space);
    }
}

/// Ctrl+Backspace deletes one whole run before the caret: only white space or
/// only word characters, reaching back to where that run starts, and nothing
/// after the caret.
pub proof fn lemma_backspace_deletes_one_run(s: Seq<u16>, pos: int)
    requires
        0 < pos <= s.len(),
    ensures
        ({
            let from = word_delete_start(s, pos);
            let space = is_space_unit(s[pos - 1]);
            &&& 0 <= from < pos
            &&& forall|k: int| from <= k < pos ==> is_space_unit(#[trigger] s[k]) == space
            &&& (from == 0 || is_space_unit(s[from - 1]) != space)
        }),
{
    let space = is_space_unit(s[pos - 1]);
    lemma_skip_back_bounds(s, pos, space);
    lemma_skip_back_run(s, pos, space);
    lemma_skip_back_bounds(s, pos - 1, space);
}

} // verus!

pub mod color;
pub mod renderer;
pub mod layout;
pub mod extensions;
pub mod dominance;

use vstd::prelude::*;

verus! {

/// What the user did on the treemap.
#[derive(Debug, Clone, Copy, PartialEq, Eq, Structural)]
pub enum TreemapAction {
    /// A click on a block selects it; `usize::MAX` stands for a click on no
    /// block, which clears the selection.
    Click(usize),
    /// A double click on a block enters its directory.
    DoubleClick(usize),
}

/// Index of the last block that contains the pointer, given for each block
/// whether it does: later blocks are drawn on top.
pub fn last_hit(contains: &Vec<bool>) -> (r: Option<usize>)
    ensures
        match r {
            Some(i) => i < contains@.len() && contains@[i as int] && forall|k: int|
                i < k < contains@.len() ==> !(#[trigger] contains@[k]),
            None => forall|k: int| 0 <= k < contains@.len() ==> !(#[trigger] contains@[k]),
        },
{
    let mut i = contains.len();
    while i > 0
        invariant
            i <= contains@.len(),
            forall|k: int| i <= k < contains@.len() ==> !(#[trigger] contains@[k]),
        decreases i,
    {
        if contains[i - 1] {
            return Some(i - 1);
        }
        i = i - 1;
    }
    None
}

/// What a pointer event on the treemap means. `pointer` is `None` when the
/// pointer position is unknown, otherwise the block under it, if any. A
/// double click on a block enters it; a click selects the block under it, or
/// clears the selection (`Click(usize::MAX)`) when there is none.
pub fn treemap_action(double_clicked: bool, clicked: bool, pointer: Option<Option<usize>>) -> (r:
    Option<TreemapAction>)
    ensures
        r == (if double_clicked {
            match pointer {
                Some(Some(i)) => Some(TreemapAction::DoubleClick(i)),
                _ => None,
            }
        } else if clicked {
            match pointer {
                Some(Some(i)) => Some(TreemapAction::Click(i)),
                Some(None) => Some(TreemapAction::Click(usize::MAX)),
                None => None,
            }
        } else {
            None
        }),
{
    if double_clicked {
        match pointer {
            Some(Some(i)) => Some(TreemapAction::DoubleClick(i)),
            _ => None,
        }
    } else if clicked {
        match pointer {
            Some(Some(i)) => Some(TreemapAction::Click(i)),
            Some(None) => Some(TreemapAction::Click(usize::MAX)),
            None => None,
        }
    } else {
        None
    }
}

} // verus!

use vstd::prelude::*;
use crate::decimal::{decimal_text, i32_to_decimal};

verus! {

/// A button of the workspace switcher: the workspace it switches to and
/// the text it shows.
#[derive(Debug)]
pub struct WorkspaceButton {
    pub id: i32,
    pub label: String,
}

/// The switcher has one button per workspace, numbered from 1 up to
/// `num_workspaces` in order, each labelled with its number.
pub open spec fn switcher_buttons(buttons: Seq<WorkspaceButton>, num_workspaces: int) -> bool {
    &&& buttons.len() == if num_workspaces > 0 { num_workspaces } else { 0 }
    &&& forall|k: int|
        0 <= k < buttons.len() ==> #[trigger] buttons[k].id == k + 1 && buttons[k].label@
            == decimal_text(k + 1)
}

/// The buttons of a switcher for workspaces 1 to `num_workspaces`.
pub fn workspace_buttons(num_workspaces: i32) -> (buttons: Vec<WorkspaceButton>)
    ensures
        switcher_buttons(buttons@, num_workspaces as int),
{
    let mut buttons: Vec<WorkspaceButton> = Vec::new();
    let mut next: i64 = 1;
    while next <= num_workspaces as i64
        invariant
            1 <= next,
            next <= num_workspaces + 1 || num_workspaces < 1,
            num_workspaces < 1 ==> next == 1,
            buttons@.len() == next - 1,
            forall|k: int|
                0 <= k < buttons@.len() ==> #[trigger] buttons@[k].id == k + 1
                    && buttons@[k].label@ == decimal_text(k + 1),
        decreases num_workspaces - next + 1,
    {
        let id = next as i32;
        let label = i32_to_decimal(id);
        buttons.push(WorkspaceButton { id, label });
        next = next + 1;
    }
    buttons
}

/// Which buttons show as focused when workspace `active_id` is active: the
/// one for that workspace, and no other.
pub fn focus_flags(buttons: &Vec<WorkspaceButton>, active_id: i32) -> (flags: Vec<bool>)
    ensures
        flags@.len() == buttons@.len(),
        forall|k: int| 0 <= k < buttons@.len() ==> #[trigger] flags@[k] == (buttons@[k].id == active_id),
{
    let mut flags: Vec<bool> = Vec::new();
    let mut k: usize = 0;
    while k < buttons.len()
        invariant
            k <= buttons@.len(),
            flags@.len() == k,
            forall|j: int| 0 <= j < k ==> #[trigger] flags@[j] == (buttons@[j].id == active_id),
        decreases buttons@.len() - k,
    {
        flags.push(buttons[k].id == active_id);
        k = k + 1;
    }
    flags
}

/// In a switcher, the button of the active workspace is the only focused
/// one; when the active workspace has no button, none is focused.
pub proof fn lemma_single_focused_button(
    buttons: Seq<WorkspaceButton>,
    num_workspaces: int,
    active_id: int,
)
    requires
        switcher_buttons(buttons, num_workspaces),
    ensures
        forall|k: int|
            0 <= k < buttons.len() ==> (#[trigger] buttons[k].id == active_id <==> k == active_id - 1),
        (exists|k: int| 0 <= k < buttons.len() && #[trigger] buttons[k].id == active_id) <==> (1
            <= active_id <= num_workspaces),
{
    if 1 <= active_id <= num_workspaces {
        assert(buttons[active_id - 1].id == active_id);
    }
}

} // verus!

//! The command vocabulary: what an id that the menu hands back means.

use crate::tray::common::{InputsTable, TableModel};
use vstd::prelude::*;

verus! {

/// The id of the first input preset in the menu of the tray.
pub const CMD_BASE_INPUT: u16 = 2000;

/// The id of the action that loads the configuration anew. The ids of the
/// five fixed actions stand in a row, from this one on.
pub const CMD_RELOAD: u16 = 5000;

/// The id of the action that ends the session.
pub const CMD_QUIT: u16 = 5001;

/// The id of the action that toggles starting with the login session.
pub const CMD_TOGGLE_STARTUP: u16 = 5002;

/// The id of the action that opens the configuration file.
pub const CMD_EDIT_CONFIG: u16 = 5003;

/// The id of the action that opens the folder of the configuration file.
pub const CMD_OPEN_CONFIG_FOLDER: u16 = 5004;

/// What the user asked for.
#[derive(Debug, Clone, Copy, PartialEq, Eq, Structural)]
pub enum Command {
    Input(u16),
    Reload,
    Quit,
    ToggleStartup,
    EditConfig,
    OpenConfigFolder,
}

/// `id` is the id of one of the five fixed actions.
pub open spec fn is_action_id(id: u16) -> bool {
    CMD_RELOAD <= id <= CMD_OPEN_CONFIG_FOLDER
}

/// The fixed action with the id `id`.
pub open spec fn action_of(id: u16) -> Option<Command> {
    if id == CMD_RELOAD {
        Some(Command::Reload)
    } else if id == CMD_QUIT {
        Some(Command::Quit)
    } else if id == CMD_TOGGLE_STARTUP {
        Some(Command::ToggleStartup)
    } else if id == CMD_EDIT_CONFIG {
        Some(Command::EditConfig)
    } else if id == CMD_OPEN_CONFIG_FOLDER {
        Some(Command::OpenConfigFolder)
    } else {
        None
    }
}

/// What `cmd_id` means: the input of the table's row with that id, else the
/// fixed action with that id, else nothing.
pub open spec fn decode_spec(cmd_id: u16, table: TableModel) -> Option<Command> {
    match table.row_of(cmd_id) {
        Some(row) => Some(Command::Input(row.1)),
        None => action_of(cmd_id),
    }
}

/// Decodes an id that the menu handed back. An id that nothing has is no
/// error: the caller does nothing.
pub fn decode(cmd_id: u16, inputs: &InputsTable) -> (r: Option<Command>)
    ensures
        r == decode_spec(cmd_id, inputs@),
{
    if let Some((_name, value)) = inputs.get(cmd_id) {
        return Some(Command::Input(value));
    }
    if cmd_id == CMD_RELOAD {
        Some(Command::Reload)
    } else if cmd_id == CMD_QUIT {
        Some(Command::Quit)
    } else if cmd_id == CMD_TOGGLE_STARTUP {
        Some(Command::ToggleStartup)
    } else if cmd_id == CMD_EDIT_CONFIG {
        Some(Command::EditConfig)
    } else if cmd_id == CMD_OPEN_CONFIG_FOLDER {
        Some(Command::OpenConfigFolder)
    } else {
        None
    }
}

/// The id of an input and the id of a fixed action never meet: an id of a
/// table decodes to its input, an action id to its action.
pub proof fn lemma_ids_disjoint(cmd_id: u16, table: TableModel)
    requires
        table.wf(),
    ensures
        is_action_id(cmd_id) ==> table.row_of(cmd_id) is None && decode_spec(cmd_id, table)
            == action_of(cmd_id) && action_of(cmd_id) is Some,
        table.row_of(cmd_id) is Some ==> !is_action_id(cmd_id),
{
}

/// The id of every row of a table decodes to the input of that row.
pub proof fn lemma_row_ids_decode(table: TableModel, i: int)
    requires
        table.wf(),
        0 <= i < table.rows.len(),
    ensures
        table.has_id(table.id_of(i)),
        decode_spec(table.id_of(i), table) == Some(Command::Input(table.rows[i].1)),
        !is_action_id(table.id_of(i)),
{
}

} // verus!

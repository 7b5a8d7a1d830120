//! Workbench commands, and the short list of them that an empty split
//! container offers.

use vstd::prelude::*;
use vstd::string::*;

verus! {

/// A command of the workbench that a split container can offer or emit.
#[derive(Clone, Copy, Debug, PartialEq, Eq, Structural)]
pub enum LapceWorkbenchCommand {
    EnableModal,
    DisableModal,
    OpenFolder,
    Palette,
    PaletteCommand,
    PaletteWorkspace,
    ConnectSshHost,
    CheckoutBranch,
}

/// Who carries a command out.
#[derive(Clone, Copy, Debug, PartialEq, Eq, Structural)]
pub enum CommandTarget {
    Workbench,
    Focus,
}

/// A command as it is sent: its name, an optional argument, the text under
/// which the command palette lists it, and who carries it out.
#[derive(Debug, PartialEq, Eq)]
pub struct LapceCommandNew {
    pub cmd: String,
    pub data: Option<String>,
    pub palette_desc: Option<String>,
    pub target: CommandTarget,
}

/// What a [`LapceCommandNew`] holds, as plain sequences of characters.
pub struct CommandView {
    pub cmd: Seq<char>,
    pub data: Option<Seq<char>>,
    pub palette_desc: Option<Seq<char>>,
    pub target: CommandTarget,
}

/// The characters of an optional string.
pub open spec fn text_of(s: Option<String>) -> Option<Seq<char>> {
    match s {
        Some(t) => Some(t@),
        None => None,
    }
}

impl LapceWorkbenchCommand {
    /// The name under which key bindings and the command palette know the
    /// command.
    pub open spec fn name(self) -> Seq<char> {
        match self {
            LapceWorkbenchCommand::EnableModal => "enable_modal_editing"@,
            LapceWorkbenchCommand::DisableModal => "disable_modal_editing"@,
            LapceWorkbenchCommand::OpenFolder => "open_folder"@,
            LapceWorkbenchCommand::Palette => "palette"@,
            LapceWorkbenchCommand::PaletteCommand => "palette.command"@,
            LapceWorkbenchCommand::PaletteWorkspace => "palette.workspace"@,
            LapceWorkbenchCommand::ConnectSshHost => "connect_ssh_host"@,
            LapceWorkbenchCommand::CheckoutBranch => "checkout_branch"@,
        }
    }

    /// The text that describes the command to a user, for the commands that
    /// have one.
    pub open spec fn message(self) -> Option<Seq<char>> {
        match self {
            LapceWorkbenchCommand::EnableModal => Some("Enable Modal Editing"@),
            LapceWorkbenchCommand::DisableModal => Some("Disable Modal Editing"@),
            LapceWorkbenchCommand::OpenFolder => Some("Open Folder"@),
            LapceWorkbenchCommand::Palette => None,
            LapceWorkbenchCommand::PaletteCommand => None,
            LapceWorkbenchCommand::PaletteWorkspace => Some("Open Recent Workspace"@),
            LapceWorkbenchCommand::ConnectSshHost => Some("Connect to SSH Host"@),
            LapceWorkbenchCommand::CheckoutBranch => None,
        }
    }

    /// The command's name as a string.
    pub fn to_string(&self) -> (s: String)
        ensures
            s@ == self.name(),
    {
        match self {
            LapceWorkbenchCommand::EnableModal => String::from_str("enable_modal_editing"),
            LapceWorkbenchCommand::DisableModal => String::from_str("disable_modal_editing"),
            LapceWorkbenchCommand::OpenFolder => String::from_str("open_folder"),
            LapceWorkbenchCommand::Palette => String::from_str("palette"),
            LapceWorkbenchCommand::PaletteCommand => String::from_str("palette.command"),
            LapceWorkbenchCommand::PaletteWorkspace => String::from_str("palette.workspace"),
            LapceWorkbenchCommand::ConnectSshHost => String::from_str("connect_ssh_host"),
            LapceWorkbenchCommand::CheckoutBranch => String::from_str("checkout_branch"),
        }
    }

    /// The command's description, if it has one.
    pub fn get_message(&self) -> (m: Option<String>)
        ensures
            text_of(m) == self.message(),
    {
        match self {
            LapceWorkbenchCommand::EnableModal => Some(String::from_str("Enable Modal Editing")),
            LapceWorkbenchCommand::DisableModal => Some(String::from_str("Disable Modal Editing")),
            LapceWorkbenchCommand::OpenFolder => Some(String::from_str("Open Folder")),
            LapceWorkbenchCommand::Palette => None,
            LapceWorkbenchCommand::PaletteCommand => None,
            LapceWorkbenchCommand::PaletteWorkspace => Some(
                String::from_str("Open Recent Workspace"),
            ),
            LapceWorkbenchCommand::ConnectSshHost => Some(String::from_str("Connect to SSH Host")),
            LapceWorkbenchCommand::CheckoutBranch => None,
        }
    }
}

impl View for LapceCommandNew {
    type V = CommandView;

    open spec fn view(&self) -> CommandView {
        CommandView {
            cmd: self.cmd@,
            data: text_of(self.data),
            palette_desc: text_of(self.palette_desc),
            target: self.target,
        }
    }
}

impl CommandView {
    /// The workbench command `command` without an argument, listed under
    /// `desc`.
    pub open spec fn workbench(command: LapceWorkbenchCommand, desc: Option<Seq<char>>) -> CommandView {
        CommandView {
            cmd: command.name(),
            data: None,
            palette_desc: desc,
            target: CommandTarget::Workbench,
        }
    }
}

impl LapceCommandNew {
    /// The workbench command `command` without an argument, listed under
    /// `desc`.
    pub fn workbench(command: LapceWorkbenchCommand, desc: Option<String>) -> (c: LapceCommandNew)
        ensures
            c@ == CommandView::workbench(command, text_of(desc)),
    {
        LapceCommandNew {
            cmd: command.to_string(),
            data: None,
            palette_desc: desc,
            target: CommandTarget::Workbench,
        }
    }

    /// A copy of the command.
    pub fn duplicate(&self) -> (c: LapceCommandNew)
        ensures
            c@ == self@,
    {
        let data = match &self.data {
            Some(d) => Some(d.clone()),
            None => None,
        };
        let palette_desc = match &self.palette_desc {
            Some(d) => Some(d.clone()),
            None => None,
        };
        LapceCommandNew { cmd: self.cmd.clone(), data, palette_desc, target: self.target }
    }
}

/// The views of a sequence of commands, in order.
pub open spec fn command_views(cmds: Seq<LapceCommandNew>) -> Seq<CommandView> {
    Seq::new(cmds.len(), |i: int| cmds[i]@)
}

/// The command that switches modal editing: off where it is on, on where it
/// is off.
pub open spec fn modal_toggle(modal: bool) -> LapceWorkbenchCommand {
    if modal {
        LapceWorkbenchCommand::DisableModal
    } else {
        LapceWorkbenchCommand::EnableModal
    }
}

/// The commands that an empty split container offers.
///
/// Always the list of all commands, then the switch for modal editing.
/// Without an open workspace there follow the commands that open a folder
/// or a recent workspace, with one the command that goes to a file.
pub open spec fn empty_editor_command_views(modal: bool, has_workspace: bool) -> Seq<CommandView> {
    let all = CommandView::workbench(
        LapceWorkbenchCommand::PaletteCommand,
        Some("Show All Commands"@),
    );
    let toggle = CommandView::workbench(modal_toggle(modal), modal_toggle(modal).message());
    if has_workspace {
        seq![
            all,
            toggle,
            CommandView::workbench(LapceWorkbenchCommand::Palette, Some("Go To File"@)),
        ]
    } else {
        seq![
            all,
            toggle,
            CommandView::workbench(LapceWorkbenchCommand::OpenFolder, Some("Open Folder"@)),
            CommandView::workbench(LapceWorkbenchCommand::PaletteWorkspace, Some("Open Recent"@)),
        ]
    }
}

/// The commands that an empty split container offers, for the given state
/// of modal editing and of the workspace.
pub fn empty_editor_commands(modal: bool, has_workspace: bool) -> (cmds: Vec<LapceCommandNew>)
    ensures
        command_views(cmds@) == empty_editor_command_views(modal, has_workspace),
{
    let toggle = if modal {
        LapceWorkbenchCommand::DisableModal
    } else {
        LapceWorkbenchCommand::EnableModal
    };
    let mut cmds: Vec<LapceCommandNew> = Vec::new();
    cmds.push(
        LapceCommandNew::workbench(
            LapceWorkbenchCommand::PaletteCommand,
            Some(String::from_str("Show All Commands")),
        ),
    );
    cmds.push(LapceCommandNew::workbench(toggle, toggle.get_message()));
    if has_workspace {
        cmds.push(
            LapceCommandNew::workbench(
                LapceWorkbenchCommand::Palette,
                Some(String::from_str("Go To File")),
            ),
        );
    } else {
        cmds.push(
            LapceCommandNew::workbench(
                LapceWorkbenchCommand::OpenFolder,
                Some(String::from_str("Open Folder")),
            ),
        );
        cmds.push(
            LapceCommandNew::workbench(
                LapceWorkbenchCommand::PaletteWorkspace,
                Some(String::from_str("Open Recent")),
            ),
        );
    }
    assert(command_views(cmds@) =~= empty_editor_command_views(modal, has_workspace));
    cmds
}

} // verus!

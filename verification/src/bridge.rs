//! The browser worker's command surface: a request message read into the
//! command it names and that command's arguments, or the message it is
//! refused with; and the one-writer-per-vault lock a tab takes first.
//!
//! Command names mirror the desktop's one for one, so the page calls the
//! worker exactly as it would invoke the desktop shell.
use vstd::prelude::*;
use crate::link::eq_str;
use crate::text::{decimal, push_decimal, push_str};

verus! {

/// One argument of a request, as the page sent it.
#[derive(Debug, Clone)]
pub enum Arg {
    Text(String),
    Flag(bool),
    /// A number, already converted to a count.
    Number(usize),
    Bytes(Vec<u8>),
    /// Anything else (`null`, `undefined`, an object).
    Other,
}

/// The commands the worker answers.
#[derive(Debug, Clone, Copy, PartialEq, Eq)]
pub enum Kind {
    Open,
    ListVaults,
    CreateVault,
    JoinVault,
    ShareVault,
    ForgetVault,
    RenameVault,
    ListTree,
    ReadNote,
    WriteNote,
    CreateNote,
    CreateFolder,
    RenamePath,
    DeletePath,
    ExportVault,
    ImportVault,
    WatchVault,
    SetBackgroundSync,
    SearchNotes,
    ListTags,
    ListNoteTypes,
}

/// The name a command is requested by.
pub open spec fn kind_name(k: Kind) -> Seq<char> {
    match k {
        Kind::Open => "open"@,
        Kind::ListVaults => "list_vaults"@,
        Kind::CreateVault => "create_vault"@,
        Kind::JoinVault => "join_vault"@,
        Kind::ShareVault => "share_vault"@,
        Kind::ForgetVault => "forget_vault"@,
        Kind::RenameVault => "rename_vault"@,
        Kind::ListTree => "list_tree"@,
        Kind::ReadNote => "read_note"@,
        Kind::WriteNote => "write_note"@,
        Kind::CreateNote => "create_note"@,
        Kind::CreateFolder => "create_folder"@,
        Kind::RenamePath => "rename_path"@,
        Kind::DeletePath => "delete_path"@,
        Kind::ExportVault => "export_vault"@,
        Kind::ImportVault => "import_vault"@,
        Kind::WatchVault => "watch_vault"@,
        Kind::SetBackgroundSync => "set_background_sync"@,
        Kind::SearchNotes => "search_notes"@,
        Kind::ListTags => "list_tags"@,
        Kind::ListNoteTypes => "list_note_types"@,
    }
}

/// How many leading string arguments a command takes.
pub open spec fn arity(k: Kind) -> nat {
    match k {
        Kind::ListVaults | Kind::SetBackgroundSync => 0,
        Kind::RenameVault | Kind::ReadNote | Kind::CreateNote | Kind::CreateFolder
        | Kind::DeletePath | Kind::SearchNotes => 2,
        Kind::RenamePath => 3,
        Kind::WriteNote => 4,
        _ => 1,
    }
}

/// The position of a command's boolean argument, for the commands that take
/// one (a missing or non-boolean one reads as `false`).
pub open spec fn flag_index(k: Kind) -> Option<nat> {
    match k {
        Kind::RenamePath => Some(3),
        Kind::DeletePath => Some(2),
        Kind::SetBackgroundSync => Some(0),
        _ => None,
    }
}

/// The command a name requests, if any.
pub open spec fn kind_of(cmd: Seq<char>) -> Option<Kind> {
    if cmd == kind_name(Kind::Open) {
        Some(Kind::Open)
    } else if cmd == kind_name(Kind::ListVaults) {
        Some(Kind::ListVaults)
    } else if cmd == kind_name(Kind::CreateVault) {
        Some(Kind::CreateVault)
    } else if cmd == kind_name(Kind::JoinVault) {
        Some(Kind::JoinVault)
    } else if cmd == kind_name(Kind::ShareVault) {
        Some(Kind::ShareVault)
    } else if cmd == kind_name(Kind::ForgetVault) {
        Some(Kind::ForgetVault)
    } else if cmd == kind_name(Kind::RenameVault) {
        Some(Kind::RenameVault)
    } else if cmd == kind_name(Kind::ListTree) {
        Some(Kind::ListTree)
    } else if cmd == kind_name(Kind::ReadNote) {
        Some(Kind::ReadNote)
    } else if cmd == kind_name(Kind::WriteNote) {
        Some(Kind::WriteNote)
    } else if cmd == kind_name(Kind::CreateNote) {
        Some(Kind::CreateNote)
    } else if cmd == kind_name(Kind::CreateFolder) {
        Some(Kind::CreateFolder)
    } else if cmd == kind_name(Kind::RenamePath) {
        Some(Kind::RenamePath)
    } else if cmd == kind_name(Kind::DeletePath) {
        Some(Kind::DeletePath)
    } else if cmd == kind_name(Kind::ExportVault) {
        Some(Kind::ExportVault)
    } else if cmd == kind_name(Kind::ImportVault) {
        Some(Kind::ImportVault)
    } else if cmd == kind_name(Kind::WatchVault) {
        Some(Kind::WatchVault)
    } else if cmd == kind_name(Kind::SetBackgroundSync) {
        Some(Kind::SetBackgroundSync)
    } else if cmd == kind_name(Kind::SearchNotes) {
        Some(Kind::SearchNotes)
    } else if cmd == kind_name(Kind::ListTags) {
        Some(Kind::ListTags)
    } else if cmd == kind_name(Kind::ListNoteTypes) {
        Some(Kind::ListNoteTypes)
    } else {
        None
    }
}

/// A command's name requests that command and no other: looking up the name
/// of any command gives back that command.
pub proof fn each_name_requests_its_command(k: Kind)
    ensures
        kind_of(kind_name(k)) == Some(k),
{
    match k {
        Kind::Open => {
            reveal_strlit("open");

        },
        Kind::ListVaults => {
            reveal_strlit("list_vaults");
            reveal_strlit("open");
            assert("list_vaults"@.len() != "open"@.len());
        },
        Kind::CreateVault => {
            reveal_strlit("create_vault");
            reveal_strlit("open");
            reveal_strlit("list_vaults");
            assert("create_vault"@.len() != "open"@.len());
            assert("create_vault"@.len() != "list_vaults"@.len());
        },
        Kind::JoinVault => {
            reveal_strlit("join_vault");
            reveal_strlit("open");
            reveal_strlit("list_vaults");
            reveal_strlit("create_vault");
            assert("join_vault"@.len() != "open"@.len());
            assert("join_vault"@.len() != "list_vaults"@.len());
            assert("join_vault"@.len() != "create_vault"@.len());
        },
        Kind::ShareVault => {
            reveal_strlit("share_vault");
            reveal_strlit("open");
            reveal_strlit("list_vaults");
            reveal_strlit("create_vault");
            reveal_strlit("join_vault");
            assert("share_vault"@.len() != "open"@.len());
            assert("share_vault"@[0] != "list_vaults"@[0]);
            assert("share_vault"@.len() != "create_vault"@.len());
            assert("share_vault"@.len() != "join_vault"@.len());
        },
        Kind::ForgetVault => {
            reveal_strlit("forget_vault");
            reveal_strlit("open");
            reveal_strlit("list_vaults");
            reveal_strlit("create_vault");
            reveal_strlit("join_vault");
            reveal_strlit("share_vault");
            assert("forget_vault"@.len() != "open"@.len());
            assert("forget_vault"@.len() != "list_vaults"@.len());
            assert("forget_vault"@[0] != "create_vault"@[0]);
            assert("forget_vault"@.len() != "join_vault"@.len());
            assert("forget_vault"@.len() != "share_vault"@.len());
        },
        Kind::RenameVault => {
            reveal_strlit("rename_vault");
            reveal_strlit("open");
            reveal_strlit("list_vaults");
            reveal_strlit("create_vault");
            reveal_strlit("join_vault");
            reveal_strlit("share_vault");
            reveal_strlit("forget_vault");
            assert("rename_vault"@.len() != "open"@.len());
            assert("rename_vault"@.len() != "list_vaults"@.len());
            assert("rename_vault"@[0] != "create_vault"@[0]);
            assert("rename_vault"@.len() != "join_vault"@.len());
            assert("rename_vault"@.len() != "share_vault"@.len());
            assert("rename_vault"@[0] != "forget_vault"@[0]);
        },
        Kind::ListTree => {
            reveal_strlit("list_tree");
            reveal_strlit("open");
            reveal_strlit("list_vaults");
            reveal_strlit("create_vault");
            reveal_strlit("join_vault");
            reveal_strlit("share_vault");
            reveal_strlit("forget_vault");
            reveal_strlit("rename_vault");
            assert("list_tree"@.len() != "open"@.len());
            assert("list_tree"@.len() != "list_vaults"@.len());
            assert("list_tree"@.len() != "create_vault"@.len());
            assert("list_tree"@.len() != "join_vault"@.len());
            assert("list_tree"@.len() != "share_vault"@.len());
            assert("list_tree"@.len() != "forget_vault"@.len());
            assert("list_tree"@.len() != "rename_vault"@.len());
        },
        Kind::ReadNote => {
            reveal_strlit("read_note");
            reveal_strlit("open");
            reveal_strlit("list_vaults");
            reveal_strlit("create_vault");
            reveal_strlit("join_vault");
            reveal_strlit("share_vault");
            reveal_strlit("forget_vault");
            reveal_strlit("rename_vault");
            reveal_strlit("list_tree");
            assert("read_note"@.len() != "open"@.len());
            assert("read_note"@.len() != "list_vaults"@.len());
            assert("read_note"@.len() != "create_vault"@.len());
            assert("read_note"@.len() != "join_vault"@.len());
            assert("read_note"@.len() != "share_vault"@.len());
            assert("read_note"@.len() != "forget_vault"@.len());
            assert("read_note"@.len() != "rename_vault"@.len());
            assert("read_note"@[0] != "list_tree"@[0]);
        },
        Kind::WriteNote => {
            reveal_strlit("write_note");
            reveal_strlit("open");
            reveal_strlit("list_vaults");
            reveal_strlit("create_vault");
            reveal_strlit("join_vault");
            reveal_strlit("share_vault");
            reveal_strlit("forget_vault");
            reveal_strlit("rename_vault");
            reveal_strlit("list_tree");
            reveal_strlit("read_note");
            assert("write_note"@.len() != "open"@.len());
            assert("write_note"@.len() != "list_vaults"@.len());
            assert("write_note"@.len() != "create_vault"@.len());
            assert("write_note"@[0] != "join_vault"@[0]);
            assert("write_note"@.len() != "share_vault"@.len());
            assert("write_note"@.len() != "forget_vault"@.len());
            assert("write_note"@.len() != "rename_vault"@.len());
            assert("write_note"@.len() != "list_tree"@.len());
            assert("write_note"@.len() != "read_note"@.len());
        },
        Kind::CreateNote => {
            reveal_strlit("create_note");
            reveal_strlit("open");
            reveal_strlit("list_vaults");
            reveal_strlit("create_vault");
            reveal_strlit("join_vault");
            reveal_strlit("share_vault");
            reveal_strlit("forget_vault");
            reveal_strlit("rename_vault");
            reveal_strlit("list_tree");
            reveal_strlit("read_note");
            reveal_strlit("write_note");
            assert("create_note"@.len() != "open"@.len());
            assert("create_note"@[0] != "list_vaults"@[0]);
            assert("create_note"@.len() != "create_vault"@.len());
            assert("create_note"@.len() != "join_vault"@.len());
            assert("create_note"@[0] != "share_vault"@[0]);
            assert("create_note"@.len() != "forget_vault"@.len());
            assert("create_note"@.len() != "rename_vault"@.len());
            assert("create_note"@.len() != "list_tree"@.len());
            assert("create_note"@.len() != "read_note"@.len());
            assert("create_note"@.len() != "write_note"@.len());
        },
        Kind::CreateFolder => {
            reveal_strlit("create_folder");
            reveal_strlit("open");
            reveal_strlit("list_vaults");
            reveal_strlit("create_vault");
            reveal_strlit("join_vault");
            reveal_strlit("share_vault");
            reveal_strlit("forget_vault");
            reveal_strlit("rename_vault");
            reveal_strlit("list_tree");
            reveal_strlit("read_note");
            reveal_strlit("write_note");
            reveal_strlit("create_note");
            assert("create_folder"@.len() != "open"@.len());
            assert("create_folder"@.len() != "list_vaults"@.len());
            assert("create_folder"@.len() != "create_vault"@.len());
            assert("create_folder"@.len() != "join_vault"@.len());
            assert("create_folder"@.len() != "share_vault"@.len());
            assert("create_folder"@.len() != "forget_vault"@.len());
            assert("create_folder"@.len() != "rename_vault"@.len());
            assert("create_folder"@.len() != "list_tree"@.len());
            assert("create_folder"@.len() != "read_note"@.len());
            assert("create_folder"@.len() != "write_note"@.len());
            assert("create_folder"@.len() != "create_note"@.len());
        },
        Kind::RenamePath => {
            reveal_strlit("rename_path");
            reveal_strlit("open");
            reveal_strlit("list_vaults");
            reveal_strlit("create_vault");
            reveal_strlit("join_vault");
            reveal_strlit("share_vault");
            reveal_strlit("forget_vault");
            reveal_strlit("rename_vault");
            reveal_strlit("list_tree");
            reveal_strlit("read_note");
            reveal_strlit("write_note");
            reveal_strlit("create_note");
            reveal_strlit("create_folder");
            assert("rename_path"@.len() != "open"@.len());
            assert("rename_path"@[0] != "list_vaults"@[0]);
            assert("rename_path"@.len() != "create_vault"@.len());
            assert("rename_path"@.len() != "join_vault"@.len());
            assert("rename_path"@[0] != "share_vault"@[0]);
            assert("rename_path"@.len() != "forget_vault"@.len());
            assert("rename_path"@.len() != "rename_vault"@.len());
            assert("rename_path"@.len() != "list_tree"@.len());
            assert("rename_path"@.len() != "read_note"@.len());
            assert("rename_path"@.len() != "write_note"@.len());
            assert("rename_path"@[0] != "create_note"@[0]);
            assert("rename_path"@.len() != "create_folder"@.len());
        },
        Kind::DeletePath => {
            reveal_strlit("delete_path");
            reveal_strlit("open");
            reveal_strlit("list_vaults");
            reveal_strlit("create_vault");
            reveal_strlit("join_vault");
            reveal_strlit("share_vault");
            reveal_strlit("forget_vault");
            reveal_strlit("rename_vault");
            reveal_strlit("list_tree");
            reveal_strlit("read_note");
            reveal_strlit("write_note");
            reveal_strlit("create_note");
            reveal_strlit("create_folder");
            reveal_strlit("rename_path");
            assert("delete_path"@.len() != "open"@.len());
            assert("delete_path"@[0] != "list_vaults"@[0]);
            assert("delete_path"@.len() != "create_vault"@.len());
            assert("delete_path"@.len() != "join_vault"@.len());
            assert("delete_path"@[0] != "share_vault"@[0]);
            assert("delete_path"@.len() != "forget_vault"@.len());
            assert("delete_path"@.len() != "rename_vault"@.len());
            assert("delete_path"@.len() != "list_tree"@.len());
            assert("delete_path"@.len() != "read_note"@.len());
            assert("delete_path"@.len() != "write_note"@.len());
            assert("delete_path"@[0] != "create_note"@[0]);
            assert("delete_path"@.len() != "create_folder"@.len());
            assert("delete_path"@[0] != "rename_path"@[0]);
        },
        Kind::ExportVault => {
            reveal_strlit("export_vault");
            reveal_strlit("open");
            reveal_strlit("list_vaults");
            reveal_strlit("create_vault");
            reveal_strlit("join_vault");
            reveal_strlit("share_vault");
            reveal_strlit("forget_vault");
            reveal_strlit("rename_vault");
            reveal_strlit("list_tree");
            reveal_strlit("read_note");
            reveal_strlit("write_note");
            reveal_strlit("create_note");
            reveal_strlit("create_folder");
            reveal_strlit("rename_path");
            reveal_strlit("delete_path");
            assert("export_vault"@.len() != "open"@.len());
            assert("export_vault"@.len() != "list_vaults"@.len());
            assert("export_vault"@[0] != "create_vault"@[0]);
            assert("export_vault"@.len() != "join_vault"@.len());
            assert("export_vault"@.len() != "share_vault"@.len());
            assert("export_vault"@[0] != "forget_vault"@[0]);
            assert("export_vault"@[0] != "rename_vault"@[0]);
            assert("export_vault"@.len() != "list_tree"@.len());
            assert("export_vault"@.len() != "read_note"@.len());
            assert("export_vault"@.len() != "write_note"@.len());
            assert("export_vault"@.len() != "create_note"@.len());
            assert("export_vault"@.len() != "create_folder"@.len());
            assert("export_vault"@.len() != "rename_path"@.len());
            assert("export_vault"@.len() != "delete_path"@.len());
        },
        Kind::ImportVault => {
            reveal_strlit("import_vault");
            reveal_strlit("open");
            reveal_strlit("list_vaults");
            reveal_strlit("create_vault");
            reveal_strlit("join_vault");
            reveal_strlit("share_vault");
            reveal_strlit("forget_vault");
            reveal_strlit("rename_vault");
            reveal_strlit("list_tree");
            reveal_strlit("read_note");
            reveal_strlit("write_note");
            reveal_strlit("create_note");
            reveal_strlit("create_folder");
            reveal_strlit("rename_path");
            reveal_strlit("delete_path");
            reveal_strlit("export_vault");
            assert("import_vault"@.len() != "open"@.len());
            assert("import_vault"@.len() != "list_vaults"@.len());
            assert("import_vault"@[0] != "create_vault"@[0]);
            assert("import_vault"@.len() != "join_vault"@.len());
            assert("import_vault"@.len() != "share_vault"@.len());
            assert("import_vault"@[0] != "forget_vault"@[0]);
            assert("import_vault"@[0] != "rename_vault"@[0]);
            assert("import_vault"@.len() != "list_tree"@.len());
            assert("import_vault"@.len() != "read_note"@.len());
            assert("import_vault"@.len() != "write_note"@.len());
            assert("import_vault"@.len() != "create_note"@.len());
            assert("import_vault"@.len() != "create_folder"@.len());
            assert("import_vault"@.len() != "rename_path"@.len());
            assert("import_vault"@.len() != "delete_path"@.len());
            assert("import_vault"@[0] != "export_vault"@[0]);
        },
        Kind::WatchVault => {
            reveal_strlit("watch_vault");
            reveal_strlit("open");
            reveal_strlit("list_vaults");
            reveal_strlit("create_vault");
            reveal_strlit("join_vault");
            reveal_strlit("share_vault");
            reveal_strlit("forget_vault");
            reveal_strlit("rename_vault");
            reveal_strlit("list_tree");
            reveal_strlit("read_note");
            reveal_strlit("write_note");
            reveal_strlit("create_note");
            reveal_strlit("create_folder");
            reveal_strlit("rename_path");
            reveal_strlit("delete_path");
            reveal_strlit("export_vault");
            reveal_strlit("import_vault");
            assert("watch_vault"@.len() != "open"@.len());
            assert("watch_vault"@[0] != "list_vaults"@[0]);
            assert("watch_vault"@.len() != "create_vault"@.len());
            assert("watch_vault"@.len() != "join_vault"@.len());
            assert("watch_vault"@[0] != "share_vault"@[0]);
            assert("watch_vault"@.len() != "forget_vault"@.len());
            assert("watch_vault"@.len() != "rename_vault"@.len());
            assert("watch_vault"@.len() != "list_tree"@.len());
            assert("watch_vault"@.len() != "read_note"@.len());
            assert("watch_vault"@.len() != "write_note"@.len());
            assert("watch_vault"@[0] != "create_note"@[0]);
            assert("watch_vault"@.len() != "create_folder"@.len());
            assert("watch_vault"@[0] != "rename_path"@[0]);
            assert("watch_vault"@[0] != "delete_path"@[0]);
            assert("watch_vault"@.len() != "export_vault"@.len());
            assert("watch_vault"@.len() != "import_vault"@.len());
        },
        Kind::SetBackgroundSync => {
            reveal_strlit("set_background_sync");
            reveal_strlit("open");
            reveal_strlit("list_vaults");
            reveal_strlit("create_vault");
            reveal_strlit("join_vault");
            reveal_strlit("share_vault");
            reveal_strlit("forget_vault");
            reveal_strlit("rename_vault");
            reveal_strlit("list_tree");
            reveal_strlit("read_note");
            reveal_strlit("write_note");
            reveal_strlit("create_note");
            reveal_strlit("create_folder");
            reveal_strlit("rename_path");
            reveal_strlit("delete_path");
            reveal_strlit("export_vault");
            reveal_strlit("import_vault");
            reveal_strlit("watch_vault");
            assert("set_background_sync"@.len() != "open"@.len());
            assert("set_background_sync"@.len() != "list_vaults"@.len());
            assert("set_background_sync"@.len() != "create_vault"@.len());
            assert("set_background_sync"@.len() != "join_vault"@.len());
            assert("set_background_sync"@.len() != "share_vault"@.len());
            assert("set_background_sync"@.len() != "forget_vault"@.len());
            assert("set_background_sync"@.len() != "rename_vault"@.len());
            assert("set_background_sync"@.len() != "list_tree"@.len());
            assert("set_background_sync"@.len() != "read_note"@.len());
            assert("set_background_sync"@.len() != "write_note"@.len());
            assert("set_background_sync"@.len() != "create_note"@.len());
            assert("set_background_sync"@.len() != "create_folder"@.len());
            assert("set_background_sync"@.len() != "rename_path"@.len());
            assert("set_background_sync"@.len() != "delete_path"@.len());
            assert("set_background_sync"@.len() != "export_vault"@.len());
            assert("set_background_sync"@.len() != "import_vault"@.len());
            assert("set_background_sync"@.len() != "watch_vault"@.len());
        },
        Kind::SearchNotes => {
            reveal_strlit("search_notes");
            reveal_strlit("open");
            reveal_strlit("list_vaults");
            reveal_strlit("create_vault");
            reveal_strlit("join_vault");
            reveal_strlit("share_vault");
            reveal_strlit("forget_vault");
            reveal_strlit("rename_vault");
            reveal_strlit("list_tree");
            reveal_strlit("read_note");
            reveal_strlit("write_note");
            reveal_strlit("create_note");
            reveal_strlit("create_folder");
            reveal_strlit("rename_path");
            reveal_strlit("delete_path");
            reveal_strlit("export_vault");
            reveal_strlit("import_vault");
            reveal_strlit("watch_vault");
            reveal_strlit("set_background_sync");
            assert("search_notes"@.len() != "open"@.len());
            assert("search_notes"@.len() != "list_vaults"@.len());
            assert("search_notes"@[0] != "create_vault"@[0]);
            assert("search_notes"@.len() != "join_vault"@.len());
            assert("search_notes"@.len() != "share_vault"@.len());
            assert("search_notes"@[0] != "forget_vault"@[0]);
            assert("search_notes"@[0] != "rename_vault"@[0]);
            assert("search_notes"@.len() != "list_tree"@.len());
            assert("search_notes"@.len() != "read_note"@.len());
            assert("search_notes"@.len() != "write_note"@.len());
            assert("search_notes"@.len() != "create_note"@.len());
            assert("search_notes"@.len() != "create_folder"@.len());
            assert("search_notes"@.len() != "rename_path"@.len());
            assert("search_notes"@.len() != "delete_path"@.len());
            assert("search_notes"@[0] != "export_vault"@[0]);
            assert("search_notes"@[0] != "import_vault"@[0]);
            assert("search_notes"@.len() != "watch_vault"@.len());
            assert("search_notes"@.len() != "set_background_sync"@.len());
        },
        Kind::ListTags => {
            reveal_strlit("list_tags");
            reveal_strlit("open");
            reveal_strlit("list_vaults");
            reveal_strlit("create_vault");
            reveal_strlit("join_vault");
            reveal_strlit("share_vault");
            reveal_strlit("forget_vault");
            reveal_strlit("rename_vault");
            reveal_strlit("list_tree");
            reveal_strlit("read_note");
            reveal_strlit("write_note");
            reveal_strlit("create_note");
            reveal_strlit("create_folder");
            reveal_strlit("rename_path");
            reveal_strlit("delete_path");
            reveal_strlit("export_vault");
            reveal_strlit("import_vault");
            reveal_strlit("watch_vault");
            reveal_strlit("set_background_sync");
            reveal_strlit("search_notes");
            assert("list_tags"@.len() != "open"@.len());
            assert("list_tags"@.len() != "list_vaults"@.len());
            assert("list_tags"@.len() != "create_vault"@.len());
            assert("list_tags"@.len() != "join_vault"@.len());
            assert("list_tags"@.len() != "share_vault"@.len());
            assert("list_tags"@.len() != "forget_vault"@.len());
            assert("list_tags"@.len() != "rename_vault"@.len());
            assert("list_tags"@[6] != "list_tree"@[6]);
            assert("list_tags"@[0] != "read_note"@[0]);
            assert("list_tags"@.len() != "write_note"@.len());
            assert("list_tags"@.len() != "create_note"@.len());
            assert("list_tags"@.len() != "create_folder"@.len());
            assert("list_tags"@.len() != "rename_path"@.len());
            assert("list_tags"@.len() != "delete_path"@.len());
            assert("list_tags"@.len() != "export_vault"@.len());
            assert("list_tags"@.len() != "import_vault"@.len());
            assert("list_tags"@.len() != "watch_vault"@.len());
            assert("list_tags"@.len() != "set_background_sync"@.len());
            assert("list_tags"@.len() != "search_notes"@.len());
        },
        Kind::ListNoteTypes => {
            reveal_strlit("list_note_types");
            reveal_strlit("open");
            reveal_strlit("list_vaults");
            reveal_strlit("create_vault");
            reveal_strlit("join_vault");
            reveal_strlit("share_vault");
            reveal_strlit("forget_vault");
            reveal_strlit("rename_vault");
            reveal_strlit("list_tree");
            reveal_strlit("read_note");
            reveal_strlit("write_note");
            reveal_strlit("create_note");
            reveal_strlit("create_folder");
            reveal_strlit("rename_path");
            reveal_strlit("delete_path");
            reveal_strlit("export_vault");
            reveal_strlit("import_vault");
            reveal_strlit("watch_vault");
            reveal_strlit("set_background_sync");
            reveal_strlit("search_notes");
            reveal_strlit("list_tags");
            assert("list_note_types"@.len() != "open"@.len());
            assert("list_note_types"@.len() != "list_vaults"@.len());
            assert("list_note_types"@.len() != "create_vault"@.len());
            assert("list_note_types"@.len() != "join_vault"@.len());
            assert("list_note_types"@.len() != "share_vault"@.len());
            assert("list_note_types"@.len() != "forget_vault"@.len());
            assert("list_note_types"@.len() != "rename_vault"@.len());
            assert("list_note_types"@.len() != "list_tree"@.len());
            assert("list_note_types"@.len() != "read_note"@.len());
            assert("list_note_types"@.len() != "write_note"@.len());
            assert("list_note_types"@.len() != "create_note"@.len());
            assert("list_note_types"@.len() != "create_folder"@.len());
            assert("list_note_types"@.len() != "rename_path"@.len());
            assert("list_note_types"@.len() != "delete_path"@.len());
            assert("list_note_types"@.len() != "export_vault"@.len());
            assert("list_note_types"@.len() != "import_vault"@.len());
            assert("list_note_types"@.len() != "watch_vault"@.len());
            assert("list_note_types"@.len() != "set_background_sync"@.len());
            assert("list_note_types"@.len() != "search_notes"@.len());
            assert("list_note_types"@.len() != "list_tags"@.len());
        },
    }
}

/// The string at position `i`, when there is one.
pub open spec fn text_at(args: Seq<Arg>, i: int) -> Option<Seq<char>> {
    if 0 <= i < args.len() {
        match args[i] {
            Arg::Text(s) => Some(s@),
            _ => None,
        }
    } else {
        None
    }
}

/// The boolean at position `i`; `false` when there is none.
pub open spec fn flag_at(args: Seq<Arg>, i: int) -> bool {
    0 <= i < args.len() && (args[i] matches Arg::Flag(b) && b)
}

/// The first of positions `i..k` that holds no string.
pub open spec fn first_missing(args: Seq<Arg>, i: nat, k: nat) -> Option<nat>
    decreases k - i,
{
    if i >= k {
        None
    } else if text_at(args, i as int) is None {
        Some(i)
    } else {
        first_missing(args, i + 1, k)
    }
}

/// What a command is refused with when its `i`th string is missing.
pub open spec fn missing_message(cmd: Seq<char>, i: nat) -> Seq<char> {
    cmd + " is missing string argument "@ + decimal(i)
}

pub open spec fn no_cmd_message() -> Seq<char> {
    "message had no cmd"@
}

pub open spec fn not_open_message() -> Seq<char> {
    "open a vault database first"@
}

pub open spec fn unknown_message(cmd: Seq<char>) -> Seq<char> {
    "unknown command "@ + cmd
}

/// How many search hits a request asks for: its third argument when that is
/// a number, else 50.
pub open spec fn max_hits(args: Seq<Arg>) -> nat {
    if 2 < args.len() {
        match args[2] {
            Arg::Number(n) => n as nat,
            _ => 50,
        }
    } else {
        50
    }
}

/// A request read: which command, its leading strings, its boolean, how many
/// hits a search asks for, and the bytes an import brings.
#[derive(Debug, Clone)]
pub struct Request {
    pub kind: Kind,
    pub strings: Vec<String>,
    pub flag: bool,
    pub max: usize,
    pub data: Option<Vec<u8>>,
}

/// Whether `r` is the request `args` make of command `k`.
pub open spec fn is_request(r: Request, k: Kind, args: Seq<Arg>) -> bool {
    &&& r.kind == k
    &&& r.strings@.len() == arity(k)
    &&& forall|i: int| 0 <= i < arity(k) ==> text_at(args, i) == Some(#[trigger] r.strings@[i]@)
    &&& r.flag == match flag_index(k) {
        Some(j) => flag_at(args, j as int),
        None => false,
    }
    &&& r.max == (if k == Kind::SearchNotes { max_hits(args) } else { 0 })
    &&& k == Kind::ImportVault ==> (r.data matches Some(d) && bytes_at(args, 1) == Some(d@))
    &&& k != Kind::ImportVault ==> r.data is None
}

/// The bytes at position `i`, when there are some.
pub open spec fn bytes_at(args: Seq<Arg>, i: int) -> Option<Seq<u8>> {
    if 0 <= i < args.len() {
        match args[i] {
            Arg::Bytes(b) => Some(b@),
            _ => None,
        }
    } else {
        None
    }
}

/// Why a request was refused.
#[derive(Debug, Clone, PartialEq, Eq)]
pub enum Refusal {
    /// A message the worker words itself.
    Message(String),
    /// The argument at this position is thrown as it is: an import whose data
    /// is not bytes. The page is told whatever that value reads as.
    Thrown(usize),
}

/// What a request with command name `cmd` and arguments `args` is answered
/// with before any vault work: the command to run, or the refusal. `open`
/// needs no open database; every other command does, and that is checked
/// before the name is even looked up.
pub open spec fn dispatch_spec(cmd: Option<Seq<char>>, args: Seq<Arg>, has_node: bool) -> Result<
    Kind,
    Seq<char>,
> {
    match cmd {
        None => Err(no_cmd_message()),
        Some(c) => {
            if c != kind_name(Kind::Open) && !has_node {
                Err(not_open_message())
            } else {
                match kind_of(c) {
                    None => Err(unknown_message(c)),
                    Some(k) => match first_missing(args, 0, arity(k)) {
                        Some(i) => Err(missing_message(c, i)),
                        None => Ok(k),
                    },
                }
            }
        },
    }
}

fn kind_from(cmd: &str) -> (r: Option<Kind>)
    ensures
        r == kind_of(cmd@),
{
    if eq_str(cmd, "open") {
        return Some(Kind::Open);
    }
    if eq_str(cmd, "list_vaults") {
        return Some(Kind::ListVaults);
    }
    if eq_str(cmd, "create_vault") {
        return Some(Kind::CreateVault);
    }
    if eq_str(cmd, "join_vault") {
        return Some(Kind::JoinVault);
    }
    if eq_str(cmd, "share_vault") {
        return Some(Kind::ShareVault);
    }
    if eq_str(cmd, "forget_vault") {
        return Some(Kind::ForgetVault);
    }
    if eq_str(cmd, "rename_vault") {
        return Some(Kind::RenameVault);
    }
    if eq_str(cmd, "list_tree") {
        return Some(Kind::ListTree);
    }
    if eq_str(cmd, "read_note") {
        return Some(Kind::ReadNote);
    }
    if eq_str(cmd, "write_note") {
        return Some(Kind::WriteNote);
    }
    if eq_str(cmd, "create_note") {
        return Some(Kind::CreateNote);
    }
    if eq_str(cmd, "create_folder") {
        return Some(Kind::CreateFolder);
    }
    if eq_str(cmd, "rename_path") {
        return Some(Kind::RenamePath);
    }
    if eq_str(cmd, "delete_path") {
        return Some(Kind::DeletePath);
    }
    if eq_str(cmd, "export_vault") {
        return Some(Kind::ExportVault);
    }
    if eq_str(cmd, "import_vault") {
        return Some(Kind::ImportVault);
    }
    if eq_str(cmd, "watch_vault") {
        return Some(Kind::WatchVault);
    }
    if eq_str(cmd, "set_background_sync") {
        return Some(Kind::SetBackgroundSync);
    }
    if eq_str(cmd, "search_notes") {
        return Some(Kind::SearchNotes);
    }
    if eq_str(cmd, "list_tags") {
        return Some(Kind::ListTags);
    }
    if eq_str(cmd, "list_note_types") {
        return Some(Kind::ListNoteTypes);
    }
    None
}

fn arity_of(k: Kind) -> (n: usize)
    ensures
        n == arity(k),
{
    match k {
        Kind::ListVaults | Kind::SetBackgroundSync => 0,
        Kind::RenameVault | Kind::ReadNote | Kind::CreateNote | Kind::CreateFolder
        | Kind::DeletePath | Kind::SearchNotes => 2,
        Kind::RenamePath => 3,
        Kind::WriteNote => 4,
        _ => 1,
    }
}

fn flag_of(args: &Vec<Arg>, k: Kind) -> (b: bool)
    ensures
        b == match flag_index(k) {
            Some(j) => flag_at(args@, j as int),
            None => false,
        },
{
    let j: usize = match k {
        Kind::RenamePath => 3,
        Kind::DeletePath => 2,
        Kind::SetBackgroundSync => 0,
        _ => {
            return false;
        },
    };
    if j < args.len() {
        match &args[j] {
            Arg::Flag(b) => *b,
            _ => false,
        }
    } else {
        false
    }
}

fn max_of(args: &Vec<Arg>) -> (n: usize)
    ensures
        n == max_hits(args@),
{
    if 2 < args.len() {
        match &args[2] {
            Arg::Number(n) => *n,
            _ => 50,
        }
    } else {
        50
    }
}

fn bytes_of(args: &Vec<Arg>, i: usize) -> (d: Option<Vec<u8>>)
    ensures
        match d {
            Some(b) => bytes_at(args@, i as int) == Some(b@),
            None => bytes_at(args@, i as int) is None,
        },
{
    if i < args.len() {
        match &args[i] {
            Arg::Bytes(b) => Some(b.clone()),
            _ => None,
        }
    } else {
        None
    }
}

/// Read a request: its command name (`None` when the message had none), its
/// arguments (empty when they were not a list), and whether a vault database
/// is open yet.
pub fn dispatch(cmd: Option<String>, args: &Vec<Arg>, has_node: bool) -> (r: Result<Request, Refusal>)
    ensures
        match (r, dispatch_spec(
            match cmd {
                Some(c) => Some(c@),
                None => None,
            },
            args@,
            has_node,
        )) {
            (Ok(req), Ok(k)) => is_request(req, k, args@),
            (Err(Refusal::Message(m)), Err(e)) => m@ == e,
            (Err(Refusal::Thrown(i)), Ok(k)) => k == Kind::ImportVault && i == 1 && bytes_at(
                args@,
                1,
            ) is None,
            _ => false,
        },
        (dispatch_spec(
            match cmd {
                Some(c) => Some(c@),
                None => None,
            },
            args@,
            has_node,
        ) == Ok::<Kind, Seq<char>>(Kind::ImportVault) && bytes_at(args@, 1) is None) ==> r
            == Err::<Request, Refusal>(Refusal::Thrown(1)),
{
    let c = match cmd {
        None => {
            return Err(Refusal::Message("message had no cmd".to_owned()));
        },
        Some(c) => c,
    };
    let k = kind_from(c.as_str());
    if !has_node && !eq_str(c.as_str(), "open") {
        return Err(Refusal::Message("open a vault database first".to_owned()));
    }
    let k = match k {
        None => {
            let mut m = "unknown command ".to_owned();
            push_str(&mut m, c.as_str());
            return Err(Refusal::Message(m));
        },
        Some(k) => k,
    };
    let n = arity_of(k);
    let mut strings: Vec<String> = Vec::new();
    let mut i: usize = 0;
    while i < n
        invariant
            n == arity(k),
            kind_of(c@) == Some(k),
            cmd == Some(c),
            c@ == kind_name(Kind::Open) || has_node,
            i <= n,
            strings@.len() == i,
            forall|j: int| 0 <= j < i ==> text_at(args@, j) == Some(#[trigger] strings@[j]@),
            first_missing(args@, i as nat, n as nat) == first_missing(args@, 0, n as nat),
        decreases n - i,
    {
        let t = if i < args.len() {
            match &args[i] {
                Arg::Text(s) => Some(s.clone()),
                _ => None,
            }
        } else {
            None
        };
        match t {
            Some(s) => {
                strings.push(s);
            },
            None => {
                assert(text_at(args@, i as int) is None);
                assert(first_missing(args@, i as nat, n as nat) == Some(i as nat));
                let mut m = c.clone();
                push_str(&mut m, " is missing string argument ");
                push_decimal(&mut m, i as u64);
                return Err(Refusal::Message(m));
            },
        }
        i = i + 1;
    }
    let flag = flag_of(args, k);
    let max = match k {
        Kind::SearchNotes => max_of(args),
        _ => 0,
    };
    let data = match k {
        Kind::ImportVault => match bytes_of(args, 1) {
            Some(b) => Some(b),
            None => {
                return Err(Refusal::Thrown(1));
            },
        },
        _ => None,
    };
    Ok(Request { kind: k, strings, flag, max, data })
}

// ---------------------------------------------------------------- one writer per vault

/// The Web Lock a tab takes on `vault` before opening it.
pub fn lock_name(vault: &str) -> (n: String)
    ensures
        n@ == "vellum-vault:"@ + vault@,
{
    let mut n = "vellum-vault:".to_owned();
    push_str(&mut n, vault);
    n
}

pub open spec fn busy_message() -> Seq<char> {
    "This vault is already open in another tab. Close it there, or use that tab."@
}

/// The answer to a lock request: held, or refused with a sentence the user
/// can act on because another tab already holds it.
pub fn lock_outcome(granted: bool) -> (r: Result<(), String>)
    ensures
        granted ==> r is Ok,
        !granted ==> (r matches Err(m) && m@ == busy_message()),
{
    if granted {
        Ok(())
    } else {
        Err("This vault is already open in another tab. Close it there, or use that tab.".to_owned())
    }
}

/// The text an error is reported with: the error itself when it is a
/// string, else its `message` property when that is one; `None` leaves the
/// caller to describe the value as it is.
pub fn error_text(text: Option<String>, message: Option<String>) -> (r: Option<String>)
    ensures
        text is Some ==> r == text,
        text is None ==> r == message,
{
    match text {
        Some(t) => Some(t),
        None => message,
    }
}

} // verus!

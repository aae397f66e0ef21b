use vstd::prelude::*;

use crate::error::Error;
use crate::item::{EnvVars, StartupItem};
use crate::source_type::{AdapterKind, SourceType};
use crate::status::ItemStatus;
use crate::tasks::concat_chars;
use crate::text::{
    chars_of, ends_with, ends_with_spec, eq_ignore_ascii_case, eq_ignore_ascii_case_spec, file_stem,
    file_stem_spec, starts_with, starts_with_spec, string_of, trim_suffix, trim_suffix_all,
};
use crate::order::vec_eq;

verus! {

/// The suffix that marks a disabled file in a startup folder.
pub const DISABLED_EXTENSION: &'static str = ".disabled";

/// The startup folder shared by all users.
pub const ALL_USERS_STARTUP: &'static str = "C:\\ProgramData\\Microsoft\\Windows\\Start Menu\\Programs\\Startup";

/// What a file in a startup folder stands for: its entry name and status;
/// `None` for hidden files and `desktop.ini`.
pub open spec fn folder_entry(name: Seq<char>) -> Option<(Seq<char>, ItemStatus)> {
    if starts_with_spec(name, "."@) || eq_ignore_ascii_case_spec(name, "desktop.ini"@) {
        None
    } else if ends_with_spec(name, DISABLED_EXTENSION@) {
        Some((trim_suffix_all(name, DISABLED_EXTENSION@), ItemStatus::Disabled))
    } else {
        Some((file_stem_spec(name), ItemStatus::Enabled))
    }
}

/// A disabled file whose name, without the suffix, starts with the entry name.
pub open spec fn enables(file: Seq<char>, name: Seq<char>) -> bool {
    ends_with_spec(file, DISABLED_EXTENSION@) && starts_with_spec(
        trim_suffix_all(file, DISABLED_EXTENSION@),
        name,
    )
}

/// An enabled file whose stem is the entry name.
pub open spec fn disables(file: Seq<char>, name: Seq<char>) -> bool {
    !ends_with_spec(file, DISABLED_EXTENSION@) && file_stem_spec(file) == name
}

/// The adapter for the startup folders.
pub struct StartupFolderScanner;

impl StartupFolderScanner {
    pub fn new() -> (r: StartupFolderScanner) {
        StartupFolderScanner
    }

    /// The source types this adapter owns.
    pub fn source_types(&self) -> (r: Vec<SourceType>)
        ensures
            r@ == seq![SourceType::StartupFolderUser, SourceType::StartupFolderAllUsers],
            forall|k: int| 0 <= k < r@.len() ==> (#[trigger] r@[k]).owner() == AdapterKind::StartupFolder,
    {
        vec![SourceType::StartupFolderUser, SourceType::StartupFolderAllUsers]
    }

    /// The startup folder shared by all users.
    pub fn get_all_users_startup_folder() -> (r: String)
        ensures
            r@ == ALL_USERS_STARTUP@,
    {
        String::from_str(ALL_USERS_STARTUP)
    }

    /// The entry for one directory entry of a startup folder, if it stands for
    /// one: files only, the command being the file's path.
    pub fn folder_item(
        &self,
        file_name: &str,
        is_dir: bool,
        path: &str,
        folder: &str,
        source: SourceType,
        env: &EnvVars,
    ) -> (r: Option<StartupItem>)
        ensures
            is_dir ==> r is None,
            !is_dir ==> match folder_entry(file_name@) {
                None => r is None,
                Some(e) => r matches Some(it) && {
                    &&& it.built_under(*env)
                    &&& it.name@ == e.0
                    &&& it.status == e.1
                    &&& it.source == source
                    &&& it.source_location@ == folder@
                    &&& it.command@ == path@
                    &&& it.publisher is None
                    &&& it.description is None
                },
            },
    {
        if is_dir {
            return None;
        }
        let name = chars_of(file_name);
        let dot = chars_of(".");
        let ini = chars_of("desktop.ini");
        if starts_with(&name, &dot) || eq_ignore_ascii_case(&name, &ini) {
            return None;
        }
        let suffix = chars_of(DISABLED_EXTENSION);
        let (display, status) = if ends_with(&name, &suffix) {
            (trim_suffix(&name, &suffix), ItemStatus::Disabled)
        } else {
            (file_stem(&name), ItemStatus::Enabled)
        };
        let item = StartupItem::new(
            string_of(&display),
            source,
            String::from_str(folder),
            String::from_str(path),
            env,
        ).with_status(status);
        Some(item)
    }

    /// Which file to rename to enable `item`, and its new name: the first
    /// disabled file whose name without the suffix starts with the entry name,
    /// renamed to that name.
    pub fn enable_target(&self, files: &Vec<String>, item: &StartupItem) -> (r: Result<(usize, String), Error>)
        ensures
            match r {
                Ok((k, new_name)) => {
                    &&& k < files@.len()
                    &&& enables(files@[k as int]@, item.name@)
                    &&& new_name@ == trim_suffix_all(files@[k as int]@, DISABLED_EXTENSION@)
                    &&& forall|j: int| 0 <= j < k ==> !enables(#[trigger] files@[j]@, item.name@)
                },
                Err(e) => {
                    &&& e == Error::ItemNotFound { id: item.id }
                    &&& forall|j: int| 0 <= j < files@.len() ==> !enables(#[trigger] files@[j]@, item.name@)
                },
            },
    {
        let suffix = chars_of(DISABLED_EXTENSION);
        let want = chars_of(item.name.as_str());
        let mut k: usize = 0;
        while k < files.len()
            invariant
                k <= files@.len(),
                suffix@ == DISABLED_EXTENSION@,
                want@ == item.name@,
                forall|j: int| 0 <= j < k ==> !enables(#[trigger] files@[j]@, item.name@),
            decreases files@.len() - k,
        {
            let f = chars_of(files[k].as_str());
            if ends_with(&f, &suffix) {
                let base = trim_suffix(&f, &suffix);
                if starts_with(&base, &want) {
                    return Ok((k, string_of(&base)));
                }
            }
            k += 1;
        }
        Err(Error::ItemNotFound { id: item.id.clone() })
    }

    /// Which file to rename to disable `item`, and its new name: the first
    /// enabled file whose stem is the entry name, with the suffix added.
    pub fn disable_target(&self, files: &Vec<String>, item: &StartupItem) -> (r: Result<(usize, String), Error>)
        ensures
            match r {
                Ok((k, new_name)) => {
                    &&& k < files@.len()
                    &&& disables(files@[k as int]@, item.name@)
                    &&& new_name@ == files@[k as int]@ + DISABLED_EXTENSION@
                    &&& forall|j: int| 0 <= j < k ==> !disables(#[trigger] files@[j]@, item.name@)
                },
                Err(e) => {
                    &&& e == Error::ItemNotFound { id: item.id }
                    &&& forall|j: int| 0 <= j < files@.len() ==> !disables(#[trigger] files@[j]@, item.name@)
                },
            },
    {
        let suffix = chars_of(DISABLED_EXTENSION);
        let want = chars_of(item.name.as_str());
        let mut k: usize = 0;
        while k < files.len()
            invariant
                k <= files@.len(),
                suffix@ == DISABLED_EXTENSION@,
                want@ == item.name@,
                forall|j: int| 0 <= j < k ==> !disables(#[trigger] files@[j]@, item.name@),
            decreases files@.len() - k,
        {
            let f = chars_of(files[k].as_str());
            if !ends_with(&f, &suffix) {
                let stem = file_stem(&f);
                if vec_eq(&stem, &want) {
                    let renamed = concat_chars(&f, &suffix);
                    return Ok((k, string_of(&renamed)));
                }
            }
            k += 1;
        }
        Err(Error::ItemNotFound { id: item.id.clone() })
    }
}

} // verus!

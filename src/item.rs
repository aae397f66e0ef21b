use vstd::prelude::*;
use vstd::utf8::{encode_utf8, is_char_boundary};

use crate::digest::{hex_encode, hex_of, sha256, sha256_of};
use crate::source_type::SourceType;
use crate::status::ItemStatus;
use crate::text::{
    chars_of, is_ws, replace, replace_spec, string_of, trim_chars, trim_spec, truncate_str, Strip,
};

verus! {

/// The values of the environment that command lines may name with
/// `%NAME%` placeholders; `None` where the variable is not set.
pub struct EnvVars {
    pub system_root: Option<String>,
    pub program_files: Option<String>,
    pub program_files_x86: Option<String>,
    pub user_profile: Option<String>,
    pub app_data: Option<String>,
    pub local_app_data: Option<String>,
}

/// The value of an optional variable, or `default` where it is not set.
pub open spec fn value_or(v: Option<String>, default: Seq<char>) -> Seq<char> {
    match v {
        Some(s) => s@,
        None => default,
    }
}

/// One placeholder replaced as written and in lower case.
pub open spec fn expand_one(s: Seq<char>, var: Seq<char>, lower: Seq<char>, val: Seq<char>) -> Seq<
    char,
> {
    replace_spec(replace_spec(s, var, val), lower, val)
}

/// A path with the recognised placeholders replaced, in a fixed order.
pub open spec fn expand_spec(s: Seq<char>, env: EnvVars) -> Seq<char> {
    let s1 = expand_one(s, "%SystemRoot%"@, "%systemroot%"@, value_or(env.system_root, "C:\\Windows"@));
    let s2 = expand_one(s1, "%ProgramFiles%"@, "%programfiles%"@, value_or(env.program_files, "C:\\Program Files"@));
    let s3 = expand_one(
        s2,
        "%ProgramFiles(x86)%"@,
        "%programfiles(x86)%"@,
        value_or(env.program_files_x86, "C:\\Program Files (x86)"@),
    );
    let s4 = expand_one(s3, "%USERPROFILE%"@, "%userprofile%"@, value_or(env.user_profile, ""@));
    let s5 = expand_one(s4, "%APPDATA%"@, "%appdata%"@, value_or(env.app_data, ""@));
    expand_one(s5, "%LOCALAPPDATA%"@, "%localappdata%"@, value_or(env.local_app_data, ""@))
}

/// The position of the first character in `s` that `k` strips, or -1.
pub open spec fn first_index(s: Seq<char>, k: Strip) -> int
    decreases s.len(),
{
    if s.len() == 0 {
        -1
    } else if k.strips(s[0]) {
        0
    } else if first_index(s.drop_first(), k) < 0 {
        -1
    } else {
        first_index(s.drop_first(), k) + 1
    }
}

pub proof fn lemma_first_index_range(s: Seq<char>, k: Strip)
    ensures
        -1 <= first_index(s, k) < s.len(),
        first_index(s, k) >= 0 ==> k.strips(s[first_index(s, k)]),
        forall|i: int| 0 <= i < s.len() && (first_index(s, k) < 0 || i < first_index(s, k)) ==> !k.strips(s[i]),
    decreases s.len(),
{
    if s.len() > 0 && !k.strips(s[0]) {
        lemma_first_index_range(s.drop_first(), k);
        assert forall|i: int| 0 < i < s.len() implies s[i] == s.drop_first()[i - 1] by {}
    }
}

/// The executable that a command line launches: the text between leading
/// quotes, else the first white-space-separated word, in either case with
/// placeholders expanded; `None` for a blank command.
pub open spec fn executable_spec(command: Seq<char>, env: EnvVars) -> Option<Seq<char>> {
    let t = trim_spec(command);
    let q = first_index(t.drop_first(), Strip::Only('"'));
    if t.len() > 0 && t[0] == '"' && q >= 0 {
        Some(expand_spec(t.subrange(1, q + 1), env))
    } else if t.len() == 0 {
        None
    } else {
        let w = first_index(t, Strip::Whitespace);
        let word = if w < 0 { t } else { t.subrange(0, w) };
        Some(expand_spec(word, env))
    }
}

/// The text that an entry's id is the digest of.
pub open spec fn id_key(source: SourceType, name: Seq<char>, command: Seq<char>) -> Seq<char> {
    source.variant_name() + ":"@ + name + ":"@ + command
}

/// An entry's id: the first eight bytes of the SHA-256 digest of its key, in
/// hexadecimal.
pub open spec fn item_id(source: SourceType, name: Seq<char>, command: Seq<char>) -> Seq<char> {
    hex_of(sha256_of(encode_utf8(id_key(source, name, command))).subrange(0, 8))
}

/// Relies on `std::path::Path::exists`: whether the path resolves on disk now;
/// nothing is promised of the answer.
#[verifier::external_body]
fn path_exists(p: &str) -> (r: bool) {
    std::path::Path::new(p).exists()
}

/// One autostart entry.
#[derive(Debug, Clone)]
pub struct StartupItem {
    /// Stable identity: a digest of the source type, name and command.
    pub id: String,
    /// Display name.
    pub name: String,
    pub source: SourceType,
    /// Where the owning adapter finds the entry: a key path, a folder, a task
    /// or service name.
    pub source_location: String,
    pub status: ItemStatus,
    /// The command line as the system stores it.
    pub command: String,
    pub publisher: Option<String>,
    pub description: Option<String>,
    /// Whether changing the entry needs elevation.
    pub requires_admin: bool,
    /// The executable that the command launches, where it can be told.
    pub executable_path: Option<String>,
    /// Whether that executable was found on disk when the entry was made.
    pub file_exists: bool,
}

impl StartupItem {
    /// The derived fields agree with the ones they are derived from.
    pub open spec fn wf(&self) -> bool {
        &&& self.id@ == item_id(self.source, self.name@, self.command@)
        &&& self.requires_admin == self.source.needs_admin()
    }

    /// Made by `new` under `env`: the derived fields agree with the others,
    /// and no executable means none was found on disk.
    pub open spec fn built_under(&self, env: EnvVars) -> bool {
        &&& self.wf()
        &&& (self.executable_path matches Some(p) ==> executable_spec(self.command@, env) == Some(p@))
        &&& (self.executable_path is None <==> executable_spec(self.command@, env) is None)
        &&& (self.executable_path is None ==> !self.file_exists)
    }

    /// A copy with every field the same.
    pub fn duplicate(&self) -> (r: StartupItem)
        ensures
            r == *self,
    {
        StartupItem {
            id: self.id.clone(),
            name: self.name.clone(),
            source: self.source,
            source_location: self.source_location.clone(),
            status: self.status,
            command: self.command.clone(),
            publisher: clone_opt(&self.publisher),
            description: clone_opt(&self.description),
            requires_admin: self.requires_admin,
            executable_path: clone_opt(&self.executable_path),
            file_exists: self.file_exists,
        }
    }

    /// A new entry, enabled, with its id, executable and elevation need
    /// derived from its fields.
    pub fn new(name: String, source: SourceType, source_location: String, command: String, env: &EnvVars) -> (r: StartupItem)
        ensures
            r.built_under(*env),
            r.name == name,
            r.source == source,
            r.source_location == source_location,
            r.command == command,
            r.status == ItemStatus::Enabled,
            r.publisher is None,
            r.description is None,
    {
        let id = Self::generate_id(&source, &name, &command);
        let executable_path = Self::extract_executable_path(&command, env);
        let file_exists = match &executable_path {
            Some(p) => path_exists(p.as_str()),
            None => false,
        };
        let requires_admin = source.requires_admin();
        StartupItem {
            id,
            name,
            source,
            source_location,
            status: ItemStatus::Enabled,
            command,
            publisher: None,
            description: None,
            requires_admin,
            executable_path,
            file_exists,
        }
    }

    /// The id of the entry with these identifying fields.
    pub fn generate_id(source: &SourceType, name: &String, command: &String) -> (r: String)
        ensures
            r@ == item_id(*source, name@, command@),
    {
        let mut key = String::from_str(source.variant_str());
        key.append(":");
        key.append(name.as_str());
        key.append(":");
        key.append(command.as_str());
        assert(key@ == id_key(*source, name@, command@));
        let digest = sha256(key.as_str().as_bytes());
        let prefix = vstd::slice::slice_subrange(digest.as_slice(), 0, 8);
        hex_encode(prefix)
    }

    /// `path` with the recognised `%NAME%` placeholders replaced by their values.
    pub fn expand_env_vars(path: &[char], env: &EnvVars) -> (r: Vec<char>)
        ensures
            r@ == expand_spec(path@, *env),
    {
        proof {
            reveal_strlit("%SystemRoot%");
            reveal_strlit("%systemroot%");
            reveal_strlit("%ProgramFiles%");
            reveal_strlit("%programfiles%");
            reveal_strlit("%ProgramFiles(x86)%");
            reveal_strlit("%programfiles(x86)%");
            reveal_strlit("%USERPROFILE%");
            reveal_strlit("%userprofile%");
            reveal_strlit("%APPDATA%");
            reveal_strlit("%appdata%");
            reveal_strlit("%LOCALAPPDATA%");
            reveal_strlit("%localappdata%");
        }
        let s1 = expand_one_exec(path, "%SystemRoot%", "%systemroot%", &env.system_root, "C:\\Windows");
        let s2 = expand_one_exec(&s1, "%ProgramFiles%", "%programfiles%", &env.program_files, "C:\\Program Files");
        let s3 = expand_one_exec(
            &s2,
            "%ProgramFiles(x86)%",
            "%programfiles(x86)%",
            &env.program_files_x86,
            "C:\\Program Files (x86)",
        );
        let s4 = expand_one_exec(&s3, "%USERPROFILE%", "%userprofile%", &env.user_profile, "");
        let s5 = expand_one_exec(&s4, "%APPDATA%", "%appdata%", &env.app_data, "");
        expand_one_exec(&s5, "%LOCALAPPDATA%", "%localappdata%", &env.local_app_data, "")
    }

    /// The executable that `command` launches (see `executable_spec`).
    pub fn extract_executable_path(command: &String, env: &EnvVars) -> (r: Option<String>)
        ensures
            r matches Some(p) ==> executable_spec(command@, *env) == Some(p@),
            r is None <==> executable_spec(command@, *env) is None,
    {
        let all = chars_of(command.as_str());
        let t = trim_chars(&all, Strip::Whitespace, true, true);
        let ghost tv = t@;
        proof {
            lemma_first_index_range(tv.drop_first(), Strip::Only('"'));
            lemma_first_index_range(tv, Strip::Whitespace);
        }
        if t.len() > 0 && t[0] == '"' {
            let mut i: usize = 1;
            while i < t.len() && t[i] != '"'
                invariant
                    t@ == tv,
                    tv.len() > 0,
                    1 <= i <= tv.len(),
                    forall|j: int| 1 <= j < i ==> tv[j] != '"',
                decreases tv.len() - i,
            {
                i += 1;
            }
            if i < t.len() {
                proof {
                    let q = first_index(tv.drop_first(), Strip::Only('"'));
                    assert(tv.drop_first()[i - 1] == '"');
                    assert(q == i - 1) by {
                        if q < 0 || q > i - 1 {
                            assert(!Strip::Only('"').strips(tv.drop_first()[i - 1]));
                        }
                        if 0 <= q < i - 1 {
                            assert(tv.drop_first()[q] == tv[q + 1]);
                        }
                    }
                }
                let inner = crate::text::copy_range(&t, 1, i);
                let expanded = Self::expand_env_vars(&inner, env);
                return Some(string_of(&expanded));
            }
            proof {
                let q = first_index(tv.drop_first(), Strip::Only('"'));
                if q >= 0 {
                    assert(tv.drop_first()[q] == tv[q + 1]);
                }
            }
        }
        if t.len() == 0 {
            return None;
        }
        let mut w: usize = 0;
        while w < t.len() && !Strip::Whitespace.test(t[w])
            invariant
                t@ == tv,
                w <= tv.len(),
                forall|j: int| 0 <= j < w ==> !is_ws(tv[j]),
            decreases tv.len() - w,
        {
            w += 1;
        }
        proof {
            let f = first_index(tv, Strip::Whitespace);
            if w < tv.len() {
                assert(f == w as int) by {
                    if f < 0 || f > w {
                        assert(is_ws(tv[w as int]));
                    }
                    if 0 <= f < w {
                        assert(!is_ws(tv[f]));
                    }
                }
            } else {
                assert(f < 0) by {
                    if f >= 0 {
                        assert(!is_ws(tv[f]));
                    }
                }
                assert(tv.subrange(0, w as int) == tv);
            }
        }
        let word = crate::text::copy_range(&t, 0, w);
        let expanded = Self::expand_env_vars(&word, env);
        Some(string_of(&expanded))
    }

    pub fn with_status(self, status: ItemStatus) -> (r: StartupItem)
        ensures
            r == (StartupItem { status, ..self }),
    {
        let mut s = self;
        s.status = status;
        s
    }

    pub fn with_publisher(self, publisher: Option<String>) -> (r: StartupItem)
        ensures
            r == (StartupItem { publisher, ..self }),
    {
        let mut s = self;
        s.publisher = publisher;
        s
    }

    pub fn with_description(self, description: Option<String>) -> (r: StartupItem)
        ensures
            r == (StartupItem { description, ..self }),
    {
        let mut s = self;
        s.description = description;
        s
    }

    /// The command, cut to 57 bytes and "..." when it is longer than 60 bytes.
    pub fn display_command(&self) -> (r: String)
        requires
            encode_utf8(self.command@).len() > 60 ==> is_char_boundary(encode_utf8(self.command@), 57),
        ensures
            encode_utf8(self.command@).len() <= 60 ==> r@ == self.command@,
            encode_utf8(self.command@).len() > 60 ==> {
                &&& r@.len() >= 3
                &&& r@.subrange(r@.len() - 3, r@.len() as int) == "..."@
                &&& encode_utf8(r@.subrange(0, r@.len() - 3)) == encode_utf8(self.command@).subrange(0, 57)
            },
    {
        truncate_str(self.command.as_str(), 60)
    }

    /// The executable path where one was found, else the command.
    pub fn display_path(&self) -> (r: String)
        ensures
            r@ == (match self.executable_path {
                Some(p) => p@,
                None => self.command@,
            }),
    {
        match &self.executable_path {
            Some(p) => p.clone(),
            None => self.command.clone(),
        }
    }
}

/// Entries are the same entry when their ids agree.
impl PartialEq for StartupItem {
    fn eq(&self, other: &StartupItem) -> (r: bool)
        ensures
            r == (self.id@ == other.id@),
    {
        self.id == other.id
    }
}

impl vstd::std_specs::cmp::PartialEqSpecImpl for StartupItem {
    open spec fn obeys_eq_spec() -> bool {
        true
    }

    open spec fn eq_spec(&self, other: &StartupItem) -> bool {
        self.id@ == other.id@
    }
}

impl Eq for StartupItem {}

/// A copy of an optional string.
fn clone_opt(o: &Option<String>) -> (r: Option<String>)
    ensures
        r == *o,
{
    match o {
        Some(s) => Some(s.clone()),
        None => None,
    }
}

/// `path` with `var` and its lower-case form replaced by the variable's value,
/// or by `default` where it is not set.
fn expand_one_exec(path: &[char], var: &str, lower: &str, value: &Option<String>, default: &str) -> (r: Vec<char>)
    requires
        var@.len() > 0,
        lower@.len() > 0,
    ensures
        r@ == expand_one(path@, var@, lower@, value_or(*value, default@)),
{
    let val = match value {
        Some(v) => chars_of(v.as_str()),
        None => chars_of(default),
    };
    let v = chars_of(var);
    let l = chars_of(lower);
    let once = replace(path, &v, &val);
    replace(&once, &l, &val)
}

/// Two entries built from the same source type, name and command have the
/// same id, whatever their statuses.
pub proof fn lemma_id_stable(a: StartupItem, b: StartupItem)
    requires
        a.wf(),
        b.wf(),
        a.source == b.source,
        a.name@ == b.name@,
        a.command@ == b.command@,
    ensures
        a.id@ == b.id@,
{
}

} // verus!

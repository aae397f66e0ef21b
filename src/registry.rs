use vstd::prelude::*;

use crate::error::Error;
use crate::item::{EnvVars, StartupItem};
use crate::source_type::{AdapterKind, SourceType, HKCU_RUN, HKCU_RUN_ONCE, HKLM_RUN, HKLM_RUN_ONCE, HKLM_WOW6432_RUN};
use crate::status::ItemStatus;
use crate::text::{chars_of, code_of, string_of, trim_chars, trim_end_by, Strip};

verus! {

/// The sub-key of a run-key that holds its disabled values.
pub const DISABLED_SUBKEY: &'static str = "AutorunsDisabled";

/// A registry value type that holds a string (`REG_SZ`).
pub const REG_SZ: u32 = 1;

/// A registry value type that holds a string with placeholders (`REG_EXPAND_SZ`).
pub const REG_EXPAND_SZ: u32 = 2;

/// The root hive that a run-key lives under.
#[derive(Debug, Clone, Copy, PartialEq, Eq, Structural)]
pub enum RegistryHive {
    CurrentUser,
    LocalMachine,
}

/// The UTF-16 code units of one character.
pub open spec fn utf16_units(c: char) -> Seq<u16> {
    let n = c as int;
    if n < 0x10000 {
        seq![n as u16]
    } else {
        seq![(0xD800 + (n - 0x10000) / 0x400) as u16, (0xDC00 + (n - 0x10000) % 0x400) as u16]
    }
}

/// The UTF-16 encoding of a text.
pub open spec fn utf16_of(s: Seq<char>) -> Seq<u16>
    decreases s.len(),
{
    if s.len() == 0 {
        Seq::empty()
    } else {
        utf16_of(s.drop_last()) + utf16_units(s.last())
    }
}

/// The code units that little-endian byte pairs give; an odd last byte is
/// ignored.
pub open spec fn le_units(data: Seq<u8>) -> Seq<u16> {
    Seq::new(data.len() / 2, |i: int| (data[2 * i] as int + 256 * data[2 * i + 1] as int) as u16)
}

/// The bytes of code units, each little-endian.
pub open spec fn le_bytes(units: Seq<u16>) -> Seq<u8>
    decreases units.len(),
{
    if units.len() == 0 {
        Seq::empty()
    } else {
        le_bytes(units.drop_last()) + seq![(units.last() % 256) as u8, (units.last() / 256) as u8]
    }
}

/// The code points that UTF-16 code units decode to: a high surrogate
/// followed by a low one make one code point, any other surrogate becomes
/// U+FFFD, every other unit stands for itself.
pub open spec fn utf16_codes(units: Seq<u16>) -> Seq<int>
    decreases units.len(),
{
    if units.len() == 0 {
        Seq::empty()
    } else {
        let u = units[0] as int;
        if u < 0xD800 || u > 0xDFFF {
            seq![u] + utf16_codes(units.drop_first())
        } else if u <= 0xDBFF && units.len() >= 2 && 0xDC00 <= units[1] <= 0xDFFF {
            seq![0x10000 + (u - 0xD800) * 0x400 + (units[1] - 0xDC00)] + utf16_codes(
                units.subrange(2, units.len() as int),
            )
        } else {
            seq![0xFFFD] + utf16_codes(units.drop_first())
        }
    }
}

/// `s` holds the characters with code points `codes`.
pub open spec fn spells(s: Seq<char>, codes: Seq<int>) -> bool {
    s.len() == codes.len() && forall|i: int| 0 <= i < s.len() ==> #[trigger] s[i] as int == codes[i]
}

/// `codes` without its trailing zeros.
pub open spec fn trim_end_zeros(codes: Seq<int>) -> Seq<int>
    decreases codes.len(),
{
    if codes.len() > 0 && codes.last() == 0 {
        trim_end_zeros(codes.drop_last())
    } else {
        codes
    }
}

/// Relies on `String::from_utf16_lossy`: decodes UTF-16, replacing each
/// unpaired surrogate by U+FFFD.
#[verifier::external_body]
fn utf16_lossy(units: &[u16]) -> (r: String)
    ensures
        spells(r@, utf16_codes(units@)),
{
    String::from_utf16_lossy(units)
}

/// Trimming NULs from the characters trims zeros from their code points.
proof fn lemma_trim_nuls(s: Seq<char>, codes: Seq<int>)
    requires
        spells(s, codes),
    ensures
        spells(trim_end_by(s, Strip::Only('\0')), trim_end_zeros(codes)),
    decreases s.len(),
{
    if s.len() > 0 {
        assert(s.last() as int == codes.last());
        assert(('\0' as int) == 0);
        if s.last() == '\0' {
            assert(spells(s.drop_last(), codes.drop_last())) by {
                assert forall|i: int| 0 <= i < s.len() - 1 implies #[trigger] s.drop_last()[i] as int
                    == codes.drop_last()[i] by {
                    assert(s.drop_last()[i] == s[i]);
                }
            }
            lemma_trim_nuls(s.drop_last(), codes.drop_last());
        } else {
            assert(codes.last() != 0);
        }
    }
}

/// The string stored in a registry value's data: the characters of the
/// UTF-16 text with its trailing NULs removed.
pub open spec fn reg_string_ok(r: Seq<char>, data: Seq<u8>) -> bool {
    spells(r, trim_end_zeros(utf16_codes(le_units(data))))
}

/// The text held in a registry string value's data.
pub fn decode_reg_string(data: &[u8]) -> (r: String)
    ensures
        reg_string_ok(r@, data@),
{
    let mut units: Vec<u16> = Vec::new();
    let len = data.len();
    let n = len / 2;
    let mut i: usize = 0;
    while i < n
        invariant
            n == data@.len() / 2,
            len == data@.len(),
            i <= n,
            units@ == le_units(data@).subrange(0, i as int),
        decreases n - i,
    {
        assert(2 * i + 1 < data@.len() && 2 * i <= usize::MAX) by (nonlinear_arith)
            requires
                i < n,
                n == data@.len() / 2,
                data@.len() == len,
                len <= usize::MAX,
        ;
        let j: usize = 2 * i;
        let lo = data[j] as u16;
        let hi = data[j + 1] as u16;
        let u = lo + 256 * hi;
        units.push(u);
        assert(units@ == le_units(data@).subrange(0, i + 1));
        i += 1;
    }
    assert(le_units(data@).subrange(0, n as int) == le_units(data@));
    let text = utf16_lossy(&units);
    let cs = chars_of(text.as_str());
    proof {
        lemma_trim_nuls(cs@, utf16_codes(units@));
    }
    string_of(&trim_chars(&cs, Strip::Only('\0'), false, true))
}

/// A named value read from a run-key: kept when it holds a string and has a
/// name, as the pair of its name and text.
pub fn decode_value(value_type: u32, name: String, data: &[u8]) -> (r: Option<(String, String)>)
    ensures
        (value_type == REG_SZ || value_type == REG_EXPAND_SZ) && name@.len() > 0 ==> (r matches Some(
            (n, c),
        ) && n == name && reg_string_ok(c@, data@)),
        !((value_type == REG_SZ || value_type == REG_EXPAND_SZ) && name@.len() > 0) ==> r is None,
{
    if (value_type == REG_SZ || value_type == REG_EXPAND_SZ) && !name.as_str().is_empty() {
        Some((name, decode_reg_string(data)))
    } else {
        None
    }
}

/// The UTF-16 code units of `s` and a closing NUL, as the system API takes a
/// name.
pub fn to_wide(s: &str) -> (r: Vec<u16>)
    ensures
        r@ == utf16_of(s@).push(0),
{
    let cs = chars_of(s);
    let mut out: Vec<u16> = Vec::new();
    let mut i: usize = 0;
    while i < cs.len()
        invariant
            i <= cs@.len(),
            cs@ == s@,
            out@ == utf16_of(cs@.subrange(0, i as int)),
        decreases cs@.len() - i,
    {
        assert(cs@.subrange(0, i + 1).drop_last() == cs@.subrange(0, i as int));
        let n = code_of(cs[i]);
        if n < 0x10000 {
            out.push(n as u16);
        } else {
            let m = n - 0x10000;
            out.push((0xD800 + m / 0x400) as u16);
            out.push((0xDC00 + m % 0x400) as u16);
        }
        i += 1;
    }
    assert(cs@.subrange(0, cs@.len() as int) == cs@);
    out.push(0);
    out
}

/// The data bytes of a string value: its UTF-16 code units and a closing NUL,
/// each unit little-endian.
pub fn encode_reg_string(value: &str) -> (r: Vec<u8>)
    ensures
        r@ == le_bytes(utf16_of(value@).push(0)),
{
    let units = to_wide(value);
    let mut out: Vec<u8> = Vec::new();
    let mut i: usize = 0;
    while i < units.len()
        invariant
            i <= units@.len(),
            out@ == le_bytes(units@.subrange(0, i as int)),
        decreases units@.len() - i,
    {
        assert(units@.subrange(0, i + 1).drop_last() == units@.subrange(0, i as int));
        let u = units[i];
        out.push((u % 256) as u8);
        out.push((u / 256) as u8);
        i += 1;
    }
    assert(units@.subrange(0, units@.len() as int) == units@);
    out
}

/// The key that holds the disabled values of run-key `base`.
pub open spec fn disabled_path_of(base: Seq<char>) -> Seq<char> {
    base + "\\"@ + DISABLED_SUBKEY@
}

/// The run-key path of a source type, empty for one that is not registry-backed.
pub open spec fn key_path_or_empty(source: SourceType) -> Seq<char> {
    match source.key_path() {
        Some(p) => p,
        None => Seq::empty(),
    }
}

/// The entries read from one run-key and from its disabled sub-key.
pub open spec fn key_items_ok(
    items: Seq<StartupItem>,
    values: Seq<(String, String)>,
    location: Seq<char>,
    source: SourceType,
    status: ItemStatus,
    env: EnvVars,
) -> bool {
    &&& items.len() == values.len()
    &&& forall|k: int|
        0 <= k < values.len() ==> {
            let it = #[trigger] items[k];
            &&& it.built_under(env)
            &&& it.name@ == values[k].0@
            &&& it.command@ == values[k].1@
            &&& it.source == source
            &&& it.source_location@ == location
            &&& it.status == status
            &&& it.publisher is None
            &&& it.description is None
        }
}

/// The values that yield entries: those with a name and a command.
pub open spec fn usable_values(v: Seq<(String, String)>) -> Seq<(String, String)> {
    v.filter(|p: (String, String)| p.0@.len() > 0 && p.1@.len() > 0)
}

/// The adapter for the registry's run-keys.
pub struct RegistryScanner;

impl RegistryScanner {
    pub fn new() -> (r: RegistryScanner) {
        RegistryScanner
    }

    /// The source types this adapter owns.
    pub fn source_types(&self) -> (r: Vec<SourceType>)
        ensures
            r@ == seq![
                SourceType::RegistryCurrentUserRun,
                SourceType::RegistryCurrentUserRunOnce,
                SourceType::RegistryLocalMachineRun,
                SourceType::RegistryLocalMachineRunOnce,
                SourceType::RegistryLocalMachineWow6432,
            ],
            forall|k: int| 0 <= k < r@.len() ==> (#[trigger] r@[k]).owner() == AdapterKind::Registry,
    {
        vec![
            SourceType::RegistryCurrentUserRun,
            SourceType::RegistryCurrentUserRunOnce,
            SourceType::RegistryLocalMachineRun,
            SourceType::RegistryLocalMachineRunOnce,
            SourceType::RegistryLocalMachineWow6432,
        ]
    }

    /// The hive of a source type's run-key: the current user's for the
    /// current-user keys, else the machine's.
    pub fn get_root_key(&self, source: SourceType) -> (r: RegistryHive)
        ensures
            r == (if source.in_user_hive() {
                RegistryHive::CurrentUser
            } else {
                RegistryHive::LocalMachine
            }),
    {
        match source {
            SourceType::RegistryCurrentUserRun | SourceType::RegistryCurrentUserRunOnce => {
                RegistryHive::CurrentUser
            },
            _ => RegistryHive::LocalMachine,
        }
    }

    /// The run-key path of a source type, empty for one that is not
    /// registry-backed.
    pub fn get_key_path(&self, source: SourceType) -> (r: &'static str)
        ensures
            r@ == key_path_or_empty(source),
    {
        proof {
            reveal_strlit("");
        }
        match source.registry_path() {
            Some(p) => p,
            None => "",
        }
    }

    /// The key that holds the disabled values of run-key `base`.
    pub fn disabled_path(base: &str) -> (r: String)
        ensures
            r@ == disabled_path_of(base@),
    {
        String::from_str(base).concat("\\").concat(DISABLED_SUBKEY)
    }

    /// The run-keys that a scan reads, in order.
    pub fn run_keys(&self) -> (r: Vec<(RegistryHive, &'static str, SourceType)>)
        ensures
            r@.len() == 5,
            forall|k: int|
                0 <= k < 5 ==> {
                    let e = #[trigger] r@[k];
                    &&& e.2 == SourceType::all_spec()[k]
                    &&& e.0 == (if e.2.in_user_hive() {
                        RegistryHive::CurrentUser
                    } else {
                        RegistryHive::LocalMachine
                    })
                    &&& e.2.key_path() == Some(e.1@)
                },
    {
        vec![
            (RegistryHive::CurrentUser, HKCU_RUN, SourceType::RegistryCurrentUserRun),
            (RegistryHive::CurrentUser, HKCU_RUN_ONCE, SourceType::RegistryCurrentUserRunOnce),
            (RegistryHive::LocalMachine, HKLM_RUN, SourceType::RegistryLocalMachineRun),
            (RegistryHive::LocalMachine, HKLM_RUN_ONCE, SourceType::RegistryLocalMachineRunOnce),
            (RegistryHive::LocalMachine, HKLM_WOW6432_RUN, SourceType::RegistryLocalMachineWow6432),
        ]
    }

    /// Entries for the values of one key that have a name and a command.
    fn items_of_values(values: &Vec<(String, String)>, source: SourceType, location: &String, status: ItemStatus, env: &EnvVars) -> (r: Vec<StartupItem>)
        ensures
            key_items_ok(r@, usable_values(values@), location@, source, status, *env),
    {
        let mut out: Vec<StartupItem> = Vec::new();
        let mut i: usize = 0;
        while i < values.len()
            invariant
                i <= values@.len(),
                key_items_ok(out@, usable_values(values@.subrange(0, i as int)), location@, source, status, *env),
            decreases values@.len() - i,
        {
            let (name, command) = &values[i];
            let ghost before = out@;
            proof {
                let pre = values@.subrange(0, i as int);
                assert(values@.subrange(0, i + 1) == pre.push(values@[i as int]));
                pre.lemma_filter_push(
                    values@[i as int],
                    |p: (String, String)| p.0@.len() > 0 && p.1@.len() > 0,
                );
            }
            if !name.as_str().is_empty() && !command.as_str().is_empty() {
                let item = StartupItem::new(name.clone(), source, location.clone(), command.clone(), env).with_status(status);
                out.push(item);
                assert forall|k: int| 0 <= k < out@.len() - 1 implies out@[k] == before[k] by {}
            }
            i += 1;
        }
        assert(values@.subrange(0, values@.len() as int) == values@);
        out
    }

    /// The entries of one run-key: its usable values as enabled entries, then
    /// those of its disabled sub-key as disabled entries.
    pub fn scan_registry_key(
        &self,
        enabled: &Vec<(String, String)>,
        disabled: &Vec<(String, String)>,
        path: &str,
        source: SourceType,
        env: &EnvVars,
    ) -> (r: Vec<StartupItem>)
        ensures
            ({
                let e = usable_values(enabled@);
                let d = usable_values(disabled@);
                &&& key_items_ok(r@.subrange(0, e.len() as int), e, path@, source, ItemStatus::Enabled, *env)
                &&& key_items_ok(r@.subrange(e.len() as int, r@.len() as int), d, disabled_path_of(path@), source, ItemStatus::Disabled, *env)
                &&& r@.len() == e.len() + d.len()
            }),
    {
        let location = String::from_str(path);
        let mut items = Self::items_of_values(enabled, source, &location, ItemStatus::Enabled, env);
        let dpath = Self::disabled_path(path);
        let more = Self::items_of_values(disabled, source, &dpath, ItemStatus::Disabled, env);
        let ghost a = items@;
        let mut more = more;
        let ghost b = more@;
        items.append(&mut more);
        assert(items@ == a + b);
        assert(items@.subrange(0, a.len() as int) == a);
        assert(items@.subrange(a.len() as int, items@.len() as int) == b);
        items
    }
}

} // verus!

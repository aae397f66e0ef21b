use vstd::prelude::*;

use crate::error::Error;
use crate::item::StartupItem;
use crate::registry::{disabled_path_of, key_path_or_empty, RegistryHive, RegistryScanner};

verus! {

/// The next operation of a relocation, or how it ended.
#[derive(Debug, Clone, Copy, PartialEq, Eq, Structural)]
pub enum RelocationStep {
    /// Open the key that holds the value, for writing.
    OpenSource,
    /// Read the value by name.
    ReadValue,
    /// Create or open the key the value moves to.
    CreateTarget,
    /// Write the value under the target key.
    WriteTarget,
    /// Delete the value from the source key.
    DeleteSource,
    Done,
    Failed,
}

/// What performing the current operation gave.
pub enum RegistryEvent {
    /// It succeeded.
    Succeeded,
    /// The read found this value.
    Value(String),
    /// It was refused, for the reason given.
    Refused(String),
}

/// Moving one named value from one key to another: read, then write, then
/// delete, and never delete unless the write succeeded.
pub struct Relocation {
    pub hive: RegistryHive,
    pub from_path: String,
    pub to_path: String,
    pub name: String,
    /// The value once read.
    pub value: Option<String>,
    pub step: RelocationStep,
    /// Why it failed, once it has.
    pub error: Option<Error>,
}

/// The relocation after `ev`.
pub open spec fn reloc_next(r: Relocation, ev: RegistryEvent) -> Relocation {
    match r.step {
        RelocationStep::OpenSource => match ev {
            RegistryEvent::Succeeded => Relocation { step: RelocationStep::ReadValue, ..r },
            RegistryEvent::Value(_) => Relocation { step: RelocationStep::ReadValue, ..r },
            RegistryEvent::Refused(why) => Relocation {
                step: RelocationStep::Failed,
                error: Some(Error::PermissionDenied { message: why }),
                ..r
            },
        },
        RelocationStep::ReadValue => match ev {
            RegistryEvent::Value(v) => Relocation { step: RelocationStep::CreateTarget, value: Some(v), ..r },
            RegistryEvent::Succeeded => Relocation {
                step: RelocationStep::Failed,
                error: Some(Error::ItemNotFound { id: r.name }),
                ..r
            },
            RegistryEvent::Refused(why) => Relocation {
                step: RelocationStep::Failed,
                error: Some(Error::ItemNotFound { id: why }),
                ..r
            },
        },
        RelocationStep::CreateTarget => match ev {
            RegistryEvent::Refused(why) => Relocation {
                step: RelocationStep::Failed,
                error: Some(Error::PermissionDenied { message: why }),
                ..r
            },
            _ => Relocation { step: RelocationStep::WriteTarget, ..r },
        },
        RelocationStep::WriteTarget => match ev {
            RegistryEvent::Refused(why) => Relocation {
                step: RelocationStep::Failed,
                error: Some(Error::PermissionDenied { message: why }),
                ..r
            },
            _ => Relocation { step: RelocationStep::DeleteSource, ..r },
        },
        RelocationStep::DeleteSource => match ev {
            RegistryEvent::Refused(why) => Relocation {
                step: RelocationStep::Failed,
                error: Some(Error::PermissionDenied { message: why }),
                ..r
            },
            _ => Relocation { step: RelocationStep::Done, ..r },
        },
        _ => r,
    }
}

impl Relocation {
    /// The plan for disabling a registry entry: its value moves from the
    /// run-key to the run-key's disabled sub-key.
    pub fn disable_plan(item: &StartupItem) -> (r: Relocation)
        ensures
            r.from_path@ == key_path_or_empty(item.source),
            r.to_path@ == disabled_path_of(key_path_or_empty(item.source)),
            r.name@ == item.name@,
            r.hive == (if item.source.in_user_hive() {
                RegistryHive::CurrentUser
            } else {
                RegistryHive::LocalMachine
            }),
            r.value is None,
            r.error is None,
            r.step == RelocationStep::OpenSource,
    {
        let scanner = RegistryScanner::new();
        let base = scanner.get_key_path(item.source);
        Relocation {
            hive: scanner.get_root_key(item.source),
            from_path: String::from_str(base),
            to_path: RegistryScanner::disabled_path(base),
            name: item.name.clone(),
            value: None,
            step: RelocationStep::OpenSource,
            error: None,
        }
    }

    /// The plan for enabling a registry entry: its value moves back from the
    /// disabled sub-key to the run-key.
    pub fn enable_plan(item: &StartupItem) -> (r: Relocation)
        ensures
            r.from_path@ == disabled_path_of(key_path_or_empty(item.source)),
            r.to_path@ == key_path_or_empty(item.source),
            r.name@ == item.name@,
            r.hive == (if item.source.in_user_hive() {
                RegistryHive::CurrentUser
            } else {
                RegistryHive::LocalMachine
            }),
            r.value is None,
            r.error is None,
            r.step == RelocationStep::OpenSource,
    {
        let scanner = RegistryScanner::new();
        let base = scanner.get_key_path(item.source);
        Relocation {
            hive: scanner.get_root_key(item.source),
            from_path: RegistryScanner::disabled_path(base),
            to_path: String::from_str(base),
            name: item.name.clone(),
            value: None,
            step: RelocationStep::OpenSource,
            error: None,
        }
    }

    /// Takes in what the current operation gave.
    pub fn advance(&mut self, ev: RegistryEvent)
        ensures
            *final(self) == reloc_next(*old(self), ev),
    {
        match self.step {
            RelocationStep::OpenSource => {
                if let RegistryEvent::Refused(why) = ev {
                    self.error = Some(Error::PermissionDenied { message: why });
                    self.step = RelocationStep::Failed;
                } else {
                    self.step = RelocationStep::ReadValue;
                }
            },
            RelocationStep::ReadValue => match ev {
                RegistryEvent::Value(v) => {
                    self.value = Some(v);
                    self.step = RelocationStep::CreateTarget;
                },
                RegistryEvent::Succeeded => {
                    self.error = Some(Error::ItemNotFound { id: self.name.clone() });
                    self.step = RelocationStep::Failed;
                },
                RegistryEvent::Refused(why) => {
                    self.error = Some(Error::ItemNotFound { id: why });
                    self.step = RelocationStep::Failed;
                },
            },
            RelocationStep::CreateTarget => {
                if let RegistryEvent::Refused(why) = ev {
                    self.error = Some(Error::PermissionDenied { message: why });
                    self.step = RelocationStep::Failed;
                } else {
                    self.step = RelocationStep::WriteTarget;
                }
            },
            RelocationStep::WriteTarget => {
                if let RegistryEvent::Refused(why) = ev {
                    self.error = Some(Error::PermissionDenied { message: why });
                    self.step = RelocationStep::Failed;
                } else {
                    self.step = RelocationStep::DeleteSource;
                }
            },
            RelocationStep::DeleteSource => {
                if let RegistryEvent::Refused(why) = ev {
                    self.error = Some(Error::PermissionDenied { message: why });
                    self.step = RelocationStep::Failed;
                } else {
                    self.step = RelocationStep::Done;
                }
            },
            _ => {},
        }
    }

    /// Whether the relocation has ended, and how: `Ok` once the value moved,
    /// the error once it failed.
    pub fn outcome(&self) -> (r: Option<Result<(), Error>>)
        ensures
            self.step == RelocationStep::Done ==> r == Some(Ok::<(), Error>(())),
            self.step == RelocationStep::Failed && self.error is Some ==> r == Some(
                Err::<(), Error>(self.error->0),
            ),
            self.step == RelocationStep::Failed && self.error is None ==> r == Some(
                Err::<(), Error>(Error::ChangeFailed),
            ),
            self.step != RelocationStep::Done && self.step != RelocationStep::Failed ==> r is None,
    {
        match self.step {
            RelocationStep::Done => Some(Ok(())),
            RelocationStep::Failed => match &self.error {
                Some(e) => Some(Err(e.duplicate())),
                None => Some(Err(Error::ChangeFailed)),
            },
            _ => None,
        }
    }
}

/// The source value is deleted only right after a successful write: a
/// refused write ends the relocation.
pub proof fn lemma_delete_only_after_write(r: Relocation, ev: RegistryEvent)
    ensures
        reloc_next(r, ev).step == RelocationStep::DeleteSource ==> r.step == RelocationStep::WriteTarget
            && !(ev is Refused),
        r.step == RelocationStep::WriteTarget && ev is Refused ==> reloc_next(r, ev).step
            == RelocationStep::Failed,
{
}

/// The values of one hive: for each key path, its values by name.
pub type RegModel = Map<Seq<char>, Map<Seq<char>, Seq<char>>>;

/// The values under `path`, none where the key is missing.
pub open spec fn values_at(m: RegModel, path: Seq<char>) -> Map<Seq<char>, Seq<char>> {
    if m.dom().contains(path) {
        m[path]
    } else {
        Map::empty()
    }
}

/// What a successful operation of `r` does to the hive.
pub open spec fn effect(m: RegModel, r: Relocation) -> RegModel {
    match r.step {
        RelocationStep::CreateTarget => m.insert(r.to_path@, values_at(m, r.to_path@)),
        RelocationStep::WriteTarget => match r.value {
            Some(v) => m.insert(r.to_path@, values_at(m, r.to_path@).insert(r.name@, v@)),
            None => m,
        },
        RelocationStep::DeleteSource => m.insert(r.from_path@, values_at(m, r.from_path@).remove(r.name@)),
        _ => m,
    }
}

/// The hive and relocation after `n` operations that all succeed, `v` being
/// what the read gives.
pub open spec fn run(m: RegModel, r: Relocation, v: String, n: nat) -> (RegModel, Relocation)
    decreases n,
{
    if n == 0 {
        (m, r)
    } else {
        let ev = if r.step == RelocationStep::ReadValue {
            RegistryEvent::Value(v)
        } else {
            RegistryEvent::Succeeded
        };
        run(effect(m, r), reloc_next(r, ev), v, (n - 1) as nat)
    }
}

/// The hive after a value moves from `from` to `to`.
pub open spec fn relocate(m: RegModel, from: Seq<char>, to: Seq<char>, name: Seq<char>) -> RegModel {
    let moved = m.insert(to, values_at(m, to).insert(name, values_at(m, from)[name]));
    moved.insert(from, values_at(moved, from).remove(name))
}


/// A relocation whose operations all succeed, starting where the value is,
/// moves it: the hive ends as `relocate` says.
pub proof fn lemma_run_relocates(m: RegModel, r: Relocation, v: String)
    requires
        r.step == RelocationStep::OpenSource,
        r.from_path@ != r.to_path@,
        values_at(m, r.from_path@).contains_key(r.name@),
        v@ == values_at(m, r.from_path@)[r.name@],
    ensures
        run(m, r, v, 5).1.step == RelocationStep::Done,
        run(m, r, v, 5).0 == relocate(m, r.from_path@, r.to_path@, r.name@),
{
    let r1 = reloc_next(r, RegistryEvent::Succeeded);
    let r2 = reloc_next(r1, RegistryEvent::Value(v));
    let m2 = effect(m, r2);
    let r3 = reloc_next(r2, RegistryEvent::Succeeded);
    let m3 = effect(m2, r3);
    let r4 = reloc_next(r3, RegistryEvent::Succeeded);
    let m4 = effect(m3, r4);
    let r5 = reloc_next(r4, RegistryEvent::Succeeded);
    assert(run(m, r, v, 5) == run(effect(m, r), r1, v, 4));
    assert(effect(m, r) == m);
    assert(run(m, r1, v, 4) == run(effect(m, r1), r2, v, 3));
    assert(effect(m, r1) == m);
    assert(run(m, r2, v, 3) == run(m2, r3, v, 2));
    assert(run(m2, r3, v, 2) == run(m3, r4, v, 1));
    assert(run(m3, r4, v, 1) == run(m4, r5, v, 0));
    assert(r5.step == RelocationStep::Done);
    let from = r.from_path@;
    let to = r.to_path@;
    let name = r.name@;
    assert(values_at(m2, from) == values_at(m, from));
    assert(values_at(m3, from) == values_at(m, from));
    assert(m4 =~= relocate(m, from, to, name));
}

/// Disabling a registry value and then enabling it again restores the run-key
/// exactly and leaves nothing of it under the disabled sub-key: `d` moves the
/// value from the run-key to the sub-key, `e` moves it back, and each read
/// gives what the hive holds.
pub proof fn lemma_relocation_round_trip(m: RegModel, d: Relocation, e: Relocation, v1: String, v2: String)
    requires
        d.step == RelocationStep::OpenSource,
        e.step == RelocationStep::OpenSource,
        e.from_path@ == d.to_path@,
        e.to_path@ == d.from_path@,
        e.name@ == d.name@,
        d.from_path@ != d.to_path@,
        values_at(m, d.from_path@).contains_key(d.name@),
        !values_at(m, d.to_path@).contains_key(d.name@),
        v1@ == values_at(m, d.from_path@)[d.name@],
        v2@ == v1@,
    ensures
        run(m, d, v1, 5).1.step == RelocationStep::Done,
        run(run(m, d, v1, 5).0, e, v2, 5).1.step == RelocationStep::Done,
        values_at(run(run(m, d, v1, 5).0, e, v2, 5).0, d.from_path@) == values_at(m, d.from_path@),
        values_at(run(run(m, d, v1, 5).0, e, v2, 5).0, d.from_path@)[d.name@] == v1@,
        !values_at(run(run(m, d, v1, 5).0, e, v2, 5).0, d.to_path@).contains_key(d.name@),
{
    let run_key = d.from_path@;
    let dis = d.to_path@;
    let name = d.name@;
    lemma_run_relocates(m, d, v1);
    let m1 = relocate(m, run_key, dis, name);
    assert(values_at(m1, dis).contains_key(name));
    assert(values_at(m1, dis)[name] == v1@);
    lemma_run_relocates(m1, e, v2);
    let m2 = relocate(m1, dis, run_key, name);
    assert(values_at(m2, run_key) =~= values_at(m, run_key));
    assert(values_at(m2, dis) =~= values_at(m, dis));
}

} // verus!

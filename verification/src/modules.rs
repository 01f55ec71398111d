//! The rules of the module registry: the system tables that hold modules and
//! their versions, who may change them, and what pushing a set of modules
//! adds and removes.
//!
//! Reading and writing the tables is the database's work. What is decided
//! here takes what the database answered as plain values: the caller's
//! identity, the paths already registered and the version a module is at.

use std::collections::BTreeSet;
use vstd::prelude::*;

verus! {

/// A version of a module. The first version of a module is 0.
pub type ModuleVersion = i64;

/// Name of an index of a system table.
#[derive(Debug)]
pub struct IndexName {
    pub table: &'static str,
    pub descriptor: &'static str,
}

/// An index of a system table and the fields it is keyed by, in order.
#[derive(Debug)]
pub struct SystemIndex {
    pub name: IndexName,
    pub fields: Vec<&'static str>,
}

/// The table of user modules.
pub struct ModulesTable;

/// The table of the versions of modules.
pub struct ModuleVersionsTable;

impl ModulesTable {
    /// `_modules`.
    pub fn table_name(&self) -> (name: &'static str)
        ensures
            name@ == "_modules"@,
    {
        "_modules"
    }

    /// Two indexes: `by_path` on the path, and `by_deleted` on the deleted
    /// flag and then the path.
    pub fn indexes(&self) -> (indexes: Vec<SystemIndex>)
        ensures
            indexes@.len() == 2,
            indexes@[0].name.table@ == "_modules"@,
            indexes@[0].name.descriptor@ == "by_path"@,
            indexes@[0].fields@.len() == 1,
            indexes@[0].fields@[0]@ == "path"@,
            indexes@[1].name.table@ == "_modules"@,
            indexes@[1].name.descriptor@ == "by_deleted"@,
            indexes@[1].fields@.len() == 2,
            indexes@[1].fields@[0]@ == "deleted"@,
            indexes@[1].fields@[1]@ == "path"@,
    {
        let mut by_path: Vec<&'static str> = Vec::new();
        by_path.push("path");
        let mut by_deleted: Vec<&'static str> = Vec::new();
        by_deleted.push("deleted");
        by_deleted.push("path");
        let mut indexes: Vec<SystemIndex> = Vec::new();
        indexes.push(
            SystemIndex {
                name: IndexName { table: "_modules", descriptor: "by_path" },
                fields: by_path,
            },
        );
        indexes.push(
            SystemIndex {
                name: IndexName { table: "_modules", descriptor: "by_deleted" },
                fields: by_deleted,
            },
        );
        indexes
    }
}

impl ModuleVersionsTable {
    /// `_module_versions`.
    pub fn table_name(&self) -> (name: &'static str)
        ensures
            name@ == "_module_versions"@,
    {
        "_module_versions"
    }

    /// One index: `by_module_and_version` on the module id and then the
    /// version.
    pub fn indexes(&self) -> (indexes: Vec<SystemIndex>)
        ensures
            indexes@.len() == 1,
            indexes@[0].name.table@ == "_module_versions"@,
            indexes@[0].name.descriptor@ == "by_module_and_version"@,
            indexes@[0].fields@.len() == 2,
            indexes@[0].fields@[0]@ == "module_id"@,
            indexes@[0].fields@[1]@ == "version"@,
    {
        let mut fields: Vec<&'static str> = Vec::new();
        fields.push("module_id");
        fields.push("version");
        let mut indexes: Vec<SystemIndex> = Vec::new();
        indexes.push(
            SystemIndex {
                name: IndexName {
                    table: "_module_versions",
                    descriptor: "by_module_and_version",
                },
                fields,
            },
        );
        indexes
    }
}

/// Who is asking.
#[derive(Clone, Copy, Debug, PartialEq, Eq, Structural)]
pub enum Identity {
    Admin,
    System,
    User,
}

/// What the registry rules read of a canonical module path.
#[derive(Clone, Copy, Debug, PartialEq, Eq, Structural)]
pub struct ModulePath {
    /// Stands for the path: equal paths have equal keys, and keys are
    /// ordered as the paths are.
    pub key: u64,
    /// Whether the path lies under the system directory.
    pub system: bool,
    /// Whether the path lies under the dependencies directory.
    pub deps: bool,
}

/// Why a registry operation was refused.
#[derive(Clone, Copy, Debug, PartialEq, Eq, Structural)]
pub enum ModuleError {
    /// The caller is neither an administrator nor the system.
    Unauthorized,
    /// Modules cannot be pushed under the system directory.
    SystemDirectory,
    /// A pushed module that is not a dependency came without its analysis.
    MissingAnalyzeResult,
    /// A module that is not a dependency needs an analysis to be stored.
    AnalyzedModuleRequired,
    /// The module points at a version that is not stored.
    DanglingVersion,
    /// The stored version is not the one asked for.
    VersionMismatch,
    /// The stored module has no analysis although it is not a dependency.
    AnalyzeResultExpected,
    /// The functions, source maps and dependencies of a module are too large
    /// to be stored.
    ModulesTooLarge,
    /// The database refused to store a module for a reason of its own.
    Database,
}

/// Why the database refused to store a value, as far as the registry tells
/// the reasons apart.
#[derive(Clone, Copy, Debug, PartialEq, Eq, Structural)]
pub enum StoreFault {
    /// The value is larger than a stored value may be.
    ValueTooLarge,
    /// Anything else.
    Other,
}

/// Why a function could not be found; the caller's mistake, not a fault.
#[derive(Clone, Copy, Debug, PartialEq, Eq, Structural)]
pub enum LookupError {
    ModuleNotFound,
    FunctionNotFound,
}

/// What pushing a set of modules changed.
#[derive(Debug)]
pub struct ModuleDiff {
    /// Keys of the paths that were not registered before.
    pub added: BTreeSet<u64>,
    /// Keys of the paths that are no longer registered.
    pub removed: BTreeSet<u64>,
}

/// The mathematical content of a [`ModuleDiff`].
pub struct DiffView {
    pub added: Set<u64>,
    pub removed: Set<u64>,
}

impl View for ModuleDiff {
    type V = DiffView;

    open spec fn view(&self) -> DiffView {
        DiffView { added: self.added@, removed: self.removed@ }
    }
}

/// Whether `identity` may change the registry.
pub open spec fn may_administer(identity: Identity) -> bool {
    identity == Identity::Admin || identity == Identity::System
}

/// The version a module gets when it is stored: 0 for a new module, the
/// successor of its latest version otherwise.
pub open spec fn next_version(latest: Option<ModuleVersion>) -> int {
    match latest {
        Some(version) => version + 1,
        None => 0,
    }
}

/// The keys of the application modules among `registered`: all but those
/// under the system directory.
pub open spec fn application_keys(registered: Seq<ModulePath>) -> Set<u64> {
    Set::new(
        |key: u64|
            exists|i: int|
                0 <= i < registered.len() && #[trigger] registered[i].key == key
                    && !registered[i].system,
    )
}

/// Whether no two application modules among `registered` have the same path.
pub open spec fn application_paths_distinct(registered: Seq<ModulePath>) -> bool {
    forall|i: int, j: int|
        0 <= i < j < registered.len() && !registered[i].system && !registered[j].system
            ==> registered[i].key != registered[j].key
}

/// Whether `positions` lists, in rising order, the positions of exactly the
/// application modules among `registered`.
pub open spec fn lists_application_modules(registered: Seq<ModulePath>, positions: Seq<usize>)
    -> bool {
    &&& forall|k: int|
        0 <= k < positions.len() ==> positions[k] < registered.len()
            && !registered[positions[k] as int].system
    &&& forall|k: int, l: int| 0 <= k < l < positions.len() ==> positions[k] < positions[l]
    &&& forall|i: int|
        0 <= i < registered.len() && !registered[i].system ==> positions.contains(i as usize)
}

/// What storing a module's source answers, given how the database took it.
pub open spec fn source_answer(outcome: Result<(), StoreFault>) -> Result<(), ModuleError> {
    match outcome {
        Ok(()) => Ok(()),
        Err(StoreFault::ValueTooLarge) => Err(ModuleError::ModulesTooLarge),
        Err(StoreFault::Other) => Err(ModuleError::Database),
    }
}

/// Whether storing a module at `path` hands out a version.
pub open spec fn stores(identity: Identity, path: ModulePath, analyzed: bool) -> bool {
    may_administer(identity) && !path.system && (path.deps || analyzed)
}

/// The set that `keys` lists.
pub open spec fn key_set(keys: Seq<u64>) -> Set<u64> {
    Set::new(|key: u64| keys.contains(key))
}

/// What happens to one pushed module after the other, from `modules[from]`
/// on. `remaining` holds the registered paths not pushed so far, `added` the
/// pushed paths that were not registered, `analyzed` the paths whose analysis
/// has not been used yet.
pub open spec fn push_from(
    authorized: bool,
    modules: Seq<ModulePath>,
    from: int,
    remaining: Set<u64>,
    added: Set<u64>,
    analyzed: Set<u64>,
) -> Result<DiffView, ModuleError>
    decreases modules.len() - from,
{
    if from < 0 || from >= modules.len() {
        if !remaining.is_empty() && !authorized {
            Err(ModuleError::Unauthorized)
        } else {
            Ok(DiffView { added, removed: remaining })
        }
    } else {
        let module = modules[from];
        if !module.deps && !analyzed.contains(module.key) {
            Err(ModuleError::MissingAnalyzeResult)
        } else if !authorized {
            Err(ModuleError::Unauthorized)
        } else if module.system {
            Err(ModuleError::SystemDirectory)
        } else {
            push_from(
                authorized,
                modules,
                from + 1,
                remaining.remove(module.key),
                if remaining.contains(module.key) {
                    added
                } else {
                    added.insert(module.key)
                },
                if module.deps {
                    analyzed
                } else {
                    analyzed.remove(module.key)
                },
            )
        }
    }
}

/// What pushing `modules` answers: nothing may lie under the system
/// directory; then the modules are stored one after the other, each
/// non-dependency with its own analysis, and what was registered but not
/// pushed is deleted.
pub open spec fn push_answer(
    identity: Identity,
    registered: Seq<ModulePath>,
    modules: Seq<ModulePath>,
    analyzed: Seq<u64>,
) -> Result<DiffView, ModuleError> {
    if exists|i: int| 0 <= i < modules.len() && modules[i].system {
        Err(ModuleError::SystemDirectory)
    } else {
        push_from(
            may_administer(identity),
            modules,
            0,
            application_keys(registered),
            Set::empty(),
            key_set(analyzed),
        )
    }
}

/// Integer keys are ordered the way the ordered sets expect.
proof fn lemma_keys_are_ordered()
    ensures
        vstd::laws_cmp::obeys_cmp::<u64>(),
{
    broadcast use vstd::laws_cmp::group_laws_cmp;

}

/// The keys of the application modules among `registered`.
fn application_key_set(registered: &Vec<ModulePath>) -> (keys: BTreeSet<u64>)
    ensures
        keys@ == application_keys(registered@),
{
    let mut keys: BTreeSet<u64> = BTreeSet::new();
    let mut i: usize = 0;
    while i < registered.len()
        invariant
            i <= registered.len(),
            keys@ == application_keys(registered@.take(i as int)),
        decreases registered.len() - i,
    {
        let ghost before = keys@;
        proof {
            lemma_keys_are_ordered();
        }
        if !registered[i].system {
            keys.insert(registered[i].key);
        }
        i = i + 1;
        proof {
            let shorter = registered@.take(i - 1);
            let longer = registered@.take(i as int);
            assert forall|key: u64| keys@.contains(key) == application_keys(longer).contains(
                key,
            ) by {
                if application_keys(longer).contains(key) {
                    let j = choose|j: int|
                        0 <= j < longer.len() && #[trigger] longer[j].key == key
                            && !longer[j].system;
                    if j < i - 1 {
                        assert(shorter[j].key == key && !shorter[j].system);
                    }
                }
                if before.contains(key) {
                    let j = choose|j: int|
                        0 <= j < shorter.len() && #[trigger] shorter[j].key == key
                            && !shorter[j].system;
                    assert(longer[j].key == key && !longer[j].system);
                }
                if key == registered@[i - 1].key && !registered@[i - 1].system {
                    assert(longer[i - 1].key == key && !longer[i - 1].system);
                }
            }
            assert(keys@ =~= application_keys(longer));
        }
    }
    assert(registered@.take(registered.len() as int) =~= registered@);
    keys
}

/// The set that `keys` lists.
fn key_set_of(keys: &Vec<u64>) -> (set: BTreeSet<u64>)
    ensures
        set@ == key_set(keys@),
{
    let mut set: BTreeSet<u64> = BTreeSet::new();
    let mut i: usize = 0;
    while i < keys.len()
        invariant
            i <= keys.len(),
            set@ == key_set(keys@.take(i as int)),
        decreases keys.len() - i,
    {
        proof {
            lemma_keys_are_ordered();
        }
        set.insert(keys[i]);
        i = i + 1;
        proof {
            let shorter = keys@.take(i - 1);
            let longer = keys@.take(i as int);
            assert forall|key: u64| set@.contains(key) == longer.contains(key) by {
                if longer.contains(key) {
                    let j = choose|j: int| 0 <= j < longer.len() && longer[j] == key;
                    if j < i - 1 {
                        assert(shorter[j] == key);
                    }
                }
                if shorter.contains(key) {
                    let j = choose|j: int| 0 <= j < shorter.len() && shorter[j] == key;
                    assert(longer[j] == key);
                }
                if key == keys@[i - 1] {
                    assert(longer[i - 1] == key);
                }
            }
            assert(set@ =~= key_set(longer));
        }
    }
    assert(keys@.take(keys.len() as int) =~= keys@);
    set
}

/// The registry rules as they apply to one caller.
#[derive(Clone, Copy, Debug)]
pub struct ModuleModel {
    identity: Identity,
}

impl View for ModuleModel {
    type V = Identity;

    closed spec fn view(&self) -> Identity {
        self.identity
    }
}

impl ModuleModel {
    /// The rules for a caller with this identity.
    pub fn new(identity: Identity) -> (model: ModuleModel)
        ensures
            model@ == identity,
    {
        ModuleModel { identity }
    }

    /// Whether the caller may change the registry.
    pub fn authorized(&self) -> (allowed: bool)
        ensures
            allowed == may_administer(self@),
    {
        match self.identity {
            Identity::Admin => true,
            Identity::System => true,
            Identity::User => false,
        }
    }

    /// Pushes `modules` against what is `registered`, given the paths that
    /// came with an `analyzed` result, and says what was added and removed.
    pub fn apply(
        &self,
        registered: &Vec<ModulePath>,
        modules: &Vec<ModulePath>,
        analyzed: &Vec<u64>,
    ) -> (diff: Result<ModuleDiff, ModuleError>)
        ensures
            match diff {
                Ok(changes) => push_answer(self@, registered@, modules@, analyzed@) == Ok::<
                    DiffView,
                    ModuleError,
                >(changes@),
                Err(error) => push_answer(self@, registered@, modules@, analyzed@) == Err::<
                    DiffView,
                    ModuleError,
                >(error),
            },
    {
        broadcast use vstd::std_specs::btree::group_btree_axioms;

        let mut k: usize = 0;
        while k < modules.len()
            invariant
                k <= modules.len(),
                forall|i: int| 0 <= i < k ==> !modules@[i].system,
            decreases modules.len() - k,
        {
            if modules[k].system {
                return Err(ModuleError::SystemDirectory);
            }
            k = k + 1;
        }
        let authorized = self.authorized();
        let mut remaining = self.get_application_metadata(registered);
        let mut added: BTreeSet<u64> = BTreeSet::new();
        let mut unused = key_set_of(analyzed);
        let mut i: usize = 0;
        while i < modules.len()
            invariant
                i <= modules.len(),
                authorized == may_administer(self@),
                forall|j: int| 0 <= j < modules.len() ==> !modules@[j].system,
                push_answer(self@, registered@, modules@, analyzed@) == push_from(
                    authorized,
                    modules@,
                    i as int,
                    remaining@,
                    added@,
                    unused@,
                ),
            decreases modules.len() - i,
        {
            let module = modules[i];
            proof {
                lemma_keys_are_ordered();
            }
            if !module.deps {
                if !unused.remove(&module.key) {
                    return Err(ModuleError::MissingAnalyzeResult);
                }
            }
            if !authorized {
                return Err(ModuleError::Unauthorized);
            }
            if !remaining.remove(&module.key) {
                added.insert(module.key);
            }
            i = i + 1;
        }
        if !remaining.is_empty() && !authorized {
            return Err(ModuleError::Unauthorized);
        }
        Ok(ModuleDiff { added, removed: remaining })
    }

    /// The keys of the registered modules that are application modules:
    /// all but those under the system directory.
    pub fn get_application_metadata(&self, registered: &Vec<ModulePath>) -> (keys: BTreeSet<u64>)
        ensures
            keys@ == application_keys(registered@),
    {
        application_key_set(registered)
    }

    /// Whether the caller may read the metadata of the module at `path`:
    /// system modules are for administrators and the system only.
    pub fn get_metadata(&self, path: ModulePath) -> (allowed: Result<(), ModuleError>)
        ensures
            allowed == (if path.system && !may_administer(self@) {
                Err::<(), ModuleError>(ModuleError::Unauthorized)
            } else {
                Ok::<(), ModuleError>(())
            }),
    {
        if path.system && !self.authorized() {
            Err(ModuleError::Unauthorized)
        } else {
            Ok(())
        }
    }

    /// Checks the version document that was found for a module against the
    /// version asked for.
    pub fn get_version(stored: Option<Option<ModuleVersion>>, version: ModuleVersion) -> (found:
        Result<(), ModuleError>)
        ensures
            found == (match stored {
                None => Err::<(), ModuleError>(ModuleError::DanglingVersion),
                Some(recorded) => if recorded == Some(version) {
                    Ok::<(), ModuleError>(())
                } else {
                    Err::<(), ModuleError>(ModuleError::VersionMismatch)
                },
            }),
    {
        match stored {
            None => Err(ModuleError::DanglingVersion),
            Some(None) => Err(ModuleError::VersionMismatch),
            Some(Some(recorded)) => {
                if recorded == version {
                    Ok(())
                } else {
                    Err(ModuleError::VersionMismatch)
                }
            },
        }
    }

    /// The version under which the metadata of a module is stored next.
    pub fn put_module_metadata(latest: Option<ModuleVersion>) -> (version: ModuleVersion)
        requires
            latest matches Some(previous) ==> previous < i64::MAX,
        ensures
            version == next_version(latest),
    {
        match latest {
            Some(previous) => previous + 1,
            None => 0,
        }
    }

    /// Stores a module at `path`, which is at version `latest` if it is
    /// registered already, and answers the version it was stored under.
    /// Only administrators and the system may store modules, never under the
    /// system directory, and only dependencies go without an analysis.
    pub fn put(&self, path: ModulePath, analyzed: bool, latest: Option<ModuleVersion>) -> (stored:
        Result<ModuleVersion, ModuleError>)
        requires
            stores(self@, path, analyzed) ==> (latest matches Some(previous) ==> previous
                < i64::MAX),
        ensures
            stored == (if !may_administer(self@) {
                Err::<ModuleVersion, ModuleError>(ModuleError::Unauthorized)
            } else if path.system {
                Err::<ModuleVersion, ModuleError>(ModuleError::SystemDirectory)
            } else if !path.deps && !analyzed {
                Err::<ModuleVersion, ModuleError>(ModuleError::AnalyzedModuleRequired)
            } else {
                Ok::<ModuleVersion, ModuleError>(next_version(latest) as i64)
            }),
    {
        if !self.authorized() {
            Err(ModuleError::Unauthorized)
        } else if path.system {
            Err(ModuleError::SystemDirectory)
        } else if !path.deps && !analyzed {
            Err(ModuleError::AnalyzedModuleRequired)
        } else {
            Ok(ModuleModel::put_module_metadata(latest))
        }
    }

    /// Stores an analyzed module outside any source package. The same rules
    /// as for [`ModuleModel::put`] apply, and the analysis is always there.
    pub fn put_standalone(&self, path: ModulePath, latest: Option<ModuleVersion>) -> (stored:
        Result<ModuleVersion, ModuleError>)
        requires
            stores(self@, path, true) ==> (latest matches Some(previous) ==> previous < i64::MAX),
        ensures
            stored == (if !may_administer(self@) {
                Err::<ModuleVersion, ModuleError>(ModuleError::Unauthorized)
            } else if path.system {
                Err::<ModuleVersion, ModuleError>(ModuleError::SystemDirectory)
            } else {
                Ok::<ModuleVersion, ModuleError>(next_version(latest) as i64)
            }),
    {
        if !self.authorized() {
            Err(ModuleError::Unauthorized)
        } else if path.system {
            Err(ModuleError::SystemDirectory)
        } else {
            Ok(ModuleModel::put_module_metadata(latest))
        }
    }

    /// What storing the source of a module answers, given how the database
    /// took it: a value that is too large is the module's fault and is
    /// reported as such; any other refusal is passed on.
    pub fn put_module_source_into_db(outcome: Result<(), StoreFault>) -> (stored: Result<
        (),
        ModuleError,
    >)
        ensures
            stored == source_answer(outcome),
    {
        match outcome {
            Ok(()) => Ok(()),
            Err(StoreFault::ValueTooLarge) => Err(ModuleError::ModulesTooLarge),
            Err(StoreFault::Other) => Err(ModuleError::Database),
        }
    }

    /// Whether no two application modules among `registered` have the same
    /// path.
    pub fn application_paths_are_distinct(registered: &Vec<ModulePath>) -> (distinct: bool)
        ensures
            distinct == application_paths_distinct(registered@),
    {
        let mut j: usize = 0;
        while j < registered.len()
            invariant
                j <= registered.len(),
                forall|a: int, b: int|
                    0 <= a < b < j && !registered@[a].system && !registered@[b].system
                        ==> registered@[a].key != registered@[b].key,
            decreases registered.len() - j,
        {
            if !registered[j].system {
                let mut i: usize = 0;
                while i < j
                    invariant
                        i <= j < registered.len(),
                        !registered@[j as int].system,
                        forall|a: int|
                            0 <= a < i && !registered@[a].system ==> registered@[a].key
                                != registered@[j as int].key,
                    decreases j - i,
                {
                    if !registered[i].system && registered[i].key == registered[j].key {
                        return false;
                    }
                    i = i + 1;
                }
            }
            j = j + 1;
        }
        true
    }

    /// The positions of the application modules among `registered`, in the
    /// order in which they are registered. No two of them may have the same
    /// path.
    pub fn get_application_modules(registered: &Vec<ModulePath>) -> (positions: Vec<usize>)
        requires
            application_paths_distinct(registered@),
        ensures
            lists_application_modules(registered@, positions@),
    {
        let mut positions: Vec<usize> = Vec::new();
        let mut i: usize = 0;
        while i < registered.len()
            invariant
                i <= registered.len(),
                forall|k: int|
                    0 <= k < positions@.len() ==> positions@[k] < i && !registered@[positions@[k] as int].system,
                forall|k: int, l: int|
                    0 <= k < l < positions@.len() ==> positions@[k] < positions@[l],
                forall|a: int|
                    0 <= a < i && !registered@[a].system ==> positions@.contains(a as usize),
            decreases registered.len() - i,
        {
            if !registered[i].system {
                let ghost before = positions@;
                positions.push(i);
                proof {
                    assert forall|a: int|
                        0 <= a < i + 1 && !registered@[a].system implies positions@.contains(
                        a as usize,
                    ) by {
                        if a < i {
                            assert(before.contains(a as usize));
                            let k = choose|k: int| 0 <= k < before.len() && before[k] == a as usize;
                            assert(positions@[k] == a as usize);
                        } else {
                            assert(positions@[positions@.len() - 1] == a as usize);
                        }
                    }
                }
            }
            i = i + 1;
        }
        positions
    }

    /// Whether the caller may delete a module.
    pub fn delete(&self) -> (allowed: Result<(), ModuleError>)
        ensures
            allowed == (if may_administer(self@) {
                Ok::<(), ModuleError>(())
            } else {
                Err::<(), ModuleError>(ModuleError::Unauthorized)
            }),
    {
        if self.authorized() {
            Ok(())
        } else {
            Err(ModuleError::Unauthorized)
        }
    }

    /// Finds the function `name` in a module. `module` says whether the
    /// module is registered and, if so, which functions its analysis lists,
    /// if it has one; `deps` says whether the module is a dependency.
    ///
    /// The answer is the position of the first function of that name. A
    /// module that is not registered, and a function that is not listed, are
    /// the caller's mistake; dependencies list no functions. A registered
    /// module without an analysis that is not a dependency is a fault.
    pub fn get_analyzed_function(module: Option<Option<&Vec<u64>>>, deps: bool, name: u64) -> (found:
        Result<Result<usize, LookupError>, ModuleError>)
        ensures
            module is None ==> found == Ok::<Result<usize, LookupError>, ModuleError>(
                Err(LookupError::ModuleNotFound),
            ),
            module is Some && deps ==> found == Ok::<Result<usize, LookupError>, ModuleError>(
                Err(LookupError::FunctionNotFound),
            ),
            module == Some(None::<&Vec<u64>>) && !deps ==> found == Err::<
                Result<usize, LookupError>,
                ModuleError,
            >(ModuleError::AnalyzeResultExpected),
            !deps ==> (module matches Some(Some(functions)) ==> match found {
                Ok(Ok(at)) => {
                    &&& at < functions@.len()
                    &&& functions@[at as int] == name
                    &&& forall|k: int| 0 <= k < at ==> functions@[k] != name
                },
                Ok(Err(error)) => error == LookupError::FunctionNotFound && !functions@.contains(
                    name,
                ),
                Err(_) => false,
            }),
    {
        let analysis = match module {
            None => {
                return Ok(Err(LookupError::ModuleNotFound));
            },
            Some(analysis) => analysis,
        };
        if !deps {
            let functions = match analysis {
                None => {
                    return Err(ModuleError::AnalyzeResultExpected);
                },
                Some(functions) => functions,
            };
            let mut at: usize = 0;
            while at < functions.len()
                invariant
                    at <= functions.len(),
                    !deps,
                    module == Some(Some(functions)),
                    forall|k: int| 0 <= k < at ==> functions@[k] != name,
                decreases functions.len() - at,
            {
                if functions[at] == name {
                    assert(functions@[at as int] == name);
                    return Ok(Ok(at));
                }
                at = at + 1;
            }
        }
        Ok(Err(LookupError::FunctionNotFound))
    }
}

} // verus!

//! An explicit table of environment variables, and the dotenv files laid over
//! it.
//!
//! The table stands for the environment of the process.  A dotenv file is a list
//! of `KEY=VALUE` entries in the order of its lines.  Laying a file over the
//! table sets each variable that the table does not hold yet and leaves every
//! other variable as it is.

use vstd::prelude::*;

use crate::text::same_text;

verus! {

/// Name of the per-user dotenv file, looked up in the home directory.
pub const HOME_DOTENV_FNAME: &'static str = ".rsncenv";

/// Name of the dotenv file looked up in the working directory.
pub const WORKING_DIR_DOTENV_FNAME: &'static str = ".env";

/// The entries of a dotenv file, as models: name and value, in file order.
pub type Entries = Seq<(Seq<char>, Seq<char>)>;

/// The value of the first entry named `name`, if there is one.
pub open spec fn first_value(entries: Entries, name: Seq<char>) -> Option<Seq<char>>
    decreases entries.len(),
{
    if entries.len() == 0 {
        None
    } else {
        match first_value(entries.drop_last(), name) {
            Some(value) => Some(value),
            None => if entries.last().0 == name {
                Some(entries.last().1)
            } else {
                None
            },
        }
    }
}

/// The table that a list of entries makes: each name with the value of its
/// first entry.
pub open spec fn table(entries: Entries) -> Map<Seq<char>, Seq<char>> {
    Map::new(
        |name: Seq<char>| first_value(entries, name) is Some,
        |name: Seq<char>| first_value(entries, name).unwrap(),
    )
}

/// `env` with `entries` laid over it: a variable of `env` keeps its value; any
/// other name takes the value of its first entry.
pub open spec fn overlay(env: Map<Seq<char>, Seq<char>>, entries: Entries) -> Map<
    Seq<char>,
    Seq<char>,
> {
    Map::new(
        |name: Seq<char>| env.contains_key(name) || first_value(entries, name) is Some,
        |name: Seq<char>|
            if env.contains_key(name) {
                env[name]
            } else {
                first_value(entries, name).unwrap()
            },
    )
}

/// The environment after loading: the home file if there is one, else the
/// working-directory file if there is one, else the environment as it was.  The
/// two files are never merged.
pub open spec fn loaded(
    env: Map<Seq<char>, Seq<char>>,
    home_file: Option<Entries>,
    working_dir_file: Option<Entries>,
) -> Map<Seq<char>, Seq<char>> {
    match home_file {
        Some(entries) => overlay(env, entries),
        None => match working_dir_file {
            Some(entries) => overlay(env, entries),
            None => env,
        },
    }
}

/// One more entry at the end counts only for a name that no earlier entry has.
pub proof fn lemma_first_value_push(entries: Entries, entry: (Seq<char>, Seq<char>), name: Seq<char>)
    ensures
        first_value(entries.push(entry), name) == match first_value(entries, name) {
            Some(value) => Some(value),
            None => if entry.0 == name {
                Some(entry.1)
            } else {
                None
            },
        },
{
    assert(entries.push(entry).drop_last() == entries);
}

/// Where the dotenv entries come from.
#[derive(Debug, Clone, Copy, PartialEq, Eq, Structural)]
pub enum EnvSource {
    /// The per-user file in the home directory.
    HomeFile,
    /// The file in the working directory.
    WorkingDirFile,
}

impl EnvSource {
    /// The source to load, given which files exist.
    pub open spec fn spec_select(home_exists: bool, working_dir_exists: bool) -> Option<EnvSource> {
        if home_exists {
            Some(EnvSource::HomeFile)
        } else if working_dir_exists {
            Some(EnvSource::WorkingDirFile)
        } else {
            None
        }
    }

    /// The source to load, given which files exist: the home file first, then
    /// the working-directory file.  With neither there is nothing to load, which
    /// is no error.
    #[verifier::when_used_as_spec(spec_select)]
    pub fn select(home_exists: bool, working_dir_exists: bool) -> (source: Option<EnvSource>)
        ensures
            source == Self::spec_select(home_exists, working_dir_exists),
    {
        if home_exists {
            Some(EnvSource::HomeFile)
        } else if working_dir_exists {
            Some(EnvSource::WorkingDirFile)
        } else {
            None
        }
    }

    /// The fixed file name of the source.
    pub fn file_name(self) -> (name: &'static str)
        ensures
            name@ == match self {
                EnvSource::HomeFile => HOME_DOTENV_FNAME@,
                EnvSource::WorkingDirFile => WORKING_DIR_DOTENV_FNAME@,
            },
    {
        match self {
            EnvSource::HomeFile => HOME_DOTENV_FNAME,
            EnvSource::WorkingDirFile => WORKING_DIR_DOTENV_FNAME,
        }
    }
}

/// A table of environment variables.
#[derive(Debug, Clone)]
pub struct Environment {
    /// Name and value of each variable.  For a name that occurs twice the first
    /// entry counts.
    vars: Vec<(String, String)>,
}

impl View for Environment {
    type V = Map<Seq<char>, Seq<char>>;

    closed spec fn view(&self) -> Map<Seq<char>, Seq<char>> {
        table(self.vars.deep_view())
    }
}

impl Environment {
    /// The empty environment.
    pub fn new() -> (env: Environment)
        ensures
            env@ == Map::<Seq<char>, Seq<char>>::empty(),
    {
        let env = Environment { vars: Vec::new() };
        assert(env@ =~= Map::<Seq<char>, Seq<char>>::empty());
        env
    }

    /// The environment that holds the given variables.  Where a name is listed
    /// twice, its first value counts.
    pub fn from_vars(vars: Vec<(String, String)>) -> (env: Environment)
        ensures
            env@ == table(vars.deep_view()),
    {
        Environment { vars }
    }

    /// Position of the entry that holds `name`.
    fn position(&self, name: &str) -> (at: Option<usize>)
        ensures
            match at {
                Some(i) => {
                    &&& i < self.vars.len()
                    &&& self.vars[i as int].0@ == name@
                    &&& first_value(self.vars.deep_view().take(i as int), name@) is None
                    &&& first_value(self.vars.deep_view(), name@) == Some(self.vars[i as int].1@)
                },
                None => first_value(self.vars.deep_view(), name@) is None,
            },
    {
        let ghost all = self.vars.deep_view();
        let mut i: usize = 0;
        while i < self.vars.len()
            invariant
                i <= self.vars.len(),
                all == self.vars.deep_view(),
                first_value(all.take(i as int), name@) is None,
            decreases self.vars.len() - i,
        {
            proof {
                assert(all.take(i + 1) == all.take(i as int).push(all[i as int]));
                lemma_first_value_push(all.take(i as int), all[i as int], name@);
            }
            if same_text(self.vars[i].0.as_str(), name) {
                proof {
                    lemma_first_value_kept(all, i + 1, name@);
                }
                return Some(i);
            }
            i += 1;
        }
        assert(all.take(i as int) == all);
        None
    }

    /// The value of the variable `name`, if it is set.
    pub fn get(&self, name: &str) -> (value: Option<&String>)
        ensures
            match value {
                Some(v) => self@.contains_key(name@) && self@[name@] == v@,
                None => !self@.contains_key(name@),
            },
    {
        match self.position(name) {
            Some(i) => Some(&self.vars[i].1),
            None => None,
        }
    }

    /// Whether the variable `name` is set.
    pub fn contains(&self, name: &str) -> (b: bool)
        ensures
            b == self@.contains_key(name@),
    {
        self.position(name).is_some()
    }

    /// Sets the variable `name` to `value`, replacing any value it had.
    pub fn set(&mut self, name: String, value: String)
        ensures
            final(self)@ == old(self)@.insert(name@, value@),
    {
        let ghost before = self.vars.deep_view();
        match self.position(name.as_str()) {
            Some(i) => {
                self.vars.set(i, (name, value));
                proof {
                    let after = self.vars.deep_view();
                    assert(after == before.update(i as int, (name@, value@)));
                    assert forall|k: Seq<char>| first_value(after, k) == (if k == name@ {
                        Some(value@)
                    } else {
                        first_value(before, k)
                    }) by {
                        lemma_first_value_update(before, i as int, value@, k);
                    }
                    assert(final(self)@ =~= old(self)@.insert(name@, value@));
                }
            },
            None => {
                self.vars.push((name, value));
                proof {
                    let after = self.vars.deep_view();
                    assert(after == before.push((name@, value@)));
                    assert forall|k: Seq<char>| first_value(after, k) == (if k == name@ {
                        Some(value@)
                    } else {
                        first_value(before, k)
                    }) by {
                        lemma_first_value_push(before, (name@, value@), k);
                    }
                    assert(final(self)@ =~= old(self)@.insert(name@, value@));
                }
            },
        }
    }

    /// Lays the entries of a dotenv file over the environment: each variable
    /// that is not set yet takes the value of its first entry; a variable that
    /// is set keeps its value.
    pub fn overlay(&mut self, entries: &Vec<(String, String)>)
        ensures
            final(self)@ == overlay(old(self)@, entries.deep_view()),
    {
        let ghost file = entries.deep_view();
        let ghost start = self@;
        let mut i: usize = 0;
        while i < entries.len()
            invariant
                i <= entries.len(),
                file == entries.deep_view(),
                forall|k: Seq<char>|
                    #[trigger] first_value(self.vars.deep_view(), k) == (if start.contains_key(k) {
                        Some(start[k])
                    } else {
                        first_value(file.take(i as int), k)
                    }),
            decreases entries.len() - i,
        {
            let ghost before = self.vars.deep_view();
            let name = &entries[i].0;
            if self.position(name.as_str()).is_none() {
                self.vars.push((name.clone(), entries[i].1.clone()));
                proof {
                    assert(self.vars.deep_view() == before.push(file[i as int]));
                }
            }
            proof {
                let after = self.vars.deep_view();
                assert(file.take(i + 1) == file.take(i as int).push(file[i as int]));
                assert forall|k: Seq<char>|
                    #[trigger] first_value(after, k) == (if start.contains_key(k) {
                        Some(start[k])
                    } else {
                        first_value(file.take(i + 1), k)
                    }) by {
                    lemma_first_value_push(file.take(i as int), file[i as int], k);
                    lemma_first_value_push(before, file[i as int], k);
                }
            }
            i += 1;
        }
        assert(file.take(i as int) == file);
        assert(self@ =~= overlay(start, file));
    }
}

/// The first entry named `name` within a prefix is the first one overall.
pub proof fn lemma_first_value_kept(entries: Entries, n: int, name: Seq<char>)
    requires
        0 <= n <= entries.len(),
        first_value(entries.take(n), name) is Some,
    ensures
        first_value(entries, name) == first_value(entries.take(n), name),
    decreases entries.len() - n,
{
    if n == entries.len() {
        assert(entries.take(n) == entries);
    } else {
        assert(entries.take(n + 1) == entries.take(n).push(entries[n]));
        lemma_first_value_push(entries.take(n), entries[n], name);
        lemma_first_value_kept(entries, n + 1, name);
    }
}

/// A new value for the first entry of a name changes that name alone.
pub proof fn lemma_first_value_update(entries: Entries, i: int, value: Seq<char>, name: Seq<char>)
    requires
        0 <= i < entries.len(),
        first_value(entries.take(i), entries[i].0) is None,
    ensures
        first_value(entries.update(i, (entries[i].0, value)), name) == (if name == entries[i].0 {
            Some(value)
        } else {
            first_value(entries, name)
        }),
    decreases entries.len(),
{
    let changed = entries.update(i, (entries[i].0, value));
    if i == entries.len() - 1 {
        assert(changed.drop_last() == entries.drop_last());
        assert(entries.take(i) == entries.drop_last());
    } else {
        let shorter = entries.drop_last();
        assert(shorter.take(i) == entries.take(i));
        lemma_first_value_update(shorter, i, value, name);
        assert(changed.drop_last() == shorter.update(i, (entries[i].0, value)));
    }
}

/// Laying a file over the environment never changes a variable that is
/// already set.
pub proof fn overlay_keeps_set_variables(
    env: Map<Seq<char>, Seq<char>>,
    entries: Entries,
    name: Seq<char>,
)
    requires
        env.contains_key(name),
    ensures
        overlay(env, entries).contains_key(name),
        overlay(env, entries)[name] == env[name],
{
}

/// Laying the same file over the environment a second time changes nothing.
pub proof fn overlay_is_idempotent(env: Map<Seq<char>, Seq<char>>, entries: Entries)
    ensures
        overlay(overlay(env, entries), entries) == overlay(env, entries),
{
    assert(overlay(overlay(env, entries), entries) =~= overlay(env, entries));
}

/// Loading twice from the same files gives what loading once gives: variables
/// that are resolved keep their values.
pub proof fn loading_twice_changes_nothing(
    env: Map<Seq<char>, Seq<char>>,
    home_file: Option<Entries>,
    working_dir_file: Option<Entries>,
)
    ensures
        loaded(loaded(env, home_file, working_dir_file), home_file, working_dir_file) == loaded(
            env,
            home_file,
            working_dir_file,
        ),
        forall|name: Seq<char>| #[trigger]
            env.contains_key(name) ==> loaded(env, home_file, working_dir_file).contains_key(name)
                && loaded(env, home_file, working_dir_file)[name] == env[name],
{
    match home_file {
        Some(entries) => overlay_is_idempotent(env, entries),
        None => match working_dir_file {
            Some(entries) => overlay_is_idempotent(env, entries),
            None => {},
        },
    }
}

/// Where the home file exists it alone is loaded: whatever the working
/// directory holds, the result is the home file laid over the environment.
pub proof fn home_file_takes_precedence(
    env: Map<Seq<char>, Seq<char>>,
    home_file: Entries,
    working_dir_file: Option<Entries>,
)
    ensures
        loaded(env, Some(home_file), working_dir_file) == overlay(env, home_file),
        loaded(env, Some(home_file), working_dir_file) == loaded(env, Some(home_file), None),
        EnvSource::spec_select(true, working_dir_file is Some) == Some(EnvSource::HomeFile),
{
}

/// The lines of a dotenv file as models: an entry, or nothing for a line that
/// cannot be read.
pub open spec fn lines_view(lines: Seq<Option<(String, String)>>) -> Seq<Option<(Seq<char>, Seq<char>)>> {
    Seq::new(
        lines.len(),
        |i: int|
            match lines[i] {
                Some(entry) => Some((entry.0@, entry.1@)),
                None => None,
            },
    )
}

/// How many lines come before the first one that cannot be read.
pub open spec fn readable_len(lines: Seq<Option<(Seq<char>, Seq<char>)>>) -> nat
    decreases lines.len(),
{
    if lines.len() == 0 || lines[0] is None {
        0
    } else {
        1 + readable_len(lines.drop_first())
    }
}

/// The entries of the lines that come before the first one that cannot be
/// read.
pub open spec fn readable(lines: Seq<Option<(Seq<char>, Seq<char>)>>) -> Entries {
    Seq::new(readable_len(lines), |i: int| lines[i]->Some_0)
}

/// Up to `n` lines that can all be read, the count goes on behind them.
proof fn lemma_readable_len_from(lines: Seq<Option<(Seq<char>, Seq<char>)>>, n: int)
    requires
        0 <= n <= lines.len(),
        forall|i: int| 0 <= i < n ==> lines[i] is Some,
    ensures
        readable_len(lines) == n + readable_len(lines.skip(n)),
    decreases n,
{
    if n == 0 {
        assert(lines.skip(0) == lines);
    } else {
        let rest = lines.drop_first();
        lemma_readable_len_from(rest, n - 1);
        assert(rest.skip(n - 1) == lines.skip(n));
    }
}

/// The entries of a dotenv file that count: those of the lines before the
/// first line that cannot be read.  What follows such a line is not loaded.
pub fn readable_entries(lines: Vec<Option<(String, String)>>) -> (entries: Vec<(String, String)>)
    ensures
        entries.deep_view() == readable(lines_view(lines@)),
{
    let ghost all = lines_view(lines@);
    let mut entries: Vec<(String, String)> = Vec::new();
    let mut i: usize = 0;
    while i < lines.len()
        invariant
            i <= lines.len(),
            all == lines_view(lines@),
            entries.len() == i,
            forall|j: int| 0 <= j < i ==> all[j] is Some,
            forall|j: int| 0 <= j < i ==> (#[trigger] entries[j]).deep_view() == all[j]->Some_0,
        decreases lines.len() - i,
    {
        match &lines[i] {
            Some(entry) => {
                entries.push((entry.0.clone(), entry.1.clone()));
            },
            None => {
                proof {
                    lemma_readable_len_from(all, i as int);
                    assert(all.skip(i as int)[0] is None);
                    assert(entries.deep_view() =~= readable(all));
                }
                return entries;
            },
        }
        i += 1;
    }
    proof {
        lemma_readable_len_from(all, i as int);
        assert(entries.deep_view() =~= readable(all));
    }
    entries
}

/// Loads the dotenv entries into the environment.
///
/// `home_file` holds the entries of the per-user file, if that file exists, and
/// `working_dir_file` those of the file in the working directory.  The home
/// file is laid over the environment if it exists; only otherwise the
/// working-directory file is.  With neither file the environment stays as it
/// is, which is no error.
pub fn set_dotenv(
    env: &mut Environment,
    home_file: Option<Vec<(String, String)>>,
    working_dir_file: Option<Vec<(String, String)>>,
)
    ensures
        final(env)@ == loaded(old(env)@, home_file.deep_view(), working_dir_file.deep_view()),
{
    match EnvSource::select(home_file.is_some(), working_dir_file.is_some()) {
        Some(EnvSource::HomeFile) => {
            env.overlay(home_file.as_ref().unwrap());
        },
        Some(EnvSource::WorkingDirFile) => {
            env.overlay(working_dir_file.as_ref().unwrap());
        },
        None => {},
    }
}

} // verus!

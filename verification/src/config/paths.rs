//! Where configuration files lie, and how files that name others are put together.

use crate::config::{empty_config, Config, ConfigModel};
use crate::text;
use vstd::prelude::*;

verus! {

/// Further files, named by a single path or by a list.
#[derive(Debug, Clone, PartialEq, Eq)]
pub enum Include {
    Single(String),
    Multiple(Vec<String>),
}

impl Include {
    /// The paths in order.
    pub open spec fn paths(self) -> Seq<Seq<char>> {
        match self {
            Include::Single(path) => seq![path@],
            Include::Multiple(paths) => text::texts(paths@),
        }
    }

    pub fn to_paths(&self) -> (r: Vec<String>)
        ensures
            text::texts(r@) == self.paths(),
    {
        match self {
            Include::Single(path) => {
                let mut out: Vec<String> = Vec::new();
                out.push(path.clone());
                assert(text::texts(out@) =~= seq![path@]);
                out
            },
            Include::Multiple(paths) => text::copy_strings(paths),
        }
    }
}

/// A path below a directory. An absolute path stays as it is.
pub open spec fn joined_path(base: Seq<char>, path: Seq<char>) -> Seq<char> {
    if path.len() > 0 && path[0] == '/' {
        path
    } else if base.len() > 0 && base.last() != '/' {
        base.push('/') + path
    } else {
        base + path
    }
}

/// The file that a path in a configuration stands for: a leading `~/` is the home directory, if it
/// is known, and a relative path is below the directory of the configuration.
pub open spec fn resolved_path(path: Seq<char>, base: Seq<char>, home: Option<Seq<char>>) -> Seq<
    char,
> {
    match home {
        Some(home) if path.len() >= 2 && path[0] == '~' && path[1] == '/' => joined_path(
            home,
            path.skip(2),
        ),
        _ => joined_path(base, path),
    }
}

/// Puts a path below a directory.
pub fn join_path(base: &str, path: &Vec<char>) -> (r: String)
    ensures
        r@ == joined_path(base@, path@),
{
    let mut out: Vec<char> = Vec::new();
    if !(path.len() > 0 && path[0] == '/') {
        out = text::chars_of(base);
        if out.len() > 0 && out[out.len() - 1] != '/' {
            out.push('/');
        }
    }
    let ghost front = out@;
    let mut i: usize = 0;
    while i < path.len()
        invariant
            i <= path@.len(),
            out@ == front + path@.take(i as int),
        decreases path@.len() - i,
    {
        out.push(path[i]);
        assert(out@ =~= front + path@.take(i + 1));
        i += 1;
    }
    assert(path@.take(path@.len() as int) =~= path@);
    assert(out@ =~= joined_path(base@, path@));
    text::string_of(out.as_slice())
}

/// What an optional string holds.
pub open spec fn optional_text(s: Option<&str>) -> Option<Seq<char>> {
    match s {
        Some(s) => Some(s@),
        None => None,
    }
}

/// Resolves path strings, expanding leading `~` to the home directory and resolving relative paths.
pub fn resolve_path(path_str: &str, base_dir: &str, home: Option<&str>) -> (r: String)
    ensures
        r@ == resolved_path(path_str@, base_dir@, optional_text(home)),
{
    let path: Vec<char> = text::chars_of(path_str);
    if let Some(home) = home {
        if path.len() >= 2 && path[0] == '~' && path[1] == '/' {
            let mut rest: Vec<char> = Vec::new();
            let mut i: usize = 2;
            while i < path.len()
                invariant
                    2 <= i <= path@.len(),
                    rest@ == path@.subrange(2, i as int),
                decreases path@.len() - i,
            {
                rest.push(path[i]);
                assert(rest@ =~= path@.subrange(2, i + 1));
                i += 1;
            }
            assert(rest@ =~= path@.skip(2));
            return join_path(home, &rest);
        }
    }
    join_path(base_dir, &path)
}

/// The default configuration file: `ftty/ftty.toml` in the configuration directory, which is
/// `.config` in the home directory where none is set.
pub open spec fn default_path(xdg: Option<Seq<char>>, home: Option<Seq<char>>) -> Option<Seq<char>> {
    match (xdg, home) {
        (Some(dir), _) => Some(joined_path(joined_path(dir, "ftty"@), "ftty.toml"@)),
        (None, Some(home)) => Some(
            joined_path(joined_path(joined_path(home, ".config"@), "ftty"@), "ftty.toml"@),
        ),
        (None, None) => None,
    }
}

/// What an optional owned string holds.
pub open spec fn owned_text(s: Option<String>) -> Option<Seq<char>> {
    match s {
        Some(s) => Some(s@),
        None => None,
    }
}

/// Returns the default configuration path, given the directories that the environment names.
pub fn default_config_path(xdg_config_home: Option<&str>, home: Option<&str>) -> (r: Option<String>)
    ensures
        owned_text(r) == default_path(optional_text(xdg_config_home), optional_text(home)),
{
    let dir: String = match xdg_config_home {
        Some(dir) => dir.to_owned(),
        None => match home {
            Some(home) => join_path(home, &text::chars_of(".config")),
            None => {
                return None;
            },
        },
    };
    let sub: String = join_path(dir.as_str(), &text::chars_of("ftty"));
    Some(join_path(sub.as_str(), &text::chars_of("ftty.toml")))
}

/// The files that are being read, each named by the next.
#[derive(Debug)]
pub struct OpenFiles {
    pub paths: Vec<String>,
}

impl OpenFiles {
    /// The paths of the files, outermost first.
    pub open spec fn names(&self) -> Seq<Seq<char>> {
        text::texts(self.paths@)
    }

    /// No file is being read twice.
    pub open spec fn wf(&self) -> bool {
        self.names().no_duplicates()
    }

    pub fn new() -> (r: Self)
        ensures
            r.wf(),
            r.names().len() == 0,
    {
        OpenFiles { paths: Vec::new() }
    }

    /// Begins to read a file. One that is already being read is refused, with a message.
    pub fn enter(&mut self, canonical: String) -> (r: Result<(), String>)
        requires
            old(self).wf(),
        ensures
            final(self).wf(),
            match r {
                Ok(_) => !old(self).names().contains(canonical@) && final(self).names() == old(
                    self,
                ).names().push(canonical@),
                Err(e) => old(self).names().contains(canonical@) && final(self).names() == old(
                    self,
                ).names() && e@ == "circular include detected: "@ + canonical@,
            },
    {
        let ghost names = self.names();
        let wanted: Vec<char> = text::chars_of(canonical.as_str());
        let mut i: usize = 0;
        while i < self.paths.len()
            invariant
                i <= self.paths@.len(),
                wanted@ == canonical@,
                names == self.names(),
                *self == *old(self),
                old(self).wf(),
                names == old(self).names(),
                forall|j: int| 0 <= j < i ==> #[trigger] names[j] != canonical@,
            decreases self.paths@.len() - i,
        {
            assert(names[i as int] == self.paths@[i as int]@);
            if text::spells(&wanted, self.paths[i].as_str()) {
                assert(names.contains(canonical@));
                return Err(text::joined("circular include detected: ", canonical.as_str()));
            }
            i += 1;
        }
        let ghost name = canonical@;
        self.paths.push(canonical);
        assert(self.names() =~= names.push(name));
        Ok(())
    }

    /// Ends the reading of the innermost file.
    pub fn leave(&mut self)
        requires
            old(self).wf(),
            old(self).names().len() > 0,
        ensures
            final(self).wf(),
            final(self).names() == old(self).names().drop_last(),
    {
        let _ = self.paths.pop();
        assert(self.names() =~= old(self).names().drop_last());
    }
}

/// What configurations hold.
pub open spec fn config_models(v: Seq<Config>) -> Seq<ConfigModel> {
    v.map_values(|c: Config| c@)
}

/// Configurations merged one after the other.
pub open spec fn merged_in_order(v: Seq<ConfigModel>) -> ConfigModel
    decreases v.len(),
{
    if v.len() == 0 {
        empty_config()
    } else {
        merged_in_order(v.drop_last()).merged(v.last())
    }
}

/// Puts a configuration together with the files it names: they form the base, in their order, and
/// its own settings override them. A configuration that names none stays as it is.
pub fn combine(named: Vec<Config>, current: Config) -> (r: Config)
    ensures
        r@ == (if current.includes is Some {
            merged_in_order(config_models(named@)).merged(current@)
        } else {
            current@
        }),
{
    if current.includes.is_none() {
        return current;
    }
    let ghost all = named@;
    let ghost models = config_models(all);
    let mut reversed: Vec<Config> = Vec::new();
    let mut rest: Vec<Config> = named;
    assert(all.take(all.len() as int) =~= all);
    while rest.len() > 0
        invariant
            reversed@.len() + rest@.len() == all.len(),
            rest@ == all.take(rest@.len() as int),
            forall|k: int|
                0 <= k < reversed@.len() ==> #[trigger] reversed@[k] == all[all.len() - 1 - k],
        decreases rest@.len(),
    {
        let ghost before = rest@;
        if let Some(c) = rest.pop() {
            assert(c == all[before.len() - 1]);
            assert(rest@ =~= all.take(before.len() - 1));
            reversed.push(c);
        }
    }
    let mut base: Config = Config::default();
    assert(models.take(0) =~= Seq::<ConfigModel>::empty());
    while reversed.len() > 0
        invariant
            reversed@.len() <= all.len(),
            models == config_models(all),
            forall|k: int|
                0 <= k < reversed@.len() ==> #[trigger] reversed@[k] == all[all.len() - 1 - k],
            base@ == merged_in_order(models.take(all.len() - reversed@.len())),
        decreases reversed@.len(),
    {
        let ghost n = all.len() - reversed@.len();
        if let Some(c) = reversed.pop() {
            assert(c == all[n]);
            assert(models.take(n + 1).drop_last() =~= models.take(n));
            assert(models.take(n + 1).last() == c@);
            base.merge(c);
        }
    }
    assert(models.take(all.len() as int) =~= models);
    base.merge(current);
    base
}

} // verus!

use vstd::prelude::*;

verus! {

/// A configured name with its underscores turned to spaces, the form in
/// which it is displayed.
pub open spec fn display_name(name: Seq<char>) -> Seq<char> {
    name.map_values(|c: char| if c == '_' { ' ' } else { c })
}

/// The usable commands of a configuration: pairs whose command is empty are
/// dropped, names are displayed with spaces for underscores, and the order
/// of the remaining pairs is kept.
pub open spec fn commands_of(pairs: Seq<(Seq<char>, Seq<char>)>) -> Seq<(Seq<char>, Seq<char>)>
    decreases pairs.len(),
{
    if pairs.len() == 0 {
        Seq::empty()
    } else {
        commands_of(pairs.drop_last()) + (if pairs.last().1.len() > 0 {
            seq![(display_name(pairs.last().0), pairs.last().1)]
        } else {
            Seq::empty()
        })
    }
}

/// Turns every underscore of `s` into a space.
pub fn underscores_to_spaces(s: &str) -> (r: String)
    ensures
        r@ == display_name(s@),
{
    let n = s.unicode_len();
    let mut r = String::new();
    let mut i: usize = 0;
    proof {
        assert(s@.take(0) =~= Seq::<char>::empty());
        assert(r@ =~= display_name(s@.take(0)));
    }
    while i < n
        invariant
            0 <= i <= n,
            n == s@.len(),
            r@ == display_name(s@.take(i as int)),
        decreases n - i,
    {
        let c = s.get_char(i);
        if c == '_' {
            r.append(" ");
            proof {
                reveal_strlit(" ");
            }
        } else {
            let piece = s.substring_char(i, i + 1);
            r.append(piece);
        }
        proof {
            assert(r@ =~= display_name(s@.take(i + 1)));
        }
        i = i + 1;
    }
    proof {
        assert(s@.take(n as int) =~= s@);
    }
    r
}

/// Errors from loading and checking the configured command list.
#[derive(Debug)]
pub enum ConfigError {
    FsError(String),
    NotFound(String),
    FileError(String),
    FileEmpty(String),
}

impl ConfigError {
    /// The user-visible description of the error.
    pub fn message(&self) -> (r: String)
        ensures
            r@ == "Error reading config: "@ + self.payload()@,
    {
        let s = match self {
            ConfigError::FsError(s) => s,
            ConfigError::NotFound(s) => s,
            ConfigError::FileError(s) => s,
            ConfigError::FileEmpty(s) => s,
        };
        String::from_str("Error reading config: ").concat(s.as_str())
    }

    /// The detail string carried by any of the variants.
    pub open spec fn payload(&self) -> String {
        match self {
            ConfigError::FsError(s) => *s,
            ConfigError::NotFound(s) => *s,
            ConfigError::FileError(s) => *s,
            ConfigError::FileEmpty(s) => *s,
        }
    }
}

/// The error text reported when a configuration holds no usable command.
pub open spec fn file_empty_message(path: Seq<char>) -> Seq<char> {
    "File "@ + path + " is empty, or all its commands are empty"@
}

/// Checks and transforms the configured (name, command) pairs read from the
/// file at `config_path`: pairs with an empty command are dropped and
/// underscores in names become spaces. A configuration whose every command
/// is empty — in particular an empty one — is itself an error.
pub fn get_commands(config_path: &str, pairs: &Vec<(String, String)>) -> (r: Result<
    Vec<(String, String)>,
    ConfigError,
>)
    ensures
        commands_of(pairs.deep_view()).len() > 0 ==> (r matches Ok(v) && v.deep_view()
            == commands_of(pairs.deep_view())),
        commands_of(pairs.deep_view()).len() == 0 ==> (r matches Err(e) && (e matches
            ConfigError::FileEmpty(m) && m@ == file_empty_message(config_path@))),
{
    let mut out: Vec<(String, String)> = Vec::new();
    let mut i: usize = 0;
    proof {
        assert(pairs.deep_view().take(0) =~= Seq::<(Seq<char>, Seq<char>)>::empty());
        assert(out.deep_view() =~= commands_of(pairs.deep_view().take(0)));
    }
    while i < pairs.len()
        invariant
            0 <= i <= pairs@.len(),
            out.deep_view() == commands_of(pairs.deep_view().take(i as int)),
        decreases pairs@.len() - i,
    {
        let p = &pairs[i];
        let ghost prefix = pairs.deep_view().take(i as int);
        proof {
            assert(pairs.deep_view().take(i + 1).drop_last() =~= prefix);
            assert(pairs.deep_view().take(i + 1).last() == pairs.deep_view()[i as int]);
            assert(pairs.deep_view()[i as int] == (pairs@[i as int].0@, pairs@[i as int].1@));
        }
        if !p.1.as_str().is_empty() {
            let name = underscores_to_spaces(p.0.as_str());
            let command = p.1.clone();
            out.push((name, command));
        }
        proof {
            assert(out.deep_view() =~= commands_of(pairs.deep_view().take(i + 1)));
        }
        i = i + 1;
    }
    proof {
        assert(pairs.deep_view().take(pairs@.len() as int) =~= pairs.deep_view());
    }
    if out.len() == 0 {
        Err(
            ConfigError::FileEmpty(
                String::from_str("File ").concat(config_path).concat(
                    " is empty, or all its commands are empty",
                ),
            ),
        )
    } else {
        proof {
            assert(commands_of(pairs.deep_view()).len() == out.deep_view().len());
        }
        Ok(out)
    }
}

/// One path component appended to a base directory path, with a separator
/// added unless the base is empty or already ends in one.
pub open spec fn path_joined(base: Seq<char>, component: Seq<char>) -> Seq<char> {
    if base.len() == 0 {
        component
    } else if base.last() == '/' {
        base + component
    } else {
        base + "/"@ + component
    }
}

fn path_join(base: String, component: &str) -> (r: String)
    ensures
        r@ == path_joined(base@, component@),
{
    let n = base.as_str().unicode_len();
    if n == 0 {
        String::from_str(component)
    } else if base.as_str().get_char(n - 1) == '/' {
        base.concat(component)
    } else {
        base.concat("/").concat(component)
    }
}

/// Resolves the path of the configuration file: the explicit path when one
/// was given, and otherwise `up/commands.toml` under the given default
/// configuration directory; with neither, the location cannot be found.
pub fn get_config_path(config_file_path: &Option<String>, default_dir: Option<String>) -> (r:
    Result<String, ConfigError>)
    ensures
        config_file_path matches Some(p) ==> (r matches Ok(s) && s@ == p@),
        config_file_path is None ==> (default_dir matches Some(d) ==> (r matches Ok(s) && s@
            == path_joined(path_joined(d@, "up"@), "commands.toml"@))),
        config_file_path is None && default_dir is None ==> (r matches Err(e) && (e matches
            ConfigError::NotFound(m) && m@ == "Could not find a standard config location"@)),
{
    match config_file_path {
        Some(p) => Ok(p.clone()),
        None => match default_dir {
            Some(d) => {
                let under_dir = path_join(d, "up");
                Ok(path_join(under_dir, "commands.toml"))
            },
            None => Err(
                ConfigError::NotFound(
                    String::from_str("Could not find a standard config location"),
                ),
            ),
        },
    }
}

} // verus!

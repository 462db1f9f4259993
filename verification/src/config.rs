//! Resolution of a run configuration: the first non-flag token is the query,
//! environment variables give the defaults for the five booleans, flags only
//! ever turn a boolean on, and every other token is a filesystem path whose
//! classification (file, directory, other, unreadable) the caller supplies.

use vstd::prelude::*;
use vstd::string::{StrSliceExecFns, StringExecFns};

verus! {

use crate::text::{str_eq, views_of};

/// Presence of the five environment variables consulted at resolution time.
#[derive(Clone, Copy, PartialEq, Eq, Structural)]
pub struct EnvFlags {
    pub ignore_case: bool,
    pub label_files: bool,
    pub include_symlinks: bool,
    pub include_hidden: bool,
    pub include_line_numbers: bool,
}

/// What a filesystem inspection found a path token to be.  `Unreadable`
/// carries the cause reported by the failed inspection.
pub enum PathKind {
    File,
    Dir,
    Other,
    Unreadable(String),
}

/// A resolved run configuration.
pub struct Config {
    pub query: String,
    pub file_paths: Vec<String>,
    pub dir_paths: Vec<String>,
    pub ignore_case: bool,
    pub label_files: bool,
    pub include_symlinks: bool,
    pub include_hidden: bool,
    pub include_line_numbers: bool,
}

/// The model of a configuration: the query and path lists as character
/// sequences, and the five booleans.
pub struct ConfigModel {
    pub query: Seq<char>,
    pub file_paths: Seq<Seq<char>>,
    pub dir_paths: Seq<Seq<char>>,
    pub ignore_case: bool,
    pub label_files: bool,
    pub include_symlinks: bool,
    pub include_hidden: bool,
    pub include_line_numbers: bool,
}

impl ConfigModel {
    /// A well-formed configuration carries a non-empty query.
    pub open spec fn wf(self) -> bool {
        self.query.len() > 0
    }
}

impl View for Config {
    type V = ConfigModel;

    open spec fn view(&self) -> ConfigModel {
        ConfigModel {
            query: self.query@,
            file_paths: views_of(self.file_paths@),
            dir_paths: views_of(self.dir_paths@),
            ignore_case: self.ignore_case,
            label_files: self.label_files,
            include_symlinks: self.include_symlinks,
            include_hidden: self.include_hidden,
            include_line_numbers: self.include_line_numbers,
        }
    }
}

/// A configuration error: the closed set of ways resolution or a later
/// explicit-file read can fail.
#[derive(Debug)]
pub enum ConfigError {
    MissingQuery,
    UnknownFlag { token: String },
    UnresolvablePath { path: String, cause: String },
    ReadFailure { path: String, cause: String },
}

/// The model of a configuration error.
pub enum ConfigErrorModel {
    MissingQuery,
    UnknownFlag { token: Seq<char> },
    UnresolvablePath { path: Seq<char>, cause: Seq<char> },
    ReadFailure { path: Seq<char>, cause: Seq<char> },
}

impl View for ConfigError {
    type V = ConfigErrorModel;

    open spec fn view(&self) -> ConfigErrorModel {
        match self {
            ConfigError::MissingQuery => ConfigErrorModel::MissingQuery,
            ConfigError::UnknownFlag { token } => (ConfigErrorModel::UnknownFlag { token: token@ }),
            ConfigError::UnresolvablePath { path, cause } => (ConfigErrorModel::UnresolvablePath {
                path: path@,
                cause: cause@,
            }),
            ConfigError::ReadFailure { path, cause } => (ConfigErrorModel::ReadFailure {
                path: path@,
                cause: cause@,
            }),
        }
    }
}

/// The message of each error, as a character sequence.
pub open spec fn spec_message(e: ConfigErrorModel) -> Seq<char> {
    match e {
        ConfigErrorModel::MissingQuery => "no query supplied"@,
        ConfigErrorModel::UnknownFlag { token } => "unknown flag: "@ + token,
        ConfigErrorModel::UnresolvablePath { path, cause } => "cannot resolve path '"@ + path
            + "': "@ + cause,
        ConfigErrorModel::ReadFailure { path, cause } => "cannot read '"@ + path + "': "@ + cause,
    }
}

impl ConfigError {
    /// A human-readable description of the error.
    pub fn message(&self) -> (r: String)
        ensures
            r@ == spec_message(self@),
    {
        match self {
            ConfigError::MissingQuery => String::from_str("no query supplied"),
            ConfigError::UnknownFlag { token } => {
                let mut s = String::from_str("unknown flag: ");
                s.append(token.as_str());
                s
            },
            ConfigError::UnresolvablePath { path, cause } => {
                let mut s = String::from_str("cannot resolve path '");
                s.append(path.as_str());
                s.append("': ");
                s.append(cause.as_str());
                s
            },
            ConfigError::ReadFailure { path, cause } => {
                let mut s = String::from_str("cannot read '");
                s.append(path.as_str());
                s.append("': ");
                s.append(cause.as_str());
                s
            },
        }
    }
}

/// A token beginning with the flag marker.
pub open spec fn is_flag_token(t: Seq<char>) -> bool {
    t.len() > 0 && t[0] == '-'
}

/// The five recognized flags.
pub enum FlagKind {
    IgnoreCase,
    LabelFiles,
    IncludeSymlinks,
    IncludeHidden,
    IncludeLineNumbers,
}

/// Which flag a token spells, given the token without its leading dash; both
/// the short and the long spelling are recognized.
pub open spec fn spec_flag_of(suffix: Seq<char>) -> Option<FlagKind> {
    if suffix == "-ignore_case"@ || suffix == "i"@ {
        Some(FlagKind::IgnoreCase)
    } else if suffix == "-header"@ || suffix == "H"@ {
        Some(FlagKind::LabelFiles)
    } else if suffix == "-include_symlinks"@ || suffix == "s"@ {
        Some(FlagKind::IncludeSymlinks)
    } else if suffix == "-include_hidden"@ || suffix == "hi"@ {
        Some(FlagKind::IncludeHidden)
    } else if suffix == "-include_line_numbers"@ || suffix == "l"@ {
        Some(FlagKind::IncludeLineNumbers)
    } else {
        None
    }
}

/// The configuration with one flag turned on.
pub open spec fn apply_flag(c: ConfigModel, f: FlagKind) -> ConfigModel {
    match f {
        FlagKind::IgnoreCase => ConfigModel { ignore_case: true, ..c },
        FlagKind::LabelFiles => ConfigModel { label_files: true, ..c },
        FlagKind::IncludeSymlinks => ConfigModel { include_symlinks: true, ..c },
        FlagKind::IncludeHidden => ConfigModel { include_hidden: true, ..c },
        FlagKind::IncludeLineNumbers => ConfigModel { include_line_numbers: true, ..c },
    }
}

/// The index of the first non-flag token at or after `i`, or the token count
/// when every remaining token is a flag.
pub open spec fn query_index_from(tokens: Seq<String>, i: int) -> int
    decreases tokens.len() - i,
{
    if i < 0 || i >= tokens.len() {
        tokens.len() as int
    } else if !is_flag_token(tokens[i]@) {
        i
    } else {
        query_index_from(tokens, i + 1)
    }
}

/// The index of the query: the first non-flag token.
pub open spec fn query_index(tokens: Seq<String>) -> int {
    query_index_from(tokens, 0)
}

/// The configuration before any token is processed: the query and the
/// environment defaults, with empty path lists.
pub open spec fn init_model(query: Seq<char>, env: EnvFlags) -> ConfigModel {
    ConfigModel {
        query: query,
        file_paths: Seq::empty(),
        dir_paths: Seq::empty(),
        ignore_case: env.ignore_case,
        label_files: env.label_files,
        include_symlinks: env.include_symlinks,
        include_hidden: env.include_hidden,
        include_line_numbers: env.include_line_numbers,
    }
}

/// Left-to-right processing of the tokens from position `i` on, the query
/// token excepted: a recognized flag turns its boolean on, an unrecognized
/// flag is a fatal error naming the token, and a path token is appended to
/// the file or directory list as classified, skipped when it is neither,
/// or fatal when its classification failed.
pub open spec fn resolve_from(
    tokens: Seq<String>,
    kinds: Seq<PathKind>,
    qi: int,
    i: int,
    acc: ConfigModel,
) -> Result<ConfigModel, ConfigErrorModel>
    decreases tokens.len() - i,
{
    if i < 0 || i >= tokens.len() {
        Ok(acc)
    } else if i == qi {
        resolve_from(tokens, kinds, qi, i + 1, acc)
    } else if is_flag_token(tokens[i]@) {
        match spec_flag_of(tokens[i]@.skip(1)) {
            Some(f) => resolve_from(tokens, kinds, qi, i + 1, apply_flag(acc, f)),
            None => Err(ConfigErrorModel::UnknownFlag { token: tokens[i]@ }),
        }
    } else {
        match kinds[i] {
            PathKind::File => resolve_from(
                tokens,
                kinds,
                qi,
                i + 1,
                ConfigModel { file_paths: acc.file_paths.push(tokens[i]@), ..acc },
            ),
            PathKind::Dir => resolve_from(
                tokens,
                kinds,
                qi,
                i + 1,
                ConfigModel { dir_paths: acc.dir_paths.push(tokens[i]@), ..acc },
            ),
            PathKind::Other => resolve_from(tokens, kinds, qi, i + 1, acc),
            PathKind::Unreadable(cause) => Err(ConfigErrorModel::UnresolvablePath {
                path: tokens[i]@,
                cause: cause@,
            }),
        }
    }
}

/// What resolution returns: the first non-flag token is the query (its
/// absence, or an empty one, is the missing-query error), and the remaining
/// tokens are processed left to right over the environment defaults.
pub open spec fn spec_build(tokens: Seq<String>, kinds: Seq<PathKind>, env: EnvFlags) -> Result<
    ConfigModel,
    ConfigErrorModel,
> {
    let qi = query_index(tokens);
    if qi >= tokens.len() {
        Err(ConfigErrorModel::MissingQuery)
    } else if tokens[qi]@.len() == 0 {
        Err(ConfigErrorModel::MissingQuery)
    } else {
        resolve_from(tokens, kinds, qi, 0, init_model(tokens[qi]@, env))
    }
}

/// Whether a token begins with the flag marker.
fn token_is_flag(t: &String) -> (r: bool)
    ensures
        r == is_flag_token(t@),
{
    let n = t.as_str().unicode_len();
    n > 0 && t.as_str().get_char(0) == '-'
}

/// Whether the token list asks for help.
pub fn wants_help(tokens: &Vec<String>) -> (r: bool)
    ensures
        r == exists|i: int|
            0 <= i < tokens@.len() && ((#[trigger] tokens@[i])@ == "--help"@ || tokens@[i]@
                == "-h"@),
{
    let mut i: usize = 0;
    while i < tokens.len()
        invariant
            i <= tokens@.len(),
            forall|k: int|
                0 <= k < i ==> !((#[trigger] tokens@[k])@ == "--help"@ || tokens@[k]@ == "-h"@),
        decreases tokens@.len() - i,
    {
        if str_eq(tokens[i].as_str(), "--help") || str_eq(tokens[i].as_str(), "-h") {
            return true;
        }
        i = i + 1;
    }
    false
}

impl Config {
    /// Resolves a configuration from the argument tokens, the environment
    /// defaults, and the caller's classification of each token as a path
    /// (`kinds[i]` is consulted only for the non-flag, non-query token `i`).
    pub fn build(tokens: &Vec<String>, kinds: &Vec<PathKind>, env: EnvFlags) -> (r: Result<
        Config,
        ConfigError,
    >)
        requires
            kinds@.len() == tokens@.len(),
        ensures
            match r {
                Ok(c) => spec_build(tokens@, kinds@, env) == Ok::<ConfigModel, ConfigErrorModel>(
                    c@,
                ) && c@.wf(),
                Err(e) => spec_build(tokens@, kinds@, env) == Err::<ConfigModel, ConfigErrorModel>(
                    e@,
                ),
            },
    {
        let n = tokens.len();
        let mut qi: usize = 0;
        while qi < n && token_is_flag(&tokens[qi])
            invariant
                n == tokens@.len(),
                qi <= n,
                query_index(tokens@) == query_index_from(tokens@, qi as int),
            decreases n - qi,
        {
            qi = qi + 1;
        }
        if qi == n {
            proof {
                assert(query_index(tokens@) == n);
            }
            return Err(ConfigError::MissingQuery);
        }
        proof {
            assert(query_index(tokens@) == qi);
        }
        let query = tokens[qi].clone();
        if query.as_str().unicode_len() == 0 {
            return Err(ConfigError::MissingQuery);
        }

        let mut file_paths: Vec<String> = Vec::new();
        let mut dir_paths: Vec<String> = Vec::new();
        let mut ignore_case = env.ignore_case;
        let mut label_files = env.label_files;
        let mut include_symlinks = env.include_symlinks;
        let mut include_hidden = env.include_hidden;
        let mut include_line_numbers = env.include_line_numbers;

        let ghost init = init_model(tokens@[qi as int]@, env);
        proof {
            assert(views_of(file_paths@) =~= Seq::<Seq<char>>::empty());
            assert(views_of(dir_paths@) =~= Seq::<Seq<char>>::empty());
        }
        let mut i: usize = 0;
        while i < n
            invariant
                n == tokens@.len(),
                kinds@.len() == tokens@.len(),
                i <= n,
                qi < n,
                query_index(tokens@) == qi,
                query@ == tokens@[qi as int]@,
                query@.len() > 0,
                resolve_from(tokens@, kinds@, qi as int, 0, init) == resolve_from(
                    tokens@,
                    kinds@,
                    qi as int,
                    i as int,
                    (ConfigModel {
                        query: query@,
                        file_paths: views_of(file_paths@),
                        dir_paths: views_of(dir_paths@),
                        ignore_case: ignore_case,
                        label_files: label_files,
                        include_symlinks: include_symlinks,
                        include_hidden: include_hidden,
                        include_line_numbers: include_line_numbers,
                    }),
                ),
                init == init_model(tokens@[qi as int]@, env),
            decreases n - i,
        {
            let ghost before = ConfigModel {
                query: query@,
                file_paths: views_of(file_paths@),
                dir_paths: views_of(dir_paths@),
                ignore_case: ignore_case,
                label_files: label_files,
                include_symlinks: include_symlinks,
                include_hidden: include_hidden,
                include_line_numbers: include_line_numbers,
            };
            if i != qi {
                let t = &tokens[i];
                let tn = t.as_str().unicode_len();
                if tn > 0 && t.as_str().get_char(0) == '-' {
                    let suffix = t.as_str().substring_char(1, tn);
                    proof {
                        assert(suffix@ =~= tokens@[i as int]@.skip(1));
                    }
                    if str_eq(suffix, "-ignore_case") || str_eq(suffix, "i") {
                        ignore_case = true;
                    } else if str_eq(suffix, "-header") || str_eq(suffix, "H") {
                        label_files = true;
                    } else if str_eq(suffix, "-include_symlinks") || str_eq(suffix, "s") {
                        include_symlinks = true;
                    } else if str_eq(suffix, "-include_hidden") || str_eq(suffix, "hi") {
                        include_hidden = true;
                    } else if str_eq(suffix, "-include_line_numbers") || str_eq(suffix, "l") {
                        include_line_numbers = true;
                    } else {
                        proof {
                            assert(spec_flag_of(tokens@[i as int]@.skip(1)) is None);
                        }
                        return Err(ConfigError::UnknownFlag { token: t.clone() });
                    }
                } else {
                    match &kinds[i] {
                        PathKind::File => {
                            file_paths.push(t.clone());
                            proof {
                                assert(views_of(file_paths@) =~= before.file_paths.push(
                                    tokens@[i as int]@,
                                ));
                            }
                        },
                        PathKind::Dir => {
                            dir_paths.push(t.clone());
                            proof {
                                assert(views_of(dir_paths@) =~= before.dir_paths.push(
                                    tokens@[i as int]@,
                                ));
                            }
                        },
                        PathKind::Other => {},
                        PathKind::Unreadable(cause) => {
                            return Err(ConfigError::UnresolvablePath {
                                path: t.clone(),
                                cause: cause.clone(),
                            });
                        },
                    }
                }
            }
            i = i + 1;
        }
        let c = Config {
            query,
            file_paths,
            dir_paths,
            ignore_case,
            label_files,
            include_symlinks,
            include_hidden,
            include_line_numbers,
        };
        Ok(c)
    }
}

/// Environment defaults are never unset: a boolean that the environment set
/// stays set in any configuration that resolution returns, whatever flags
/// and paths the tokens hold.
pub proof fn lemma_env_defaults_kept(tokens: Seq<String>, kinds: Seq<PathKind>, env: EnvFlags)
    ensures
        spec_build(tokens, kinds, env) matches Ok(c) ==> {
            &&& env.ignore_case ==> c.ignore_case
            &&& env.label_files ==> c.label_files
            &&& env.include_symlinks ==> c.include_symlinks
            &&& env.include_hidden ==> c.include_hidden
            &&& env.include_line_numbers ==> c.include_line_numbers
        },
{
    let qi = query_index(tokens);
    if qi < tokens.len() && tokens[qi]@.len() > 0 {
        lemma_resolve_flags_monotonic(tokens, kinds, qi, 0, init_model(tokens[qi]@, env));
    }
}

/// Processing tokens never turns a boolean off.
proof fn lemma_resolve_flags_monotonic(
    tokens: Seq<String>,
    kinds: Seq<PathKind>,
    qi: int,
    i: int,
    acc: ConfigModel,
)
    ensures
        resolve_from(tokens, kinds, qi, i, acc) matches Ok(c) ==> {
            &&& acc.ignore_case ==> c.ignore_case
            &&& acc.label_files ==> c.label_files
            &&& acc.include_symlinks ==> c.include_symlinks
            &&& acc.include_hidden ==> c.include_hidden
            &&& acc.include_line_numbers ==> c.include_line_numbers
        },
    decreases tokens.len() - i,
{
    if 0 <= i < tokens.len() {
        if i == qi {
            lemma_resolve_flags_monotonic(tokens, kinds, qi, i + 1, acc);
        } else if is_flag_token(tokens[i]@) {
            match spec_flag_of(tokens[i]@.skip(1)) {
                Some(f) => lemma_resolve_flags_monotonic(tokens, kinds, qi, i + 1, apply_flag(acc, f)),
                None => {},
            }
        } else {
            match kinds[i] {
                PathKind::File => lemma_resolve_flags_monotonic(
                    tokens,
                    kinds,
                    qi,
                    i + 1,
                    ConfigModel { file_paths: acc.file_paths.push(tokens[i]@), ..acc },
                ),
                PathKind::Dir => lemma_resolve_flags_monotonic(
                    tokens,
                    kinds,
                    qi,
                    i + 1,
                    ConfigModel { dir_paths: acc.dir_paths.push(tokens[i]@), ..acc },
                ),
                PathKind::Other => lemma_resolve_flags_monotonic(tokens, kinds, qi, i + 1, acc),
                PathKind::Unreadable(_) => {},
            }
        }
    }
}

} // verus!

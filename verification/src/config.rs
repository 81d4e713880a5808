//! Crawl configuration: include/exclude pattern sets, the size limit, the
//! path-reporting mode, and the pattern filter with its guarantees.

use vstd::prelude::*;
use crate::patterns::{all_patterns_ok, any_pattern_matches, matches_any, patterns_compile};

verus! {

/// Errors that abort a crawl before any traversal starts.
#[derive(Debug, Clone, Copy, PartialEq, Eq, Structural)]
pub enum CrawlError {
    /// Neither a remote reference nor a local directory was supplied.
    MissingSource,
    /// The repository reference does not hold an owner and a repository name.
    InvalidUrl,
    /// Some include or exclude pattern does not compile.
    InvalidPattern,
}

impl CrawlError {
    /// A human-readable description of the error.
    pub fn message(&self) -> (r: &'static str)
        ensures
            *self is MissingSource ==> r@ == "either a repository reference or a local directory must be provided"@,
            *self is InvalidUrl ==> r@ == "the repository reference holds no owner and repository name"@,
            *self is InvalidPattern ==> r@ == "an include or exclude pattern is not a valid glob"@,
    {
        match self {
            CrawlError::MissingSource => "either a repository reference or a local directory must be provided",
            CrawlError::InvalidUrl => "the repository reference holds no owner and repository name",
            CrawlError::InvalidPattern => "an include or exclude pattern is not a valid glob",
        }
    }
}

/// Configuration of one crawl invocation. Never mutated after construction.
pub struct CrawlConfig {
    /// Include patterns, matched against file names; absence keeps everything.
    pub include_patterns: Option<Vec<String>>,
    /// Exclude patterns, matched against paths; a match overrides inclusion.
    pub exclude_patterns: Option<Vec<String>>,
    /// Largest file size, in bytes, whose content is fetched.
    pub max_file_size: u64,
    /// Report paths relative to the crawl root rather than as handed in.
    pub use_relative_paths: bool,
}

impl CrawlConfig {
    /// Every configured pattern compiles.
    pub open spec fn patterns_ok(&self) -> bool {
        &&& (self.include_patterns matches Some(ps) ==> all_patterns_ok(ps@))
        &&& (self.exclude_patterns matches Some(ps) ==> all_patterns_ok(ps@))
    }

    /// The file name matches the include set (or no include set is given).
    pub open spec fn spec_included(&self, filename: Seq<char>) -> bool {
        match self.include_patterns {
            Some(ps) => matches_any(ps@, filename),
            None => true,
        }
    }

    /// The path matches some exclude pattern.
    pub open spec fn spec_excluded(&self, path: Seq<char>) -> bool {
        match self.exclude_patterns {
            Some(ps) => matches_any(ps@, path),
            None => false,
        }
    }

    /// The pattern filter: a file is kept when its name passes the include
    /// set and its path matches no exclude pattern.
    pub open spec fn spec_accepts(&self, path: Seq<char>, filename: Seq<char>) -> bool {
        self.spec_included(filename) && !self.spec_excluded(path)
    }

    /// A directory is pruned when either of its two path spellings matches
    /// an exclude pattern.
    pub open spec fn spec_dir_excluded(&self, path: Seq<char>, display: Seq<char>) -> bool {
        self.spec_excluded(path) || self.spec_excluded(display)
    }

    /// Checks that every configured pattern compiles.
    pub fn validate(&self) -> (r: bool)
        ensures
            r == self.patterns_ok(),
    {
        let inc_ok = match &self.include_patterns {
            Some(ps) => patterns_compile(ps),
            None => true,
        };
        if !inc_ok {
            return false;
        }
        match &self.exclude_patterns {
            Some(ps) => patterns_compile(ps),
            None => true,
        }
    }

    /// The pattern filter on one file.
    pub fn accepts(&self, path: &str, filename: &str) -> (r: bool)
        requires
            self.patterns_ok(),
        ensures
            r == self.spec_accepts(path@, filename@),
    {
        let included = match &self.include_patterns {
            Some(ps) => any_pattern_matches(ps, filename),
            None => true,
        };
        if !included {
            return false;
        }
        match &self.exclude_patterns {
            Some(ps) => !any_pattern_matches(ps, path),
            None => true,
        }
    }

    /// The pattern filter on one file, checking the patterns first; `None`
    /// exactly when some configured pattern does not compile.
    pub fn accepts_checked(&self, path: &str, filename: &str) -> (r: Option<bool>)
        ensures
            self.patterns_ok() ==> r == Some(self.spec_accepts(path@, filename@)),
            !self.patterns_ok() ==> r is None,
    {
        if self.validate() {
            Some(self.accepts(path, filename))
        } else {
            None
        }
    }

    /// The directory pruning check of the remote walk.
    pub fn dir_excluded(&self, path: &str, display: &str) -> (r: bool)
        requires
            self.patterns_ok(),
        ensures
            r == self.spec_dir_excluded(path@, display@),
    {
        match &self.exclude_patterns {
            Some(ps) => {
                if any_pattern_matches(ps, path) {
                    true
                } else {
                    any_pattern_matches(ps, display)
                }
            },
            None => false,
        }
    }
}

/// With no include set configured, the filter keeps a file exactly when no
/// exclude pattern matches its path, whatever its name.
pub proof fn lemma_no_include_set_keeps_unless_excluded(
    cfg: CrawlConfig,
    path: Seq<char>,
    filename: Seq<char>,
)
    requires
        cfg.include_patterns is None,
    ensures
        cfg.spec_accepts(path, filename) <==> !cfg.spec_excluded(path),
{
}

/// A file whose name matches an include pattern and whose path matches an
/// exclude pattern is excluded: exclusion overrides inclusion.
pub proof fn lemma_exclude_overrides_include(
    cfg: CrawlConfig,
    path: Seq<char>,
    filename: Seq<char>,
)
    requires
        cfg.spec_excluded(path),
    ensures
        !cfg.spec_accepts(path, filename),
{
}

/// The include patterns used when the caller configures none.
pub fn get_default_include_patterns() -> (r: Vec<String>)
    ensures
        r.deep_view() =~= seq![
            "*.py"@, "*.js"@, "*.jsx"@, "*.ts"@, "*.tsx"@, "*.go"@, "*.java"@, "*.pyi"@,
            "*.pyx"@, "*.c"@, "*.cc"@, "*.cpp"@, "*.h"@, "*.md"@, "*.rst"@, "*Dockerfile"@,
            "*Makefile"@, "*.yaml"@, "*.yml"@,
        ],
{
    let mut v: Vec<String> = Vec::new();
    v.push("*.py".to_owned());
    v.push("*.js".to_owned());
    v.push("*.jsx".to_owned());
    v.push("*.ts".to_owned());
    v.push("*.tsx".to_owned());
    v.push("*.go".to_owned());
    v.push("*.java".to_owned());
    v.push("*.pyi".to_owned());
    v.push("*.pyx".to_owned());
    v.push("*.c".to_owned());
    v.push("*.cc".to_owned());
    v.push("*.cpp".to_owned());
    v.push("*.h".to_owned());
    v.push("*.md".to_owned());
    v.push("*.rst".to_owned());
    v.push("*Dockerfile".to_owned());
    v.push("*Makefile".to_owned());
    v.push("*.yaml".to_owned());
    v.push("*.yml".to_owned());
    v
}

/// The exclude patterns used when the caller configures none.
pub fn get_default_exclude_patterns() -> (r: Vec<String>)
    ensures
        r.deep_view() =~= seq![
            "assets/*"@, "data/*"@, "images/*"@, "public/*"@, "static/*"@, "temp/*"@,
            "*docs/*"@, "*venv/*"@, "*.venv/*"@, "*test*"@, "*tests/*"@, "*examples/*"@,
            "v1/*"@, "*dist/*"@, "*build/*"@, "*experimental/*"@, "*deprecated/*"@,
            "*misc/*"@, "*legacy/*"@, ".git/*"@, ".github/*"@, ".next/*"@, ".vscode/*"@,
            "*obj/*"@, "*bin/*"@, "*node_modules/*"@, "*.log"@,
        ],
{
    let mut v: Vec<String> = Vec::new();
    v.push("assets/*".to_owned());
    v.push("data/*".to_owned());
    v.push("images/*".to_owned());
    v.push("public/*".to_owned());
    v.push("static/*".to_owned());
    v.push("temp/*".to_owned());
    v.push("*docs/*".to_owned());
    v.push("*venv/*".to_owned());
    v.push("*.venv/*".to_owned());
    v.push("*test*".to_owned());
    v.push("*tests/*".to_owned());
    v.push("*examples/*".to_owned());
    v.push("v1/*".to_owned());
    v.push("*dist/*".to_owned());
    v.push("*build/*".to_owned());
    v.push("*experimental/*".to_owned());
    v.push("*deprecated/*".to_owned());
    v.push("*misc/*".to_owned());
    v.push("*legacy/*".to_owned());
    v.push(".git/*".to_owned());
    v.push(".github/*".to_owned());
    v.push(".next/*".to_owned());
    v.push(".vscode/*".to_owned());
    v.push("*obj/*".to_owned());
    v.push("*bin/*".to_owned());
    v.push("*node_modules/*".to_owned());
    v.push("*.log".to_owned());
    v
}

} // verus!

//! The source resolver: classifies a location string as a remote git
//! repository, a file URL, or a local path; plans the git cache protocol; and
//! checks archetype requirements against the engine version.

use vstd::prelude::*;
use vstd::string::*;
use crate::error::SourceError;
use crate::strings::{str_to_chars, chars_to_string, dec_str, int_str, u64_string, i64_string};
use crate::template::{exec_find_char, copy_range};
use crate::engine::{Archetect, SystemLayout};

verus! {

broadcast use vstd::std_specs::vec::axiom_spec_len;

/// A resolved template origin. `path` is the local filesystem location that
/// holds (or will hold) the materialized content.
#[derive(Debug)]
pub enum Source {
    RemoteGit { url: String, path: String, gitref: Option<String> },
    RemoteHttp { url: String, path: String },
    LocalDirectory { path: String },
    LocalFile { path: String },
}

/// The outcome of classifying a location string: either a fully resolved
/// local source, or a remote git repository that a git driver must
/// materialize into the cache first.
#[derive(Debug)]
pub enum SourceResolution {
    Resolved(Source),
    NeedsGit { url: String, clone_url: String, cache_path: String, gitref: Option<String> },
}

/// The index of the last occurrence of `c` in `s`.
pub open spec fn rfind_char(s: Seq<char>, c: char) -> Option<int>
    decreases s.len(),
{
    if s.len() == 0 {
        None
    } else if s.last() == c {
        Some(s.len() - 1)
    } else {
        rfind_char(s.drop_last(), c)
    }
}

/// The directory part of a path: everything before the last `/`, or the
/// empty string when there is none.
pub open spec fn parent_dir(s: Seq<char>) -> Seq<char> {
    match rfind_char(s, '/') {
        None => Seq::empty(),
        Some(k) => if k == 0 {
            seq!['/']
        } else {
            s.subrange(0, k)
        },
    }
}

/// `a` and `b` joined with a path separator.
pub open spec fn join_paths(a: Seq<char>, b: Seq<char>) -> Seq<char> {
    if a.len() == 0 {
        b
    } else if a.last() == '/' {
        a + b
    } else {
        a + seq!['/'] + b
    }
}

/// The first index at or after `i` where `pat` occurs in `s`.
pub open spec fn find_sub(s: Seq<char>, i: int, pat: Seq<char>) -> Option<int>
    decreases s.len() - i,
{
    if i < 0 || i + pat.len() > s.len() {
        None
    } else if pat.len() == 0 {
        Some(i)
    } else if s.subrange(i, i + pat.len() as int) == pat {
        Some(i)
    } else {
        find_sub(s, i + 1, pat)
    }
}

/// Whether `pat` occurs anywhere in `s`.
pub open spec fn has_sub(s: Seq<char>, pat: Seq<char>) -> bool {
    find_sub(s, 0, pat) is Some
}

impl Source {
    /// The local filesystem location of the source's content.
    pub open spec fn spec_local_path(&self) -> Seq<char> {
        match self {
            Source::RemoteGit { path, .. } => path@,
            Source::RemoteHttp { path, .. } => path@,
            Source::LocalDirectory { path } => path@,
            Source::LocalFile { path } => path@,
        }
    }

    /// The location string the source was resolved from.
    pub open spec fn spec_source(&self) -> Seq<char> {
        match self {
            Source::RemoteGit { url, .. } => url@,
            Source::RemoteHttp { url, .. } => url@,
            Source::LocalDirectory { path } => path@,
            Source::LocalFile { path } => path@,
        }
    }

    /// The directory holding the source's content: the local path itself,
    /// except for a single file, whose parent directory is taken.
    pub open spec fn spec_directory(&self) -> Seq<char> {
        match self {
            Source::LocalFile { path } => parent_dir(path@),
            _ => self.spec_local_path(),
        }
    }

    /// The local path of the materialized content.
    pub fn local_path(&self) -> (r: &str)
        ensures
            r@ == self.spec_local_path(),
    {
        match self {
            Source::RemoteGit { path, .. } => path.as_str(),
            Source::RemoteHttp { path, .. } => path.as_str(),
            Source::LocalDirectory { path } => path.as_str(),
            Source::LocalFile { path } => path.as_str(),
        }
    }

    /// The location string the source was resolved from.
    pub fn source(&self) -> (r: &str)
        ensures
            r@ == self.spec_source(),
    {
        match self {
            Source::RemoteGit { url, .. } => url.as_str(),
            Source::RemoteHttp { url, .. } => url.as_str(),
            Source::LocalDirectory { path } => path.as_str(),
            Source::LocalFile { path } => path.as_str(),
        }
    }

    /// The directory to render from.
    pub fn directory(&self) -> (r: String)
        ensures
            r@ == self.spec_directory(),
    {
        match self {
            Source::LocalFile { path } => exec_parent_dir(path.as_str()),
            Source::RemoteGit { path, .. } => path.clone(),
            Source::RemoteHttp { path, .. } => path.clone(),
            Source::LocalDirectory { path } => path.clone(),
        }
    }
}

/// The directory part of a path.
pub fn exec_parent_dir(path: &str) -> (r: String)
    ensures
        r@ == parent_dir(path@),
{
    let v = str_to_chars(path);
    let mut i = v.len();
    proof {
        assert(v@.subrange(0, v@.len() as int) =~= v@);
    }
    while i > 0
        invariant
            i <= v@.len(),
            v@ == path@,
            rfind_char(path@, '/') == rfind_char(path@.subrange(0, i as int), '/'),
        decreases i,
    {
        proof {
            assert(path@.subrange(0, i as int).last() == path@[i - 1]);
            assert(path@.subrange(0, i as int).drop_last() =~= path@.subrange(0, i - 1));
        }
        if v[i - 1] == '/' {
            if i == 1 {
                proof {
                    reveal_strlit("/");
                    assert("/"@ =~= seq!['/']);
                }
                return "/".to_owned();
            }
            return chars_to_string(&copy_range(&v, 0, i - 1));
        }
        i = i - 1;
    }
    proof {
        assert(path@.subrange(0, 0) =~= Seq::<char>::empty());
    }
    String::new()
}

/// `a` and `b` joined with a path separator.
pub fn exec_join_paths(a: &str, b: &str) -> (r: String)
    ensures
        r@ == join_paths(a@, b@),
{
    let av = str_to_chars(a);
    if av.len() == 0 {
        return b.to_owned();
    }
    let mut s = a.to_owned();
    if av[av.len() - 1] != '/' {
        proof {
            reveal_strlit("/");
        }
        s.append("/");
        proof {
            assert(a@ + "/"@ =~= a@ + seq!['/']);
        }
    }
    s.append(b);
    s
}

/// Whether `pat` occurs in `v` at position `k`.
fn exec_match_at(v: &Vec<char>, k: usize, pat: &Vec<char>) -> (r: bool)
    requires
        k + pat@.len() <= v@.len(),
    ensures
        r == (v@.subrange(k as int, k + pat@.len() as int) == pat@),
{
    let n = pat.len();
    for m in 0..n
        invariant
            n == pat@.len(),
            k + n <= v@.len(),
            v@.len() == v.len(),
            forall|t: int| 0 <= t < m ==> v@[k + t] == pat@[t],
    {
        if v[k + m] != pat[m] {
            proof {
                assert(v@.subrange(k as int, k + pat@.len() as int)[m as int] != pat@[m as int]);
            }
            return false;
        }
    }
    proof {
        assert(v@.subrange(k as int, k + pat@.len() as int) =~= pat@);
    }
    true
}

/// Whether `pat` occurs anywhere in `v`.
pub fn exec_has_sub(v: &Vec<char>, pat: &Vec<char>) -> (r: bool)
    ensures
        r == has_sub(v@, pat@),
{
    let n = v.len();
    let plen = pat.len();
    if plen > n {
        return false;
    }
    if plen == 0 {
        return true;
    }
    let mut k: usize = 0;
    while k <= n - plen
        invariant
            n == v@.len(),
            plen == pat@.len(),
            0 < plen <= n,
            k <= n + 1 - plen,
            find_sub(v@, 0, pat@) == find_sub(v@, k as int, pat@),
        decreases n - k,
    {
        if exec_match_at(v, k, pat) {
            return true;
        }
        k = k + 1;
    }
    false
}

/// The 64-bit fingerprint that the cache key is derived from; a function of
/// the input characters alone.
pub uninterp spec fn fingerprint64_of(s: Seq<char>) -> u64;

/// Relies on farmhash::fingerprint64: a stable 64-bit fingerprint of the
/// input bytes, a function of the input alone.
#[verifier::external_body]
fn farmhash_fingerprint64(input: &str) -> (r: u64)
    ensures
        r == fingerprint64_of(input@),
{
    farmhash::fingerprint64(input.as_bytes())
}

/// The cache fingerprint of an input string.
pub fn get_cache_hash(input: &str) -> (r: u64)
    ensures
        r == fingerprint64_of(input@),
{
    farmhash_fingerprint64(input)
}

/// The cache key of an input string: its 64-bit fingerprint, in decimal.
pub fn get_cache_key(input: &str) -> (r: String)
    ensures
        r@ == dec_str(fingerprint64_of(input@) as nat),
{
    u64_string(get_cache_hash(input))
}

/// The cache key is deterministic: equal inputs give equal keys.
pub proof fn lemma_cache_key_deterministic(a: Seq<char>, b: Seq<char>)
    requires
        a == b,
    ensures
        dec_str(fingerprint64_of(a) as nat) == dec_str(fingerprint64_of(b) as nat),
{
}

/// Whether and how a string splits as `user@host:path`; a function of the
/// string alone.
pub uninterp spec fn ssh_git_parts(s: Seq<char>) -> Option<(Seq<char>, Seq<char>)>;

/// Relies on regex::Regex::captures with the fixed pattern
/// `\S+@(\S+):(.*)`, whose two groups are the host and the path; the match is
/// a function of the input string alone. The pattern is a valid literal, so
/// Regex::new cannot fail on it.
#[verifier::external_body]
fn ssh_git_captures(s: &str) -> (r: Option<(String, String)>)
    ensures
        match r {
            Some(hp) => ssh_git_parts(s@) == Some((hp.0@, hp.1@)),
            None => ssh_git_parts(s@) is None,
        },
{
    let pattern = regex::Regex::new(r"\S+@(\S+):(.*)").unwrap();
    pattern.captures(s).map(|c| (c[1].to_string(), c[2].to_string()))
}

/// How a URL string parses: host presence, host, path and fragment; a
/// function of the string alone.
pub uninterp spec fn url_parse_of(s: Seq<char>) -> Option<
    (bool, Seq<char>, Seq<char>, Option<Seq<char>>),
>;

/// The plain parts of a parsed URL. `file_path` is the local path for
/// `file://` URLs; it depends on the platform, so nothing is claimed of it.
pub struct UrlParts {
    pub has_host: bool,
    pub host: String,
    pub path: String,
    pub fragment: Option<String>,
    pub file_path: Option<String>,
}

/// Relies on url::Url::parse and its accessors has_host, host_str, path,
/// fragment and to_file_path, converting the parsed URL into plain parts.
/// All but to_file_path are functions of the URL string alone.
#[verifier::external_body]
fn parse_url(s: &str) -> (r: Option<UrlParts>)
    ensures
        match r {
            Some(p) => url_parse_of(s@) == Some(
                (
                    p.has_host,
                    p.host@,
                    p.path@,
                    match p.fragment {
                        Some(f) => Some(f@),
                        None => None,
                    },
                ),
            ),
            None => url_parse_of(s@) is None,
        },
{
    let u = url::Url::parse(s).ok()?;
    let file_path = u.to_file_path().ok().and_then(|p| p.to_str().map(|x| x.to_string()));
    Some(UrlParts {
        has_host: u.has_host(),
        host: u.host_str().unwrap_or("").to_string(),
        path: u.path().to_string(),
        fragment: u.fragment().map(|f| f.to_string()),
        file_path,
    })
}

/// Relies on shellexpand::full: expands `~` and environment variables. The
/// result depends on the process environment, so nothing is claimed of it;
/// `None` reports a lookup failure.
#[verifier::external_body]
fn shell_expand_full(s: &str) -> (r: Option<String>) {
    match shellexpand::full(s) {
        Ok(expanded) => Some(expanded.into_owned()),
        Err(_) => None,
    }
}

/// Relies on shellexpand::tilde: expands a leading `~` to the user's home
/// directory. The result depends on the environment, so nothing is claimed.
#[verifier::external_body]
pub(crate) fn shell_expand_tilde(s: &str) -> (r: String) {
    shellexpand::tilde(s).into_owned()
}

/// Relies on std::path::Path::exists; the result depends on the state of the
/// filesystem, so nothing is claimed of it.
#[verifier::external_body]
pub(crate) fn path_exists(p: &str) -> (r: bool) {
    std::path::Path::new(p).exists()
}

/// Relies on std::path::Path::is_dir; the result depends on the filesystem.
#[verifier::external_body]
pub(crate) fn path_is_dir(p: &str) -> (r: bool) {
    std::path::Path::new(p).is_dir()
}

/// Relies on std::path::Path::is_relative; the result depends on the
/// platform's path syntax, so nothing is claimed of it.
#[verifier::external_body]
fn path_is_relative(p: &str) -> (r: bool) {
    std::path::Path::new(p).is_relative()
}

/// Whether a version satisfies a constraint; a function of the two strings
/// alone. `None` when either string does not parse.
pub uninterp spec fn semver_req_match(constraint: Seq<char>, version: Seq<char>) -> Option<bool>;

/// Relies on semver::VersionReq::parse, semver::Version::parse and
/// semver::VersionReq::matches: whether `version` satisfies `constraint` is
/// a function of the two strings alone; `None` when either does not parse.
#[verifier::external_body]
fn version_req_matches(constraint: &str, version: &str) -> (r: Option<bool>)
    ensures
        r == semver_req_match(constraint@, version@),
{
    match (semver::VersionReq::parse(constraint), semver::Version::parse(version)) {
        (Ok(req), Ok(ver)) => Some(req.matches(&ver)),
        _ => None,
    }
}

/// One piece of git work for the driver to perform in the cache directory.
#[derive(Clone, Copy, Debug, PartialEq, Eq, Structural)]
pub enum GitWork {
    CloneRepo,
    FetchRepo,
}

/// Plans the git cache step for a repository: clone a missing cache entry,
/// fetch an existing one, do nothing when this process already touched the
/// repository, and fail when the cache misses while offline (or when the
/// repository was touched and still is not cached).
pub fn plan_git_cache(url: &str, dest_exists: bool, offline: bool, already_touched: bool) -> (r:
    Result<Option<GitWork>, SourceError>)
    ensures
        match r {
            Ok(Some(GitWork::CloneRepo)) => !dest_exists && !offline && !already_touched,
            Ok(Some(GitWork::FetchRepo)) => dest_exists && !offline && !already_touched,
            Ok(None) => dest_exists && (offline || already_touched),
            Err(e) => !dest_exists && (offline || already_touched) && (e matches
                SourceError::OfflineAndNotCached(u) && u@ == url@),
        },
{
    if !dest_exists {
        if !offline && !already_touched {
            Ok(Some(GitWork::CloneRepo))
        } else {
            Err(SourceError::OfflineAndNotCached(url.to_owned()))
        }
    } else {
        if !offline && !already_touched {
            Ok(Some(GitWork::FetchRepo))
        } else {
            Ok(None)
        }
    }
}

/// Picks the default branch from the probes of the three conventional
/// names, in order: `develop`, then `main`, then `master`.
pub fn find_default_branch(has_develop: bool, has_main: bool, has_master: bool) -> (r: Result<
    String,
    SourceError,
>)
    ensures
        match r {
            Ok(name) => (has_develop && name@ == "develop"@) || (!has_develop && has_main && name@
                == "main"@) || (!has_develop && !has_main && has_master && name@ == "master"@),
            Err(e) => !has_develop && !has_main && !has_master && (e matches
                SourceError::NoDefaultBranch),
        },
{
    if has_develop {
        Ok("develop".to_owned())
    } else if has_main {
        Ok("main".to_owned())
    } else if has_master {
        Ok("master".to_owned())
    } else {
        Err(SourceError::NoDefaultBranch)
    }
}

/// The refspec to check out: `origin/<ref>` for a known remote branch, the
/// ref itself otherwise (tags and commit ids).
pub fn checkout_spec_for(gitref: &str, is_remote_branch: bool) -> (r: String)
    ensures
        is_remote_branch ==> r@ == "origin/"@ + gitref@,
        !is_remote_branch ==> r@ == gitref@,
{
    if is_remote_branch {
        let mut s = "origin/".to_owned();
        s.append(gitref);
        s
    } else {
        gitref.to_owned()
    }
}

/// The message reported for a git command that exited with `code`.
pub open spec fn git_error_message(code: int, stderr: Seq<char>) -> Seq<char> {
    "Error Code: "@ + int_str(code) + seq!['\n'] + stderr
}

/// Interprets the exit of a git subprocess: exit code zero succeeds, any
/// other exit code is a remote-source error carrying the code and the
/// captured standard error, and an exit without a code means the command was
/// interrupted by a signal.
pub fn interpret_git_exit(code: Option<i64>, stderr: &str) -> (r: Result<(), SourceError>)
    ensures
        match r {
            Ok(()) => code == Some(0i64),
            Err(e) => match code {
                Some(c) => c != 0 && (e matches SourceError::RemoteSourceError(m) && m@
                    == git_error_message(c as int, stderr@)),
                None => e matches SourceError::RemoteSourceError(m) && m@
                    == "Git interrupted by signal"@,
            },
        },
{
    match code {
        Some(c) => {
            if c == 0 {
                Ok(())
            } else {
                let mut m = "Error Code: ".to_owned();
                let num = i64_string(c);
                m.append(num.as_str());
                proof {
                    reveal_strlit("\n");
                    assert("\n"@ =~= seq!['\n']);
                }
                m.append("\n");
                m.append(stderr);
                Err(SourceError::RemoteSourceError(m))
            }
        },
        None => Err(SourceError::RemoteSourceError("Git interrupted by signal".to_owned())),
    }
}

/// Verifies an archetype's engine requirements: absent requirements succeed;
/// a present constraint must parse and be satisfied by the engine's version.
pub fn verify_requirements(archetect: &Archetect, source: &str, requirements: Option<&str>) -> (r:
    Result<(), SourceError>)
    ensures
        match r {
            Ok(()) => match requirements {
                None => true,
                Some(c) => semver_req_match(c@, crate::engine::engine_version_text()) == Some(true),
            },
            Err(e) => match requirements {
                None => false,
                Some(c) => semver_req_match(c@, crate::engine::engine_version_text()) != Some(true)
                    && (e matches SourceError::RequirementsError { path, .. } && path@ == source@),
            },
        },
{
    match requirements {
        None => Ok(()),
        Some(constraint) => {
            let version = archetect.version();
            match version_req_matches(constraint, version.as_str()) {
                Some(true) => Ok(()),
                Some(false) => Err(
                    SourceError::RequirementsError {
                        path: source.to_owned(),
                        cause: "the engine version does not satisfy the constraint".to_owned(),
                    },
                ),
                None => Err(
                    SourceError::RequirementsError {
                        path: source.to_owned(),
                        cause: "the requirements constraint does not parse".to_owned(),
                    },
                ),
            }
        },
    }
}

/// The location string up to its first `#`, or the whole string.
pub open spec fn before_fragment(s: Seq<char>) -> Seq<char> {
    match crate::template::find_char(s, 0, '#') {
        None => s,
        Some(h) => s.subrange(0, h),
    }
}

/// The ref named after the first `#`, when there is one.
pub open spec fn fragment_ref(s: Seq<char>) -> Option<Seq<char>> {
    match crate::template::find_char(s, 0, '#') {
        None => None,
        Some(h) => {
            if 0 <= h && h + 1 <= s.len() {
                Some(s.subrange(h + 1, s.len() as int))
            } else {
                None
            }
        },
    }
}

/// Whether a location string has the shape of a git source: an
/// `user@host:path` short form, or a URL with a host and `.git` in it.
pub open spec fn git_shaped(path: Seq<char>) -> bool {
    ssh_git_parts(before_fragment(path)) is Some || (match url_parse_of(path) {
        Some((has_host, _, _, _)) => has_host && has_sub(path, ".git"@),
        None => false,
    })
}

/// The cache directory for a repository under `host/repo`: the git cache
/// directory joined with the decimal 64-bit fingerprint of `host/repo`.
pub open spec fn cache_path_for(git_cache: Seq<char>, host: Seq<char>, repo: Seq<char>) -> Seq<
    char,
> {
    join_paths(git_cache, dec_str(fingerprint64_of(host + seq!['/'] + repo) as nat))
}

impl Source {
    /// Classifies a location string. Git-shaped locations yield `NeedsGit`
    /// (after the offline cache check) carrying the clone URL, the cache
    /// directory derived from the location's fingerprint, and the ref named
    /// after `#`; `file://` URLs and shell-expanded local paths resolve to
    /// local sources, relative ones against the parent source's directory.
    pub fn detect(archetect: &Archetect, path: &str, relative_to: Option<&Source>) -> (r: Result<
        SourceResolution,
        SourceError,
    >)
        ensures
            match r {
                Ok(SourceResolution::Resolved(src)) => src matches Source::LocalDirectory { .. }
                    || src matches Source::LocalFile { .. },
                Ok(SourceResolution::NeedsGit { url, .. }) => url@ == path@,
                Err(e) => true,
            },
            r matches Ok(SourceResolution::NeedsGit { clone_url, .. }) ==> clone_url@
                == before_fragment(path@),
            !archetect.spec_offline() && git_shaped(path@) ==> r matches Ok(
                SourceResolution::NeedsGit { .. },
            ),
            r matches Ok(SourceResolution::NeedsGit { cache_path, gitref, .. }) ==> (match
                ssh_git_parts(before_fragment(path@)) {
                Some(hp) => cache_path@ == cache_path_for(
                    archetect.spec_layout().git_cache,
                    hp.0,
                    hp.1,
                ) && (match gitref {
                    Some(g) => fragment_ref(path@) == Some(g@),
                    None => fragment_ref(path@) is None,
                }),
                None => (match url_parse_of(path@) {
                    Some((has_host, host, upath, frag)) => has_host && has_sub(path@, ".git"@)
                        && cache_path@ == cache_path_for(
                        archetect.spec_layout().git_cache,
                        host,
                        upath,
                    ) && (match (gitref, frag) {
                        (Some(g), Some(f)) => g@ == f,
                        (None, None) => true,
                        _ => false,
                    }),
                    None => false,
                }),
            }),
            !archetect.spec_offline() ==> !(r matches Err(SourceError::OfflineAndNotCached(_))),
            r matches Err(SourceError::OfflineAndNotCached(u)) ==> archetect.spec_offline() && u@
                == path@,
    {
        let chars = str_to_chars(path);
        let hash_pos = exec_find_char(&chars, 0, '#');
        let before: String;
        let gitref0: Option<String>;
        match hash_pos {
            Some(h) => {
                proof {
                    assert(chars@.len() == chars.len());
                }
                before = chars_to_string(&copy_range(&chars, 0, h));
                gitref0 = Some(chars_to_string(&copy_range(&chars, h + 1, chars.len())));
            },
            None => {
                before = path.to_owned();
                gitref0 = None;
            },
        }
        match ssh_git_captures(before.as_str()) {
            Some(hp) => {
                let ghost host_part = hp.0@;
                let ghost repo_part = hp.1@;
                let mut input = hp.0;
                proof {
                    reveal_strlit("/");
                }
                input.append("/");
                input.append(hp.1.as_str());
                proof {
                    assert(before@ == before_fragment(path@));
                    assert(input@ =~= host_part + seq!['/'] + repo_part);
                }
                let key = get_cache_key(input.as_str());
                let git_cache = archetect.git_cache_dir();
                let cache_path = exec_join_paths(git_cache.as_str(), key.as_str());
                if !path_exists(cache_path.as_str()) && archetect.offline() {
                    return Err(SourceError::OfflineAndNotCached(path.to_owned()));
                }
                return Ok(
                    SourceResolution::NeedsGit {
                        url: path.to_owned(),
                        clone_url: before,
                        cache_path,
                        gitref: gitref0,
                    },
                );
            },
            None => {},
        }
        match parse_url(path) {
            Some(parts) => {
                let dotgit = {
                    proof {
                        reveal_strlit(".git");
                    }
                    let pat = str_to_chars(".git");
                    exec_has_sub(&chars, &pat)
                };
                if dotgit && parts.has_host {
                    let ghost host_part = parts.host@;
                    let ghost url_path = parts.path@;
                    let mut input = parts.host;
                    proof {
                        reveal_strlit("/");
                    }
                    input.append("/");
                    input.append(parts.path.as_str());
                    proof {
                        assert(before@ == before_fragment(path@));
                        assert(input@ =~= host_part + seq!['/'] + url_path);
                    }
                    let key = get_cache_key(input.as_str());
                    let git_cache = archetect.git_cache_dir();
                    let cache_path = exec_join_paths(git_cache.as_str(), key.as_str());
                    if !path_exists(cache_path.as_str()) && archetect.offline() {
                        return Err(SourceError::OfflineAndNotCached(path.to_owned()));
                    }
                    return Ok(
                        SourceResolution::NeedsGit {
                            url: path.to_owned(),
                            clone_url: before,
                            cache_path,
                            gitref: parts.fragment,
                        },
                    );
                }
                match parts.file_path {
                    Some(local) => {
                        if path_exists(local.as_str()) {
                            return Ok(
                                SourceResolution::Resolved(Source::LocalDirectory { path: local }),
                            );
                        } else {
                            return Err(SourceError::SourceNotFound(local));
                        }
                    },
                    None => {},
                }
            },
            None => {},
        }
        match shell_expand_full(path) {
            None => Err(SourceError::SourceInvalidPath(path.to_owned())),
            Some(expanded) => {
                if path_is_relative(expanded.as_str()) {
                    match relative_to {
                        Some(parent) => {
                            let joined = exec_join_paths(parent.local_path(), expanded.as_str());
                            if path_exists(joined.as_str()) {
                                if path_is_dir(joined.as_str()) {
                                    return Ok(
                                        SourceResolution::Resolved(
                                            Source::LocalDirectory { path: joined },
                                        ),
                                    );
                                } else {
                                    return Ok(
                                        SourceResolution::Resolved(
                                            Source::LocalFile { path: joined },
                                        ),
                                    );
                                }
                            } else {
                                return Err(SourceError::SourceNotFound(joined));
                            }
                        },
                        None => {},
                    }
                }
                if path_exists(expanded.as_str()) {
                    if path_is_dir(expanded.as_str()) {
                        Ok(SourceResolution::Resolved(Source::LocalDirectory { path: expanded }))
                    } else {
                        Ok(SourceResolution::Resolved(Source::LocalFile { path: expanded }))
                    }
                } else {
                    Err(SourceError::SourceNotFound(expanded))
                }
            },
        }
    }
}

} // verus!

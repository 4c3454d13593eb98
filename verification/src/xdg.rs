//! Where configuration, prompts and running state live in the file system.

use vstd::prelude::*;
use crate::text::{
    blank, cat, cat3, chars_of, ends, has_prefix, has_suffix, is_blank, lemma_blank, opt_view,
    same, split, split_on, string_of, strip_prefix, trim, trimmed, views,
};

verus! {

/// The directories of one user.
#[derive(Debug, Clone, PartialEq, Eq)]
pub struct XdgLayout {
    home_dir: String,
    config_root: String,
    runtime_root: String,
}

#[derive(Debug)]
pub enum XdgError {
    MissingHome,
    InvalidPath { input: String },
    MissingPrompt(String),
    InvalidPromptExtension(String),
    EmptyPrompt(String),
    PromptRead { path: String, source: String },
}

impl XdgError {
    /// What is said of the error.
    pub open spec fn said(self) -> Seq<char> {
        match self {
            XdgError::MissingHome => "HOME environment variable is not set"@,
            XdgError::InvalidPath { input } => "invalid path '"@ + input@ + "'"@,
            XdgError::MissingPrompt(path) => "prompt file does not exist: "@ + path@,
            XdgError::InvalidPromptExtension(path) =>
                "prompt file must have .md extension: "@ + path@,
            XdgError::EmptyPrompt(path) => "prompt file is empty: "@ + path@,
            XdgError::PromptRead { path, source } => "failed to read prompt file '"@ + path@
                + "': "@ + source@,
        }
    }

    /// What is said of the error.
    pub fn to_text(&self) -> (r: String)
        ensures
            r@ == self.said(),
    {
        match self {
            XdgError::MissingHome => "HOME environment variable is not set".to_owned(),
            XdgError::InvalidPath { input } => cat3("invalid path '", input.as_str(), "'"),
            XdgError::MissingPrompt(path) => cat("prompt file does not exist: ", path.as_str()),
            XdgError::InvalidPromptExtension(path) => cat(
                "prompt file must have .md extension: ",
                path.as_str(),
            ),
            XdgError::EmptyPrompt(path) => cat("prompt file is empty: ", path.as_str()),
            XdgError::PromptRead { path, source } => {
                let mut text = cat3("failed to read prompt file '", path.as_str(), "': ");
                text.append(source.as_str());
                text
            },
        }
    }
}

/// A path below another one. An absolute path stays what it is.
pub open spec fn path_join(base: Seq<char>, rest: Seq<char>) -> Seq<char> {
    if rest.len() > 0 && rest[0] == '/' {
        rest
    } else if base.len() == 0 || base.last() == '/' {
        base + rest
    } else {
        base + "/"@ + rest
    }
}

/// A path below another one.
pub fn join_path(base: &str, rest: &str) -> (r: String)
    ensures
        r@ == path_join(base@, rest@),
{
    let r = chars_of(rest);
    if r.len() > 0 && r[0] == '/' {
        return rest.to_owned();
    }
    let b = chars_of(base);
    if b.len() == 0 || b[b.len() - 1] == '/' {
        cat(base, rest)
    } else {
        cat3(base, "/", rest)
    }
}

impl XdgLayout {
    /// The home directory.
    pub closed spec fn home(self) -> Seq<char> {
        self.home_dir@
    }

    /// The directory of the configuration.
    pub closed spec fn config(self) -> Seq<char> {
        self.config_root@
    }

    /// The directory of the running state.
    pub closed spec fn runtime(self) -> Seq<char> {
        self.runtime_root@
    }

    /// The directories follow from the home directory and from the directory that stands in for
    /// it.
    pub open spec fn is_for(self, home_dir: Seq<char>, root: Seq<char>) -> bool {
        &&& self.home() == home_dir
        &&& self.config() == path_join(root, ".config/neuromancer"@)
        &&& self.runtime() == path_join(root, ".local/neuromancer"@)
    }

    /// The directories that the environment variables `HOME`, `XDG_HOME`, `XDG_CONFIG_HOME` and
    /// `XDG_DATA_HOME` call for. The last two count together, and only without `XDG_HOME`. A blank
    /// variable counts as one that is not set.
    pub open spec fn is_called_for(
        self,
        home: Seq<char>,
        xdg_home: Option<Seq<char>>,
        config_home: Option<Seq<char>>,
        data_home: Option<Seq<char>>,
    ) -> bool {
        if xdg_home is Some && !blank(xdg_home->0) {
            self.is_for(home, trimmed(xdg_home->0))
        } else if config_home is Some && !blank(config_home->0) && data_home is Some && !blank(
            data_home->0,
        ) {
            &&& self.home() == home
            &&& self.config() == path_join(config_home->0, "neuromancer"@)
            &&& self.runtime() == path_join(data_home->0, "neuromancer"@)
        } else {
            self.is_for(home, home)
        }
    }

    /// The directories that the environment variables `HOME`, `XDG_HOME`, `XDG_CONFIG_HOME` and
    /// `XDG_DATA_HOME` call for.
    pub fn from_env(
        home: Option<String>,
        xdg_home: Option<String>,
        config_home: Option<String>,
        data_home: Option<String>,
    ) -> (r: Result<XdgLayout, XdgError>)
        ensures
            match r {
                Ok(layout) => home matches Some(h) && layout.is_called_for(
                    h@,
                    opt_view(xdg_home),
                    opt_view(config_home),
                    opt_view(data_home),
                ),
                Err(e) => home is None && e is MissingHome,
            },
    {
        let h = match home {
            None => {
                return Err(XdgError::MissingHome);
            },
            Some(h) => h,
        };
        if let Some(x) = xdg_home {
            if !is_blank(x.as_str()) {
                return Ok(Self::from_home_and_xdg_home(h, Some(trim(x.as_str()))));
            }
        }
        match (config_home, data_home) {
            (Some(config), Some(data)) => if !is_blank(config.as_str()) && !is_blank(
                data.as_str(),
            ) {
                let config_root = join_path(config.as_str(), "neuromancer");
                let runtime_root = join_path(data.as_str(), "neuromancer");
                Ok(XdgLayout { home_dir: h, config_root, runtime_root })
            } else {
                Ok(Self::new(h))
            },
            _ => Ok(Self::new(h)),
        }
    }

    pub fn new(home_dir: String) -> (r: XdgLayout)
        ensures
            r.is_for(home_dir@, home_dir@),
    {
        Self::from_home_and_xdg_home(home_dir, None)
    }

    pub fn from_home_and_xdg_home(home_dir: String, xdg_home: Option<String>) -> (r: XdgLayout)
        ensures
            r.is_for(
                home_dir@,
                match xdg_home {
                    Some(x) => x@,
                    None => home_dir@,
                },
            ),
    {
        let root = match xdg_home {
            Some(x) => x,
            None => home_dir.clone(),
        };
        let config_root = join_path(root.as_str(), ".config/neuromancer");
        let runtime_root = join_path(root.as_str(), ".local/neuromancer");
        XdgLayout { home_dir, config_root, runtime_root }
    }

    pub fn from_home_and_xdg_home_str(home_dir: &str, xdg_home: Option<&str>) -> (r: XdgLayout)
        ensures
            r.is_for(
                home_dir@,
                match xdg_home {
                    Some(x) => x@,
                    None => home_dir@,
                },
            ),
    {
        let root = match xdg_home {
            Some(x) => Some(x.to_owned()),
            None => None,
        };
        Self::from_home_and_xdg_home(home_dir.to_owned(), root)
    }

    pub fn from_home(home_dir: &str) -> (r: XdgLayout)
        ensures
            r.is_for(home_dir@, home_dir@),
    {
        Self::from_home_and_xdg_home(home_dir.to_owned(), None)
    }

    pub fn home_dir(&self) -> (r: String)
        ensures
            r@ == self.home(),
    {
        self.home_dir.clone()
    }

    pub fn config_root(&self) -> (r: String)
        ensures
            r@ == self.config(),
    {
        self.config_root.clone()
    }

    pub fn runtime_root(&self) -> (r: String)
        ensures
            r@ == self.runtime(),
    {
        self.runtime_root.clone()
    }

    /// The configuration file that is used if no other is named.
    pub fn default_config_path(&self) -> (r: String)
        ensures
            r@ == path_join(self.config(), "neuromancer.toml"@),
    {
        join_path(self.config_root.as_str(), "neuromancer.toml")
    }

    /// The directory of what a running daemon keeps for its user.
    pub fn runtime_home_root(&self) -> (r: String)
        ensures
            r@ == self.runtime(),
    {
        self.runtime_root.clone()
    }

    /// The directory of the keys of providers.
    pub fn provider_keys_dir(&self) -> (r: String)
        ensures
            r@ == path_join(self.runtime(), "provider_keys"@),
    {
        join_path(self.runtime_root.as_str(), "provider_keys")
    }

    pub fn skills_dir(&self) -> (r: String)
        ensures
            r@ == path_join(self.config(), "skills"@),
    {
        join_path(self.config_root.as_str(), "skills")
    }

    pub fn default_orchestrator_system_prompt_path(&self) -> (r: String)
        ensures
            r@ == path_join(self.config(), "orchestrator/SYSTEM.md"@),
    {
        join_path(self.config_root.as_str(), "orchestrator/SYSTEM.md")
    }

    pub fn default_agent_system_prompt_path(&self, agent_id: &str) -> (r: String)
        ensures
            r@ == path_join(self.config(), "agents/"@ + agent_id@ + "/SYSTEM.md"@),
    {
        let tail = cat3("agents/", agent_id, "/SYSTEM.md");
        join_path(self.config_root.as_str(), tail.as_str())
    }
}

/// The path that a text stands for: one below the home directory for a text that begins with a
/// tilde, else one below the directory of the configuration. No text stands for the default.
pub open spec fn resolved(
    raw: Option<Seq<char>>,
    default_path: Seq<char>,
    config_dir: Seq<char>,
    home_dir: Seq<char>,
) -> Option<Seq<char>> {
    match raw {
        None => Some(default_path),
        Some(input) => {
            let t = trimmed(input);
            if blank(input) {
                None
            } else if has_prefix(t, "~/"@) {
                Some(path_join(home_dir, t.skip(2)))
            } else if t == "~"@ {
                Some(home_dir)
            } else {
                Some(path_join(config_dir, t))
            }
        },
    }
}

pub fn resolve_path(
    raw: Option<&str>,
    default_path: String,
    config_dir: &str,
    home_dir: &str,
) -> (r: Result<String, XdgError>)
    ensures
        ({
            let input = match raw {
                Some(s) => Some(s@),
                None => None,
            };
            match r {
                Ok(path) => resolved(input, default_path@, config_dir@, home_dir@) == Some(path@),
                Err(e) => resolved(input, default_path@, config_dir@, home_dir@) is None && (
                e matches XdgError::InvalidPath { input: i } && Some(i@) == input),
            }
        }),
{
    match raw {
        None => Ok(default_path),
        Some(input) => {
            if is_blank(input) {
                return Err(XdgError::InvalidPath { input: input.to_owned() });
            }
            let t = trim(input);
            proof {
                reveal_strlit("~/");
            }
            if let Some(rest) = strip_prefix(t.as_str(), "~/") {
                return Ok(join_path(home_dir, rest.as_str()));
            }
            if same(t.as_str(), "~") {
                return Ok(home_dir.to_owned());
            }
            Ok(join_path(config_dir, t.as_str()))
        },
    }
}

/// The name of the file that a path leads to, if it leads to one, given what stands between its
/// slashes.
pub open spec fn file_name(parts: Seq<Seq<char>>) -> Option<Seq<char>>
    decreases parts.len(),
{
    if parts.len() == 0 {
        None
    } else if parts.last().len() == 0 || parts.last() == "."@ {
        file_name(parts.drop_last())
    } else if parts.last() == ".."@ {
        None
    } else {
        Some(parts.last())
    }
}

/// The path leads to a file whose name has the extension of Markdown.
pub open spec fn is_markdown(path: Seq<char>) -> bool {
    file_name(split(path, '/')) matches Some(name) && name.len() > 3 && has_suffix(name, ".md"@)
}

fn has_markdown_extension(path: &str) -> (r: bool)
    ensures
        r == is_markdown(path@),
{
    let parts = split_on(path, '/');
    let ghost all = views(parts@);
    let mut n: usize = parts.len();
    assert(all.take(n as int) =~= all);
    while n > 0
        invariant
            n <= parts@.len(),
            all == views(parts@),
            all == split(path@, '/'),
            file_name(all) == file_name(all.take(n as int)),
        decreases n,
    {
        let part = parts[n - 1].as_str();
        assert(all.take(n as int).last() == part@);
        assert(all.take(n as int).drop_last() =~= all.take(n - 1));
        let chars = chars_of(part);
        if chars.len() == 0 || same(part, ".") {
            n = n - 1;
        } else if same(part, "..") {
            return false;
        } else {
            return chars.len() > 3 && ends(part, ".md");
        }
    }
    false
}

/// What stands between the slashes of a path, without what changes nothing: empty pieces, and
/// single dots after the first piece.
pub open spec fn kept_parts(parts: Seq<Seq<char>>) -> Seq<Seq<char>>
    decreases parts.len(),
{
    if parts.len() == 0 {
        Seq::empty()
    } else {
        let before = kept_parts(parts.drop_last());
        let part = parts.last();
        if part.len() == 0 || (part == "."@ && parts.len() > 1) {
            before
        } else {
            before.push(part)
        }
    }
}

/// A path begins at the root.
pub open spec fn is_absolute(path: Seq<char>) -> bool {
    path.len() > 0 && path[0] == '/'
}

/// Two paths lead the same way.
pub open spec fn same_path(a: Seq<char>, b: Seq<char>) -> bool {
    is_absolute(a) == is_absolute(b) && kept_parts(split(a, '/')) == kept_parts(split(b, '/'))
}

fn path_parts(path: &str) -> (r: Vec<String>)
    ensures
        views(r@) == kept_parts(split(path@, '/')),
{
    let parts = split_on(path, '/');
    let ghost all = views(parts@);
    let mut r: Vec<String> = Vec::new();
    let mut i: usize = 0;
    proof {
        assert(all.take(0) =~= Seq::empty());
        assert(views(r@) =~= Seq::empty());
    }
    while i < parts.len()
        invariant
            i <= parts@.len(),
            all == views(parts@),
            views(r@) == kept_parts(all.take(i as int)),
        decreases parts@.len() - i,
    {
        proof {
            assert(all.take(i + 1).drop_last() =~= all.take(i as int));
            assert(all.take(i + 1).last() == parts@[i as int]@);
        }
        let part = parts[i].as_str();
        if !(part.is_empty() || (same(part, ".") && i > 0)) {
            let ghost before = views(r@);
            r.push(parts[i].clone());
            assert(views(r@) =~= before.push(parts@[i as int]@));
        }
        i = i + 1;
    }
    assert(all.take(i as int) =~= all);
    r
}

/// Whether two paths lead the same way.
pub fn paths_match(a: &str, b: &str) -> (r: bool)
    ensures
        r == same_path(a@, b@),
{
    let p = chars_of(a);
    let q = chars_of(b);
    let from_root = p.len() > 0 && p[0] == '/';
    let also = q.len() > 0 && q[0] == '/';
    if from_root != also {
        return false;
    }
    let x = path_parts(a);
    let y = path_parts(b);
    let ghost s = views(x@);
    let ghost t = views(y@);
    if x.len() != y.len() {
        assert(s.len() != t.len());
        return false;
    }
    let mut i: usize = 0;
    while i < x.len()
        invariant
            i <= x@.len(),
            x@.len() == y@.len(),
            s == views(x@),
            t == views(y@),
            s == kept_parts(split(a@, '/')),
            t == kept_parts(split(b@, '/')),
            forall|k: int| 0 <= k < i ==> s[k] == t[k],
        decreases x@.len() - i,
    {
        if !same(x[i].as_str(), y[i].as_str()) {
            assert(s[i as int] != t[i as int]);
            return false;
        }
        i = i + 1;
    }
    assert(s =~= t);
    true
}

/// A path without slashes and single dots at its end that change nothing.
pub open spec fn without_tail(path: Seq<char>) -> Seq<char>
    decreases path.len(),
{
    if path.len() > 1 && path.last() == '/' {
        without_tail(path.drop_last())
    } else if path.len() > 1 && path.last() == '.' && path[path.len() - 2] == '/' {
        without_tail(path.drop_last())
    } else {
        path
    }
}

/// The position behind the last slash of a path, or zero.
pub open spec fn behind_last_slash(path: Seq<char>) -> nat
    decreases path.len(),
{
    if path.len() == 0 || path.last() == '/' {
        path.len()
    } else {
        behind_last_slash(path.drop_last())
    }
}

/// The directory that a path lies in. The root and the empty path lie in none.
pub open spec fn parent_of(path: Seq<char>) -> Option<Seq<char>> {
    let t = without_tail(path);
    if t.len() == 0 || t == "/"@ {
        None
    } else {
        Some(without_tail(t.take(behind_last_slash(t) as int)))
    }
}

fn cut_tail(chars: &Vec<char>, end: usize) -> (r: usize)
    requires
        end <= chars@.len(),
    ensures
        r <= end,
        chars@.take(r as int) == without_tail(chars@.take(end as int)),
{
    let mut n: usize = end;
    while n > 1 && (chars[n - 1] == '/' || (chars[n - 1] == '.' && chars[n - 2] == '/'))
        invariant
            n <= end <= chars@.len(),
            without_tail(chars@.take(n as int)) == without_tail(chars@.take(end as int)),
        decreases n,
    {
        assert(chars@.take(n as int).drop_last() =~= chars@.take(n - 1));
        n = n - 1;
    }
    n
}

/// The directory that a path lies in.
pub fn parent_path(path: &str) -> (r: Option<String>)
    ensures
        opt_view(r) == parent_of(path@),
{
    proof {
        reveal_strlit("/");
    }
    let chars = chars_of(path);
    let end = cut_tail(&chars, chars.len());
    assert(chars@.take(chars@.len() as int) =~= chars@);
    let ghost t = chars@.take(end as int);
    if end == 0 {
        return None;
    }
    if end == 1 && chars[0] == '/' {
        assert(t =~= "/"@);
        return None;
    }
    assert(t != "/"@) by {
        if t == "/"@ {
            assert(t.len() == 1);
            assert(t[0] == chars@[0]);
            assert("/"@[0] == '/');
        }
    }
    let mut k: usize = end;
    while k > 0 && chars[k - 1] != '/'
        invariant
            k <= end <= chars@.len(),
            behind_last_slash(t) == behind_last_slash(chars@.take(k as int)),
        decreases k,
    {
        assert(chars@.take(k as int).drop_last() =~= chars@.take(k - 1));
        k = k - 1;
    }
    assert(t.take(k as int) =~= chars@.take(k as int));
    let to = cut_tail(&chars, k);
    let r = string_of(&chars, 0, to);
    assert(r@ =~= chars@.take(to as int));
    Some(r)
}

/// What there is at the path of a prompt.
#[derive(Debug)]
pub enum PromptFile {
    /// There is nothing.
    Missing,
    /// It cannot be read, for the reason that is said.
    Unreadable(String),
    /// It reads so.
    Content(String),
}

/// A prompt stands in a Markdown file that can be read and is not blank.
pub fn validate_markdown_prompt_file(path: &str, found: PromptFile) -> (r: Result<(), XdgError>)
    ensures
        match r {
            Ok(()) => is_markdown(path@) && (found matches PromptFile::Content(text) && !blank(
                text@,
            )),
            Err(XdgError::InvalidPromptExtension(p)) => !is_markdown(path@) && p@ == path@,
            Err(XdgError::MissingPrompt(p)) => is_markdown(path@) && found is Missing && p@
                == path@,
            Err(XdgError::PromptRead { path: p, source }) => is_markdown(path@) && found
                == PromptFile::Unreadable(source) && p@ == path@,
            Err(XdgError::EmptyPrompt(p)) => is_markdown(path@) && (
            found matches PromptFile::Content(text) && blank(text@)) && p@ == path@,
            Err(_) => false,
        },
{
    if !has_markdown_extension(path) {
        return Err(XdgError::InvalidPromptExtension(path.to_owned()));
    }
    match found {
        PromptFile::Missing => Err(XdgError::MissingPrompt(path.to_owned())),
        PromptFile::Unreadable(source) => Err(
            XdgError::PromptRead { path: path.to_owned(), source },
        ),
        PromptFile::Content(text) => if is_blank(text.as_str()) {
            Err(XdgError::EmptyPrompt(path.to_owned()))
        } else {
            Ok(())
        },
    }
}

/// An absolute path is taken as it is, wherever the directories are.
pub proof fn absolute_paths_stay(
    input: Seq<char>,
    default_path: Seq<char>,
    config_dir: Seq<char>,
    home_dir: Seq<char>,
)
    requires
        trimmed(input).len() > 0,
        trimmed(input)[0] == '/',
    ensures
        resolved(Some(input), default_path, config_dir, home_dir) == Some(trimmed(input)),
{
    lemma_blank(input);
    reveal_strlit("~/");
    reveal_strlit("~");
    let t = trimmed(input);
    if has_prefix(t, "~/"@) {
        assert(t.subrange(0, 2)[0] == "~/"@[0]);
    }
}

/// A path is put behind another with one slash between them; an absolute path stays as it is.
pub proof fn paths_are_joined_by_a_slash(base: Seq<char>, rest: Seq<char>)
    requires
        rest.len() == 0 || rest[0] != '/',
    ensures
        base.len() > 0 && base.last() != '/' ==> path_join(base, rest) == base + seq!['/'] + rest,
        base.len() > 0 && base.last() == '/' ==> path_join(base, rest) == base + rest,
        base.len() == 0 ==> path_join(base, rest) == rest,
        path_join(base, seq!['/'] + rest) == seq!['/'] + rest,
{
    reveal_strlit("/");
    assert("/"@ =~= seq!['/']);
    if base.len() == 0 {
        assert(base + rest =~= rest);
    }
}

/// The directories of a user stand below the root: the configuration and what is kept while running.
pub proof fn directories_stand_below_the_root(
    layout: XdgLayout,
    home: Seq<char>,
    root: Seq<char>,
)
    requires
        layout.is_for(home, root),
        root.len() > 0,
        root.last() != '/',
    ensures
        layout.home() == home,
        layout.config() == root + seq!['/'] + ".config/neuromancer"@,
        layout.runtime() == root + seq!['/'] + ".local/neuromancer"@,
{
    reveal_strlit("/");
    reveal_strlit(".config/neuromancer");
    reveal_strlit(".local/neuromancer");
    assert("/"@ =~= seq!['/']);
}

/// A root that is named comes before the two directories, and these before the home directory. A
/// blank name counts as none, and so does one directory without the other.
pub proof fn named_directories_come_first(
    layout: XdgLayout,
    home: Seq<char>,
    xdg_home: Option<Seq<char>>,
    config_home: Option<Seq<char>>,
    data_home: Option<Seq<char>>,
)
    requires
        layout.is_called_for(home, xdg_home, config_home, data_home),
    ensures
        layout.home() == home,
        xdg_home is Some && trimmed(xdg_home->0).len() > 0 ==> layout.config() == path_join(
            trimmed(xdg_home->0),
            ".config/neuromancer"@,
        ) && layout.runtime() == path_join(trimmed(xdg_home->0), ".local/neuromancer"@),
        (xdg_home is None || trimmed(xdg_home->0).len() == 0) && config_home is Some && trimmed(
            config_home->0,
        ).len() > 0 && data_home is Some && trimmed(data_home->0).len() > 0 ==> layout.config()
            == path_join(config_home->0, "neuromancer"@) && layout.runtime() == path_join(
            data_home->0,
            "neuromancer"@,
        ),
        (xdg_home is None || trimmed(xdg_home->0).len() == 0) && (config_home is None || trimmed(
            config_home->0,
        ).len() == 0 || data_home is None || trimmed(data_home->0).len() == 0) ==> layout.config()
            == path_join(home, ".config/neuromancer"@) && layout.runtime() == path_join(
            home,
            ".local/neuromancer"@,
        ),
{
    if xdg_home is Some {
        crate::text::lemma_blank(xdg_home->0);
    }
    if config_home is Some {
        crate::text::lemma_blank(config_home->0);
    }
    if data_home is Some {
        crate::text::lemma_blank(data_home->0);
    }
}

/// A path that is not given is the default; one that begins with a tilde is meant from the home
/// directory, and any other from the directory of the configuration. A blank path is none.
pub proof fn paths_are_resolved_from_where_they_are_meant(
    rest: Seq<char>,
    input: Seq<char>,
    default_path: Seq<char>,
    config_dir: Seq<char>,
    home_dir: Seq<char>,
)
    ensures
        resolved(None, default_path, config_dir, home_dir) == Some(default_path),
        trimmed(input).len() == 0 ==> resolved(Some(input), default_path, config_dir, home_dir) is None,
        trimmed(input) == seq!['~'] ==> resolved(Some(input), default_path, config_dir, home_dir)
            == Some(home_dir),
        trimmed(input) == seq!['~', '/'] + rest ==> resolved(
            Some(input),
            default_path,
            config_dir,
            home_dir,
        ) == Some(path_join(home_dir, rest)),
        trimmed(input).len() > 0 && trimmed(input)[0] != '~' ==> resolved(
            Some(input),
            default_path,
            config_dir,
            home_dir,
        ) == Some(path_join(config_dir, trimmed(input))),
{
    reveal_strlit("~/");
    reveal_strlit("~");
    let t = trimmed(input);
    crate::text::lemma_blank(input);
    assert("~/"@ =~= seq!['~', '/']);
    assert("~"@ =~= seq!['~']);
    if t == seq!['~', '/'] + rest {
        assert(t.subrange(0, 2) =~= "~/"@);
        assert(t.skip(2) =~= rest);
    }
    if t.len() >= 2 && has_prefix(t, "~/"@) {
        assert(t.subrange(0, 2)[0] == t[0]);
    }
}

proof fn lemma_split_last(front: Seq<char>, name: Seq<char>)
    requires
        !name.contains('/'),
    ensures
        split(front + seq!['/'] + name, '/') == split(front, '/').push(name),
        split(name, '/') == seq![name],
    decreases front.len(),
{
    let s = front + seq!['/'] + name;
    crate::text::lemma_char_index(front, '/');
    let k = crate::text::char_index(front, '/');
    assert forall|j: int| 0 <= j < name.len() implies name[j] != '/' by {
        assert(name.contains(name[j]));
    }
    crate::text::lemma_char_index_is(name, '/', name.len() as int);
    crate::text::lemma_char_index_is(s, '/', k);
    assert(split(name, '/') =~= seq![name]);
    if k < front.len() {
        let rest = front.skip(k + 1);
        lemma_split_last(rest, name);
        assert(s.take(k) =~= front.take(k));
        assert(s.skip(k + 1) =~= rest + seq!['/'] + name);
        assert(split(s, '/') =~= split(front, '/').push(name));
    } else {
        assert(s.take(k) =~= front);
        assert(s.skip(k + 1) =~= name);
        assert(split(front, '/') =~= seq![front]);
        assert(split(s, '/') =~= split(front, '/').push(name));
    }
}

/// A file is one of Markdown by the ending of its own name, whatever directories it stands in.
pub proof fn markdown_is_told_by_the_name(front: Seq<char>, name: Seq<char>)
    requires
        !name.contains('/'),
        name.len() > 2,
    ensures
        is_markdown(front + seq!['/'] + name) <==> name.len() > 3 && name.skip(name.len() - 3)
            == seq!['.', 'm', 'd'],
        is_markdown(name) <==> name.len() > 3 && name.skip(name.len() - 3) == seq!['.', 'm', 'd'],
        is_markdown(front + seq!['/'] + name + seq!['/']) <==> is_markdown(name),
{
    reveal_strlit(".md");
    reveal_strlit(".");
    reveal_strlit("..");
    assert(".md"@ =~= seq!['.', 'm', 'd']);
    assert("."@.len() == 1 && ".."@.len() == 2);
    lemma_split_last(front, name);
    let parts = split(front + seq!['/'] + name, '/');
    assert(parts.last() == name);
    let alone = split(name, '/');
    assert(alone.last() == name);
    assert(name.skip(name.len() - 3) =~= name.subrange(name.len() - 3, name.len() as int));
    let nothing = Seq::<char>::empty();
    lemma_split_last(front + seq!['/'] + name, nothing);
    let whole = front + seq!['/'] + name + seq!['/'];
    assert(front + seq!['/'] + name + seq!['/'] + nothing =~= whole);
    let longer = split(whole, '/');
    assert(longer.drop_last() =~= parts);
    assert(longer.last().len() == 0);
}

/// Two paths into a directory are the same where the names are; slashes at the end or doubled, and
/// dots between them, do not matter, and an absolute path is never the same as a relative one.
pub proof fn paths_are_compared_by_their_names(front: Seq<char>, a: Seq<char>, b: Seq<char>)
    requires
        !a.contains('/'),
        !b.contains('/'),
        a.len() > 0,
        b.len() > 0,
        a != seq!['.'],
        b != seq!['.'],
        front.len() > 0,
    ensures
        same_path(front + seq!['/'] + a, front + seq!['/'] + b) <==> a == b,
        same_path(front, front + seq!['/']),
        same_path(front + seq!['/'] + a, front + seq!['/'] + seq!['/'] + a),
        same_path(front + seq!['/'] + a, front + seq!['/', '.'] + seq!['/'] + a),
        !same_path(a, seq!['/'] + a),
{
    reveal_strlit(".");
    assert("."@ =~= seq!['.']);
    let nothing = Seq::<char>::empty();
    let dot = seq!['.'];
    assert(!dot.contains('/')) by {
        assert(dot[0] == '.');
    }
    lemma_split_last(front, a);
    lemma_split_last(front, b);
    lemma_split_last(front, nothing);
    lemma_split_last(front, dot);
    assert(front + seq!['/'] + nothing =~= front + seq!['/']);
    assert(front + seq!['/'] + dot =~= front + seq!['/', '.']);
    lemma_split_last(front + seq!['/'], a);
    lemma_split_last(front + seq!['/', '.'], a);
    let base = split(front, '/');
    crate::text::pieces_make_the_text(front, '/');
    let kept = kept_parts(base);
    lemma_kept_push(base, a);
    lemma_kept_push(base, b);
    lemma_kept_push(base, nothing);
    lemma_kept_push(base, dot);
    lemma_kept_push(base.push(nothing), a);
    lemma_kept_push(base.push(dot), a);
    if kept.push(a) == kept.push(b) {
        assert(kept.push(a).last() == kept.push(b).last());
    }
    assert(!is_absolute(a)) by {
        assert(a.contains(a[0]));
    }
    assert(is_absolute(seq!['/'] + a));
}

proof fn lemma_kept_push(parts: Seq<Seq<char>>, part: Seq<char>)
    requires
        parts.len() > 0,
    ensures
        kept_parts(parts.push(part)) == (if part.len() == 0 || part == "."@ {
            kept_parts(parts)
        } else {
            kept_parts(parts).push(part)
        }),
{
    assert(parts.push(part).drop_last() =~= parts);
}

proof fn lemma_behind_slash(front: Seq<char>, name: Seq<char>)
    requires
        !name.contains('/'),
    ensures
        behind_last_slash(front + seq!['/'] + name) == front.len() + 1,
        behind_last_slash(name) == 0,
    decreases name.len(),
{
    let s = front + seq!['/'] + name;
    if name.len() > 0 {
        let less = name.drop_last();
        assert(!less.contains('/')) by {
            if less.contains('/') {
                let i = choose|i: int| 0 <= i < less.len() && less[i] == '/';
                assert(name[i] == '/');
            }
        }
        assert(name.contains(name.last()));
        lemma_behind_slash(front, less);
        assert(s.drop_last() =~= front + seq!['/'] + less);
    } else {
        assert(s.last() == '/');
    }
}

/// The directory of a file is what stands before its name; that of a name alone is the place where
/// it is said, and that of a name below the root is the root.
pub proof fn directories_stand_before_names(front: Seq<char>, name: Seq<char>)
    requires
        !name.contains('/'),
        name.len() > 0,
        name != seq!['.'],
    ensures
        front.len() > 0 && front.last() != '/' && front.last() != '.' ==> parent_of(
            front + seq!['/'] + name,
        ) == Some(front),
        parent_of(name) == Some(Seq::<char>::empty()),
        parent_of(seq!['/'] + name) == Some(seq!['/']),
        parent_of(seq!['/']) is None,
        parent_of(Seq::empty()) is None,
{
    reveal_strlit("/");
    assert("/"@ =~= seq!['/']);
    let nothing = Seq::<char>::empty();
    assert(name.contains(name.last()));
    assert(name.contains(name[0]));
    lemma_behind_slash(front, name);
    lemma_behind_slash(nothing, name);
    let s = front + seq!['/'] + name;
    let below = seq!['/'] + name;
    assert(nothing + seq!['/'] + name =~= below);
    if name.last() == '.' {
        if name.len() == 1 {
            assert(name =~= seq!['.']);
        } else {
            assert(name.contains(name[name.len() - 2]));
        }
    }
    assert(without_tail(name) == name);
    assert(without_tail(s) == s);
    assert(without_tail(below) == below);
    assert(name.take(0) =~= nothing);
    assert(without_tail(nothing) == nothing);
    assert(below.take(1) =~= seq!['/']);
    assert(without_tail(seq!['/']) == seq!['/']);
    let t = s.take((front.len() + 1) as int);
    assert(t =~= front + seq!['/']);
    assert(t.drop_last() =~= front);
    if front.len() > 0 && front.last() != '/' && front.last() != '.' {
        assert(without_tail(front) == front);
        assert(without_tail(t) == front);
        assert(s[0] == front[0]);
        assert(s.len() > 1);
    }
    assert(name != "/"@);
    assert(below.len() > 1);
}

/// What is said of a path that cannot be used names the path.
pub proof fn path_errors_name_the_path(a: String, b: String)
    ensures
        XdgError::MissingHome.said() == "HOME environment variable is not set"@,
        (XdgError::InvalidPath { input: a }).said() == "invalid path '"@ + a@ + "'"@,
        XdgError::MissingPrompt(a).said() == "prompt file does not exist: "@ + a@,
        XdgError::InvalidPromptExtension(a).said() == "prompt file must have .md extension: "@ + a@,
        XdgError::EmptyPrompt(a).said() == "prompt file is empty: "@ + a@,
        (XdgError::PromptRead { path: a, source: b }).said() == "failed to read prompt file '"@ + a@
            + "': "@ + b@,
{
}

} // verus!

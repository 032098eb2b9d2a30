//! Selectors given by the user and the source reference derived from them.

use vstd::prelude::*;
use vstd::string::StringExecFns;

verus! {

/// What the user selected: where the source comes from, which ref of it, and
/// whether the running window manager is restarted after the install.
#[derive(Clone, Debug)]
pub struct Args {
    /// Owner of the fork on the hosting site.
    pub fork: Option<String>,
    /// Path of a local checkout; takes precedence over `fork`.
    pub path: Option<String>,
    /// Commit id.
    pub commit: Option<String>,
    /// Branch name.
    pub branch: Option<String>,
    /// Tag name.
    pub tag: Option<String>,
    /// Restart the running instance after the install.
    pub restart: bool,
}

/// The working directory of one run together with the selectors.
#[derive(Clone, Debug)]
pub struct UpdateQtile {
    /// Directory that holds the fetched recipe and everything built in it.
    pub repo_path: String,
    /// The selectors.
    pub args: Args,
}

/// Origin of the source: a local path, else a fork on the hosting site, else
/// the canonical upstream.
pub open spec fn origin_of(args: Args) -> Seq<char> {
    match args.path {
        Some(p) => "file://"@ + p@,
        None => match args.fork {
            Some(f) => "https://github.com/"@ + f@ + "/qtile"@,
            None => "https://github.com/qtile/qtile"@,
        },
    }
}

/// Ref qualifier: commit before tag before branch; empty where none is set.
pub open spec fn qualifier_of(args: Args) -> Seq<char> {
    match args.commit {
        Some(c) => "#commit="@ + c@,
        None => match args.tag {
            Some(t) => "#tag="@ + t@,
            None => match args.branch {
                Some(b) => "#branch="@ + b@,
                None => Seq::<char>::empty(),
            },
        },
    }
}

/// The source reference: origin followed by the ref qualifier.
pub open spec fn source_reference(args: Args) -> Seq<char> {
    origin_of(args) + qualifier_of(args)
}

impl Args {
    /// At most one of commit, tag and branch is selected.
    pub open spec fn wf(self) -> bool {
        &&& self.commit is Some ==> self.tag is None && self.branch is None
        &&& self.tag is Some ==> self.branch is None
    }

    /// Whether at most one of commit, tag and branch is selected.
    pub fn is_wf(&self) -> (r: bool)
        ensures
            r == self.wf(),
    {
        let refs: u8 = (if self.commit.is_some() { 1u8 } else { 0u8 })
            + (if self.tag.is_some() { 1u8 } else { 0u8 })
            + (if self.branch.is_some() { 1u8 } else { 0u8 });
        refs <= 1
    }
}

/// With at most one ref selected, the reference is the origin followed by
/// the qualifier of the ref that is selected, or by nothing where none is.
/// The origin is the local path where one is given, whatever the fork.
pub proof fn lemma_reference_shape(args: Args)
    requires
        args.wf(),
    ensures
        args.path matches Some(p) ==> origin_of(args) == "file://"@ + p@,
        args.commit is None && args.tag is None && args.branch is None ==> source_reference(args)
            == origin_of(args),
        args.commit matches Some(c) ==> source_reference(args) == origin_of(args) + "#commit="@
            + c@,
        args.tag matches Some(t) ==> source_reference(args) == origin_of(args) + "#tag="@ + t@,
        args.branch matches Some(b) ==> source_reference(args) == origin_of(args) + "#branch="@
            + b@,
{
    let origin = origin_of(args);
    assert(origin + Seq::<char>::empty() =~= origin);
    match args.commit {
        Some(c) => {
            assert(origin + ("#commit="@ + c@) =~= origin + "#commit="@ + c@);
        },
        None => {},
    }
    match args.tag {
        Some(t) => {
            assert(origin + ("#tag="@ + t@) =~= origin + "#tag="@ + t@);
        },
        None => {},
    }
    match args.branch {
        Some(b) => {
            assert(origin + ("#branch="@ + b@) =~= origin + "#branch="@ + b@);
        },
        None => {},
    }
}

/// Commit goes before tag, and tag before branch, where several are given.
pub proof fn lemma_qualifier_precedence(args: Args)
    ensures
        args.commit matches Some(c) ==> qualifier_of(args) == "#commit="@ + c@,
        args.commit is None ==> (args.tag matches Some(t) ==> qualifier_of(args) == "#tag="@
            + t@),
        args.commit is None && args.tag is None ==> (args.branch matches Some(b) ==> qualifier_of(
            args,
        ) == "#branch="@ + b@),
        args.commit is None && args.tag is None && args.branch is None ==> qualifier_of(args).len()
            == 0,
{
}

/// The line that tells the user what was selected: the origin and the ref,
/// or the default branch where no ref is selected.
pub open spec fn selection_text(args: Args) -> Seq<char> {
    "selected repo `"@ + origin_of(args) + "` - "@ + (match args.commit {
        Some(c) => "commit `"@ + c@,
        None => match args.tag {
            Some(t) => "tag `"@ + t@,
            None => match args.branch {
                Some(b) => "branch `"@ + b@,
                None => "branch `master"@,
            },
        },
    }) + "`"@
}

/// Joins a relative component to a directory path: a separator is added
/// unless the directory is empty or already ends in one.
pub open spec fn join_path(base: Seq<char>, component: Seq<char>) -> Seq<char> {
    if base.len() == 0 || base.last() == '/' {
        base + component
    } else {
        base + seq!['/'] + component
    }
}

/// The working directory below a cache root.
pub open spec fn repo_path_of(cache_home: Option<String>) -> Seq<char> {
    let root = match cache_home {
        Some(c) => c@,
        None => "~/.cache"@,
    };
    join_path(join_path(root, "yay"@), "qtile-git"@)
}

/// Executable `join_path`.
pub fn join(base: String, component: &str) -> (r: String)
    ensures
        r@ == join_path(base@, component@),
{
    let n: usize = base.as_str().unicode_len();
    if n == 0 {
        base.concat(component)
    } else if base.as_str().get_char(n - 1) == '/' {
        base.concat(component)
    } else {
        proof {
            reveal_strlit("/");
            assert("/"@ =~= seq!['/']);
        }
        base.concat("/").concat(component)
    }
}

impl UpdateQtile {
    /// The run for `args` below the cache root `cache_home`, or below
    /// `~/.cache` where none is configured.
    pub fn new(args: Args, cache_home: Option<String>) -> (r: Self)
        ensures
            r.args == args,
            r.repo_path@ == repo_path_of(cache_home),
    {
        let root: String = match cache_home {
            Some(c) => c,
            None => "~/.cache".to_owned(),
        };
        let repo_path = join(join(root, "yay"), "qtile-git");
        UpdateQtile { repo_path, args }
    }

    /// The origin that the selectors denote.
    pub fn get_origin(&self) -> (r: String)
        ensures
            r@ == origin_of(self.args),
    {
        match &self.args.path {
            Some(p) => "file://".to_owned().concat(p.as_str()),
            None => match &self.args.fork {
                Some(f) => "https://github.com/".to_owned().concat(f.as_str()).concat("/qtile"),
                None => "https://github.com/qtile/qtile".to_owned(),
            },
        }
    }

    /// The source reference that the selectors denote.
    pub fn get_source(&self) -> (r: String)
        ensures
            r@ == source_reference(self.args),
    {
        let origin: String = self.get_origin();
        let r: String = match &self.args.commit {
            Some(c) => origin.concat("#commit=").concat(c.as_str()),
            None => match &self.args.tag {
                Some(t) => origin.concat("#tag=").concat(t.as_str()),
                None => match &self.args.branch {
                    Some(b) => origin.concat("#branch=").concat(b.as_str()),
                    None => origin,
                },
            },
        };
        proof {
            assert(r@ =~= source_reference(self.args));
        }
        r
    }

    /// The informational line on what was selected.
    pub fn selection_message(&self) -> (r: String)
        ensures
            r@ == selection_text(self.args),
    {
        let head: String = "selected repo `".to_owned().concat(self.get_origin().as_str()).concat(
            "` - ",
        );
        let r: String = match &self.args.commit {
            Some(c) => head.concat("commit `").concat(c.as_str()).concat("`"),
            None => match &self.args.tag {
                Some(t) => head.concat("tag `").concat(t.as_str()).concat("`"),
                None => match &self.args.branch {
                    Some(b) => head.concat("branch `").concat(b.as_str()).concat("`"),
                    None => head.concat("branch `master").concat("`"),
                },
            },
        };
        proof {
            assert(r@ =~= selection_text(self.args));
        }
        r
    }
}

} // verus!

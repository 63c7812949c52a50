use vstd::prelude::*;
use vstd::string::*;

use crate::EngineError;

verus! {

/// Identifies a remote repository; the text form is `github-<owner>!<name>`.
pub enum RepoId {
    GitHubRepo { owner: String, name: String },
}

/// The prefix `github-` of the text form.
pub open spec fn github_prefix() -> Seq<char> {
    seq!['g', 'i', 't', 'h', 'u', 'b', '-']
}

/// Holds when `s` has no `!`, the delimiter between owner and name.
pub open spec fn no_bang(s: Seq<char>) -> bool {
    forall|i: int| 0 <= i < s.len() ==> s[i] != '!'
}

/// The text form of the repository `owner`/`name`.
pub open spec fn repo_id_text(owner: Seq<char>, name: Seq<char>) -> Seq<char> {
    github_prefix() + owner + seq!['!'] + name
}

/// Holds when `owner` and `name` are the parts of a well-formed text form `s`.
pub open spec fn splits_into(s: Seq<char>, owner: Seq<char>, name: Seq<char>) -> bool {
    no_bang(owner) && no_bang(name) && s == repo_id_text(owner, name)
}

/// The owner and name that the text `s` names, if it is well formed.
pub open spec fn parse_spec(s: Seq<char>) -> Option<(Seq<char>, Seq<char>)> {
    if exists|o: Seq<char>, n: Seq<char>| splits_into(s, o, n) {
        let (o, n) = choose|o: Seq<char>, n: Seq<char>| splits_into(s, o, n);
        Some((o, n))
    } else {
        None
    }
}

/// The location `https://github.com/<owner>/<name>` that a mirror is cloned from.
pub open spec fn clone_url_spec(owner: Seq<char>, name: Seq<char>) -> Seq<char> {
    seq!['h', 't', 't', 'p', 's', ':', '/', '/', 'g', 'i', 't', 'h', 'u', 'b', '.', 'c', 'o', 'm', '/']
        + owner + seq!['/'] + name
}

/// `base` joined with the relative path `rel`, `/` being the separator.
pub open spec fn join_path(base: Seq<char>, rel: Seq<char>) -> Seq<char> {
    if base.len() == 0 {
        rel
    } else if base.last() == '/' {
        base + rel
    } else {
        base + seq!['/'] + rel
    }
}

/// A text form splits in one way only.
pub proof fn lemma_split_unique(s: Seq<char>, o1: Seq<char>, n1: Seq<char>, o2: Seq<char>, n2: Seq<char>)
    requires
        splits_into(s, o1, n1),
        splits_into(s, o2, n2),
    ensures
        o1 == o2,
        n1 == n2,
{
    let l1 = o1.len() as int;
    let l2 = o2.len() as int;
    if l1 < l2 {
        assert(s[7 + l1] == '!');
        assert(s[7 + l1] == o2[l1]);
    } else if l2 < l1 {
        assert(s[7 + l2] == '!');
        assert(s[7 + l2] == o1[l2]);
    }
    assert(o1 =~= s.subrange(7, 7 + l1));
    assert(o2 =~= s.subrange(7, 7 + l2));
    assert(n1 =~= s.subrange(8 + l1, s.len() as int));
    assert(n2 =~= s.subrange(8 + l2, s.len() as int));
}

/// Parsing gives back the owner and name of a well-formed text form.
pub proof fn lemma_parse_text(o: Seq<char>, n: Seq<char>)
    requires
        no_bang(o),
        no_bang(n),
    ensures
        parse_spec(repo_id_text(o, n)) == Some((o, n)),
{
    let s = repo_id_text(o, n);
    assert(splits_into(s, o, n));
    let (o2, n2) = choose|o2: Seq<char>, n2: Seq<char>| splits_into(s, o2, n2);
    lemma_split_unique(s, o, n, o2, n2);
}

impl RepoId {
    pub open spec fn owner_view(&self) -> Seq<char> {
        match self {
            RepoId::GitHubRepo { owner, .. } => owner@,
        }
    }

    pub open spec fn name_view(&self) -> Seq<char> {
        match self {
            RepoId::GitHubRepo { name, .. } => name@,
        }
    }

    /// The text form of this identity.
    pub open spec fn text(&self) -> Seq<char> {
        repo_id_text(self.owner_view(), self.name_view())
    }

    /// Writes the identity as `github-<owner>!<name>`.
    pub fn to_string(&self) -> (r: String)
        ensures
            r@ == self.text(),
    {
        proof {
            reveal_strlit("github-");
            reveal_strlit("!");
        }
        match self {
            RepoId::GitHubRepo { owner, name } => {
                let mut s = String::from_str("github-");
                s.append(owner.as_str());
                s.append("!");
                s.append(name.as_str());
                assert(s@ =~= self.text());
                s
            },
        }
    }

    /// The remote location the mirror of this repository is cloned from.
    pub fn clone_url(&self) -> (r: String)
        ensures
            r@ == clone_url_spec(self.owner_view(), self.name_view()),
    {
        proof {
            reveal_strlit("https://github.com/");
            reveal_strlit("/");
        }
        match self {
            RepoId::GitHubRepo { owner, name } => {
                let mut s = String::from_str("https://github.com/");
                s.append(owner.as_str());
                s.append("/");
                s.append(name.as_str());
                assert(s@ =~= clone_url_spec(self.owner_view(), self.name_view()));
                s
            },
        }
    }
}

/// Whether `s` starts with `github-`.
fn has_github_prefix(s: &str) -> (r: bool)
    ensures
        r == (s@.len() >= 7 && s@.take(7) == github_prefix()),
{
    let prefix = "github-";
    proof {
        reveal_strlit("github-");
    }
    let len = s.unicode_len();
    if len < 7 {
        return false;
    }
    let mut i: usize = 0;
    while i < 7
        invariant
            i <= 7,
            len == s@.len(),
            len >= 7,
            prefix@ == github_prefix(),
            s@.take(i as int) == github_prefix().take(i as int),
        decreases 7 - i,
    {
        if s.get_char(i) != prefix.get_char(i) {
            assert(s@.take(7)[i as int] != github_prefix()[i as int]);
            return false;
        }
        assert(s@.take(i + 1) =~= s@.take(i as int).push(s@[i as int]));
        assert(github_prefix().take(i + 1) =~= github_prefix().take(i as int).push(
            github_prefix()[i as int],
        ));
        i = i + 1;
    }
    assert(github_prefix().take(7) =~= github_prefix());
    true
}

/// Parses a text such as `github-cuddlefish-app!cuddlefish` into a `RepoId`: the
/// text must start with `github-`, and what follows must hold exactly one `!`.
pub fn parse_repo_id(repo_id: &str) -> (r: Result<RepoId, EngineError>)
    ensures
        match r {
            Ok(id) => parse_spec(repo_id@) == Some((id.owner_view(), id.name_view())),
            Err(e) => e == EngineError::InvalidRepoId && parse_spec(repo_id@) is None,
        },
{
    let ghost s = repo_id@;
    if !has_github_prefix(repo_id) {
        proof {
            if exists|o: Seq<char>, n: Seq<char>| splits_into(s, o, n) {
                let (o, n) = choose|o: Seq<char>, n: Seq<char>| splits_into(s, o, n);
                assert(s.take(7) =~= github_prefix());
            }
        }
        return Err(EngineError::InvalidRepoId);
    }
    let len = repo_id.unicode_len();
    // Position of the first `!` after the prefix, and whether a second one follows.
    let mut bang: usize = len;
    let mut i: usize = 7;
    while i < len
        invariant
            7 <= i <= len,
            bang <= len,
            s == repo_id@,
            len == s.len(),
            bang == len ==> forall|j: int| 7 <= j < i ==> s[j] != '!',
            bang < len ==> 7 <= bang < i && s[bang as int] == '!' && (forall|j: int|
                7 <= j < i && j != bang ==> s[j] != '!'),
        decreases len - i,
    {
        if repo_id.get_char(i) == '!' {
            if bang < len {
                proof {
                    if exists|o: Seq<char>, n: Seq<char>| splits_into(s, o, n) {
                        let (o, n) = choose|o: Seq<char>, n: Seq<char>| splits_into(s, o, n);
                        let p = 7 + o.len() as int;
                        assert(s[p] == '!');
                        if bang as int != p {
                            if (bang as int) < p {
                                assert(s[bang as int] == o[bang - 7]);
                            } else {
                                assert(s[bang as int] == n[bang - p - 1]);
                            }
                        } else {
                            assert(s[i as int] == n[i - p - 1]);
                        }
                    }
                }
                return Err(EngineError::InvalidRepoId);
            }
            bang = i;
        }
        i = i + 1;
    }
    if bang == len {
        proof {
            if exists|o: Seq<char>, n: Seq<char>| splits_into(s, o, n) {
                let (o, n) = choose|o: Seq<char>, n: Seq<char>| splits_into(s, o, n);
                assert(s[7 + o.len() as int] == '!');
            }
        }
        return Err(EngineError::InvalidRepoId);
    }
    let owner = String::from_str(repo_id.substring_char(7, bang));
    let name = String::from_str(repo_id.substring_char(bang + 1, len));
    proof {
        assert(no_bang(owner@)) by {
            assert forall|j: int| 0 <= j < owner@.len() implies owner@[j] != '!' by {
                assert(owner@[j] == s[j + 7]);
            }
        }
        assert(no_bang(name@)) by {
            assert forall|j: int| 0 <= j < name@.len() implies name@[j] != '!' by {
                assert(name@[j] == s[j + bang + 1]);
            }
        }
        assert(s =~= repo_id_text(owner@, name@));
        lemma_parse_text(owner@, name@);
    }
    Ok(RepoId::GitHubRepo { owner, name })
}

/// The directory of the mirror of `repo_id` under the directory `mirrors_dir`.
pub fn mirror_dir(mirrors_dir: &str, repo_id: &RepoId) -> (r: String)
    ensures
        r@ == join_path(mirrors_dir@, repo_id.text()),
{
    proof {
        reveal_strlit("/");
    }
    let id = repo_id.to_string();
    let n = mirrors_dir.unicode_len();
    if n == 0 {
        return id;
    }
    let mut dir = String::from_str(mirrors_dir);
    if mirrors_dir.get_char(n - 1) != '/' {
        dir.append("/");
    }
    dir.append(id.as_str());
    assert(dir@ =~= join_path(mirrors_dir@, repo_id.text()));
    dir
}

} // verus!

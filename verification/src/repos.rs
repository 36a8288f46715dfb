//! Kata repositories: reading the user name out of a repository address
//! and choosing where a clone lands. Running `git` is the caller's side.

use vstd::prelude::*;

use crate::text::{split_char, split_spec, starts_with, str_starts_with};

verus! {

pub const DEFAULT_REPO: &'static str = "https://github.com/aldevv/katac-repos";

/// The user name an address carries: for an SSH address what follows the
/// `:` up to the next `/`; for an HTTP address the piece after the host;
/// empty for anything else.
pub open spec fn repo_user_spec(url: Seq<char>) -> Seq<char> {
    if starts_with(url, "git@"@) {
        split_spec(split_spec(url, ':')[1], '/')[0]
    } else if starts_with(url, "https://"@) || starts_with(url, "http://"@) {
        split_spec(url, '/')[3]
    } else {
        Seq::<char>::empty()
    }
}

/// Reads the user name out of a repository address. An SSH address must
/// carry a `:`, an HTTP address a path below the host.
pub fn username_as_repo_name(repo_url: &str) -> (r: String)
    requires
        starts_with(repo_url@, "git@"@) ==> split_spec(repo_url@, ':').len() >= 2,
        !starts_with(repo_url@, "git@"@) && (starts_with(repo_url@, "https://"@) || starts_with(
            repo_url@,
            "http://"@,
        )) ==> split_spec(repo_url@, '/').len() >= 4,
    ensures
        r@ == repo_user_spec(repo_url@),
{
    if str_starts_with(repo_url, "git@") {
        let parts = split_char(repo_url, ':');
        assert(parts@.len() == split_spec(repo_url@, ':').len());
        let rest: &str = parts[1].as_str();
        assert(rest@ == split_spec(repo_url@, ':')[1]);
        let pieces = split_char(rest, '/');
        assert(pieces@.len() == split_spec(rest@, '/').len());
        assert(split_spec(rest@, '/').len() >= 1);
        let r = pieces[0].clone();
        assert(r@ == split_spec(rest@, '/')[0]);
        r
    } else if str_starts_with(repo_url, "https://") || str_starts_with(repo_url, "http://") {
        let parts = split_char(repo_url, '/');
        assert(parts@.len() == split_spec(repo_url@, '/').len());
        let r = parts[3].clone();
        assert(r@ == split_spec(repo_url@, '/')[3]);
        r
    } else {
        let r = String::new();
        assert(r@ =~= repo_user_spec(repo_url@));
        r
    }
}

/// Where a repository is cloned to: the cache under the user's home (the
/// profile directory on Windows), with a folder named after the
/// address's user.
pub fn repo_clone_destination(home: &str, windows: bool, url: &str) -> (r: String)
    requires
        starts_with(url@, "git@"@) ==> split_spec(url@, ':').len() >= 2,
        !starts_with(url@, "git@"@) && (starts_with(url@, "https://"@) || starts_with(
            url@,
            "http://"@,
        )) ==> split_spec(url@, '/').len() >= 4,
    ensures
        r@ == (if windows {
            home@ + "katac-repos"@
        } else {
            home@ + "/.cache/katac-repos"@
        }) + "/"@ + repo_user_spec(url@),
{
    let mut r = String::from_str(home);
    if windows {
        r.append("katac-repos");
    } else {
        r.append("/.cache/katac-repos");
    }
    r.append("/");
    r.append(username_as_repo_name(url).as_str());
    proof {
        if windows {
            assert(r@ =~= home@ + "katac-repos"@ + "/"@ + repo_user_spec(url@));
            assert(r@ =~= (home@ + "katac-repos"@) + "/"@ + repo_user_spec(url@));
        } else {
            assert(r@ =~= (home@ + "/.cache/katac-repos"@) + "/"@ + repo_user_spec(url@));
        }
    }
    r
}

} // verus!

//! Path arithmetic on `/`-separated strings.
//!
//! The library models a filesystem path as a string whose components are
//! separated by `/`; a path is absolute when it starts with `/`. Trailing
//! separators do not count: the final component of `days/day1/` is
//! `day1`. A `.` component inside a path is taken literally.

use vstd::prelude::*;

verus! {

/// Index of the last `/` in the string, -1 when there is none.
pub open spec fn last_slash(s: Seq<char>) -> int
    decreases s.len(),
{
    if s.len() == 0 {
        -1
    } else if s.last() == '/' {
        s.len() - 1
    } else {
        last_slash(s.drop_last())
    }
}

/// The path without its trailing `/`s.
pub open spec fn strip_trailing_slashes(s: Seq<char>) -> Seq<char>
    decreases s.len(),
{
    if s.len() > 0 && s.last() == '/' {
        strip_trailing_slashes(s.drop_last())
    } else {
        s
    }
}

/// The final component: what follows the last `/` once trailing `/`s are
/// ignored (the whole string when there is no `/`).
pub open spec fn base_of(s: Seq<char>) -> Seq<char> {
    let t = strip_trailing_slashes(s);
    t.skip(last_slash(t) + 1)
}

/// The final component of a path; `.` when the path has none (it is empty
/// or all `/`s) or when that component is `..`.
pub open spec fn basename_spec(s: Seq<char>) -> Seq<char> {
    if base_of(s).len() == 0 || base_of(s) == seq!['.', '.'] {
        seq!['.']
    } else {
        base_of(s)
    }
}

/// What precedes the final component, trailing `/`s ignored: `.` when the
/// path is empty or all `/`s, empty when it has no `/`, the root `/` when
/// the last `/` is the first character.
pub open spec fn dirname_spec(s: Seq<char>) -> Seq<char> {
    let t = strip_trailing_slashes(s);
    if t.len() == 0 {
        seq!['.']
    } else if last_slash(t) < 0 {
        Seq::<char>::empty()
    } else if last_slash(t) == 0 {
        seq!['/']
    } else {
        t.take(last_slash(t))
    }
}

/// The last `/` is below `s.len()`, and characters after it are not `/`.
proof fn lemma_last_slash(s: Seq<char>)
    ensures
        -1 <= last_slash(s) < s.len(),
        last_slash(s) >= 0 ==> s[last_slash(s)] == '/',
        forall|j: int| last_slash(s) < j < s.len() ==> s[j] != '/',
    decreases s.len(),
{
    if s.len() > 0 && s.last() != '/' {
        lemma_last_slash(s.drop_last());
        assert forall|j: int| last_slash(s) < j < s.len() implies s[j] != '/' by {
            if j < s.len() - 1 {
                assert(s.drop_last()[j] == s[j]);
            }
        }
    }
}

/// Removes the trailing `/`s of a path.
fn strip_trailing(path: &str) -> (r: &str)
    ensures
        r@ == strip_trailing_slashes(path@),
{
    let mut s: &str = path;
    let mut n = s.unicode_len();
    while n > 0 && s.get_char(n - 1) == '/'
        invariant
            n == s@.len(),
            strip_trailing_slashes(path@) == strip_trailing_slashes(s@),
        decreases n,
    {
        proof {
            assert(s@.drop_last() =~= s@.take(n - 1));
        }
        s = s.substring_char(0, n - 1);
        n = n - 1;
    }
    s
}

/// Finds the last `/` of the string.
fn find_last_slash(s: &str) -> (r: Option<usize>)
    ensures
        r is None <==> last_slash(s@) == -1,
        r matches Some(i) ==> last_slash(s@) == i,
{
    let n = s.unicode_len();
    let mut j = n;
    assert(s@.take(n as int) =~= s@);
    while j > 0
        invariant
            0 <= j <= n,
            n == s@.len(),
            last_slash(s@) == last_slash(s@.take(j as int)),
        decreases j,
    {
        proof {
            assert(s@.take(j as int).drop_last() =~= s@.take(j - 1));
        }
        if s.get_char(j - 1) == '/' {
            assert(s@.take(j as int).last() == '/');
            return Some(j - 1);
        }
        j = j - 1;
    }
    assert(s@.take(0) =~= Seq::<char>::empty());
    None
}

/// The final component of a path, `.` when it has none.
pub fn basename(path: &str) -> (r: String)
    ensures
        r@ == basename_spec(path@),
{
    let stripped = strip_trailing(path);
    proof {
        reveal_strlit(".");
        reveal_strlit("..");
        lemma_last_slash(stripped@);
    }
    let n = stripped.unicode_len();
    let base: &str = match find_last_slash(stripped) {
        None => {
            assert(base_of(path@) =~= stripped@);
            stripped
        },
        Some(i) => {
            let b = stripped.substring_char(i + 1, n);
            assert(b@ =~= base_of(path@));
            b
        },
    };
    let m = base.unicode_len();
    if m == 0 {
        assert("."@ =~= seq!['.']);
        return String::from_str(".");
    }
    if m == 2 && base.get_char(0) == '.' && base.get_char(1) == '.' {
        assert(base@ =~= seq!['.', '.']);
        assert("."@ =~= seq!['.']);
        return String::from_str(".");
    }
    proof {
        if base@ == seq!['.', '.'] {
            assert(base@.len() == 2 && base@[0] == '.' && base@[1] == '.');
        }
    }
    String::from_str(base)
}

/// What precedes the final component of a path.
pub fn dirname(path: &str) -> (r: String)
    ensures
        r@ == dirname_spec(path@),
{
    let stripped = strip_trailing(path);
    proof {
        reveal_strlit(".");
        reveal_strlit("/");
        reveal_strlit("");
        lemma_last_slash(stripped@);
    }
    if stripped.unicode_len() == 0 {
        assert("."@ =~= seq!['.']);
        return String::from_str(".");
    }
    match find_last_slash(stripped) {
        None => {
            assert(""@ =~= Seq::<char>::empty());
            String::from_str("")
        },
        Some(i) => {
            if i == 0 {
                assert("/"@ =~= seq!['/']);
                String::from_str("/")
            } else {
                let d = stripped.substring_char(0, i);
                assert(d@ =~= dirname_spec(path@));
                String::from_str(d)
            }
        },
    }
}

/// The path a kata name stands for: a name with a `/` is already a path,
/// any other name lives under the katas directory.
pub open spec fn kata_path_spec(name: Seq<char>, katas_dir: Seq<char>) -> Seq<char> {
    if name.contains('/') {
        name
    } else {
        katas_dir + seq!['/'] + name
    }
}

/// Resolves a kata name against the katas directory.
pub fn kata_path(kata_name: &str, katas_dir: &str) -> (r: String)
    ensures
        r@ == kata_path_spec(kata_name@, katas_dir@),
{
    if crate::text::contains_char(kata_name, '/') {
        String::from_str(kata_name)
    } else {
        let mut r = String::from_str(katas_dir);
        r.append("/");
        r.append(kata_name);
        proof {
            reveal_strlit("/");
            assert(r@ =~= kata_path_spec(kata_name@, katas_dir@));
        }
        r
    }
}

/// An absolute path starts with `/`.
pub open spec fn is_absolute(s: Seq<char>) -> bool {
    s.len() > 0 && s[0] == '/'
}

/// The lexically cleaned form of a path: repeated separators, `.` and
/// resolvable `..` components are removed.
pub uninterp spec fn cleaned_of(s: Seq<char>) -> Seq<char>;

/// Relies on path_clean::clean: a lexical cleanup determined by the path's
/// characters alone. An empty cleanup result is replaced by `.`, so the
/// result is never empty; a root component is kept (a `..` right after it
/// is dropped), so a rooted path stays rooted.
#[verifier::external_body]
pub(crate) fn clean_path(s: &str) -> (r: String)
    ensures
        r@ == cleaned_of(s@),
        r@.len() > 0,
        is_absolute(s@) ==> is_absolute(r@),
{
    path_clean::clean(s).to_string_lossy().into_owned()
}

/// The given path placed under the base when relative, then cleaned.
pub open spec fn resolved_under(base: Seq<char>, path: Seq<char>) -> Seq<char> {
    if is_absolute(path) {
        cleaned_of(path)
    } else {
        cleaned_of(base + seq!['/'] + path)
    }
}

/// Joins a relative path to the base directory and cleans the result; an
/// absolute path is only cleaned. An absolute base or path gives an
/// absolute result.
pub fn resolve_under(base: &str, path: &str) -> (r: String)
    ensures
        r@ == resolved_under(base@, path@),
        is_absolute(base@) || is_absolute(path@) ==> is_absolute(r@),
{
    let absolute = path.unicode_len() > 0 && path.get_char(0) == '/';
    if absolute {
        clean_path(path)
    } else {
        let mut joined = String::from_str(base);
        joined.append("/");
        joined.append(path);
        proof {
            reveal_strlit("/");
            assert(joined@ =~= base@ + seq!['/'] + path@);
            if is_absolute(base@) {
                assert(joined@[0] == base@[0]);
            }
        }
        clean_path(joined.as_str())
    }
}

} // verus!

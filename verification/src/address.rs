//! The address that a pin is cloned from.

use vstd::prelude::*;
use vstd::string::*;

use crate::text::{chars_of, starts_with};

verus! {

/// Index of the last `/` in `s`; -1 where it has none.
pub open spec fn last_slash(s: Seq<char>) -> int
    decreases s.len(),
{
    if s.len() == 0 {
        -1
    } else if s.last() == '/' {
        s.len() - 1
    } else {
        last_slash(s.drop_last())
    }
}

/// The address that `location` is cloned from. An HTTPS address at GitHub
/// becomes the SSH address of its last two path segments, the user and the
/// repository; every other location stays as it is.
pub open spec fn clone_address(location: Seq<char>) -> Seq<char> {
    if "https://github.com/"@.is_prefix_of(location) {
        let repository = last_slash(location);
        let user = last_slash(location.take(repository));
        "git@github.com:"@ + location.skip(user + 1)
    } else {
        location
    }
}

/// `last_slash` is below the length, and a `/` stands where it points.
pub proof fn lemma_last_slash_bounds(s: Seq<char>)
    ensures
        -1 <= last_slash(s) < s.len(),
        last_slash(s) >= 0 ==> s[last_slash(s)] == '/',
        forall|k: int| last_slash(s) < k < s.len() ==> s[k] != '/',
    decreases s.len(),
{
    if s.len() > 0 && s.last() != '/' {
        let head = s.drop_last();
        lemma_last_slash_bounds(head);
        assert forall|k: int| last_slash(s) < k < s.len() implies s[k] != '/' by {
            if k < head.len() {
                assert(head[k] == s[k]);
            }
        }
    }
}

/// The last `/` of `s` is at `at` where one stands there and none after it.
pub proof fn lemma_last_slash_at(s: Seq<char>, at: int)
    requires
        0 <= at < s.len(),
        s[at] == '/',
        forall|k: int| at < k < s.len() ==> s[k] != '/',
    ensures
        last_slash(s) == at,
    decreases s.len(),
{
    if at < s.len() - 1 {
        let head = s.drop_last();
        assert(head[at] == s[at]);
        assert forall|k: int| at < k < head.len() implies head[k] != '/' by {
            assert(head[k] == s[k]);
        }
        lemma_last_slash_at(head, at);
    }
}

/// The HTTPS address of a repository at GitHub is cloned from the SSH
/// address of the same user and repository.
pub proof fn lemma_github_address(user: Seq<char>, repository: Seq<char>)
    requires
        !user.contains('/'),
        !repository.contains('/'),
    ensures
        clone_address("https://github.com/"@ + user + "/"@ + repository)
            == "git@github.com:"@ + user + "/"@ + repository,
{
    reveal_strlit("https://github.com/");
    reveal_strlit("/");
    let host = "https://github.com/"@;
    let location = host + user + "/"@ + repository;
    let at = host.len() + user.len();
    assert(host.is_prefix_of(location)) by {
        assert(location.subrange(0, host.len() as int) =~= host);
    }
    assert forall|k: int| at < k < location.len() implies location[k] != '/' by {
        assert(location[k] == repository[k - at - 1]);
        assert(repository.contains(repository[k - at - 1]));
    }
    lemma_last_slash_at(location, at as int);
    let head = location.take(at as int);
    assert forall|k: int| host.len() - 1 < k < head.len() implies head[k] != '/' by {
        assert(head[k] == user[k - host.len()]);
        assert(user.contains(user[k - host.len()]));
    }
    lemma_last_slash_at(head, host.len() - 1);
    assert(location.skip(host.len() as int) =~= user + "/"@ + repository);
    assert("git@github.com:"@ + (user + "/"@ + repository) =~= "git@github.com:"@ + user + "/"@
        + repository);
}

/// A location at another host is cloned from as it stands.
pub proof fn lemma_other_address(location: Seq<char>)
    requires
        !"https://github.com/"@.is_prefix_of(location),
    ensures
        clone_address(location) == location,
{
}

/// The index of the last `/` at or before `end - 1` in `chars`.
fn find_last_slash(chars: &Vec<char>, end: usize) -> (r: Option<usize>)
    requires
        end <= chars.len(),
    ensures
        match r {
            Some(i) => i < end && last_slash(chars@.take(end as int)) == i,
            None => last_slash(chars@.take(end as int)) == -1,
        },
{
    let mut i: usize = end;
    while i > 0
        invariant
            i <= end <= chars.len(),
            last_slash(chars@.take(end as int)) == last_slash(chars@.take(i as int)),
        decreases i,
    {
        let ghost head = chars@.take(i as int);
        assert(head.last() == chars@[i - 1]);
        assert(head.drop_last() =~= chars@.take(i - 1));
        if chars[i - 1] == '/' {
            return Some(i - 1);
        }
        i -= 1;
    }
    None
}

/// The address to clone `location` from.
pub fn clone_url(location: &str) -> (url: String)
    ensures
        url@ == clone_address(location@),
{
    let chars = chars_of(location);
    let https = chars_of("https://github.com/");
    if !starts_with(&chars, &https) {
        return String::from_str(location);
    }
    assert(chars@.take(chars@.len() as int) =~= chars@);
    let user_end = match find_last_slash(&chars, chars.len()) {
        Some(i) => i,
        None => 0,
    };
    proof {
        lemma_last_slash_bounds(chars@);
        reveal_strlit("https://github.com/");
        assert(chars@.subrange(0, 19)[18] == '/');
    }
    let from = match find_last_slash(&chars, user_end) {
        Some(i) => i + 1,
        None => 0,
    };
    proof {
        lemma_last_slash_bounds(chars@.take(user_end as int));
    }
    let tail = location.substring_char(from, chars.len());
    assert(tail@ =~= location@.skip(from as int));
    let mut url = String::from_str("git@github.com:");
    url.append(tail);
    url
}

} // verus!

//! Parsing of the two shapes a HuggingFace variant URL takes: a repo URL
//! (`https://huggingface.co/{owner}/{repo}`) or a blob URL
//! (`https://huggingface.co/{owner}/{repo}/blob/{branch}/{filename}`). A bare
//! `owner/repo` id is accepted too.
use vstd::prelude::*;

use crate::text::chars_of;
use crate::text::contains_seq;
use crate::text::occurs_at_exec;
use crate::text::starts_with;
use crate::text::str_contains;

verus! {

broadcast use vstd::string::group_string_axioms;

/// Index of the first `c` in `s`, or `s.len()` when there is none.
pub open spec fn find_char(s: Seq<char>, c: char) -> int
    decreases s.len(),
{
    if s.len() == 0 {
        0
    } else if s[0] == c {
        0
    } else {
        1 + find_char(s.drop_first(), c)
    }
}

/// Index just after the last `c` in `s`, or 0 when there is none.
pub open spec fn after_last_char(s: Seq<char>, c: char) -> int
    decreases s.len(),
{
    if s.len() == 0 {
        0
    } else if s.last() == c {
        s.len() as int
    } else {
        after_last_char(s.drop_last(), c)
    }
}

/// The part of a reference that names the repository: what follows the
/// HuggingFace host for a URL, the whole string otherwise.
pub open spec fn hf_rest(url: Seq<char>) -> Option<Seq<char>> {
    if starts_with(url, "http"@) {
        if starts_with(url, "https://huggingface.co/"@) {
            Some(url.skip(23))
        } else {
            None
        }
    } else {
        Some(url)
    }
}

/// The `owner/repo` id named by `url`, if it is a HuggingFace reference.
pub open spec fn hf_repo_id_spec(url: Seq<char>) -> Option<Seq<char>> {
    match hf_rest(url) {
        None => None,
        Some(rest) => {
            let i = find_char(rest, '/');
            let after = rest.skip(i + 1);
            let j = find_char(after, '/');
            if i < rest.len() && i > 0 && j > 0 {
                Some(rest.take(i + 1 + j))
            } else {
                None
            }
        },
    }
}

/// The file name at the end of a HuggingFace blob URL.
pub open spec fn hf_blob_filename_spec(url: Seq<char>) -> Option<Seq<char>> {
    if !contains_seq(url, "huggingface.co"@) || !contains_seq(url, "/blob/"@) {
        None
    } else {
        let name = url.skip(after_last_char(url, '/'));
        if name.len() > 0 {
            Some(name)
        } else {
            None
        }
    }
}

proof fn lemma_find_char(s: Seq<char>, c: char)
    ensures
        0 <= find_char(s, c) <= s.len(),
        forall|k: int| 0 <= k < find_char(s, c) ==> s[k] != c,
        find_char(s, c) < s.len() ==> s[find_char(s, c)] == c,
    decreases s.len(),
{
    if s.len() > 0 && s[0] != c {
        lemma_find_char(s.drop_first(), c);
        assert forall|k: int| 0 <= k < find_char(s, c) implies s[k] != c by {
            if k > 0 {
                assert(s[k] == s.drop_first()[k - 1]);
            }
        }
    }
}

proof fn lemma_find_char_unique(s: Seq<char>, c: char, i: int)
    requires
        0 <= i <= s.len(),
        forall|k: int| 0 <= k < i ==> s[k] != c,
        i < s.len() ==> s[i] == c,
    ensures
        find_char(s, c) == i,
{
    lemma_find_char(s, c);
}

proof fn lemma_after_last_char(s: Seq<char>, c: char)
    ensures
        0 <= after_last_char(s, c) <= s.len(),
        forall|k: int| after_last_char(s, c) <= k < s.len() ==> s[k] != c,
        after_last_char(s, c) > 0 ==> s[after_last_char(s, c) - 1] == c,
    decreases s.len(),
{
    if s.len() > 0 && s.last() != c {
        lemma_after_last_char(s.drop_last(), c);
        assert forall|k: int| after_last_char(s, c) <= k < s.len() implies s[k] != c by {
            if k < s.len() - 1 {
                assert(s[k] == s.drop_last()[k]);
            }
        }
    }
}

proof fn lemma_after_last_char_unique(s: Seq<char>, c: char, i: int)
    requires
        0 <= i <= s.len(),
        forall|k: int| i <= k < s.len() ==> s[k] != c,
        i > 0 ==> s[i - 1] == c,
    ensures
        after_last_char(s, c) == i,
{
    lemma_after_last_char(s, c);
}

fn find_char_exec(v: &Vec<char>, from: usize, c: char) -> (r: usize)
    requires
        from <= v@.len(),
    ensures
        from <= r <= v@.len(),
        forall|k: int| from <= k < r ==> v@[k] != c,
        r < v@.len() ==> v@[r as int] == c,
{
    let mut i = from;
    while i < v.len() && v[i] != c
        invariant
            from <= i <= v@.len(),
            forall|k: int| from <= k < i ==> v@[k] != c,
        decreases v@.len() - i,
    {
        i += 1;
    }
    i
}

/// Extracts `owner/repo` from a HuggingFace repo URL, blob URL, or bare repo id.
/// Returns `None` when `url` does not look like a HuggingFace reference.
pub fn hf_repo_id(url: &str) -> (r: Option<&str>)
    ensures
        match r {
            Some(id) => hf_repo_id_spec(url@) == Some(id@),
            None => hf_repo_id_spec(url@) is None,
        },
{
    let v = chars_of(url);
    let is_http = occurs_at_exec(&v, &chars_of("http"), 0);
    let start: usize = if is_http {
        if occurs_at_exec(&v, &chars_of("https://huggingface.co/"), 0) {
            23
        } else {
            return None;
        }
    } else {
        0
    };
    proof {
        reveal_strlit("http");
        reveal_strlit("https://huggingface.co/");
        assert(starts_with(url@, "http"@) == is_http);
    }
    let ghost rest = url@.skip(start as int);
    assert(hf_rest(url@) == Some(rest));
    let i = find_char_exec(&v, start, '/');
    proof {
        assert forall|k: int| 0 <= k < i - start implies rest[k] != '/' by {
            assert(rest[k] == v@[k + start]);
        }
        lemma_find_char_unique(rest, '/', i - start);
    }
    if i >= v.len() || i == start {
        return None;
    }
    let j = find_char_exec(&v, i + 1, '/');
    proof {
        let after = rest.skip(i - start + 1);
        assert forall|k: int| 0 <= k < j - i - 1 implies after[k] != '/' by {
            assert(after[k] == v@[k + i + 1]);
        }
        if j < v@.len() {
            assert(after[j - i - 1] == v@[j as int]);
        }
        lemma_find_char_unique(after, '/', j - i - 1);
    }
    if j == i + 1 {
        return None;
    }
    let id = url.substring_char(start, j);
    assert(id@ =~= rest.take(j - start));
    Some(id)
}

/// Extracts the file name from a HuggingFace blob URL. Returns `None` for
/// bare repo ids and for any URL that is not a `.../blob/...` reference.
pub fn hf_blob_filename(url: &str) -> (r: Option<&str>)
    ensures
        match r {
            Some(name) => hf_blob_filename_spec(url@) == Some(name@),
            None => hf_blob_filename_spec(url@) is None,
        },
{
    if !str_contains(url, "huggingface.co") || !str_contains(url, "/blob/") {
        return None;
    }
    let v = chars_of(url);
    let mut i = v.len();
    while i > 0 && v[i - 1] != '/'
        invariant
            i <= v@.len(),
            v@ == url@,
            forall|k: int| i <= k < v@.len() ==> v@[k] != '/',
        decreases i,
    {
        i -= 1;
    }
    proof {
        lemma_after_last_char_unique(url@, '/', i as int);
    }
    if i == v.len() {
        return None;
    }
    let name = url.substring_char(i, v.len());
    assert(name@ =~= url@.skip(i as int));
    Some(name)
}

} // verus!

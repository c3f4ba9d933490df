use vstd::prelude::*;
use regex::Regex;

verus! {

#[verifier::external_type_specification]
#[verifier::external_body]
pub struct ExRegex(Regex);

/// `t` occurs in `s` as a run of consecutive characters.
pub open spec fn is_substring(t: Seq<char>, s: Seq<char>) -> bool {
    exists|i: int, j: int| 0 <= i <= j <= s.len() && t == s.subrange(i, j)
}

/// `s` with leading and trailing white space removed, as `str::trim` does.
pub uninterp spec fn trimmed(s: Seq<char>) -> Seq<char>;

/// Relies on `str::trim`: the result is the string without its leading and
/// trailing white space, and depends on the string alone.
#[verifier::external_body]
pub(crate) fn trim_str(s: &str) -> (r: String)
    ensures
        r@ == trimmed(s@),
{
    s.trim().to_string()
}

pub open spec fn ascii_lower_char(c: char) -> char {
    if 'A' <= c <= 'Z' {
        ((c as u32) + 32) as char
    } else {
        c
    }
}

/// `s` with the ASCII letters `A` to `Z` mapped to `a` to `z`.
pub open spec fn ascii_lower(s: Seq<char>) -> Seq<char> {
    s.map_values(|c: char| ascii_lower_char(c))
}

/// Relies on `str::to_ascii_lowercase`: ASCII upper case letters become
/// lower case, every other character is kept.
#[verifier::external_body]
fn to_ascii_lowercase(s: &str) -> (r: String)
    ensures
        r@ == ascii_lower(s@),
{
    s.to_ascii_lowercase()
}

/// Relies on `Regex::captures` and `Captures::get`: for the leftmost match of
/// `re` in `s`, the text of group 1 where that group took part in the match,
/// and the text of the whole match. Both are substrings of `s`.
#[verifier::external_body]
fn regex_captures(re: &Regex, s: &str) -> (r: Option<(Option<String>, String)>)
    ensures
        match r {
            Some((group, whole)) => is_substring(whole@, s@) && match group {
                Some(g) => is_substring(g@, s@),
                None => true,
            },
            None => true,
        },
{
    re.captures(s).map(|c| (c.get(1).map(|m| m.as_str().to_string()), c[0].to_string()))
}

/// The text a match stands for: its first group, or the whole match where the
/// group did not take part; empty where nothing matched.
pub open spec fn capture_text(captured: Option<(Option<String>, String)>) -> Seq<char> {
    match captured {
        Some((Some(group), _)) => group@,
        Some((None, whole)) => whole@,
        None => Seq::empty(),
    }
}

pub open spec fn base_key(s: Seq<char>, trim_whitespace: bool) -> Seq<char> {
    if trim_whitespace {
        trimmed(s)
    } else {
        s
    }
}

pub open spec fn case_key(k: Seq<char>, ignore_case: bool) -> Seq<char> {
    if ignore_case {
        ascii_lower(k)
    } else {
        k
    }
}

/// The key of a selection from the result of matching a pattern against it.
pub fn key_from_capture(captured: Option<(Option<String>, String)>, ignore_case: bool) -> (r: String)
    ensures
        r@ == case_key(capture_text(captured), ignore_case),
{
    let text: String = match captured {
        Some((Some(group), _)) => group,
        Some((None, whole)) => whole,
        None => String::new(),
    };
    if ignore_case {
        to_ascii_lowercase(text.as_str())
    } else {
        text
    }
}

/// Gets the comparison key of a selection.
///
/// Optionally trims white space; with a pattern, takes its first group (or the
/// whole match) and gives an empty key where it does not match; optionally
/// lowers the case of ASCII letters.
pub fn get_key(selection: &str, trim_whitespace: bool, regex: Option<&Regex>, ignore_case: bool) -> (r:
    String)
    ensures
        regex is None ==> r@ == case_key(base_key(selection@, trim_whitespace), ignore_case),
        regex is Some ==> exists|t: Seq<char>|
            (t.len() == 0 || is_substring(t, base_key(selection@, trim_whitespace))) && r@
                == case_key(t, ignore_case),
{
    let base: String = if trim_whitespace {
        trim_str(selection)
    } else {
        String::from_str(selection)
    };
    match regex {
        Some(re) => {
            let captured = regex_captures(re, base.as_str());
            let ghost t = capture_text(captured);
            let r = key_from_capture(captured, ignore_case);
            proof {
                assert(t.len() == 0 || is_substring(t, base@));
            }
            r
        },
        None => {
            if ignore_case {
                to_ascii_lowercase(base.as_str())
            } else {
                base
            }
        },
    }
}

pub open spec fn all_newlines(t: Seq<char>) -> bool {
    forall|j: int| 0 <= j < t.len() ==> t[j] == '\n'
}

pub open spec fn leading_newlines(s: Seq<char>) -> nat
    decreases s.len(),
{
    if s.len() > 0 && s[0] == '\n' {
        1 + leading_newlines(s.drop_first())
    } else {
        0
    }
}

pub open spec fn trailing_newlines(s: Seq<char>) -> nat
    decreases s.len(),
{
    if s.len() > 0 && s.last() == '\n' {
        1 + trailing_newlines(s.drop_last())
    } else {
        0
    }
}

/// A string's leading newlines, the text between, and its trailing newlines;
/// a string of newlines only is all middle.
pub open spec fn newline_parts(s: Seq<char>) -> (Seq<char>, Seq<char>, Seq<char>) {
    if all_newlines(s) {
        (Seq::empty(), s, Seq::empty())
    } else {
        let a = leading_newlines(s) as int;
        let b = s.len() - trailing_newlines(s);
        (s.subrange(0, a), s.subrange(a, b), s.subrange(b, s.len() as int))
    }
}

proof fn lemma_leading_newlines(s: Seq<char>, i: int)
    requires
        0 <= i < s.len(),
        forall|j: int| 0 <= j < i ==> s[j] == '\n',
        s[i] != '\n',
    ensures
        leading_newlines(s) == i,
    decreases s.len(),
{
    if i > 0 {
        lemma_leading_newlines(s.drop_first(), i - 1);
    }
}

proof fn lemma_trailing_newlines(s: Seq<char>, e: int)
    requires
        0 < e <= s.len(),
        forall|j: int| e <= j < s.len() ==> s[j] == '\n',
        s[e - 1] != '\n',
    ensures
        trailing_newlines(s) == s.len() - e,
    decreases s.len(),
{
    if e < s.len() {
        lemma_trailing_newlines(s.drop_last(), e);
    }
}

/// Splits a string into its leading newlines, the text between, and its
/// trailing newlines. A string of newlines only is all middle.
pub fn split_newlines(s: &str) -> (r: (&str, &str, &str))
    ensures
        (r.0@, r.1@, r.2@) == newline_parts(s@),
        r.0@ + r.1@ + r.2@ == s@,
        all_newlines(r.0@),
        all_newlines(r.2@),
        !all_newlines(s@) ==> r.1@.len() > 0 && r.1@[0] != '\n' && r.1@.last() != '\n',
{
    let n = s.unicode_len();
    let mut i: usize = 0;
    while i < n && s.get_char(i) == '\n'
        invariant
            n == s@.len(),
            i <= n,
            forall|j: int| 0 <= j < i ==> s@[j] == '\n',
        decreases n - i,
    {
        i = i + 1;
    }
    if i == n {
        let empty_lead = s.substring_char(0, 0);
        let empty_trail = s.substring_char(n, n);
        proof {
            assert(empty_lead@ + s@ + empty_trail@ =~= s@);
            assert(empty_lead@ =~= Seq::<char>::empty());
            assert(empty_trail@ =~= Seq::<char>::empty());
        }
        return (empty_lead, s, empty_trail);
    }
    let mut e: usize = n;
    while e > i && s.get_char(e - 1) == '\n'
        invariant
            n == s@.len(),
            i < n,
            s@[i as int] != '\n',
            i < e <= n,
            forall|j: int| e <= j < n ==> s@[j] == '\n',
        decreases e,
    {
        e = e - 1;
    }
    let lead = s.substring_char(0, i);
    let mid = s.substring_char(i, e);
    let trail = s.substring_char(e, n);
    proof {
        assert(lead@ + mid@ + trail@ =~= s@);
        assert(!all_newlines(s@));
        lemma_leading_newlines(s@, i as int);
        lemma_trailing_newlines(s@, e as int);
    }
    (lead, mid, trail)
}

} // verus!

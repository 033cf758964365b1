//! The words exchanged with the service that suggests a start time: the
//! question that is put to it, and the cleaning of its answer. Sending and
//! receiving are the caller's.

use vstd::prelude::*;
use crate::text::{chars_of, string_of};

verus! {

/// `s` without the occurrences of `pattern`, found from left to right, none
/// overlapping another. An empty pattern leaves `s` as it is.
pub open spec fn removed(s: Seq<char>, pattern: Seq<char>) -> Seq<char>
    decreases s.len(),
{
    if pattern.len() == 0 || s.len() < pattern.len() {
        s
    } else if s.take(pattern.len() as int) == pattern {
        removed(s.skip(pattern.len() as int), pattern)
    } else {
        seq![s[0]] + removed(s.skip(1), pattern)
    }
}

/// `text` without the occurrences of `pattern`.
pub fn remove_all(text: &str, pattern: &str) -> (r: String)
    ensures
        r@ == removed(text@, pattern@),
{
    let s = chars_of(text);
    let p = chars_of(pattern);
    if p.len() == 0 {
        assert(s@.subrange(0, s@.len() as int) =~= s@);
        return string_of(&s, 0, s.len());
    }
    let mut out = String::new();
    let mut i: usize = 0;
    proof {
        assert(s@.skip(0) =~= s@);
        assert(out@ + removed(s@, p@) =~= removed(s@, p@));
    }
    while i < s.len()
        invariant
            0 <= i <= s@.len(),
            p@.len() > 0,
            s@ == text@,
            p@ == pattern@,
            out@ + removed(s@.skip(i as int), p@) == removed(s@, p@),
        decreases s@.len() - i,
    {
        let ghost rest = s@.skip(i as int);
        let mut k: usize = 0;
        if s.len() - i >= p.len() {
            while k < p.len() && s[i + k] == p[k]
                invariant
                    0 <= k <= p@.len(),
                    i + p@.len() <= s@.len() <= usize::MAX,
                    forall|j: int| 0 <= j < k ==> s@[i + j] == p@[j],
                decreases p@.len() - k,
            {
                k += 1;
            }
        }
        if k == p.len() {
            proof {
                assert(rest.take(p@.len() as int) =~= p@);
                assert(rest.skip(p@.len() as int) =~= s@.skip(i + p@.len()));
            }
            i += p.len();
        } else {
            proof {
                if rest.len() >= p@.len() {
                    if rest.take(p@.len() as int) == p@ {
                        assert(rest.take(p@.len() as int)[k as int] == p@[k as int]);
                    }
                    assert(rest.skip(1) =~= s@.skip(i + 1));
                    assert(out@.push(s@[i as int]) + removed(s@.skip(i + 1), p@) =~= out@ + (
                    seq![rest[0]] + removed(rest.skip(1), p@)));
                } else {
                    assert(removed(rest, p@) == rest);
                    assert(s@.skip(i + 1).len() < p@.len());
                    assert(removed(s@.skip(i + 1), p@) == s@.skip(i + 1));
                    assert(out@.push(s@[i as int]) + s@.skip(i + 1) =~= out@ + rest);
                }
            }
            out.push(s[i]);
            i += 1;
        }
    }
    proof {
        assert(s@.skip(i as int) =~= Seq::<char>::empty());
        assert(out@ + Seq::<char>::empty() =~= out@);
    }
    out
}

/// An answer without the code-fence marks that may wrap it: first every
/// opening mark that names JSON is taken out, then every bare mark.
pub fn strip_code_fences(text: &str) -> (clean: String)
    ensures
        clean@ == removed(removed(text@, "```json"@), "```"@),
{
    let opened = remove_all(text, "```json");
    remove_all(opened.as_str(), "```")
}

/// The question put to the service: the tasks that stand, as `task_summary`
/// writes them, the user's wish in the user's words, and what is wanted
/// back.
pub fn suggestion_prompt(task_summary: &str, requirement: &str) -> (prompt: String)
    ensures
        prompt@ == "You are a scheduling assistant. Here are existing tasks: "@ + task_summary@
            + ". \n        User wants to schedule: '"@ + requirement@
            + "'. \n        Suggest a start time (ISO 8601 format) that does not overlap and a brief reason. \n        Return ONLY valid JSON format: { \"suggested_start_time\": \"...\", \"reason\": \"...\" }"@,
{
    let mut prompt = String::from_str("You are a scheduling assistant. Here are existing tasks: ");
    prompt.append(task_summary);
    prompt.append(". \n        User wants to schedule: '");
    prompt.append(requirement);
    prompt.append(
        "'. \n        Suggest a start time (ISO 8601 format) that does not overlap and a brief reason. \n        Return ONLY valid JSON format: { \"suggested_start_time\": \"...\", \"reason\": \"...\" }",
    );
    prompt
}

/// The address of the service for the key `api_key`.
pub fn suggestion_url(api_key: &str) -> (url: String)
    ensures
        url@
            == "https://generativelanguage.googleapis.com/v1beta/models/gemini-1.5-flash:generateContent?key="@
            + api_key@,
{
    let mut url = String::from_str(
        "https://generativelanguage.googleapis.com/v1beta/models/gemini-1.5-flash:generateContent?key=",
    );
    url.append(api_key);
    url
}

} // verus!

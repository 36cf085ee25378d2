//! Skills and the differences between their versions.

use crate::ids::{parse_version_id, parsed_uuid};
use crate::reply::{
    bad_request_text, internal_error, internal_error_text, not_found, not_found_text, ErrorReply,
};
use crate::text::{opt_str, same_text};
use vstd::prelude::*;
use vstd::string::*;

verus! {

/// The unified diff that `diffy::create_patch` makes of two texts.
pub uninterp spec fn unified_diff(old: Seq<char>, new: Seq<char>) -> Seq<char>;

/// The diff of two texts that do not differ: nothing but the names of its sides.
pub const EMPTY_DIFF: &'static str = "--- original\n+++ modified\n";

/// The unified diff between two texts.
///
/// Calls `diffy::create_patch`, and renders the patch with `to_string`. Taken on
/// trust: the diff depends on the two texts alone, and that of a text and itself
/// has no hunk.
#[verifier::external_body]
fn diff_texts(old: &str, new: &str) -> (r: String)
    ensures
        r@ == unified_diff(old@, new@),
        old@ == new@ ==> r@ == EMPTY_DIFF@,
{
    diffy::create_patch(old, new).to_string()
}

/// The version that a request names, or the message about a bad one; a missing
/// name stands for the latest version.
pub open spec fn wanted_version(raw: Option<Seq<char>>) -> Result<Option<u128>, Seq<char>> {
    match raw {
        None => Ok(None),
        Some(s) => match parsed_uuid(s) {
            Ok(id) => Ok(Some(id)),
            Err(error) => Err(error),
        },
    }
}

/// Whether reading what stands in a request by a call of [`parse_version_id`] came to the
/// version. Only such a call shows it.
pub open spec fn names_version(raw: Option<&str>, version: Option<u128>) -> bool {
    call_ensures(parse_version_id, (raw,), Ok::<Option<u128>, ErrorReply>(version))
}

/// Whether `r` answers a request for the difference between two contents, each of
/// which was read or not.
pub open spec fn answers_diff(
    r: Result<String, ErrorReply>,
    old: Result<String, String>,
    new: Result<String, String>,
) -> bool {
    match old {
        Err(error) => r is Err && r->Err_0@ == internal_error_text(error@),
        Ok(before) => match new {
            Err(error) => r is Err && r->Err_0@ == internal_error_text(error@),
            Ok(after) => {
                &&& r is Ok
                &&& r->Ok_0@ == unified_diff(before@, after@)
                &&& before@ == after@ ==> r->Ok_0@ == EMPTY_DIFF@
            },
        },
    }
}

/// The difference between two contents that were read.
///
/// A version does not differ from itself.
pub fn content_diff(old: Result<String, String>, new: Result<String, String>) -> (r: Result<
    String,
    ErrorReply,
>)
    ensures
        answers_diff(r, old, new),
{
    match old {
        Err(error) => Err(internal_error(error)),
        Ok(before) => match new {
            Err(error) => Err(internal_error(error)),
            Ok(after) => Ok(diff_texts(before.as_str(), after.as_str())),
        },
    }
}

/// The difference between two versions of a skill, whose contents `read` gives.
///
/// A side that is not named is the latest version. Nothing is read unless both names
/// are good, and the new side only once the old one was read.
pub fn skill_diff<F: Fn(Option<u128>) -> Result<String, String>>(
    from: Option<&str>,
    to: Option<&str>,
    read: F,
) -> (r: Result<String, ErrorReply>)
    requires
        forall|before: Option<u128>, after: Option<u128>|
            #![trigger names_version(from, before), names_version(to, after)]
            names_version(from, before) && names_version(to, after) ==> read.requires((before,)),
        forall|before: Option<u128>, after: Option<u128>, content: String|
            #![trigger names_version(to, after), read.ensures((before,), Ok(content))]
            names_version(from, before) && names_version(to, after) && read.ensures(
                (before,),
                Ok(content),
            ) ==> read.requires((after,)),
    ensures
        match (wanted_version(opt_str(from)), wanted_version(opt_str(to))) {
            (Err(error), _) => r is Err && r->Err_0@ == bad_request_text(error),
            (Ok(_), Err(error)) => r is Err && r->Err_0@ == bad_request_text(error),
            (Ok(before), Ok(after)) => exists|
                old: Result<String, String>,
                new: Result<String, String>,
            |
                {
                    &&& #[trigger] read.ensures((before,), old)
                    &&& old is Ok ==> read.ensures((after,), new)
                    &&& #[trigger] answers_diff(r, old, new)
                },
        },
{
    let before = match parse_version_id(from) {
        Ok(id) => id,
        Err(reply) => {
            return Err(reply);
        },
    };
    let after = match parse_version_id(to) {
        Ok(id) => id,
        Err(reply) => {
            return Err(reply);
        },
    };
    assert(names_version(from, before) && names_version(to, after));
    let old = read(before);
    if old.is_err() {
        let ghost first = old;
        let r = content_diff(old, Ok(String::new()));
        proof {
            assert(read.ensures((before,), first));
        }
        return r;
    }
    assert(read.ensures((before,), Ok(old->Ok_0)));
    let new = read(after);
    let ghost (first, second) = (old, new);
    let r = content_diff(old, new);
    proof {
        assert(read.ensures((before,), first));
        assert(read.ensures((after,), second));
        assert(answers_diff(r, first, second));
    }
    r
}

/// The message about a skill that is not registered.
pub open spec fn missing_skill(skill_id: Seq<char>) -> Seq<char> {
    "skill '"@ + skill_id + "' not found"@
}

/// The position of a skill in the registry's list.
pub fn find_skill(skill_ids: &[String], skill_id: &str) -> (r: Result<usize, ErrorReply>)
    ensures
        match r {
            Ok(i) => {
                &&& i < skill_ids@.len()
                &&& skill_ids@[i as int]@ == skill_id@
                &&& forall|j: int| 0 <= j < i ==> (#[trigger] skill_ids@[j])@ != skill_id@
            },
            Err(reply) => {
                &&& forall|j: int|
                    0 <= j < skill_ids@.len() ==> (#[trigger] skill_ids@[j])@ != skill_id@
                &&& reply@ == not_found_text(missing_skill(skill_id@))
            },
        },
{
    let mut i: usize = 0;
    while i < skill_ids.len()
        invariant
            i <= skill_ids@.len(),
            forall|j: int| 0 <= j < i ==> (#[trigger] skill_ids@[j])@ != skill_id@,
        decreases skill_ids@.len() - i,
    {
        if same_text(skill_ids[i].as_str(), skill_id) {
            return Ok(i);
        }
        i = i + 1;
    }
    Err(not_found("skill '".to_string().concat(skill_id).concat("' not found")))
}

/// The latest version is wanted just if none is named; a name is read as an identifier,
/// and what is no identifier is an error.
pub proof fn law_version_is_the_one_named(raw: Option<Seq<char>>)
    ensures
        raw is None ==> wanted_version(raw) == Ok::<Option<u128>, Seq<char>>(None),
        raw matches Some(s) ==> (parsed_uuid(s) matches Ok(id) ==> wanted_version(raw) == Ok::<
            Option<u128>,
            Seq<char>,
        >(Some(id))),
        raw matches Some(s) ==> (parsed_uuid(s) matches Err(error) ==> wanted_version(raw) == Err::<
            Option<u128>,
            Seq<char>,
        >(error)),
{
}

/// A difference is given just if both sides were read, and goes from the old side to the
/// new one; otherwise the reply is the server's error about the first side that was not
/// read.
pub proof fn law_difference_needs_both_sides(
    r: Result<String, ErrorReply>,
    old: Result<String, String>,
    new: Result<String, String>,
)
    requires
        answers_diff(r, old, new),
    ensures
        r is Ok <==> old is Ok && new is Ok,
        r matches Ok(diff) ==> diff@ == unified_diff(old->Ok_0@, new->Ok_0@),
        r matches Err(reply) ==> reply.status == 500 && reply.error@ == (if old is Err {
            old->Err_0@
        } else {
            new->Err_0@
        }),
{
}

/// The message about a missing skill holds its identifier between quotes.
pub proof fn law_missing_skill_is_named(skill_id: Seq<char>)
    ensures
        missing_skill(skill_id).len() == 18 + skill_id.len(),
        missing_skill(skill_id).subrange(7, 7 + skill_id.len() as int) == skill_id,
{
    reveal_strlit("skill '");
    reveal_strlit("' not found");
    assert(missing_skill(skill_id).subrange(7, 7 + skill_id.len() as int) =~= skill_id);
}

} // verus!

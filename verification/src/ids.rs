//! Identifiers of thoughts and of skill versions.

use crate::listing::ThoughtEntry;
use crate::reply::{bad_request_text, not_found, not_found_text, or_bad_request, ErrorReply};
use crate::text::opt_str;
use vstd::arithmetic::power::pow;
use vstd::prelude::*;
use vstd::string::*;

verus! {

/// The `k`-th of the 32 hexadecimal digits of an identifier.
pub open spec fn hex_digit(id: u128, k: int) -> char {
    "0123456789abcdef"@[(id as int / pow(16, (31 - k) as nat)) % 16]
}

/// The text of an identifier: its 32 digits in groups of 8, 4, 4, 4 and 12, with
/// hyphens between the groups.
pub open spec fn hyphenated(id: u128) -> Seq<char> {
    Seq::new(
        36,
        |i: int|
            if i == 8 || i == 13 || i == 18 || i == 23 {
                '-'
            } else if i < 8 {
                hex_digit(id, i)
            } else if i < 13 {
                hex_digit(id, i - 1)
            } else if i < 18 {
                hex_digit(id, i - 2)
            } else if i < 23 {
                hex_digit(id, i - 3)
            } else {
                hex_digit(id, i - 4)
            },
    )
}

/// What `uuid::Uuid::parse_str` makes of a text: an identifier, or the text of
/// the error.
pub uninterp spec fn parsed_uuid(s: Seq<char>) -> Result<u128, Seq<char>>;

/// Reads an identifier.
///
/// Calls `uuid::Uuid::parse_str`, and renders its error with `to_string`. Taken
/// on trust: the outcome depends on the text alone, and the hyphenated text of an
/// identifier is read back as that identifier.
#[verifier::external_body]
fn parse_uuid(s: &str) -> (r: Result<u128, String>)
    ensures
        match r {
            Ok(id) => parsed_uuid(s@) == Ok::<u128, Seq<char>>(id),
            Err(error) => parsed_uuid(s@) == Err::<u128, Seq<char>>(error@),
        },
        forall|id: u128| s@ == #[trigger] hyphenated(id) ==> r is Ok && r->Ok_0 == id,
{
    match uuid::Uuid::parse_str(s) {
        Ok(id) => Ok(id.as_u128()),
        Err(error) => Err(error.to_string()),
    }
}

/// The text of an identifier.
///
/// Calls the `Display` of `uuid::Uuid`. Taken on trust: it writes the hyphenated
/// form with lower-case digits.
#[verifier::external_body]
fn uuid_text(id: u128) -> (r: String)
    ensures
        r@ == hyphenated(id),
{
    uuid::Uuid::from_u128(id).to_string()
}

/// Reads the identifier of a thought out of a request.
///
/// The text under which a thought is shown is read back as its identifier.
pub fn parse_thought_id(s: &str) -> (r: Result<u128, ErrorReply>)
    ensures
        match parsed_uuid(s@) {
            Ok(id) => r == Ok::<u128, ErrorReply>(id),
            Err(error) => r is Err && r->Err_0@ == bad_request_text(error),
        },
        forall|id: u128|
            #![trigger hyphenated(id)]
            s@ == hyphenated(id) ==> r == Ok::<u128, ErrorReply>(id),
{
    or_bad_request(parse_uuid(s))
}

/// Reads the identifier of a skill version out of a request. A missing one stands
/// for the latest version.
pub fn parse_version_id(raw: Option<&str>) -> (r: Result<Option<u128>, ErrorReply>)
    ensures
        match opt_str(raw) {
            None => r == Ok::<Option<u128>, ErrorReply>(None),
            Some(s) => match parsed_uuid(s) {
                Ok(id) => r == Ok::<Option<u128>, ErrorReply>(Some(id)),
                Err(error) => r is Err && r->Err_0@ == bad_request_text(error),
            },
        },
        forall|id: u128|
            #![trigger hyphenated(id)]
            opt_str(raw) == Some(hyphenated(id)) ==> r == Ok::<Option<u128>, ErrorReply>(
                Some(id),
            ),
{
    match raw {
        None => Ok(None),
        Some(s) => match or_bad_request(parse_uuid(s)) {
            Ok(id) => Ok(Some(id)),
            Err(reply) => Err(reply),
        },
    }
}

/// Whether reading a text by a call of [`parse_thought_id`] came to the identifier. Only
/// such a call shows it.
pub open spec fn read_as(s: &str, id: u128) -> bool {
    call_ensures(parse_thought_id, (s,), Ok::<u128, ErrorReply>(id))
}

/// Reads the identifier of a thought out of a request, then has `open` open the chain
/// to look in. A bad identifier is refused without opening the chain.
pub fn open_for_thought<C, F: FnOnce() -> Result<C, ErrorReply>>(
    thought_id: &str,
    open: F,
) -> (r: Result<(u128, C), ErrorReply>)
    requires
        forall|id: u128| #[trigger] read_as(thought_id, id) ==> open.requires(()),
    ensures
        match parsed_uuid(thought_id@) {
            Ok(id) => match r {
                Ok(found) => found.0 == id && open.ensures((), Ok(found.1)),
                Err(reply) => open.ensures((), Err(reply)),
            },
            Err(error) => r is Err && r->Err_0@ == bad_request_text(error),
        },
{
    match parse_thought_id(thought_id) {
        Ok(id) => {
            assert(read_as(thought_id, id));
            match open() {
                Ok(chain) => Ok((id, chain)),
                Err(reply) => Err(reply),
            }
        },
        Err(reply) => Err(reply),
    }
}

/// The message about a thought that is not in a chain.
pub open spec fn missing_thought(id: u128, chain_key: Seq<char>) -> Seq<char> {
    "thought '"@ + hyphenated(id) + "' not found in chain '"@ + chain_key + "'"@
}

/// The position of a thought in its chain.
pub fn find_thought(thoughts: &[ThoughtEntry], id: u128, chain_key: &str) -> (r: Result<
    usize,
    ErrorReply,
>)
    ensures
        match r {
            Ok(i) => {
                &&& i < thoughts@.len()
                &&& thoughts@[i as int].id == id
                &&& forall|j: int| 0 <= j < i ==> (#[trigger] thoughts@[j]).id != id
            },
            Err(reply) => {
                &&& forall|j: int| 0 <= j < thoughts@.len() ==> (#[trigger] thoughts@[j]).id != id
                &&& reply@ == not_found_text(missing_thought(id, chain_key@))
            },
        },
{
    let mut i: usize = 0;
    while i < thoughts.len()
        invariant
            i <= thoughts@.len(),
            forall|j: int| 0 <= j < i ==> (#[trigger] thoughts@[j]).id != id,
        decreases thoughts@.len() - i,
    {
        if thoughts[i].id == id {
            return Ok(i);
        }
        i = i + 1;
    }
    let message = "thought '".to_string().concat(uuid_text(id).as_str()).concat(
        "' not found in chain '",
    ).concat(chain_key).concat("'");
    Err(not_found(message))
}

/// The message about a missing thought holds the identifier and the key of the chain,
/// both whole and between quotes.
pub proof fn law_missing_thought_is_named(id: u128, chain_key: Seq<char>)
    ensures
        missing_thought(id, chain_key).len() == 68 + chain_key.len(),
        missing_thought(id, chain_key).subrange(9, 45) == hyphenated(id),
        missing_thought(id, chain_key).subrange(67, 67 + chain_key.len() as int) == chain_key,
{
    reveal_strlit("thought '");
    reveal_strlit("' not found in chain '");
    reveal_strlit("'");
    let message = missing_thought(id, chain_key);
    assert(message.subrange(9, 45) =~= hyphenated(id));
    assert(message.subrange(67, 67 + chain_key.len() as int) =~= chain_key);
}

/// The text of an identifier has hyphens at four places and hexadecimal digits, in lower
/// case, at all others.
pub proof fn law_identifiers_are_hyphenated(id: u128, i: int)
    requires
        0 <= i < 36,
    ensures
        hyphenated(id).len() == 36,
        i == 8 || i == 13 || i == 18 || i == 23 <==> hyphenated(id)[i] == '-',
        hyphenated(id)[i] == '-' || '0' <= hyphenated(id)[i] <= '9' || 'a' <= hyphenated(id)[i]
            <= 'f',
{
    reveal_strlit("0123456789abcdef");
}

} // verus!

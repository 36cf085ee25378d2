//! The PIN that guards the dashboard.

use crate::text::{
    is_piece, law_trimming_takes_off_white_space, lemma_piece_at_place, lemma_place_of_piece,
    lemma_split_add, lemma_split_single, lemma_trim_fixed, lemma_trim_leading_space,
    lemma_trims_unique, opt_text, same_text, split_on, split_text, strs, trimmed, trimmed_text,
    trims,
};
use vstd::prelude::*;
use vstd::string::*;

verus! {

/// Where a request without the PIN is sent.
pub const LOGIN_PATH: &'static str = "/dashboard/login";

/// Whether a byte of a header is visible ASCII, a space or a tab.
pub open spec fn is_visible(b: u8) -> bool {
    32 <= b < 127 || b == 9
}

/// Whether a header holds nothing but visible ASCII, spaces and tabs.
pub open spec fn is_readable(header: Seq<u8>) -> bool {
    forall|i: int| 0 <= i < header.len() ==> is_visible(#[trigger] header[i])
}

/// The text of a readable header.
pub open spec fn header_chars(header: Seq<u8>) -> Seq<char> {
    header.map_values(|b: u8| b as char)
}

/// The text of a header, if it has one.
///
/// Calls `HeaderValue::from_bytes` and `HeaderValue::to_str` of the `http` crate,
/// as `axum` re-exports it. Taken on trust: together they yield the bytes as
/// characters if all of them are visible ASCII, spaces or tabs, and an error
/// otherwise.
#[verifier::external_body]
fn header_text(header: &[u8]) -> (r: Option<String>)
    ensures
        match r {
            Some(text) => is_readable(header@) && text@ == header_chars(header@),
            None => !is_readable(header@),
        },
{
    match axum::http::HeaderValue::from_bytes(header) {
        Ok(value) => match value.to_str() {
            Ok(text) => Some(text.to_string()),
            Err(_) => None,
        },
        Err(_) => None,
    }
}

/// The cookie pair that carries a PIN.
pub open spec fn pin_pair(pin: Seq<char>) -> Seq<char> {
    "mentisdb_pin="@ + pin
}

/// Whether an `Authorization` header carries the PIN.
pub open spec fn bearer_carries(header: Seq<u8>, pin: Seq<char>) -> bool {
    is_readable(header) && header_chars(header) == "Bearer "@ + pin
}

/// Whether one of the cookies in a text is the one that carries the PIN.
pub open spec fn cookies_carry(cookies: Seq<char>, pin: Seq<char>) -> bool {
    exists|i: int|
        0 <= i < split_on(cookies, ';').len() && trimmed(#[trigger] split_on(cookies, ';')[i])
            == pin_pair(pin)
}

/// Whether a `Cookie` header carries the PIN.
pub open spec fn cookie_carries(header: Seq<u8>, pin: Seq<char>) -> bool {
    is_readable(header) && cookies_carry(header_chars(header), pin)
}

/// The bytes of an optional header.
pub open spec fn header_bytes(header: Option<&[u8]>) -> Option<Seq<u8>> {
    match header {
        Some(bytes) => Some(bytes@),
        None => None,
    }
}

/// Whether a request with the given headers may pass.
pub open spec fn may_pass(
    required: Option<Seq<char>>,
    authorization: Option<Seq<u8>>,
    cookie: Option<Seq<u8>>,
) -> bool {
    match required {
        None => true,
        Some(pin) => {
            ||| authorization matches Some(header) && bearer_carries(header, pin)
            ||| cookie matches Some(header) && cookie_carries(header, pin)
        },
    }
}

/// What becomes of a request to the dashboard.
pub enum Access {
    /// It is handled.
    Pass,
    /// The client is sent to another page.
    Redirect { location: String },
}

/// Whether the cookies in a text carry the PIN.
fn carries_pin(cookies: &str, pin: &str) -> (r: bool)
    ensures
        r == cookies_carry(cookies@, pin@),
{
    let parts = split_text(cookies, ';');
    let pair = "mentisdb_pin=".to_string().concat(pin);
    let ghost pieces = split_on(cookies@, ';');
    let mut i: usize = 0;
    while i < parts.len()
        invariant
            i <= parts@.len(),
            pieces == split_on(cookies@, ';'),
            pieces == strs(parts@),
            pair@ == pin_pair(pin@),
            forall|j: int| 0 <= j < i ==> trimmed(#[trigger] pieces[j]) != pin_pair(pin@),
        decreases parts@.len() - i,
    {
        assert(pieces[i as int] == parts@[i as int]@);
        if same_text(trimmed_text(parts[i]), pair.as_str()) {
            return true;
        }
        i = i + 1;
    }
    false
}

/// Decides on a request to the dashboard.
///
/// Without a PIN every request passes. With one, a request passes if its
/// `Authorization` header is `Bearer` and the PIN, or if one of its cookies is
/// `mentisdb_pin` with the PIN as its value; any other is sent to the login page.
pub fn pin_auth(
    required_pin: &Option<String>,
    authorization: Option<&[u8]>,
    cookie: Option<&[u8]>,
) -> (r: Access)
    ensures
        match r {
            Access::Pass => may_pass(
                opt_text(*required_pin),
                header_bytes(authorization),
                header_bytes(cookie),
            ),
            Access::Redirect { location } => location@ == LOGIN_PATH@ && !may_pass(
                opt_text(*required_pin),
                header_bytes(authorization),
                header_bytes(cookie),
            ),
        },
{
    let pin = match required_pin {
        Some(pin) => pin.as_str(),
        None => {
            return Access::Pass;
        },
    };
    if let Some(header) = authorization {
        if let Some(text) = header_text(header) {
            let wanted = "Bearer ".to_string().concat(pin);
            if same_text(text.as_str(), wanted.as_str()) {
                return Access::Pass;
            }
        }
    }
    if let Some(header) = cookie {
        if let Some(text) = header_text(header) {
            if carries_pin(text.as_str(), pin) {
                return Access::Pass;
            }
        }
    }
    Access::Redirect { location: LOGIN_PATH.to_string() }
}

/// The answer to a login.
pub enum LoginReply {
    /// The client gets the cookie and is sent to the dashboard.
    Accepted { status: u16, set_cookie: String, location: String },
    /// The client is sent back to the login page.
    Rejected { location: String },
}

/// Whether a submitted PIN is accepted; without a required PIN any is.
pub open spec fn pin_accepted(required: Option<Seq<char>>, submitted: Seq<char>) -> bool {
    required matches Some(pin) ==> submitted == pin
}

/// The cookie that a successful login sets.
pub open spec fn login_cookie(pin: Seq<char>) -> Seq<char> {
    pin_pair(pin) + "; Path=/; HttpOnly; SameSite=Strict"@
}

/// Answers a login form.
pub fn handle_login(required_pin: &Option<String>, submitted: &str) -> (r: LoginReply)
    ensures
        r is Accepted <==> (required_pin matches Some(pin) ==> submitted@ == pin@),
        match r {
            LoginReply::Accepted { status, set_cookie, location } => {
                &&& pin_accepted(opt_text(*required_pin), submitted@)
                &&& status == 303
                &&& set_cookie@ == login_cookie(submitted@)
                &&& location@ == "/dashboard"@
            },
            LoginReply::Rejected { location } => {
                &&& !pin_accepted(opt_text(*required_pin), submitted@)
                &&& location@ == "/dashboard/login?error=1"@
            },
        },
{
    let matches = match required_pin {
        Some(required) => same_text(submitted, required.as_str()),
        None => true,
    };
    if matches {
        LoginReply::Accepted {
            status: 303,
            set_cookie: "mentisdb_pin=".to_string().concat(submitted).concat(
                "; Path=/; HttpOnly; SameSite=Strict",
            ),
            location: "/dashboard".to_string(),
        }
    } else {
        LoginReply::Rejected { location: "/dashboard/login?error=1".to_string() }
    }
}

/// Whether a PIN survives in a cookie: it holds no semicolon and does not end in
/// white space.
pub open spec fn cookie_safe(pin: Seq<char>) -> bool {
    &&& !pin.contains(';')
    &&& pin.len() > 0 ==> !crate::text::is_white_space(pin.last())
}

/// A `Cookie` header as a browser sends it: the pair, with other cookies before
/// and after it or without.
pub open spec fn sent_cookies(
    before: Option<Seq<char>>,
    pair: Seq<char>,
    after: Option<Seq<char>>,
) -> Seq<char> {
    let left = match before {
        Some(others) => others + seq![';', ' '],
        None => Seq::empty(),
    };
    let right = match after {
        Some(others) => seq![';', ' '] + others,
        None => Seq::empty(),
    };
    left + pair + right
}

/// A login opens the dashboard: once a login with the required PIN is accepted,
/// a request that sends the cookie back, alone or among others, passes.
///
/// The cookie that a browser stores is what stands before the first semicolon of
/// the text that the login sets.
pub proof fn law_login_opens_the_dashboard(
    pin: Seq<char>,
    before: Option<Seq<char>>,
    after: Option<Seq<char>>,
    header: Seq<u8>,
    authorization: Option<Seq<u8>>,
)
    requires
        cookie_safe(pin),
        is_readable(header),
        header_chars(header) == sent_cookies(
            before,
            split_on(login_cookie(pin), ';')[0],
            after,
        ),
    ensures
        pin_accepted(Some(pin), pin),
        split_on(login_cookie(pin), ';')[0] == pin_pair(pin),
        may_pass(Some(pin), authorization, Some(header)),
{
    let pair = pin_pair(pin);
    let cookies = header_chars(header);
    reveal_strlit("mentisdb_pin=");
    reveal_strlit("; Path=/; HttpOnly; SameSite=Strict");
    assert(pair[0] == 'm');
    assert(!pair.contains(';'));
    assert(pair.last() == (if pin.len() > 0 {
        pin.last()
    } else {
        '='
    }));
    let rest = "; Path=/; HttpOnly; SameSite=Strict"@.skip(1);
    assert(login_cookie(pin) =~= pair + seq![';'] + rest);
    lemma_split_single(pair, ';');
    lemma_split_add(pair, rest, ';');
    lemma_trim_fixed(pair);
    lemma_trim_leading_space(pair);
    let spaced = seq![' '] + pair;
    assert(!spaced.contains(';')) by {
        if spaced.contains(';') {
            let k = choose|k: int| 0 <= k < spaced.len() && spaced[k] == ';';
            assert(pair[k - 1] == ';');
        }
    }
    lemma_split_single(spaced, ';');
    // The piece that holds the pair, and what stands behind it.
    let piece = if before is Some {
        spaced
    } else {
        pair
    };
    let tail = match after {
        Some(others) => piece + seq![';'] + (seq![' '] + others),
        None => piece,
    };
    if let Some(others) = after {
        lemma_split_add(piece, seq![' '] + others, ';');
    }
    assert(split_on(tail, ';')[0] == piece);
    assert(split_on(tail, ';').len() > 0);
    match before {
        Some(others) => {
            assert(cookies =~= others + seq![';'] + tail);
            lemma_split_add(others, tail, ';');
            let k = split_on(others, ';').len() as int;
            assert(trimmed(split_on(cookies, ';')[k]) == pair);
        },
        None => {
            assert(cookies =~= tail);
            assert(trimmed(split_on(cookies, ';')[0]) == pair);
        },
    }
}

/// The PIN in an `Authorization` header opens the dashboard.
pub proof fn law_bearer_opens_the_dashboard(
    pin: Seq<char>,
    header: Seq<u8>,
    cookie: Option<Seq<u8>>,
)
    requires
        is_readable(header),
        header_chars(header) == "Bearer "@ + pin,
    ensures
        may_pass(Some(pin), Some(header), cookie),
{
}

/// A request that sends neither header does not pass once a PIN is set, and
/// every request passes while none is.
pub proof fn law_pin_guards_the_dashboard(
    pin: Seq<char>,
    authorization: Option<Seq<u8>>,
    cookie: Option<Seq<u8>>,
)
    ensures
        !may_pass(Some(pin), None, None),
        may_pass(None, authorization, cookie),
{
}

/// Whether the text of a `Cookie` header holds, between the semicolons at `i` and `j`,
/// the PIN as the value of `mentisdb_pin`, from `a` to `b`, and besides it nothing but
/// white space.
pub open spec fn pin_stands_at(
    text: Seq<char>,
    pin: Seq<char>,
    i: int,
    a: int,
    b: int,
    j: int,
) -> bool {
    &&& is_piece(text, ';', i, j)
    &&& i <= a < b <= j
    &&& text.subrange(a, b) == "mentisdb_pin="@ + pin
    &&& forall|k: int| i <= k < a ==> crate::text::is_white_space(#[trigger] text[k])
    &&& forall|k: int| b <= k < j ==> crate::text::is_white_space(#[trigger] text[k])
    &&& !crate::text::is_white_space(text[b - 1])
}

proof fn lemma_cookies_carry(text: Seq<char>, pin: Seq<char>)
    ensures
        cookies_carry(text, pin) <==> exists|i: int, a: int, b: int, j: int| #[trigger]
            pin_stands_at(text, pin, i, a, b, j),
{
    let pair = pin_pair(pin);
    reveal_strlit("mentisdb_pin=");
    assert(pair[0] == 'm');
    if cookies_carry(text, pin) {
        let k = choose|k: int|
            0 <= k < split_on(text, ';').len() && trimmed(#[trigger] split_on(text, ';')[k])
                == pair;
        let piece = split_on(text, ';')[k];
        let (i, j) = lemma_place_of_piece(text, ';', k);
        law_trimming_takes_off_white_space(piece);
        let (a, b) = choose|a: int, b: int| #[trigger] trims(piece, trimmed(piece), a, b);
        assert(text.subrange(i + a, i + b) =~= piece.subrange(a, b));
        assert forall|m: int| i <= m < i + a implies crate::text::is_white_space(
            #[trigger] text[m],
        ) by {
            assert(piece[m - i] == text[m]);
        }
        assert forall|m: int| i + b <= m < j implies crate::text::is_white_space(
            #[trigger] text[m],
        ) by {
            assert(piece[m - i] == text[m]);
        }
        assert(piece[b - 1] == text[i + b - 1]);
        assert(pin_stands_at(text, pin, i, i + a, i + b, j));
    }
    if exists|i: int, a: int, b: int, j: int| #[trigger] pin_stands_at(text, pin, i, a, b, j) {
        let (i, a, b, j) = choose|i: int, a: int, b: int, j: int| #[trigger]
            pin_stands_at(text, pin, i, a, b, j);
        let k = lemma_piece_at_place(text, ';', i, j);
        let piece = split_on(text, ';')[k];
        assert(piece.subrange(a - i, b - i) =~= text.subrange(a, b));
        assert(pair[0] == text.subrange(a, b)[0]);
        assert(trims(piece, pair, a - i, b - i)) by {
            assert forall|m: int| 0 <= m < a - i implies crate::text::is_white_space(
                #[trigger] piece[m],
            ) by {
                assert(text[i + m] == piece[m]);
            }
            assert forall|m: int| b - i <= m < piece.len() implies crate::text::is_white_space(
                #[trigger] piece[m],
            ) by {
                assert(text[i + m] == piece[m]);
            }
            assert(piece[a - i] == 'm');
            assert(piece[b - i - 1] == text[b - 1]);
        }
        lemma_trims_unique(piece, pair, a - i, b - i);
    }
}

/// Once a PIN is set, just those requests pass whose `Authorization` header is `Bearer`
/// and the whole PIN, or whose `Cookie` header holds `mentisdb_pin` with the whole PIN as
/// its value; either header must be visible ASCII.
pub proof fn law_who_passes(
    pin: Seq<char>,
    authorization: Option<Seq<u8>>,
    cookie: Option<Seq<u8>>,
)
    ensures
        may_pass(Some(pin), authorization, cookie) <==> {
            ||| authorization is Some && visible_ascii(authorization->0) && header_chars(
                authorization->0,
            ) == "Bearer "@ + pin
            ||| cookie is Some && visible_ascii(cookie->0) && exists|
                i: int,
                a: int,
                b: int,
                j: int,
            | #[trigger]
                pin_stands_at(header_chars(cookie->0), pin, i, a, b, j)
        },
{
    if let Some(header) = cookie {
        lemma_cookies_carry(header_chars(header), pin);
        assert(is_readable(header) == visible_ascii(header));
    }
    if let Some(header) = authorization {
        assert(is_readable(header) == visible_ascii(header));
    }
}

/// Whether every byte is a tab, or lies between a space and a tilde.
pub open spec fn visible_ascii(header: Seq<u8>) -> bool {
    forall|i: int|
        0 <= i < header.len() ==> (#[trigger] header[i]) == 9 || 32 <= header[i] <= 126
}

/// The text of a header has a character for each byte, the one with that number.
pub proof fn law_header_is_read_byte_by_byte(header: Seq<u8>, i: int)
    requires
        0 <= i < header.len(),
        visible_ascii(header),
    ensures
        header_chars(header).len() == header.len(),
        header_chars(header)[i] as int == header[i] as int,
{
}

/// A login is accepted just with the whole PIN, or with anything if there is none.
pub proof fn law_login_takes_the_pin(required: Option<Seq<char>>, submitted: Seq<char>)
    ensures
        pin_accepted(required, submitted) <==> required is None || required == Some(submitted),
{
}

/// The cookie that a login sets carries the PIN, holds for all paths, and is kept from
/// scripts and from other sites.
pub proof fn law_login_cookie_is_kept_safe(pin: Seq<char>)
    requires
        !pin.contains(';'),
    ensures
        ({
            let parts = split_on(login_cookie(pin), ';');
            &&& parts.len() == 4
            &&& parts[0] == "mentisdb_pin="@ + pin
            &&& parts[1] == " Path=/"@
            &&& parts[2] == " HttpOnly"@
            &&& parts[3] == " SameSite=Strict"@
        }),
{
    let pair = pin_pair(pin);
    reveal_strlit("mentisdb_pin=");
    reveal_strlit("; Path=/; HttpOnly; SameSite=Strict");
    reveal_strlit(" Path=/");
    reveal_strlit(" HttpOnly");
    reveal_strlit(" SameSite=Strict");
    let a = " Path=/"@;
    let b = " HttpOnly"@;
    let c = " SameSite=Strict"@;
    let tail = a + seq![';'] + (b + seq![';'] + c);
    assert(!pair.contains(';'));
    assert(!a.contains(';'));
    assert(!b.contains(';'));
    assert(!c.contains(';'));
    assert("; Path=/; HttpOnly; SameSite=Strict"@ =~= seq![';'] + tail);
    assert(login_cookie(pin) =~= pair + seq![';'] + tail);
    lemma_split_single(pair, ';');
    lemma_split_single(a, ';');
    lemma_split_single(b, ';');
    lemma_split_single(c, ';');
    lemma_split_add(b, c, ';');
    lemma_split_add(a, b + seq![';'] + c, ';');
    lemma_split_add(pair, tail, ';');
}

} // verus!

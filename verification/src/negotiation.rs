//! Content negotiation: cache policy, the fixed headers, and the correction
//! of the content type of `htmd` documents.

use vstd::prelude::*;
use vstd::string::*;
use crate::config;
use crate::content_encoding::{is_textual, names_characters};
use crate::response::Response;
use crate::text::{contains, ends_with, has_infix, has_suffix, join, slice_text, with_entry};

verus! {

pub const CACHE_CONTROL: &'static str = "Cache-Control";

pub const CONTENT_TYPE: &'static str = "Content-Type";

pub const SERVER: &'static str = "Server";

pub const CONTENT_LANGUAGE: &'static str = "Content-Language";

/// The content type that only clients who ask for it are given.
pub const HTMD_MIME_TYPE: &'static str = "text/htmd";

/// The content type that the others are given in its place.
pub const PLAIN_MIME_TYPE: &'static str = "text/plain";

/// The endings of the names of static assets, in the order in which they are
/// tried.
pub open spec fn asset_suffixes() -> Seq<Seq<char>> {
    seq![
        ".ico"@,
        ".jpg"@,
        ".jpeg"@,
        ".png"@,
        ".webp"@,
        ".gif"@,
        ".svg"@,
        ".woff"@,
        ".woff2"@,
    ]
}

/// `filename` names a static asset: it ends with one of the asset suffixes.
pub open spec fn names_static_asset(filename: Seq<char>) -> bool {
    exists|i: int| 0 <= i < asset_suffixes().len() && has_suffix(filename, #[trigger] asset_suffixes()[i])
}

/// The cache lifetime for `filename`, in seconds.
pub open spec fn cache_time(filename: Seq<char>) -> u64 {
    if names_static_asset(filename) {
        config::CACHE_TIME_ASSETS
    } else {
        config::CACHE_TIME_CONTENT
    }
}

/// The asset suffixes as data.
pub fn asset_suffix_table() -> (table: Vec<&'static str>)
    ensures
        table@.len() == asset_suffixes().len(),
        forall|i: int| 0 <= i < table@.len() ==> (#[trigger] table@[i])@ == asset_suffixes()[i],
{
    vec![".ico", ".jpg", ".jpeg", ".png", ".webp", ".gif", ".svg", ".woff", ".woff2"]
}

/// Whether `filename` names a static asset.
pub fn is_static_asset(filename: &str) -> (asset: bool)
    ensures
        asset == names_static_asset(filename@),
{
    let table = asset_suffix_table();
    let mut i: usize = 0;
    while i < table.len()
        invariant
            i <= table.len(),
            table@.len() == asset_suffixes().len(),
            forall|k: int| 0 <= k < table@.len() ==> (#[trigger] table@[k])@ == asset_suffixes()[k],
            forall|k: int| 0 <= k < i ==> !has_suffix(filename@, #[trigger] asset_suffixes()[k]),
        decreases table.len() - i,
    {
        let suffix = table[i];
        assert(suffix == table@[i as int]);
        if ends_with(filename, suffix) {
            assert(has_suffix(filename@, asset_suffixes()[i as int]));
            return true;
        }
        i += 1;
    }
    false
}

/// The cache lifetime for `filename`, in seconds: the long one for static
/// assets, the short one for everything else.
pub fn get_cache_time_for_filetype(filename: &str) -> (seconds: u64)
    ensures
        seconds == cache_time(filename@),
{
    if is_static_asset(filename) {
        config::CACHE_TIME_ASSETS
    } else {
        config::CACHE_TIME_CONTENT
    }
}

/// The character for a decimal digit.
pub open spec fn digit_char(d: nat) -> char {
    if d == 0 {
        '0'
    } else if d == 1 {
        '1'
    } else if d == 2 {
        '2'
    } else if d == 3 {
        '3'
    } else if d == 4 {
        '4'
    } else if d == 5 {
        '5'
    } else if d == 6 {
        '6'
    } else if d == 7 {
        '7'
    } else if d == 8 {
        '8'
    } else {
        '9'
    }
}

/// The decimal digits of `n`, without leading zeros.
pub open spec fn decimal(n: nat) -> Seq<char>
    decreases n,
{
    if n < 10 {
        seq![digit_char(n)]
    } else {
        decimal(n / 10).push(digit_char(n % 10))
    }
}

/// The text of one decimal digit.
pub fn digit_text(d: u64) -> (text: &'static str)
    requires
        d < 10,
    ensures
        text@ == seq![digit_char(d as nat)],
{
    proof {
        reveal_strlit("0");
        reveal_strlit("1");
        reveal_strlit("2");
        reveal_strlit("3");
        reveal_strlit("4");
        reveal_strlit("5");
        reveal_strlit("6");
        reveal_strlit("7");
        reveal_strlit("8");
        reveal_strlit("9");
    }
    let text = if d == 0 {
        "0"
    } else if d == 1 {
        "1"
    } else if d == 2 {
        "2"
    } else if d == 3 {
        "3"
    } else if d == 4 {
        "4"
    } else if d == 5 {
        "5"
    } else if d == 6 {
        "6"
    } else if d == 7 {
        "7"
    } else if d == 8 {
        "8"
    } else {
        "9"
    };
    assert(text@ =~= seq![digit_char(d as nat)]);
    text
}

/// `n` written in decimal.
pub fn decimal_text(n: u64) -> (text: String)
    ensures
        text@ == decimal(n as nat),
    decreases n,
{
    if n < 10 {
        String::from_str(digit_text(n))
    } else {
        let text = decimal_text(n / 10).concat(digit_text(n % 10));
        assert(text@ =~= decimal((n / 10) as nat).push(digit_char((n % 10) as nat)));
        text
    }
}

/// The value of the `Cache-Control` header for a lifetime in seconds.
pub open spec fn max_age(seconds: u64) -> Seq<char> {
    "max-age="@ + decimal(seconds as nat)
}

/// Sets `Cache-Control` to the lifetime that the name of the file calls for.
/// The header then stands once, whatever stood before; the other headers, the
/// status and the body stay.
pub fn set_cache_time(response: &mut Response, filename: &str)
    ensures
        final(response).status == old(response).status,
        final(response).body == old(response).body,
        final(response).fields() == with_entry(
            old(response).fields(),
            CACHE_CONTROL@,
            max_age(cache_time(filename@)),
        ),
        forall|name: Seq<char>|
            #[trigger] final(response).header(name) == if name == CACHE_CONTROL@ {
                Some(max_age(cache_time(filename@)))
            } else {
                old(response).header(name)
            },
        forall|name: Seq<char>|
            #[trigger] final(response).occurrences(name) == if name == CACHE_CONTROL@ {
                1
            } else {
                old(response).occurrences(name)
            },
        old(response).has_distinct_names() ==> final(response).has_distinct_names(),
{
    let seconds = get_cache_time_for_filetype(filename);
    let digits = decimal_text(seconds);
    let value = join("max-age=", digits.as_str());
    response.set_header(CACHE_CONTROL, value);
}

/// Sets the fixed `Server` and `Content-Language` headers. Each then stands
/// once; the other headers, the status and the body stay.
pub fn set_additional_headers(response: &mut Response)
    ensures
        final(response).status == old(response).status,
        final(response).body == old(response).body,
        final(response).fields() == with_entry(
            with_entry(old(response).fields(), SERVER@, config::SERVER_NAME@),
            CONTENT_LANGUAGE@,
            config::CONTENT_LANGUAGE@,
        ),
        forall|name: Seq<char>|
            #[trigger] final(response).header(name) == if name == CONTENT_LANGUAGE@ {
                Some(config::CONTENT_LANGUAGE@)
            } else if name == SERVER@ {
                Some(config::SERVER_NAME@)
            } else {
                old(response).header(name)
            },
        forall|name: Seq<char>|
            #[trigger] final(response).occurrences(name) == if name == CONTENT_LANGUAGE@ || name
                == SERVER@ {
                1
            } else {
                old(response).occurrences(name)
            },
        old(response).has_distinct_names() ==> final(response).has_distinct_names(),
{
    response.set_header(SERVER, String::from_str(config::SERVER_NAME));
    response.set_header(CONTENT_LANGUAGE, String::from_str(config::CONTENT_LANGUAGE));
}

/// The response carries an `htmd` document: its content type names
/// `text/htmd`.
pub open spec fn serves_htmd(response: Response) -> bool {
    match response.header(CONTENT_TYPE@) {
        Some(value) => has_infix(value, HTMD_MIME_TYPE@),
        None => false,
    }
}

/// The client declared that it takes `text/htmd`.
pub open spec fn accepts_htmd(accept: Option<Seq<char>>) -> bool {
    match accept {
        Some(value) => has_infix(value, HTMD_MIME_TYPE@),
        None => false,
    }
}

/// Whether the response carries an `htmd` document.
pub fn serving_htmd_file(response: &Response) -> (htmd: bool)
    ensures
        htmd == serves_htmd(*response),
{
    match response.get_header(CONTENT_TYPE) {
        Some(value) => contains(value, HTMD_MIME_TYPE),
        None => false,
    }
}

/// Whether the `Accept` header of the request, where it has one, names
/// `text/htmd`.
pub fn accepts_htmd_mime_type(accept: Option<&str>) -> (accepted: bool)
    ensures
        accepted == accepts_htmd(slice_text(accept)),
{
    match accept {
        Some(value) => contains(value, HTMD_MIME_TYPE),
        None => false,
    }
}

/// The content type for a MIME type: the charset is added to a type that is
/// written in characters and names none.
pub open spec fn with_charset(mime_type: Seq<char>) -> Seq<char> {
    if is_textual(mime_type) && !has_infix(mime_type, "charset="@) {
        mime_type + "; charset="@ + config::CONTENT_CHARSET@
    } else {
        mime_type
    }
}

/// The content type for a MIME type.
pub fn content_type_for(mime_type: &str) -> (content_type: String)
    ensures
        content_type@ == with_charset(mime_type@),
{
    if names_characters(mime_type) && !contains(mime_type, "charset=") {
        String::from_str(mime_type).concat("; charset=").concat(config::CONTENT_CHARSET)
    } else {
        String::from_str(mime_type)
    }
}

/// What an `htmd` document is handed out as to a client that did not ask for
/// it, written out.
pub const PLAIN_CONTENT_TYPE: &'static str = "text/plain; charset=UTF-8";

/// `text/plain` is written in characters and names no charset, so it gets
/// one.
pub proof fn lemma_plain_type_with_charset()
    ensures
        with_charset(PLAIN_MIME_TYPE@) == PLAIN_CONTENT_TYPE@,
{
    broadcast use vstd::string::group_string_axioms;

    reveal_strlit("text/plain");
    reveal_strlit("text/");
    reveal_strlit("charset=");
    reveal_strlit("; charset=");
    reveal_strlit("UTF-8");
    reveal_strlit("text/plain; charset=UTF-8");
    let plain = PLAIN_MIME_TYPE@;
    let lower = crate::text::ascii_lowercase(plain);
    assert(lower.subrange(0, 5) =~= "text/"@);
    assert(is_textual(plain));
    assert forall|at: int| !crate::text::occurs_at(plain, "charset="@, at) by {
        if 0 <= at && at + 8 <= 10 {
            assert(plain.subrange(at, at + 8)[0] == plain[at]);
            assert(plain[at] != 'c');
        }
    }
    assert(plain + "; charset="@ + config::CONTENT_CHARSET@ =~= PLAIN_CONTENT_TYPE@);
}

/// The response carries an `htmd` document for a client that did not declare
/// that it takes one.
pub open spec fn needs_correction(response: Response, accept: Option<Seq<char>>) -> bool {
    serves_htmd(response) && !accepts_htmd(accept)
}

/// Hands an `htmd` document to a client that did not ask for `text/htmd` as
/// `text/plain`, with the charset. The content type then stands once; the
/// other headers, the status and the body stay. Where nothing is to be
/// corrected the response stays as it is.
pub fn maybe_correct_content_type(response: &mut Response, accept: Option<&str>)
    ensures
        final(response).status == old(response).status,
        final(response).body == old(response).body,
        if needs_correction(*old(response), slice_text(accept)) {
            final(response).fields() == with_entry(
                old(response).fields(),
                CONTENT_TYPE@,
                with_charset(PLAIN_MIME_TYPE@),
            )
        } else {
            *final(response) == *old(response)
        },
        forall|name: Seq<char>|
            #[trigger] final(response).header(name) == if name == CONTENT_TYPE@
                && needs_correction(*old(response), slice_text(accept)) {
                Some(with_charset(PLAIN_MIME_TYPE@))
            } else {
                old(response).header(name)
            },
        forall|name: Seq<char>|
            #[trigger] final(response).occurrences(name) == if name == CONTENT_TYPE@
                && needs_correction(*old(response), slice_text(accept)) {
                1
            } else {
                old(response).occurrences(name)
            },
        old(response).has_distinct_names() ==> final(response).has_distinct_names(),
{
    if serving_htmd_file(response) && !accepts_htmd_mime_type(accept) {
        response.set_header(CONTENT_TYPE, content_type_for(PLAIN_MIME_TYPE));
    }
}

} // verus!

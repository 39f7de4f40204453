//! Signing in with the clarifying service and reading its answers.
//!
//! The browser, the deep link that brings the token back, and the request
//! to the service are outside this library. Decided here are the address
//! that is opened, what a query that comes back holds, and what an answer
//! of the service amounts to. Percent-encoding is done by the
//! `urlencoding` crate.

use crate::text::{chars_of, found_at, glue, stands_at, text_of};
use vstd::prelude::*;
use vstd::string::*;

verus! {

/// `text` with every byte percent-encoded but letters, digits and the
/// four marks that need no encoding.
pub uninterp spec fn percent_encoded(text: Seq<char>) -> Seq<char>;

/// `text` with its percent-encodings read back, or nothing where the
/// bytes they stand for are no text.
pub uninterp spec fn percent_decoded(text: Seq<char>) -> Option<Seq<char>>;

/// `urlencoding::encode`: `text`, percent-encoded.
#[verifier::external_body]
fn url_encode(text: &str) -> (encoded: String)
    ensures
        encoded@ == percent_encoded(text@),
{
    urlencoding::encode(text).into_owned()
}

/// A text that may be missing, as plain values.
pub open spec fn plain(text: Option<String>) -> Option<Seq<char>> {
    match text {
        Some(t) => Some(t@),
        None => None,
    }
}

/// `urlencoding::decode`: `text` with its percent-encodings read back.
#[verifier::external_body]
fn url_decode(text: &str) -> (decoded: Option<String>)
    ensures
        plain(decoded) == percent_decoded(text@),
{
    match urlencoding::decode(text) {
        Ok(decoded) => Some(decoded.into_owned()),
        Err(_) => None,
    }
}

/// The address to which the service sends the browser back.
pub open spec fn callback() -> Seq<char> {
    "textclarifier://auth"@
}

/// The address of the page on which the application is connected.
pub open spec fn connect_page() -> Seq<char> {
    "https://textclarifier.com/dashboard/connect-app?callback="@
}

/// The address that is opened in the browser to sign in.
pub fn auth_url() -> (url: String)
    ensures
        url@ == connect_page() + percent_encoded(callback()),
{
    let encoded = url_encode("textclarifier://auth");
    glue("https://textclarifier.com/dashboard/connect-app?callback=", encoded.as_str())
}

/// The tokens that a query brought.
#[derive(Debug, Clone)]
pub struct AuthTokens {
    pub token: Option<String>,
    pub refresh_token: Option<String>,
}

/// The tokens as plain values.
pub struct TokensView {
    pub token: Option<Seq<char>>,
    pub refresh_token: Option<Seq<char>>,
}

impl View for AuthTokens {
    type V = TokensView;

    open spec fn view(&self) -> TokensView {
        TokensView { token: plain(self.token), refresh_token: plain(self.refresh_token) }
    }
}

/// The value `text` read back; the empty text where it cannot be read.
pub open spec fn value_of(text: Seq<char>) -> Seq<char> {
    match percent_decoded(text) {
        Some(value) => value,
        None => Seq::empty(),
    }
}

/// The letters that begin the field of the token.
pub open spec fn token_key() -> Seq<char> {
    seq!['t', 'o', 'k', 'e', 'n', '=']
}

/// The letters that begin the field of the refresh token.
pub open spec fn refresh_key() -> Seq<char> {
    seq!['r', 'e', 'f', 'r', 'e', 's', 'h', '_', 't', 'o', 'k', 'e', 'n', '=']
}

/// The tokens after the field `field` of a query was read. A field that
/// begins with `token=` sets the token, one that begins with
/// `refresh_token=` the refresh token, any other changes nothing.
pub open spec fn with_field(tokens: TokensView, field: Seq<char>) -> TokensView {
    if stands_at(field, 0, token_key()) {
        TokensView { token: Some(value_of(field.skip(6))), ..tokens }
    } else if stands_at(field, 0, refresh_key()) {
        TokensView { refresh_token: Some(value_of(field.skip(14))), ..tokens }
    } else {
        tokens
    }
}

/// The end of the field of `query` that begins at `from`: the place of the
/// next `&`, or the end of the query.
pub open spec fn field_end(query: Seq<char>, from: int) -> int
    decreases query.len() - from,
{
    if from < 0 || from >= query.len() || query[from] == '&' {
        from
    } else {
        field_end(query, from + 1)
    }
}

/// The tokens after the fields of `query` from `from` on were read, one
/// after another, where `tokens` were read before.
pub open spec fn tokens_from(query: Seq<char>, from: int, tokens: TokensView) -> TokensView
    decreases query.len() - from,
{
    if from < 0 || from > query.len() {
        tokens
    } else {
        let end = field_end(query, from);
        let read = with_field(tokens, query.subrange(from, end));
        if from <= end < query.len() {
            tokens_from(query, end + 1, read)
        } else {
            read
        }
    }
}

/// The tokens that `query` holds: its fields are parted by `&`; of
/// several fields for one token the last counts.
pub open spec fn tokens_of(query: Seq<char>) -> TokensView {
    tokens_from(query, 0, TokensView { token: None, refresh_token: None })
}

proof fn lemma_field_end(query: Seq<char>, from: int)
    requires
        0 <= from <= query.len(),
    ensures
        from <= field_end(query, from) <= query.len(),
        field_end(query, from) < query.len() ==> query[field_end(query, from)] == '&',
        forall|i: int| from <= i < field_end(query, from) ==> query[i] != '&',
    decreases query.len() - from,
{
    if from < query.len() && query[from] != '&' {
        lemma_field_end(query, from + 1);
    }
}

fn decode_value(chars: &Vec<char>, from: usize, to: usize) -> (value: String)
    requires
        from <= to <= chars@.len(),
    ensures
        value@ == value_of(chars@.subrange(from as int, to as int)),
{
    let text = text_of(chars, from, to);
    match url_decode(text.as_str()) {
        Some(value) => value,
        None => String::new(),
    }
}

/// The tokens that the query of a link holds.
pub fn parse_auth_query(query: &str) -> (tokens: AuthTokens)
    ensures
        tokens@ == tokens_of(query@),
{
    let chars = chars_of(query);
    let n = chars.len();
    let token_key = chars_of("token=");
    let refresh_key = chars_of("refresh_token=");
    proof {
        reveal_strlit("token=");
        reveal_strlit("refresh_token=");
        assert(token_key@ =~= self::token_key());
        assert(refresh_key@ =~= self::refresh_key());
    }
    let mut tokens = AuthTokens { token: None, refresh_token: None };
    let mut from: usize = 0;
    loop
        invariant
            n == chars@.len(),
            chars@ == query@,
            from <= n,
            token_key@ == self::token_key(),
            refresh_key@ == self::refresh_key(),
            tokens_from(chars@, from as int, tokens@) == tokens_of(query@),
        ensures
            tokens@ == tokens_of(query@),
        decreases n - from,
    {
        let mut end: usize = from;
        while end < n && chars[end] != '&'
            invariant
                n == chars@.len(),
                from <= end <= n,
                field_end(chars@, end as int) == field_end(chars@, from as int),
            decreases n - end,
        {
            end = end + 1;
        }
        assert(field_end(chars@, from as int) == end);
        let ghost field = chars@.subrange(from as int, end as int);
        let ghost before = tokens@;
        if end - from >= 6 && found_at(&chars, from, &token_key) {
            assert(chars@.subrange(from as int, from + 6) =~= field.subrange(0, 6));
            assert(field.skip(6) =~= chars@.subrange(from + 6, end as int));
            tokens.token = Some(decode_value(&chars, from + 6, end));
        } else if end - from >= 14 && found_at(&chars, from, &refresh_key) {
            assert(chars@.subrange(from as int, from + 14) =~= field.subrange(0, 14));
            assert(field.skip(14) =~= chars@.subrange(from + 14, end as int));
            assert(!stands_at(field, 0, self::token_key())) by {
                if stands_at(field, 0, self::token_key()) {
                    assert(field.subrange(0, 6) =~= chars@.subrange(from as int, from + 6));
                }
            }
            tokens.refresh_token = Some(decode_value(&chars, from + 14, end));
        } else {
            proof {
                if stands_at(field, 0, self::token_key()) {
                    assert(field.subrange(0, 6) =~= chars@.subrange(from as int, from + 6));
                }
                if stands_at(field, 0, self::refresh_key()) {
                    assert(field.subrange(0, 14) =~= chars@.subrange(from as int, from + 14));
                }
            }
        }
        assert(tokens@ == with_field(before, field));
        if end >= n {
            break;
        }
        from = end + 1;
    }
    tokens
}

/// What an answer of the service amounts to: the error it names, else the
/// explanation it holds, else the complaint that it holds none.
pub open spec fn outcome_of(result: Option<String>, error: Option<String>) -> Result<
    Seq<char>,
    Seq<char>,
> {
    match error {
        Some(error) => Err(error@),
        None => match result {
            Some(result) => Ok(result@),
            None => Err("No explanation returned"@),
        },
    }
}

/// An outcome as plain values.
pub open spec fn plain_outcome(outcome: Result<String, String>) -> Result<Seq<char>, Seq<char>> {
    match outcome {
        Ok(text) => Ok(text@),
        Err(text) => Err(text@),
    }
}

/// What an answer of the service with `result` and `error` amounts to.
pub fn explanation(result: Option<String>, error: Option<String>) -> (outcome: Result<
    String,
    String,
>)
    ensures
        plain_outcome(outcome) == outcome_of(result, error),
{
    match error {
        Some(error) => Err(error),
        None => match result {
            Some(result) => Ok(result),
            None => Err("No explanation returned".to_string()),
        },
    }
}

} // verus!

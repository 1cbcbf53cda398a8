//! Talking to AniList: the texts of the requests, the address that asks for
//! an authorisation, and what is read back from the answers.
use vstd::prelude::*;
use vstd::string::*;

use crate::text::{decimal_digits, decimal_string, push_char, to_owned_string};

verus! {

/// The GraphQL query that searches for mangas by title.
pub const SEARCH_QUERY: &'static str = "query ($search: String, $mediaType: MediaType) {\n    Page(perPage: 3) {\n        media(search: $search, type: $mediaType) {\n            id\n            title {\n                romaji\n                english\n                native\n                userPreferred\n            }\n            synonyms\n            format\n            isLicensed\n            mediaListEntry {\n                id\n                mediaId\n            }\n        }\n    }\n}";

/// Where AniList asks the user for an authorisation.
pub const AUTHORIZE_ENDPOINT: &'static str = "https://anilist.co/api/v2/oauth/authorize";

/// Where the program redirects the user after the authorisation.
pub const REDIRECT_URI: &'static str = "http://localhost:1234";

/// The lower-case hexadecimal digit of a value below 16.
pub open spec fn hex_digit(v: int) -> char {
    if v < 10 {
        ('0' as int + v) as char
    } else {
        ('a' as int + v - 10) as char
    }
}

/// How serde_json writes one character inside a JSON string: `"` and `\` and
/// the control characters below U+0020 are escaped (`\b`, `\t`, `\n`, `\f`,
/// `\r`, otherwise `\u00XX` with lower-case hex digits); every other
/// character stands as it is.
pub open spec fn json_char_escape(c: char) -> Seq<char> {
    if c == '"' {
        seq!['\\', '"']
    } else if c == '\\' {
        seq!['\\', '\\']
    } else if c == '\u{8}' {
        seq!['\\', 'b']
    } else if c == '\t' {
        seq!['\\', 't']
    } else if c == '\n' {
        seq!['\\', 'n']
    } else if c == '\u{c}' {
        seq!['\\', 'f']
    } else if c == '\r' {
        seq!['\\', 'r']
    } else if (c as u32) < 0x20 {
        seq!['\\', 'u', '0', '0', hex_digit((c as u32) as int / 16), hex_digit((c as u32) as int % 16)]
    } else {
        seq![c]
    }
}

/// The characters of `s`, each written as `json_char_escape` says.
pub open spec fn json_escaped(s: Seq<char>) -> Seq<char>
    decreases s.len(),
{
    if s.len() == 0 {
        Seq::empty()
    } else {
        json_escaped(s.drop_last()) + json_char_escape(s.last())
    }
}

/// The JSON string literal that serde_json writes for `s`: its escaped
/// characters between two `"`.
pub open spec fn json_string_text(s: Seq<char>) -> Seq<char> {
    seq!['"'] + json_escaped(s) + seq!['"']
}

/// Writes a string as a JSON string literal.
///
/// Calls `serde_json::to_string` on the `&str` (through ureq's re-export).
/// Serialising a `str` writes it with `format_escaped_str` into a `Vec`,
/// which cannot fail; the text is the escaped string between quotes, as
/// `json_string_text` states.
#[verifier::external_body]
fn json_string(s: &str) -> (r: Option<String>)
    ensures
        r is Some,
        r matches Some(t) ==> t@ == json_string_text(s@),
{
    ureq::serde_json::to_string(s).ok()
}

fn json_text(s: &str) -> (r: String)
    ensures
        r@ == json_string_text(s@),
{
    match json_string(s) {
        Some(t) => t,
        None => String::new(),
    }
}

/// The pairs of a query as plain texts.
pub open spec fn pairs_view(pairs: Seq<(String, String)>) -> Seq<(Seq<char>, Seq<char>)> {
    pairs.map_values(|p: (String, String)| (p.0@, p.1@))
}

/// The text of the URL that the url crate builds from `base` with the query
/// `pairs` appended, `None` where `base` does not parse.
pub uninterp spec fn url_with_query(base: Seq<char>, pairs: Seq<(Seq<char>, Seq<char>)>) -> Option<Seq<char>>;

/// Whether `application/x-www-form-urlencoded` keeps a byte as it is:
/// ASCII letters and digits and `*`, `-`, `.`, `_`.
pub open spec fn form_unchanged(b: u8) -> bool {
    ||| b == 0x2a
    ||| b == 0x2d
    ||| b == 0x2e
    ||| (0x30 <= b && b <= 0x39)
    ||| (0x41 <= b && b <= 0x5a)
    ||| b == 0x5f
    ||| (0x61 <= b && b <= 0x7a)
}

/// The upper-case hexadecimal digit of a value below 16.
pub open spec fn upper_hex_digit(v: int) -> char {
    if v < 10 {
        ('0' as int + v) as char
    } else {
        ('A' as int + v - 10) as char
    }
}

/// How a byte is written in a form-encoded query: kept, a space as `+`, any
/// other byte as `%` and two upper-case hexadecimal digits.
pub open spec fn form_byte(b: u8) -> Seq<char> {
    if form_unchanged(b) {
        seq![(b as u32) as char]
    } else if b == 0x20 {
        seq!['+']
    } else {
        seq!['%', upper_hex_digit(b as int / 16), upper_hex_digit(b as int % 16)]
    }
}

/// The bytes written one after the other as `form_byte` says.
pub open spec fn form_bytes(bytes: Seq<u8>) -> Seq<char>
    decreases bytes.len(),
{
    if bytes.len() == 0 {
        Seq::empty()
    } else {
        form_byte(bytes[0]) + form_bytes(bytes.drop_first())
    }
}

/// A text as a form-encoded query writes it: its UTF-8 bytes, each written
/// as `form_byte` says.
pub open spec fn form_encode(s: Seq<char>) -> Seq<char> {
    form_bytes(vstd::utf8::encode_utf8(s))
}

/// The form-encoded query of a list of pairs: `name=value` for each pair,
/// separated by `&`.
pub open spec fn form_query(pairs: Seq<(Seq<char>, Seq<char>)>) -> Seq<char>
    decreases pairs.len(),
{
    if pairs.len() == 0 {
        Seq::empty()
    } else {
        let last = pairs.last();
        let pair = form_encode(last.0) + seq!['='] + form_encode(last.1);
        if pairs.len() == 1 {
            pair
        } else {
            form_query(pairs.drop_last()) + seq!['&'] + pair
        }
    }
}

/// Parses `base` as a URL and appends `pairs` to its query.
///
/// Calls `url::Url::parse_with_params`; the contract names the text of the
/// URL it gives by `url_with_query`, which depends on its arguments alone.
/// For the authorisation endpoint, an absolute URL that is already in the
/// url crate's serialised form and has no query or fragment, the source
/// shows the text exactly: the base, `?` (pushed by `query_pairs_mut`), and
/// the pairs as `form_urlencoded::Serializer::extend_pairs` appends them.
#[verifier::external_body]
fn parse_url_with_params(base: &str, pairs: &Vec<(String, String)>) -> (r: Option<String>)
    ensures
        r is Some <==> url_with_query(base@, pairs_view(pairs@)) is Some,
        r matches Some(u) ==> url_with_query(base@, pairs_view(pairs@)) == Some(u@),
        r is Some || base@ != AUTHORIZE_ENDPOINT@,
        r matches Some(u) ==> (base@ == AUTHORIZE_ENDPOINT@ ==> u@ == base@ + seq!['?'] + form_query(
            pairs_view(pairs@),
        )),
{
    url::Url::parse_with_params(base, pairs.iter()).ok().map(|u| u.as_str().to_string())
}

/// Whether a character is an ASCII character that form encoding keeps.
pub open spec fn is_form_plain_char(c: char) -> bool {
    (c as u32) < 0x80 && form_unchanged((c as u32) as u8)
}

/// A text of characters that form encoding keeps is written as it is.
pub proof fn lemma_form_encode_plain(s: Seq<char>)
    requires
        forall|i: int| 0 <= i < s.len() ==> is_form_plain_char(#[trigger] s[i]),
    ensures
        form_encode(s) == s,
    decreases s.len(),
{
    if s.len() > 0 {
        let rest = s.drop_first();
        assert forall|i: int| 0 <= i < rest.len() implies is_form_plain_char(#[trigger] rest[i]) by {
            assert(rest[i] == s[i + 1]);
        }
        lemma_form_encode_plain(rest);
        let c = s[0];
        assert(is_form_plain_char(s[0]));
        let x = c as u32;
        assert((x & 0x7f) == x) by (bit_vector)
            requires
                x < 0x80,
        ;
        let b = (x & 0x7f) as u8;
        assert(vstd::utf8::encode_scalar(x) == seq![b]);
        let bytes = vstd::utf8::encode_utf8(s);
        assert(bytes == seq![b] + vstd::utf8::encode_utf8(rest));
        assert(bytes[0] == b);
        assert(bytes.drop_first() =~= vstd::utf8::encode_utf8(rest));
        assert(b as int == x as int);
        assert(form_unchanged(b));
        assert(b as u32 == x);
        vstd::utf8::char_u32_cast(c, x);
        assert(form_byte(b) == seq![c]);
        assert(form_encode(s) == seq![c] + rest);
        assert(seq![c] + rest =~= s);
    }
}

fn append_str(s: &mut String, t: &str)
    ensures
        final(s)@ == old(s)@ + t@,
{
    s.append(t);
}

/// The body of a search request, given the JSON texts of the query and of the
/// searched title: `{"query":…,"variables":{"mediaType":"MANGA","search":…}}`.
pub open spec fn search_body(query_json: Seq<char>, search_json: Seq<char>) -> Seq<char> {
    "{\"query\":"@ + query_json + ",\"variables\":{\"mediaType\":\"MANGA\",\"search\":"@ + search_json
        + "}}"@
}

/// The JSON body that searches AniList for mangas titled `search`, as ureq
/// sends it (members in the order serde_json keeps them).
pub fn search_request_body(search: &str) -> (r: String)
    ensures
        r@ == search_body(json_string_text(SEARCH_QUERY@), json_string_text(search@)),
{
    let query = json_text(SEARCH_QUERY);
    let title = json_text(search);
    let mut body = to_owned_string("{\"query\":");
    append_str(&mut body, query.as_str());
    append_str(&mut body, ",\"variables\":{\"mediaType\":\"MANGA\",\"search\":");
    append_str(&mut body, title.as_str());
    append_str(&mut body, "}}");
    body
}

/// The body of a token request, given the JSON texts of its members.
pub open spec fn token_body(
    client_id: Seq<char>,
    client_secret: Seq<char>,
    code: Seq<char>,
    grant_type: Seq<char>,
    redirect_uri: Seq<char>,
) -> Seq<char> {
    "{\"client_id\":"@ + client_id + ",\"client_secret\":"@ + client_secret + ",\"code\":"@ + code
        + ",\"grant_type\":"@ + grant_type + ",\"redirect_uri\":"@ + redirect_uri + "}"@
}

/// The JSON body that trades an authorisation code for a token.
pub fn token_request_body(client_id: &str, client_secret: &str, code: &str) -> (r: String)
    ensures
        r@ == token_body(
            json_string_text(client_id@),
            json_string_text(client_secret@),
            json_string_text(code@),
            json_string_text("authorization_code"@),
            json_string_text(REDIRECT_URI@),
        ),
{
    let id = json_text(client_id);
    let secret = json_text(client_secret);
    let code_text = json_text(code);
    let grant = json_text("authorization_code");
    let redirect = json_text(REDIRECT_URI);
    let mut body = to_owned_string("{\"client_id\":");
    append_str(&mut body, id.as_str());
    append_str(&mut body, ",\"client_secret\":");
    append_str(&mut body, secret.as_str());
    append_str(&mut body, ",\"code\":");
    append_str(&mut body, code_text.as_str());
    append_str(&mut body, ",\"grant_type\":");
    append_str(&mut body, grant.as_str());
    append_str(&mut body, ",\"redirect_uri\":");
    append_str(&mut body, redirect.as_str());
    append_str(&mut body, "}");
    body
}

/// The query of the authorisation address for a client.
pub open spec fn authorize_pairs(client_id: Seq<char>) -> Seq<(Seq<char>, Seq<char>)> {
    seq![("client_id"@, client_id), ("response_type"@, "code"@)]
}

/// The address that asks the user to authorise the client `client_id`:
/// the endpoint with the query `client_id=…&response_type=code`, the id
/// form-encoded.
pub fn authorize_url(client_id: &str) -> (r: Option<String>)
    ensures
        r is Some <==> url_with_query(AUTHORIZE_ENDPOINT@, authorize_pairs(client_id@)) is Some,
        r matches Some(u) ==> url_with_query(AUTHORIZE_ENDPOINT@, authorize_pairs(client_id@)) == Some(u@),
        r is Some,
        r matches Some(u) ==> u@ == AUTHORIZE_ENDPOINT@ + "?client_id="@ + form_encode(client_id@)
            + "&response_type=code"@,
{
    let mut pairs: Vec<(String, String)> = Vec::new();
    pairs.push((to_owned_string("client_id"), to_owned_string(client_id)));
    pairs.push((to_owned_string("response_type"), to_owned_string("code")));
    assert(pairs_view(pairs@) =~= authorize_pairs(client_id@));
    proof {
        reveal_strlit("client_id");
        reveal_strlit("response_type");
        reveal_strlit("code");
        reveal_strlit("?client_id=");
        reveal_strlit("&response_type=code");
        let name = "client_id"@;
        let kind = "response_type"@;
        let code = "code"@;
        assert forall|i: int| 0 <= i < name.len() implies is_form_plain_char(#[trigger] name[i]) by {}
        assert forall|i: int| 0 <= i < kind.len() implies is_form_plain_char(#[trigger] kind[i]) by {}
        assert forall|i: int| 0 <= i < code.len() implies is_form_plain_char(#[trigger] code[i]) by {}
        lemma_form_encode_plain(name);
        lemma_form_encode_plain(kind);
        lemma_form_encode_plain(code);
        let ps = authorize_pairs(client_id@);
        assert(ps.drop_last() =~= seq![(name, client_id@)]);
        assert(form_query(ps) == form_query(ps.drop_last()) + seq!['&'] + (kind + seq!['='] + code));
        assert(form_query(ps.drop_last()) == name + seq!['='] + form_encode(client_id@));
        assert(seq!['?'] + form_query(ps) =~= "?client_id="@ + form_encode(client_id@)
            + "&response_type=code"@);
    }
    let r = parse_url_with_params(AUTHORIZE_ENDPOINT, &pairs);
    proof {
        if r is Some {
            assert(r->0@ =~= AUTHORIZE_ENDPOINT@ + "?client_id="@ + form_encode(client_id@)
                + "&response_type=code"@);
        }
    }
    r
}

/// Whether `c` has Unicode's White_Space property, as `char::is_whitespace`
/// documents it.
pub open spec fn is_white_space(c: char) -> bool {
    ||| ('\u{9}' <= c && c <= '\u{d}')
    ||| c == ' '
    ||| c == '\u{85}'
    ||| c == '\u{a0}'
    ||| c == '\u{1680}'
    ||| ('\u{2000}' <= c && c <= '\u{200a}')
    ||| c == '\u{2028}'
    ||| c == '\u{2029}'
    ||| c == '\u{202f}'
    ||| c == '\u{205f}'
    ||| c == '\u{3000}'
}

fn white_space(c: char) -> (r: bool)
    ensures
        r == is_white_space(c),
{
    ('\u{9}' <= c && c <= '\u{d}') || c == ' ' || c == '\u{85}' || c == '\u{a0}' || c == '\u{1680}'
        || ('\u{2000}' <= c && c <= '\u{200a}') || c == '\u{2028}' || c == '\u{2029}' || c == '\u{202f}'
        || c == '\u{205f}' || c == '\u{3000}'
}

/// Whether a word of `s` starts at index `i`.
pub open spec fn word_starts_at(s: Seq<char>, i: int) -> bool {
    0 <= i < s.len() && !is_white_space(s[i]) && (i == 0 || is_white_space(s[i - 1]))
}

/// How many words of `s` start before index `i`.
pub open spec fn words_before(s: Seq<char>, i: int) -> nat
    decreases i,
{
    if i <= 0 {
        0
    } else {
        words_before(s, i - 1) + if word_starts_at(s, i - 1) {
            1nat
        } else {
            0nat
        }
    }
}

/// Where the word that starts at `i` ends: at the next white space, or at
/// the end of `s`.
pub open spec fn word_end(s: Seq<char>, i: int) -> int
    decreases s.len() - i,
{
    if i < 0 || i >= s.len() || is_white_space(s[i]) {
        i
    } else {
        word_end(s, i + 1)
    }
}

/// The second whitespace-separated word of `s`, as
/// `s.split_whitespace().nth(1)` gives it.
pub open spec fn second_word(s: Seq<char>) -> Option<Seq<char>> {
    if exists|i: int| word_starts_at(s, i) && words_before(s, i) == 1 {
        let i = choose|i: int| word_starts_at(s, i) && words_before(s, i) == 1;
        Some(s.subrange(i, word_end(s, i)))
    } else {
        None
    }
}

/// What follows the first `=` of `w`, as `w.split_once('=')` gives its
/// second part.
pub open spec fn after_equals(w: Seq<char>) -> Option<Seq<char>> {
    match w.index_of_first('=') {
        Some(p) => Some(w.skip(p + 1)),
        None => None,
    }
}

/// The authorisation code in the request line that the browser sends back:
/// what follows the first `=` of the request's target.
pub open spec fn code_in_request_line(line: Seq<char>) -> Option<Seq<char>> {
    match second_word(line) {
        Some(w) => after_equals(w),
        None => None,
    }
}

proof fn lemma_words_before_grows(s: Seq<char>, i: int, j: int)
    requires
        0 <= i < j,
        word_starts_at(s, i),
    ensures
        words_before(s, j) >= words_before(s, i) + 1,
    decreases j - i,
{
    if j - 1 > i {
        lemma_words_before_grows(s, i, j - 1);
    }
}

proof fn lemma_word_end(s: Seq<char>, i: int, k: int)
    requires
        0 <= i <= k <= s.len(),
        forall|j: int| i <= j < k ==> !is_white_space(#[trigger] s[j]),
        k == s.len() || is_white_space(s[k]),
    ensures
        word_end(s, i) == k,
    decreases k - i,
{
    if i < k {
        lemma_word_end(s, i + 1, k);
    }
}

/// Reads the authorisation code from the request line that the browser sends
/// back (`GET /?code=… HTTP/1.1`): the text after the first `=` of the second
/// word. `None` when the line has no second word or that word has no `=`.
pub fn authorization_code(request_line: &str) -> (r: Option<String>)
    ensures
        r is Some <==> code_in_request_line(request_line@) is Some,
        r matches Some(c) ==> code_in_request_line(request_line@) == Some(c@),
{
    let ghost s = request_line@;
    let n = request_line.unicode_len();
    // Find the start of the second word.
    let mut i: usize = 0;
    let mut count: usize = 0;
    let mut prev_space = true;
    while i < n && !(count == 1 && prev_space && !white_space(request_line.get_char(i)))
        invariant
            n == s.len(),
            s == request_line@,
            i <= n,
            count == words_before(s, i as int),
            count <= 1,
            prev_space == (i == 0 || is_white_space(s[i - 1])),
            forall|j: int| 0 <= j < i ==> !(word_starts_at(s, j) && words_before(s, j) == 1),
        decreases n - i,
    {
        let c = request_line.get_char(i);
        if prev_space && !white_space(c) {
            count = count + 1;
        }
        prev_space = white_space(c);
        i = i + 1;
    }
    if i == n {
        return None;
    }
    let start = i;
    assert(word_starts_at(s, start as int) && words_before(s, start as int) == 1);
    proof {
        assert forall|j: int| word_starts_at(s, j) && words_before(s, j) == 1 implies j == start by {
            if j < start {
            } else if j > start {
                lemma_words_before_grows(s, start as int, j);
            }
        }
    }
    // Find its end.
    let mut k: usize = start;
    while k < n && !white_space(request_line.get_char(k))
        invariant
            n == s.len(),
            s == request_line@,
            start <= k <= n,
            forall|j: int| start <= j < k ==> !is_white_space(#[trigger] s[j]),
        decreases n - k,
    {
        k = k + 1;
    }
    proof {
        lemma_word_end(s, start as int, k as int);
    }
    let ghost w = s.subrange(start as int, k as int);
    assert(second_word(s) == Some(w));
    // Find the first '=' of the word.
    let mut p: usize = start;
    while p < k && request_line.get_char(p) != '='
        invariant
            n == s.len(),
            s == request_line@,
            start <= p <= k <= n,
            w == s.subrange(start as int, k as int),
            forall|j: int| start <= j < p ==> s[j] != '=',
        decreases k - p,
    {
        p = p + 1;
    }
    proof {
        w.index_of_first_ensures('=');
    }
    if p == k {
        proof {
            assert(!w.contains('=')) by {
                if w.contains('=') {
                    let j = choose|j: int| 0 <= j < w.len() && w[j] == '=';
                    assert(s[start + j] == '=');
                }
            }
        }
        return None;
    }
    proof {
        assert(w[p - start] == '=');
        assert(w.contains('='));
        let q = w.index_of_first('=')->0;
        if q < p - start {
            assert(s[start + q] == w[q]);
        }
        assert(q == p - start);
    }
    let code = request_line.substring_char(p + 1, k);
    assert(code@ =~= w.skip(p - start + 1));
    Some(to_owned_string(code))
}

/// `s` without the `"` characters at its start and at its end, as
/// `s.trim_matches('"')` gives it.
pub open spec fn trim_quotes(s: Seq<char>) -> Seq<char>
    decreases s.len(),
{
    if s.len() > 0 && s[0] == '"' {
        trim_quotes(s.drop_first())
    } else if s.len() > 0 && s.last() == '"' {
        trim_quotes(s.drop_last())
    } else {
        s
    }
}

/// What is left after trimming holds no `"` at either end, and trimming it
/// again changes nothing.
pub proof fn law_trim_quotes(s: Seq<char>)
    ensures
        trim_quotes(s).len() > 0 ==> trim_quotes(s)[0] != '"' && trim_quotes(s).last() != '"',
        trim_quotes(trim_quotes(s)) == trim_quotes(s),
        trim_quotes(s).len() <= s.len(),
    decreases s.len(),
{
    if s.len() > 0 && s[0] == '"' {
        law_trim_quotes(s.drop_first());
    } else if s.len() > 0 && s.last() == '"' {
        law_trim_quotes(s.drop_last());
    }
}

/// Removes the `"` characters at both ends of a text: the access token is the
/// JSON text of a string, and this leaves its content.
pub fn strip_quotes(s: &str) -> (r: String)
    ensures
        r@ == trim_quotes(s@),
{
    let n = s.unicode_len();
    let mut lo: usize = 0;
    let mut hi: usize = n;
    assert(s@.subrange(0, n as int) =~= s@);
    while lo < hi && s.get_char(lo) == '"'
        invariant
            n == s@.len(),
            lo <= hi == n,
            trim_quotes(s@) == trim_quotes(s@.subrange(lo as int, hi as int)),
        decreases hi - lo,
    {
        let ghost sub = s@.subrange(lo as int, hi as int);
        assert(sub.drop_first() =~= s@.subrange(lo + 1, hi as int));
        lo = lo + 1;
    }
    while lo < hi && s.get_char(hi - 1) == '"'
        invariant
            n == s@.len(),
            lo <= hi <= n,
            lo == hi || s@[lo as int] != '"',
            trim_quotes(s@) == trim_quotes(s@.subrange(lo as int, hi as int)),
        decreases hi - lo,
    {
        let ghost sub = s@.subrange(lo as int, hi as int);
        assert(sub.drop_last() =~= s@.subrange(lo as int, hi - 1));
        assert(sub[0] == s@[lo as int]);
        hi = hi - 1;
    }
    let ghost sub = s@.subrange(lo as int, hi as int);
    assert(sub.len() > 0 ==> sub[0] == s@[lo as int] && sub.last() == s@[hi - 1]);
    to_owned_string(s.substring_char(lo, hi))
}

/// The answer that the local server gives the browser: status 200 with
/// `msg` as its body; the length is that of `msg` in bytes.
pub open spec fn reply_text(msg: &str) -> Seq<char> {
    "HTTP/1.1 200 OK\r\ncontent-length:"@ + decimal_digits(msg.len() as nat) + "\r\n\r\n"@ + msg@
}

/// Writes the answer that the local server gives the browser once the code
/// has arrived; the length counts the bytes of `msg`.
pub fn oauth_reply(msg: &str) -> (r: String)
    ensures
        r@ == reply_text(msg),
{
    let len = msg.len();
    let mut out = to_owned_string("HTTP/1.1 200 OK\r\ncontent-length:");
    let digits = decimal_string(len as u64);
    append_str(&mut out, digits.as_str());
    append_str(&mut out, "\r\n\r\n");
    append_str(&mut out, msg);
    assert(out@ =~= reply_text(msg));
    out
}

} // verus!

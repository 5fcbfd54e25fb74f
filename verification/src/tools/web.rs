//! Fetching pages and searching the web.
use vstd::prelude::*;
use vstd::utf8::{
    decode_utf8, encode_utf8, encode_utf8_decode_utf8, encode_utf8_valid_utf8, is_ascii_chars,
    is_ascii_chars_encode_utf8, is_char_boundary, valid_utf8,
};

use crate::numbers::{dec, decimal};
use crate::patterns::{
    all_matches, find_all, group, group_text, match_views, replace_matches, with_replaced,
};
use crate::text::{
    after_prefix, before, begins, byte_len, bytes_in, cat, cat4, cat5, chars_of, find, first_match,
    from_utf8, has, join, joined, lemma_first_match, lemma_run_before, nothing_to_replace, opt,
    owned, pieces, replace, replaced, replacing_changes_occurrences_only, run_before, split,
    stands_at, starts_with, string_of, strip_prefix, texts, trim, trimmed,
};
use crate::value::{lemma_lookup_push, no_fields, Data, Fields, Json};

use super::{ResultView, ToolError, ToolResult};

verus! {

/// A text with the common HTML entities replaced by what they stand for, one
/// entity after the other.
pub open spec fn entities_decoded(s: Seq<char>) -> Seq<char> {
    let a = replaced(s, "&amp;"@, "&"@);
    let b = replaced(a, "&lt;"@, "<"@);
    let c = replaced(b, "&gt;"@, ">"@);
    let d = replaced(c, "&quot;"@, "\""@);
    let e = replaced(d, "&#x27;"@, "'"@);
    let f = replaced(e, "&#39;"@, "'"@);
    replaced(f, "&nbsp;"@, " "@)
}

/// A text with the common HTML entities replaced by what they stand for.
pub fn decode_entities(s: &str) -> (r: String)
    ensures
        r@ == entities_decoded(s@),
{
    proof {
        reveal_strlit("&amp;");
        reveal_strlit("&lt;");
        reveal_strlit("&gt;");
        reveal_strlit("&quot;");
        reveal_strlit("&#x27;");
        reveal_strlit("&#39;");
        reveal_strlit("&nbsp;");
    }
    let a = replace(s, "&amp;", "&");
    let b = replace(a.as_str(), "&lt;", "<");
    let c = replace(b.as_str(), "&gt;", ">");
    let d = replace(c.as_str(), "&quot;", "\"");
    let e = replace(d.as_str(), "&#x27;", "'");
    let f = replace(e.as_str(), "&#39;", "'");
    replace(f.as_str(), "&nbsp;", " ")
}

/// The text of a piece of HTML: tags become spaces, and entities what they stand
/// for.
pub open spec fn tags_stripped(s: Seq<char>) -> Seq<char> {
    entities_decoded(trimmed(with_replaced(r"<[^>]+>"@, s, " "@)))
}

/// The text of a piece of HTML.
pub fn strip_tags(s: &str) -> (r: String)
    ensures
        r@ == tags_stripped(s@),
{
    decode_entities(trim(replace_matches(r"<[^>]+>", s, " ").as_str()).as_str())
}

/// The value of a hexadecimal digit.
pub open spec fn hex_value(b: u8) -> Option<u8> {
    if 48 <= b <= 57 {
        Some((b - 48) as u8)
    } else if 65 <= b <= 70 {
        Some((b - 55) as u8)
    } else if 97 <= b <= 102 {
        Some((b - 87) as u8)
    } else {
        None
    }
}

/// The byte that two characters after a percent sign stand for. A plus sign may
/// stand before a single digit.
pub open spec fn escaped_byte(a: u8, b: u8) -> Option<u8> {
    if a == 43 {
        hex_value(b)
    } else {
        match (hex_value(a), hex_value(b)) {
            (Some(x), Some(y)) => Some((16 * x + y) as u8),
            _ => None,
        }
    }
}

/// What the bytes of an encoded text stand for, where its escapes are sound. A
/// percent sign with less than two bytes behind it stands for itself.
pub open spec fn unescaped(s: Seq<u8>) -> Option<Seq<u8>>
    decreases s.len(),
{
    if s.len() == 0 {
        Some(seq![])
    } else if s[0] == 37 && s.len() > 2 {
        match (escaped_byte(s[1], s[2]), unescaped(s.skip(3))) {
            (Some(b), Some(rest)) => Some(seq![b] + rest),
            _ => None,
        }
    } else {
        match unescaped(s.skip(1)) {
            Some(rest) => Some(
                seq![
                    if s[0] == 43 {
                        32u8
                    } else {
                        s[0]
                    },
                ] + rest,
            ),
            None => None,
        }
    }
}

/// What an encoded text stands for, where it stands for a text.
pub open spec fn url_decoded(s: Seq<char>) -> Option<Seq<char>> {
    match unescaped(encode_utf8(s)) {
        Some(b) => if valid_utf8(b) {
            Some(decode_utf8(b))
        } else {
            None
        },
        None => None,
    }
}

/// The value of a hexadecimal digit.
fn read_hex(b: u8) -> (r: Option<u8>)
    ensures
        r == hex_value(b),
{
    if 48 <= b && b <= 57 {
        Some(b - 48)
    } else if 65 <= b && b <= 70 {
        Some(b - 55)
    } else if 97 <= b && b <= 102 {
        Some(b - 87)
    } else {
        None
    }
}

/// The byte that two characters after a percent sign stand for.
fn read_escape(a: u8, b: u8) -> (r: Option<u8>)
    ensures
        r == escaped_byte(a, b),
{
    if a == 43 {
        return read_hex(b);
    }
    match (read_hex(a), read_hex(b)) {
        (Some(x), Some(y)) => Some(16 * x + y),
        _ => None,
    }
}

/// What the bytes of an encoded text stand for.
fn unescape(s: &[u8]) -> (r: Option<Vec<u8>>)
    ensures
        match unescaped(s@) {
            Some(b) => r is Some && r->0@ == b,
            None => r is None,
        },
{
    let mut out: Vec<u8> = Vec::new();
    let mut i: usize = 0;
    proof {
        assert(s@.skip(0) =~= s@);
        match unescaped(s@) {
            Some(b) => {
                assert(out@ + b =~= b);
            },
            None => {},
        }
    }
    while i < s.len()
        invariant
            i <= s@.len(),
            unescaped(s@) == (match unescaped(s@.skip(i as int)) {
                Some(rest) => Some(out@ + rest),
                None => None,
            }),
        decreases s@.len() - i,
    {
        let ghost rest = s@.skip(i as int);
        let ghost before = out@;
        proof {
            assert(rest[0] == s@[i as int]);
            assert(rest.skip(1) =~= s@.skip(i + 1));
        }
        if s[i] == 37 && s.len() - i > 2 {
            proof {
                assert(rest[1] == s@[i + 1] && rest[2] == s@[i + 2]);
                assert(rest.skip(3) =~= s@.skip(i + 3));
            }
            match read_escape(s[i + 1], s[i + 2]) {
                Some(b) => {
                    out.push(b);
                    proof {
                        match unescaped(rest.skip(3)) {
                            Some(t) => {
                                assert(before + (seq![b] + t) =~= out@ + t);
                            },
                            None => {},
                        }
                    }
                },
                None => {
                    return None;
                },
            }
            i = i + 3;
        } else {
            let b: u8 = if s[i] == 43 {
                32
            } else {
                s[i]
            };
            out.push(b);
            proof {
                match unescaped(rest.skip(1)) {
                    Some(t) => {
                        assert(before + (seq![b] + t) =~= out@ + t);
                    },
                    None => {},
                }
            }
            i = i + 1;
        }
    }
    proof {
        assert(s@.skip(i as int) =~= seq![]);
        assert(out@ + Seq::<u8>::empty() =~= out@);
    }
    Some(out)
}

/// What an encoded text stands for, where it stands for a text.
pub fn url_decode(s: &str) -> (r: Option<String>)
    ensures
        opt(r) == url_decoded(s@),
{
    match unescape(s.as_bytes()) {
        Some(bytes) => from_utf8(bytes),
        None => None,
    }
}

/// What an encoded text stands for, or the text itself where it stands for none.
pub open spec fn url_unescaped(s: Seq<char>) -> Seq<char> {
    match url_decoded(s) {
        Some(t) => t,
        None => s,
    }
}

/// What an encoded text stands for, or the text itself where it stands for none.
pub fn unescape_url(s: &str) -> (r: String)
    ensures
        r@ == url_unescaped(s@),
{
    match url_decode(s) {
        Some(t) => t,
        None => owned(s),
    }
}

/// Whether a byte stands for itself in an encoded text.
pub open spec fn is_unreserved(b: u8) -> bool {
    97 <= b <= 122 || 65 <= b <= 90 || 48 <= b <= 57 || b == 45 || b == 95 || b == 46 || b == 126
}

/// A hexadecimal digit, in upper case.
pub open spec fn upper_hex(d: int) -> char {
    if d < 10 {
        (48 + d) as u8 as char
    } else {
        (55 + d) as u8 as char
    }
}

/// A byte as it is encoded.
pub open spec fn encoded_byte(b: u8) -> Seq<char> {
    if is_unreserved(b) {
        seq![b as char]
    } else if b == 32 {
        seq!['+']
    } else {
        seq!['%', upper_hex(b as int / 16), upper_hex(b as int % 16)]
    }
}

/// Bytes as they are encoded.
pub open spec fn encoded_bytes(s: Seq<u8>) -> Seq<char>
    decreases s.len(),
{
    if s.len() == 0 {
        seq![]
    } else {
        encoded_bytes(s.drop_last()) + encoded_byte(s.last())
    }
}

/// A text as it is encoded for a query.
pub open spec fn url_encoded(s: Seq<char>) -> Seq<char> {
    encoded_bytes(encode_utf8(s))
}

/// A text as it is encoded for a query.
pub fn url_encode(query: &str) -> (r: String)
    ensures
        r@ == url_encoded(query@),
{
    let bytes = query.as_bytes();
    let ghost all = bytes@;
    let mut out = String::new();
    proof {
        assert(out@ =~= encoded_bytes(all.take(0)));
    }
    for i in 0..bytes.len()
        invariant
            all == bytes@,
            out@ == encoded_bytes(all.take(i as int)),
    {
        let ghost before = out@;
        let b: u8 = bytes[i];
        proof {
            assert(all.take(i + 1).drop_last() =~= all.take(i as int));
            assert(all.take(i + 1).last() == b);
        }
        if (97 <= b && b <= 122) || (65 <= b && b <= 90) || (48 <= b && b <= 57) || b == 45 || b
            == 95 || b == 46 || b == 126 {
            out.push(b as char);
        } else if b == 32 {
            out.push('+');
        } else {
            let high: u8 = b / 16;
            let low: u8 = b % 16;
            out.push('%');
            out.push(
                if high < 10 {
                    (48 + high) as char
                } else {
                    (55 + high) as char
                },
            );
            out.push(
                if low < 10 {
                    (48 + low) as char
                } else {
                    (55 + low) as char
                },
            );
        }
        proof {
            assert(out@ =~= before + encoded_byte(b));
        }
    }
    proof {
        assert(all.take(all.len() as int) =~= all);
    }
    out
}

/// The codes of characters.
pub open spec fn codes(s: Seq<char>) -> Seq<u8> {
    Seq::new(s.len(), |i: int| s[i] as u8)
}

/// What a byte is encoded as is ASCII, and stands for the byte, whatever follows.
proof fn lemma_encoded_byte(b: u8, rest: Seq<u8>)
    ensures
        is_ascii_chars(encoded_byte(b)),
        unescaped(codes(encoded_byte(b)) + rest) == (match unescaped(rest) {
            Some(t) => Some(seq![b] + t),
            None => None,
        }),
{
    let e = codes(encoded_byte(b));
    let s = e + rest;
    if is_unreserved(b) || b == 32 {
        assert(s.skip(1) =~= rest);
        assert(s[0] == e[0]);
    } else {
        let high = b as int / 16;
        let low = b as int % 16;
        assert(s[0] == 37);
        assert(s[1] == e[1] && s[2] == e[2]);
        assert(s.skip(3) =~= rest);
        assert(hex_value(s[1]) == Some(high as u8));
        assert(hex_value(s[2]) == Some(low as u8));
        assert(16 * high + low == b);
        assert(s[1] != 43);
    }
}

/// What bytes are encoded as is ASCII, and stands for the bytes, whatever follows.
proof fn lemma_encoded_bytes(s: Seq<u8>, rest: Seq<u8>)
    ensures
        is_ascii_chars(encoded_bytes(s)),
        unescaped(codes(encoded_bytes(s)) + rest) == (match unescaped(rest) {
            Some(t) => Some(s + t),
            None => None,
        }),
    decreases s.len(),
{
    if s.len() == 0 {
        assert(codes(encoded_bytes(s)) + rest =~= rest);
        match unescaped(rest) {
            Some(t) => {
                assert(s + t =~= t);
            },
            None => {},
        }
    } else {
        let head = s.drop_last();
        let e = encoded_byte(s.last());
        lemma_encoded_byte(s.last(), rest);
        lemma_encoded_bytes(head, codes(e) + rest);
        assert(codes(encoded_bytes(s)) + rest =~= codes(encoded_bytes(head)) + (codes(e) + rest));
        match unescaped(rest) {
            Some(t) => {
                assert(head + (seq![s.last()] + t) =~= s + t);
            },
            None => {},
        }
    }
}

/// A text that is encoded for a query decodes to itself.
pub proof fn encoded_texts_decode_back(s: Seq<char>)
    ensures
        url_decoded(url_encoded(s)) == Some(s),
{
    let bytes = encode_utf8(s);
    lemma_encoded_bytes(bytes, seq![]);
    let e = url_encoded(s);
    is_ascii_chars_encode_utf8(e);
    assert(encode_utf8(e) =~= codes(e) + Seq::<u8>::empty());
    assert(unescaped(Seq::<u8>::empty()) == Some(Seq::<u8>::empty()));
    assert(bytes + Seq::<u8>::empty() =~= bytes);
    encode_utf8_valid_utf8(s);
    encode_utf8_decode_utf8(s);
}

/// The address that the link of a search result means, without looking into it.
pub open spec fn absolute_link(href: Seq<char>) -> Seq<char> {
    match after_prefix(href, "//"@) {
        Some(rest) => "https://"@ + rest,
        None => if begins(href, "/"@) {
            "https://duckduckgo.com"@ + href
        } else {
            href
        },
    }
}

/// The address that the link of a search result leads to: the one that is encoded
/// in its parameter `uddg`, where it has one.
pub open spec fn result_link(href: Seq<char>) -> Seq<char> {
    let link = absolute_link(href);
    match first_match(link, "uddg="@) {
        Some(k) => url_unescaped(pieces(link.skip(k + 5), '&')[0]),
        None => link,
    }
}

/// The address that the link of a search result leads to.
pub fn resolve_ddg_url(href: &str) -> (r: String)
    ensures
        r@ == result_link(href@),
{
    let link = match strip_prefix(href, "//") {
        Some(rest) => cat("https://", rest.as_str()),
        None => if starts_with(href, "/") {
            cat("https://duckduckgo.com", href)
        } else {
            owned(href)
        },
    };
    let v = chars_of(link.as_str());
    let p = chars_of("uddg=");
    proof {
        reveal_strlit("uddg=");
        assert(p@.len() == 5);
    }
    match find(&v, &p) {
        Some(k) => {
            let total: usize = v.len();
            proof {
                assert(k + 5 <= total);
            }
            let encoded = string_of(&v, k + 5, v.len());
            proof {
                assert(encoded@ =~= link@.skip(k + 5));
            }
            let parts = split(encoded.as_str(), '&');
            proof {
                assert(texts(parts@)[0] == parts@[0]@);
            }
            unescape_url(parts[0].as_str())
        },
        None => link,
    }
}

/// The text of the first so many bytes of a text.
pub open spec fn first_bytes(s: Seq<char>, n: int) -> Seq<char> {
    decode_utf8(encode_utf8(s).take(n))
}

/// A page that was fetched, as a result. A page that is too long is cut off.
pub open spec fn fetch_result(
    url: Seq<char>,
    status: u16,
    success: bool,
    content_type: Seq<char>,
    body: Seq<char>,
    max: int,
) -> ResultView {
    let truncated = bytes_in(body) > max;
    ResultView {
        success,
        content: if truncated {
            first_bytes(body, max) + "...[truncated at "@ + dec(max as nat) + " chars]"@
        } else {
            body
        },
        metadata: Some(
            Json::Table(
                no_fields().push(("url"@, Json::Str(url))).push(
                    ("status"@, Json::Num(status as int)),
                ).push(("content_type"@, Json::Str(content_type))).push(
                    ("body_length"@, Json::Num(bytes_in(body) as int)),
                ).push(("truncated"@, Json::Bool(truncated))),
            ),
        ),
    }
}

/// How much of a page is shown.
pub open spec fn fetch_limit(input: Json) -> int {
    match input.at("max_length"@).uint() {
        Some(n) => n,
        None => 50000,
    }
}

/// How many results of a search are shown.
pub open spec fn search_limit(input: Json) -> int {
    match input.at("max_results"@).uint() {
        Some(n) => if n < 20 {
            n
        } else {
            20
        },
        None => 8,
    }
}

/// The address of a search.
pub open spec fn search_address(query: Seq<char>) -> Seq<char> {
    "https://html.duckduckgo.com/html/?q="@ + url_encoded(query)
}

/// A page that is to be fetched.
#[derive(Debug)]
pub struct FetchPlan {
    pub url: String,
    pub max_length: u64,
}

/// Fetches a page.
pub struct WebFetchTool;

impl WebFetchTool {
    /// The page that is fetched, and how much of it is shown: fifty thousand bytes
    /// where nothing is given.
    pub fn plan(input: &Data) -> (r: Result<FetchPlan, ToolError>)
        ensures
            match input@.at("url"@).text() {
                Some(url) => r matches Ok(p) && p.url@ == url && p.max_length == (match input@.at(
                    "max_length"@,
                ).uint() {
                    Some(n) => n,
                    None => 50000,
                }) && p.max_length == fetch_limit(input@),
                None => r matches Err(e) && e.message@ == "Missing 'url' parameter"@,
            },
    {
        match input.str_at("url") {
            Some(url) => Ok(
                FetchPlan {
                    url: owned(url),
                    max_length: match input.u64_at("max_length") {
                        Some(n) => n,
                        None => 50000,
                    },
                },
            ),
            None => Err(ToolError::new("Missing 'url' parameter")),
        }
    }

    /// Whether a page can be cut off at the length that is wanted: that is so
    /// where it is short enough, or where no character stands across the cut.
    pub fn can_cut(plan: &FetchPlan, body: &str) -> (r: bool)
        ensures
            r == (bytes_in(body@) > plan.max_length ==> is_char_boundary(
                encode_utf8(body@),
                plan.max_length as int,
            )),
    {
        let length = byte_len(body);
        length as u64 <= plan.max_length || body.is_char_boundary(plan.max_length as usize)
    }

    /// The result for a page that was fetched.
    pub fn finish(
        plan: &FetchPlan,
        status: u16,
        success: bool,
        content_type: &str,
        body: String,
    ) -> (r: ToolResult)
        requires
            bytes_in(body@) > plan.max_length ==> is_char_boundary(
                encode_utf8(body@),
                plan.max_length as int,
            ),
        ensures
            r@ == fetch_result(
                plan.url@,
                status,
                success,
                content_type@,
                body@,
                plan.max_length as int,
            ),
    {
        let length = byte_len(body.as_str());
        let truncated = length as u64 > plan.max_length;
        let content = if truncated {
            let ghost whole = body@;
            let (first, rest) = body.as_str().split_at(plan.max_length as usize);
            proof {
                encode_utf8_decode_utf8(first@);
                assert(encode_utf8(first@) =~= encode_utf8(whole).take(plan.max_length as int));
            }
            cat4(
                first,
                "...[truncated at ",
                decimal(plan.max_length).as_str(),
                " chars]",
            )
        } else {
            body
        };
        let mut f = Fields::new();
        f.put_str("url", plan.url.as_str());
        f.put_uint("status", status as u64);
        f.put_str("content_type", content_type);
        f.put_uint("body_length", length as u64);
        f.put_bool("truncated", truncated);
        ToolResult { success, content, metadata: Some(f.done()) }
    }
}

/// A result of a search: the link and the title.
pub struct HitView {
    pub href: Seq<char>,
    pub title: Seq<char>,
}

/// A result of a search: the link and the title.
#[derive(Debug)]
pub struct SearchHit {
    pub href: String,
    pub title: String,
}

impl View for SearchHit {
    type V = HitView;

    open spec fn view(&self) -> HitView {
        HitView { href: self.href@, title: self.title@ }
    }
}

/// What a list of results says.
pub open spec fn hit_views(v: Seq<SearchHit>) -> Seq<HitView> {
    Seq::new(v.len(), |i: int| v[i]@)
}

/// The lines for the first results: a numbered line with title and address, and a
/// line with the snippet of the same number where there is one that is not empty.
pub open spec fn hit_lines(hits: Seq<HitView>, snippets: Seq<Seq<char>>) -> Seq<Seq<char>>
    decreases hits.len(),
{
    if hits.len() == 0 {
        seq![]
    } else {
        let i = hits.len() - 1;
        let rows = hit_lines(hits.drop_last(), snippets).push(
            dec((i + 1) as nat) + ". "@ + hits.last().title + " - "@ + result_link(
                hits.last().href,
            ),
        );
        if i < snippets.len() && snippets[i].len() > 0 {
            rows.push("   "@ + snippets[i])
        } else {
            rows
        }
    }
}

/// What a search found, as a result.
pub open spec fn search_result(
    query: Seq<char>,
    hits: Seq<HitView>,
    snippets: Seq<Seq<char>>,
) -> ResultView {
    ResultView {
        success: hits.len() > 0,
        content: if hits.len() == 0 {
            "No results for: "@ + query
        } else {
            joined(hit_lines(hits, snippets), "\n"@)
        },
        metadata: Some(
            Json::Table(
                no_fields().push(("query"@, Json::Str(query))).push(
                    ("count"@, Json::Num(hits.len() as int)),
                ),
            ),
        ),
    }
}

/// The results in what was found in a page, the first so many of them.
pub open spec fn hits_in(found: Seq<Seq<Option<Seq<char>>>>, max: int) -> Seq<HitView> {
    Seq::new(
        if found.len() <= max {
            found.len()
        } else {
            max as nat
        },
        |i: int| HitView { href: group(found[i], 1), title: tags_stripped(group(found[i], 2)) },
    )
}

/// The snippets in what was found in a page, the first so many of them.
pub open spec fn snippets_in(found: Seq<Seq<Option<Seq<char>>>>, max: int) -> Seq<Seq<char>> {
    Seq::new(
        if found.len() <= max {
            found.len()
        } else {
            max as nat
        },
        |i: int| tags_stripped(group(found[i], 1)),
    )
}

/// A search of the web.
#[derive(Debug)]
pub struct SearchPlan {
    pub query: String,
    pub max_results: usize,
    pub url: String,
}

/// Searches the web.
pub struct WebSearchTool;

impl WebSearchTool {
    /// What is searched for: up to eight results where nothing is given, and
    /// twenty at most.
    pub fn plan(input: &Data) -> (r: Result<SearchPlan, ToolError>)
        ensures
            match input@.at("query"@).text() {
                Some(query) => r matches Ok(p) && {
                    &&& p.query@ == query
                    &&& p.max_results == (match input@.at("max_results"@).uint() {
                        Some(n) => if n < 20 {
                            n
                        } else {
                            20
                        },
                        None => 8,
                    })
                    &&& p.url@ == "https://html.duckduckgo.com/html/?q="@ + url_encoded(query)
                    &&& p.url@ == search_address(query)
                    &&& p.max_results == search_limit(input@)
                },
                None => r matches Err(e) && e.message@ == "Missing 'query' parameter"@,
            },
    {
        match input.str_at("query") {
            Some(query) => Ok(
                SearchPlan {
                    query: owned(query),
                    max_results: match input.u64_at("max_results") {
                        Some(n) => if n < 20 {
                            n as usize
                        } else {
                            20
                        },
                        None => 8,
                    },
                    url: cat("https://html.duckduckgo.com/html/?q=", url_encode(query).as_str()),
                },
            ),
            None => Err(ToolError::new("Missing 'query' parameter")),
        }
    }

    /// The result where the search service failed.
    pub fn failed(status: u16) -> (r: ToolResult)
        ensures
            r@ == (ResultView {
                success: false,
                content: "Search backend returned HTTP "@ + dec(status as nat),
                metadata: Some(Json::Table(no_fields().push(("status"@, Json::Num(status as int))))),
            }),
    {
        let mut f = Fields::new();
        f.put_uint("status", status as u64);
        ToolResult {
            success: false,
            content: cat("Search backend returned HTTP ", decimal(status as u64).as_str()),
            metadata: Some(f.done()),
        }
    }

    /// The result for links, titles and snippets.
    pub fn report(query: &str, hits: &Vec<SearchHit>, snippets: &Vec<String>) -> (r: ToolResult)
        ensures
            r@ == search_result(query@, hit_views(hits@), texts(snippets@)),
    {
        let ghost all = hit_views(hits@);
        let ghost texts_of = texts(snippets@);
        let mut rows: Vec<String> = Vec::new();
        proof {
            assert(texts(rows@) =~= hit_lines(all.take(0), texts_of));
        }
        for i in 0..hits.len()
            invariant
                all == hit_views(hits@),
                texts_of == texts(snippets@),
                texts(rows@) == hit_lines(all.take(i as int), texts_of),
        {
            let ghost before = texts(rows@);
            proof {
                assert(all.take(i + 1).drop_last() =~= all.take(i as int));
                assert(all.take(i + 1).last() == hits@[i as int]@);
            }
            let row = cat5(
                decimal((i + 1) as u64).as_str(),
                ". ",
                hits[i].title.as_str(),
                " - ",
                resolve_ddg_url(hits[i].href.as_str()).as_str(),
            );
            rows.push(row);
            proof {
                assert(texts(rows@) =~= before.push(row@));
            }
            if i < snippets.len() {
                proof {
                    assert(texts_of[i as int] == snippets@[i as int]@);
                }
                if !snippets[i].as_str().is_empty() {
                    let ghost now = texts(rows@);
                    let line = cat("   ", snippets[i].as_str());
                    rows.push(line);
                    proof {
                        assert(texts(rows@) =~= now.push(line@));
                    }
                }
            }
        }
        proof {
            assert(all.take(all.len() as int) =~= all);
        }
        let content = if hits.len() == 0 {
            cat("No results for: ", query)
        } else {
            join(&rows, "\n")
        };
        let mut f = Fields::new();
        f.put_str("query", query);
        f.put_uint("count", hits.len() as u64);
        ToolResult { success: hits.len() > 0, content, metadata: Some(f.done()) }
    }

    /// The result for the page that the search service answered with.
    pub fn finish(plan: &SearchPlan, body: &str) -> (r: ToolResult)
        ensures
            r@ == search_result(
                plan.query@,
                hits_in(
                    all_matches(
                        r#"<a[^>]*class="result__a"[^>]*href="([^"]+)"[^>]*>(.*?)</a>"#@,
                        body@,
                    ),
                    plan.max_results as int,
                ),
                snippets_in(
                    all_matches(r#"<a[^>]*class="result__snippet"[^>]*>(.*?)</a>"#@, body@),
                    plan.max_results as int,
                ),
            ),
    {
        let titles = find_all(
            r#"<a[^>]*class="result__a"[^>]*href="([^"]+)"[^>]*>(.*?)</a>"#,
            body,
        );
        let ghost found = match_views(titles@);
        let mut hits: Vec<SearchHit> = Vec::new();
        let mut i: usize = 0;
        while i < titles.len() && i < plan.max_results
            invariant
                i <= titles@.len(),
                i <= plan.max_results,
                found == match_views(titles@),
                hits@.len() == i,
                forall|j: int|
                    0 <= j < i ==> #[trigger] hits@[j]@ == (HitView {
                        href: group(found[j], 1),
                        title: tags_stripped(group(found[j], 2)),
                    }),
            decreases titles@.len() - i,
        {
            proof {
                assert(found[i as int] == crate::patterns::group_views(titles@[i as int]@));
            }
            hits.push(
                SearchHit {
                    href: group_text(&titles[i], 1),
                    title: strip_tags(group_text(&titles[i], 2).as_str()),
                },
            );
            i = i + 1;
        }
        proof {
            assert(hit_views(hits@) =~= hits_in(found, plan.max_results as int));
        }
        let notes = find_all(r#"<a[^>]*class="result__snippet"[^>]*>(.*?)</a>"#, body);
        let ghost noted = match_views(notes@);
        let mut snippets: Vec<String> = Vec::new();
        let mut k: usize = 0;
        while k < notes.len() && k < plan.max_results
            invariant
                k <= notes@.len(),
                k <= plan.max_results,
                noted == match_views(notes@),
                snippets@.len() == k,
                forall|j: int|
                    0 <= j < k ==> #[trigger] snippets@[j]@ == tags_stripped(group(noted[j], 1)),
            decreases notes@.len() - k,
        {
            proof {
                assert(noted[k as int] == crate::patterns::group_views(notes@[k as int]@));
            }
            snippets.push(strip_tags(group_text(&notes[k], 1).as_str()));
            k = k + 1;
        }
        proof {
            assert(texts(snippets@) =~= snippets_in(noted, plan.max_results as int));
        }
        Self::report(plan.query.as_str(), &hits, &snippets)
    }
}

/// The names of what is said of pages and searches differ.
proof fn lemma_web_names()
    ensures
        "url"@ != "status"@,
        "url"@ != "content_type"@,
        "url"@ != "body_length"@,
        "url"@ != "truncated"@,
        "url"@ != "query"@,
        "url"@ != "count"@,
        "status"@ != "content_type"@,
        "status"@ != "body_length"@,
        "status"@ != "truncated"@,
        "status"@ != "query"@,
        "status"@ != "count"@,
        "content_type"@ != "body_length"@,
        "content_type"@ != "truncated"@,
        "content_type"@ != "query"@,
        "content_type"@ != "count"@,
        "body_length"@ != "truncated"@,
        "body_length"@ != "query"@,
        "body_length"@ != "count"@,
        "truncated"@ != "query"@,
        "truncated"@ != "count"@,
        "query"@ != "count"@,
{
    reveal_strlit("url");
    reveal_strlit("status");
    reveal_strlit("content_type");
    reveal_strlit("body_length");
    reveal_strlit("truncated");
    reveal_strlit("query");
    reveal_strlit("count");
    assert("url"@.len() == 3);
    assert("status"@.len() == 6);
    assert("content_type"@.len() == 12);
    assert("body_length"@.len() == 11);
    assert("truncated"@.len() == 9);
    assert("query"@.len() == 5);
    assert("count"@.len() == 5);
    assert("query"@[0] == 'q' && "count"@[0] == 'c');
}


/// A fetch shows fifty thousand bytes unless another number is given; a search shows
/// eight results unless another number is given, and twenty at most. It asks for just
/// what is searched for.
pub proof fn limits_are_as_asked(input: Json, query: Seq<char>)
    ensures
        !(input.at("max_length"@) is Num) ==> fetch_limit(input) == 50000,
        input.at("max_length"@) matches Json::Num(n) && 0 <= n <= u64::MAX ==> fetch_limit(input)
            == input.at("max_length"@)->Num_0,
        !(input.at("max_results"@) is Num) ==> search_limit(input) == 8,
        input.at("max_results"@) matches Json::Num(n) && 0 <= n <= 20 ==> search_limit(input)
            == input.at("max_results"@)->Num_0,
        search_limit(input) <= 20,
        after_prefix(search_address(query), "https://html.duckduckgo.com/html/?q="@) matches Some(
            asked,
        ) && url_decoded(asked) == Some(query),
{
    let front = "https://html.duckduckgo.com/html/?q="@;
    let whole = search_address(query);
    assert(whole.subrange(0, front.len() as int) =~= front);
    assert(whole.skip(front.len() as int) =~= url_encoded(query));
    encoded_texts_decode_back(query);
}

/// A page is shown whole where it is short enough; else its first bytes are shown, and it
/// is said that it was cut off. What is said of the page is true of it.
pub proof fn pages_are_shown(
    url: Seq<char>,
    status: u16,
    success: bool,
    content_type: Seq<char>,
    body: Seq<char>,
    max: int,
)
    ensures
        ({
            let r = fetch_result(url, status, success, content_type, body, max);
            &&& r.success == success
            &&& bytes_in(body) <= max ==> r.content == body
            &&& bytes_in(body) > max ==> begins(r.content, decode_utf8(encode_utf8(body).take(max)))
            &&& r.metadata matches Some(m) && m.at("url"@) == Json::Str(url) && m.at("status"@)
                == Json::Num(status as int) && m.at("content_type"@) == Json::Str(content_type)
                && m.at("body_length"@) == Json::Num(bytes_in(body) as int) && m.at("truncated"@)
                == Json::Bool(bytes_in(body) > max)
        }),
{
    broadcast use lemma_lookup_push;

    lemma_web_names();
    let r = fetch_result(url, status, success, content_type, body, max);
    if bytes_in(body) > max {
        let shown = decode_utf8(encode_utf8(body).take(max));
        assert(r.content.subrange(0, shown.len() as int) =~= shown);
    }
}

/// A byte that is encoded is one character that stands for itself, a plus sign, or a
/// percent sign and two digits; none of them ends a parameter.
proof fn lemma_no_ampersand(s: Seq<u8>)
    ensures
        !encoded_bytes(s).contains('&'),
    decreases s.len(),
{
    if s.len() > 0 {
        lemma_no_ampersand(s.drop_last());
        let b = s.last();
        let e = encoded_byte(b);
        assert(!e.contains('&')) by {
            if e.contains('&') {
                let i = choose|i: int| 0 <= i < e.len() && e[i] == '&';
                assert(e[i] as u32 == 38);
                if is_unreserved(b) {
                    assert(e[0] as u32 == b as u32);
                } else if b != 32 {
                    let x = b as int / 16;
                    let y = b as int % 16;
                    assert(upper_hex(x) as u32 >= 48);
                    assert(upper_hex(y) as u32 >= 48);
                }
            }
        }
        let all = encoded_bytes(s);
        let front = encoded_bytes(s.drop_last());
        if all.contains('&') {
            let i = choose|i: int| 0 <= i < all.len() && all[i] == '&';
            if i < front.len() {
                assert(front[i] == '&');
            } else {
                assert(e[i - front.len()] == '&');
            }
        }
    }
}

/// The link of a result leads to the address that is encoded in its parameter `uddg`,
/// whatever stands before and behind it; a link without that parameter leads to where it
/// points.
pub proof fn links_lead_to_their_target(
    front: Seq<char>,
    target: Seq<char>,
    tail: Seq<char>,
    href: Seq<char>,
)
    requires
        tail.len() > 0 ==> tail[0] == '&',
        absolute_link(href) == front + "uddg="@ + url_encoded(target) + tail,
        forall|k: int| 0 <= k < front.len() ==> !#[trigger] stands_at(absolute_link(href), "uddg="@, k),
    ensures
        result_link(href) == target,
{
    reveal_strlit("uddg=");
    let link = absolute_link(href);
    let p = "uddg="@;
    let n = front.len() as int;
    assert(p.len() == 5);
    assert(link.subrange(n, n + 5) =~= p);
    assert(stands_at(link, p, n));
    lemma_first_match(link, p);
    let k = first_match(link, p)->0;
    assert(k == n);
    let rest = link.skip(k + 5);
    let code = url_encoded(target);
    assert(rest =~= code + tail);
    lemma_no_ampersand(encode_utf8(target));
    lemma_run_before(rest, '&');
    let m = run_before(rest, '&');
    if m < code.len() {
        assert(rest[m] == code[m]);
    }
    if tail.len() > 0 {
        assert(rest[code.len() as int] == '&');
    }
    assert(m == code.len());
    assert(rest.take(m) =~= code);
    assert(pieces(rest, '&')[0] =~= code);
    encoded_texts_decode_back(target);
}

/// A link without a scheme leads to a host, one that begins with a slash to a page of
/// the search service, and any other where it says; and where no address is encoded in
/// it, that is where it leads.
pub proof fn plain_links_are_completed(rest: Seq<char>, href: Seq<char>)
    ensures
        absolute_link("//"@ + rest) == "https://"@ + rest,
        href.len() > 0 && href[0] == '/' && (href.len() < 2 || href[1] != '/') ==> absolute_link(
            href,
        ) == "https://duckduckgo.com"@ + href,
        href.len() == 0 || href[0] != '/' ==> absolute_link(href) == href,
        has(absolute_link(href), "uddg="@) == false ==> result_link(href) == absolute_link(href),
{
    reveal_strlit("//");
    reveal_strlit("/");
    let two = "//"@ + rest;
    assert(two.subrange(0, 2) =~= "//"@);
    assert(two.skip(2) =~= rest);
    if begins(href, "//"@) {
        assert(href.subrange(0, 2)[0] == '/' && href.subrange(0, 2)[1] == '/');
        assert(href[0] == '/' && href[1] == '/');
    }
    if begins(href, "/"@) {
        assert(href.subrange(0, 1)[0] == '/');
    }
    if href.len() > 0 && href[0] == '/' {
        assert(href.subrange(0, 1) =~= "/"@);
    }
    lemma_first_match(absolute_link(href), "uddg="@);
}

/// Every result is shown in a line with its number, its title and where it leads, and
/// its snippet, where it has one, in a line behind that.
pub proof fn results_are_shown(hits: Seq<HitView>, hit: HitView, snippets: Seq<Seq<char>>)
    ensures
        hit_lines(seq![], snippets).len() == 0,
        ({
            let before = hit_lines(hits, snippets);
            let after = hit_lines(hits.push(hit), snippets);
            let line = dec((hits.len() + 1) as nat) + ". "@ + hit.title + " - "@ + result_link(
                hit.href,
            );
            if hits.len() < snippets.len() && snippets[hits.len() as int].len() > 0 {
                after == before.push(line).push("   "@ + snippets[hits.len() as int])
            } else {
                after == before.push(line)
            }
        }),
{
    assert(hits.push(hit).drop_last() =~= hits);
}

/// A search is a success exactly where it found something, and says what was searched
/// for and how much was found.
pub proof fn searches_are_reported(
    query: Seq<char>,
    hits: Seq<HitView>,
    snippets: Seq<Seq<char>>,
)
    ensures
        ({
            let r = search_result(query, hits, snippets);
            &&& r.success == (hits.len() > 0)
            &&& hits.len() == 0 ==> r.content == "No results for: "@ + query
            &&& hits.len() > 0 ==> r.content == joined(hit_lines(hits, snippets), "\n"@)
            &&& r.metadata matches Some(m) && m.at("query"@) == Json::Str(query) && m.at("count"@)
                == Json::Num(hits.len() as int)
        }),
{
    broadcast use lemma_lookup_push;

    lemma_web_names();
}

/// The first results in a page are taken, no more than so many: each with its link and
/// with its title and snippet as plain texts.
pub proof fn results_are_taken_in_order(found: Seq<Seq<Option<Seq<char>>>>, max: int, i: int)
    requires
        max >= 0,
    ensures
        found.len() <= max ==> hits_in(found, max).len() == found.len() && snippets_in(
            found,
            max,
        ).len() == found.len(),
        found.len() > max ==> hits_in(found, max).len() == max && snippets_in(found, max).len()
            == max,
        0 <= i < hits_in(found, max).len() ==> hits_in(found, max)[i].href == group(found[i], 1)
            && hits_in(found, max)[i].title == tags_stripped(group(found[i], 2)) && snippets_in(
            found,
            max,
        )[i] == tags_stripped(group(found[i], 1)),
{
}

/// Each of the common entities is replaced by what it stands for, and a text without
/// entities stays as it is.
pub proof fn entities_stand_for_their_sign(a: Seq<char>, b: Seq<char>)
    requires
        !a.contains('&'),
        !b.contains('&'),
        !b.contains(';'),
    ensures
        entities_decoded(a) == a,
        entities_decoded(a + "&amp;"@ + b) == a + "&"@ + b,
        entities_decoded(a + "&lt;"@ + b) == a + "<"@ + b,
        entities_decoded(a + "&gt;"@ + b) == a + ">"@ + b,
        entities_decoded(a + "&quot;"@ + b) == a + "\""@ + b,
        entities_decoded(a + "&#x27;"@ + b) == a + "'"@ + b,
        entities_decoded(a + "&#39;"@ + b) == a + "'"@ + b,
        entities_decoded(a + "&nbsp;"@ + b) == a + " "@ + b,
{
    reveal_strlit("&amp;");
    reveal_strlit("&lt;");
    reveal_strlit("&gt;");
    reveal_strlit("&quot;");
    reveal_strlit("&#x27;");
    reveal_strlit("&#39;");
    reveal_strlit("&nbsp;");
    reveal_strlit("&");
    reveal_strlit("<");
    reveal_strlit(">");
    reveal_strlit("\"");
    reveal_strlit("'");
    reveal_strlit(" ");
    lemma_plain(a, "&amp;"@, "&"@);
    lemma_plain(a, "&lt;"@, "<"@);
    lemma_plain(a, "&gt;"@, ">"@);
    lemma_plain(a, "&quot;"@, "\""@);
    lemma_plain(a, "&#x27;"@, "'"@);
    lemma_plain(a, "&#39;"@, "'"@);
    lemma_plain(a, "&nbsp;"@, " "@);
    assert(entities_decoded(a + "&amp;"@ + b) == a + "&"@ + b) by {
        lemma_entity(a, "&amp;"@, "&"@, b);
        lemma_after_entity(a, "&"@, b, "&lt;"@, "<"@);
        lemma_after_entity(a, "&"@, b, "&gt;"@, ">"@);
        lemma_after_entity(a, "&"@, b, "&quot;"@, "\""@);
        lemma_after_entity(a, "&"@, b, "&#x27;"@, "'"@);
        lemma_after_entity(a, "&"@, b, "&#39;"@, "'"@);
        lemma_after_entity(a, "&"@, b, "&nbsp;"@, " "@);
    }
    assert(entities_decoded(a + "&lt;"@ + b) == a + "<"@ + b) by {
        lemma_other_entity(a, "&lt;"@, b, "&amp;"@, "&"@);
        lemma_entity(a, "&lt;"@, "<"@, b);
        lemma_after_entity(a, "<"@, b, "&gt;"@, ">"@);
        lemma_after_entity(a, "<"@, b, "&quot;"@, "\""@);
        lemma_after_entity(a, "<"@, b, "&#x27;"@, "'"@);
        lemma_after_entity(a, "<"@, b, "&#39;"@, "'"@);
        lemma_after_entity(a, "<"@, b, "&nbsp;"@, " "@);
    }
    assert(entities_decoded(a + "&gt;"@ + b) == a + ">"@ + b) by {
        lemma_other_entity(a, "&gt;"@, b, "&amp;"@, "&"@);
        lemma_other_entity(a, "&gt;"@, b, "&lt;"@, "<"@);
        lemma_entity(a, "&gt;"@, ">"@, b);
        lemma_after_entity(a, ">"@, b, "&quot;"@, "\""@);
        lemma_after_entity(a, ">"@, b, "&#x27;"@, "'"@);
        lemma_after_entity(a, ">"@, b, "&#39;"@, "'"@);
        lemma_after_entity(a, ">"@, b, "&nbsp;"@, " "@);
    }
    assert(entities_decoded(a + "&quot;"@ + b) == a + "\""@ + b) by {
        lemma_other_entity(a, "&quot;"@, b, "&amp;"@, "&"@);
        lemma_other_entity(a, "&quot;"@, b, "&lt;"@, "<"@);
        lemma_other_entity(a, "&quot;"@, b, "&gt;"@, ">"@);
        lemma_entity(a, "&quot;"@, "\""@, b);
        lemma_after_entity(a, "\""@, b, "&#x27;"@, "'"@);
        lemma_after_entity(a, "\""@, b, "&#39;"@, "'"@);
        lemma_after_entity(a, "\""@, b, "&nbsp;"@, " "@);
    }
    assert(entities_decoded(a + "&#x27;"@ + b) == a + "'"@ + b) by {
        lemma_other_entity(a, "&#x27;"@, b, "&amp;"@, "&"@);
        lemma_other_entity(a, "&#x27;"@, b, "&lt;"@, "<"@);
        lemma_other_entity(a, "&#x27;"@, b, "&gt;"@, ">"@);
        lemma_other_entity(a, "&#x27;"@, b, "&quot;"@, "\""@);
        lemma_entity(a, "&#x27;"@, "'"@, b);
        lemma_after_entity(a, "'"@, b, "&#39;"@, "'"@);
        lemma_after_entity(a, "'"@, b, "&nbsp;"@, " "@);
    }
    assert(entities_decoded(a + "&#39;"@ + b) == a + "'"@ + b) by {
        lemma_other_entity(a, "&#39;"@, b, "&amp;"@, "&"@);
        lemma_other_entity(a, "&#39;"@, b, "&lt;"@, "<"@);
        lemma_other_entity(a, "&#39;"@, b, "&gt;"@, ">"@);
        lemma_other_entity(a, "&#39;"@, b, "&quot;"@, "\""@);
        lemma_other_entity(a, "&#39;"@, b, "&#x27;"@, "'"@);
        lemma_entity(a, "&#39;"@, "'"@, b);
        lemma_after_entity(a, "'"@, b, "&nbsp;"@, " "@);
    }
    assert(entities_decoded(a + "&nbsp;"@ + b) == a + " "@ + b) by {
        lemma_other_entity(a, "&nbsp;"@, b, "&amp;"@, "&"@);
        lemma_other_entity(a, "&nbsp;"@, b, "&lt;"@, "<"@);
        lemma_other_entity(a, "&nbsp;"@, b, "&gt;"@, ">"@);
        lemma_other_entity(a, "&nbsp;"@, b, "&quot;"@, "\""@);
        lemma_other_entity(a, "&nbsp;"@, b, "&#x27;"@, "'"@);
        lemma_other_entity(a, "&nbsp;"@, b, "&#39;"@, "'"@);
        lemma_entity(a, "&nbsp;"@, " "@, b);
    }
}

/// A text without an ampersand has no entity in it.
proof fn lemma_plain(s: Seq<char>, f: Seq<char>, y: Seq<char>)
    requires
        !s.contains('&'),
        f.len() > 0,
        f[0] == '&',
    ensures
        replaced(s, f, y) == s,
{
    assert(has(s, f) == false) by {
        if has(s, f) {
            let k = choose|k: int| #[trigger] stands_at(s, f, k);
            assert(s.subrange(k, k + f.len())[0] == s[k]);
        }
    }
    nothing_to_replace(s, f, y);
}

/// An entity between plain texts is replaced.
proof fn lemma_entity(a: Seq<char>, e: Seq<char>, x: Seq<char>, b: Seq<char>)
    requires
        !a.contains('&'),
        !b.contains('&'),
        e.len() > 0,
        e[0] == '&',
    ensures
        replaced(a + e + b, e, x) == a + x + b,
{
    let s = a + e + b;
    assert forall|k: int| 0 <= k < a.len() implies !#[trigger] stands_at(s, e, k) by {
        if stands_at(s, e, k) {
            assert(s.subrange(k, k + e.len())[0] == s[k]);
            assert(s[k] == a[k]);
        }
    }
    replacing_changes_occurrences_only(a, e, x, b);
    lemma_plain(b, e, x);
}

/// Another entity is not found where one stands between plain texts.
proof fn lemma_other_entity(a: Seq<char>, e: Seq<char>, b: Seq<char>, f: Seq<char>, y: Seq<char>)
    requires
        !a.contains('&'),
        !b.contains('&'),
        e.len() > 3,
        f.len() > 3,
        e[0] == '&',
        f[0] == '&',
        forall|i: int| 0 < i < e.len() ==> e[i] != '&',
        e[1] != f[1] || e[2] != f[2],
    ensures
        replaced(a + e + b, f, y) == a + e + b,
{
    let s = a + e + b;
    assert(has(s, f) == false) by {
        if has(s, f) {
            let k = choose|k: int| #[trigger] stands_at(s, f, k);
            let t = s.subrange(k, k + f.len());
            assert(t[0] == s[k] && t[1] == s[k + 1] && t[2] == s[k + 2]);
            if k < a.len() {
                assert(s[k] == a[k]);
            } else if k < a.len() + e.len() {
                assert(s[k] == e[k - a.len()]);
                assert(k == a.len());
                assert(s[k + 1] == e[1] && s[k + 2] == e[2]);
            } else {
                assert(s[k] == b[k - a.len() - e.len()]);
            }
        }
    }
    nothing_to_replace(s, f, y);
}

/// No entity is found where a sign stands between plain texts.
proof fn lemma_after_entity(a: Seq<char>, x: Seq<char>, b: Seq<char>, f: Seq<char>, y: Seq<char>)
    requires
        !a.contains('&'),
        !b.contains('&'),
        !b.contains(';'),
        x.len() == 1,
        x[0] != ';',
        f.len() > 1,
        f[0] == '&',
        f.last() == ';',
    ensures
        replaced(a + x + b, f, y) == a + x + b,
{
    let s = a + x + b;
    assert(has(s, f) == false) by {
        if has(s, f) {
            let k = choose|k: int| #[trigger] stands_at(s, f, k);
            let t = s.subrange(k, k + f.len());
            let last = k + f.len() - 1;
            assert(t[0] == s[k]);
            assert(t[f.len() - 1] == s[last]);
            if k < a.len() {
                assert(s[k] == a[k]);
            } else if k == a.len() {
                assert(s[last] == b[last - a.len() - 1]);
            } else {
                assert(s[k] == b[k - a.len() - 1]);
            }
        }
    }
    nothing_to_replace(s, f, y);
}

/// A text is encoded byte by byte: letters, digits and the signs `-_.~` stand for
/// themselves, a blank becomes a plus sign, and any other byte a percent sign with its two
/// digits in hexadecimal.
pub proof fn bytes_are_encoded_one_by_one(s: Seq<u8>, b: u8)
    ensures
        encoded_bytes(seq![]).len() == 0,
        ({
            let kept =
                "ABCDEFGHIJKLMNOPQRSTUVWXYZabcdefghijklmnopqrstuvwxyz0123456789-_.~"@.contains(
                b as char,
            );
            &&& kept ==> encoded_bytes(s.push(b)) == encoded_bytes(s).push(b as char)
            &&& b == 32 ==> encoded_bytes(s.push(b)) == encoded_bytes(s).push('+')
            &&& !kept && b != 32 ==> encoded_bytes(s.push(b)) == encoded_bytes(s) + seq![
                '%',
                "0123456789ABCDEF"@[b as int / 16],
                "0123456789ABCDEF"@[b as int % 16],
            ]
        }),
{
    reveal_strlit("ABCDEFGHIJKLMNOPQRSTUVWXYZabcdefghijklmnopqrstuvwxyz0123456789-_.~");
    reveal_strlit("0123456789ABCDEF");
    let all = "ABCDEFGHIJKLMNOPQRSTUVWXYZabcdefghijklmnopqrstuvwxyz0123456789-_.~"@;
    assert(all.len() == 66);
    let c = b as char;
    assert(s.push(b).drop_last() =~= s);
    assert(upper_hex(b as int / 16) == "0123456789ABCDEF"@[b as int / 16]);
    assert(upper_hex(b as int % 16) == "0123456789ABCDEF"@[b as int % 16]);
    if is_unreserved(b) {
        let k: int = if 65 <= b <= 90 {
            b - 65
        } else if 97 <= b <= 122 {
            b - 97 + 26
        } else if 48 <= b <= 57 {
            b - 48 + 52
        } else if b == 45 {
            62
        } else if b == 95 {
            63
        } else if b == 46 {
            64
        } else {
            65
        };
        assert(all[k] == c);
        assert(all.contains(c));
    } else {
        assert(!all.contains(c)) by {
            assert forall|k: int| 0 <= k < all.len() implies all[k] != c by {
                assert(is_unreserved(all[k] as u8));
            }
        }
    }
}

/// A percent sign with two digits in hexadecimal, capital or small, stands for their byte,
/// a plus sign for a blank, and any other byte for itself.
pub proof fn escapes_stand_for_their_byte(x: int, y: int, b: u8, rest: Seq<u8>, bytes: Seq<u8>)
    requires
        0 <= x < 16,
        0 <= y < 16,
        b != 37,
        b != 43,
        unescaped(rest) == Some(bytes),
    ensures
        unescaped(
            seq![
                37,
                "0123456789ABCDEF"@[x] as u8,
                "0123456789ABCDEF"@[y] as u8,
            ] + rest,
        ) == Some(seq![(16 * x + y) as u8] + bytes),
        unescaped(
            seq![
                37,
                "0123456789abcdef"@[x] as u8,
                "0123456789abcdef"@[y] as u8,
            ] + rest,
        ) == Some(seq![(16 * x + y) as u8] + bytes),
        unescaped(seq![43u8] + rest) == Some(seq![32u8] + bytes),
        unescaped(seq![b] + rest) == Some(seq![b] + bytes),
{
    reveal_strlit("0123456789ABCDEF");
    reveal_strlit("0123456789abcdef");
    let large = "0123456789ABCDEF"@;
    let small = "0123456789abcdef"@;
    assert forall|d: int| 0 <= d < 16 implies hex_value(#[trigger] large[d] as u8) == Some(d as u8)
        && large[d] as u8 != 43 by {}
    assert forall|d: int| 0 <= d < 16 implies hex_value(#[trigger] small[d] as u8) == Some(d as u8)
        && small[d] as u8 != 43 by {}
    let a = seq![37u8, large[x] as u8, large[y] as u8] + rest;
    let c = seq![37u8, small[x] as u8, small[y] as u8] + rest;
    assert(a.skip(3) =~= rest && c.skip(3) =~= rest);
    assert(a[1] == large[x] as u8 && a[2] == large[y] as u8);
    assert(c[1] == small[x] as u8 && c[2] == small[y] as u8);
    assert((seq![43u8] + rest).skip(1) =~= rest);
    assert((seq![b] + rest).skip(1) =~= rest);
}

/// A page that is too long is cut off, and it is told where.
pub proof fn long_pages_are_cut_off(
    url: Seq<char>,
    status: u16,
    success: bool,
    content_type: Seq<char>,
    body: Seq<char>,
    max: nat,
)
    ensures
        bytes_in(body) > max ==> fetch_result(
            url,
            status,
            success,
            content_type,
            body,
            max as int,
        ).content == decode_utf8(encode_utf8(body).take(max as int)) + "...[truncated at "@ + dec(
            max,
        ) + " chars]"@,
{
}

} // verus!

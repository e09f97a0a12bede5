//! The fixed headers that every request to the archive carries.

use reqwest::header::{HeaderMap, HeaderName, HeaderValue};
use vstd::prelude::*;
use vstd::utf8::encode_utf8;

verus! {

/// The header map of the `http` crate, which `reqwest` hands on as
/// `reqwest::header::HeaderMap`. It is carried about as it is; nothing of
/// what is inside it is seen here.
#[verifier::external_type_specification]
#[verifier::external_body]
#[verifier::reject_recursive_types(T)]
pub struct ExHeaderMap<T>(HeaderMap<T>);

/// The value of a header in the `http` crate, `reqwest::header::HeaderValue`.
/// It is carried about as it is; nothing of what is inside it is seen here.
#[verifier::external_type_specification]
#[verifier::external_body]
pub struct ExHeaderValue(HeaderValue);

/// What a header map holds: for each name in it, the bytes of each of the
/// name's values, in the order in which the map gives them.
pub uninterp spec fn header_entries(map: HeaderMap<HeaderValue>) -> Map<Seq<char>, Seq<Seq<u8>>>;

/// What a header map holds when it holds nothing.
pub open spec fn no_entries() -> Map<Seq<char>, Seq<Seq<u8>>> {
    Map::empty()
}

/// Calls `HeaderMap::new`. Nothing is proved of it. The contract says that
/// the new map holds nothing.
#[verifier::external_body]
fn new_header_map() -> (headers: HeaderMap<HeaderValue>)
    ensures
        header_entries(headers) == no_entries(),
{
    HeaderMap::new()
}

/// Whether `c` may stand in a header name: a lower-case letter, a digit, or
/// one of ``! " # $ % & ' * + - . ^ _ ` | ~``.
pub open spec fn is_name_char(c: char) -> bool {
    ||| 'a' <= c <= 'z'
    ||| '0' <= c <= '9'
    ||| '!' <= c <= '\''
    ||| c == '*'
    ||| c == '+'
    ||| c == '-'
    ||| c == '.'
    ||| c == '^'
    ||| c == '_'
    ||| c == '`'
    ||| c == '|'
    ||| c == '~'
}

/// Whether `s` is a header name as the `http` crate takes one in lower
/// case: 1 to 65535 characters, each of which may stand in a name.
pub open spec fn is_header_name(s: Seq<char>) -> bool {
    1 <= s.len() <= 65535 && forall|i: int| 0 <= i < s.len() ==> is_name_char(#[trigger] s[i])
}

/// Whether `c` may stand in a header value: the tab, or any character from
/// the space on but the delete character.
pub open spec fn is_value_char(c: char) -> bool {
    c == '\t' || (' ' <= c && c != '\u{7f}')
}

/// Whether `s` is a header value as the `http` crate takes one.
pub open spec fn is_header_value(s: Seq<char>) -> bool {
    forall|i: int| 0 <= i < s.len() ==> is_value_char(#[trigger] s[i])
}

/// Whether a header is a name with a value that the `http` crate takes.
pub open spec fn is_header(header: (Seq<char>, Seq<char>)) -> bool {
    is_header_name(header.0) && is_header_value(header.1)
}

/// Whether a map that holds `held` has room for one more name, whatever it
/// was made with: it holds fewer than 128 names.
pub open spec fn has_room(held: Map<Seq<char>, Seq<Seq<u8>>>) -> bool {
    held.dom().finite() && held.dom().len() < 128
}

/// Calls `HeaderName::from_lowercase` on `name`, `HeaderValue::from_str` on
/// `value`, and `HeaderMap::try_insert` with the two. Nothing is proved of
/// it. Where all three accept, the result is `true` and `name` now has the
/// bytes of `value` as its only value; where one refuses, the result is
/// `false` and the map holds what it held. `from_lowercase` takes 1 to 65535
/// bytes that its table of lower-case name characters holds, and no others;
/// `from_str` takes the tab and every byte from 32 but 127, and no others;
/// `try_insert` fails only where the map would grow past its limit of 32768
/// slots, which a map of fewer than 128 names never asks for.
#[verifier::external_body]
fn try_insert_header(map: &mut HeaderMap<HeaderValue>, name: &str, value: &str) -> (inserted: bool)
    ensures
        inserted ==> header_entries(*final(map)) == header_entries(*old(map)).insert(
            name@,
            seq![encode_utf8(value@)],
        ),
        !inserted ==> header_entries(*final(map)) == header_entries(*old(map)),
        inserted ==> is_header((name@, value@)),
        has_room(header_entries(*old(map))) && is_header((name@, value@)) ==> inserted,
{
    match (HeaderName::from_lowercase(name.as_bytes()), HeaderValue::from_str(value)) {
        (Ok(name), Ok(value)) => map.try_insert(name, value).is_ok(),
        _ => false,
    }
}

/// A header of the table that the `http` crate did not take.
#[derive(Debug, Clone, Copy, PartialEq, Eq, Structural)]
pub struct HeaderRefused {
    /// The place of the header in the table, from 0.
    pub index: usize,
}

/// The names and values of the fixed headers: those of a desktop browser
/// that asks the archive's own pages for data.
pub open spec fn fixed_headers() -> Seq<(Seq<char>, Seq<char>)> {
    seq![
        ("accept"@, "*/*"@),
        ("accept-language"@, "en-GB,en-US;q=0.9,en;q=0.8"@),
        ("content-type"@, "application/x-www-form-urlencoded; charset=UTF-8"@),
        ("dnt"@, "1"@),
        ("origin"@, "https://www.ehitavada.com"@),
        ("priority"@, "u=1, i"@),
        ("sec-ch-ua"@, "\"Not.A/Brand\";v=\"99\", \"Chromium\";v=\"136\""@),
        ("sec-ch-ua-mobile"@, "?0"@),
        ("sec-ch-ua-platform"@, "\"macOS\""@),
        ("sec-fetch-dest"@, "empty"@),
        ("sec-fetch-mode"@, "cors"@),
        ("sec-fetch-site"@, "same-origin"@),
        (
            "user-agent"@,
            "Mozilla/5.0 (Macintosh; Intel Mac OS X 10_15_7) AppleWebKit/537.36 (KHTML, like Gecko) Chrome/136.0.0.0 Safari/537.36"@,
        ),
        ("x-requested-with"@, "XMLHttpRequest"@),
    ]
}

/// What a map holds after the headers of `table` were inserted into an
/// empty one, in order: each name with the bytes of its last value.
pub open spec fn entries_of(table: Seq<(Seq<char>, Seq<char>)>) -> Map<Seq<char>, Seq<Seq<u8>>>
    decreases table.len(),
{
    if table.len() == 0 {
        no_entries()
    } else {
        entries_of(table.drop_last()).insert(table.last().0, seq![encode_utf8(table.last().1)])
    }
}

/// The characters of each name and value of `table`.
pub open spec fn table_chars(table: Seq<(&'static str, &'static str)>) -> Seq<
    (Seq<char>, Seq<char>),
> {
    table.map_values(|h: (&'static str, &'static str)| (h.0@, h.1@))
}

/// The table of the fixed headers.
pub fn header_table() -> (table: Vec<(&'static str, &'static str)>)
    ensures
        table_chars(table@) == fixed_headers(),
{
    let mut table: Vec<(&'static str, &'static str)> = Vec::new();
    table.push(("accept", "*/*"));
    table.push(("accept-language", "en-GB,en-US;q=0.9,en;q=0.8"));
    table.push(("content-type", "application/x-www-form-urlencoded; charset=UTF-8"));
    table.push(("dnt", "1"));
    table.push(("origin", "https://www.ehitavada.com"));
    table.push(("priority", "u=1, i"));
    table.push(("sec-ch-ua", "\"Not.A/Brand\";v=\"99\", \"Chromium\";v=\"136\""));
    table.push(("sec-ch-ua-mobile", "?0"));
    table.push(("sec-ch-ua-platform", "\"macOS\""));
    table.push(("sec-fetch-dest", "empty"));
    table.push(("sec-fetch-mode", "cors"));
    table.push(("sec-fetch-site", "same-origin"));
    table.push(
        (
            "user-agent",
            "Mozilla/5.0 (Macintosh; Intel Mac OS X 10_15_7) AppleWebKit/537.36 (KHTML, like Gecko) Chrome/136.0.0.0 Safari/537.36",
        ),
    );
    table.push(("x-requested-with", "XMLHttpRequest"));
    table
}

/// Whether `s` holds name characters only from place `k` on.
pub open spec fn name_chars_from(s: Seq<char>, k: int) -> bool
    decreases s.len() - k,
{
    k >= s.len() || (is_name_char(s[k]) && name_chars_from(s, k + 1))
}

/// Whether `s` holds value characters only from place `k` on.
pub open spec fn value_chars_from(s: Seq<char>, k: int) -> bool
    decreases s.len() - k,
{
    k >= s.len() || (is_value_char(s[k]) && value_chars_from(s, k + 1))
}

/// A string of 1 to 65535 characters that, gone through from its first
/// place, holds name characters only is a header name.
pub proof fn lemma_header_name(s: Seq<char>, k: int)
    requires
        0 <= k,
        name_chars_from(s, k),
    ensures
        forall|i: int| k <= i < s.len() ==> is_name_char(#[trigger] s[i]),
        k == 0 && 1 <= s.len() <= 65535 ==> is_header_name(s),
    decreases s.len() - k,
{
    if k < s.len() {
        lemma_header_name(s, k + 1);
    }
}

/// A string that, gone through from its first place, holds value characters
/// only is a header value.
pub proof fn lemma_header_value(s: Seq<char>, k: int)
    requires
        0 <= k,
        value_chars_from(s, k),
    ensures
        forall|i: int| k <= i < s.len() ==> is_value_char(#[trigger] s[i]),
        k == 0 ==> is_header_value(s),
    decreases s.len() - k,
{
    if k < s.len() {
        lemma_header_value(s, k + 1);
    }
}

/// What holds a table's headers has at most as many names as the table has
/// headers.
pub proof fn lemma_entries_count(table: Seq<(Seq<char>, Seq<char>)>)
    ensures
        entries_of(table).dom().finite(),
        entries_of(table).dom().len() <= table.len(),
    decreases table.len(),
{
    if table.len() > 0 {
        lemma_entries_count(table.drop_last());
    }
}

/// Makes a header map of `table`: its headers are inserted in order, and
/// the first that the `http` crate refuses ends the work. Among the first
/// 128 headers it refuses exactly those that are no header by `is_header`,
/// so for a table of up to 128 headers the result is fixed: the map, or the
/// place of the first that is no header.
pub fn headers_from(table: &Vec<(&'static str, &'static str)>) -> (r: Result<
    HeaderMap<HeaderValue>,
    HeaderRefused,
>)
    ensures
        match r {
            Ok(map) => {
                &&& header_entries(map) == entries_of(table_chars(table@))
                &&& forall|i: int| 0 <= i < table.len() ==> is_header(#[trigger] table_chars(table@)[i])
            },
            Err(refused) => {
                &&& refused.index < table.len()
                &&& forall|i: int| 0 <= i < refused.index ==> is_header(#[trigger] table_chars(table@)[i])
                &&& refused.index < 128 ==> !is_header(table_chars(table@)[refused.index as int])
            },
        },
        table.len() <= 128 && (forall|i: int|
            0 <= i < table.len() ==> is_header(#[trigger] table_chars(table@)[i])) ==> r is Ok,
{
    let mut map = new_header_map();
    let mut i: usize = 0;
    while i < table.len()
        invariant
            i <= table.len(),
            header_entries(map) == entries_of(table_chars(table@).take(i as int)),
            forall|j: int| 0 <= j < i ==> is_header(#[trigger] table_chars(table@)[j]),
        decreases table.len() - i,
    {
        let (name, value) = table[i];
        proof {
            lemma_entries_count(table_chars(table@).take(i as int));
        }
        if !try_insert_header(&mut map, name, value) {
            return Err(HeaderRefused { index: i });
        }
        proof {
            assert(table_chars(table@).take(i + 1).drop_last() =~= table_chars(table@).take(
                i as int,
            ));
        }
        i += 1;
    }
    assert(table_chars(table@).take(table.len() as int) =~= table_chars(table@));
    Ok(map)
}

/// A name of 1 to 65535 characters and a value that, gone through place by
/// place, hold name characters and value characters only make a header.
proof fn lemma_header_pair(name: Seq<char>, value: Seq<char>)
    requires
        1 <= name.len() <= 65535,
        name_chars_from(name, 0),
        value_chars_from(value, 0),
    ensures
        is_header((name, value)),
{
    lemma_header_name(name, 0);
    lemma_header_value(value, 0);
}

/// Each of the fixed headers is a name with a value that the `http` crate
/// takes.
pub proof fn lemma_fixed_headers_are_headers()
    ensures
        fixed_headers().len() == 14,
        forall|i: int| 0 <= i < 14 ==> is_header(#[trigger] fixed_headers()[i]),
{
    reveal_with_fuel(name_chars_from, 20);
    reveal_with_fuel(value_chars_from, 50);
    assert(is_header(("accept"@, "*/*"@))) by {
        reveal_strlit("accept");
        reveal_strlit("*/*");
        lemma_header_pair("accept"@, "*/*"@);
    }
    assert(is_header(("accept-language"@, "en-GB,en-US;q=0.9,en;q=0.8"@))) by {
        reveal_strlit("accept-language");
        reveal_strlit("en-GB,en-US;q=0.9,en;q=0.8");
        lemma_header_pair("accept-language"@, "en-GB,en-US;q=0.9,en;q=0.8"@);
    }
    assert(is_header(("content-type"@, "application/x-www-form-urlencoded; charset=UTF-8"@))) by {
        reveal_strlit("content-type");
        reveal_strlit("application/x-www-form-urlencoded; charset=UTF-8");
        lemma_header_pair("content-type"@, "application/x-www-form-urlencoded; charset=UTF-8"@);
    }
    assert(is_header(("dnt"@, "1"@))) by {
        reveal_strlit("dnt");
        reveal_strlit("1");
        lemma_header_pair("dnt"@, "1"@);
    }
    assert(is_header(("origin"@, "https://www.ehitavada.com"@))) by {
        reveal_strlit("origin");
        reveal_strlit("https://www.ehitavada.com");
        lemma_header_pair("origin"@, "https://www.ehitavada.com"@);
    }
    assert(is_header(("priority"@, "u=1, i"@))) by {
        reveal_strlit("priority");
        reveal_strlit("u=1, i");
        lemma_header_pair("priority"@, "u=1, i"@);
    }
    assert(is_header(("sec-ch-ua"@, "\"Not.A/Brand\";v=\"99\", \"Chromium\";v=\"136\""@))) by {
        reveal_strlit("sec-ch-ua");
        reveal_strlit("\"Not.A/Brand\";v=\"99\", \"Chromium\";v=\"136\"");
        lemma_header_pair("sec-ch-ua"@, "\"Not.A/Brand\";v=\"99\", \"Chromium\";v=\"136\""@);
    }
    assert(is_header(("sec-ch-ua-mobile"@, "?0"@))) by {
        reveal_strlit("sec-ch-ua-mobile");
        reveal_strlit("?0");
        lemma_header_pair("sec-ch-ua-mobile"@, "?0"@);
    }
    assert(is_header(("sec-ch-ua-platform"@, "\"macOS\""@))) by {
        reveal_strlit("sec-ch-ua-platform");
        reveal_strlit("\"macOS\"");
        lemma_header_pair("sec-ch-ua-platform"@, "\"macOS\""@);
    }
    assert(is_header(("sec-fetch-dest"@, "empty"@))) by {
        reveal_strlit("sec-fetch-dest");
        reveal_strlit("empty");
        lemma_header_pair("sec-fetch-dest"@, "empty"@);
    }
    assert(is_header(("sec-fetch-mode"@, "cors"@))) by {
        reveal_strlit("sec-fetch-mode");
        reveal_strlit("cors");
        lemma_header_pair("sec-fetch-mode"@, "cors"@);
    }
    assert(is_header(("sec-fetch-site"@, "same-origin"@))) by {
        reveal_strlit("sec-fetch-site");
        reveal_strlit("same-origin");
        lemma_header_pair("sec-fetch-site"@, "same-origin"@);
    }
    assert(is_header(("user-agent"@, "Mozilla/5.0 (Macintosh; Intel Mac OS X 10_15_7) AppleWebKit/537.36 (KHTML, like Gecko) Chrome/136.0.0.0 Safari/537.36"@))) by {
        reveal_strlit("user-agent");
        reveal_strlit(
            "Mozilla/5.0 (Macintosh; Intel Mac OS X 10_15_7) AppleWebKit/537.36 (KHTML, like Gecko) Chrome/136.0.0.0 Safari/537.36",
        );
        let agent =
            "Mozilla/5.0 (Macintosh; Intel Mac OS X 10_15_7) AppleWebKit/537.36 (KHTML, like Gecko) Chrome/136.0.0.0 Safari/537.36"@;
        assert(value_chars_from(agent, 90));
        assert(value_chars_from(agent, 60));
        assert(value_chars_from(agent, 30));
        lemma_header_pair("user-agent"@, agent);
    }
    assert(is_header(("x-requested-with"@, "XMLHttpRequest"@))) by {
        reveal_strlit("x-requested-with");
        reveal_strlit("XMLHttpRequest");
        lemma_header_pair("x-requested-with"@, "XMLHttpRequest"@);
    }
}

/// Makes the map of the fixed headers. The `http` crate takes each of them,
/// so the result is always `Ok`.
pub fn create_headers() -> (r: Result<HeaderMap<HeaderValue>, HeaderRefused>)
    ensures
        r matches Ok(map) && header_entries(map) == entries_of(fixed_headers()),
{
    let table = header_table();
    proof {
        lemma_fixed_headers_are_headers();
    }
    headers_from(&table)
}

} // verus!

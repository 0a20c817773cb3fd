//! HTTP requests and their parsing from wire text.
//!
//! The head of the input is everything before the first blank line
//! (`\r\n\r\n`); everything after it, if present, is the body, verbatim.
//! The first head line is the request line: whitespace-separated tokens
//! `method target version`; fewer than three tokens is a malformed request
//! line, an unknown method token an unsupported method. The remaining head
//! lines are headers of the form `name: value`; lines of any other form are
//! skipped. The target is split on `/` after trimming a single leading and
//! a single trailing slash; the root target `/` yields a single empty
//! segment.

use vstd::prelude::*;
use vstd::string::StrSliceExecFns;
use vstd::string::StringExecFns;

use crate::strutil::{
    find_str, spec_find, spec_split, split_str, str_eq, views_of, lemma_find_from,
};

verus! {

/// The methods this server understands.
#[derive(Clone, Copy, Debug, PartialEq, Eq, Structural)]
pub enum Method {
    Get,
    Post,
}

/// Why a byte stream failed to parse as a request.
#[derive(Clone, Copy, Debug, PartialEq, Eq, Structural)]
pub enum ParseError {
    MalformedRequestLine,
    UnsupportedMethod,
}

/// A fully parsed request. No handler sees a partially parsed one: parsing
/// fails before dispatch or not at all.
#[derive(Debug, PartialEq, Eq)]
pub struct Request {
    /// The request method.
    pub method: Method,
    /// The target split into path segments; the root path is the single
    /// empty segment.
    pub path: Vec<String>,
    /// The well-formed header lines, in order of appearance, names
    /// case-sensitive. A later line with the same name wins.
    pub headers: Vec<(String, String)>,
    /// The body, when a blank line separated one from the head.
    pub body: Option<String>,
}

/// The views of a sequence of header pairs.
pub open spec fn pair_views(v: Seq<(String, String)>) -> Seq<(Seq<char>, Seq<char>)> {
    v.map_values(|p: (String, String)| (p.0@, p.1@))
}

/// The head of the input: everything before the first blank line, or all of
/// it when there is none.
pub open spec fn spec_head(s: Seq<char>) -> Seq<char> {
    match spec_find(s, "\r\n\r\n"@) {
        None => s,
        Some(i) => s.take(i),
    }
}

/// The body of the input: everything after the first blank line, verbatim.
pub open spec fn spec_body(s: Seq<char>) -> Option<Seq<char>> {
    match spec_find(s, "\r\n\r\n"@) {
        None => None,
        Some(i) => Some(s.skip(i + "\r\n\r\n"@.len())),
    }
}

/// The lines of the head.
pub open spec fn spec_lines(s: Seq<char>) -> Seq<Seq<char>> {
    spec_split(spec_head(s), "\r\n"@)
}

/// The request line: everything before the first line terminator.
pub open spec fn spec_request_line(s: Seq<char>) -> Seq<char> {
    match spec_find(s, "\r\n"@) {
        None => s,
        Some(i) => s.take(i),
    }
}

/// The tokens of the request line: the pieces between single spaces, empty
/// pieces kept.
pub open spec fn spec_tokens(s: Seq<char>) -> Seq<Seq<char>> {
    spec_split(spec_request_line(s), " "@)
}

/// The method named by a token, if any.
pub open spec fn spec_method_of(tok: Seq<char>) -> Option<Method> {
    if tok == "GET"@ {
        Some(Method::Get)
    } else if tok == "POST"@ {
        Some(Method::Post)
    } else {
        None::<Method>
    }
}

/// The target with a single leading and a single trailing slash removed.
pub open spec fn spec_trim_slashes(t: Seq<char>) -> Seq<char> {
    let u = if t.len() > 0 && t[0] == '/' {
        t.drop_first()
    } else {
        t
    };
    if u.len() > 0 && u.last() == '/' {
        u.drop_last()
    } else {
        u
    }
}

/// The path segments of a target.
pub open spec fn spec_segments(t: Seq<char>) -> Seq<Seq<char>> {
    spec_split(spec_trim_slashes(t), "/"@)
}

/// The name and value of a well-formed header line, split at the first
/// colon-space separator.
pub open spec fn spec_header_line(line: Seq<char>) -> Option<(Seq<char>, Seq<char>)> {
    match spec_find(line, ": "@) {
        None => None,
        Some(i) => Some((line.take(i), line.skip(i + ": "@.len()))),
    }
}

/// The pairs of the well-formed lines, in order; other lines are skipped.
pub open spec fn spec_header_pairs(lines: Seq<Seq<char>>) -> Seq<(Seq<char>, Seq<char>)>
    decreases lines.len(),
{
    if lines.len() == 0 {
        Seq::<(Seq<char>, Seq<char>)>::empty()
    } else {
        let rest = spec_header_pairs(lines.drop_first());
        match spec_header_line(lines[0]) {
            None => rest,
            Some(p) => seq![p] + rest,
        }
    }
}

/// The header pairs of the whole input: those of the head lines after the
/// request line.
pub open spec fn spec_headers(s: Seq<char>) -> Seq<(Seq<char>, Seq<char>)> {
    spec_header_pairs(spec_lines(s).drop_first())
}

/// The mapping the header pairs denote: a later pair with the same name
/// overwrites an earlier one.
pub open spec fn spec_header_map(pairs: Seq<(Seq<char>, Seq<char>)>) -> Map<Seq<char>, Seq<char>>
    decreases pairs.len(),
{
    if pairs.len() == 0 {
        Map::<Seq<char>, Seq<char>>::empty()
    } else {
        spec_header_map(pairs.drop_last()).insert(pairs.last().0, pairs.last().1)
    }
}

/// The prefix of `s` that stands before the first occurrence of `pat`, or
/// all of `s` when `pat` does not occur.
fn prefix_before<'a>(s: &'a str, pat: &'a str, n: usize) -> (r: &'a str)
    requires
        pat@.len() > 0,
        n == s@.len(),
    ensures
        r@ == match spec_find(s@, pat@) {
            None => s@,
            Some(i) => s@.take(i),
        },
{
    match find_str(s, pat) {
        None => {
            proof {
                assert(s@.subrange(0, n as int) =~= s@);
            }
            s.substring_char(0, n)
        },
        Some(i) => {
            proof {
                lemma_find_from(s@, pat@, 0);
            }
            s.substring_char(0, i)
        },
    }
}

/// The method token of the request line: its first token. Every string has
/// at least one, so this never fails.
pub fn extract_request_type<'a>(input: &'a str) -> (r: Option<&'a str>)
    ensures
        match r {
            Some(m) => m@ == spec_tokens(input@)[0],
            None => false,
        },
{
    proof {
        reveal_strlit("\r\n");
        reveal_strlit(" ");
    }
    let n = input.unicode_len();
    let line = prefix_before(input, "\r\n", n);
    let ln = line.unicode_len();
    let tok = prefix_before(line, " ", ln);
    proof {
        lemma_split_first(line@, " "@);
    }
    Some(tok)
}

/// The target token of the request line: its second token, when the line
/// has one.
pub fn extract_path<'a>(input: &'a str) -> (r: Option<&'a str>)
    ensures
        match r {
            Some(t) => spec_tokens(input@).len() >= 2 && t@ == spec_tokens(input@)[1],
            None => spec_tokens(input@).len() < 2,
        },
{
    proof {
        reveal_strlit("\r\n");
        reveal_strlit(" ");
    }
    let n = input.unicode_len();
    let line = prefix_before(input, "\r\n", n);
    let ln = line.unicode_len();
    match find_str(line, " ") {
        None => {
            proof {
                lemma_split_first(line@, " "@);
            }
            None
        },
        Some(i) => {
            proof {
                lemma_find_from(line@, " "@, 0);
            }
            let rest = line.substring_char(i + 1, ln);
            proof {
                lemma_split_first(line@, " "@);
                assert(rest@ =~= line@.subrange(i + " "@.len(), line@.len() as int));
            }
            let rn = rest.unicode_len();
            let tok = prefix_before(rest, " ", rn);
            proof {
                lemma_split_first(rest@, " "@);
                assert(spec_tokens(input@)[1] == spec_split(rest@, " "@)[0]);
            }
            Some(tok)
        },
    }
}

/// The first piece of a split is the prefix before the first occurrence of
/// the separator, and the later pieces are the split of what follows it.
pub proof fn lemma_split_first(s: Seq<char>, pat: Seq<char>)
    requires
        pat.len() > 0,
    ensures
        spec_split(s, pat).len() >= 1,
        spec_split(s, pat)[0] == match spec_find(s, pat) {
            None => s,
            Some(i) => s.take(i),
        },
        spec_find(s, pat) is Some ==> spec_split(s, pat) == seq![s.take(spec_find(s, pat)->0)]
            + spec_split(s.skip(spec_find(s, pat)->0 + pat.len()), pat),
{
    match spec_find(s, pat) {
        None => {},
        Some(i) => {
            lemma_find_from(s, pat, 0);
            assert(s.subrange(0, i) =~= s.take(i));
            assert(s.subrange(i + pat.len(), s.len() as int) =~= s.skip(i + pat.len()));
        },
    }
}

/// The body of the input: everything after the first blank line.
pub fn extract_body<'a>(input: &'a str) -> (r: Option<&'a str>)
    ensures
        match r {
            Some(b) => spec_body(input@) == Some(b@),
            None => spec_body(input@) is None,
        },
{
    proof {
        reveal_strlit("\r\n\r\n");
    }
    let n = input.unicode_len();
    match find_str(input, "\r\n\r\n") {
        None => None,
        Some(i) => {
            proof {
                lemma_find_from(input@, "\r\n\r\n"@, 0);
            }
            let body = input.substring_char(i + 4, n);
            proof {
                assert(body@ =~= input@.skip(i + "\r\n\r\n"@.len()));
            }
            Some(body)
        },
    }
}

/// The head of the input: everything before the first blank line.
fn extract_head<'a>(input: &'a str) -> (r: &'a str)
    ensures
        r@ == spec_head(input@),
{
    proof {
        reveal_strlit("\r\n\r\n");
    }
    let n = input.unicode_len();
    let head = prefix_before(input, "\r\n\r\n", n);
    head
}

/// The well-formed `name: value` lines of the head after the request line,
/// in order of appearance; other lines are skipped.
pub fn extract_headers(input: &str) -> (r: Vec<(String, String)>)
    ensures
        pair_views(r@) == spec_headers(input@),
{
    proof {
        reveal_strlit("\r\n");
        reveal_strlit(": ");
    }
    let head = extract_head(input);
    let lines = split_str(head, "\r\n");
    let ghost line_views = views_of(lines@);
    let mut headers: Vec<(String, String)> = Vec::new();
    let mut k: usize = 1;
    proof {
        assert(pair_views(headers@) =~~= Seq::<(Seq<char>, Seq<char>)>::empty());
        lemma_split_first(head@, "\r\n"@);
        assert(line_views.drop_first().take(0) =~~= Seq::<Seq<char>>::empty());
        assert(spec_header_pairs(Seq::<Seq<char>>::empty()) =~~= Seq::<(
            Seq<char>,
            Seq<char>,
        )>::empty());
    }
    while k < lines.len()
        invariant
            1 <= k <= line_views.len(),
            line_views == views_of(lines@),
            line_views.len() == lines@.len(),
            pair_views(headers@) == spec_header_pairs(line_views.drop_first().take(k - 1)),
        decreases lines@.len() - k,
    {
        let line = (&lines[k]).as_str();
        proof {
            reveal_strlit(": ");
            assert(line@ == line_views[k as int]);
        }
        let ln = line.unicode_len();
        match find_str(line, ": ") {
            None => {},
            Some(i) => {
                proof {
                    lemma_find_from(line@, ": "@, 0);
                }
                let name = String::from_str(line.substring_char(0, i));
                let value = String::from_str(line.substring_char(i + 2, ln));
                headers.push((name, value));
                proof {
                    assert(name@ =~= line_views[k as int].take(i as int));
                    assert(value@ =~= line_views[k as int].skip(i + ": "@.len()));
                }
            },
        }
        proof {
            lemma_header_pairs_snoc(line_views.drop_first(), k - 1);
            assert(line_views.drop_first()[k - 1] == line_views[k as int]);
            match spec_header_line(line_views[k as int]) {
                None => {
                    assert(pair_views(headers@) =~~= spec_header_pairs(
                        line_views.drop_first().take(k as int),
                    ));
                },
                Some(p) => {
                    assert(pair_views(headers@) =~~= spec_header_pairs(
                        line_views.drop_first().take(k - 1),
                    ).push(p));
                    assert(pair_views(headers@) =~~= spec_header_pairs(
                        line_views.drop_first().take(k as int),
                    ));
                },
            }
        }
        k += 1;
    }
    proof {
        assert(line_views.drop_first().take(k - 1) =~~= line_views.drop_first());
    }
    headers
}

/// The pairs of a prefix one line longer: one more pair when the new line
/// is well-formed, the same pairs when it is not.
pub proof fn lemma_header_pairs_snoc(lines: Seq<Seq<char>>, k: int)
    requires
        0 <= k < lines.len(),
    ensures
        spec_header_pairs(lines.take(k + 1)) == match spec_header_line(lines[k]) {
            None => spec_header_pairs(lines.take(k)),
            Some(p) => spec_header_pairs(lines.take(k)).push(p),
        },
    decreases k,
{
    if k == 0 {
        assert(lines.take(0) =~~= Seq::<Seq<char>>::empty());
        assert(lines.take(1) =~~= seq![lines[0]]);
        assert(seq![lines[0]].drop_first() =~~= Seq::<Seq<char>>::empty());
        match spec_header_line(lines[0]) {
            None => {},
            Some(p) => {
                reveal_with_fuel(spec_header_pairs, 3);
                assert(spec_header_pairs(lines.take(1)) =~~= seq![p]);
                assert(spec_header_pairs(lines.take(0)).push(p) =~~= seq![p]);
            },
        }
    } else {
        lemma_header_pairs_snoc(lines.drop_first(), k - 1);
        assert(lines.take(k + 1).drop_first() =~~= lines.drop_first().take(k));
        assert(lines.take(k).drop_first() =~~= lines.drop_first().take(k - 1));
        assert(lines.take(k + 1)[0] == lines[0]);
        assert(lines.take(k)[0] == lines[0]);
        assert(lines.drop_first()[k - 1] == lines[k]);
        match spec_header_line(lines[k]) {
            None => {},
            Some(p) => {
                match spec_header_line(lines[0]) {
                    None => {},
                    Some(q) => {
                        assert(seq![q] + spec_header_pairs(lines.drop_first().take(k - 1)).push(p)
                            =~~= (seq![q] + spec_header_pairs(
                            lines.drop_first().take(k - 1),
                        )).push(p));
                    },
                }
            },
        }
    }
}

/// A pair whose name no later pair carries gives the mapping its value for
/// that name.
pub proof fn lemma_header_map_at(pairs: Seq<(Seq<char>, Seq<char>)>, i: int)
    requires
        0 <= i < pairs.len(),
        forall|j: int| i < j < pairs.len() ==> pairs[j].0 != pairs[i].0,
    ensures
        spec_header_map(pairs).contains_key(pairs[i].0),
        spec_header_map(pairs)[pairs[i].0] == pairs[i].1,
    decreases pairs.len(),
{
    if i == pairs.len() - 1 {
    } else {
        assert(pairs.drop_last()[i] == pairs[i]);
        lemma_header_map_at(pairs.drop_last(), i);
        assert(pairs.last() == pairs[pairs.len() - 1]);
    }
}

/// A name no pair carries is absent from the mapping.
pub proof fn lemma_header_map_absent(pairs: Seq<(Seq<char>, Seq<char>)>, name: Seq<char>)
    requires
        forall|j: int| 0 <= j < pairs.len() ==> pairs[j].0 != name,
    ensures
        !spec_header_map(pairs).contains_key(name),
    decreases pairs.len(),
{
    if pairs.len() > 0 {
        assert forall|j: int| 0 <= j < pairs.drop_last().len() implies pairs.drop_last()[j].0
            != name by {
            assert(pairs.drop_last()[j] == pairs[j]);
        }
        lemma_header_map_absent(pairs.drop_last(), name);
        assert(pairs.last() == pairs[pairs.len() - 1]);
    }
}

/// Every name in the mapping comes from some pair.
pub proof fn lemma_header_map_from_pairs(pairs: Seq<(Seq<char>, Seq<char>)>, i: int)
    requires
        0 <= i < pairs.len(),
    ensures
        spec_header_map(pairs).contains_key(pairs[i].0),
    decreases pairs.len(),
{
    if i == pairs.len() - 1 {
    } else {
        assert(pairs.drop_last()[i] == pairs[i]);
        lemma_header_map_from_pairs(pairs.drop_last(), i);
        assert(pairs.last() == pairs[pairs.len() - 1]);
    }
}

/// Every well-formed `name: value` line of a header block lands in the
/// parsed pairs, and its name in the parsed mapping; lines of any other
/// form are skipped without affecting the others.
pub proof fn lemma_header_block_complete(lines: Seq<Seq<char>>, i: int)
    requires
        0 <= i < lines.len(),
        spec_header_line(lines[i]) is Some,
    ensures
        spec_header_pairs(lines).contains(spec_header_line(lines[i])->0),
        spec_header_map(spec_header_pairs(lines)).contains_key(
            (spec_header_line(lines[i])->0).0,
        ),
    decreases lines.len(),
{
    let pairs = spec_header_pairs(lines);
    let p = spec_header_line(lines[i])->0;
    if i == 0 {
        assert(pairs[0] == p);
        assert(pairs.contains(p));
    } else {
        assert(lines.drop_first()[i - 1] == lines[i]);
        lemma_header_block_complete(lines.drop_first(), i - 1);
        let rest = spec_header_pairs(lines.drop_first());
        let k = choose|k: int| 0 <= k < rest.len() && rest[k] == p;
        match spec_header_line(lines[0]) {
            None => {
                assert(pairs.contains(p));
            },
            Some(q) => {
                assert(pairs[k + 1] == p);
                assert(pairs.contains(p));
            },
        }
    }
    let k = choose|k: int| 0 <= k < pairs.len() && pairs[k] == p;
    lemma_header_map_from_pairs(pairs, k);
}

/// Every parsed pair comes from a well-formed line: skipping the lines of
/// any other form invents no pair.
pub proof fn lemma_header_pairs_sound(lines: Seq<Seq<char>>, k: int)
    requires
        0 <= k < spec_header_pairs(lines).len(),
    ensures
        exists|i: int| 0 <= i < lines.len() && spec_header_line(lines[i]) == Some(
            spec_header_pairs(lines)[k],
        ),
    decreases lines.len(),
{
    let pairs = spec_header_pairs(lines);
    match spec_header_line(lines[0]) {
        None => {
            lemma_header_pairs_sound(lines.drop_first(), k);
            let i = choose|i: int| 0 <= i < lines.drop_first().len() && spec_header_line(
                lines.drop_first()[i],
            ) == Some(spec_header_pairs(lines.drop_first())[k]);
            assert(lines[i + 1] == lines.drop_first()[i]);
        },
        Some(p) => {
            if k == 0 {
                assert(pairs[0] == p);
            } else {
                lemma_header_pairs_sound(lines.drop_first(), k - 1);
                let i = choose|i: int| 0 <= i < lines.drop_first().len() && spec_header_line(
                    lines.drop_first()[i],
                ) == Some(spec_header_pairs(lines.drop_first())[k - 1]);
                assert(lines[i + 1] == lines.drop_first()[i]);
                assert(pairs[k] == spec_header_pairs(lines.drop_first())[k - 1]);
            }
        },
    }
}

/// The method a token names, if any.
pub fn method_of_token(tok: &str) -> (r: Option<Method>)
    ensures
        r == spec_method_of(tok@),
{
    if str_eq(tok, "GET") {
        Some(Method::Get)
    } else if str_eq(tok, "POST") {
        Some(Method::Post)
    } else {
        None
    }
}

/// The path segments of a target: a single leading and a single trailing
/// slash trimmed, the rest split on `/`.
pub fn segments_of_target(target: &str) -> (r: Vec<String>)
    ensures
        views_of(r@) == spec_segments(target@),
{
    proof {
        reveal_strlit("/");
    }
    let n = target.unicode_len();
    let start: usize = if n > 0 && target.get_char(0) == '/' {
        1
    } else {
        0
    };
    let end: usize = if n > start && target.get_char(n - 1) == '/' {
        n - 1
    } else {
        n
    };
    let trimmed = target.substring_char(start, end);
    proof {
        assert(trimmed@ =~= spec_trim_slashes(target@));
    }
    split_str(trimmed, "/")
}

/// The value mapped to `name` by the headers: the value of the last
/// well-formed header line with that exact name, if any.
pub fn header_lookup(headers: &Vec<(String, String)>, name: &str) -> (r: Option<String>)
    ensures
        ({
            let m = spec_header_map(pair_views(headers@));
            match r {
                Some(v) => m.contains_key(name@) && v@ == m[name@],
                None => !m.contains_key(name@),
            }
        }),
{
    let ghost pairs = pair_views(headers@);
    let mut k = headers.len();
    while k > 0
        invariant
            k <= headers@.len(),
            pairs == pair_views(headers@),
            forall|j: int| k <= j < pairs.len() ==> pairs[j].0 != name@,
        decreases k,
    {
        k -= 1;
        let pair = &headers[k];
        proof {
            assert(pairs[k as int] == (headers@[k as int].0@, headers@[k as int].1@));
        }
        if str_eq(pair.0.as_str(), name) {
            proof {
                lemma_header_map_at(pairs, k as int);
            }
            return Some(pair.1.clone());
        }
    }
    proof {
        lemma_header_map_absent(pairs, name@);
    }
    None
}

/// Parses wire text into a request: the request line gives method and
/// target, the later head lines the headers, and what follows the first
/// blank line the body. Parsing fails exactly when the request line has
/// fewer than three tokens or an unknown method token.
pub fn parse_request(input: &str) -> (r: Result<Request, ParseError>)
    ensures
        ({
            let toks = spec_tokens(input@);
            match r {
                Ok(req) => toks.len() >= 3 && spec_method_of(toks[0]) == Some(req.method)
                    && views_of(req.path@) == spec_segments(toks[1]) && pair_views(req.headers@)
                    == spec_headers(input@) && (match req.body {
                    Some(b) => spec_body(input@) == Some(b@),
                    None => spec_body(input@) is None,
                }),
                Err(e) => (e == ParseError::MalformedRequestLine && toks.len() < 3) || (e
                    == ParseError::UnsupportedMethod && toks.len() >= 3 && spec_method_of(toks[0])
                    is None),
            }
        }),
{
    proof {
        reveal_strlit("\r\n");
        reveal_strlit(" ");
    }
    let n = input.unicode_len();
    let line = prefix_before(input, "\r\n", n);
    let toks = split_str(line, " ");
    if toks.len() < 3 {
        return Err(ParseError::MalformedRequestLine);
    }
    let method = match method_of_token((&toks[0]).as_str()) {
        None => {
            return Err(ParseError::UnsupportedMethod);
        },
        Some(m) => m,
    };
    let path = segments_of_target((&toks[1]).as_str());
    let headers = extract_headers(input);
    let body = match extract_body(input) {
        None => None,
        Some(b) => Some(String::from_str(b)),
    };
    Ok(Request { method, path, headers, body })
}

} // verus!

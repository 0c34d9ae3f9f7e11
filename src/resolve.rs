//! Turning a user-supplied token into a lookup target: a host name taken
//! from a URL, or a raw instance id.
use vstd::prelude::*;
use crate::text::{
    CharClass, chars_of, has_at, is_ascii_alpha, is_ascii_digit, occurs_at, run_end, scan_run,
    substring,
};

verus! {

/// Length of the `http://` or `https://` that starts at `i`, or 0.
pub open spec fn scheme_len(s: Seq<char>, i: int) -> int {
    if has_at(s, i, "https://"@) {
        "https://"@.len() as int
    } else if has_at(s, i, "http://"@) {
        "http://"@.len() as int
    } else {
        0
    }
}

/// Whether a URL starts at `i`: a scheme followed by a letter.
pub open spec fn url_starts_at(s: Seq<char>, i: int) -> bool {
    scheme_len(s, i) > 0 && i + scheme_len(s, i) < s.len() && is_ascii_alpha(
        s[i + scheme_len(s, i)],
    )
}

/// The leftmost host label of a URL that starts at `i`, where that label is
/// followed by a `.`.
pub open spec fn name_at(s: Seq<char>, i: int) -> Option<Seq<char>> {
    let j = i + scheme_len(s, i);
    let k = run_end(s, j + 1, CharClass::Label);
    if url_starts_at(s, i) && k < s.len() && s[k] == '.' {
        Some(s.subrange(j, k))
    } else {
        None
    }
}

/// The URL that starts at `i`: scheme and host name.
pub open spec fn url_at(s: Seq<char>, i: int) -> Option<Seq<char>> {
    if url_starts_at(s, i) {
        Some(s.subrange(i, run_end(s, i + scheme_len(s, i) + 1, CharClass::Host)))
    } else {
        None
    }
}

/// The first name found at a position from `i` on.
pub open spec fn first_name_from(s: Seq<char>, i: int) -> Option<Seq<char>>
    decreases s.len() - i,
{
    if i < 0 || i >= s.len() {
        None
    } else if name_at(s, i) is Some {
        name_at(s, i)
    } else {
        first_name_from(s, i + 1)
    }
}

/// The first URL found at a position from `i` on.
pub open spec fn first_url_from(s: Seq<char>, i: int) -> Option<Seq<char>>
    decreases s.len() - i,
{
    if i < 0 || i >= s.len() {
        None
    } else if url_at(s, i) is Some {
        url_at(s, i)
    } else {
        first_url_from(s, i + 1)
    }
}

/// The name of the leftmost URL in `s` whose first host label is followed by
/// a `.`.
pub open spec fn url_name(s: Seq<char>) -> Option<Seq<char>> {
    first_name_from(s, 0)
}

/// The leftmost URL in `s`, up to the end of its host name.
pub open spec fn url_in(s: Seq<char>) -> Option<Seq<char>> {
    first_url_from(s, 0)
}

/// The instance id at the very start of `s`: `i-`, a digit, then letters and
/// digits as far as they go.
pub open spec fn id_prefix(s: Seq<char>) -> Option<Seq<char>> {
    if s.len() >= 3 && s[0] == 'i' && s[1] == '-' && is_ascii_digit(s[2]) {
        Some(s.subrange(0, run_end(s, 3, CharClass::Alnum)))
    } else {
        None
    }
}

/// The URL of `s` if it holds one, else the instance id that it starts with.
pub open spec fn url_or_id_in(s: Seq<char>) -> Option<Seq<char>> {
    if url_in(s) is Some {
        url_in(s)
    } else {
        id_prefix(s)
    }
}

/// What a token resolves to.
#[derive(Debug, PartialEq, Eq)]
pub enum ResolvedReference {
    /// A host name, to be looked up by its name tag.
    Name(String),
    /// A raw instance id, the whole token.
    Identifier(String),
    /// Neither shape matched.
    Unresolved,
}

/// The scheme patterns, held once so that scanning does not rebuild them.
struct Schemes {
    https: Vec<char>,
    http: Vec<char>,
}

impl Schemes {
    spec fn wf(&self) -> bool {
        self.https@ == "https://"@ && self.http@ == "http://"@
    }

    fn new() -> (r: Schemes)
        ensures
            r.wf(),
    {
        Schemes { https: chars_of("https://"), http: chars_of("http://") }
    }

    fn len_at(&self, cs: &Vec<char>, i: usize) -> (r: usize)
        requires
            self.wf(),
        ensures
            r as int == scheme_len(cs@, i as int),
            r > 0 ==> i + r <= cs.len(),
    {
        if occurs_at(cs, i, &self.https) {
            self.https.len()
        } else if occurs_at(cs, i, &self.http) {
            self.http.len()
        } else {
            0
        }
    }

    /// Where the host name of a URL at `i` starts, if one starts there.
    fn host_at(&self, cs: &Vec<char>, i: usize) -> (r: Option<usize>)
        requires
            self.wf(),
        ensures
            r is Some <==> url_starts_at(cs@, i as int),
            r matches Some(j) ==> j as int == i + scheme_len(cs@, i as int) && j < cs.len(),
    {
        let n = self.len_at(cs, i);
        if n > 0 && i + n < cs.len() {
            let c = cs[i + n];
            if ('a' <= c && c <= 'z') || ('A' <= c && c <= 'Z') {
                return Some(i + n);
            }
        }
        None
    }
}

fn name_at_exec(sc: &Schemes, cs: &Vec<char>, i: usize) -> (r: Option<(usize, usize)>)
    requires
        sc.wf(),
    ensures
        r is Some <==> name_at(cs@, i as int) is Some,
        r matches Some((j, k)) ==> j <= k <= cs.len() && name_at(cs@, i as int) == Some(
            cs@.subrange(j as int, k as int),
        ),
{
    match sc.host_at(cs, i) {
        Some(j) => {
            let k = scan_run(cs, j + 1, CharClass::Label);
            if k < cs.len() && cs[k] == '.' {
                Some((j, k))
            } else {
                None
            }
        },
        None => None,
    }
}

/// The name of the leftmost URL in `url` whose first host label is followed
/// by a `.`: `https://foo.example.org/path` gives `foo`.
pub fn parse_name_from_url(url: String) -> (r: Option<String>)
    ensures
        r matches Some(name) ==> url_name(url@) == Some(name@),
        r is None ==> url_name(url@) is None,
{
    let s = url.as_str();
    let cs = chars_of(s);
    let sc = Schemes::new();
    let mut i: usize = 0;
    while i < cs.len()
        invariant
            sc.wf(),
            cs@ == url@,
            s@ == url@,
            i <= cs.len(),
            first_name_from(cs@, 0) == first_name_from(cs@, i as int),
        decreases cs.len() - i,
    {
        if let Some((j, k)) = name_at_exec(&sc, &cs, i) {
            return Some(substring(s, j, k));
        }
        i += 1;
    }
    None
}

/// Whether `value` starts with an instance id: `i-` and a digit.
pub fn is_instance_id(value: String) -> (r: bool)
    ensures
        r == (id_prefix(value@) is Some),
{
    let cs = chars_of(value.as_str());
    cs.len() >= 3 && cs[0] == 'i' && cs[1] == '-' && '0' <= cs[2] && cs[2] <= '9'
}

/// The leftmost URL in `url`, up to the end of its host name; used to take
/// a URL out of the markup that the chat service puts round it.
pub fn maybe_parse_slack_url(url: &str) -> (r: Option<String>)
    ensures
        r matches Some(u) ==> url_in(url@) == Some(u@),
        r is None ==> url_in(url@) is None,
{
    let cs = chars_of(url);
    let sc = Schemes::new();
    let mut i: usize = 0;
    while i < cs.len()
        invariant
            sc.wf(),
            cs@ == url@,
            i <= cs.len(),
            first_url_from(cs@, 0) == first_url_from(cs@, i as int),
        decreases cs.len() - i,
    {
        if let Some(j) = sc.host_at(&cs, i) {
            let k = scan_run(&cs, j + 1, CharClass::Host);
            return Some(substring(url, i, k));
        }
        i += 1;
    }
    None
}

/// The leftmost URL in `url_or_id`; failing that, the instance id that it
/// starts with.
pub fn maybe_parse_slack_url_or_id(url_or_id: &str) -> (r: Option<String>)
    ensures
        r matches Some(u) ==> url_or_id_in(url_or_id@) == Some(u@),
        r is None ==> url_or_id_in(url_or_id@) is None,
{
    if let Some(url) = maybe_parse_slack_url(url_or_id) {
        return Some(url);
    }
    let cs = chars_of(url_or_id);
    if cs.len() >= 3 && cs[0] == 'i' && cs[1] == '-' && '0' <= cs[2] && cs[2] <= '9' {
        let k = scan_run(&cs, 3, CharClass::Alnum);
        return Some(substring(url_or_id, 0, k));
    }
    None
}

/// Resolves a token: a URL gives the name of its host, else a token that
/// starts with an instance id is that id, else nothing. A URL anywhere in
/// the token wins over an id at its start.
pub fn resolve(input: &str) -> (r: ResolvedReference)
    ensures
        match r {
            ResolvedReference::Name(n) => url_name(input@) == Some(n@),
            ResolvedReference::Identifier(id) => url_name(input@) is None && id_prefix(
                input@,
            ) is Some && id@ == input@,
            ResolvedReference::Unresolved => url_name(input@) is None && id_prefix(
                input@,
            ) is None,
        },
{
    let owned = input.to_owned();
    match parse_name_from_url(owned) {
        Some(name) => ResolvedReference::Name(name),
        None => {
            if is_instance_id(input.to_owned()) {
                ResolvedReference::Identifier(input.to_owned())
            } else {
                ResolvedReference::Unresolved
            }
        },
    }
}

} // verus!

//! Instances as the bot reports them, and the decisions around the cloud
//! calls: which lookup a resolved reference needs, how `ls` filters and its
//! limit are read, and how many results are shown.
use vstd::prelude::*;
use crate::resolve::ResolvedReference;
use crate::text::{chars_of, decimal_value, parse_u64, substring, unsigned_digits};

verus! {

/// An instance: its type, id, key pair, state name and tags.
#[derive(Debug, Eq, PartialEq)]
pub struct InstanceInfo {
    pub size: String,
    pub id: String,
    pub keyname: Option<String>,
    pub state: String,
    pub tags: Vec<(String, String)>,
}

/// The ids of `info`, in order.
pub fn instance_ids(info: &Vec<InstanceInfo>) -> (r: Vec<String>)
    ensures
        r@.len() == info@.len(),
        forall|i: int| 0 <= i < r@.len() ==> (#[trigger] r@[i])@ == info@[i].id@,
{
    let mut r: Vec<String> = Vec::new();
    let mut i: usize = 0;
    while i < info.len()
        invariant
            i <= info.len(),
            r@.len() == i,
            forall|k: int| 0 <= k < i ==> (#[trigger] r@[k])@ == info@[k].id@,
        decreases info.len() - i,
    {
        r.push(info[i].id.clone());
        i += 1;
    }
    r
}

/// The filter that finds the instances of a reference: by name tag for a
/// name, by instance id for an id; none when nothing was resolved.
pub fn lookup_filter(reference: &ResolvedReference) -> (r: Option<(String, String)>)
    ensures
        match reference {
            ResolvedReference::Name(n) => r matches Some((k, v)) && k@ == "tag:Name"@ && v@
                == n@,
            ResolvedReference::Identifier(id) => r matches Some((k, v)) && k@ == "instance-id"@
                && v@ == id@,
            ResolvedReference::Unresolved => r is None,
        },
{
    match reference {
        ResolvedReference::Name(n) => Some(("tag:Name".to_owned(), n.clone())),
        ResolvedReference::Identifier(id) => Some(("instance-id".to_owned(), id.clone())),
        ResolvedReference::Unresolved => None,
    }
}

/// The ids of the instances a reference stands for: an id stands for
/// itself, a name for the instances found by its name tag (`found`), and an
/// unresolved reference for none.
pub fn ids_of_reference(reference: &ResolvedReference, found: &Vec<InstanceInfo>) -> (r: Vec<
    String,
>)
    ensures
        match reference {
            ResolvedReference::Name(_) => r@.len() == found@.len() && forall|i: int|
                0 <= i < r@.len() ==> (#[trigger] r@[i])@ == found@[i].id@,
            ResolvedReference::Identifier(id) => r@.len() == 1 && r@[0]@ == id@,
            ResolvedReference::Unresolved => r@.len() == 0,
        },
{
    match reference {
        ResolvedReference::Name(_) => instance_ids(found),
        ResolvedReference::Identifier(id) => vec![id.clone()],
        ResolvedReference::Unresolved => Vec::new(),
    }
}

/// Whether `i` is the one position of `=` in `s`.
pub open spec fn sole_eq_at(s: Seq<char>, i: int) -> bool {
    &&& 0 <= i < s.len()
    &&& s[i] == '='
    &&& forall|j: int| 0 <= j < s.len() && j != i ==> s[j] != '='
}

/// The key and value of a `KEY=VALUE` filter: the text must hold exactly
/// one `=`.
pub open spec fn filter_of(s: Seq<char>) -> Option<(Seq<char>, Seq<char>)> {
    if exists|i: int| sole_eq_at(s, i) {
        let i = choose|i: int| sole_eq_at(s, i);
        Some((s.take(i), s.skip(i + 1)))
    } else {
        None
    }
}

/// The filters read from `vs`, in order, skipping those of a wrong form.
pub open spec fn filters_of(vs: Seq<Seq<char>>) -> Seq<(Seq<char>, Seq<char>)>
    decreases vs.len(),
{
    if vs.len() == 0 {
        Seq::empty()
    } else {
        match filter_of(vs.last()) {
            Some(f) => filters_of(vs.drop_last()).push(f),
            None => filters_of(vs.drop_last()),
        }
    }
}

pub open spec fn texts(vs: Seq<String>) -> Seq<Seq<char>> {
    vs.map_values(|v: String| v@)
}

pub open spec fn pair_texts(ps: Seq<(String, String)>) -> Seq<(Seq<char>, Seq<char>)> {
    ps.map_values(|p: (String, String)| (p.0@, p.1@))
}

/// Reads a `KEY=VALUE` filter.
pub fn parse_filter(x: &str) -> (r: Option<(String, String)>)
    ensures
        r matches Some((k, v)) ==> filter_of(x@) == Some((k@, v@)),
        r is None ==> filter_of(x@) is None,
{
    let cs = chars_of(x);
    let mut first: usize = 0;
    let mut count: usize = 0;
    let mut i: usize = 0;
    while i < cs.len()
        invariant
            cs@ == x@,
            i <= cs.len(),
            count <= i,
            count == 0 ==> forall|j: int| 0 <= j < i ==> cs@[j] != '=',
            count >= 1 ==> first < i && cs@[first as int] == '=' && forall|j: int|
                0 <= j < first ==> cs@[j] != '=',
            count == 1 ==> forall|j: int| 0 <= j < i && j != first ==> cs@[j] != '=',
            count >= 2 ==> exists|j: int| 0 <= j < i && j != first && cs@[j] == '=',
        decreases cs.len() - i,
    {
        if cs[i] == '=' {
            if count == 0 {
                first = i;
            }
            if count < 2 {
                count += 1;
            }
        }
        i += 1;
    }
    if count != 1 {
        proof {
            assert forall|j: int| !#[trigger] sole_eq_at(x@, j) by {
                if count >= 2 && sole_eq_at(x@, j) {
                    let k = choose|k: int| 0 <= k < i && k != first && cs@[k] == '=';
                    assert(j == first || j == k);
                }
            }
        }
        return None;
    }
    let key = substring(x, 0, first);
    let value = substring(x, first + 1, cs.len());
    proof {
        assert(sole_eq_at(x@, first as int));
        let c = choose|i: int| sole_eq_at(x@, i);
        assert(c == first);
        assert(key@ =~= x@.take(first as int));
        assert(value@ =~= x@.skip(first + 1));
    }
    Some((key, value))
}

/// Reads every filter of `values` and keeps those of the right form, in
/// order.
pub fn parse_filters(values: &Vec<String>) -> (r: Vec<(String, String)>)
    ensures
        pair_texts(r@) == filters_of(texts(values@)),
{
    let mut r: Vec<(String, String)> = Vec::new();
    let mut i: usize = 0;
    while i < values.len()
        invariant
            i <= values.len(),
            pair_texts(r@) == filters_of(texts(values@.take(i as int))),
        decreases values.len() - i,
    {
        let ghost before = r@;
        proof {
            assert(values@.take(i + 1).drop_last() =~= values@.take(i as int));
            assert(texts(values@.take(i + 1)).drop_last() =~= texts(values@.take(i as int)));
            assert(texts(values@.take(i + 1)).last() == values@[i as int]@);
        }
        if let Some(pair) = parse_filter(values[i].as_str()) {
            r.push(pair);
            proof {
                assert(pair_texts(r@) =~= pair_texts(before).push((r@.last().0@, r@.last().1@)));
            }
        }
        i += 1;
    }
    proof {
        assert(values@.take(values@.len() as int) =~= values@);
    }
    r
}

/// How many instances `ls` shows when none is asked for.
pub const DEFAULT_LIMIT: usize = 3;

/// The number of instances `ls` shows: the given limit when it reads as a
/// number that fits, else the default.
pub fn parse_limit(value: Option<&str>) -> (r: usize)
    ensures
        match value {
            Some(v) => match unsigned_digits(v@) {
                Some(d) => if decimal_value(d) <= usize::MAX {
                    r == decimal_value(d)
                } else {
                    r == DEFAULT_LIMIT
                },
                None => r == DEFAULT_LIMIT,
            },
            None => r == DEFAULT_LIMIT,
        },
{
    match value {
        Some(v) => match parse_u64(v) {
            Some(n) => if n <= usize::MAX as u64 {
                n as usize
            } else {
                DEFAULT_LIMIT
            },
            None => DEFAULT_LIMIT,
        },
        None => DEFAULT_LIMIT,
    }
}

/// How many of `total` results are shown under `limit`.
pub fn shown_count(limit: usize, total: usize) -> (r: usize)
    ensures
        r == if limit <= total {
            limit
        } else {
            total
        },
{
    if limit <= total {
        limit
    } else {
        total
    }
}

} // verus!

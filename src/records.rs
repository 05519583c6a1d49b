use vstd::prelude::*;
use crate::key::{is_digit, is_valid_key, valid_key, views};
use crate::store::{no_entries, Store};

verus! {

/// The index of the first `:` in `l` at or after `i`.
pub open spec fn first_colon(l: Seq<char>, i: nat) -> Option<nat>
    decreases l.len() - i,
{
    if i >= l.len() {
        None
    } else if l[i as int] == ':' {
        Some(i)
    } else {
        first_colon(l, i + 1)
    }
}

/// A bootstrap line `key:value`, split at its first colon, when both sides are
/// digit strings.
pub open spec fn parse_line(l: Seq<char>) -> Option<(Seq<char>, Seq<char>)> {
    match first_colon(l, 0) {
        Some(i) => {
            let k = l.subrange(0, i as int);
            let v = l.subrange((i + 1) as int, l.len() as int);
            if valid_key(k) && valid_key(v) {
                Some((k, v))
            } else {
                None
            }
        },
        None => None,
    }
}

/// The line that carries the pair `(k, v)`.
pub open spec fn record_line(k: Seq<char>, v: Seq<char>) -> Seq<char> {
    k + seq![':'] + v
}

/// The store that loading `ls` into `m` leaves: each well-formed line inserts
/// its pair, later lines overwriting earlier ones, and other lines are dropped.
pub open spec fn loaded(m: Map<Seq<char>, Seq<char>>, ls: Seq<Seq<char>>) -> Map<Seq<char>, Seq<char>>
    decreases ls.len(),
{
    if ls.len() == 0 {
        m
    } else {
        let before = loaded(m, ls.drop_last());
        match parse_line(ls.last()) {
            Some(p) => before.insert(p.0, p.1),
            None => before,
        }
    }
}

/// The index of the first colon of `line`, if it has one.
fn find_colon(line: &str) -> (r: Option<usize>)
    ensures
        r.is_some() == first_colon(line@, 0).is_some(),
        r.is_some() ==> r.unwrap() as nat == first_colon(line@, 0).unwrap(),
        r.is_some() ==> r.unwrap() < line@.len(),
{
    let n = line.unicode_len();
    let mut i: usize = 0;
    while i < n
        invariant
            n == line@.len(),
            i <= n,
            first_colon(line@, 0) == first_colon(line@, i as nat),
        decreases n - i,
    {
        if line.get_char(i) == ':' {
            return Some(i);
        }
        i = i + 1;
    }
    None
}

/// Splits a bootstrap line into its key and value, when it is well-formed.
pub fn parse_record(line: &str) -> (r: Option<(String, String)>)
    ensures
        r.is_some() == parse_line(line@).is_some(),
        r.is_some() ==> (r.unwrap().0@, r.unwrap().1@) == parse_line(line@).unwrap(),
{
    match find_colon(line) {
        None => None,
        Some(i) => {
            let n = line.unicode_len();
            let key = line.substring_char(0, i);
            let value = line.substring_char(i + 1, n);
            if is_valid_key(key) && is_valid_key(value) {
                Some((key.to_owned(), value.to_owned()))
            } else {
                None
            }
        },
    }
}

/// The line `key:value`.
pub fn format_record(key: &str, value: &str) -> (r: String)
    ensures
        r@ == record_line(key@, value@),
{
    let mut line = String::from_str(key);
    line.append(":");
    line.append(value);
    proof {
        reveal_strlit(":");
    }
    line
}

/// A well-formed line is read back as the pair it was written from.
pub proof fn lemma_record_round_trip(k: Seq<char>, v: Seq<char>)
    requires
        valid_key(k),
        valid_key(v),
    ensures
        parse_line(record_line(k, v)) == Some((k, v)),
{
    let l = record_line(k, v);
    assert(l[k.len() as int] == ':');
    assert forall|i: nat| i <= k.len() implies first_colon(l, i) == Some(k.len()) by {
        lemma_colon_from(k, v, i);
    }
    assert(first_colon(l, 0) == Some(k.len()));
    assert(l.subrange(0, k.len() as int) =~= k);
    assert(l.subrange((k.len() + 1) as int, l.len() as int) =~= v);
}

proof fn lemma_colon_from(k: Seq<char>, v: Seq<char>, i: nat)
    requires
        valid_key(k),
        i <= k.len(),
    ensures
        first_colon(record_line(k, v), i) == Some(k.len()),
    decreases k.len() - i,
{
    let l = record_line(k, v);
    if i < k.len() {
        assert(is_digit(k[i as int]));
        assert(l[i as int] == k[i as int]);
        lemma_colon_from(k, v, i + 1);
    } else {
        assert(l[i as int] == ':');
    }
}

/// Loads the store from bootstrap lines: each line whose key and value are
/// both digit strings is inserted, the others are dropped.
pub fn load_mock_data(lines: &Vec<String>) -> (r: Store)
    ensures
        r@ == loaded(no_entries(), views(lines@)),
        r.wf(),
{
    let mut cache = Store::new();
    let mut i: usize = 0;
    while i < lines.len()
        invariant
            i <= lines.len(),
            cache.wf(),
            cache@ == loaded(no_entries(), views(lines@).take(i as int)),
        decreases lines.len() - i,
    {
        let ghost before = views(lines@).take(i as int);
        let ghost now = views(lines@).take(i + 1);
        assert(now.drop_last() =~= before);
        assert(now.last() == lines@[i as int]@);
        match parse_record(lines[i].as_str()) {
            Some((k, v)) => {
                cache.put(k, v);
            },
            None => {},
        }
        i = i + 1;
    }
    assert(views(lines@).take(lines.len() as int) =~= views(lines@));
    cache
}

} // verus!

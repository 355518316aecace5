use vstd::prelude::*;
use vstd::string::StrSliceExecFns;
use vstd::string::StringExecFns;
use crate::text::find_first;
use crate::text::lemma_find_first_char;
use crate::text::find_char;

verus! {

#[verifier::external_type_specification]
#[verifier::external_body]
#[verifier::reject_recursive_types(K)]
#[verifier::reject_recursive_types(V)]
pub struct ExCHashMap<K, V>(chashmap::CHashMap<K, V>);

/// Relies on chashmap::CHashMap::new: an empty concurrent map.
#[verifier::external_body]
fn map_new() -> chashmap::CHashMap<String, String> {
    chashmap::CHashMap::new()
}

/// Relies on chashmap::CHashMap::get: the value currently stored under the
/// key, if any. Other threads may store concurrently, so nothing further is
/// known of the result.
#[verifier::external_body]
fn map_get(m: &chashmap::CHashMap<String, String>, key: &str) -> (r: Option<String>) {
    m.get(key).map(|guard| guard.clone())
}

/// Relies on chashmap::CHashMap::insert: stores the value under the key,
/// replacing any previous one. Concurrent writers to the same key resolve
/// last-write-wins.
#[verifier::external_body]
fn map_insert(m: &chashmap::CHashMap<String, String>, key: String, val: String) {
    let _ = m.insert(key, val);
}

/// A concurrent store of session cookies, keyed by hostname. One jar is
/// shared by every step of a run: entries for distinct hostnames are
/// independent, and a store to one hostname overwrites that entry whole.
pub struct CookieJar {
    map: chashmap::CHashMap<String, String>,
}

impl CookieJar {
    /// A fresh, empty jar.
    pub fn new() -> (j: CookieJar) {
        CookieJar { map: map_new() }
    }

    /// The cookie header text currently persisted for this hostname, if any.
    /// Concurrent steps may store at any moment, so no stronger promise can
    /// be made of the result.
    pub fn lookup(&self, host: &str) -> (r: Option<String>) {
        map_get(&self.map, host)
    }

    /// Overwrites the entry for this hostname with the given cookie header
    /// text.
    pub fn store(&self, host: String, cookies: String) {
        map_insert(&self.map, host, cookies);
    }
}

/// The cookie pair a Set-Cookie header line denotes: everything before the
/// first semicolon, split at the first equals sign; a line without one
/// becomes a pair with an empty value.
pub open spec fn cookie_pair_of(line: Seq<char>) -> (Seq<char>, Seq<char>) {
    let part = match find_first(line, ';') {
        Option::Some(i) => line.take(i),
        Option::None => line,
    };
    match find_first(part, '=') {
        Option::Some(j) => (part.take(j), part.skip(j + 1)),
        Option::None => (part, Seq::<char>::empty()),
    }
}

/// The text of one cookie pair, as sent in a cookie header.
pub open spec fn pair_text(p: (Seq<char>, Seq<char>)) -> Seq<char> {
    p.0 + "="@ + p.1
}

/// The cookie header carrying the given pairs, joined by semicolons.
pub open spec fn cookie_header_of(pairs: Seq<(Seq<char>, Seq<char>)>) -> Seq<char>
    decreases pairs.len(),
{
    if pairs.len() == 0 {
        Seq::<char>::empty()
    } else if pairs.len() == 1 {
        pair_text(pairs[0])
    } else {
        cookie_header_of(pairs.drop_last()) + "; "@ + pair_text(pairs.last())
    }
}

/// Splits one Set-Cookie header line into its cookie pair.
pub fn parse_cookie_line(line: &str) -> (r: (String, String))
    ensures
        (r.0@, r.1@) == cookie_pair_of(line@),
{
    let n = line.unicode_len();
    proof {
        lemma_find_first_char(line@, ';');
    }
    let upto = match find_char(line, ';') {
        Option::Some(i) => i,
        Option::None => n,
    };
    assert(upto <= n);
    let part = line.substring_char(0, upto);
    proof {
        assert(part@ =~= match find_first(line@, ';') {
            Option::Some(i) => line@.take(i),
            Option::None => line@,
        });
    }
    let pn = part.unicode_len();
    match find_char(part, '=') {
        Option::Some(j) => {
            proof {
                lemma_find_first_char(part@, '=');
            }
            let key = part.substring_char(0, j);
            let val = part.substring_char(j + 1, pn);
            proof {
                assert(key@ =~= part@.take(j as int));
                assert(val@ =~= part@.skip(j + 1));
            }
            (String::from_str(key), String::from_str(val))
        },
        Option::None => {
            proof {
                assert(part@.subrange(0, part@.len() as int) =~= part@);
            }
            (String::from_str(part), String::new())
        },
    }
}

/// Law: a cookie pair whose key holds no `=` and whose text holds no `;`
/// survives the round trip from Set-Cookie line to persisted header: parsing
/// the line `key=value` yields exactly the pair (key, value), and the header
/// written for that one pair is the line itself. A later request to the same
/// host therefore carries `key=value` again.
pub proof fn lemma_cookie_round_trip(key: Seq<char>, value: Seq<char>)
    requires
        forall|i: int| 0 <= i < key.len() ==> key[i] != '=',
        forall|i: int| 0 <= i < key.len() ==> key[i] != ';',
        forall|i: int| 0 <= i < value.len() ==> value[i] != ';',
    ensures
        cookie_pair_of(key + "="@ + value) == (key, value),
        cookie_header_of(seq![(key, value)]) == key + "="@ + value,
{
    let line = key + "="@ + value;
    reveal_strlit("=");
    assert("="@.len() == 1);
    assert("="@[0] == '=');
    let kl = key.len() as int;
    assert(line[kl] == '=');
    assert(forall|i: int| 0 <= i < kl ==> line[i] == key[i]);
    assert(forall|i: int| kl + 1 <= i < line.len() ==> line[i] == value[i - kl - 1]);
    lemma_find_first_char(line, ';');
    match find_first(line, ';') {
        Option::Some(i) => {
            assert(line[i] == ';');
            if i < kl {
                assert(line[i] == key[i]);
            } else if i == kl {
                assert(line[i] == '=');
            } else {
                assert(line[i] == value[i - kl - 1]);
            }
            assert(false);
        },
        Option::None => {},
    }
    lemma_find_first_char(line, '=');
    match find_first(line, '=') {
        Option::None => {
            assert(false);
        },
        Option::Some(j) => {
            assert(line[j] == '=');
            if j < kl {
                assert(line[j] == key[j]);
                assert(false);
            }
            if j > kl {
                assert(line[kl] != '=');
                assert(false);
            }
            assert(j == kl);
            assert(line.take(j) =~= key);
            assert(line.skip(j + 1) =~= value);
            assert(cookie_pair_of(line) == (key, value));
        },
    }
    let pairs = seq![(key, value)];
    assert(pairs.len() == 1);
    assert(pairs[0] == (key, value));
    assert(cookie_header_of(pairs) == pair_text((key, value)));
}

/// The cookie pairs of a list of Set-Cookie header lines, in order.
pub open spec fn cookie_pairs_of(lines: Seq<Seq<char>>) -> Seq<(Seq<char>, Seq<char>)> {
    lines.map_values(|l: Seq<char>| cookie_pair_of(l))
}

/// Parses every Set-Cookie header line and serializes the accumulated pairs
/// into one cookie header.
pub fn cookies_header(lines: &Vec<String>) -> (r: String)
    ensures
        r@ == cookie_header_of(cookie_pairs_of(lines.deep_view())),
{
    let ghost pairs = cookie_pairs_of(lines.deep_view());
    let mut out = String::new();
    let mut i: usize = 0;
    proof {
        assert(pairs.len() == lines@.len());
    }
    while i < lines.len()
        invariant
            i <= lines@.len(),
            pairs == cookie_pairs_of(lines.deep_view()),
            pairs.len() == lines@.len(),
            out@ == cookie_header_of(pairs.take(i as int)),
        decreases lines@.len() - i,
    {
        let (k, v) = parse_cookie_line(lines[i].as_str());
        proof {
            assert(lines.deep_view()[i as int] == lines@[i as int]@);
            assert((k@, v@) == pairs[i as int]);
        }
        if i > 0 {
            out.append("; ");
        }
        out.append(k.as_str());
        out.append("=");
        out.append(v.as_str());
        proof {
            assert(pairs.take(i + 1).drop_last() =~= pairs.take(i as int));
            assert(pairs.take(i + 1).last() == pairs[i as int]);
            assert(pairs.take(i + 1).len() == i + 1);
            assert(out@ =~= cookie_header_of(pairs.take(i + 1)));
        }
        i += 1;
    }
    proof {
        assert(pairs.take(lines@.len() as int) =~= pairs);
    }
    out
}

} // verus!

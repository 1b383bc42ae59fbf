//! Settings of the server: how a line of the settings file is read, and
//! what a setting is where nothing sets it.
use vstd::prelude::*;

verus! {

/// Index of the first `c` in `s`, or the length of `s` where there is none.
pub open spec fn first_of(s: Seq<char>, c: char) -> int
    decreases s.len(),
{
    if s.len() == 0 {
        0
    } else if s[0] == c {
        0
    } else {
        1 + first_of(s.drop_first(), c)
    }
}

/// Index behind the last `c` in `s`, or zero where there is none.
pub open spec fn behind_last_of(s: Seq<char>, c: char) -> int
    decreases s.len(),
{
    if s.len() == 0 {
        0
    } else if s.last() == c {
        s.len() as int
    } else {
        behind_last_of(s.drop_last(), c)
    }
}

/// The name that a line sets: what stands in front of its first `=`.
pub open spec fn name_of(line: Seq<char>) -> Seq<char> {
    line.subrange(0, first_of(line, '='))
}

/// The value that a line gives: what stands behind its last `=`.
pub open spec fn value_of(line: Seq<char>) -> Seq<char> {
    line.subrange(behind_last_of(line, '='), line.len() as int)
}

/// Where no `c` stands before index `m`, and one stands there or the text
/// ends there, the first `c` is at `m`.
proof fn lemma_first_found(s: Seq<char>, c: char, m: int)
    requires
        0 <= m <= s.len(),
        forall|i: int| 0 <= i < m ==> s[i] != c,
        m == s.len() || s[m] == c,
    ensures
        first_of(s, c) == m,
    decreases s.len(),
{
    if m > 0 {
        let t = s.drop_first();
        assert forall|i: int| 0 <= i < m - 1 implies t[i] != c by {
            assert(t[i] == s[i + 1]);
        }
        if m < s.len() {
            assert(t[m - 1] == s[m]);
        }
        lemma_first_found(t, c, m - 1);
    }
}

/// Where no `c` stands from index `m` on, and one stands just before or
/// `m` is zero, the place behind the last `c` is `m`.
proof fn lemma_last_found(s: Seq<char>, c: char, m: int)
    requires
        0 <= m <= s.len(),
        forall|i: int| m <= i < s.len() ==> s[i] != c,
        m == 0 || s[m - 1] == c,
    ensures
        behind_last_of(s, c) == m,
    decreases s.len(),
{
    if m < s.len() {
        lemma_last_found(s.drop_last(), c, m);
    }
}

/// Reads one line of the settings file: the name is what stands in front
/// of the first `=`, the value what stands behind the last. A line without
/// `=` names itself and gives itself.
pub fn entry(line: &str) -> (r: (String, String))
    ensures
        r.0@ == name_of(line@),
        r.1@ == value_of(line@),
{
    let n = line.unicode_len();
    let mut first: usize = 0;
    while first < n && line.get_char(first) != '='
        invariant
            first <= n,
            n == line@.len(),
            forall|i: int| 0 <= i < first ==> line@[i] != '=',
        decreases n - first,
    {
        first += 1;
    }
    let mut last: usize = n;
    while last > 0 && line.get_char(last - 1) != '='
        invariant
            last <= n,
            n == line@.len(),
            forall|i: int| last <= i < n ==> line@[i] != '=',
        decreases last,
    {
        last -= 1;
    }
    proof {
        lemma_first_found(line@, '=', first as int);
        lemma_last_found(line@, '=', last as int);
    }
    (
        String::from_str(line.substring_char(0, first)),
        String::from_str(line.substring_char(last, n)),
    )
}

/// The value that a setting has where nothing sets it, for each setting
/// that has one.
pub open spec fn fallback(name: Seq<char>) -> Option<Seq<char>> {
    if name == "APNS_KEY"@ {
        Some("mongodb://localhost:27017"@)
    } else if name == "APNS_TEAM"@ {
        Some("mongodb://localhost:27017"@)
    } else if name == "DATABASE_URI"@ {
        Some("mongodb://localhost:27017"@)
    } else if name == "CLIENT_ORIGIN"@ {
        Some("http://localhost:3000"@)
    } else if name == "CLIENT_URL"@ {
        Some("http://localhost:3000"@)
    } else if name == "ADMIN_ORIGIN"@ {
        Some("http://localhost:4000"@)
    } else if name == "ADMIN_URL"@ {
        Some("http://localhost:4000"@)
    } else if name == "BASE_ORIGIN"@ {
        Some("http://localhost:8000"@)
    } else if name == "BASE_URL"@ {
        Some("http://localhost:8000"@)
    } else if name == "BASE_PATH"@ {
        Some(""@)
    } else if name == "HOST"@ {
        Some("127.0.0.1"@)
    } else if name == "PORT"@ {
        Some("8000"@)
    } else {
        None
    }
}

fn is_text(a: &str, b: &str) -> (r: bool)
    ensures
        r == (a@ == b@),
{
    let x = String::from_str(a);
    let y = String::from_str(b);
    x == y
}

/// The value that the setting `name` has where nothing sets it.
pub fn default_of(name: &str) -> (r: Option<String>)
    ensures
        match r {
            Some(v) => fallback(name@) == Some(v@),
            None => fallback(name@).is_none(),
        },
{
    if is_text(name, "APNS_KEY") {
        Some(String::from_str("mongodb://localhost:27017"))
    } else if is_text(name, "APNS_TEAM") {
        Some(String::from_str("mongodb://localhost:27017"))
    } else if is_text(name, "DATABASE_URI") {
        Some(String::from_str("mongodb://localhost:27017"))
    } else if is_text(name, "CLIENT_ORIGIN") {
        Some(String::from_str("http://localhost:3000"))
    } else if is_text(name, "CLIENT_URL") {
        Some(String::from_str("http://localhost:3000"))
    } else if is_text(name, "ADMIN_ORIGIN") {
        Some(String::from_str("http://localhost:4000"))
    } else if is_text(name, "ADMIN_URL") {
        Some(String::from_str("http://localhost:4000"))
    } else if is_text(name, "BASE_ORIGIN") {
        Some(String::from_str("http://localhost:8000"))
    } else if is_text(name, "BASE_URL") {
        Some(String::from_str("http://localhost:8000"))
    } else if is_text(name, "BASE_PATH") {
        Some(String::from_str(""))
    } else if is_text(name, "HOST") {
        Some(String::from_str("127.0.0.1"))
    } else if is_text(name, "PORT") {
        Some(String::from_str("8000"))
    } else {
        None
    }
}

} // verus!

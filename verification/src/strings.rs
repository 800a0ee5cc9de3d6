//! Text building blocks: joining, number rendering, splitting on dots, searching.
use vstd::prelude::*;

verus! {

/// Copies an optional string.
pub fn clone_opt_string(s: &Option<String>) -> (r: Option<String>)
    ensures
        r.deep_view() == s.deep_view(),
{
    match s {
        Some(v) => Some(v.clone()),
        None => None,
    }
}

/// Copies a list of strings.
pub fn clone_strings(v: &Vec<String>) -> (r: Vec<String>)
    ensures
        r.deep_view() == v.deep_view(),
{
    let mut r: Vec<String> = Vec::new();
    for i in 0..v.len()
        invariant
            r.deep_view() == v.deep_view().take(i as int),
    {
        r.push(v[i].clone());
        assert(v.deep_view().take(i + 1) == v.deep_view().take(i as int).push(v[i as int]@));
    }
    assert(v.deep_view().take(v.len() as int) == v.deep_view());
    r
}

/// Whether two optional strings hold the same text.
pub fn opt_string_eq(a: &Option<String>, b: &Option<String>) -> (r: bool)
    ensures
        r == (a.deep_view() == b.deep_view()),
{
    match (a, b) {
        (Some(x), Some(y)) => *x == *y,
        (None, None) => true,
        _ => false,
    }
}

/// Whether two lists of strings are equal element by element.
pub fn strings_eq(a: &Vec<String>, b: &Vec<String>) -> (r: bool)
    ensures
        r == (a.deep_view() == b.deep_view()),
{
    if a.len() != b.len() {
        assert(a.deep_view().len() != b.deep_view().len());
        return false;
    }
    for i in 0..a.len()
        invariant
            a.len() == b.len(),
            forall|j: int| 0 <= j < i ==> a[j]@ == b[j]@,
    {
        if a[i] != b[i] {
            assert(a.deep_view()[i as int] != b.deep_view()[i as int]);
            return false;
        }
    }
    assert(a.deep_view() =~= b.deep_view());
    true
}

/// `parts` separated by `sep`, as `[T]::join` lays them out.
pub open spec fn join(parts: Seq<Seq<char>>, sep: Seq<char>) -> Seq<char>
    decreases parts.len(),
{
    if parts.len() == 0 {
        Seq::empty()
    } else if parts.len() == 1 {
        parts[0]
    } else {
        join(parts.drop_last(), sep) + sep + parts.last()
    }
}

/// Joins strings with a separator.
pub fn join_strings(parts: &Vec<String>, sep: &str) -> (r: String)
    ensures
        r@ == join(parts.deep_view(), sep@),
{
    let mut r = String::new();
    for i in 0..parts.len()
        invariant
            r@ == join(parts.deep_view().take(i as int), sep@),
    {
        if i != 0 {
            r.append(sep);
        }
        r.append(parts[i].as_str());
        assert(parts.deep_view().take(i + 1).drop_last() == parts.deep_view().take(i as int));
    }
    assert(parts.deep_view().take(parts.len() as int) == parts.deep_view());
    r
}

/// The decimal digit `d` as text.
pub open spec fn digit_text(d: int) -> Seq<char> {
    if d == 0 {
        "0"@
    } else if d == 1 {
        "1"@
    } else if d == 2 {
        "2"@
    } else if d == 3 {
        "3"@
    } else if d == 4 {
        "4"@
    } else if d == 5 {
        "5"@
    } else if d == 6 {
        "6"@
    } else if d == 7 {
        "7"@
    } else if d == 8 {
        "8"@
    } else {
        "9"@
    }
}

/// The decimal rendering of a natural number, without leading zeros.
pub open spec fn nat_text(n: nat) -> Seq<char>
    decreases n,
{
    if n < 10 {
        digit_text(n as int)
    } else {
        nat_text(n / 10) + digit_text((n % 10) as int)
    }
}

/// The decimal rendering of an integer, with a leading `-` when negative.
pub open spec fn int_text(i: int) -> Seq<char> {
    if i < 0 {
        "-"@ + nat_text((-i) as nat)
    } else {
        nat_text(i as nat)
    }
}

fn digit_string(d: u64) -> (r: String)
    requires
        d < 10,
    ensures
        r@ == digit_text(d as int),
{
    let s = if d == 0 {
        "0"
    } else if d == 1 {
        "1"
    } else if d == 2 {
        "2"
    } else if d == 3 {
        "3"
    } else if d == 4 {
        "4"
    } else if d == 5 {
        "5"
    } else if d == 6 {
        "6"
    } else if d == 7 {
        "7"
    } else if d == 8 {
        "8"
    } else {
        "9"
    };
    String::from_str(s)
}

/// Renders an unsigned number in decimal.
pub fn u64_text(n: u64) -> (r: String)
    ensures
        r@ == nat_text(n as nat),
    decreases n,
{
    if n < 10 {
        digit_string(n)
    } else {
        let mut r = u64_text(n / 10);
        let d = digit_string(n % 10);
        r.append(d.as_str());
        r
    }
}

/// Renders a signed number in decimal.
pub fn i64_text(i: i64) -> (r: String)
    ensures
        r@ == int_text(i as int),
{
    if i < 0 {
        let magnitude: u64 = if i == i64::MIN {
            9223372036854775808u64
        } else {
            (-i) as u64
        };
        let digits = u64_text(magnitude);
        let mut r = String::from_str("-");
        r.append(digits.as_str());
        r
    } else {
        u64_text(i as u64)
    }
}

/// `true` or `false`, as `bool` displays.
pub open spec fn bool_text(b: bool) -> Seq<char> {
    if b {
        "true"@
    } else {
        "false"@
    }
}

/// Renders a boolean.
pub fn bool_string(b: bool) -> (r: String)
    ensures
        r@ == bool_text(b),
{
    if b {
        String::from_str("true")
    } else {
        String::from_str("false")
    }
}


/// The characters of a text, one by one.
pub fn text_chars(s: &str) -> (r: Vec<char>)
    ensures
        r@ == s@,
{
    let n = s.unicode_len();
    let mut r: Vec<char> = Vec::new();
    for i in 0..n
        invariant
            n == s@.len(),
            r@ == s@.take(i as int),
    {
        r.push(s.get_char(i));
        assert(s@.take(i + 1) == s@.take(i as int).push(s@[i as int]));
    }
    assert(s@.take(n as int) == s@);
    r
}

/// The characters of `s` from `from` up to `to`, as a new string.
pub fn sub_text(s: &str, from: usize, to: usize) -> (r: String)
    requires
        from <= to <= s@.len(),
    ensures
        r@ == s@.subrange(from as int, to as int),
{
    String::from_str(s.substring_char(from, to))
}

/// Index of the last `.` in `s`, or -1 when there is none.
pub open spec fn last_dot(s: Seq<char>) -> int
    decreases s.len(),
{
    if s.len() == 0 {
        -1
    } else if s.last() == '.' {
        s.len() - 1
    } else {
        last_dot(s.drop_last())
    }
}

pub proof fn lemma_last_dot_bounds(s: Seq<char>)
    ensures
        -1 <= last_dot(s) < s.len(),
        last_dot(s) >= 0 ==> s[last_dot(s)] == '.',
        forall|j: int| last_dot(s) < j < s.len() ==> s[j] != '.',
    decreases s.len(),
{
    if s.len() > 0 && s.last() != '.' {
        lemma_last_dot_bounds(s.drop_last());
        assert forall|j: int| last_dot(s) < j < s.len() implies s[j] != '.' by {
            if j < s.len() - 1 {
                assert(s[j] == s.drop_last()[j]);
            }
        }
    }
}

/// Finds the last `.` among the first `end` characters.
pub fn last_dot_in(chars: &Vec<char>, end: usize) -> (r: Option<usize>)
    requires
        end <= chars.len(),
    ensures
        r == (if last_dot(chars@.take(end as int)) >= 0 {
            Some(last_dot(chars@.take(end as int)) as usize)
        } else {
            None::<usize>
        }),
{
    let mut i = end;
    while i > 0
        invariant
            i <= end <= chars.len(),
            last_dot(chars@.take(end as int)) == last_dot(chars@.take(i as int)),
        decreases i,
    {
        assert(chars@.take(i as int).drop_last() == chars@.take(i - 1));
        if chars[i - 1] == '.' {
            return Some(i - 1);
        }
        i = i - 1;
    }
    None
}

/// The two parts of a name that holds exactly one `.`, as `split('.')` yields them.
pub open spec fn split_pair(s: Seq<char>) -> Option<(Seq<char>, Seq<char>)> {
    let d = last_dot(s);
    if d >= 0 && last_dot(s.take(d)) < 0 {
        Some((s.take(d), s.skip(d + 1)))
    } else {
        None
    }
}

/// Splits `schema.name`; `None` unless the name holds exactly one `.`.
pub fn split_pair_text(s: &str) -> (r: Option<(String, String)>)
    ensures
        match r {
            Some((a, b)) => split_pair(s@) == Some((a@, b@)),
            None => split_pair(s@) is None,
        },
{
    let chars = text_chars(s);
    let n = chars.len();
    match last_dot_in(&chars, n) {
        None => {
            assert(chars@.take(n as int) == s@);
            None
        },
        Some(d) => {
            proof {
                assert(chars@.take(n as int) == s@);
                lemma_last_dot_bounds(s@);
                assert(chars@.take(d as int) == s@.take(d as int));
            }
            match last_dot_in(&chars, d) {
                Some(_) => None,
                None => {
                    let a = sub_text(s, 0, d);
                    let b = sub_text(s, d + 1, n);
                    assert(a@ == s@.take(d as int));
                    assert(b@ == s@.skip(d + 1));
                    Some((a, b))
                },
            }
        },
    }
}

/// The parts of `schema.table.column` split at its last two dots, as `rsplitn(3, '.')` yields
/// them (the schema part may itself hold dots).
pub open spec fn split_triple(s: Seq<char>) -> Option<(Seq<char>, Seq<char>, Seq<char>)> {
    let l = last_dot(s);
    if l >= 0 {
        let m = last_dot(s.take(l));
        if m >= 0 {
            Some((s.take(m), s.subrange(m + 1, l), s.skip(l + 1)))
        } else {
            None
        }
    } else {
        None
    }
}

/// Splits a column name `schema.table.column` at its last two dots.
pub fn split_triple_text(s: &str) -> (r: Option<(String, String, String)>)
    ensures
        match r {
            Some((a, b, c)) => split_triple(s@) == Some((a@, b@, c@)),
            None => split_triple(s@) is None,
        },
{
    let chars = text_chars(s);
    let n = chars.len();
    assert(chars@.take(n as int) == s@);
    match last_dot_in(&chars, n) {
        None => None,
        Some(l) => {
            proof {
                lemma_last_dot_bounds(s@);
                assert(chars@.take(l as int) == s@.take(l as int));
            }
            match last_dot_in(&chars, l) {
                None => None,
                Some(m) => {
                    proof {
                        lemma_last_dot_bounds(s@.take(l as int));
                    }
                    let a = sub_text(s, 0, m);
                    let b = sub_text(s, m + 1, l);
                    let c = sub_text(s, l + 1, n);
                    assert(a@ == s@.take(l as int).take(m as int));
                    assert(c@ == s@.skip(l + 1));
                    Some((a, b, c))
                },
            }
        },
    }
}

/// Why a name of the form `schema.table.member` was refused.
#[derive(Debug, Clone, Copy, PartialEq, Eq, Structural)]
pub enum MemberNameError {
    /// The name holds no `.` at all.
    MissingDot,
    /// The part before the last `.` is not of the form `schema.table`.
    BadTableName,
}

/// `schema.table.member`: the member after the last `.`, then the part before it split as
/// `schema.table`.
pub open spec fn split_member(s: Seq<char>) -> Result<
    (Seq<char>, Seq<char>, Seq<char>),
    MemberNameError,
> {
    let l = last_dot(s);
    if l < 0 {
        Err(MemberNameError::MissingDot)
    } else {
        match split_pair(s.take(l)) {
            Some((schema, table)) => Ok((schema, table, s.skip(l + 1))),
            None => Err(MemberNameError::BadTableName),
        }
    }
}

/// Splits a constraint or index name `schema.table.member`.
pub fn split_member_text(s: &str) -> (r: Result<(String, String, String), MemberNameError>)
    ensures
        match r {
            Ok((a, b, c)) => split_member(s@) == Ok::<_, MemberNameError>((a@, b@, c@)),
            Err(e) => split_member(s@) == Err::<(Seq<char>, Seq<char>, Seq<char>), _>(e),
        },
{
    let chars = text_chars(s);
    let n = chars.len();
    assert(chars@.take(n as int) == s@);
    match last_dot_in(&chars, n) {
        None => Err(MemberNameError::MissingDot),
        Some(l) => {
            proof {
                lemma_last_dot_bounds(s@);
            }
            let prefix = sub_text(s, 0, l);
            assert(prefix@ == s@.take(l as int));
            match split_pair_text(prefix.as_str()) {
                None => Err(MemberNameError::BadTableName),
                Some((a, b)) => {
                    let c = sub_text(s, l + 1, n);
                    assert(c@ == s@.skip(l + 1));
                    Ok((a, b, c))
                },
            }
        },
    }
}

/// Whether `p` occurs in `s` as a run of consecutive characters.
pub open spec fn contains_text(s: Seq<char>, p: Seq<char>) -> bool {
    exists|i: int| 0 <= i && i + p.len() <= s.len() && #[trigger] s.subrange(i, i + p.len()) == p
}

fn occurs_at(s: &Vec<char>, p: &Vec<char>, i: usize) -> (r: bool)
    requires
        i + p.len() <= s.len(),
    ensures
        r == (s@.subrange(i as int, i + p.len()) == p@),
{
    for k in 0..p.len()
        invariant
            i + p.len() <= s.len(),
            forall|j: int| 0 <= j < k ==> s@[i + j] == p@[j],
    {
        if s[i + k] != p[k] {
            assert(s@.subrange(i as int, i + p.len())[k as int] != p@[k as int]);
            return false;
        }
    }
    assert(s@.subrange(i as int, i + p.len()) =~= p@);
    true
}

/// Substring search, as `str::contains` with a string pattern.
pub fn text_contains(s: &str, p: &str) -> (r: bool)
    ensures
        r == contains_text(s@, p@),
{
    let sc = text_chars(s);
    let pc = text_chars(p);
    if pc.len() > sc.len() {
        return false;
    }
    let last = sc.len() - pc.len();
    let mut i: usize = 0;
    while i < last
        invariant
            i <= last,
            last + pc.len() == sc.len(),
            sc@ == s@,
            pc@ == p@,
            forall|j: int| 0 <= j < i ==> #[trigger] s@.subrange(j, j + p@.len()) != p@,
        decreases last - i,
    {
        if occurs_at(&sc, &pc, i) {
            return true;
        }
        i = i + 1;
    }
    occurs_at(&sc, &pc, last)
}

} // verus!

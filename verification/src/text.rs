//! Character-level text utilities shared by all parsers.
//!
//! The diagnostic command's output is plain text; every scanner in this
//! crate is built from the small, fully specified operations in this module:
//! substring search, splitting, trimming and character filtering.

use vstd::prelude::*;

verus! {

/// Characters treated as whitespace by `trim` and by blank-line detection:
/// the ASCII whitespace characters.
pub open spec fn is_space_char(c: char) -> bool {
    c == ' ' || c == '\t' || c == '\r' || c == '\n' || c == '\u{0b}' || c == '\u{0c}'
}

/// Executable test for `is_space_char`.
pub fn char_is_space(c: char) -> (r: bool)
    ensures
        r == is_space_char(c),
{
    c == ' ' || c == '\t' || c == '\r' || c == '\n' || c == '\u{0b}' || c == '\u{0c}'
}

/// `p` occurs in `s` starting at position `i`.
pub open spec fn match_at(s: Seq<char>, p: Seq<char>, i: int) -> bool {
    &&& 0 <= i
    &&& i + p.len() <= s.len()
    &&& s.subrange(i, i + p.len() as int) == p
}

/// `p` occurs somewhere in `s`.
pub open spec fn contains_seq(s: Seq<char>, p: Seq<char>) -> bool {
    exists|i: int| match_at(s, p, i)
}

/// Position of the leftmost occurrence of `p` in `s`, if any.
pub open spec fn spec_find(s: Seq<char>, p: Seq<char>) -> Option<int>
    decreases s.len(),
{
    if p.len() > s.len() {
        None
    } else if match_at(s, p, 0) {
        Some(0)
    } else if s.len() == 0 {
        None
    } else {
        match spec_find(s.skip(1), p) {
            Some(i) => Some(i + 1),
            None => None,
        }
    }
}

/// `spec_find` returns the first match: a position where `p` occurs and
/// before which it does not, or `None` exactly when `p` occurs nowhere.
pub proof fn lemma_find_first(s: Seq<char>, p: Seq<char>)
    ensures
        match spec_find(s, p) {
            Some(i) => match_at(s, p, i) && forall|k: int| 0 <= k < i ==> !match_at(s, p, k),
            None => forall|k: int| !match_at(s, p, k),
        },
    decreases s.len(),
{
    if p.len() > s.len() {
        assert(forall|k: int| !match_at(s, p, k));
    } else if match_at(s, p, 0) {
    } else if s.len() == 0 {
        assert forall|k: int| !match_at(s, p, k) by {
            if k != 0 {
                assert(!(0 <= k && k + p.len() <= s.len()));
            }
        }
    } else {
        lemma_find_first(s.skip(1), p);
        assert forall|k: int|
            0 <= k && k + p.len() <= s.len() - 1 implies (match_at(s.skip(1), p, k) <==> match_at(
            s,
            p,
            k + 1,
        )) by {
            assert(s.skip(1).subrange(k, k + p.len() as int) =~= s.subrange(
                k + 1,
                k + 1 + p.len() as int,
            ));
        }
        match spec_find(s.skip(1), p) {
            Some(i) => {
                assert(match_at(s, p, i + 1));
                assert forall|k: int| 0 <= k < i + 1 implies !match_at(s, p, k) by {
                    if k != 0 && match_at(s, p, k) {
                        assert(match_at(s.skip(1), p, k - 1));
                    }
                }
            },
            None => {
                assert forall|k: int| !match_at(s, p, k) by {
                    if k != 0 && match_at(s, p, k) {
                        assert(match_at(s.skip(1), p, k - 1));
                    }
                }
            },
        }
    }
}

/// Number of characters in `s`.
pub fn str_len(s: &str) -> (n: usize)
    ensures
        n == s@.len(),
{
    s.unicode_len()
}

/// Leftmost occurrence of `p` in `s`, as a character index.
pub fn find_sub(s: &str, p: &str) -> (r: Option<usize>)
    ensures
        match r {
            Some(i) => spec_find(s@, p@) == Some(i as int),
            None => spec_find(s@, p@) is None,
        },
{
    proof {
        lemma_find_first(s@, p@);
    }
    let n = s.unicode_len();
    let m = p.unicode_len();
    if m > n {
        return None;
    }
    if m == 0 {
        proof {
            assert(s@.subrange(0, 0) =~= p@);
        }
        return Some(0);
    }
    let mut i: usize = 0;
    while i <= n - m
        invariant
            1 <= m <= n,
            n == s@.len(),
            m == p@.len(),
            i <= n - m + 1,
            forall|k: int| 0 <= k < i ==> !match_at(s@, p@, k),
        decreases n - m - i + 1,
    {
        let mut j: usize = 0;
        let mut ok = true;
        while j < m && ok
            invariant
                m <= n,
                n == s@.len(),
                m == p@.len(),
                i + m <= n,
                j <= m,
                ok ==> forall|t: int| 0 <= t < j ==> s@[i + t] == p@[t],
                !ok ==> !match_at(s@, p@, i as int),
            decreases m - j + (if ok { 1int } else { 0int }),
        {
            if s.get_char(i + j) == p.get_char(j) {
                j += 1;
            } else {
                proof {
                    if match_at(s@, p@, i as int) {
                        assert(s@.subrange(i as int, i + m as int)[j as int] == p@[j as int]);
                    }
                }
                ok = false;
            }
        }
        if ok {
            proof {
                assert(s@.subrange(i as int, i + m as int) =~= p@);
                assert(match_at(s@, p@, i as int));
                lemma_find_first(s@, p@);
                if let Some(j) = spec_find(s@, p@) {
                    assert(match_at(s@, p@, j));
                    if j < i {
                        assert(!match_at(s@, p@, j));
                    }
                    if i < j {
                        assert(!match_at(s@, p@, i as int));
                    }
                } else {
                    assert(!match_at(s@, p@, i as int));
                }
            }
            return Some(i);
        }
        i += 1;
    }
    proof {
        assert forall|k: int| !match_at(s@, p@, k) by {
            if 0 <= k && k + p@.len() <= s@.len() {
                assert(k < i);
            }
        }
        lemma_find_first(s@, p@);
    }
    None
}

/// Whether `p` occurs anywhere in `s`.
pub fn contains_sub(s: &str, p: &str) -> (r: bool)
    ensures
        r == contains_seq(s@, p@),
{
    proof {
        lemma_find_first(s@, p@);
    }
    match find_sub(s, p) {
        Some(_) => true,
        None => false,
    }
}

/// Whether the character `c` occurs in `s`.
pub fn contains_char(s: &str, c: char) -> (r: bool)
    ensures
        r == s@.contains(c),
{
    let n = s.unicode_len();
    let mut i: usize = 0;
    while i < n
        invariant
            n == s@.len(),
            i <= n,
            forall|k: int| 0 <= k < i ==> s@[k] != c,
        decreases n - i,
    {
        if s.get_char(i) == c {
            return true;
        }
        i += 1;
    }
    false
}

/// Whether `s` starts with `p`.
pub fn starts_with(s: &str, p: &str) -> (r: bool)
    ensures
        r == match_at(s@, p@, 0),
{
    let n = s.unicode_len();
    let m = p.unicode_len();
    if m > n {
        return false;
    }
    let mut j: usize = 0;
    while j < m
        invariant
            m <= n,
            n == s@.len(),
            m == p@.len(),
            j <= m,
            forall|t: int| 0 <= t < j ==> s@[t] == p@[t],
        decreases m - j,
    {
        if s.get_char(j) != p.get_char(j) {
            proof {
                if match_at(s@, p@, 0) {
                    assert(s@.subrange(0, m as int)[j as int] == p@[j as int]);
                }
            }
            return false;
        }
        j += 1;
    }
    proof {
        assert(s@.subrange(0, m as int) =~= p@);
    }
    true
}

/// The characters of `s` from `from` (inclusive) to `to` (exclusive).
pub fn substring<'a>(s: &'a str, from: usize, to: usize) -> (r: &'a str)
    requires
        from <= to <= s@.len(),
    ensures
        r@ == s@.subrange(from as int, to as int),
{
    s.substring_char(from, to)
}

/// The views of a sequence of string slices.
pub open spec fn views_of(ss: Seq<&str>) -> Seq<Seq<char>> {
    ss.map_values(|t: &str| t@)
}

/// `s` with its prefix `p` removed.
pub fn strip_prefix<'a>(s: &'a str, p: &str) -> (r: &'a str)
    requires
        match_at(s@, p@, 0),
    ensures
        r@ == s@.skip(p@.len() as int),
{
    let n = s.unicode_len();
    let m = p.unicode_len();
    let r = s.substring_char(m, n);
    proof {
        assert(s@.subrange(m as int, n as int) =~= s@.skip(m as int));
    }
    r
}

/// Whether two string slices hold the same characters.
pub fn str_eq(a: &str, b: &str) -> (r: bool)
    ensures
        r == (a@ == b@),
{
    let n = a.unicode_len();
    if n != b.unicode_len() {
        return false;
    }
    let mut i: usize = 0;
    while i < n
        invariant
            n == a@.len(),
            n == b@.len(),
            i <= n,
            forall|k: int| 0 <= k < i ==> a@[k] == b@[k],
        decreases n - i,
    {
        if a.get_char(i) != b.get_char(i) {
            return false;
        }
        i += 1;
    }
    proof {
        assert(a@ =~= b@);
    }
    true
}

/// `s` split on the non-overlapping leftmost occurrences of `sep`.
pub open spec fn spec_split(s: Seq<char>, sep: Seq<char>) -> Seq<Seq<char>>
    decreases s.len(),
    via spec_split_decreases
{
    if sep.len() == 0 {
        seq![s]
    } else {
        match spec_find(s, sep) {
            None => seq![s],
            Some(i) => seq![s.subrange(0, i)] + spec_split(s.skip(i + sep.len() as int), sep),
        }
    }
}

#[via_fn]
proof fn spec_split_decreases(s: Seq<char>, sep: Seq<char>) {
    lemma_find_first(s, sep);
}

/// A split has at least one part.
pub proof fn lemma_split_len(s: Seq<char>, sep: Seq<char>)
    ensures
        spec_split(s, sep).len() >= 1,
{
    lemma_find_first(s, sep);
}

/// Split `s` on the leftmost occurrences of `sep`, as `spec_split` does.
pub fn split_str<'a>(s: &'a str, sep: &str) -> (parts: Vec<&'a str>)
    requires
        sep@.len() >= 1,
    ensures
        views_of(parts@) == spec_split(s@, sep@),
        parts@.len() >= 1,
{
    let mut parts: Vec<&'a str> = Vec::new();
    let mut rest: &'a str = s;
    let seplen = sep.unicode_len();
    proof {
        assert(views_of(parts@) + spec_split(rest@, sep@) =~= spec_split(s@, sep@));
    }
    loop
        invariant
            seplen == sep@.len(),
            seplen >= 1,
            views_of(parts@) + spec_split(rest@, sep@) == spec_split(s@, sep@),
        decreases rest@.len(),
    {
        proof {
            lemma_find_first(rest@, sep@);
        }
        match find_sub(rest, sep) {
            Some(i) => {
                let n = rest.unicode_len();
                let head = substring(rest, 0, i);
                let tail = substring(rest, i + seplen, n);
                let ghost old_parts = parts@;
                parts.push(head);
                proof {
                    assert(tail@ =~= rest@.skip(i + seplen as int));
                    assert(spec_split(rest@, sep@) == seq![rest@.subrange(0, i as int)]
                        + spec_split(tail@, sep@));
                    assert(views_of(parts@) =~= views_of(old_parts).push(head@));
                    assert(views_of(parts@) + spec_split(tail@, sep@) =~= views_of(old_parts)
                        + spec_split(rest@, sep@));
                }
                rest = tail;
            },
            None => {
                let ghost old_parts = parts@;
                parts.push(rest);
                proof {
                    assert(spec_split(rest@, sep@) == seq![rest@]);
                    assert(views_of(parts@) =~= views_of(old_parts).push(rest@));
                    assert(views_of(parts@) =~= views_of(old_parts) + spec_split(rest@, sep@));
                    lemma_split_len(s@, sep@);
                }
                return parts;
            },
        }
    }
}

/// `s` with every character that occurs in `bad` removed.
pub open spec fn spec_remove_chars(s: Seq<char>, bad: Seq<char>) -> Seq<char>
    decreases s.len(),
{
    if s.len() == 0 {
        Seq::empty()
    } else if bad.contains(s[0]) {
        spec_remove_chars(s.skip(1), bad)
    } else {
        seq![s[0]] + spec_remove_chars(s.skip(1), bad)
    }
}

/// Remove from `s` every character that occurs in `bad`.
pub fn remove_chars(s: &str, bad: &str) -> (r: String)
    ensures
        r@ == spec_remove_chars(s@, bad@),
{
    let n = s.unicode_len();
    let mut r = String::new();
    let mut i: usize = 0;
    proof {
        assert(s@.skip(0) =~= s@);
        assert(r@ + spec_remove_chars(s@, bad@) =~= spec_remove_chars(s@, bad@));
    }
    while i < n
        invariant
            n == s@.len(),
            i <= n,
            r@ + spec_remove_chars(s@.skip(i as int), bad@) == spec_remove_chars(s@, bad@),
        decreases n - i,
    {
        let ghost old_r = r@;
        let c = s.get_char(i);
        if !contains_char(bad, c) {
            r.append(s.substring_char(i, i + 1));
        }
        proof {
            let rest = s@.skip(i as int);
            assert(rest.len() > 0);
            assert(rest[0] == s@[i as int]);
            assert(rest.skip(1) =~= s@.skip(i + 1));
            if bad@.contains(c) {
                assert(spec_remove_chars(rest, bad@) == spec_remove_chars(s@.skip(i + 1), bad@));
            } else {
                assert(spec_remove_chars(rest, bad@) == seq![c] + spec_remove_chars(
                    s@.skip(i + 1),
                    bad@,
                ));
                assert(s@.subrange(i as int, i + 1) =~= seq![c]);
                assert(r@ =~= old_r + seq![c]);
                assert(r@ + spec_remove_chars(s@.skip(i + 1), bad@) =~= old_r + (seq![c]
                    + spec_remove_chars(s@.skip(i + 1), bad@)));
            }
        }
        i += 1;
    }
    proof {
        assert(s@.skip(n as int) =~= Seq::<char>::empty());
        assert(r@ + Seq::<char>::empty() =~= r@);
    }
    r
}

/// `s` with every comma turned into a dot.
pub open spec fn spec_commas_to_dots(s: Seq<char>) -> Seq<char> {
    s.map_values(|c: char| if c == ',' { '.' } else { c })
}

/// Replace every comma in `s` with a dot.
pub fn commas_to_dots(s: &str) -> (r: String)
    ensures
        r@ == spec_commas_to_dots(s@),
{
    let n = s.unicode_len();
    let mut r = String::new();
    let mut i: usize = 0;
    while i < n
        invariant
            n == s@.len(),
            i <= n,
            r@ =~= spec_commas_to_dots(s@).take(i as int),
        decreases n - i,
    {
        let c = s.get_char(i);
        if c == ',' {
            r.append(".");
            proof {
                reveal_strlit(".");
            }
        } else {
            r.append(s.substring_char(i, i + 1));
        }
        proof {
            assert(r@ =~= spec_commas_to_dots(s@).take(i + 1));
        }
        i += 1;
    }
    proof {
        assert(spec_commas_to_dots(s@).take(n as int) =~= spec_commas_to_dots(s@));
    }
    r
}

/// `s` with every occurrence of `p` (leftmost, non-overlapping) removed.
pub open spec fn spec_remove_all(s: Seq<char>, p: Seq<char>) -> Seq<char>
    decreases s.len(),
    via spec_remove_all_decreases
{
    if p.len() == 0 {
        s
    } else {
        match spec_find(s, p) {
            None => s,
            Some(i) => s.subrange(0, i) + spec_remove_all(s.skip(i + p.len() as int), p),
        }
    }
}

#[via_fn]
proof fn spec_remove_all_decreases(s: Seq<char>, p: Seq<char>) {
    lemma_find_first(s, p);
}

/// Remove every occurrence of `p` from `s`.
pub fn remove_all(s: &str, p: &str) -> (r: String)
    requires
        p@.len() >= 1,
    ensures
        r@ == spec_remove_all(s@, p@),
{
    let mut r = String::new();
    let mut rest: &str = s;
    let plen = p.unicode_len();
    proof {
        assert(r@ + spec_remove_all(rest@, p@) =~= spec_remove_all(s@, p@));
    }
    loop
        invariant
            plen == p@.len(),
            plen >= 1,
            r@ + spec_remove_all(rest@, p@) == spec_remove_all(s@, p@),
        decreases rest@.len(),
    {
        proof {
            lemma_find_first(rest@, p@);
        }
        match find_sub(rest, p) {
            Some(i) => {
                let n = rest.unicode_len();
                let head = substring(rest, 0, i);
                let tail = substring(rest, i + plen, n);
                let ghost old_r = r@;
                r.append(head);
                proof {
                    assert(tail@ =~= rest@.skip(i + plen as int));
                    assert(spec_remove_all(rest@, p@) == rest@.subrange(0, i as int)
                        + spec_remove_all(tail@, p@));
                    assert(r@ + spec_remove_all(tail@, p@) =~= old_r + spec_remove_all(
                        rest@,
                        p@,
                    ));
                }
                rest = tail;
            },
            None => {
                r.append(rest);
                proof {
                    assert(spec_remove_all(rest@, p@) == rest@);
                }
                return r;
            },
        }
    }
}

/// `parts` joined with `sep` between consecutive parts.
pub open spec fn spec_join(parts: Seq<Seq<char>>, sep: Seq<char>) -> Seq<char>
    decreases parts.len(),
{
    if parts.len() == 0 {
        Seq::empty()
    } else if parts.len() == 1 {
        parts[0]
    } else {
        parts[0] + sep + spec_join(parts.skip(1), sep)
    }
}

/// Joining one more part appends a separator and that part.
pub proof fn lemma_join_push(parts: Seq<Seq<char>>, x: Seq<char>, sep: Seq<char>)
    ensures
        spec_join(parts.push(x), sep) == if parts.len() == 0 {
            x
        } else {
            spec_join(parts, sep) + sep + x
        },
    decreases parts.len(),
{
    if parts.len() == 0 {
        assert(parts.push(x)[0] == x);
    } else {
        lemma_join_push(parts.skip(1), x, sep);
        assert(parts.push(x).skip(1) =~= parts.skip(1).push(x));
        assert(parts.push(x)[0] == parts[0]);
        if parts.len() == 1 {
            assert(parts.skip(1).len() == 0);
            assert(spec_join(parts.push(x), sep) == parts[0] + sep + x);
        } else {
            assert(spec_join(parts.push(x), sep) == parts[0] + sep + (spec_join(
                parts.skip(1),
                sep,
            ) + sep + x));
            assert(parts[0] + sep + (spec_join(parts.skip(1), sep) + sep + x) =~= (parts[0] + sep
                + spec_join(parts.skip(1), sep)) + sep + x);
        }
    }
}

/// Join the parts with `sep` between consecutive parts.
pub fn join_strs(parts: &Vec<&str>, sep: &str) -> (r: String)
    ensures
        r@ == spec_join(views_of(parts@), sep@),
{
    let ghost vs = views_of(parts@);
    let mut r = String::new();
    let mut i: usize = 0;
    while i < parts.len()
        invariant
            vs == views_of(parts@),
            i <= parts.len(),
            r@ == spec_join(vs.take(i as int), sep@),
        decreases parts.len() - i,
    {
        if i > 0 {
            r.append(sep);
        }
        r.append(parts[i]);
        proof {
            assert(vs.take(i + 1) =~= vs.take(i as int).push(vs[i as int]));
            lemma_join_push(vs.take(i as int), vs[i as int], sep@);
            assert(vs[i as int] == parts@[i as int]@);
        }
        i += 1;
    }
    proof {
        assert(vs.take(parts@.len() as int) =~= vs);
        if parts@.len() == 0 {
            assert(r@ =~= spec_join(vs, sep@));
        }
    }
    r
}

/// Trim leading whitespace.
pub open spec fn spec_trim_front(s: Seq<char>) -> Seq<char>
    decreases s.len(),
{
    if s.len() > 0 && is_space_char(s[0]) {
        spec_trim_front(s.skip(1))
    } else {
        s
    }
}

/// Trim trailing whitespace.
pub open spec fn spec_trim_back(s: Seq<char>) -> Seq<char>
    decreases s.len(),
{
    if s.len() > 0 && is_space_char(s[s.len() - 1]) {
        spec_trim_back(s.take(s.len() - 1))
    } else {
        s
    }
}

/// `s` without leading and trailing whitespace.
pub open spec fn spec_trim(s: Seq<char>) -> Seq<char> {
    spec_trim_back(spec_trim_front(s))
}

proof fn lemma_trim_front_skip(s: Seq<char>, a: int)
    requires
        0 <= a <= s.len(),
        forall|k: int| 0 <= k < a ==> is_space_char(s[k]),
        a < s.len() ==> !is_space_char(s[a]),
    ensures
        spec_trim_front(s) == s.skip(a),
    decreases a,
{
    if a == 0 {
        assert(s.skip(0) =~= s);
    } else {
        assert(is_space_char(s[0]));
        lemma_trim_front_skip(s.skip(1), a - 1);
        assert(s.skip(1).skip(a - 1) =~= s.skip(a));
    }
}

proof fn lemma_trim_back_take(s: Seq<char>, b: int)
    requires
        0 <= b <= s.len(),
        forall|k: int| b <= k < s.len() ==> is_space_char(s[k]),
        b > 0 ==> !is_space_char(s[b - 1]),
    ensures
        spec_trim_back(s) == s.take(b),
    decreases s.len(),
{
    if b == s.len() {
        if s.len() > 0 && is_space_char(s[s.len() - 1]) {
            assert(!is_space_char(s[b - 1]));
        } else {
            assert(s.take(b) =~= s);
        }
    } else {
        assert(is_space_char(s[s.len() - 1]));
        lemma_trim_back_take(s.take(s.len() - 1), b);
        assert(s.take(s.len() - 1).take(b) =~= s.take(b));
    }
}

/// Remove leading and trailing whitespace from `s`.
pub fn trim<'a>(s: &'a str) -> (r: &'a str)
    ensures
        r@ == spec_trim(s@),
{
    let n = s.unicode_len();
    let mut a: usize = 0;
    while a < n && char_is_space(s.get_char(a))
        invariant
            n == s@.len(),
            a <= n,
            forall|k: int| 0 <= k < a ==> is_space_char(s@[k]),
        decreases n - a,
    {
        a += 1;
    }
    let mut b: usize = n;
    while b > a && char_is_space(s.get_char(b - 1))
        invariant
            n == s@.len(),
            a <= b <= n,
            forall|k: int| 0 <= k < a ==> is_space_char(s@[k]),
            forall|k: int| b <= k < n ==> is_space_char(s@[k]),
        decreases b,
    {
        b -= 1;
    }
    let r = s.substring_char(a, b);
    proof {
        lemma_trim_front_skip(s@, a as int);
        let t = s@.skip(a as int);
        assert forall|k: int| b - a <= k < t.len() implies is_space_char(t[k]) by {
            assert(t[k] == s@[k + a]);
        }
        if b > a {
            assert(t[b - a - 1] == s@[b - 1]);
        }
        lemma_trim_back_take(t, b - a);
        assert(s@.subrange(a as int, b as int) =~= t.take(b - a));
    }
    r
}

/// Whether `s` holds only whitespace.
pub fn is_blank(s: &str) -> (r: bool)
    ensures
        r == (spec_trim(s@).len() == 0),
{
    let t = trim(s);
    t.unicode_len() == 0
}

} // verus!


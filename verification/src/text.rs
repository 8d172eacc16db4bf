//! Searching, replacing and trimming text, over sequences of characters.

use vstd::prelude::*;

verus! {

/// `String::push` appends one character.
pub assume_specification[ String::push ](s: &mut String, c: char)
    ensures
        final(s)@ == old(s)@.push(c),
;

/// `p` stands in `s` at position `i`.
pub open spec fn occurs_at(s: Seq<char>, p: Seq<char>, i: int) -> bool {
    0 <= i && i + p.len() <= s.len() && s.subrange(i, i + p.len()) == p
}

/// `p` stands somewhere in `s`.
pub open spec fn includes(s: Seq<char>, p: Seq<char>) -> bool {
    exists|i: int| occurs_at(s, p, i)
}

/// `i` is the first position of `p` in `s`.
pub open spec fn first_at(s: Seq<char>, p: Seq<char>, i: int) -> bool {
    occurs_at(s, p, i) && forall|j: int| 0 <= j < i ==> !occurs_at(s, p, j)
}

/// Every occurrence of `from` in `s`, taken from the left without overlap, replaced by `to`. An
/// empty `from` replaces nothing.
pub open spec fn replace_all(s: Seq<char>, from: Seq<char>, to: Seq<char>) -> Seq<char>
    decreases s.len(),
{
    if from.len() == 0 || s.len() < from.len() {
        s
    } else if s.take(from.len() as int) == from {
        to + replace_all(s.skip(from.len() as int), from, to)
    } else {
        seq![s[0]] + replace_all(s.skip(1), from, to)
    }
}

/// `s` without the run of `c` at its start.
pub open spec fn trim_start(s: Seq<char>, c: char) -> Seq<char>
    decreases s.len(),
{
    if s.len() > 0 && s[0] == c {
        trim_start(s.skip(1), c)
    } else {
        s
    }
}

/// `s` without the run of `c` at its end.
pub open spec fn trim_end(s: Seq<char>, c: char) -> Seq<char>
    decreases s.len(),
{
    if s.len() > 0 && s.last() == c {
        trim_end(s.drop_last(), c)
    } else {
        s
    }
}

/// The characters with the Unicode property White_Space.
pub open spec fn is_space(c: char) -> bool {
    let u = c as u32;
    ||| 0x9 <= u <= 0xd
    ||| u == 0x20
    ||| u == 0x85
    ||| u == 0xa0
    ||| u == 0x1680
    ||| 0x2000 <= u <= 0x200a
    ||| u == 0x2028
    ||| u == 0x2029
    ||| u == 0x202f
    ||| u == 0x205f
    ||| u == 0x3000
}

/// `s` without the whitespace at its start.
pub open spec fn trim_space_start(s: Seq<char>) -> Seq<char>
    decreases s.len(),
{
    if s.len() > 0 && is_space(s[0]) {
        trim_space_start(s.skip(1))
    } else {
        s
    }
}

/// `s` without the whitespace at its end.
pub open spec fn trim_space_end(s: Seq<char>) -> Seq<char>
    decreases s.len(),
{
    if s.len() > 0 && is_space(s.last()) {
        trim_space_end(s.drop_last())
    } else {
        s
    }
}

/// `s` without the whitespace at both ends.
pub open spec fn trim_space(s: Seq<char>) -> Seq<char> {
    trim_space_end(trim_space_start(s))
}

/// The pieces of `s` between the occurrences of `c`; always at least one.
pub open spec fn split(s: Seq<char>, c: char) -> Seq<Seq<char>>
    decreases s.len(),
{
    if s.len() == 0 {
        seq![Seq::empty()]
    } else {
        let before = split(s.drop_last(), c);
        if s.last() == c {
            before.push(Seq::empty())
        } else {
            before.drop_last().push(before.last().push(s.last()))
        }
    }
}

/// The views of a list of strings.
pub open spec fn views(v: Seq<String>) -> Seq<Seq<char>> {
    Seq::new(v.len(), |i: int| v[i]@)
}

/// The characters of a string.
pub fn chars_of(s: &str) -> (r: Vec<char>)
    ensures
        r@ == s@,
{
    let mut r: Vec<char> = Vec::new();
    for c in it: s.chars()
        invariant
            r@ == it.seq().take(it.index()),
            it.seq() == s@,
    {
        r.push(c);
        assert(it.seq().take(it.index() + 1) == it.seq().take(it.index()).push(c));
    }
    assert(s@.take(s@.len() as int) == s@);
    r
}

/// The string made of the given characters.
pub fn string_of(v: &Vec<char>) -> (r: String)
    ensures
        r@ == v@,
{
    let mut r = String::new();
    let n: usize = v.len();
    for i in 0..n
        invariant
            n == v@.len(),
            r@ == v@.take(i as int),
    {
        r.push(v[i]);
        assert(v@.take(i + 1) == v@.take(i as int).push(v@[i as int]));
    }
    assert(v@.take(n as int) == v@);
    r
}

/// Whether `p` stands in `s` at position `i`.
pub fn matches_at(s: &Vec<char>, p: &Vec<char>, i: usize) -> (r: bool)
    ensures
        r == occurs_at(s@, p@, i as int),
{
    if p.len() > s.len() || i > s.len() - p.len() {
        return false;
    }
    let n: usize = p.len();
    for k in 0..n
        invariant
            n == p@.len(),
            i + n <= s.len(),
            forall|j: int| 0 <= j < k ==> s@[i + j] == p@[j],
    {
        if s[i + k] != p[k] {
            assert(s@.subrange(i as int, i + p@.len())[k as int] != p@[k as int]);
            return false;
        }
    }
    assert(s@.subrange(i as int, i + p@.len()) =~= p@);
    true
}

/// The first position of `p` in `s`.
pub fn find(s: &Vec<char>, p: &Vec<char>) -> (r: Option<usize>)
    ensures
        match r {
            Some(i) => first_at(s@, p@, i as int),
            None => !includes(s@, p@),
        },
{
    let n: usize = s.len();
    let mut i: usize = 0;
    while i < n
        invariant
            n == s@.len(),
            i <= n,
            forall|j: int| 0 <= j < i ==> !occurs_at(s@, p@, j),
        decreases n - i,
    {
        if matches_at(s, p, i) {
            return Some(i);
        }
        i += 1;
    }
    if matches_at(s, p, i) {
        return Some(i);
    }
    assert(!includes(s@, p@)) by {
        if includes(s@, p@) {
            let j = choose|j: int| occurs_at(s@, p@, j);
            assert(j <= n);
        }
    }
    None
}

/// Appends all of `part` to `out`.
pub fn push_chars(out: &mut Vec<char>, part: &Vec<char>)
    ensures
        final(out)@ == old(out)@ + part@,
{
    let n: usize = part.len();
    for i in 0..n
        invariant
            n == part@.len(),
            out@ == old(out)@ + part@.take(i as int),
    {
        out.push(part[i]);
        assert(part@.take(i + 1) == part@.take(i as int).push(part@[i as int]));
    }
    assert(part@.take(n as int) == part@);
}

/// `s` with every occurrence of `from` replaced by `to`.
pub fn replace(s: &Vec<char>, from: &Vec<char>, to: &Vec<char>) -> (r: Vec<char>)
    ensures
        r@ == replace_all(s@, from@, to@),
{
    let mut out: Vec<char> = Vec::new();
    let n: usize = s.len();
    let m: usize = from.len();
    let mut i: usize = 0;
    assert(s@.skip(0) == s@);
    while i < n
        invariant
            n == s@.len(),
            m == from@.len(),
            i <= n,
            out@ + replace_all(s@.skip(i as int), from@, to@) == replace_all(s@, from@, to@),
        decreases n - i,
    {
        let ghost rest = s@.skip(i as int);
        if m > 0 && matches_at(s, from, i) {
            assert(rest.take(m as int) == s@.subrange(i as int, i + m));
            assert(rest.skip(m as int) == s@.skip(i + m));
            push_chars(&mut out, to);
            i += m;
        } else {
            assert(s@.skip(i + 1) == rest.skip(1));
            proof {
                if m > 0 && rest.len() >= m {
                    assert(rest.take(m as int) == s@.subrange(i as int, i + m));
                } else {
                    assert(replace_all(rest, from@, to@) == rest);
                    assert(replace_all(rest.skip(1), from@, to@) == rest.skip(1));
                    assert(rest == seq![rest[0]] + rest.skip(1));
                }
            }
            out.push(s[i]);
            i += 1;
        }
    }
    assert(s@.skip(n as int) == Seq::<char>::empty());
    assert(replace_all(s@.skip(n as int), from@, to@) == Seq::<char>::empty());
    out
}

/// The characters from position `from` up to `to`.
pub fn slice(s: &Vec<char>, from: usize, to: usize) -> (r: Vec<char>)
    requires
        from <= to <= s@.len(),
    ensures
        r@ == s@.subrange(from as int, to as int),
{
    let mut r: Vec<char> = Vec::new();
    for i in from..to
        invariant
            from <= to <= s@.len(),
            r@ == s@.subrange(from as int, i as int),
    {
        r.push(s[i]);
        assert(s@.subrange(from as int, i + 1) == s@.subrange(from as int, i as int).push(
            s@[i as int],
        ));
    }
    r
}

/// Whether `p` stands somewhere in `s`.
pub fn contains(s: &str, p: &str) -> (r: bool)
    ensures
        r == includes(s@, p@),
{
    match find(&chars_of(s), &chars_of(p)) {
        Some(i) => {
            assert(occurs_at(s@, p@, i as int));
            true
        },
        None => false,
    }
}

/// Whether `s` ends with `p`.
pub fn ends_with(s: &str, p: &str) -> (r: bool)
    ensures
        r == occurs_at(s@, p@, s@.len() - p@.len()),
{
    let s = chars_of(s);
    let p = chars_of(p);
    if p.len() > s.len() {
        return false;
    }
    matches_at(&s, &p, s.len() - p.len())
}

/// Whether two strings hold the same characters.
pub fn same(a: &str, b: &str) -> (r: bool)
    ensures
        r == (a@ == b@),
{
    let a = chars_of(a);
    let b = chars_of(b);
    if a.len() != b.len() {
        return false;
    }
    let r = matches_at(&a, &b, 0);
    assert(a@.subrange(0, b@.len() as int) == a@);
    r
}

/// `s` without the run of `c` at its start.
pub fn without_leading(s: &str, c: char) -> (r: String)
    ensures
        r@ == trim_start(s@, c),
{
    let v = chars_of(s);
    let n: usize = v.len();
    let mut i: usize = 0;
    assert(v@.skip(0) == v@);
    while i < n && v[i] == c
        invariant
            n == v@.len(),
            i <= n,
            trim_start(v@.skip(i as int), c) == trim_start(v@, c),
        decreases n - i,
    {
        assert(v@.skip(i as int).skip(1) == v@.skip(i + 1));
        i += 1;
    }
    assert(v@.skip(i as int) == v@.subrange(i as int, n as int));
    string_of(&slice(&v, i, n))
}

/// `s` without the run of `c` at its end.
pub fn without_trailing(s: &str, c: char) -> (r: String)
    ensures
        r@ == trim_end(s@, c),
{
    let v = chars_of(s);
    let mut n: usize = v.len();
    assert(v@.take(n as int) == v@);
    while n > 0 && v[n - 1] == c
        invariant
            n <= v@.len(),
            trim_end(v@.take(n as int), c) == trim_end(v@, c),
        decreases n,
    {
        assert(v@.take(n as int).drop_last() == v@.take(n - 1));
        n -= 1;
    }
    assert(v@.take(n as int) == v@.subrange(0, n as int));
    string_of(&slice(&v, 0, n))
}

/// Whether `c` is a whitespace character.
pub fn space(c: char) -> (r: bool)
    ensures
        r == is_space(c),
{
    let u: u32 = c as u32;
    (0x9 <= u && u <= 0xd) || u == 0x20 || u == 0x85 || u == 0xa0 || u == 0x1680 || (0x2000 <= u
        && u <= 0x200a) || u == 0x2028 || u == 0x2029 || u == 0x202f || u == 0x205f || u == 0x3000
}

/// `v` without the whitespace at both ends.
pub fn trimmed(v: &Vec<char>) -> (r: Vec<char>)
    ensures
        r@ == trim_space(v@),
{
    let len: usize = v.len();
    let mut i: usize = 0;
    assert(v@.skip(0) == v@);
    while i < len && space(v[i])
        invariant
            len == v@.len(),
            i <= len,
            trim_space_start(v@.skip(i as int)) == trim_space_start(v@),
        decreases len - i,
    {
        assert(v@.skip(i as int).skip(1) == v@.skip(i + 1));
        i += 1;
    }
    let ghost tail = trim_space_start(v@);
    assert(tail == v@.subrange(i as int, len as int));
    let mut n: usize = len;
    while n > i && space(v[n - 1])
        invariant
            i <= n <= v@.len(),
            trim_space_end(v@.subrange(i as int, n as int)) == trim_space_end(tail),
        decreases n,
    {
        assert(v@.subrange(i as int, n as int).drop_last() == v@.subrange(i as int, n - 1));
        n -= 1;
    }
    slice(v, i, n)
}

/// The pieces of `s` between the occurrences of `c`.
pub fn pieces(s: &str, c: char) -> (r: Vec<Vec<char>>)
    ensures
        r@.len() == split(s@, c).len(),
        forall|i: int| 0 <= i < r@.len() ==> (#[trigger] r@[i])@ == split(s@, c)[i],
{
    let v = chars_of(s);
    let n: usize = v.len();
    let mut out: Vec<Vec<char>> = Vec::new();
    let mut last: Vec<char> = Vec::new();
    for i in 0..n
        invariant
            n == v@.len(),
            split(v@.take(i as int), c).len() == out@.len() + 1,
            forall|k: int|
                0 <= k < out@.len() ==> (#[trigger] out@[k])@ == split(v@.take(i as int), c)[k],
            last@ == split(v@.take(i as int), c).last(),
    {
        assert(v@.take(i + 1).drop_last() == v@.take(i as int));
        if v[i] == c {
            out.push(last);
            last = Vec::new();
        } else {
            last.push(v[i]);
        }
    }
    assert(v@.take(n as int) == v@);
    out.push(last);
    out
}

/// At most the first four hundred characters of an upstream message.
pub fn truncate_for_error(s: &str) -> (r: String)
    ensures
        r@ == s@.take(if s@.len() <= 400 {
            s@.len() as int
        } else {
            400
        }),
{
    let v = chars_of(s);
    let n: usize = if v.len() <= 400 {
        v.len()
    } else {
        400
    };
    assert(v@.take(n as int) == v@.subrange(0, n as int));
    string_of(&slice(&v, 0, n))
}

/// What is left after trimming starts with another character, and only that character was taken
/// away.
pub proof fn trim_start_takes_the_run(s: Seq<char>, c: char)
    ensures
        trim_start(s, c).len() > 0 ==> trim_start(s, c)[0] != c,
        trim_start(s, c).len() <= s.len(),
        trim_start(s, c) == s.skip(s.len() - trim_start(s, c).len()),
        forall|i: int| 0 <= i < s.len() - trim_start(s, c).len() ==> #[trigger] s[i] == c,
    decreases s.len(),
{
    if s.len() > 0 && s[0] == c {
        let t = trim_start(s.skip(1), c);
        trim_start_takes_the_run(s.skip(1), c);
        assert forall|i: int| 0 <= i < s.len() - t.len() implies #[trigger] s[i] == c by {
            if i > 0 {
                assert(s.skip(1)[i - 1] == c);
            }
        }
        assert(s.skip(1).skip(s.len() - 1 - t.len()) =~= s.skip(s.len() - t.len()));
    } else {
        assert(s.skip(0) =~= s);
    }
}

/// What is left after trimming ends with another character, and only that character was taken
/// away.
pub proof fn trim_end_takes_the_run(s: Seq<char>, c: char)
    ensures
        trim_end(s, c).len() > 0 ==> trim_end(s, c).last() != c,
        trim_end(s, c).len() <= s.len(),
        trim_end(s, c) == s.take(trim_end(s, c).len() as int),
        forall|i: int| trim_end(s, c).len() <= i < s.len() ==> #[trigger] s[i] == c,
    decreases s.len(),
{
    if s.len() > 0 && s.last() == c {
        let t = trim_end(s.drop_last(), c);
        trim_end_takes_the_run(s.drop_last(), c);
        assert forall|i: int| t.len() <= i < s.len() implies #[trigger] s[i] == c by {
            if i < s.len() - 1 {
                assert(s.drop_last()[i] == c);
            }
        }
        assert(s.drop_last().take(t.len() as int) =~= s.take(t.len() as int));
    } else {
        assert(s.take(s.len() as int) =~= s);
    }
}

/// Where `from` occurs, the replaced text holds `to`.
pub proof fn replace_puts_in(s: Seq<char>, from: Seq<char>, to: Seq<char>)
    requires
        from.len() > 0,
        includes(s, from),
    ensures
        includes(replace_all(s, from, to), to),
    decreases s.len(),
{
    let r = replace_all(s, from, to);
    let i = choose|i: int| occurs_at(s, from, i);
    if s.take(from.len() as int) == from {
        assert(r.subrange(0, to.len() as int) =~= to);
        assert(occurs_at(r, to, 0));
    } else {
        assert(s.subrange(0, from.len() as int) =~= s.take(from.len() as int));
        assert(i > 0);
        let rest = replace_all(s.skip(1), from, to);
        assert(s.skip(1).subrange(i - 1, i - 1 + from.len()) =~= s.subrange(i, i + from.len()));
        assert(occurs_at(s.skip(1), from, i - 1));
        replace_puts_in(s.skip(1), from, to);
        let j = choose|j: int| occurs_at(rest, to, j);
        assert(r.subrange(j + 1, j + 1 + to.len()) =~= rest.subrange(j, j + to.len()));
        assert(occurs_at(r, to, j + 1));
    }
}

/// What stands between two texts occurs there.
pub proof fn part_is_included(a: Seq<char>, p: Seq<char>, b: Seq<char>)
    ensures
        occurs_at(a + p + b, p, a.len() as int),
        includes(a + p + b, p),
{
    assert((a + p + b).subrange(a.len() as int, (a.len() + p.len()) as int) =~= p);
    assert(occurs_at(a + p + b, p, a.len() as int));
}

/// A text is what stands before an occurrence, the occurrence, and what stands behind it.
pub proof fn occurrence_splits(s: Seq<char>, p: Seq<char>, i: int)
    requires
        occurs_at(s, p, i),
    ensures
        0 <= i <= s.len() - p.len(),
        s == s.take(i) + p + s.skip(i + p.len()),
{
    assert(s =~= s.take(i) + s.subrange(i, i + p.len()) + s.skip(i + p.len()));
}

/// What is included can be cut out.
pub proof fn included_part_splits(s: Seq<char>, p: Seq<char>)
    requires
        includes(s, p),
    ensures
        exists|i: int| 0 <= i <= s.len() && s == #[trigger] s.take(i) + p + s.skip(i + p.len()),
{
    let i = choose|i: int| occurs_at(s, p, i);
    occurrence_splits(s, p, i);
}

/// The first occurrence is an occurrence, and no other one stands before it.
pub proof fn first_is_least(s: Seq<char>, p: Seq<char>, i: int, j: int)
    requires
        first_at(s, p, i),
    ensures
        s == s.take(i) + p + s.skip(i + p.len()),
        occurs_at(s, p, j) ==> i <= j,
{
    occurrence_splits(s, p, i);
}

/// Where there is an occurrence there is a first one.
pub proof fn first_exists(s: Seq<char>, p: Seq<char>, i: int)
    requires
        occurs_at(s, p, i),
    ensures
        exists|k: int| 0 <= k <= i && first_at(s, p, k),
    decreases i,
{
    if forall|j: int| 0 <= j < i ==> !occurs_at(s, p, j) {
        assert(first_at(s, p, i));
    } else {
        let j = choose|j: int| 0 <= j < i && occurs_at(s, p, j);
        first_exists(s, p, j);
    }
}

/// A text of one character occurs where that character stands.
pub proof fn single_occurs_where_it_stands(s: Seq<char>, c: char, i: int)
    requires
        0 <= i < s.len(),
    ensures
        occurs_at(s, seq![c], i) == (s[i] == c),
{
    if s[i] == c {
        assert(s.subrange(i, i + 1) =~= seq![c]);
    } else {
        assert(s.subrange(i, i + 1)[0] != seq![c][0]);
    }
}

/// Replacing keeps what stands before the first occurrence, puts the replacement in its place, and
/// goes on behind it.
pub proof fn replace_goes_on(a: Seq<char>, from: Seq<char>, to: Seq<char>, b: Seq<char>)
    requires
        from.len() > 0,
        first_at(a + from + b, from, a.len() as int),
    ensures
        replace_all(a + from + b, from, to) == a + to + replace_all(b, from, to),
    decreases a.len(),
{
    let s = a + from + b;
    if a.len() == 0 {
        assert(s.take(from.len() as int) =~= from);
        assert(s.skip(from.len() as int) =~= b);
        assert(a + to + replace_all(b, from, to) =~= to + replace_all(b, from, to));
    } else {
        assert(!occurs_at(s, from, 0));
        assert(s.subrange(0, from.len() as int) =~= s.take(from.len() as int));
        let rest = a.skip(1);
        let t = rest + from + b;
        assert(s.skip(1) =~= t);
        assert(t.subrange(rest.len() as int, (rest.len() + from.len()) as int) =~= from);
        assert forall|j: int| 0 <= j < rest.len() implies !occurs_at(t, from, j) by {
            if occurs_at(t, from, j) {
                assert(s.subrange(j + 1, j + 1 + from.len()) =~= t.subrange(j, j + from.len()));
                assert(occurs_at(s, from, j + 1));
            }
        }
        replace_goes_on(rest, from, to, b);
        assert(replace_all(s, from, to) =~= a + to + replace_all(b, from, to));
    }
}

proof fn leading_space_is_taken(before: Seq<char>, rest: Seq<char>)
    requires
        forall|i: int| 0 <= i < before.len() ==> is_space(#[trigger] before[i]),
    ensures
        trim_space_start(before + rest) == trim_space_start(rest),
    decreases before.len(),
{
    if before.len() == 0 {
        assert(before + rest =~= rest);
    } else {
        assert((before + rest).skip(1) =~= before.skip(1) + rest);
        assert((before + rest)[0] == before[0]);
        leading_space_is_taken(before.skip(1), rest);
    }
}

proof fn trailing_space_is_taken(rest: Seq<char>, after: Seq<char>)
    requires
        forall|i: int| 0 <= i < after.len() ==> is_space(#[trigger] after[i]),
    ensures
        trim_space_end(rest + after) == trim_space_end(rest),
    decreases after.len(),
{
    if after.len() == 0 {
        assert(rest + after =~= rest);
    } else {
        assert((rest + after).drop_last() =~= rest + after.drop_last());
        assert((rest + after).last() == after[after.len() - 1]);
        trailing_space_is_taken(rest, after.drop_last());
    }
}

/// Trimming takes all whitespace at both ends and nothing else.
pub proof fn trim_space_takes_the_ends(before: Seq<char>, middle: Seq<char>, after: Seq<char>)
    requires
        forall|i: int| 0 <= i < before.len() ==> is_space(#[trigger] before[i]),
        forall|i: int| 0 <= i < after.len() ==> is_space(#[trigger] after[i]),
        middle.len() > 0 ==> !is_space(middle[0]) && !is_space(middle.last()),
    ensures
        trim_space(before + middle + after) == middle,
{
    assert(before + middle + after =~= before + (middle + after));
    leading_space_is_taken(before, middle + after);
    if middle.len() > 0 {
        assert((middle + after)[0] == middle[0]);
        trailing_space_is_taken(middle, after);
    } else {
        assert(middle + after =~= after + Seq::empty());
        leading_space_is_taken(after, Seq::empty());
        assert(trim_space(before + middle + after) =~= middle);
    }
}

/// The whitespace characters, by number.
pub proof fn whitespace_by_number(c: char)
    ensures
        c == ' ' || c == '\t' || c == '\n' || c == '\r' ==> is_space(c),
        33 <= c as u32 <= 126 ==> !is_space(c),
{
}

proof fn split_is_not_empty(s: Seq<char>, c: char)
    ensures
        split(s, c).len() > 0,
    decreases s.len(),
{
    if s.len() > 0 {
        split_is_not_empty(s.drop_last(), c);
    }
}

/// A text without the separator is one piece.
pub proof fn split_without_separator(s: Seq<char>, c: char)
    requires
        !s.contains(c),
    ensures
        split(s, c) == seq![s],
    decreases s.len(),
{
    if s.len() > 0 {
        let front = s.drop_last();
        assert forall|i: int| 0 <= i < front.len() implies front[i] != c by {
            assert(s[i] == front[i]);
            assert(s.contains(s[i]));
        }
        split_without_separator(front, c);
        assert(s.contains(s.last()));
        assert(front.push(s.last()) =~= s);
        assert(split(front, c).last() == front);
        assert(split(s, c) =~= seq![s]);
    } else {
        assert(s =~= Seq::empty());
    }
}

/// A separator ends one piece and begins the next.
pub proof fn split_at_separator(a: Seq<char>, c: char, b: Seq<char>)
    ensures
        split(a + seq![c] + b, c) == split(a, c) + split(b, c),
    decreases b.len(),
{
    let s = a + seq![c] + b;
    split_is_not_empty(b, c);
    if b.len() == 0 {
        assert(s.drop_last() =~= a);
        assert(split(s, c) =~= split(a, c) + split(b, c));
    } else {
        let front = b.drop_last();
        assert(s.drop_last() =~= a + seq![c] + front);
        assert(s.last() == b.last());
        split_at_separator(a, c, front);
        split_is_not_empty(front, c);
        assert(split(s, c) =~= split(a, c) + split(b, c));
    }
}

/// The views of a list of strings are the views of each.
pub proof fn views_are_elementwise(v: Seq<String>, i: int)
    requires
        0 <= i < v.len(),
    ensures
        views(v).len() == v.len(),
        views(v)[i] == v[i]@,
{
}

/// A text of at most four hundred characters is kept whole, and of a longer one the first four
/// hundred are.
pub proof fn short_text_is_kept(s: &str, shown: Seq<char>, more: Seq<char>, r: String)
    requires
        call_ensures(truncate_for_error, (s,), r),
        s@ == shown + more,
        shown.len() <= 400,
        more.len() > 0 ==> shown.len() == 400,
    ensures
        r@ == shown,
{
    let n = if s@.len() <= 400 {
        s@.len() as int
    } else {
        400
    };
    assert(s@.take(n) =~= shown);
}

} // verus!

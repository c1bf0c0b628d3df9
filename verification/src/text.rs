//! Character-level string helpers shared by the formatting, search and
//! folder-tree modules. Strings are modelled by their `Seq<char>` view.

use vstd::prelude::*;

verus! {

/// Collects the characters of `s` into a vector.
pub fn chars_of(s: &str) -> (v: Vec<char>)
    ensures
        v@ == s@,
{
    let mut v: Vec<char> = Vec::new();
    for c in it: s.chars()
        invariant
            it.seq() == s@,
            v@ == it.seq().take(it.index()),
    {
        v.push(c);
    }
    v
}

/// Appends one character (`String::push`).
#[verifier::external_body]
pub(crate) fn push_char(s: &mut String, c: char)
    ensures
        final(s)@ == old(s)@.push(c),
{
    s.push(c);
}

/// Builds a `String` from the characters in `v[from..to]`.
pub fn string_from_chars(v: &Vec<char>, from: usize, to: usize) -> (s: String)
    requires
        from <= to <= v.len(),
    ensures
        s@ == v@.subrange(from as int, to as int),
{
    let mut s = String::new();
    let mut i = from;
    while i < to
        invariant
            from <= i <= to <= v.len(),
            s@ == v@.subrange(from as int, i as int),
        decreases to - i,
    {
        push_char(&mut s, v[i]);
        assert(v@.subrange(from as int, i + 1) == v@.subrange(from as int, i as int).push(v@[i as int]));
        i = i + 1;
    }
    s
}

} // verus!

verus! {

/// Whether two character vectors hold the same characters.
pub fn chars_eq(a: &Vec<char>, b: &Vec<char>) -> (r: bool)
    ensures
        r == (a@ == b@),
{
    if a.len() != b.len() {
        return false;
    }
    let mut i: usize = 0;
    while i < a.len()
        invariant
            a.len() == b.len(),
            i <= a.len(),
            forall|j: int| 0 <= j < i ==> a@[j] == b@[j],
        decreases a.len() - i,
    {
        if a[i] != b[i] {
            return false;
        }
        i = i + 1;
    }
    assert(a@ =~= b@);
    true
}

/// String equality over the character view.
pub fn str_eq(a: &str, b: &str) -> (r: bool)
    ensures
        r == (a@ == b@),
{
    let va = chars_of(a);
    let vb = chars_of(b);
    chars_eq(&va, &vb)
}

/// The character for a decimal digit.
pub open spec fn digit_char(d: int) -> char {
    if d == 0 { '0' }
    else if d == 1 { '1' }
    else if d == 2 { '2' }
    else if d == 3 { '3' }
    else if d == 4 { '4' }
    else if d == 5 { '5' }
    else if d == 6 { '6' }
    else if d == 7 { '7' }
    else if d == 8 { '8' }
    else { '9' }
}

/// Decimal representation of a natural number, most significant digit first.
pub open spec fn decimal(n: nat) -> Seq<char>
    decreases n,
{
    if n < 10 {
        seq![digit_char(n as int)]
    } else {
        decimal(n / 10).push(digit_char((n % 10) as int))
    }
}

pub fn digit_to_char(d: u64) -> (c: char)
    requires
        d < 10,
    ensures
        c == digit_char(d as int),
{
    if d == 0 { '0' }
    else if d == 1 { '1' }
    else if d == 2 { '2' }
    else if d == 3 { '3' }
    else if d == 4 { '4' }
    else if d == 5 { '5' }
    else if d == 6 { '6' }
    else if d == 7 { '7' }
    else if d == 8 { '8' }
    else { '9' }
}

/// Appends the decimal digits of `n` to `s`.
pub fn push_decimal(s: &mut String, n: u64)
    ensures
        final(s)@ == old(s)@ + decimal(n as nat),
    decreases n,
{
    if n < 10 {
        push_char(s, digit_to_char(n));
    } else {
        push_decimal(s, n / 10);
        push_char(s, digit_to_char(n % 10));
    }
}

/// Decimal string of `n` (as `u64::to_string`).
pub fn decimal_string(n: u64) -> (s: String)
    ensures
        s@ == decimal(n as nat),
{
    let mut s = String::new();
    push_decimal(&mut s, n);
    s
}

/// Appends a string slice to `s`.
pub fn push_str(s: &mut String, t: &str)
    ensures
        final(s)@ == old(s)@ + t@,
{
    s.append(t);
}

} // verus!

verus! {

/// `d` occurs in `s` at position `i`.
pub open spec fn occurs_at(s: Seq<char>, d: Seq<char>, i: int) -> bool {
    0 <= i && i + d.len() <= s.len() && s.subrange(i, i + d.len()) == d
}

/// First position at or after `i` where `d` occurs in `s`.
pub open spec fn find_from(s: Seq<char>, d: Seq<char>, i: nat) -> Option<nat>
    decreases s.len() - i,
{
    if i + d.len() > s.len() {
        None
    } else if d.len() == 0 || occurs_at(s, d, i as int) {
        Some(i)
    } else {
        find_from(s, d, i + 1)
    }
}

pub proof fn lemma_find_from_bounds(s: Seq<char>, d: Seq<char>, i: nat)
    ensures
        find_from(s, d, i) matches Some(j) ==> i <= j && occurs_at(s, d, j as int),
        find_from(s, d, i) matches Some(j) ==> forall|k: int| i <= k < j ==> !occurs_at(s, d, k),
        find_from(s, d, i) is None ==> forall|k: int| i <= k ==> !occurs_at(s, d, k),
    decreases s.len() - i,
{
    if i + d.len() > s.len() {
    } else if d.len() == 0 {
        assert(s.subrange(i as int, i as int) =~= d);
    } else if occurs_at(s, d, i as int) {
    } else {
        lemma_find_from_bounds(s, d, i + 1);
    }
}

/// Segments of `s` between the non-overlapping occurrences of the non-empty
/// separator `d`, scanning from position `start` (as `str::split`).
pub open spec fn split_from(s: Seq<char>, d: Seq<char>, start: nat) -> Seq<Seq<char>>
    decreases s.len() - start,
{
    if d.len() == 0 || start > s.len() {
        seq![s.subrange(start as int, s.len() as int)]
    } else {
        match find_from(s, d, start) {
            None => seq![s.subrange(start as int, s.len() as int)],
            Some(j) => {
                proof {
                    lemma_find_from_bounds(s, d, start);
                }
                seq![s.subrange(start as int, j as int)] + split_from(s, d, j + d.len())
            },
        }
    }
}

pub proof fn lemma_split_from_nonempty(s: Seq<char>, d: Seq<char>, start: nat)
    ensures
        split_from(s, d, start).len() >= 1,
{
}

/// Joining a first segment onto at least one more puts the separator
/// between it and the join of the rest.
pub proof fn lemma_join_cons(a: Seq<char>, rest: Seq<Seq<char>>, d: Seq<char>)
    requires
        rest.len() >= 1,
    ensures
        join_segments(seq![a] + rest, d) == a + d + join_segments(rest, d),
    decreases rest.len(),
{
    let x = seq![a] + rest;
    if rest.len() == 1 {
        assert(x.drop_last() =~= seq![a]);
        assert(x.last() == rest[0]);
        assert(join_segments(seq![a], d) == a);
        assert(join_segments(rest, d) == rest[0]);
        assert(join_segments(x, d) == join_segments(x.drop_last(), d) + d + x.last());
    } else {
        assert(x.drop_last() =~= seq![a] + rest.drop_last());
        assert(x.last() == rest.last());
        lemma_join_cons(a, rest.drop_last(), d);
        assert(join_segments(x, d) == join_segments(x.drop_last(), d) + d + x.last());
        assert(join_segments(rest, d) == join_segments(rest.drop_last(), d) + d + rest.last());
        assert(a + d + join_segments(rest.drop_last(), d) + d + rest.last() =~= a + d + (join_segments(
            rest.drop_last(),
            d,
        ) + d + rest.last()));
    }
}

/// Splitting on a non-empty separator and joining the segments back with
/// it gives the text split.
pub proof fn lemma_split_joins_back(s: Seq<char>, d: Seq<char>, start: nat)
    requires
        d.len() > 0,
        start <= s.len(),
    ensures
        join_segments(split_from(s, d, start), d) == s.subrange(start as int, s.len() as int),
    decreases s.len() - start,
{
    lemma_find_from_bounds(s, d, start);
    match find_from(s, d, start) {
        None => {},
        Some(j) => {
            let rest = split_from(s, d, j + d.len());
            lemma_split_joins_back(s, d, j + d.len());
            lemma_split_from_nonempty(s, d, j + d.len());
            lemma_join_cons(s.subrange(start as int, j as int), rest, d);
            assert(s.subrange(j as int, (j + d.len()) as int) == d);
            assert(s.subrange(start as int, j as int) + d + s.subrange((j + d.len()) as int, s.len() as int)
                =~= s.subrange(start as int, s.len() as int));
        },
    }
}

/// No segment of a split on a non-empty separator holds the separator.
pub proof fn lemma_split_segments_free(s: Seq<char>, d: Seq<char>, start: nat, k: int)
    requires
        d.len() > 0,
        start <= s.len(),
        0 <= k < split_from(s, d, start).len(),
    ensures
        !contains_seq(split_from(s, d, start)[k], d),
    decreases s.len() - start,
{
    lemma_find_from_bounds(s, d, start);
    let seg_end: int = match find_from(s, d, start) {
        None => s.len() as int,
        Some(j) => j as int,
    };
    if k == 0 || find_from(s, d, start) is None {
        let seg = s.subrange(start as int, seg_end);
        assert(split_from(s, d, start)[k] == seg);
        lemma_find_from_bounds(seg, d, 0);
        if let Some(p) = find_from(seg, d, 0) {
            assert(seg.subrange(p as int, (p + d.len()) as int) =~= s.subrange((start + p) as int, (start + p + d.len()) as int));
            assert(occurs_at(s, d, (start + p) as int));
        }
    } else {
        let j = find_from(s, d, start)->0;
        lemma_split_segments_free(s, d, j + d.len(), k - 1);
    }
}

/// Number of non-overlapping occurrences of the non-empty `d` in `s` from
/// position `start` on, found left to right (as `str::matches(..).count()`).
pub open spec fn count_from(s: Seq<char>, d: Seq<char>, start: nat) -> nat
    decreases s.len() - start,
{
    if d.len() == 0 || start > s.len() {
        0
    } else {
        match find_from(s, d, start) {
            None => 0,
            Some(j) => {
                proof {
                    lemma_find_from_bounds(s, d, start);
                }
                1 + count_from(s, d, j + d.len())
            },
        }
    }
}

/// A split has one segment more than the separator has occurrences.
pub proof fn lemma_split_count(s: Seq<char>, d: Seq<char>, start: nat)
    requires
        d.len() > 0,
    ensures
        split_from(s, d, start).len() == count_from(s, d, start) + 1,
    decreases s.len() - start,
{
    if start <= s.len() {
        lemma_find_from_bounds(s, d, start);
        if let Some(j) = find_from(s, d, start) {
            lemma_split_count(s, d, j + d.len());
        }
    }
}

/// Path segments: the whole path when the delimiter is empty, otherwise the
/// pieces between delimiter occurrences.
pub open spec fn path_segments(path: Seq<char>, delim: Seq<char>) -> Seq<Seq<char>> {
    if delim.len() == 0 {
        seq![path]
    } else {
        split_from(path, delim, 0)
    }
}

/// A path's segments join back to the path with its delimiter, there is one
/// more of them than the delimiter occurs, and none of them holds the
/// delimiter; an empty delimiter leaves the path whole.
pub proof fn lemma_path_segments_join_back(path: Seq<char>, delim: Seq<char>)
    ensures
        delim.len() == 0 ==> path_segments(path, delim) == seq![path],
        delim.len() > 0 ==> join_segments(path_segments(path, delim), delim) == path,
        delim.len() > 0 ==> path_segments(path, delim).len() == count_from(path, delim, 0) + 1,
        delim.len() > 0 ==> forall|k: int|
            0 <= k < path_segments(path, delim).len() ==> !contains_seq(#[trigger] path_segments(path, delim)[k], delim),
{
    if delim.len() > 0 {
        lemma_split_count(path, delim, 0);
        lemma_split_joins_back(path, delim, 0);
        assert(path.subrange(0, path.len() as int) =~= path);
        assert forall|k: int| 0 <= k < path_segments(path, delim).len() implies !contains_seq(
            #[trigger] path_segments(path, delim)[k],
            delim,
        ) by {
            lemma_split_segments_free(path, delim, 0, k);
        }
    }
}

/// Segments joined with `d` between consecutive segments.
pub open spec fn join_segments(segs: Seq<Seq<char>>, d: Seq<char>) -> Seq<char>
    decreases segs.len(),
{
    if segs.len() == 0 {
        Seq::empty()
    } else if segs.len() == 1 {
        segs[0]
    } else {
        join_segments(segs.drop_last(), d) + d + segs.last()
    }
}

/// The character views of a sequence of character vectors.
pub open spec fn seq_views(v: Seq<Vec<char>>) -> Seq<Seq<char>> {
    v.map_values(|x: Vec<char>| x@)
}

/// Whether `d` occurs in `s` at `i` (executable).
fn occurs_at_exec(s: &Vec<char>, d: &Vec<char>, i: usize) -> (r: bool)
    requires
        i + d.len() <= s.len(),
    ensures
        r == occurs_at(s@, d@, i as int),
{
    let mut k: usize = 0;
    while k < d.len()
        invariant
            i + d.len() <= s.len(),
            k <= d.len(),
            forall|m: int| 0 <= m < k ==> s@[i + m] == d@[m],
        decreases d.len() - k,
    {
        if s[i + k] != d[k] {
            assert(s@.subrange(i as int, i + d.len())[k as int] != d@[k as int]);
            return false;
        }
        k = k + 1;
    }
    assert(s@.subrange(i as int, i + d.len()) =~= d@);
    true
}

/// First occurrence of `d` in `s` at or after `start`.
pub fn find_chars(s: &Vec<char>, d: &Vec<char>, start: usize) -> (r: Option<usize>)
    requires
        start <= s.len(),
    ensures
        match r {
            Some(j) => find_from(s@, d@, start as nat) == Some(j as nat),
            None => find_from(s@, d@, start as nat) is None,
        },
    decreases s.len() - start,
{
    if d.len() > s.len() - start {
        None
    } else if d.len() == 0 || occurs_at_exec(s, d, start) {
        Some(start)
    } else {
        find_chars(s, d, start + 1)
    }
}

/// Splits `s` on the separator `d` (the whole of `s` when `d` is empty).
pub fn split_chars(s: &Vec<char>, d: &Vec<char>) -> (r: Vec<Vec<char>>)
    ensures
        seq_views(r@) == path_segments(s@, d@),
{
    let mut out: Vec<Vec<char>> = Vec::new();
    if d.len() == 0 {
        let whole = s.clone();
        out.push(whole);
        assert(seq_views(out@) =~= seq![s@]);
        return out;
    }
    let mut start: usize = 0;
    loop
        invariant
            d.len() > 0,
            start <= s.len(),
            seq_views(out@) + split_from(s@, d@, start as nat) == split_from(s@, d@, 0),
        decreases s.len() - start,
    {
        match find_chars(s, d, start) {
            None => {
                let mut seg: Vec<char> = Vec::new();
                let mut k = start;
                while k < s.len()
                    invariant
                        start <= k <= s.len(),
                        seg@ == s@.subrange(start as int, k as int),
                    decreases s.len() - k,
                {
                    seg.push(s[k]);
                    assert(s@.subrange(start as int, k + 1) == s@.subrange(start as int, k as int).push(s@[k as int]));
                    k = k + 1;
                }
                let ghost before = seq_views(out@);
                out.push(seg);
                assert(seq_views(out@) =~= before.push(seg@));
                assert(split_from(s@, d@, start as nat) == seq![s@.subrange(start as int, s.len() as int)]);
                assert(seq_views(out@) =~= before + split_from(s@, d@, start as nat));
                return out;
            },
            Some(j) => {
                proof {
                    lemma_find_from_bounds(s@, d@, start as nat);
                }
                let mut seg: Vec<char> = Vec::new();
                let mut k = start;
                while k < j
                    invariant
                        start <= k <= j,
                        j <= s.len(),
                        seg@ == s@.subrange(start as int, k as int),
                    decreases j - k,
                {
                    seg.push(s[k]);
                    assert(s@.subrange(start as int, k + 1) == s@.subrange(start as int, k as int).push(s@[k as int]));
                    k = k + 1;
                }
                let ghost before = seq_views(out@);
                out.push(seg);
                assert(seq_views(out@) =~= before.push(seg@));
                assert(split_from(s@, d@, start as nat) == seq![s@.subrange(start as int, j as int)] + split_from(s@, d@, (j + d.len()) as nat));
                assert(before.push(seg@) + split_from(s@, d@, (j + d.len()) as nat) =~= before + split_from(s@, d@, start as nat));
                start = j + d.len();
            },
        }
    }
}

/// Joins segments with the separator `d`.
pub fn join_chars(segs: &Vec<Vec<char>>, count: usize, d: &Vec<char>) -> (r: Vec<char>)
    requires
        count <= segs.len(),
    ensures
        r@ == join_segments(seq_views(segs@).take(count as int), d@),
{
    let mut out: Vec<char> = Vec::new();
    let mut i: usize = 0;
    while i < count
        invariant
            i <= count <= segs.len(),
            out@ == join_segments(seq_views(segs@).take(i as int), d@),
        decreases count - i,
    {
        let ghost prev = out@;
        if i > 0 {
            let mut k: usize = 0;
            while k < d.len()
                invariant
                    k <= d.len(),
                    out@ == prev + d@.take(k as int),
                decreases d.len() - k,
            {
                out.push(d[k]);
                assert(d@.take(k + 1) == d@.take(k as int).push(d@[k as int]));
                k = k + 1;
            }
            assert(d@.take(d.len() as int) == d@);
        }
        let ghost mid = out@;
        let seg = &segs[i];
        let mut k: usize = 0;
        while k < seg.len()
            invariant
                k <= seg.len(),
                out@ == mid + seg@.take(k as int),
            decreases seg.len() - k,
        {
            out.push(seg[k]);
            assert(seg@.take(k + 1) == seg@.take(k as int).push(seg@[k as int]));
            k = k + 1;
        }
        assert(seg@.take(seg.len() as int) == seg@);
        let ghost t = seq_views(segs@).take(i + 1);
        assert(t.drop_last() =~= seq_views(segs@).take(i as int));
        assert(t.last() == seg@);
        if i == 0 {
            assert(out@ =~= join_segments(t, d@));
        }
        i = i + 1;
    }
    out
}

} // verus!

verus! {

/// ASCII lower-casing of one character (other characters are unchanged).
pub open spec fn ascii_lower(c: char) -> char {
    if 'A' <= c <= 'Z' { ((c as u32) + 32) as char } else { c }
}

/// ASCII case-insensitive equality (`eq_ignore_ascii_case`).
pub open spec fn eq_ignore_ascii_case(a: Seq<char>, b: Seq<char>) -> bool {
    a.len() == b.len() && forall|i: int| 0 <= i < a.len() ==> ascii_lower(a[i]) == ascii_lower(b[i])
}

pub fn ascii_lower_exec(c: char) -> (r: char)
    ensures
        r == ascii_lower(c),
{
    if 'A' <= c && c <= 'Z' {
        let b: u8 = c as u8;
        (b + 32) as char
    } else {
        c
    }
}

/// ASCII case-insensitive comparison of two strings.
pub fn str_eq_ignore_ascii_case(a: &str, b: &str) -> (r: bool)
    ensures
        r == eq_ignore_ascii_case(a@, b@),
{
    let va = chars_of(a);
    let vb = chars_of(b);
    if va.len() != vb.len() {
        return false;
    }
    let mut i: usize = 0;
    while i < va.len()
        invariant
            va@ == a@,
            vb@ == b@,
            va.len() == vb.len(),
            i <= va.len(),
            forall|j: int| 0 <= j < i ==> ascii_lower(va@[j]) == ascii_lower(vb@[j]),
        decreases va.len() - i,
    {
        if ascii_lower_exec(va[i]) != ascii_lower_exec(vb[i]) {
            return false;
        }
        i = i + 1;
    }
    true
}

/// Clones an optional string.
pub fn clone_opt_string(o: &Option<String>) -> (r: Option<String>)
    ensures
        r == *o,
{
    match o {
        Some(s) => Some(s.clone()),
        None => None,
    }
}

} // verus!

verus! {

/// The Unicode `White_Space` property (`char::is_whitespace`).
pub open spec fn is_ws(c: char) -> bool {
    ('\u{9}' <= c <= '\u{d}') || c == ' ' || c == '\u{85}' || c == '\u{a0}' || c == '\u{1680}'
        || ('\u{2000}' <= c <= '\u{200a}') || c == '\u{2028}' || c == '\u{2029}' || c == '\u{202f}'
        || c == '\u{205f}' || c == '\u{3000}'
}

pub fn is_ws_exec(c: char) -> (r: bool)
    ensures
        r == is_ws(c),
{
    ('\u{9}' <= c && c <= '\u{d}') || c == ' ' || c == '\u{85}' || c == '\u{a0}' || c == '\u{1680}'
        || ('\u{2000}' <= c && c <= '\u{200a}') || c == '\u{2028}' || c == '\u{2029}' || c == '\u{202f}'
        || c == '\u{205f}' || c == '\u{3000}'
}

/// The characters after the last whitespace character (all of `s` when it
/// holds none).
pub open spec fn after_last_ws(s: Seq<char>) -> Seq<char>
    decreases s.len(),
{
    if s.len() == 0 {
        s
    } else if is_ws(s.last()) {
        Seq::empty()
    } else {
        after_last_ws(s.drop_last()).push(s.last())
    }
}

/// Everything up to and including the last whitespace character.
pub open spec fn before_last_token(s: Seq<char>) -> Seq<char> {
    s.take(s.len() - after_last_ws(s).len())
}

pub proof fn lemma_after_last_ws_len(s: Seq<char>)
    ensures
        after_last_ws(s).len() <= s.len(),
        after_last_ws(s) == s.skip(s.len() - after_last_ws(s).len()),
    decreases s.len(),
{
    if s.len() > 0 && !is_ws(s.last()) {
        lemma_after_last_ws_len(s.drop_last());
        assert(after_last_ws(s) =~= s.skip(s.len() - after_last_ws(s).len()));
    } else if s.len() > 0 {
        assert(after_last_ws(s) =~= s.skip(s.len() as int));
    } else {
        assert(after_last_ws(s) =~= s.skip(0));
    }
}

/// Length of the trailing run of non-whitespace characters of `v`.
pub fn last_token_len(v: &Vec<char>) -> (n: usize)
    ensures
        n == after_last_ws(v@).len(),
        n <= v.len(),
{
    let mut i: usize = v.len();
    assert(v@.take(v.len() as int) == v@);
    while i > 0
        invariant
            i <= v.len(),
            forall|j: int| i <= j < v.len() ==> !is_ws(v@[j]),
            after_last_ws(v@).len() == after_last_ws(v@.take(i as int)).len() + (v.len() - i),
        decreases i,
    {
        assert(v@.take(i as int).drop_last() == v@.take(i - 1));
        assert(v@.take(i as int).last() == v@[i - 1]);
        if is_ws_exec(v[i - 1]) {
            return v.len() - i;
        }
        i = i - 1;
    }
    v.len()
}

/// Lower-cased text (`str::to_lowercase`).
pub uninterp spec fn lowercase(s: Seq<char>) -> Seq<char>;

/// Lower-cases a string with `str::to_lowercase`; the result is named by
/// [`lowercase`], whose Unicode case mapping is not restated here.
#[verifier::external_body]
pub(crate) fn to_lowercase(s: &str) -> (r: String)
    ensures
        r@ == lowercase(s@),
{
    s.to_lowercase()
}

/// `p` is a prefix of `s`.
pub open spec fn starts_with(s: Seq<char>, p: Seq<char>) -> bool {
    p.len() <= s.len() && s.take(p.len() as int) == p
}

pub fn starts_with_exec(s: &Vec<char>, p: &Vec<char>) -> (r: bool)
    ensures
        r == starts_with(s@, p@),
{
    if p.len() > s.len() {
        return false;
    }
    let mut i: usize = 0;
    while i < p.len()
        invariant
            p.len() <= s.len(),
            i <= p.len(),
            forall|j: int| 0 <= j < i ==> s@[j] == p@[j],
        decreases p.len() - i,
    {
        if s[i] != p[i] {
            assert(s@.take(p.len() as int)[i as int] != p@[i as int]);
            return false;
        }
        i = i + 1;
    }
    assert(s@.take(p.len() as int) =~= p@);
    true
}

/// Appends characters to a string.
pub fn push_chars(s: &mut String, v: &Vec<char>, from: usize, to: usize)
    requires
        from <= to <= v.len(),
    ensures
        final(s)@ == old(s)@ + v@.subrange(from as int, to as int),
{
    let mut i = from;
    while i < to
        invariant
            from <= i <= to <= v.len(),
            s@ == old(s)@ + v@.subrange(from as int, i as int),
        decreases to - i,
    {
        push_char(s, v[i]);
        assert(v@.subrange(from as int, i + 1) == v@.subrange(from as int, i as int).push(v@[i as int]));
        i = i + 1;
    }
}

/// `s` without its trailing whitespace.
pub open spec fn trim_end(s: Seq<char>) -> Seq<char>
    decreases s.len(),
{
    if s.len() > 0 && is_ws(s.last()) {
        trim_end(s.drop_last())
    } else {
        s
    }
}

/// `s` without its leading whitespace.
pub open spec fn trim_start(s: Seq<char>) -> Seq<char>
    decreases s.len(),
{
    if s.len() > 0 && is_ws(s[0]) {
        trim_start(s.drop_first())
    } else {
        s
    }
}

/// `s` without leading and trailing whitespace (`str::trim`).
pub open spec fn trim(s: Seq<char>) -> Seq<char> {
    trim_start(trim_end(s))
}

/// Trims leading and trailing whitespace.
pub fn trim_str(s: &str) -> (r: String)
    ensures
        r@ == trim(s@),
{
    let v = chars_of(s);
    let mut b: usize = v.len();
    assert(v@.take(v.len() as int) =~= v@);
    while b > 0 && is_ws_exec(v[b - 1])
        invariant
            b <= v.len(),
            trim_end(v@) == trim_end(v@.take(b as int)),
        decreases b,
    {
        assert(v@.take(b as int).drop_last() =~= v@.take(b - 1));
        b = b - 1;
    }
    let ghost t = v@.take(b as int);
    assert(trim_end(v@) == t);
    let mut a: usize = 0;
    assert(t.skip(0) =~= t);
    while a < b && is_ws_exec(v[a])
        invariant
            a <= b <= v.len(),
            t == v@.take(b as int),
            trim_start(t) == trim_start(t.skip(a as int)),
        decreases b - a,
    {
        assert(t.skip(a as int).drop_first() =~= t.skip(a + 1));
        a = a + 1;
    }
    assert(trim_start(t) == t.skip(a as int));
    assert(t.skip(a as int) =~= v@.subrange(a as int, b as int));
    string_from_chars(&v, a, b)
}

/// Whether `s` is empty or whitespace only (`s.trim().is_empty()`).
pub fn is_blank(s: &str) -> (r: bool)
    ensures
        r == (trim(s@).len() == 0),
{
    let t = trim_str(s);
    t.as_str().unicode_len() == 0
}

/// `d` occurs somewhere in `s` (`str::contains` with a string pattern).
pub open spec fn contains_seq(s: Seq<char>, d: Seq<char>) -> bool {
    find_from(s, d, 0) is Some
}

/// Whether `d` occurs in `s`.
pub fn str_contains(s: &str, d: &str) -> (r: bool)
    ensures
        r == contains_seq(s@, d@),
{
    let vs = chars_of(s);
    let vd = chars_of(d);
    find_chars(&vs, &vd, 0).is_some()
}

/// The character views of a sequence of strings.
pub open spec fn strings_view(v: Seq<String>) -> Seq<Seq<char>> {
    v.map_values(|x: String| x@)
}

/// Whether one of the strings of `v` equals `t`.
pub fn contains_string(v: &Vec<String>, t: &str) -> (r: bool)
    ensures
        r == strings_view(v@).contains(t@),
{
    let mut i: usize = 0;
    while i < v.len()
        invariant
            i <= v.len(),
            forall|j: int| 0 <= j < i ==> v@[j]@ != t@,
        decreases v.len() - i,
    {
        if str_eq(v[i].as_str(), t) {
            assert(strings_view(v@)[i as int] == t@);
            return true;
        }
        i = i + 1;
    }
    assert forall|j: int| 0 <= j < strings_view(v@).len() implies strings_view(v@)[j] != t@ by {
        assert(strings_view(v@)[j] == v@[j]@);
    }
    false
}

/// The last whitespace-separated word of `s`, or nothing when it has none
/// (`s.split_whitespace().last().unwrap_or("")`).
pub open spec fn last_word(s: Seq<char>) -> Seq<char> {
    after_last_ws(trim_end(s))
}

pub fn last_word_str(s: &str) -> (r: String)
    ensures
        r@ == last_word(s@),
{
    let v = chars_of(s);
    let mut b: usize = v.len();
    assert(v@.take(v.len() as int) =~= v@);
    while b > 0 && is_ws_exec(v[b - 1])
        invariant
            b <= v.len(),
            trim_end(v@) == trim_end(v@.take(b as int)),
        decreases b,
    {
        assert(v@.take(b as int).drop_last() =~= v@.take(b - 1));
        b = b - 1;
    }
    assert(trim_end(v@) == v@.take(b as int));
    let mut a: usize = b;
    assert(v@.subrange(b as int, b as int) =~= Seq::<char>::empty());
    while a > 0 && !is_ws_exec(v[a - 1])
        invariant
            a <= b <= v.len(),
            after_last_ws(v@.take(b as int)) == after_last_ws(v@.take(a as int)) + v@.subrange(
                a as int,
                b as int,
            ),
        decreases a,
    {
        assert(v@.take(a as int).drop_last() =~= v@.take(a - 1));
        assert(v@.take(a as int).last() == v@[a - 1]);
        assert(v@.subrange(a - 1, b as int) =~= seq![v@[a - 1]] + v@.subrange(a as int, b as int));
        assert(after_last_ws(v@.take(a as int)) == after_last_ws(v@.take(a - 1)).push(v@[a - 1]));
        assert(after_last_ws(v@.take(a - 1)).push(v@[a - 1]) + v@.subrange(a as int, b as int)
            =~= after_last_ws(v@.take(a - 1)) + v@.subrange(a - 1, b as int));
        a = a - 1;
    }
    if a > 0 {
        assert(v@.take(a as int).last() == v@[a - 1]);
    }
    assert(after_last_ws(v@.take(a as int)) =~= Seq::<char>::empty());
    assert(Seq::<char>::empty() + v@.subrange(a as int, b as int) =~= v@.subrange(a as int, b as int));
    string_from_chars(&v, a, b)
}

/// Whether two byte vectors are equal.
pub fn bytes_eq(a: &Vec<u8>, b: &Vec<u8>) -> (r: bool)
    ensures
        r == (a@ == b@),
{
    if a.len() != b.len() {
        return false;
    }
    let mut i: usize = 0;
    while i < a.len()
        invariant
            a.len() == b.len(),
            i <= a.len(),
            forall|j: int| 0 <= j < i ==> a@[j] == b@[j],
        decreases a.len() - i,
    {
        if a[i] != b[i] {
            return false;
        }
        i = i + 1;
    }
    assert(a@ =~= b@);
    true
}

/// The character view of an optional string.
pub open spec fn opt_chars(o: Option<String>) -> Option<Seq<char>> {
    match o {
        Some(s) => Some(s@),
        None => None,
    }
}

/// Whether two optional strings hold the same text.
pub fn opt_str_eq(a: &Option<String>, b: &Option<String>) -> (r: bool)
    ensures
        r == (opt_chars(*a) == opt_chars(*b)),
{
    match (a, b) {
        (Some(x), Some(y)) => str_eq(x.as_str(), y.as_str()),
        (None, None) => true,
        _ => false,
    }
}

} // verus!

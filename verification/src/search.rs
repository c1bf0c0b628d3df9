//! Ghost-text completion for the search box. The box completes the field
//! names of the search grammar and the values of the fields that have a fixed
//! value set; it never parses or executes the grammar.

use vstd::prelude::*;

use crate::text::{
    after_last_ws, before_last_token, chars_of, eq_ignore_ascii_case, find_chars, find_from,
    is_ws, is_ws_exec, last_token_len, lemma_after_last_ws_len, lowercase, push_chars,
    push_str, starts_with, starts_with_exec, str_eq_ignore_ascii_case, to_lowercase,
};

verus! {

/// The hinted field names, in completion order.
pub open spec fn field_names() -> Seq<Seq<char>> {
    seq![
        "account"@, "folder"@, "subject"@, "from"@, "to"@, "before"@, "after"@, "date"@,
        "attachments"@, "has"@,
    ]
}

/// Fixed value set of a field that has one (ASCII case-insensitive field
/// name), else `None` (open-ended).
pub open spec fn fixed_values_spec(field: Seq<char>) -> Option<Seq<Seq<char>>> {
    if eq_ignore_ascii_case(field, "attachments"@) {
        Some(seq!["none"@, "some"@])
    } else if eq_ignore_ascii_case(field, "has"@) {
        Some(seq!["attachment"@])
    } else {
        None
    }
}

/// The entries of `names` that start with `p`, in order.
pub open spec fn prefix_matches(names: Seq<Seq<char>>, p: Seq<char>) -> Seq<Seq<char>>
    decreases names.len(),
{
    if names.len() == 0 {
        Seq::empty()
    } else {
        let prev = prefix_matches(names.drop_last(), p);
        if starts_with(names.last(), p) {
            prev.push(names.last())
        } else {
            prev
        }
    }
}

/// A token without its leading negation `!`.
pub open spec fn strip_bang(t: Seq<char>) -> Seq<char> {
    if t.len() > 0 && t[0] == '!' { t.drop_first() } else { t }
}

/// The match at `idx` (wrapping) with the typed part removed.
pub open spec fn pick_suffix(m: Seq<Seq<char>>, typed: Seq<char>, idx: nat) -> Seq<char> {
    m[(idx % m.len()) as int].skip(typed.len() as int)
}

/// The views of a list of string slices.
pub open spec fn strs_view(v: Seq<&str>) -> Seq<Seq<char>> {
    v.map_values(|x: &str| x@)
}

/// The completion among `candidates` for the lower-cased typed text
/// `lower`: the match at `idx` (wrapping) without the typed part, or `None`
/// when nothing matches.
pub open spec fn pick_completion_spec(candidates: Seq<Seq<char>>, lower: Seq<char>, idx: nat) -> Option<Seq<char>> {
    let m = prefix_matches(candidates, lower);
    if m.len() == 0 {
        None
    } else {
        Some(pick_suffix(m, lower, idx))
    }
}

/// The ghost-text suffix for the last token of `input`.
pub open spec fn completion_spec(input: Seq<char>, idx: nat) -> Seq<char> {
    if input.len() == 0 || is_ws(input.last()) {
        Seq::empty()
    } else {
        let bare = strip_bang(after_last_ws(input));
        if bare.len() == 0 {
            Seq::empty()
        } else {
            match find_from(bare, seq![':'], 0) {
                Some(c) => match fixed_values_spec(bare.take(c as int)) {
                    None => Seq::empty(),
                    Some(values) => {
                        let pv = bare.skip(c as int + 1);
                        if pv.len() == 0 {
                            Seq::empty()
                        } else {
                            match pick_completion_spec(values, lowercase(pv), idx) {
                                Some(sfx) => sfx,
                                None => Seq::empty(),
                            }
                        }
                    },
                },
                None => match pick_completion_spec(field_names(), lowercase(bare), idx) {
                    Some(sfx) => sfx + ":"@,
                    None => Seq::empty(),
                },
            }
        }
    }
}

/// The next cycled input, given the text before the cycled token, whether
/// the token is negated, and the lower-cased token without its `!`: the
/// match at `idx` (wrapping) when at least two match.
pub open spec fn cycle_from_lower_spec(head: Seq<char>, negated: bool, lower: Seq<char>, idx: nat) -> Option<Seq<char>> {
    let neg: Seq<char> = if negated { "!"@ } else { Seq::empty() };
    match find_from(lower, seq![':'], 0) {
        Some(c) => {
            let field = lower.take(c as int);
            match fixed_values_spec(field) {
                None => None,
                Some(values) => {
                    let m = prefix_matches(values, lower.skip(c as int + 1));
                    if m.len() < 2 {
                        None
                    } else {
                        Some(head + neg + field + ":"@ + m[(idx % m.len()) as int])
                    }
                },
            }
        },
        None => {
            let m = prefix_matches(field_names(), lower);
            if m.len() < 2 {
                None
            } else {
                Some(head + neg + m[(idx % m.len()) as int] + ":"@)
            }
        },
    }
}

/// The next cycled input for Tab after a completion was applied.
pub open spec fn next_cycle_spec(current: Seq<char>, cycle_prefix: Seq<char>, idx: nat) -> Option<Seq<char>> {
    cycle_from_lower_spec(
        before_last_token(current),
        cycle_prefix.len() > 0 && cycle_prefix[0] == '!',
        lowercase(strip_bang(cycle_prefix)),
        idx,
    )
}

pub proof fn lemma_prefix_matches_start(names: Seq<Seq<char>>, p: Seq<char>)
    ensures
        forall|q: int| 0 <= q < prefix_matches(names, p).len() ==> starts_with(#[trigger] prefix_matches(names, p)[q], p),
    decreases names.len(),
{
    if names.len() > 0 {
        lemma_prefix_matches_start(names.drop_last(), p);
        let prev = prefix_matches(names.drop_last(), p);
        if starts_with(names.last(), p) {
            assert forall|q: int| 0 <= q < prefix_matches(names, p).len() implies starts_with(#[trigger] prefix_matches(names, p)[q], p) by {
                if q < prev.len() {
                    assert(prefix_matches(names, p)[q] == prev[q]);
                }
            }
        }
    }
}

/// Every match is one of the names matched against.
pub proof fn lemma_prefix_matches_members(names: Seq<Seq<char>>, p: Seq<char>)
    ensures
        forall|q: int| 0 <= q < prefix_matches(names, p).len() ==> names.contains(#[trigger] prefix_matches(names, p)[q]),
    decreases names.len(),
{
    if names.len() > 0 {
        lemma_prefix_matches_members(names.drop_last(), p);
        let prev = prefix_matches(names.drop_last(), p);
        assert forall|q: int| 0 <= q < prefix_matches(names, p).len() implies names.contains(
            #[trigger] prefix_matches(names, p)[q],
        ) by {
            if q < prev.len() {
                assert(prefix_matches(names, p)[q] == prev[q]);
                assert(names.drop_last().contains(prev[q]));
                let k = choose|k: int| 0 <= k < names.drop_last().len() && names.drop_last()[k] == prev[q];
                assert(names[k] == prev[q]);
            } else {
                assert(prefix_matches(names, p)[q] == names.last());
                assert(names[names.len() - 1] == names.last());
            }
        }
    }
}

/// A picked completion finishes the typed text into one of the candidates.
proof fn lemma_pick_completes(candidates: Seq<Seq<char>>, lower: Seq<char>, idx: nat)
    requires
        pick_completion_spec(candidates, lower, idx) is Some,
    ensures
        candidates.contains(lower + pick_completion_spec(candidates, lower, idx)->0),
{
    let m = prefix_matches(candidates, lower);
    let j = (idx % m.len()) as int;
    lemma_prefix_matches_start(candidates, lower);
    lemma_prefix_matches_members(candidates, lower);
    assert(starts_with(m[j], lower));
    assert(lower + m[j].skip(lower.len() as int) =~= m[j]);
    assert(candidates.contains(m[j]));
}

/// A non-empty completion finishes the last token, lower-cased and without
/// its `!`, into a field name followed by `:`, or, after `field:`, into one
/// of the field's fixed values.
pub proof fn lemma_completion_completes(input: Seq<char>, idx: nat)
    ensures
        ({
            let c = completion_spec(input, idx);
            let bare = strip_bang(after_last_ws(input));
            c.len() > 0 ==> match find_from(bare, seq![':'], 0) {
                None => field_names().map_values(|f: Seq<char>| f + ":"@).contains(lowercase(bare) + c),
                Some(p) => fixed_values_spec(bare.take(p as int)) matches Some(vs) && vs.contains(
                    lowercase(bare.skip(p as int + 1)) + c,
                ),
            }
        }),
{
    let c = completion_spec(input, idx);
    let bare = strip_bang(after_last_ws(input));
    if c.len() > 0 {
        match find_from(bare, seq![':'], 0) {
            None => {
                let lower = lowercase(bare);
                lemma_pick_completes(field_names(), lower, idx);
                let sfx = pick_completion_spec(field_names(), lower, idx)->0;
                let name = lower + sfx;
                let k = choose|k: int| 0 <= k < field_names().len() && field_names()[k] == name;
                let fs = field_names().map_values(|f: Seq<char>| f + ":"@);
                assert(lower + (sfx + ":"@) =~= name + ":"@);
                assert(fs[k] == name + ":"@);
            },
            Some(p) => {
                let vs = fixed_values_spec(bare.take(p as int))->0;
                lemma_pick_completes(vs, lowercase(bare.skip(p as int + 1)), idx);
            },
        }
    }
}

/// Character vectors of a list of string literals.
fn chars_list(names: &Vec<&str>) -> (r: Vec<Vec<char>>)
    ensures
        r.len() == names.len(),
        forall|k: int| 0 <= k < names.len() ==> #[trigger] r@[k]@ == names@[k]@,
{
    let mut r: Vec<Vec<char>> = Vec::new();
    let mut k: usize = 0;
    while k < names.len()
        invariant
            k <= names.len(),
            r.len() == k,
            forall|q: int| 0 <= q < k ==> #[trigger] r@[q]@ == names@[q]@,
        decreases names.len() - k,
    {
        r.push(chars_of(names[k]));
        k = k + 1;
    }
    r
}

/// The field names, in completion order.
fn field_name_list() -> (r: Vec<&'static str>)
    ensures
        strs_view(r@) == field_names(),
{
    let names: Vec<&'static str> = vec![
        "account", "folder", "subject", "from", "to", "before", "after", "date", "attachments", "has",
    ];
    assert(strs_view(names@) =~= field_names());
    names
}

/// Fixed value set for a field that has one, else `None` (open-ended).
pub fn fixed_values(field: &str) -> (r: Option<Vec<&'static str>>)
    ensures
        match fixed_values_spec(field@) {
            Some(vs) => r is Some && r->0.len() == vs.len() && forall|k: int| 0 <= k < vs.len() ==> #[trigger] r->0@[k]@ == vs[k],
            None => r is None,
        },
{
    if str_eq_ignore_ascii_case(field, "attachments") {
        Some(vec!["none", "some"])
    } else if str_eq_ignore_ascii_case(field, "has") {
        Some(vec!["attachment"])
    } else {
        None
    }
}

/// Entries of `names` that start with `p`.
fn matches_of(names: &Vec<Vec<char>>, p: &Vec<char>) -> (m: Vec<Vec<char>>)
    ensures
        m.len() == prefix_matches(crate::text::seq_views(names@), p@).len(),
        forall|k: int| 0 <= k < m.len() ==> #[trigger] m@[k]@ == prefix_matches(crate::text::seq_views(names@), p@)[k],
{
    let ghost all = crate::text::seq_views(names@);
    let mut m: Vec<Vec<char>> = Vec::new();
    let mut k: usize = 0;
    while k < names.len()
        invariant
            all == crate::text::seq_views(names@),
            k <= names.len(),
            m.len() == prefix_matches(all.take(k as int), p@).len(),
            forall|q: int| 0 <= q < m.len() ==> #[trigger] m@[q]@ == prefix_matches(all.take(k as int), p@)[q],
        decreases names.len() - k,
    {
        assert(all.take(k + 1).drop_last() == all.take(k as int));
        assert(all.take(k + 1).last() == names@[k as int]@);
        if starts_with_exec(&names[k], p) {
            m.push(names[k].clone());
        }
        k = k + 1;
    }
    assert(all.take(names.len() as int) == all);
    m
}

/// The completion among `candidates` for the lower-cased typed text
/// `lower`: the match at `idx` (wrapping) with the typed part removed, or
/// `None` when nothing matches.
pub fn pick_completion(candidates: &Vec<&'static str>, lower: &str, idx: usize) -> (r: Option<String>)
    ensures
        match pick_completion_spec(strs_view(candidates@), lower@, idx as nat) {
            Some(sfx) => r is Some && r->0@ == sfx,
            None => r is None,
        },
{
    let cands = chars_list(candidates);
    assert(crate::text::seq_views(cands@) =~= strs_view(candidates@));
    let low = chars_of(lower);
    let m = matches_of(&cands, &low);
    if m.len() == 0 {
        return None;
    }
    let pick = &m[idx % m.len()];
    proof {
        lemma_prefix_matches_start(strs_view(candidates@), lower@);
        assert(starts_with(pick@, lower@));
    }
    let mut out = String::new();
    push_chars(&mut out, pick, low.len(), pick.len());
    assert(pick@.subrange(low.len() as int, pick.len() as int) == pick@.skip(low.len() as int));
    Some(out)
}

/// The next cycled input from the text before the cycled token, whether the
/// token is negated, and the lower-cased token without its `!`; `None` when
/// fewer than two entries match.
pub fn cycle_from_lower(head: &str, negated: bool, lower: &str, idx: usize) -> (r: Option<String>)
    ensures
        match cycle_from_lower_spec(head@, negated, lower@, idx as nat) {
            Some(out) => r is Some && r->0@ == out,
            None => r is None,
        },
{
    let low = chars_of(lower);
    let mut prefix = String::from_str(head);
    if negated {
        push_str(&mut prefix, "!");
    }
    let mut colon: Vec<char> = Vec::new();
    colon.push(':');
    assert(colon@ == seq![':']);
    match find_chars(&low, &colon, 0) {
        Some(c) => {
            proof {
                crate::text::lemma_find_from_bounds(low@, colon@, 0);
                assert(c + 1 <= low.len());
            }
            let mut field = String::new();
            push_chars(&mut field, &low, 0, c);
            assert(low@.subrange(0, c as int) == low@.take(c as int));
            let values = match fixed_values(field.as_str()) {
                Some(vs) => vs,
                None => {
                    return None;
                },
            };
            let mut partial: Vec<char> = Vec::new();
            let mut k = c + 1;
            while k < low.len()
                invariant
                    c + 1 <= k <= low.len(),
                    partial@ == low@.subrange(c + 1, k as int),
                decreases low.len() - k,
            {
                partial.push(low[k]);
                assert(low@.subrange(c + 1, k + 1) == low@.subrange(c + 1, k as int).push(low@[k as int]));
                k = k + 1;
            }
            assert(partial@ == low@.skip(c as int + 1));
            let value_chars = chars_list(&values);
            let ghost vs = fixed_values_spec(low@.take(c as int))->0;
            assert(crate::text::seq_views(value_chars@) =~= vs);
            let m = matches_of(&value_chars, &partial);
            if m.len() < 2 {
                return None;
            }
            let pick = &m[idx % m.len()];
            let mut out = prefix;
            push_str(&mut out, field.as_str());
            push_str(&mut out, ":");
            push_chars(&mut out, pick, 0, pick.len());
            assert(pick@.subrange(0, pick.len() as int) == pick@);
            Some(out)
        },
        None => {
            let names = chars_list(&field_name_list());
            assert(crate::text::seq_views(names@) =~= field_names());
            let m = matches_of(&names, &low);
            if m.len() < 2 {
                return None;
            }
            let pick = &m[idx % m.len()];
            let mut out = prefix;
            push_chars(&mut out, pick, 0, pick.len());
            assert(pick@.subrange(0, pick.len() as int) == pick@);
            push_str(&mut out, ":");
            Some(out)
        },
    }
}

/// Returns the ghost-text suffix to display for the last token in `input`.
///
/// Field-name tokens (no colon) complete to the remaining field name + `:`
/// (e.g. `"fol"` → `"der:"`). `attachments:`/`has:` value tokens complete the
/// partial value (e.g. `"has:att"` → `"achment"`); other fields are
/// open-ended. A leading `!` on the token is transparent to the suffix.
/// `cycle_idx` selects among matches and wraps.
pub fn compute_completion(input: &str, cycle_idx: usize) -> (r: String)
    ensures
        r@ == completion_spec(input@, cycle_idx as nat),
{
    let v = chars_of(input);
    if v.len() == 0 || is_ws_exec(v[v.len() - 1]) {
        return String::new();
    }
    let tl = last_token_len(&v);
    proof {
        lemma_after_last_ws_len(v@);
    }
    let tok_start = v.len() - tl;
    let bare_start = if tl > 0 && v[tok_start] == '!' { tok_start + 1 } else { tok_start };
    let ghost bare_spec = strip_bang(after_last_ws(input@));
    assert(v@.subrange(bare_start as int, v.len() as int) =~= bare_spec);
    let mut bare: Vec<char> = Vec::new();
    let mut k = bare_start;
    while k < v.len()
        invariant
            bare_start <= k <= v.len(),
            bare@ == v@.subrange(bare_start as int, k as int),
        decreases v.len() - k,
    {
        bare.push(v[k]);
        assert(v@.subrange(bare_start as int, k + 1) == v@.subrange(bare_start as int, k as int).push(v@[k as int]));
        k = k + 1;
    }
    assert(bare@ == bare_spec);
    if bare.len() == 0 {
        return String::new();
    }
    let mut colon: Vec<char> = Vec::new();
    colon.push(':');
    assert(colon@ == seq![':']);
    match find_chars(&bare, &colon, 0) {
        Some(c) => {
            proof {
                crate::text::lemma_find_from_bounds(bare@, colon@, 0);
            }
            let mut field = String::new();
            push_chars(&mut field, &bare, 0, c);
            assert(bare@.subrange(0, c as int) == bare@.take(c as int));
            let values = match fixed_values(field.as_str()) {
                Some(vs) => vs,
                None => {
                    return String::new();
                },
            };
            let mut pv = String::new();
            push_chars(&mut pv, &bare, c + 1, bare.len());
            assert(bare@.subrange(c + 1, bare.len() as int) == bare@.skip(c as int + 1));
            if bare.len() == c + 1 {
                return String::new();
            }
            let lower = to_lowercase(pv.as_str());
            proof {
                let vs = fixed_values_spec(bare@.take(c as int))->0;
                assert(strs_view(values@) =~= vs);
            }
            match pick_completion(&values, lower.as_str(), cycle_idx) {
                Some(sfx) => sfx,
                None => String::new(),
            }
        },
        None => {
            let mut bs = String::new();
            push_chars(&mut bs, &bare, 0, bare.len());
            assert(bare@.subrange(0, bare.len() as int) == bare@);
            let lower = to_lowercase(bs.as_str());
            match pick_completion(&field_name_list(), lower.as_str(), cycle_idx) {
                Some(sfx) => {
                    let mut out = sfx;
                    push_str(&mut out, ":");
                    out
                },
                None => String::new(),
            }
        },
    }
}

/// Appends a completion suffix to the last token of `input`:
/// `apply_completion("fol", "der:")` → `"folder:"`.
pub fn apply_completion(input: &str, suffix: &str) -> (r: String)
    ensures
        r@ == input@ + suffix@,
{
    let mut out = String::new();
    push_str(&mut out, input);
    push_str(&mut out, suffix);
    out
}

/// Produces the next cycled input when Tab is pressed after a completion has
/// already been applied (shell-style cycling). A leading `!` on
/// `cycle_prefix` is preserved. Returns `None` when fewer than two entries
/// match (nothing to cycle).
pub fn next_cycle_input(current_input: &str, cycle_prefix: &str, cycle_idx: usize) -> (r: Option<String>)
    ensures
        match next_cycle_spec(current_input@, cycle_prefix@, cycle_idx as nat) {
            Some(s) => r is Some && r->0@ == s,
            None => r is None,
        },
{
    let cur = chars_of(current_input);
    let tl = last_token_len(&cur);
    let mut head = String::new();
    push_chars(&mut head, &cur, 0, cur.len() - tl);
    assert(cur@.subrange(0, cur.len() - tl) == before_last_token(current_input@));
    let pre = chars_of(cycle_prefix);
    let negated = pre.len() > 0 && pre[0] == '!';
    let start: usize = if negated { 1 } else { 0 };
    let mut bare = String::new();
    push_chars(&mut bare, &pre, start, pre.len());
    assert(pre@.subrange(start as int, pre.len() as int) =~= strip_bang(cycle_prefix@));
    let lower = to_lowercase(bare.as_str());
    cycle_from_lower(head.as_str(), negated, lower.as_str(), cycle_idx)
}

/// Cycling through the matches wraps: an index one full round further
/// picks the same suffix.
pub proof fn lemma_pick_wraps(m: Seq<Seq<char>>, typed: Seq<char>, idx: nat)
    requires
        m.len() > 0,
    ensures
        pick_suffix(m, typed, idx + m.len()) == pick_suffix(m, typed, idx),
{
    vstd::arithmetic::div_mod::lemma_mod_add_multiples_vanish(idx as int, m.len() as int);
}

} // verus!

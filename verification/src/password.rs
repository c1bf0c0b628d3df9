//! Password rules shared by the registration, login and user-admin flows,
//! and the generator for admin-issued passwords.

use vstd::prelude::*;

use rand::RngExt;

use crate::text::{chars_of, string_from_chars};

verus! {

/// Characters that count as "special".
pub const SPECIAL_CHARS: &'static str = "!@#$%^&*()_+-=[]{}|;:,.<>?";

/// Minimum password length, in characters.
pub const MIN_PASSWORD_LEN: usize = 12;

/// An uppercase letter, `A`–`Z`.
pub open spec fn is_uppercase_char(c: char) -> bool {
    'A' <= c <= 'Z'
}

/// A lowercase letter, `a`–`z`.
pub open spec fn is_lowercase_char(c: char) -> bool {
    'a' <= c <= 'z'
}

pub open spec fn is_ascii_digit(c: char) -> bool {
    '0' <= c <= '9'
}

pub open spec fn is_special(c: char) -> bool {
    SPECIAL_CHARS@.contains(c)
}

pub open spec fn has_char(s: Seq<char>, p: spec_fn(char) -> bool) -> bool {
    exists|i: int| 0 <= i < s.len() && #[trigger] p(s[i])
}

/// The five requirements with their labels, in display order.
pub open spec fn requirements_spec(pw: &str) -> Seq<(Seq<char>, bool)> {
    seq![
        ("At least 12 characters"@, pw@.len() >= MIN_PASSWORD_LEN),
        ("One uppercase letter (A–Z)"@, has_char(pw@, |c: char| is_uppercase_char(c))),
        ("One lowercase letter (a–z)"@, has_char(pw@, |c: char| is_lowercase_char(c))),
        ("One digit (0–9)"@, has_char(pw@, |c: char| is_ascii_digit(c))),
        ("One special character (!@#$%^&*…)"@, has_char(pw@, |c: char| is_special(c))),
    ]
}

/// The four character classes each occur in `s`.
pub open spec fn has_all_classes(s: Seq<char>) -> bool {
    &&& has_char(s, |c: char| is_uppercase_char(c))
    &&& has_char(s, |c: char| is_lowercase_char(c))
    &&& has_char(s, |c: char| is_ascii_digit(c))
    &&& has_char(s, |c: char| is_special(c))
}

/// All five requirements hold.
pub open spec fn password_valid_spec(pw: &str) -> bool {
    &&& pw@.len() >= MIN_PASSWORD_LEN
    &&& has_all_classes(pw@)
}

fn special_contains(c: char) -> (r: bool)
    ensures
        r == is_special(c),
{
    let sp = chars_of(SPECIAL_CHARS);
    let mut i: usize = 0;
    while i < sp.len()
        invariant
            sp@ == SPECIAL_CHARS@,
            i <= sp.len(),
            forall|j: int| 0 <= j < i ==> sp@[j] != c,
        decreases sp.len() - i,
    {
        if sp[i] == c {
            assert(sp@[i as int] == c);
            return true;
        }
        i = i + 1;
    }
    false
}

/// Which character classes occur in `pw`: uppercase, lowercase, digit,
/// special.
fn char_classes(pw: &str) -> (r: (bool, bool, bool, bool))
    ensures
        r.0 == has_char(pw@, |c: char| is_uppercase_char(c)),
        r.1 == has_char(pw@, |c: char| is_lowercase_char(c)),
        r.2 == has_char(pw@, |c: char| is_ascii_digit(c)),
        r.3 == has_char(pw@, |c: char| is_special(c)),
{
    let v = chars_of(pw);
    let mut up = false;
    let mut low = false;
    let mut dig = false;
    let mut spec = false;
    let mut i: usize = 0;
    while i < v.len()
        invariant
            v@ == pw@,
            i <= v.len(),
            up == exists|j: int| 0 <= j < i && is_uppercase_char(#[trigger] v@[j]),
            low == exists|j: int| 0 <= j < i && is_lowercase_char(#[trigger] v@[j]),
            dig == exists|j: int| 0 <= j < i && is_ascii_digit(#[trigger] v@[j]),
            spec == exists|j: int| 0 <= j < i && is_special(#[trigger] v@[j]),
        decreases v.len() - i,
    {
        let c = v[i];
        if 'A' <= c && c <= 'Z' {
            up = true;
        }
        if 'a' <= c && c <= 'z' {
            low = true;
        }
        if '0' <= c && c <= '9' {
            dig = true;
        }
        if special_contains(c) {
            spec = true;
        }
        i = i + 1;
    }
    proof {
        let p1 = |c: char| is_uppercase_char(c);
        let p2 = |c: char| is_lowercase_char(c);
        let p3 = |c: char| is_ascii_digit(c);
        let p4 = |c: char| is_special(c);
        if up {
            let j = choose|j: int| 0 <= j < i && is_uppercase_char(#[trigger] v@[j]);
            assert(p1(pw@[j]));
        }
        if low {
            let j = choose|j: int| 0 <= j < i && is_lowercase_char(#[trigger] v@[j]);
            assert(p2(pw@[j]));
        }
        if dig {
            let j = choose|j: int| 0 <= j < i && is_ascii_digit(#[trigger] v@[j]);
            assert(p3(pw@[j]));
        }
        if spec {
            let j = choose|j: int| 0 <= j < i && is_special(#[trigger] v@[j]);
            assert(p4(pw@[j]));
        }
        if has_char(pw@, p1) {
            let j = choose|j: int| 0 <= j < pw@.len() && #[trigger] p1(pw@[j]);
            assert(is_uppercase_char(v@[j]));
        }
        if has_char(pw@, p2) {
            let j = choose|j: int| 0 <= j < pw@.len() && #[trigger] p2(pw@[j]);
            assert(is_lowercase_char(v@[j]));
        }
        if has_char(pw@, p3) {
            let j = choose|j: int| 0 <= j < pw@.len() && #[trigger] p3(pw@[j]);
            assert(is_ascii_digit(v@[j]));
        }
        if has_char(pw@, p4) {
            let j = choose|j: int| 0 <= j < pw@.len() && #[trigger] p4(pw@[j]);
            assert(is_special(v@[j]));
        }
    }
    (up, low, dig, spec)
}

/// The labels of the five requirements, in display order.
pub open spec fn requirement_labels() -> Seq<Seq<char>> {
    seq![
        "At least 12 characters"@,
        "One uppercase letter (A–Z)"@,
        "One lowercase letter (a–z)"@,
        "One digit (0–9)"@,
        "One special character (!@#$%^&*…)"@,
    ]
}

/// The requirement list, given whether the password is long enough and
/// which character classes occur in it.
pub fn requirements_list(long_enough: bool, upper: bool, lower: bool, digit: bool, special: bool) -> (r: Vec<
    (String, bool),
>)
    ensures
        r@.len() == 5,
        forall|k: int| 0 <= k < 5 ==> (#[trigger] r@[k]).0@ == requirement_labels()[k],
        r@[0].1 == long_enough && r@[1].1 == upper && r@[2].1 == lower && r@[3].1 == digit && r@[4].1 == special,
{
    let mut r: Vec<(String, bool)> = Vec::new();
    r.push((String::from_str("At least 12 characters"), long_enough));
    r.push((String::from_str("One uppercase letter (A–Z)"), upper));
    r.push((String::from_str("One lowercase letter (a–z)"), lower));
    r.push((String::from_str("One digit (0–9)"), digit));
    r.push((String::from_str("One special character (!@#$%^&*…)"), special));
    r
}

/// The password requirements, each with whether `pw` meets it.
pub fn password_requirements(pw: &str) -> (r: Vec<(String, bool)>)
    ensures
        r@.len() == 5,
        forall|k: int| 0 <= k < 5 ==> (#[trigger] r@[k]).0@ == requirements_spec(pw)[k].0 && r@[k].1
            == requirements_spec(pw)[k].1,
{
    let (up, low, dig, spec) = char_classes(pw);
    let long_enough = pw.unicode_len() >= MIN_PASSWORD_LEN;
    requirements_list(long_enough, up, low, dig, spec)
}

/// Whether `pw` meets every requirement.
pub fn password_is_valid(pw: &str) -> (r: bool)
    ensures
        r == password_valid_spec(pw),
{
    let reqs = password_requirements(pw);
    let mut i: usize = 0;
    while i < reqs.len()
        invariant
            reqs@.len() == 5,
            forall|k: int| 0 <= k < 5 ==> (#[trigger] reqs@[k]).1 == requirements_spec(pw)[k].1,
            i <= 5,
            forall|k: int| 0 <= k < i ==> (#[trigger] reqs@[k]).1,
        decreases 5 - i,
    {
        if !reqs[i].1 {
            assert(!requirements_spec(pw)[i as int].1);
            return false;
        }
        i = i + 1;
    }
    assert(reqs@[0].1 && reqs@[1].1 && reqs@[2].1 && reqs@[3].1 && reqs@[4].1);
    true
}

// ---------------------------------------------------------------------------
// Generated passwords
// ---------------------------------------------------------------------------

/// The uppercase letters a generated password draws from.
pub const UPPER: &'static str = "ABCDEFGHIJKLMNOPQRSTUVWXYZ";

/// The lowercase letters a generated password draws from.
pub const LOWER: &'static str = "abcdefghijklmnopqrstuvwxyz";

/// The digits a generated password draws from.
pub const DIGITS: &'static str = "0123456789";

/// Every character a generated password may hold: the three tables above
/// followed by the special characters.
pub const ALPHABET: &'static str =
    "ABCDEFGHIJKLMNOPQRSTUVWXYZabcdefghijklmnopqrstuvwxyz0123456789!@#$%^&*()_+-=[]{}|;:,.<>?";

/// Length of a generated password.
pub const GENERATED_PASSWORD_LEN: usize = 16;

/// A character that a generated password may hold.
pub open spec fn in_alphabet(c: char) -> bool {
    ||| 'A' <= c <= 'Z'
    ||| 'a' <= c <= 'z'
    ||| '0' <= c <= '9'
    ||| is_special(c)
}

proof fn lemma_tables()
    ensures
        UPPER@.len() == 26,
        forall|k: int| 0 <= k < 26 ==> 'A' <= #[trigger] UPPER@[k] <= 'Z',
        LOWER@.len() == 26,
        forall|k: int| 0 <= k < 26 ==> 'a' <= #[trigger] LOWER@[k] <= 'z',
        DIGITS@.len() == 10,
        forall|k: int| 0 <= k < 10 ==> '0' <= #[trigger] DIGITS@[k] <= '9',
        SPECIAL_CHARS@.len() == 26,
        forall|k: int| 0 <= k < 26 ==> '\0' <= #[trigger] SPECIAL_CHARS@[k] <= '\u{7f}',
        ALPHABET@ == UPPER@ + LOWER@ + DIGITS@ + SPECIAL_CHARS@,
        ALPHABET@.len() == 88,
{
    reveal_strlit("ABCDEFGHIJKLMNOPQRSTUVWXYZ");
    reveal_strlit("abcdefghijklmnopqrstuvwxyz");
    reveal_strlit("0123456789");
    reveal_strlit("!@#$%^&*()_+-=[]{}|;:,.<>?");
    reveal_strlit(
        "ABCDEFGHIJKLMNOPQRSTUVWXYZabcdefghijklmnopqrstuvwxyz0123456789!@#$%^&*()_+-=[]{}|;:,.<>?",
    );
    assert(ALPHABET@ =~= UPPER@ + LOWER@ + DIGITS@ + SPECIAL_CHARS@);
}

proof fn lemma_alphabet_members(k: int)
    requires
        0 <= k < ALPHABET@.len(),
    ensures
        ALPHABET@.len() == 88,
        in_alphabet(ALPHABET@[k]),
        '\0' <= ALPHABET@[k] <= '\u{7f}',
{
    lemma_tables();
    if k >= 62 {
        assert(SPECIAL_CHARS@[k - 62] == ALPHABET@[k]);
    }
}

/// The thread-local random generator of `rand`, carried through opaquely.
#[verifier::external_type_specification]
#[verifier::external_body]
pub struct ExThreadRng(rand::rngs::ThreadRng);

/// A handle to the calling thread's random generator (`rand::rng`).
/// Nothing is stated of the generator's state.
#[verifier::external_body]
fn thread_rng() -> (r: rand::rngs::ThreadRng) {
    rand::rng()
}

/// A value drawn from `0..upper` (`RngExt::random_range` on a half-open
/// range). The crate panics on an empty range, hence `upper > 0`; of the
/// value only its range is stated, as it comes from the generator.
#[verifier::external_body]
fn random_below(rng: &mut rand::rngs::ThreadRng, upper: usize) -> (r: usize)
    requires
        upper > 0,
    ensures
        r < upper,
{
    rng.random_range(0..upper)
}

/// Swapping two positions keeps every character class that occurs.
proof fn lemma_swap_keeps_classes(s: Seq<char>, i: int, j: int)
    requires
        0 <= i < s.len(),
        0 <= j < s.len(),
        has_all_classes(s),
    ensures
        has_all_classes(s.update(i, s[j]).update(j, s[i])),
{
    let t = s.update(i, s[j]).update(j, s[i]);
    assert forall|p: spec_fn(char) -> bool| has_char(s, p) implies #[trigger] has_char(t, p) by {
        let k = choose|k: int| 0 <= k < s.len() && #[trigger] p(s[k]);
        let k2 = if k == i { j } else if k == j { i } else { k };
        assert(t[k2] == s[k]);
    }
}

/// Appending a character keeps every character class that occurs.
proof fn lemma_push_keeps_classes(s: Seq<char>, c: char)
    requires
        has_all_classes(s),
    ensures
        has_all_classes(s.push(c)),
{
    let t = s.push(c);
    assert forall|p: spec_fn(char) -> bool| has_char(s, p) implies #[trigger] has_char(t, p) by {
        let k = choose|k: int| 0 <= k < s.len() && #[trigger] p(s[k]);
        assert(t[k] == s[k]);
    }
}

/// The draws a generated password is made from are in range: one index
/// into each of the four class tables, twelve indices into the whole
/// alphabet, and for each position `i` from 15 down to 1 the position
/// `0..=i` it is swapped with.
pub open spec fn draws_in_range(first: Seq<usize>, rest: Seq<usize>, swaps: Seq<usize>) -> bool {
    &&& first.len() == 4
    &&& first[0] < 26 && first[1] < 26 && first[2] < 10 && first[3] < 26
    &&& rest.len() == GENERATED_PASSWORD_LEN - 4
    &&& forall|k: int| 0 <= k < rest.len() ==> #[trigger] rest[k] < 88
    &&& swaps.len() == GENERATED_PASSWORD_LEN - 1
    &&& forall|t: int| 0 <= t < swaps.len() ==> #[trigger] swaps[t] < GENERATED_PASSWORD_LEN - t
}

/// The characters before shuffling: one of each class, then the characters
/// of the alphabet picked by `rest`.
pub open spec fn unshuffled(first: Seq<usize>, rest: Seq<usize>) -> Seq<char> {
    seq![UPPER@[first[0] as int], LOWER@[first[1] as int], DIGITS@[first[2] as int], SPECIAL_CHARS@[first[3] as int]]
        + rest.map_values(|k: usize| ALPHABET@[k as int])
}

/// The Fisher–Yates shuffle of `s` from step `t` on: step `t` swaps
/// position `len - 1 - t` with position `swaps[t]`.
pub open spec fn shuffle_from(s: Seq<char>, swaps: Seq<usize>, t: nat) -> Seq<char>
    decreases swaps.len() - t,
{
    if t >= swaps.len() {
        s
    } else {
        let i = s.len() - 1 - t;
        let j = swaps[t as int] as int;
        shuffle_from(s.update(i, s[j]).update(j, s[i]), swaps, t + 1)
    }
}

/// The password the given draws make.
pub open spec fn generated(first: Seq<usize>, rest: Seq<usize>, swaps: Seq<usize>) -> Seq<char> {
    shuffle_from(unshuffled(first, rest), swaps, 0)
}

/// Builds the password for the given draws: one character of each class,
/// twelve more from the whole alphabet, then shuffled.
pub fn password_from_draws(first: [usize; 4], rest: &Vec<usize>, swaps: &Vec<usize>) -> (pw: String)
    requires
        draws_in_range(first@, rest@, swaps@),
    ensures
        pw@ == generated(first@, rest@, swaps@),
        pw@.len() == GENERATED_PASSWORD_LEN,
        forall|i: int| 0 <= i < pw@.len() ==> in_alphabet(#[trigger] pw@[i]),
        has_all_classes(pw@),
        forall|s: &str| s@ == pw@ ==> #[trigger] password_valid_spec(s),
{
    proof {
        lemma_tables();
    }
    let upper = chars_of(UPPER);
    let lower = chars_of(LOWER);
    let digits = chars_of(DIGITS);
    let special = chars_of(SPECIAL_CHARS);
    let all = chars_of(ALPHABET);
    let mut pw: Vec<char> = Vec::new();
    pw.push(upper[first[0]]);
    pw.push(lower[first[1]]);
    pw.push(digits[first[2]]);
    pw.push(special[first[3]]);
    assert(is_special(pw@[3]));
    assert(has_all_classes(pw@)) by {
        let p1 = |c: char| is_uppercase_char(c);
        let p2 = |c: char| is_lowercase_char(c);
        let p3 = |c: char| is_ascii_digit(c);
        let p4 = |c: char| is_special(c);
        assert(p1(pw@[0]) && p2(pw@[1]) && p3(pw@[2]) && p4(pw@[3]));
    }
    let mut n: usize = 0;
    while n < rest.len()
        invariant
            draws_in_range(first@, rest@, swaps@),
            n <= rest@.len(),
            pw@.len() == n + 4,
            all@ == ALPHABET@,
            ALPHABET@.len() == 88,
            forall|i: int| 0 <= i < 4 ==> pw@[i] == unshuffled(first@, rest@)[i],
            forall|i: int| 0 <= i < n ==> pw@[i + 4] == ALPHABET@[rest@[i] as int],
            forall|i: int| 0 <= i < n + 4 ==> in_alphabet(#[trigger] pw@[i]),
            has_all_classes(pw@),
        decreases rest@.len() - n,
    {
        let k = rest[n];
        assert(rest@[n as int] < 88);
        proof {
            lemma_alphabet_members(k as int);
        }
        let ghost before = pw@;
        pw.push(all[k]);
        proof {
            lemma_push_keeps_classes(before, all@[k as int]);
        }
        n = n + 1;
    }
    assert(pw@ =~= unshuffled(first@, rest@)) by {
        assert forall|i: int| 4 <= i < 16 implies pw@[i] == unshuffled(first@, rest@)[i] by {
            assert(pw@[(i - 4) + 4] == ALPHABET@[rest@[i - 4] as int]);
        }
    }
    let ghost target = generated(first@, rest@, swaps@);
    let mut t: usize = 0;
    while t < swaps.len()
        invariant
            draws_in_range(first@, rest@, swaps@),
            t <= swaps@.len(),
            pw@.len() == GENERATED_PASSWORD_LEN,
            shuffle_from(pw@, swaps@, t as nat) == target,
            forall|i: int| 0 <= i < GENERATED_PASSWORD_LEN ==> in_alphabet(#[trigger] pw@[i]),
            has_all_classes(pw@),
        decreases swaps@.len() - t,
    {
        let i = GENERATED_PASSWORD_LEN - 1 - t;
        let j = swaps[t];
        assert(swaps@[t as int] < GENERATED_PASSWORD_LEN - t);
        let ghost before = pw@;
        let a = pw[i];
        let b = pw[j];
        pw.set(i, b);
        pw.set(j, a);
        proof {
            assert(pw@ == before.update(i as int, before[j as int]).update(j as int, before[i as int]));
            lemma_swap_keeps_classes(before, i as int, j as int);
            assert forall|m: int| 0 <= m < GENERATED_PASSWORD_LEN implies in_alphabet(#[trigger] pw@[m]) by {
                let m2 = if m == i { j as int } else if m == j { i as int } else { m };
                assert(pw@[m] == before[m2]);
            }
        }
        t = t + 1;
    }
    let out = string_from_chars(&pw, 0, pw.len());
    proof {
        assert(pw@.subrange(0, 16) =~= pw@);
    }
    out
}

/// Generates a password for an account created or reset by an
/// administrator from draws of the thread's random generator; the password
/// is the one [`password_from_draws`] makes of some draws in range.
pub fn make_password() -> (pw: String)
    ensures
        exists|first: Seq<usize>, rest: Seq<usize>, swaps: Seq<usize>|
            draws_in_range(first, rest, swaps) && pw@ == #[trigger] generated(first, rest, swaps),
        pw@.len() == GENERATED_PASSWORD_LEN,
        forall|i: int| 0 <= i < pw@.len() ==> in_alphabet(#[trigger] pw@[i]),
        has_all_classes(pw@),
        forall|s: &str| s@ == pw@ ==> #[trigger] password_valid_spec(s),
{
    let mut rng = thread_rng();
    let a = random_below(&mut rng, 26);
    let b = random_below(&mut rng, 26);
    let c = random_below(&mut rng, 10);
    let d = random_below(&mut rng, 26);
    let first: [usize; 4] = [a, b, c, d];
    let mut rest: Vec<usize> = Vec::new();
    while rest.len() < GENERATED_PASSWORD_LEN - 4
        invariant
            rest@.len() <= GENERATED_PASSWORD_LEN - 4,
            forall|k: int| 0 <= k < rest@.len() ==> #[trigger] rest@[k] < 88,
        decreases GENERATED_PASSWORD_LEN - 4 - rest@.len(),
    {
        let k = random_below(&mut rng, 88);
        rest.push(k);
    }
    let mut swaps: Vec<usize> = Vec::new();
    while swaps.len() < GENERATED_PASSWORD_LEN - 1
        invariant
            swaps@.len() <= GENERATED_PASSWORD_LEN - 1,
            forall|t: int| 0 <= t < swaps@.len() ==> #[trigger] swaps@[t] < GENERATED_PASSWORD_LEN - t,
        decreases GENERATED_PASSWORD_LEN - 1 - swaps@.len(),
    {
        let i = GENERATED_PASSWORD_LEN - 1 - swaps.len();
        let j = random_below(&mut rng, i + 1);
        swaps.push(j);
    }
    assert(first@ =~= seq![a, b, c, d]);
    let pw = password_from_draws(first, &rest, &swaps);
    assert(draws_in_range(first@, rest@, swaps@) && pw@ == generated(first@, rest@, swaps@));
    pw
}

} // verus!

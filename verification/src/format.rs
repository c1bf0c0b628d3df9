//! Pure display helpers for the account list, the folder modal and the
//! statistics panel.

use vstd::prelude::*;

use crate::binary64::{
    at_least_1000, at_least_1000_exec, div1000, div1000_exec, from_int, from_int_exec, lemma_pow2n_mono, pow2n,
    sig_end, sig_min, tenths, tenths_exec,
};
use crate::text::{decimal, decimal_string, digit_char, digit_to_char, push_char, push_decimal, push_str, str_eq};

verus! {

/// Friendly label of an account status wire string.
pub open spec fn status_label_spec(status: Seq<char>) -> Seq<char> {
    if status == "PendingFirstSync"@ { "Pending first sync"@ }
    else if status == "Syncing"@ { "Syncing"@ }
    else if status == "Idle"@ { "Idle"@ }
    else if status == "Error"@ { "Error"@ }
    else if status == "Disabled"@ { "Disabled"@ }
    else { "Unknown"@ }
}

/// Friendly label for an AccountStatus wire string.
pub fn status_label(status: &str) -> (r: &'static str)
    ensures
        r@ == status_label_spec(status@),
{
    if str_eq(status, "PendingFirstSync") {
        "Pending first sync"
    } else if str_eq(status, "Syncing") {
        "Syncing"
    } else if str_eq(status, "Idle") {
        "Idle"
    } else if str_eq(status, "Error") {
        "Error"
    } else if str_eq(status, "Disabled") {
        "Disabled"
    } else {
        "Unknown"
    }
}

/// Text-colour class of the status glyph.
pub open spec fn status_icon_color_spec(status: Seq<char>) -> Seq<char> {
    if status == "Syncing"@ { "text-blue-500"@ }
    else if status == "Idle"@ { "text-green-500"@ }
    else if status == "Error"@ { "text-red-500"@ }
    else if status == "PendingFirstSync"@ { "text-amber-500"@ }
    else { "text-gray-400"@ }
}

/// Tailwind text-color class for the status glyph (disabled and unknown
/// states are gray).
pub fn status_icon_color(status: &str) -> (r: &'static str)
    ensures
        r@ == status_icon_color_spec(status@),
{
    if str_eq(status, "Syncing") {
        "text-blue-500"
    } else if str_eq(status, "Idle") {
        "text-green-500"
    } else if str_eq(status, "Error") {
        "text-red-500"
    } else if str_eq(status, "PendingFirstSync") {
        "text-amber-500"
    } else {
        "text-gray-400"
    }
}

/// Base of the status tooltip: `Error: <message>` for an error with a
/// non-empty message, otherwise the status label.
pub open spec fn tooltip_base(status: Seq<char>, last_error: Option<Seq<char>>) -> Seq<char> {
    if status == "Error"@ {
        match last_error {
            Some(e) => if e.len() > 0 { "Error: "@ + e } else { "Error"@ },
            None => "Error"@,
        }
    } else {
        status_label_spec(status)
    }
}

/// The full tooltip: the base, followed by ` · last synced <t>` when a
/// non-empty last-sync time is given.
pub open spec fn status_tooltip_spec(
    status: Seq<char>,
    last_synced: Option<Seq<char>>,
    last_error: Option<Seq<char>>,
) -> Seq<char> {
    let base = tooltip_base(status, last_error);
    match last_synced {
        Some(t) => if t.len() > 0 { base + " · last synced "@ + t } else { base },
        None => base,
    }
}

pub open spec fn opt_view(o: Option<&str>) -> Option<Seq<char>> {
    match o {
        Some(s) => Some(s@),
        None => None,
    }
}

/// Hover-tooltip text for the status glyph.
pub fn status_tooltip(status: &str, last_synced: Option<&str>, last_error: Option<&str>) -> (r: String)
    ensures
        r@ == status_tooltip_spec(status@, opt_view(last_synced), opt_view(last_error)),
{
    let mut base = String::new();
    if str_eq(status, "Error") {
        match last_error {
            Some(e) => {
                if !e.is_empty() {
                    push_str(&mut base, "Error: ");
                    push_str(&mut base, e);
                } else {
                    push_str(&mut base, "Error");
                }
            },
            None => {
                push_str(&mut base, "Error");
            },
        }
    } else {
        push_str(&mut base, status_label(status));
    }
    match last_synced {
        Some(t) => {
            if !t.is_empty() {
                push_str(&mut base, " · last synced ");
                push_str(&mut base, t);
            }
        },
        None => {},
    }
    base
}

/// Sort rank for special-use folders:
/// Inbox→Sent→Drafts→Archive→Trash→Junk→All→other.
pub open spec fn special_use_rank_spec(special_use: Option<Seq<char>>) -> u8 {
    match special_use {
        Some(s) => {
            if s == "inbox"@ { 0 }
            else if s == "sent"@ { 1 }
            else if s == "drafts"@ { 2 }
            else if s == "archive"@ { 3 }
            else if s == "trash"@ { 4 }
            else if s == "junk"@ { 5 }
            else if s == "all"@ { 6 }
            else { 7 }
        },
        None => 7,
    }
}

/// Sort rank of a special-use folder.
pub fn special_use_rank(special_use: Option<&str>) -> (r: u8)
    ensures
        r == special_use_rank_spec(opt_view(special_use)),
        r <= 7,
{
    match special_use {
        Some(s) => {
            if str_eq(s, "inbox") { 0 }
            else if str_eq(s, "sent") { 1 }
            else if str_eq(s, "drafts") { 2 }
            else if str_eq(s, "archive") { 3 }
            else if str_eq(s, "trash") { 4 }
            else if str_eq(s, "junk") { 5 }
            else if str_eq(s, "all") { 6 }
            else { 7 }
        },
        None => 7,
    }
}

} // verus!

verus! {

pub open spec fn unit_name(k: nat) -> Seq<char> {
    if k == 0 { "B"@ }
    else if k == 1 { "KB"@ }
    else if k == 2 { "MB"@ }
    else if k == 3 { "GB"@ }
    else { "TB"@ }
}

/// The double `m * 2^e`, divided by 1000 while it is at least 1000 and a
/// larger unit remains, with the index `u` of the unit reached.
pub open spec fn scale(m: nat, e: int, u: nat) -> (nat, int, nat)
    decreases 4 - u,
{
    if u < 4 && at_least_1000(m, e) {
        let d = div1000(m, e);
        scale(d.0, d.1, u + 1)
    } else {
        (m, e, u)
    }
}

/// Human-readable size: whole bytes below 1 KB; otherwise the size as a
/// double, divided by 1000 per unit up to TB, rounded to tenths (ties to
/// even) and shown with one decimal place.
pub open spec fn format_bytes_spec(bytes: nat) -> Seq<char> {
    if bytes < 1000 {
        decimal(bytes) + " B"@
    } else {
        let d = from_int(bytes);
        let f = scale(d.0, d.1, 0);
        let t = tenths(f.0, f.1);
        decimal(t / 10) + "."@ + seq![digit_char((t % 10) as int)] + " "@ + unit_name(f.2)
    }
}

fn unit_str(u: usize) -> (r: &'static str)
    ensures
        r@ == unit_name(u as nat),
{
    proof {
        reveal_strlit("B");
        reveal_strlit("KB");
        reveal_strlit("MB");
        reveal_strlit("GB");
        reveal_strlit("TB");
    }
    if u == 0 {
        "B"
    } else if u == 1 {
        "KB"
    } else if u == 2 {
        "MB"
    } else if u == 3 {
        "GB"
    } else {
        "TB"
    }
}

/// Human-readable byte size. Whole bytes below 1 KB; otherwise one decimal
/// place in the largest fitting unit (KB/MB/GB/TB, base 1000), computed in
/// double precision: the size is converted to a double, divided by 1000 per
/// unit, and rounded to tenths with ties to even, as `f64` printing does.
pub fn format_bytes(bytes: u64) -> (s: String)
    ensures
        s@ == format_bytes_spec(bytes as nat),
{
    if bytes < 1000 {
        let mut s = decimal_string(bytes);
        push_str(&mut s, " B");
        return s;
    }
    let (m0, e0) = from_int_exec(bytes);
    let ghost start = from_int(bytes as nat);
    let mut m = m0;
    let mut e = e0;
    let mut u: usize = 0;
    loop
        invariant
            sig_min() <= m < sig_end(),
            u <= 4,
            -43 - 10 * u <= e <= 12 - 8 * u,
            scale(m as nat, e as int, u as nat) == scale(start.0, start.1, 0),
            start == from_int(bytes as nat),
            start.0 == m0 && start.1 == e0,
        ensures
            sig_min() <= m < sig_end(),
            u <= 4,
            -43 - 10 * u <= e <= 12 - 8 * u,
            scale(m as nat, e as int, u as nat) == scale(start.0, start.1, 0),
            start == from_int(bytes as nat),
            u == 4 || !at_least_1000(m as nat, e as int),
        decreases 4 - u,
    {
        if u >= 4 {
            break;
        }
        if !at_least_1000_exec(m, e) {
            break;
        }
        let (m2, e2) = div1000_exec(m, e);
        m = m2;
        e = e2;
        u = u + 1;
    }
    proof {
        if e >= 0 {
            lemma_pow2n_mono(0, e as nat);
            assert(m * pow2n(e as nat) >= m) by (nonlinear_arith)
                requires
                    pow2n(e as nat) >= 1,
            ;
            assert(at_least_1000(m as nat, e as int));
        }
    }
    let t = tenths_exec(m, e);
    let mut s = decimal_string(t / 10);
    push_str(&mut s, ".");
    push_char(&mut s, digit_to_char(t % 10));
    push_str(&mut s, " ");
    push_str(&mut s, unit_str(u));
    s
}

/// Groups a digit string with a comma between every three digits, counted
/// from the right.
pub open spec fn group_thousands(d: Seq<char>) -> Seq<char>
    decreases d.len(),
{
    if d.len() <= 3 {
        d
    } else {
        group_thousands(d.take(d.len() - 3)) + seq![','] + d.skip(d.len() - 3)
    }
}

fn push_grouped(out: &mut String, d: &Vec<char>, end: usize)
    requires
        end <= d.len(),
    ensures
        final(out)@ == old(out)@ + group_thousands(d@.take(end as int)),
    decreases end,
{
    if end <= 3 {
        let mut i: usize = 0;
        while i < end
            invariant
                i <= end <= d.len(),
                out@ == old(out)@ + d@.take(i as int),
            decreases end - i,
        {
            push_char(out, d[i]);
            assert(d@.take(i + 1) == d@.take(i as int).push(d@[i as int]));
            i = i + 1;
        }
        assert(d@.take(end as int) == group_thousands(d@.take(end as int)));
    } else {
        push_grouped(out, d, end - 3);
        push_char(out, ',');
        push_char(out, d[end - 3]);
        push_char(out, d[end - 2]);
        push_char(out, d[end - 1]);
        let ghost pre = d@.take(end as int);
        assert(pre.take(pre.len() - 3) == d@.take(end - 3));
        assert(pre.skip(pre.len() - 3) == seq![d@[end - 3], d@[end - 2], d@[end - 1]]);
    }
}

/// The text without its commas.
pub open spec fn strip_commas(s: Seq<char>) -> Seq<char>
    decreases s.len(),
{
    if s.len() == 0 {
        s
    } else {
        strip_commas(s.drop_last()) + (if s.last() == ',' { Seq::<char>::empty() } else { seq![s.last()] })
    }
}

proof fn lemma_strip_concat(a: Seq<char>, b: Seq<char>)
    ensures
        strip_commas(a + b) == strip_commas(a) + strip_commas(b),
    decreases b.len(),
{
    if b.len() == 0 {
        assert(a + b =~= a);
        assert(strip_commas(a) + strip_commas(b) =~= strip_commas(a));
    } else {
        lemma_strip_concat(a, b.drop_last());
        assert((a + b).drop_last() =~= a + b.drop_last());
        let tail: Seq<char> = if b.last() == ',' { Seq::empty() } else { seq![b.last()] };
        assert(strip_commas(a) + strip_commas(b.drop_last()) + tail =~= strip_commas(a) + (strip_commas(
            b.drop_last(),
        ) + tail));
    }
}

proof fn lemma_strip_no_commas(s: Seq<char>)
    requires
        forall|i: int| 0 <= i < s.len() ==> s[i] != ',',
    ensures
        strip_commas(s) == s,
    decreases s.len(),
{
    if s.len() > 0 {
        lemma_strip_no_commas(s.drop_last());
        assert(s.drop_last().push(s.last()) =~= s);
    }
}

proof fn lemma_decimal_digits(n: nat)
    ensures
        forall|i: int| 0 <= i < decimal(n).len() ==> '0' <= #[trigger] decimal(n)[i] <= '9',
    decreases n,
{
    let c = digit_char((n % 10) as int);
    assert('0' <= c <= '9');
    if n >= 10 {
        lemma_decimal_digits(n / 10);
        let prev = decimal(n / 10);
        assert forall|i: int| 0 <= i < decimal(n).len() implies '0' <= #[trigger] decimal(n)[i] <= '9' by {
            if i < prev.len() {
                assert(decimal(n)[i] == prev[i]);
            }
        }
    } else {
        assert(n % 10 == n);
    }
}

proof fn lemma_group_strips_back(d: Seq<char>)
    requires
        forall|i: int| 0 <= i < d.len() ==> d[i] != ',',
    ensures
        strip_commas(group_thousands(d)) == d,
    decreases d.len(),
{
    if d.len() <= 3 {
        lemma_strip_no_commas(d);
    } else {
        let head = d.take(d.len() - 3);
        let tail = d.skip(d.len() - 3);
        lemma_group_strips_back(head);
        lemma_strip_concat(group_thousands(head) + seq![','], tail);
        lemma_strip_concat(group_thousands(head), seq![',']);
        assert(strip_commas(seq![',']) =~= Seq::<char>::empty()) by {
            let one: Seq<char> = seq![','];
            assert(one.drop_last() =~= Seq::<char>::empty());
            assert(one.last() == ',');
            assert(strip_commas(one.drop_last()) =~= Seq::<char>::empty());
        }
        lemma_strip_no_commas(tail);
        assert(head + tail =~= d);
        assert(strip_commas(group_thousands(head)) + Seq::<char>::empty() =~= head);
    }
}

/// The thousands separators are the only thing grouping adds: without its
/// commas the grouped number is its plain decimal form.
pub proof fn lemma_thousands_strips_to_decimal(n: nat)
    ensures
        strip_commas(group_thousands(decimal(n))) == decimal(n),
{
    lemma_decimal_digits(n);
    assert forall|i: int| 0 <= i < decimal(n).len() implies decimal(n)[i] != ',' by {
        assert('0' <= decimal(n)[i] <= '9');
    }
    lemma_group_strips_back(decimal(n));
}

/// Group an integer with thousands separators (e.g. 12431 -> "12,431").
pub fn thousands(n: u64) -> (s: String)
    ensures
        s@ == group_thousands(decimal(n as nat)),
{
    let digits = crate::text::chars_of(decimal_string(n).as_str());
    let mut out = String::new();
    push_grouped(&mut out, &digits, digits.len());
    assert(digits@.take(digits.len() as int) == digits@);
    out
}

} // verus!

verus! {

/// A UTC instant: whole seconds since the Unix epoch plus the sub-second
/// nanoseconds.
#[derive(Clone, Copy, Debug, PartialEq, Eq)]
pub struct UtcTime {
    pub secs: i64,
    pub nanos: u32,
}

impl UtcTime {
    pub open spec fn total_nanos(self) -> int {
        self.secs * 1_000_000_000 + self.nanos
    }

    /// The nanoseconds are a fraction of a second.
    pub open spec fn wf(self) -> bool {
        self.nanos < 1_000_000_000
    }

    /// This instant moved by `secs` seconds and `nanos` nanoseconds.
    pub fn plus(self, secs: i64, nanos: u32) -> (r: UtcTime)
        requires
            self.wf(),
            nanos < 1_000_000_000,
            i64::MIN < self.secs + secs < i64::MAX,
        ensures
            r.wf(),
            r.total_nanos() == self.total_nanos() + secs * 1_000_000_000 + nanos,
    {
        let total: u32 = self.nanos + nanos;
        if total >= 1_000_000_000 {
            UtcTime { secs: self.secs + secs + 1, nanos: total - 1_000_000_000 }
        } else {
            UtcTime { secs: self.secs + secs, nanos: total }
        }
    }
}

/// Whole seconds from `from` to `now`, truncated toward zero (the duration's
/// `num_seconds`).
pub open spec fn elapsed_seconds(from: UtcTime, now: UtcTime) -> int {
    let d = now.total_nanos() - from.total_nanos();
    if d >= 0 { d / 1_000_000_000 } else { -((-d) / 1_000_000_000) }
}

/// Whole-unit relative time for an elapsed number of seconds.
pub open spec fn relative_time_spec(secs: int) -> Seq<char> {
    if secs < 60 {
        "just now"@
    } else if secs / 60 < 60 {
        decimal((secs / 60) as nat) + "m ago"@
    } else if secs / 3600 < 24 {
        decimal((secs / 3600) as nat) + "h ago"@
    } else {
        decimal((secs / 86400) as nat) + "d ago"@
    }
}

/// `q * u` nanoseconds fit in `diff` and `q + 1` units do not.
pub open spec fn whole_units(diff: int, u: int, q: nat) -> bool {
    q * u <= diff < (q + 1) * u
}

proof fn lemma_units_of_seconds(diff: int, secs: int, u: int)
    requires
        diff >= 0,
        secs == diff / 1_000_000_000,
        u > 0,
    ensures
        whole_units(diff, u * 1_000_000_000, (secs / u) as nat),
        secs / u >= 0,
{
    assert(secs * 1_000_000_000 <= diff < (secs + 1) * 1_000_000_000) by (nonlinear_arith)
        requires
            diff >= 0,
            secs == diff / 1_000_000_000,
    ;
    let q = secs / u;
    assert(q * u <= secs < (q + 1) * u && q >= 0) by (nonlinear_arith)
        requires
            u > 0,
            secs >= 0,
            q == secs / u,
    ;
    assert(q * (u * 1_000_000_000) <= diff < (q + 1) * (u * 1_000_000_000)) by (nonlinear_arith)
        requires
            q * u <= secs < (q + 1) * u,
            secs * 1_000_000_000 <= diff < (secs + 1) * 1_000_000_000,
    ;
}

/// A relative time names the whole number of minutes, hours or days that
/// elapsed from `from` to `now`, in the largest unit that fits below the
/// next one; under a minute (or when `from` is later) it says "just now".
pub proof fn lemma_relative_time_counts_whole_units(from: UtcTime, now: UtcTime)
    ensures
        ({
            let diff = now.total_nanos() - from.total_nanos();
            let s = relative_time_spec(elapsed_seconds(from, now));
            &&& diff < 60_000_000_000 ==> s == "just now"@
            &&& 60_000_000_000 <= diff < 3_600_000_000_000 ==> exists|m: nat|
                1 <= m < 60 && whole_units(diff, 60_000_000_000, m) && s == #[trigger] decimal(m) + "m ago"@
            &&& 3_600_000_000_000 <= diff < 86_400_000_000_000 ==> exists|h: nat|
                1 <= h < 24 && whole_units(diff, 3_600_000_000_000, h) && s == #[trigger] decimal(h) + "h ago"@
            &&& 86_400_000_000_000 <= diff ==> exists|d: nat|
                1 <= d && whole_units(diff, 86_400_000_000_000, d) && s == #[trigger] decimal(d) + "d ago"@
        }),
{
    let diff = now.total_nanos() - from.total_nanos();
    let secs = elapsed_seconds(from, now);
    let s = relative_time_spec(secs);
    if diff >= 60_000_000_000 {
        assert(secs == diff / 1_000_000_000);
        assert(secs >= 60);
        lemma_units_of_seconds(diff, secs, 60);
        lemma_units_of_seconds(diff, secs, 3600);
        lemma_units_of_seconds(diff, secs, 86400);
        if diff < 3_600_000_000_000 {
            assert(secs < 3600);
            let m = (secs / 60) as nat;
            assert(s == decimal(m) + "m ago"@);
        } else if diff < 86_400_000_000_000 {
            assert(3600 <= secs < 86400);
            let h = (secs / 3600) as nat;
            assert(s == decimal(h) + "h ago"@);
        } else {
            assert(secs >= 86400);
            let d = (secs / 86400) as nat;
            assert(s == decimal(d) + "d ago"@);
        }
    } else {
        if diff >= 0 {
            assert(secs == diff / 1_000_000_000);
        }
    }
}

/// Whole-unit relative time ("just now", "2m ago", "3h ago", "2d ago").
pub fn relative_time(from: UtcTime, now: UtcTime) -> (s: String)
    ensures
        s@ == relative_time_spec(elapsed_seconds(from, now)),
        now.total_nanos() - from.total_nanos() < 60_000_000_000 ==> s@ == "just now"@,
        60_000_000_000 <= now.total_nanos() - from.total_nanos() < 3_600_000_000_000 ==> exists|m: nat|
            1 <= m < 60 && whole_units(now.total_nanos() - from.total_nanos(), 60_000_000_000, m) && s@
                == #[trigger] decimal(m) + "m ago"@,
        3_600_000_000_000 <= now.total_nanos() - from.total_nanos() < 86_400_000_000_000 ==> exists|h: nat|
            1 <= h < 24 && whole_units(now.total_nanos() - from.total_nanos(), 3_600_000_000_000, h) && s@
                == #[trigger] decimal(h) + "h ago"@,
        now.total_nanos() - from.total_nanos() >= 86_400_000_000_000 ==> exists|d: nat|
            1 <= d && whole_units(now.total_nanos() - from.total_nanos(), 86_400_000_000_000, d) && s@
                == #[trigger] decimal(d) + "d ago"@,
{
    proof {
        lemma_relative_time_counts_whole_units(from, now);
    }
    let ds: i128 = (now.secs as i128) - (from.secs as i128);
    let total: i128 = ds * 1_000_000_000 + ((now.nanos as i128) - (from.nanos as i128));
    assert(total == now.total_nanos() - from.total_nanos());
    if total < 60_000_000_000 {
        assert(elapsed_seconds(from, now) < 60);
        return String::from_str("just now");
    }
    let secs: u128 = (total as u128) / 1_000_000_000;
    assert(secs == elapsed_seconds(from, now));
    assert(secs < 0x1_0000_0000_0000_0000_0000);
    let mins: u128 = secs / 60;
    let mut s = String::new();
    if mins < 60 {
        push_decimal(&mut s, mins as u64);
        push_str(&mut s, "m ago");
        return s;
    }
    let hours: u128 = secs / 3600;
    assert(hours == mins / 60);
    if hours < 24 {
        push_decimal(&mut s, hours as u64);
        push_str(&mut s, "h ago");
        return s;
    }
    let days: u128 = secs / 86400;
    assert(days < 0x1_0000_0000_0000_0000);
    push_decimal(&mut s, days as u64);
    push_str(&mut s, "d ago");
    s
}

/// Global archive statistics of one user; `last_synced` is a preformatted
/// relative time or `None` when nothing has synced.
#[derive(Clone, Debug, PartialEq, Eq)]
pub struct ArchiveStatsDto {
    pub message_count: u64,
    pub attachment_count: u64,
    pub storage_bytes: u64,
    pub account_count: u64,
    pub last_synced: Option<String>,
}

/// The four labelled display values of the stat cards, in render order.
pub fn stat_cards(dto: &ArchiveStatsDto) -> (cards: [(&'static str, String); 4])
    ensures
        cards[0].0@ == "Messages"@,
        cards[0].1@ == group_thousands(decimal(dto.message_count as nat)),
        cards[1].0@ == "Storage"@,
        cards[1].1@ == format_bytes_spec(dto.storage_bytes as nat),
        cards[2].0@ == "Accounts"@,
        cards[2].1@ == group_thousands(decimal(dto.account_count as nat)),
        cards[3].0@ == "Attachments"@,
        cards[3].1@ == group_thousands(decimal(dto.attachment_count as nat)),
{
    [
        ("Messages", thousands(dto.message_count)),
        ("Storage", format_bytes(dto.storage_bytes)),
        ("Accounts", thousands(dto.account_count)),
        ("Attachments", thousands(dto.attachment_count)),
    ]
}

/// `dto` shows `s`, its last sync relative to `now`.
pub open spec fn stats_dto_of(s: crate::adapters::stats::ArchiveStats, now: UtcTime, dto: ArchiveStatsDto) -> bool {
    &&& dto.message_count == s.message_count
    &&& dto.attachment_count == s.attachment_count
    &&& dto.storage_bytes == s.storage_bytes
    &&& dto.account_count == s.account_count
    &&& match s.last_synced_at {
        Some(t) => dto.last_synced matches Some(l) && l@ == relative_time_spec(elapsed_seconds(t, now)),
        None => dto.last_synced is None,
    }
}

/// The statistics as the home page receives them, the last sync relative to
/// `now`.
pub fn archive_stats_to_dto_at(s: &crate::adapters::stats::ArchiveStats, now: UtcTime) -> (r: ArchiveStatsDto)
    ensures
        stats_dto_of(*s, now, r),
{
    ArchiveStatsDto {
        message_count: s.message_count,
        attachment_count: s.attachment_count,
        storage_bytes: s.storage_bytes,
        account_count: s.account_count,
        last_synced: match s.last_synced_at {
            Some(t) => Some(relative_time(t, now)),
            None => None,
        },
    }
}

/// The statistics as the home page receives them, the last sync relative to
/// the current time.
pub fn archive_stats_to_dto(s: &crate::adapters::stats::ArchiveStats) -> (r: ArchiveStatsDto)
    ensures
        exists|now: UtcTime| now.wf() && stats_dto_of(*s, now, r),
{
    let now = crate::viewer::utc_now();
    archive_stats_to_dto_at(s, now)
}

} // verus!

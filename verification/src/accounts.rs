//! Mail accounts on the home page and in the add-account flow: the data
//! exchanged with the server, the folder list of an account and the edits
//! made to it.

use vstd::prelude::*;
use vstd::multiset::Multiset;

use crate::folder_tree::{FolderTree, RemoteFolderDto};
use crate::format::{elapsed_seconds, relative_time, relative_time_spec, special_use_rank, special_use_rank_spec, UtcTime};
use crate::text::{chars_of, clone_opt_string, decimal, opt_chars, push_decimal, push_str, str_eq};
use crate::users::{lex_le, lemma_lex_le_total, lemma_lex_le_trans};

verus! {

// ---------------------------------------------------------------------------
// Connection settings
// ---------------------------------------------------------------------------

/// How the IMAP connection is encrypted.
#[derive(Clone, Copy, Debug, PartialEq, Eq)]
pub enum TlsMode {
    /// TLS from the first byte.
    Tls,
    /// A plain connection upgraded with STARTTLS.
    StartTls,
}

pub open spec fn tls_from_spec(s: Seq<char>) -> TlsMode {
    if s == "StartTls"@ {
        TlsMode::StartTls
    } else {
        TlsMode::Tls
    }
}

/// The encryption a form value names; anything but "StartTls" means
/// implicit TLS.
pub fn tls_from_string(s: &str) -> (r: TlsMode)
    ensures
        r == tls_from_spec(s@),
{
    if str_eq(s, "StartTls") {
        TlsMode::StartTls
    } else {
        TlsMode::Tls
    }
}

/// The IMAP connection settings as entered in the form.
#[derive(Clone, Debug, PartialEq)]
pub struct ServerConfigDto {
    pub host: String,
    pub port: u16,
    /// "Tls" or "StartTls".
    pub tls: String,
}

/// The IMAP connection settings.
#[derive(Clone, Debug, PartialEq)]
pub struct ImapServerConfig {
    pub host: String,
    pub port: u16,
    pub tls: TlsMode,
}

pub fn server_config_from_dto(d: &ServerConfigDto) -> (r: ImapServerConfig)
    ensures
        r.host == d.host,
        r.port == d.port,
        r.tls == tls_from_spec(d.tls@),
{
    ImapServerConfig { host: d.host.clone(), port: d.port, tls: tls_from_string(d.tls.as_str()) }
}

// ---------------------------------------------------------------------------
// Special-use folders
// ---------------------------------------------------------------------------

/// The role a server gives a folder.
#[derive(Clone, Copy, Debug, PartialEq, Eq)]
pub enum SpecialUse {
    Inbox,
    Sent,
    Drafts,
    Archive,
    Trash,
    Junk,
    All,
}

pub open spec fn special_use_name(s: SpecialUse) -> Seq<char> {
    match s {
        SpecialUse::Inbox => "inbox"@,
        SpecialUse::Sent => "sent"@,
        SpecialUse::Drafts => "drafts"@,
        SpecialUse::Archive => "archive"@,
        SpecialUse::Trash => "trash"@,
        SpecialUse::Junk => "junk"@,
        SpecialUse::All => "all"@,
    }
}

impl SpecialUse {
    /// The wire name of the role.
    pub fn as_str(&self) -> (r: &'static str)
        ensures
            r@ == special_use_name(*self),
    {
        match self {
            SpecialUse::Inbox => "inbox",
            SpecialUse::Sent => "sent",
            SpecialUse::Drafts => "drafts",
            SpecialUse::Archive => "archive",
            SpecialUse::Trash => "trash",
            SpecialUse::Junk => "junk",
            SpecialUse::All => "all",
        }
    }

    /// The role a wire name stands for, if any.
    pub fn parse(s: &str) -> (r: Option<SpecialUse>)
        ensures
            match r {
                Some(u) => special_use_name(u) == s@,
                None => forall|u: SpecialUse| special_use_name(u) != s@,
            },
    {
        if str_eq(s, "inbox") {
            Some(SpecialUse::Inbox)
        } else if str_eq(s, "sent") {
            Some(SpecialUse::Sent)
        } else if str_eq(s, "drafts") {
            Some(SpecialUse::Drafts)
        } else if str_eq(s, "archive") {
            Some(SpecialUse::Archive)
        } else if str_eq(s, "trash") {
            Some(SpecialUse::Trash)
        } else if str_eq(s, "junk") {
            Some(SpecialUse::Junk)
        } else if str_eq(s, "all") {
            Some(SpecialUse::All)
        } else {
            None
        }
    }
}

pub fn special_use_to_string(s: Option<SpecialUse>) -> (r: Option<String>)
    ensures
        opt_chars(r) == match s {
            Some(u) => Some(special_use_name(u)),
            None => None,
        },
{
    match s {
        Some(u) => Some(String::from_str(u.as_str())),
        None => None,
    }
}

pub fn special_use_from_string(s: Option<&String>) -> (r: Option<SpecialUse>)
    ensures
        s is None ==> r is None,
        s matches Some(v) ==> match r {
            Some(u) => special_use_name(u) == v@,
            None => forall|u: SpecialUse| special_use_name(u) != v@,
        },
{
    match s {
        Some(v) => SpecialUse::parse(v.as_str()),
        None => None,
    }
}

/// A special use survives being stored as its name and read back.
pub proof fn lemma_special_use_round_trip(u: SpecialUse, r: Option<SpecialUse>)
    requires
        match r {
            Some(v) => special_use_name(v) == special_use_name(u),
            None => forall|v: SpecialUse| special_use_name(v) != special_use_name(u),
        },
    ensures
        r == Some(u),
{
    reveal_strlit("inbox");
    reveal_strlit("sent");
    reveal_strlit("drafts");
    reveal_strlit("archive");
    reveal_strlit("trash");
    reveal_strlit("junk");
    reveal_strlit("all");
    match r {
        Some(v) => {
            if v != u {
                assert(special_use_name(v).len() != special_use_name(u).len() || special_use_name(v)[0]
                    != special_use_name(u)[0] || special_use_name(v)[1] != special_use_name(u)[1]);
            }
        },
        None => {
            assert(special_use_name(u) == special_use_name(u));
        },
    }
}

/// A folder as the server lists it.
#[derive(Clone, Debug, PartialEq)]
pub struct RemoteFolder {
    pub path: String,
    pub special_use: Option<SpecialUse>,
    pub has_children: bool,
    pub no_select: bool,
    pub delimiter: Option<String>,
}

pub fn remote_folder_to_dto(f: RemoteFolder) -> (r: RemoteFolderDto)
    ensures
        r.path == f.path,
        opt_chars(r.special_use) == match f.special_use {
            Some(u) => Some(special_use_name(u)),
            None => None,
        },
        r.has_children == f.has_children,
        r.no_select == f.no_select,
        r.delimiter == f.delimiter,
{
    RemoteFolderDto {
        path: f.path,
        special_use: special_use_to_string(f.special_use),
        has_children: f.has_children,
        no_select: f.no_select,
        delimiter: f.delimiter,
    }
}

// ---------------------------------------------------------------------------
// The account list
// ---------------------------------------------------------------------------

/// One account of the home page list.
#[derive(Clone, Debug, PartialEq)]
pub struct AccountSummaryDto {
    pub token: String,
    pub display_name: String,
    pub email: String,
    /// "PendingFirstSync", "Syncing", "Idle", "Error" or "Disabled".
    pub status: String,
    /// When it last synced, relative to now; `None` when never.
    pub last_synced: Option<String>,
    /// The last error, shown only for an account in error.
    pub last_error: Option<String>,
}

/// The fields of a stored account that its summary shows.
#[derive(Clone, Debug, PartialEq)]
pub struct AccountInfo {
    pub token: String,
    pub display_name: String,
    pub email_address: String,
    pub status: String,
    pub last_error: Option<String>,
}

/// `s` summarises `a`, last synced at `last_synced_at`, relative to `now`.
pub open spec fn summary_of(a: AccountInfo, last_synced_at: Option<UtcTime>, now: UtcTime, s: AccountSummaryDto) -> bool {
    &&& s.token@ == a.token@
    &&& s.display_name@ == a.display_name@
    &&& s.email@ == a.email_address@
    &&& s.status@ == a.status@
    &&& opt_chars(s.last_synced) == match last_synced_at {
        Some(t) => Some(relative_time_spec(elapsed_seconds(t, now))),
        None => None,
    }
    &&& opt_chars(s.last_error) == (if a.status@ == "Error"@ { opt_chars(a.last_error) } else { None })
}

/// The summary of an account, its last sync relative to `now`.
pub fn account_to_summary_at(a: &AccountInfo, last_synced_at: Option<UtcTime>, now: UtcTime) -> (r:
    AccountSummaryDto)
    ensures
        summary_of(*a, last_synced_at, now, r),
{
    let last_synced = match last_synced_at {
        Some(t) => Some(relative_time(t, now)),
        None => None,
    };
    let last_error = if str_eq(a.status.as_str(), "Error") {
        clone_opt_string(&a.last_error)
    } else {
        None
    };
    AccountSummaryDto {
        token: a.token.clone(),
        display_name: a.display_name.clone(),
        email: a.email_address.clone(),
        status: a.status.clone(),
        last_synced,
        last_error,
    }
}

/// The summary of an account, its last sync relative to the current time.
pub fn account_to_summary(a: &AccountInfo, last_synced_at: Option<UtcTime>) -> (r: AccountSummaryDto)
    ensures
        exists|now: UtcTime| now.wf() && summary_of(*a, last_synced_at, now, r),
{
    let now = crate::viewer::utc_now();
    account_to_summary_at(a, last_synced_at, now)
}

/// An account counts as switched on unless its status is "Disabled".
pub fn account_enabled(status: &str) -> (r: bool)
    ensures
        r == (status@ != "Disabled"@),
{
    !str_eq(status, "Disabled")
}

/// The label of the switch in an account's menu.
pub fn toggle_label(enabled: bool) -> (r: &'static str)
    ensures
        r@ == (if enabled { "Disable"@ } else { "Enable"@ }),
{
    if enabled {
        "Disable"
    } else {
        "Enable"
    }
}

/// The glyph shown for an account's status.
#[derive(Clone, Copy, Debug, PartialEq, Eq)]
pub enum StatusGlyph {
    Check,
    /// Turns while syncing.
    Spinner,
    Warning,
    Paused,
    /// Waiting for the first sync, or a status not known here.
    Clock,
}

pub fn status_glyph(status: &str) -> (r: StatusGlyph)
    ensures
        r == (if status@ == "Idle"@ {
            StatusGlyph::Check
        } else if status@ == "Syncing"@ {
            StatusGlyph::Spinner
        } else if status@ == "Error"@ {
            StatusGlyph::Warning
        } else if status@ == "Disabled"@ {
            StatusGlyph::Paused
        } else {
            StatusGlyph::Clock
        }),
{
    if str_eq(status, "Idle") {
        StatusGlyph::Check
    } else if str_eq(status, "Syncing") {
        StatusGlyph::Spinner
    } else if str_eq(status, "Error") {
        StatusGlyph::Warning
    } else if str_eq(status, "Disabled") {
        StatusGlyph::Paused
    } else {
        StatusGlyph::Clock
    }
}

/// The freshness line of the statistics panel.
pub fn last_synced_text(last_synced: &Option<String>) -> (r: String)
    ensures
        r@ == match last_synced {
            Some(t) => "updated "@ + t@,
            None => "never synced"@,
        },
{
    match last_synced {
        Some(t) => {
            let mut r = String::from_str("updated ");
            push_str(&mut r, t.as_str());
            r
        },
        None => String::from_str("never synced"),
    }
}

// ---------------------------------------------------------------------------
// An account's folders
// ---------------------------------------------------------------------------

/// One folder of an existing account.
#[derive(Clone, Debug, PartialEq)]
pub struct AccountFolderDto {
    pub token: String,
    pub path: String,
    /// Lowercase special-use name, if any.
    pub special_use: Option<String>,
    pub enabled: bool,
}

/// The wanted state of one folder.
#[derive(Clone, Debug, PartialEq)]
pub struct FolderEnabledDto {
    pub token: String,
    pub enabled: bool,
}

/// The fields of a stored folder that the folder list shows.
#[derive(Clone, Debug, PartialEq)]
pub struct FolderInfo {
    pub token: String,
    pub path: String,
    pub special_use: Option<SpecialUse>,
    pub enabled: bool,
}

pub fn folder_to_account_folder(f: &FolderInfo) -> (r: AccountFolderDto)
    ensures
        r.token@ == f.token@,
        r.path@ == f.path@,
        opt_chars(r.special_use) == match f.special_use {
            Some(u) => Some(special_use_name(u)),
            None => None,
        },
        r.enabled == f.enabled,
{
    AccountFolderDto {
        token: f.token.clone(),
        path: f.path.clone(),
        special_use: special_use_to_string(f.special_use),
        enabled: f.enabled,
    }
}

/// The folder list order: by role (inbox, sent, drafts, archive, trash,
/// junk, all, then the rest), then by path.
pub open spec fn folder_le(a: AccountFolderDto, b: AccountFolderDto) -> bool {
    let ra = special_use_rank_spec(opt_chars(a.special_use));
    let rb = special_use_rank_spec(opt_chars(b.special_use));
    ra < rb || (ra == rb && lex_le(a.path@, b.path@))
}

pub open spec fn folders_sorted(s: Seq<AccountFolderDto>) -> bool {
    forall|i: int, j: int| 0 <= i < j < s.len() ==> #[trigger] folder_le(s[i], s[j])
}

proof fn lemma_folder_le_total(a: AccountFolderDto, b: AccountFolderDto)
    ensures
        folder_le(a, b) || folder_le(b, a),
{
    lemma_lex_le_total(a.path@, b.path@);
}

proof fn lemma_folder_le_trans(a: AccountFolderDto, b: AccountFolderDto, c: AccountFolderDto)
    requires
        folder_le(a, b),
        folder_le(b, c),
    ensures
        folder_le(a, c),
{
    if lex_le(a.path@, b.path@) && lex_le(b.path@, c.path@) {
        lemma_lex_le_trans(a.path@, b.path@, c.path@);
    }
}

fn folder_rank(f: &AccountFolderDto) -> (r: u8)
    ensures
        r == special_use_rank_spec(opt_chars(f.special_use)),
{
    match &f.special_use {
        Some(s) => special_use_rank(Some(s.as_str())),
        None => special_use_rank(None),
    }
}

fn folder_le_exec(a: &AccountFolderDto, b: &AccountFolderDto) -> (r: bool)
    ensures
        r == folder_le(*a, *b),
{
    let ra = folder_rank(a);
    let rb = folder_rank(b);
    if ra != rb {
        return ra < rb;
    }
    let pa = chars_of(a.path.as_str());
    let pb = chars_of(b.path.as_str());
    crate::users::lex_le_chars(&pa, &pb)
}

proof fn lemma_insert_folder_sorted(s: Seq<AccountFolderDto>, p: int, x: AccountFolderDto)
    requires
        folders_sorted(s),
        0 <= p <= s.len(),
        forall|k: int| 0 <= k < p ==> #[trigger] folder_le(s[k], x),
        p < s.len() ==> !folder_le(s[p], x),
    ensures
        folders_sorted(s.insert(p, x)),
{
    let t = s.insert(p, x);
    if p < s.len() {
        lemma_folder_le_total(s[p], x);
    }
    assert forall|i: int, j: int| 0 <= i < j < t.len() implies #[trigger] folder_le(t[i], t[j]) by {
        if i < p && j < p {
            assert(folder_le(s[i], s[j]));
        } else if i < p && j == p {
        } else if i < p {
            assert(folder_le(s[i], s[j - 1]));
        } else if i == p {
            if j - 1 > p {
                assert(folder_le(s[p], s[j - 1]));
                lemma_folder_le_trans(x, s[p], s[j - 1]);
            }
        } else {
            assert(folder_le(s[i - 1], s[j - 1]));
        }
    }
}

/// Puts an account's folders in list order: by role, then by path.
pub fn sort_account_folders(folders: Vec<AccountFolderDto>) -> (r: Vec<AccountFolderDto>)
    ensures
        r@.to_multiset() == folders@.to_multiset(),
        folders_sorted(r@),
{
    broadcast use vstd::seq_lib::group_to_multiset_ensures;

    let ghost all = folders@;
    let mut rest = folders;
    let mut out: Vec<AccountFolderDto> = Vec::new();
    assert(out@.to_multiset() =~= Multiset::empty());
    while rest.len() > 0
        invariant
            out@.to_multiset().add(rest@.to_multiset()) == all.to_multiset(),
            folders_sorted(out@),
        decreases rest.len(),
    {
        let ghost rest0 = rest@;
        let x = rest.remove(0);
        proof {
            vstd::seq_lib::to_multiset_remove(rest0, 0);
        }
        let mut p: usize = 0;
        while p < out.len() && folder_le_exec(&out[p], &x)
            invariant
                p <= out.len(),
                forall|k: int| 0 <= k < p ==> #[trigger] folder_le(out@[k], x),
            decreases out.len() - p,
        {
            p = p + 1;
        }
        let ghost out0 = out@;
        proof {
            lemma_insert_folder_sorted(out0, p as int, x);
            vstd::seq_lib::to_multiset_insert(out0, p as int, x);
        }
        out.insert(p, x);
        proof {
            broadcast use vstd::multiset::group_multiset_axioms;
            assert(rest0.to_multiset().count(x) > 0) by {
                vstd::seq_lib::to_multiset_contains(rest0, x);
                assert(rest0.contains(x)) by {
                    assert(rest0[0] == x);
                }
            }
            assert(out@.to_multiset().add(rest@.to_multiset()) =~= all.to_multiset());
        }
    }
    assert(rest@.to_multiset() =~= Multiset::empty());
    assert(out@.to_multiset() =~= all.to_multiset());
    out
}

pub open spec fn some_enabled(v: Seq<FolderEnabledDto>) -> bool {
    exists|i: int| 0 <= i < v.len() && (#[trigger] v[i]).enabled
}

/// Whether any folder is wanted on.
pub fn any_enabled(v: &Vec<FolderEnabledDto>) -> (r: bool)
    ensures
        r == some_enabled(v@),
{
    let mut i: usize = 0;
    while i < v.len()
        invariant
            i <= v.len(),
            forall|j: int| 0 <= j < i ==> !(#[trigger] v@[j]).enabled,
        decreases v.len() - i,
    {
        if v[i].enabled {
            assert(v@[i as int].enabled);
            return true;
        }
        i = i + 1;
    }
    false
}

/// An account keeps at least one folder on.
pub fn check_folders_enabled(v: &Vec<FolderEnabledDto>) -> (r: Result<(), &'static str>)
    ensures
        some_enabled(v@) ==> r is Ok,
        !some_enabled(v@) ==> (r matches Err(m) && m@ == "At least one folder must be enabled."@),
{
    if !any_enabled(v) {
        return Err("At least one folder must be enabled.");
    }
    Ok(())
}

/// The stored state of folder `id`: the last entry for it in `current`.
pub open spec fn stored_state(current: Seq<(u64, bool)>, id: u64, n: nat) -> Option<bool>
    decreases n,
{
    if n == 0 {
        None
    } else if current[n - 1].0 == id {
        Some(current[n - 1].1)
    } else {
        stored_state(current, id, (n - 1) as nat)
    }
}

/// A wanted state is written only for a folder of the account whose stored
/// state differs.
pub fn folder_needs_update(current: &Vec<(u64, bool)>, id: u64, enabled: bool) -> (r: bool)
    ensures
        r == (stored_state(current@, id, current@.len()) matches Some(cur) && cur != enabled),
{
    let mut n: usize = current.len();
    while n > 0
        invariant
            n <= current.len(),
            stored_state(current@, id, current@.len()) == stored_state(current@, id, n as nat),
        decreases n,
    {
        if current[n - 1].0 == id {
            return current[n - 1].1 != enabled;
        }
        n = n - 1;
    }
    false
}

/// A running account is restarted when its folder selection changed.
pub fn restart_needed(changed: bool, account_enabled: bool) -> (r: bool)
    ensures
        r == (changed && account_enabled),
{
    changed && account_enabled
}

/// The edit dialog starts from the stored states, in list order.
pub fn initial_edits(list: &Vec<AccountFolderDto>) -> (r: Vec<FolderEnabledDto>)
    ensures
        r@.len() == list@.len(),
        forall|k: int| 0 <= k < list@.len() ==> (#[trigger] r@[k]).token@ == list@[k].token@ && r@[k].enabled
            == list@[k].enabled,
{
    let mut r: Vec<FolderEnabledDto> = Vec::new();
    let mut i: usize = 0;
    while i < list.len()
        invariant
            i <= list.len(),
            r@.len() == i,
            forall|k: int| 0 <= k < i ==> (#[trigger] r@[k]).token@ == list@[k].token@ && r@[k].enabled
                == list@[k].enabled,
        decreases list.len() - i,
    {
        r.push(FolderEnabledDto { token: list[i].token.clone(), enabled: list[i].enabled });
        i = i + 1;
    }
    r
}

/// A checkbox of the edit dialog changed; an index past the list is
/// ignored.
pub fn set_edit(edits: &mut Vec<FolderEnabledDto>, idx: usize, checked: bool)
    ensures
        final(edits)@.len() == old(edits)@.len(),
        idx < old(edits)@.len() ==> final(edits)@[idx as int].enabled == checked && final(edits)@[idx as int].token
            == old(edits)@[idx as int].token,
        forall|k: int| 0 <= k < old(edits)@.len() && k != idx ==> #[trigger] final(edits)@[k] == old(edits)@[k],
        idx >= old(edits)@.len() ==> final(edits)@ == old(edits)@,
{
    if idx < edits.len() {
        let token = edits[idx].token.clone();
        edits.set(idx, FolderEnabledDto { token, enabled: checked });
    }
}

/// The dialog saves only while idle and with some folder on.
pub fn can_save_edits(busy: bool, edits: &Vec<FolderEnabledDto>) -> (r: bool)
    ensures
        r == (!busy && some_enabled(edits@)),
{
    !busy && any_enabled(edits)
}

// ---------------------------------------------------------------------------
// The folder picker of the add-account flow
// ---------------------------------------------------------------------------

pub open spec fn icon_spec(su: Option<Seq<char>>) -> Seq<char> {
    match su {
        Some(s) => if s == "inbox"@ {
            "📥"@
        } else if s == "sent"@ {
            "📤"@
        } else if s == "drafts"@ {
            "📝"@
        } else if s == "trash"@ {
            "🗑"@
        } else if s == "archive"@ {
            "🗄"@
        } else if s == "junk"@ {
            "⚠"@
        } else if s == "all"@ {
            "🗂"@
        } else {
            "📁"@
        },
        None => "📁"@,
    }
}

/// The icon of a folder with the given role.
pub fn icon_for(su: Option<&str>) -> (r: &'static str)
    ensures
        r@ == icon_spec(match su {
            Some(s) => Some(s@),
            None => None,
        }),
{
    match su {
        Some(s) => if str_eq(s, "inbox") {
            "📥"
        } else if str_eq(s, "sent") {
            "📤"
        } else if str_eq(s, "drafts") {
            "📝"
        } else if str_eq(s, "trash") {
            "🗑"
        } else if str_eq(s, "archive") {
            "🗄"
        } else if str_eq(s, "junk") {
            "⚠"
        } else if str_eq(s, "all") {
            "🗂"
        } else {
            "📁"
        },
        None => "📁",
    }
}

pub open spec fn badge_spec(su: Option<Seq<char>>) -> Option<Seq<char>> {
    match su {
        Some(s) => if s == "inbox"@ {
            Some("Inbox"@)
        } else if s == "sent"@ {
            Some("Sent"@)
        } else if s == "drafts"@ {
            Some("Drafts"@)
        } else if s == "trash"@ {
            Some("Trash"@)
        } else if s == "archive"@ {
            Some("Archive"@)
        } else if s == "junk"@ {
            Some("Junk"@)
        } else if s == "all"@ {
            Some("All"@)
        } else {
            None
        },
        None => None,
    }
}

/// The badge of a folder with the given role, if it has one.
pub fn badge_for(su: Option<&str>) -> (r: Option<&'static str>)
    ensures
        match r {
            Some(b) => badge_spec(match su {
                Some(s) => Some(s@),
                None => None,
            }) == Some(b@),
            None => badge_spec(match su {
                Some(s) => Some(s@),
                None => None,
            }) is None,
        },
{
    match su {
        Some(s) => if str_eq(s, "inbox") {
            Some("Inbox")
        } else if str_eq(s, "sent") {
            Some("Sent")
        } else if str_eq(s, "drafts") {
            Some("Drafts")
        } else if str_eq(s, "trash") {
            Some("Trash")
        } else if str_eq(s, "archive") {
            Some("Archive")
        } else if str_eq(s, "junk") {
            Some("Junk")
        } else if str_eq(s, "all") {
            Some("All")
        } else {
            None
        },
        None => None,
    }
}

/// Left padding of a folder row, in pixels: 12 plus 20 per level.
pub fn folder_padding(depth: usize) -> (r: usize)
    requires
        depth <= (usize::MAX - 12) / 20,
    ensures
        r == 12 + depth * 20,
{
    12 + depth * 20
}

/// The script line that sets checkbox `idx`'s mixed state.
pub open spec fn indeterminate_line(idx: nat, on: bool) -> Seq<char> {
    "{var el=document.getElementById('folder-cb-"@ + decimal(idx) + "'); if(el){el.indeterminate="@ + (if on {
        "true"@
    } else {
        "false"@
    }) + ";}}"@
}

/// The script for the first `n` checkboxes.
pub open spec fn indeterminate_script_spec(t: FolderTree, n: nat) -> Seq<char>
    decreases n,
{
    if n == 0 {
        Seq::empty()
    } else {
        indeterminate_script_spec(t, (n - 1) as nat) + indeterminate_line(
            (n - 1) as nat,
            crate::folder_tree::indeterminate_spec(t.nodes@, (n - 1) as int),
        )
    }
}

/// The script that shows each folder checkbox as mixed exactly when some
/// but not all of its subtree is selected.
pub fn indeterminate_script(t: &FolderTree) -> (r: String)
    requires
        t.wf(),
    ensures
        r@ == indeterminate_script_spec(*t, t.nodes@.len()),
{
    let mut r = String::new();
    let mut idx: usize = 0;
    while idx < t.nodes.len()
        invariant
            t.wf(),
            idx <= t.nodes.len(),
            r@ == indeterminate_script_spec(*t, idx as nat),
        decreases t.nodes.len() - idx,
    {
        let on = t.is_indeterminate(idx);
        push_str(&mut r, "{var el=document.getElementById('folder-cb-");
        push_decimal(&mut r, idx as u64);
        push_str(&mut r, "'); if(el){el.indeterminate=");
        push_str(&mut r, if on { "true" } else { "false" });
        push_str(&mut r, ";}}");
        proof {
            assert(r@ =~= indeterminate_script_spec(*t, idx as nat) + indeterminate_line(idx as nat, on));
        }
        idx = idx + 1;
    }
    r
}

} // verus!

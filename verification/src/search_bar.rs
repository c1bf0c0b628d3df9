//! The search box: what each keystroke, focus change and timer tick does to
//! the query, the ghost-text completion and the submitted search.

use vstd::prelude::*;

use crate::search::{
    apply_completion, completion_spec, compute_completion, next_cycle_input, next_cycle_spec,
};
use crate::text::{last_word, last_word_str, trim, trim_str};

verus! {

/// Number of rotating placeholder tips.
pub const TIP_COUNT: usize = 6;

pub open spec fn tip_spec(i: int) -> Seq<char> {
    if i == 0 {
        "Try: from:amazon"@
    } else if i == 1 {
        "Try: subject:\"order confirmation\""@
    } else if i == 2 {
        "Try: folder:orders !filters"@
    } else if i == 3 {
        "Try: after:2025-01-01"@
    } else if i == 4 {
        "Try: has:attachment"@
    } else {
        "Try: account:Fastmail coffee"@
    }
}

/// The placeholder tip at `i` of the rotation.
pub fn placeholder_tip(i: usize) -> (r: &'static str)
    requires
        i < TIP_COUNT,
    ensures
        r@ == tip_spec(i as int),
{
    if i == 0 {
        "Try: from:amazon"
    } else if i == 1 {
        "Try: subject:\"order confirmation\""
    } else if i == 2 {
        "Try: folder:orders !filters"
    } else if i == 3 {
        "Try: after:2025-01-01"
    } else if i == 4 {
        "Try: has:attachment"
    } else {
        "Try: account:Fastmail coffee"
    }
}

/// Everything the search box remembers.
#[derive(Clone, Debug, PartialEq)]
pub struct SearchBarState {
    /// The text in the box.
    pub query: String,
    /// The submitted query that the results panel shows, if any.
    pub active_search: Option<String>,
    /// The ghost-text suffix shown after the query.
    pub completion: String,
    /// The token being cycled through with Tab.
    pub cycle_prefix: String,
    pub cycle_idx: usize,
    pub focused: bool,
    pub help_open: bool,
    /// The syntax hint was shown once already (remembered by the browser).
    pub hint_seen: bool,
    pub tip_index: usize,
}

/// The search box's state as plain values.
pub struct SearchBarView {
    pub query: Seq<char>,
    pub active_search: Option<Seq<char>>,
    pub completion: Seq<char>,
    pub cycle_prefix: Seq<char>,
    pub cycle_idx: nat,
    pub focused: bool,
    pub help_open: bool,
    pub hint_seen: bool,
    pub tip_index: nat,
}

impl View for SearchBarState {
    type V = SearchBarView;

    open spec fn view(&self) -> SearchBarView {
        SearchBarView {
            query: self.query@,
            active_search: match self.active_search {
                Some(s) => Some(s@),
                None => None,
            },
            completion: self.completion@,
            cycle_prefix: self.cycle_prefix@,
            cycle_idx: self.cycle_idx as nat,
            focused: self.focused,
            help_open: self.help_open,
            hint_seen: self.hint_seen,
            tip_index: self.tip_index as nat,
        }
    }
}

/// Something that happens to the search box.
#[derive(Clone, Debug, PartialEq)]
pub enum SearchEvent {
    Focus,
    Blur,
    /// The text in the box changed to this.
    Input(String),
    EnterKey,
    TabKey,
    EscapeKey,
    OtherKey,
    /// The clear button was clicked.
    Clear,
    /// The help button was clicked.
    ToggleHelp,
    /// The placeholder rotation timer fired.
    TipTimer,
    /// The browser reported that the hint was seen before.
    HintSeenStored,
}

pub enum SearchEventView {
    Focus,
    Blur,
    Input(Seq<char>),
    EnterKey,
    TabKey,
    EscapeKey,
    OtherKey,
    Clear,
    ToggleHelp,
    TipTimer,
    HintSeenStored,
}

impl View for SearchEvent {
    type V = SearchEventView;

    open spec fn view(&self) -> SearchEventView {
        match self {
            SearchEvent::Focus => SearchEventView::Focus,
            SearchEvent::Blur => SearchEventView::Blur,
            SearchEvent::Input(s) => SearchEventView::Input(s@),
            SearchEvent::EnterKey => SearchEventView::EnterKey,
            SearchEvent::TabKey => SearchEventView::TabKey,
            SearchEvent::EscapeKey => SearchEventView::EscapeKey,
            SearchEvent::OtherKey => SearchEventView::OtherKey,
            SearchEvent::Clear => SearchEventView::Clear,
            SearchEvent::ToggleHelp => SearchEventView::ToggleHelp,
            SearchEvent::TipTimer => SearchEventView::TipTimer,
            SearchEvent::HintSeenStored => SearchEventView::HintSeenStored,
        }
    }
}

/// What the page must do besides taking the new state.
#[derive(Clone, Copy, Debug, PartialEq, Eq)]
pub struct SearchEffects {
    /// Remember in the browser that the hint was seen.
    pub persist_hint_seen: bool,
    /// Close the message viewer.
    pub close_message: bool,
    /// Keep the key from its default action (Tab moving the focus).
    pub prevent_default: bool,
}

pub open spec fn no_effects() -> SearchEffects {
    SearchEffects { persist_hint_seen: false, close_message: false, prevent_default: false }
}

/// The search box state before anything happened.
pub open spec fn initial_view() -> SearchBarView {
    SearchBarView {
        query: Seq::empty(),
        active_search: None,
        completion: Seq::empty(),
        cycle_prefix: Seq::empty(),
        cycle_idx: 0,
        focused: false,
        help_open: false,
        hint_seen: false,
        tip_index: 0,
    }
}

/// The completion and the Tab cycle forgotten.
pub open spec fn reset_cycle(s: SearchBarView) -> SearchBarView {
    SearchBarView { completion: Seq::empty(), cycle_prefix: Seq::empty(), cycle_idx: 0, ..s }
}

/// The hint marked seen, and whether that is new.
pub open spec fn see_hint(s: SearchBarView) -> (SearchBarView, bool) {
    (SearchBarView { hint_seen: true, ..s }, !s.hint_seen)
}

/// What Tab does.
pub open spec fn tab_spec(s: SearchBarView) -> (SearchBarView, SearchEffects) {
    let prevent = SearchEffects { prevent_default: true, ..no_effects() };
    if s.cycle_prefix.len() > 0 && s.completion.len() > 0 {
        (
            SearchBarView {
                query: s.query + s.completion,
                cycle_idx: s.cycle_idx + 1,
                completion: Seq::empty(),
                ..s
            },
            prevent,
        )
    } else if s.completion.len() > 0 {
        (
            SearchBarView {
                query: s.query + s.completion,
                cycle_prefix: last_word(s.query),
                cycle_idx: s.cycle_idx + 1,
                completion: Seq::empty(),
                ..s
            },
            prevent,
        )
    } else if s.cycle_prefix.len() > 0 {
        match next_cycle_spec(s.query, s.cycle_prefix, s.cycle_idx) {
            Some(q) => (
                SearchBarView { query: q, completion: Seq::empty(), cycle_idx: s.cycle_idx + 1, ..s },
                prevent,
            ),
            None => (SearchBarView { cycle_idx: s.cycle_idx + 1, ..s }, prevent),
        }
    } else {
        (s, no_effects())
    }
}

/// The search box after an event, and what the page must do.
pub open spec fn step_spec(s: SearchBarView, e: SearchEventView) -> (SearchBarView, SearchEffects) {
    match e {
        SearchEventView::Focus => (SearchBarView { focused: true, ..s }, no_effects()),
        SearchEventView::Blur => {
            let (t, fresh) = see_hint(SearchBarView { focused: false, help_open: false, ..s });
            (t, SearchEffects { persist_hint_seen: fresh, ..no_effects() })
        },
        SearchEventView::Input(v) => {
            let (t, fresh) = see_hint(s);
            (
                SearchBarView {
                    query: v,
                    help_open: false,
                    completion: completion_spec(v, 0),
                    cycle_prefix: Seq::empty(),
                    cycle_idx: 0,
                    ..t
                },
                SearchEffects { persist_hint_seen: fresh, ..no_effects() },
            )
        },
        SearchEventView::EnterKey => {
            let q = trim(s.query);
            (
                SearchBarView {
                    active_search: if q.len() == 0 { None } else { Some(q) },
                    ..reset_cycle(s)
                },
                SearchEffects { close_message: true, ..no_effects() },
            )
        },
        SearchEventView::TabKey => tab_spec(s),
        SearchEventView::EscapeKey => {
            if s.completion.len() > 0 || s.cycle_prefix.len() > 0 {
                (reset_cycle(s), no_effects())
            } else {
                (SearchBarView { query: Seq::empty(), active_search: None, ..s }, no_effects())
            }
        },
        SearchEventView::OtherKey => {
            if s.completion.len() > 0 || s.cycle_prefix.len() > 0 {
                (reset_cycle(s), no_effects())
            } else {
                (s, no_effects())
            }
        },
        SearchEventView::Clear => (
            SearchBarView { query: Seq::empty(), active_search: None, ..s },
            no_effects(),
        ),
        SearchEventView::ToggleHelp => (SearchBarView { help_open: !s.help_open, ..s }, no_effects()),
        SearchEventView::TipTimer => {
            if s.focused && s.query.len() == 0 {
                (SearchBarView { tip_index: (s.tip_index + 1) % (TIP_COUNT as nat), ..s }, no_effects())
            } else {
                (s, no_effects())
            }
        },
        SearchEventView::HintSeenStored => (SearchBarView { hint_seen: true, ..s }, no_effects()),
    }
}

/// The syntax hint strip is shown: on the first focus of an empty box, or
/// when help was asked for while the box is empty.
pub open spec fn show_hint_spec(s: SearchBarView) -> bool {
    (s.focused && s.query.len() == 0 && !s.hint_seen) || (s.help_open && s.query.len() == 0)
}

impl SearchBarState {
    /// The search box before anything happened.
    pub fn new() -> (r: SearchBarState)
        ensures
            r@ == initial_view(),
    {
        SearchBarState {
            query: String::new(),
            active_search: None,
            completion: String::new(),
            cycle_prefix: String::new(),
            cycle_idx: 0,
            focused: false,
            help_open: false,
            hint_seen: false,
            tip_index: 0,
        }
    }

    /// The tip index stays within the rotation, and Tab cycling can still
    /// count.
    pub open spec fn wf(&self) -> bool {
        self.tip_index < TIP_COUNT && self.cycle_idx < usize::MAX
    }

    fn reset_cycle(&mut self)
        ensures
            final(self)@ == reset_cycle(old(self)@),
    {
        self.completion = String::new();
        self.cycle_prefix = String::new();
        self.cycle_idx = 0;
    }

    fn see_hint(&mut self) -> (fresh: bool)
        ensures
            (final(self)@, fresh) == see_hint(old(self)@),
    {
        let fresh = !self.hint_seen;
        self.hint_seen = true;
        fresh
    }

    fn tab(&mut self) -> (fx: SearchEffects)
        requires
            old(self).cycle_idx < usize::MAX,
        ensures
            (final(self)@, fx) == tab_spec(old(self)@),
    {
        let prevent = SearchEffects { persist_hint_seen: false, close_message: false, prevent_default: true };
        let has_prefix = self.cycle_prefix.as_str().unicode_len() > 0;
        let has_completion = self.completion.as_str().unicode_len() > 0;
        if has_prefix && has_completion {
            self.query = apply_completion(self.query.as_str(), self.completion.as_str());
            self.cycle_idx = self.cycle_idx + 1;
            self.completion = String::new();
            prevent
        } else if has_completion {
            let prefix = last_word_str(self.query.as_str());
            self.query = apply_completion(self.query.as_str(), self.completion.as_str());
            self.cycle_prefix = prefix;
            self.cycle_idx = self.cycle_idx + 1;
            self.completion = String::new();
            prevent
        } else if has_prefix {
            let idx = self.cycle_idx;
            self.cycle_idx = idx + 1;
            if let Some(q) = next_cycle_input(self.query.as_str(), self.cycle_prefix.as_str(), idx) {
                self.query = q;
                self.completion = String::new();
            }
            prevent
        } else {
            SearchEffects { persist_hint_seen: false, close_message: false, prevent_default: false }
        }
    }

    /// Applies an event; gives what the page must do besides.
    pub fn step(&mut self, event: SearchEvent) -> (fx: SearchEffects)
        requires
            old(self).wf(),
        ensures
            (final(self)@, fx) == step_spec(old(self)@, event@),
    {
        let none = SearchEffects { persist_hint_seen: false, close_message: false, prevent_default: false };
        match event {
            SearchEvent::Focus => {
                self.focused = true;
                none
            },
            SearchEvent::Blur => {
                self.focused = false;
                self.help_open = false;
                let fresh = self.see_hint();
                SearchEffects { persist_hint_seen: fresh, ..none }
            },
            SearchEvent::Input(v) => {
                let fresh = self.see_hint();
                let completion = compute_completion(v.as_str(), 0);
                self.query = v;
                self.help_open = false;
                self.completion = completion;
                self.cycle_prefix = String::new();
                self.cycle_idx = 0;
                SearchEffects { persist_hint_seen: fresh, ..none }
            },
            SearchEvent::EnterKey => {
                let q = trim_str(self.query.as_str());
                self.active_search = if q.as_str().unicode_len() == 0 { None } else { Some(q) };
                self.reset_cycle();
                SearchEffects { close_message: true, ..none }
            },
            SearchEvent::TabKey => self.tab(),
            SearchEvent::EscapeKey => {
                if self.completion.as_str().unicode_len() > 0 || self.cycle_prefix.as_str().unicode_len() > 0 {
                    self.reset_cycle();
                } else {
                    self.query = String::new();
                    self.active_search = None;
                }
                none
            },
            SearchEvent::OtherKey => {
                if self.completion.as_str().unicode_len() > 0 || self.cycle_prefix.as_str().unicode_len() > 0 {
                    self.reset_cycle();
                }
                none
            },
            SearchEvent::Clear => {
                self.query = String::new();
                self.active_search = None;
                none
            },
            SearchEvent::ToggleHelp => {
                self.help_open = !self.help_open;
                none
            },
            SearchEvent::TipTimer => {
                if self.focused && self.query.as_str().unicode_len() == 0 {
                    self.tip_index = (self.tip_index + 1) % TIP_COUNT;
                }
                none
            },
            SearchEvent::HintSeenStored => {
                self.hint_seen = true;
                none
            },
        }
    }

    /// The Home button forgets the query and the submitted search.
    pub fn go_home(&mut self)
        ensures
            final(self)@ == (SearchBarView { query: Seq::empty(), active_search: None, ..old(self)@ }),
    {
        self.query = String::new();
        self.active_search = None;
    }

    /// Whether the syntax hint strip is shown.
    pub fn show_hint(&self) -> (r: bool)
        ensures
            r == show_hint_spec(self@),
    {
        let empty = self.query.as_str().unicode_len() == 0;
        (self.focused && empty && !self.hint_seen) || (self.help_open && empty)
    }

    /// The placeholder: a rotating tip while the empty box has the focus.
    pub fn placeholder(&self) -> (r: &'static str)
        ensures
            r@ == (if self.focused && self.query@.len() == 0 {
                tip_spec((self.tip_index % TIP_COUNT) as int)
            } else {
                "Search mail…"@
            }),
    {
        if self.focused && self.query.as_str().unicode_len() == 0 {
            placeholder_tip(self.tip_index % TIP_COUNT)
        } else {
            "Search mail…"
        }
    }
}

/// Escape pressed twice empties the box and withdraws the submitted search,
/// whatever state the box was in.
pub proof fn lemma_escape_twice_clears(s: SearchBarView)
    ensures
        ({
            let t = step_spec(step_spec(s, SearchEventView::EscapeKey).0, SearchEventView::EscapeKey).0;
            t.query.len() == 0 && t.active_search is None
        }),
{
}

/// Tab on a shown completion accepts it: the ghost text becomes part of the
/// query and the key does not move the focus.
pub proof fn lemma_tab_accepts_completion(s: SearchBarView)
    requires
        s.completion.len() > 0,
    ensures
        step_spec(s, SearchEventView::TabKey).0.query == s.query + s.completion,
        step_spec(s, SearchEventView::TabKey).0.completion.len() == 0,
        step_spec(s, SearchEventView::TabKey).1.prevent_default,
{
}

/// Enter submits the trimmed query; a blank query withdraws the search.
pub proof fn lemma_enter_submits_trimmed(s: SearchBarView)
    ensures
        trim(s.query).len() == 0 ==> step_spec(s, SearchEventView::EnterKey).0.active_search is None,
        trim(s.query).len() > 0 ==> step_spec(s, SearchEventView::EnterKey).0.active_search == Some(
            trim(s.query),
        ),
        step_spec(s, SearchEventView::EnterKey).0.query == s.query,
{
}

/// Typing forgets any Tab cycle and shows the first completion of the new
/// text.
pub proof fn lemma_input_restarts_completion(s: SearchBarView, v: Seq<char>)
    ensures
        step_spec(s, SearchEventView::Input(v)).0.query == v,
        step_spec(s, SearchEventView::Input(v)).0.completion == completion_spec(v, 0),
        step_spec(s, SearchEventView::Input(v)).0.cycle_prefix.len() == 0,
        step_spec(s, SearchEventView::Input(v)).0.cycle_idx == 0,
{
}

/// Every event keeps the tip index within the rotation.
pub proof fn lemma_tip_index_in_range(s: SearchBarView, e: SearchEventView)
    requires
        s.tip_index < TIP_COUNT,
    ensures
        step_spec(s, e).0.tip_index < TIP_COUNT,
{
}

} // verus!

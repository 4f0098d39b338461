//! The search popup: a line of query text with a cursor, the parse error
//! shown once typing pauses, and the list of completions.

use vstd::prelude::*;
use std::time::Instant;
use crate::search::autocomplete::{
    AutocompleteContext, AutocompleteData, ContextModel, detect_context, context_at, cursor_ok,
    get_suggestions, suggestions_spec,
};
use crate::search::types::SearchQuery;
use crate::search::validation::{is_default_query, is_default_spec};
use crate::search::parser::{format_query, format_query_spec};
use crate::search::types::ParseError;
use crate::search::parser::{parse_query, parse_query_spec, parse_query_in_range};
use crate::text::{
    chars_of, char_index_of_byte, utf8_len, utf8_len_of, chars_before_byte, is_char_boundary_at,
    lemma_chars_before_byte_unique, lemma_utf8_len_concat,
    lemma_utf8_len_prefix_le, string_of_range, string_append_str,
    string_push, range_contains, string_from_str, push_decimal, decimal_string, text_list,
};
use crate::clock::{instant_now, elapsed_since, duration_millis};
use crate::tui::highlight::{HighlightSpan, spans_view, highlight_spec, highlight_query};

verus! {

/// How long typing must pause, in milliseconds, before a parse error is shown.
pub const ERROR_DEBOUNCE_MILLIS: u128 = 300;

/// How many completions the popup shows at once.
pub const VISIBLE_COMPLETIONS: usize = 10;

/// The popup in which a query is typed.
pub struct SearchPopup {
    pub input: String,
    /// Byte offset of the cursor in `input`.
    pub cursor_position: usize,
    pub parse_error: Option<ParseError>,
    /// When the text last changed.
    pub error_debounce_timer: Option<Instant>,
    pub autocomplete_shown: bool,
    pub autocomplete_items: Vec<String>,
    pub autocomplete_selected: usize,
    pub autocomplete_scroll_offset: usize,
    pub autocomplete_context: AutocompleteContext,
}

/// `s` with `c` put before its `k`-th character.
pub open spec fn inserted_at(s: Seq<char>, k: int, c: char) -> Seq<char> {
    s.take(k) + seq![c] + s.skip(k)
}

/// `s` without its `k`-th character.
pub open spec fn removed_at(s: Seq<char>, k: int) -> Seq<char> {
    s.take(k) + s.skip(k + 1)
}

/// The characters that end a token for completion: space, `=` and comma.
pub open spec fn is_token_separator(c: char) -> bool {
    c == ' ' || c == '=' || c == ','
}

/// Position of the last separator in `s`, or -1 when there is none.
pub open spec fn last_separator(s: Seq<char>) -> int
    decreases s.len(),
{
    if s.len() == 0 {
        -1
    } else if is_token_separator(s.last()) {
        s.len() - 1
    } else {
        last_separator(s.drop_last())
    }
}

/// The text a completion inserts: the suggestion, in double quotes when it
/// holds a space, followed by `=` when a field name is being completed.
pub open spec fn completion_text(suggestion: Seq<char>, field_name: bool) -> Seq<char> {
    let quoted = if suggestion.contains(' ') { seq!['"'] + suggestion + seq!['"'] } else { suggestion };
    if field_name { quoted.push('=') } else { quoted }
}

/// Where the token being completed starts: just after the last separator
/// before the cursor (a character count).
pub open spec fn completion_start(input: Seq<char>, cursor: int) -> int {
    last_separator(input.take(chars_before_byte(input, cursor))) + 1
}

/// The text after `suggestion` replaces the token before byte offset `cursor`.
pub open spec fn completed_input(input: Seq<char>, cursor: int, suggestion: Seq<char>) -> Seq<char> {
    input.take(completion_start(input, cursor))
        + completion_text(suggestion, context_at(input, cursor) == ContextModel::FieldName)
        + input.skip(chars_before_byte(input, cursor))
}

/// The byte offset of the cursor after the completion: right after the inserted text.
pub open spec fn completed_cursor(input: Seq<char>, cursor: int, suggestion: Seq<char>) -> int {
    (utf8_len(input.take(completion_start(input, cursor)))
        + utf8_len(completion_text(suggestion, context_at(input, cursor) == ContextModel::FieldName))) as int
}

/// The first shown completion after `selected` was highlighted with `offset`
/// first: moved just enough to keep the highlight among the visible ten.
pub open spec fn scroll_for(selected: nat, offset: nat) -> nat {
    if selected < offset {
        selected
    } else if selected >= offset + VISIBLE_COMPLETIONS {
        (selected - VISIBLE_COMPLETIONS + 1) as nat
    } else {
        offset
    }
}

impl SearchPopup {
    /// The completion list and its state are as in `other`.
    pub open spec fn same_completions(&self, other: &SearchPopup) -> bool {
        &&& self.autocomplete_shown == other.autocomplete_shown
        &&& self.autocomplete_items@ == other.autocomplete_items@
        &&& self.autocomplete_selected == other.autocomplete_selected
        &&& self.autocomplete_scroll_offset == other.autocomplete_scroll_offset
        &&& self.autocomplete_context == other.autocomplete_context
    }

    /// The text, the cursor, the error and its timer are as in `other`.
    pub open spec fn same_text(&self, other: &SearchPopup) -> bool {
        &&& self.input@ == other.input@
        &&& self.cursor_position == other.cursor_position
        &&& self.parse_error == other.parse_error
        &&& self.error_debounce_timer == other.error_debounce_timer
    }

    /// A popup holding `initial_input` with the cursor at its end, no error and
    /// no completions.
    pub fn new(initial_input: String) -> (p: SearchPopup)
        requires
            utf8_len(initial_input@) <= usize::MAX,
        ensures
            p.input@ == initial_input@,
            p.cursor_position == utf8_len(initial_input@),
            p.parse_error is None,
            p.error_debounce_timer is None,
            !p.autocomplete_shown,
            p.autocomplete_items@.len() == 0,
            p.autocomplete_selected == 0,
            p.autocomplete_scroll_offset == 0,
            p.autocomplete_context == AutocompleteContext::FieldName,
    {
        let v = chars_of(initial_input.as_str());
        let cursor_position = utf8_len_of(&v);
        SearchPopup {
            input: initial_input,
            cursor_position,
            parse_error: None,
            error_debounce_timer: None,
            autocomplete_shown: false,
            autocomplete_items: Vec::new(),
            autocomplete_selected: 0,
            autocomplete_scroll_offset: 0,
            autocomplete_context: AutocompleteContext::FieldName,
        }
    }

    /// The query text.
    pub fn get_query(&self) -> (s: &str)
        ensures
            s@ == self.input@,
    {
        self.input.as_str()
    }

    /// Marks the text as just changed: the error is cleared and shown again
    /// only after a pause.
    fn reset_error_timer(&mut self)
        ensures
            final(self).error_debounce_timer is Some,
            final(self).parse_error is None,
            final(self).input@ == old(self).input@,
            final(self).cursor_position == old(self).cursor_position,
            final(self).same_completions(old(self)),
    {
        self.error_debounce_timer = Some(instant_now());
        self.parse_error = None;
    }

    /// Types `c` at the cursor, which must lie between two characters, and
    /// moves the cursor one byte on.
    pub fn insert_char(&mut self, c: char)
        requires
            is_char_boundary_at(old(self).input@, old(self).cursor_position as int),
            old(self).cursor_position < usize::MAX,
        ensures
            final(self).input@ == inserted_at(old(self).input@,
                chars_before_byte(old(self).input@, old(self).cursor_position as int), c),
            final(self).cursor_position == old(self).cursor_position + 1,
            final(self).parse_error is None,
            final(self).error_debounce_timer is Some,
            final(self).same_completions(old(self)),
    {
        let v = chars_of(self.input.as_str());
        let k = match char_index_of_byte(&v, self.cursor_position) {
            Some(k) => k,
            None => {
                return;
            },
        };
        proof {
            lemma_chars_before_byte_unique(v@, k as int, self.cursor_position as int);
        }
        let mut s = string_of_range(&v, 0, k);
        string_push(&mut s, c);
        let rest = string_of_range(&v, k, v.len());
        string_append_str(&mut s, rest.as_str());
        proof {
            assert(s@ =~= inserted_at(v@, k as int, c));
        }
        self.input = s;
        self.cursor_position = self.cursor_position + 1;
        self.reset_error_timer();
    }

    /// Deletes the character just before the cursor, whose first byte must be
    /// the one before the cursor, and moves the cursor one byte back; at the
    /// start of the text nothing happens.
    pub fn delete_char(&mut self)
        requires
            old(self).cursor_position > 0 ==> {
                &&& is_char_boundary_at(old(self).input@, old(self).cursor_position - 1)
                &&& old(self).cursor_position - 1 < utf8_len(old(self).input@)
            },
        ensures
            old(self).cursor_position == 0 ==> *final(self) == *old(self),
            old(self).cursor_position > 0 ==> {
                &&& final(self).input@ == removed_at(old(self).input@,
                    chars_before_byte(old(self).input@, old(self).cursor_position - 1))
                &&& final(self).cursor_position == old(self).cursor_position - 1
                &&& final(self).parse_error is None
                &&& final(self).error_debounce_timer is Some
                &&& final(self).same_completions(old(self))
            },
    {
        if self.cursor_position > 0 {
            let v = chars_of(self.input.as_str());
            let k = match char_index_of_byte(&v, self.cursor_position - 1) {
                Some(k) => k,
                None => {
                    return;
                },
            };
            proof {
                lemma_chars_before_byte_unique(v@, k as int, self.cursor_position - 1);
                if k as int == v@.len() {
                    assert(v@.take(k as int) =~= v@);
                }
            }
            let mut s = string_of_range(&v, 0, k);
            let rest = string_of_range(&v, k + 1, v.len());
            string_append_str(&mut s, rest.as_str());
            proof {
                assert(s@ =~= removed_at(v@, k as int));
            }
            self.input = s;
            self.cursor_position = self.cursor_position - 1;
            self.reset_error_timer();
        }
    }

    /// Moves the cursor one byte back, stopping at the start.
    pub fn move_cursor_left(&mut self)
        ensures
            final(self).cursor_position == (if old(self).cursor_position > 0 {
                old(self).cursor_position - 1
            } else {
                0
            }),
            final(self).input@ == old(self).input@,
            final(self).parse_error == old(self).parse_error,
            final(self).error_debounce_timer == old(self).error_debounce_timer,
            final(self).same_completions(old(self)),
    {
        if self.cursor_position > 0 {
            self.cursor_position = self.cursor_position - 1;
        }
    }

    /// Moves the cursor one byte on, stopping at the end of the text.
    pub fn move_cursor_right(&mut self)
        requires
            utf8_len(old(self).input@) <= usize::MAX,
        ensures
            final(self).cursor_position == (if old(self).cursor_position < utf8_len(old(self).input@) {
                old(self).cursor_position + 1
            } else {
                old(self).cursor_position as int
            }),
            final(self).input@ == old(self).input@,
            final(self).parse_error == old(self).parse_error,
            final(self).error_debounce_timer == old(self).error_debounce_timer,
            final(self).same_completions(old(self)),
    {
        let v = chars_of(self.input.as_str());
        let len = utf8_len_of(&v);
        if self.cursor_position < len {
            self.cursor_position = self.cursor_position + 1;
        }
    }

    /// Keeps the highlighted completion among the visible ones.
    fn update_scroll_offset(&mut self)
        requires
            old(self).autocomplete_selected >= old(self).autocomplete_scroll_offset
                ==> old(self).autocomplete_scroll_offset + VISIBLE_COMPLETIONS <= usize::MAX,
        ensures
            final(self).autocomplete_scroll_offset == scroll_for(old(self).autocomplete_selected as nat,
                old(self).autocomplete_scroll_offset as nat),
            final(self).same_text(old(self)),
            final(self).autocomplete_shown == old(self).autocomplete_shown,
            final(self).autocomplete_items@ == old(self).autocomplete_items@,
            final(self).autocomplete_selected == old(self).autocomplete_selected,
            final(self).autocomplete_context == old(self).autocomplete_context,
    {
        if self.autocomplete_selected < self.autocomplete_scroll_offset {
            self.autocomplete_scroll_offset = self.autocomplete_selected;
        } else if self.autocomplete_selected >= self.autocomplete_scroll_offset + VISIBLE_COMPLETIONS {
            self.autocomplete_scroll_offset = self.autocomplete_selected - VISIBLE_COMPLETIONS + 1;
        }
    }

    /// Highlights the next completion, from the last back to the first.
    pub fn autocomplete_next(&mut self)
        requires
            old(self).autocomplete_items@.len() > 0 ==> old(self).autocomplete_selected < usize::MAX,
            old(self).autocomplete_items@.len() > 0 && (old(self).autocomplete_selected + 1)
                % (old(self).autocomplete_items@.len() as int) >= old(self).autocomplete_scroll_offset
                ==> old(self).autocomplete_scroll_offset + VISIBLE_COMPLETIONS <= usize::MAX,
        ensures
            old(self).autocomplete_items@.len() == 0 ==> *final(self) == *old(self),
            old(self).autocomplete_items@.len() > 0 ==> {
                &&& final(self).autocomplete_selected == (old(self).autocomplete_selected + 1)
                    % (old(self).autocomplete_items@.len() as int)
                &&& final(self).autocomplete_scroll_offset == scroll_for(final(self).autocomplete_selected as nat,
                    old(self).autocomplete_scroll_offset as nat)
                &&& final(self).same_text(old(self))
                &&& final(self).autocomplete_shown == old(self).autocomplete_shown
                &&& final(self).autocomplete_items@ == old(self).autocomplete_items@
                &&& final(self).autocomplete_context == old(self).autocomplete_context
            },
    {
        if self.autocomplete_items.len() > 0 {
            self.autocomplete_selected = (self.autocomplete_selected + 1) % self.autocomplete_items.len();
            self.update_scroll_offset();
        }
    }

    /// Highlights the previous completion, from the first back to the last.
    pub fn autocomplete_prev(&mut self)
        requires
            old(self).autocomplete_items@.len() > 0 && (if old(self).autocomplete_selected == 0 {
                old(self).autocomplete_items@.len() - 1
            } else {
                old(self).autocomplete_selected - 1
            }) >= old(self).autocomplete_scroll_offset
                ==> old(self).autocomplete_scroll_offset + VISIBLE_COMPLETIONS <= usize::MAX,
        ensures
            old(self).autocomplete_items@.len() == 0 ==> *final(self) == *old(self),
            old(self).autocomplete_items@.len() > 0 ==> {
                &&& final(self).autocomplete_selected == (if old(self).autocomplete_selected == 0 {
                    old(self).autocomplete_items@.len() - 1
                } else {
                    old(self).autocomplete_selected - 1
                })
                &&& final(self).autocomplete_scroll_offset == scroll_for(final(self).autocomplete_selected as nat,
                    old(self).autocomplete_scroll_offset as nat)
                &&& final(self).same_text(old(self))
                &&& final(self).autocomplete_shown == old(self).autocomplete_shown
                &&& final(self).autocomplete_items@ == old(self).autocomplete_items@
                &&& final(self).autocomplete_context == old(self).autocomplete_context
            },
    {
        if self.autocomplete_items.len() > 0 {
            if self.autocomplete_selected == 0 {
                self.autocomplete_selected = self.autocomplete_items.len() - 1;
            } else {
                self.autocomplete_selected = self.autocomplete_selected - 1;
            }
            self.update_scroll_offset();
        }
    }

    /// Replaces the completion list by `suggestions`, highlights the first,
    /// records the context at the cursor, and shows the list when it is not empty.
    pub fn update_autocomplete(&mut self, suggestions: Vec<String>)
        requires
            crate::search::autocomplete::cursor_ok(old(self).input@, old(self).cursor_position as int),
        ensures
            final(self).autocomplete_items@ == suggestions@,
            final(self).autocomplete_selected == 0,
            final(self).autocomplete_scroll_offset == 0,
            final(self).autocomplete_context@ == context_at(old(self).input@, old(self).cursor_position as int),
            final(self).autocomplete_shown == (suggestions@.len() > 0),
            final(self).same_text(old(self)),
    {
        self.autocomplete_items = suggestions;
        self.autocomplete_selected = 0;
        self.autocomplete_scroll_offset = 0;
        self.autocomplete_context = detect_context(self.input.as_str(), self.cursor_position);
        self.autocomplete_shown = self.autocomplete_items.len() > 0;
    }

    /// Shows the parse error of the text, or none when it parses, unless
    /// `elapsed_millis` (the time since the text last changed, when it has
    /// changed) is below the debounce pause; then nothing changes.
    pub fn apply_validation(&mut self, elapsed_millis: Option<u128>)
        requires
            parse_query_in_range(old(self).input@),
        ensures
            final(self).same_completions(old(self)),
            final(self).input@ == old(self).input@,
            final(self).cursor_position == old(self).cursor_position,
            final(self).error_debounce_timer == old(self).error_debounce_timer,
            (elapsed_millis matches Some(ms) && ms < ERROR_DEBOUNCE_MILLIS)
                ==> final(self).parse_error == old(self).parse_error,
            !(elapsed_millis matches Some(ms) && ms < ERROR_DEBOUNCE_MILLIS) ==> match parse_query_spec(old(self).input@) {
                Ok(_) => final(self).parse_error is None,
                Err(e) => final(self).parse_error matches Some(x) && x@ == e,
            },
    {
        if let Some(ms) = elapsed_millis {
            if ms < ERROR_DEBOUNCE_MILLIS {
                return;
            }
        }
        match parse_query(self.input.as_str()) {
            Ok(_) => {
                self.parse_error = None;
            },
            Err(e) => {
                self.parse_error = Some(e);
            },
        }
    }

    /// Updates the shown parse error once typing has paused: when the text
    /// never changed the error is that of the text; otherwise the monotonic
    /// clock decides whether the pause is long enough, so the error is either
    /// unchanged or that of the text.
    pub fn validate(&mut self)
        requires
            parse_query_in_range(old(self).input@),
        ensures
            final(self).same_completions(old(self)),
            final(self).input@ == old(self).input@,
            final(self).cursor_position == old(self).cursor_position,
            final(self).error_debounce_timer == old(self).error_debounce_timer,
            old(self).error_debounce_timer is None ==> match parse_query_spec(old(self).input@) {
                Ok(_) => final(self).parse_error is None,
                Err(e) => final(self).parse_error matches Some(x) && x@ == e,
            },
            final(self).parse_error == old(self).parse_error || match parse_query_spec(old(self).input@) {
                Ok(_) => final(self).parse_error is None,
                Err(e) => final(self).parse_error matches Some(x) && x@ == e,
            },
    {
        let elapsed = match &self.error_debounce_timer {
            Some(timer) => {
                let d = elapsed_since(timer);
                Some(duration_millis(&d))
            },
            None => None,
        };
        self.apply_validation(elapsed);
    }

    /// Position of the last separator among the first `hi` characters of `v`.
    fn last_separator_before(v: &Vec<char>, hi: usize) -> (r: Option<usize>)
        requires
            hi <= v.len(),
        ensures
            match r {
                Some(k) => k < hi && last_separator(v@.take(hi as int)) == k,
                None => last_separator(v@.take(hi as int)) == -1,
            },
    {
        let mut i: usize = hi;
        while i > 0
            invariant
                i <= hi <= v.len(),
                last_separator(v@.take(hi as int)) == last_separator(v@.take(i as int)),
            decreases i,
        {
            proof {
                assert(v@.take(i as int).drop_last() =~= v@.take(i - 1));
            }
            let c = v[i - 1];
            if c == ' ' || c == '=' || c == ',' {
                return Some(i - 1);
            }
            i = i - 1;
        }
        None
    }

    /// Puts the highlighted completion in place of the token before the
    /// cursor (see [`completed_input`]), moves the cursor after it, hides and
    /// empties the list, and returns the completion; with no completion
    /// highlighted nothing changes and nothing is returned.
    pub fn accept_autocomplete(&mut self) -> (r: Option<String>)
        requires
            old(self).autocomplete_selected < old(self).autocomplete_items@.len() ==> {
                &&& is_char_boundary_at(old(self).input@, old(self).cursor_position as int)
                &&& utf8_len(old(self).input@)
                    + utf8_len(old(self).autocomplete_items@[old(self).autocomplete_selected as int]@) + 3 <= usize::MAX
            },
        ensures
            !(old(self).autocomplete_selected < old(self).autocomplete_items@.len()) ==> {
                &&& r is None
                &&& *final(self) == *old(self)
            },
            old(self).autocomplete_selected < old(self).autocomplete_items@.len() ==> {
                let s = old(self).autocomplete_items@[old(self).autocomplete_selected as int]@;
                &&& r matches Some(x) && x@ == s
                &&& final(self).input@ == completed_input(old(self).input@, old(self).cursor_position as int, s)
                &&& final(self).cursor_position == completed_cursor(old(self).input@, old(self).cursor_position as int, s)
                &&& !final(self).autocomplete_shown
                &&& final(self).autocomplete_items@.len() == 0
                &&& final(self).autocomplete_selected == old(self).autocomplete_selected
                &&& final(self).autocomplete_scroll_offset == old(self).autocomplete_scroll_offset
                &&& final(self).autocomplete_context == old(self).autocomplete_context
                &&& final(self).parse_error is None
                &&& final(self).error_debounce_timer is Some
            },
    {
        if self.autocomplete_items.len() == 0 || self.autocomplete_selected >= self.autocomplete_items.len() {
            return None;
        }
        let suggestion = self.autocomplete_items[self.autocomplete_selected].clone();
        let ghost s = suggestion@;
        let ghost input = self.input@;
        let cursor = self.cursor_position;
        let v = chars_of(self.input.as_str());
        let kc = match char_index_of_byte(&v, cursor) {
            Some(k) => k,
            None => {
                return None;
            },
        };
        proof {
            lemma_chars_before_byte_unique(v@, kc as int, cursor as int);
        }
        let start = match Self::last_separator_before(&v, kc) {
            Some(k) => k + 1,
            None => 0,
        };
        let context = detect_context(self.input.as_str(), cursor);
        let is_field_name = match context {
            AutocompleteContext::FieldName => true,
            _ => false,
        };
        let sv = chars_of(suggestion.as_str());
        let mut text = String::new();
        if range_contains(&sv, 0, sv.len(), ' ') {
            string_push(&mut text, '"');
            string_append_str(&mut text, suggestion.as_str());
            string_push(&mut text, '"');
        } else {
            string_append_str(&mut text, suggestion.as_str());
        }
        if is_field_name {
            string_push(&mut text, '=');
        }
        proof {
            assert(sv@.subrange(0, sv@.len() as int) =~= sv@);
            assert(context@ == context_at(input, cursor as int));
            assert(is_field_name == (context_at(input, cursor as int) == ContextModel::FieldName));
            assert(text@ =~= completion_text(s, is_field_name));
        }
        let mut new_input = string_of_range(&v, 0, start);
        let ghost head = new_input@;
        string_append_str(&mut new_input, text.as_str());
        let tail = string_of_range(&v, kc, v.len());
        string_append_str(&mut new_input, tail.as_str());
        proof {
            assert(head =~= input.take(start as int));
            assert(tail@ =~= input.skip(kc as int));
            assert(new_input@ =~= completed_input(input, cursor as int, s));
            lemma_utf8_len_prefix_le(v@, start as int);
            lemma_utf8_len_prefix_le(v@, kc as int);
            assert(utf8_len(text@) <= utf8_len(s) + 3) by {
                let quoted = if s.contains(' ') { seq!['"'] + s + seq!['"'] } else { s };
                lemma_utf8_len_concat(seq!['"'], s);
                lemma_utf8_len_concat(seq!['"'] + s, seq!['"']);
                lemma_utf8_len_concat(quoted, seq!['=']);
                assert(utf8_len(seq!['"']) == 1) by {
                    assert(('"' as u32) == 34);
                    assert(seq!['"'].drop_first() =~= Seq::<char>::empty());
                    assert(utf8_len(Seq::<char>::empty()) == 0);
                }
                assert(utf8_len(seq!['=']) == 1) by {
                    assert(('=' as u32) == 61);
                    assert(seq!['='].drop_first() =~= Seq::<char>::empty());
                    assert(utf8_len(Seq::<char>::empty()) == 0);
                }
                if is_field_name {
                    assert(quoted.push('=') =~= quoted + seq!['=']);
                }
            }
        }
        let head_chars = chars_of(head_str(&v, start).as_str());
        let head_len = utf8_len_of(&head_chars);
        let text_chars = chars_of(text.as_str());
        let text_len = utf8_len_of(&text_chars);
        self.input = new_input;
        self.cursor_position = head_len + text_len;
        self.autocomplete_shown = false;
        self.autocomplete_items = Vec::new();
        self.reset_error_timer();
        Some(suggestion)
    }
}

/// The icon shown before a field name in the completion list.
pub open spec fn field_icon(field: Seq<char>) -> Seq<char> {
    if field == "name"@ {
        "\u{1f4fb} "@
    } else if field == "country"@ {
        "\u{1f30d} "@
    } else if field == "countrycode"@ {
        "\u{1f3f4} "@
    } else if field == "state"@ {
        "\u{1f4cd} "@
    } else if field == "language"@ {
        "\u{1f5e3}\u{fe0f} "@
    } else if field == "tag"@ {
        "\u{1f3f7}\u{fe0f} "@
    } else if field == "codec"@ {
        "\u{1f3b5} "@
    } else if field == "bitrate_min"@ || field == "bitrate_max"@ {
        "\u{1f50a} "@
    } else if field == "order"@ {
        "\u{1f4ca} "@
    } else if field == "reverse"@ {
        "\u{1f504} "@
    } else if field == "hidebroken"@ {
        "\u{1f527} "@
    } else if field == "is_https"@ {
        "\u{1f512} "@
    } else if field == "page"@ {
        "\u{1f4c4} "@
    } else {
        "\u{1f50d} "@
    }
}

impl SearchPopup {
    /// The icon shown before a field name in the completion list.
    pub fn get_icon_for_field(&self, field_name: &str) -> (r: &'static str)
        ensures
            r@ == field_icon(field_name@),
    {
        let f = chars_of(field_name);
        if crate::text::chars_eq_str(&f, "name") {
            "\u{1f4fb} "
        } else if crate::text::chars_eq_str(&f, "country") {
            "\u{1f30d} "
        } else if crate::text::chars_eq_str(&f, "countrycode") {
            "\u{1f3f4} "
        } else if crate::text::chars_eq_str(&f, "state") {
            "\u{1f4cd} "
        } else if crate::text::chars_eq_str(&f, "language") {
            "\u{1f5e3}\u{fe0f} "
        } else if crate::text::chars_eq_str(&f, "tag") {
            "\u{1f3f7}\u{fe0f} "
        } else if crate::text::chars_eq_str(&f, "codec") {
            "\u{1f3b5} "
        } else if crate::text::chars_eq_str(&f, "bitrate_min") || crate::text::chars_eq_str(&f, "bitrate_max") {
            "\u{1f50a} "
        } else if crate::text::chars_eq_str(&f, "order") {
            "\u{1f4ca} "
        } else if crate::text::chars_eq_str(&f, "reverse") {
            "\u{1f504} "
        } else if crate::text::chars_eq_str(&f, "hidebroken") {
            "\u{1f527} "
        } else if crate::text::chars_eq_str(&f, "is_https") {
            "\u{1f512} "
        } else if crate::text::chars_eq_str(&f, "page") {
            "\u{1f4c4} "
        } else {
            "\u{1f50d} "
        }
    }

    /// The query line split into styled pieces for drawing.
    pub fn highlight_syntax(&self) -> (r: Vec<HighlightSpan>)
        ensures
            spans_view(r@) == highlight_spec(self.input@),
    {
        highlight_query(self.input.as_str())
    }
}

/// The text the search popup opens with for the current query: empty for a
/// query that filters nothing, else the query written out.
pub open spec fn opening_text(q: crate::search::types::QueryModel) -> Seq<char> {
    if is_default_spec(q) {
        Seq::empty()
    } else {
        format_query_spec(q)
    }
}

/// The search popup opened on the current query: its text written out with
/// the cursor at the end, and the completions for that position.
pub fn open_search_popup(query: &SearchQuery, data: &AutocompleteData) -> (p: SearchPopup)
    requires
        utf8_len(opening_text(query@)) <= usize::MAX,
    ensures
        p.input@ == opening_text(query@),
        p.cursor_position == utf8_len(p.input@),
        p.parse_error is None,
        p.error_debounce_timer is None,
        suggestions_spec(p.input@, p.cursor_position as int, data, p.autocomplete_items@),
        p.autocomplete_shown == (p.autocomplete_items@.len() > 0),
        p.autocomplete_selected == 0,
        p.autocomplete_scroll_offset == 0,
        p.autocomplete_context@ == context_at(p.input@, p.cursor_position as int),
{
    let text = if is_default_query(query) {
        String::new()
    } else {
        format_query(query)
    };
    let mut p = SearchPopup::new(text);
    proof {
        assert(p.input@.take(p.input@.len() as int) =~= p.input@);
        assert(is_char_boundary_at(p.input@, p.cursor_position as int));
    }
    let suggestions = get_suggestions(p.input.as_str(), p.cursor_position, data);
    p.update_autocomplete(suggestions);
    p
}

/// How many completions the list can draw at once.
pub const DRAWN_COMPLETIONS: usize = 14;

/// The completions the list draws: those from the scroll offset on, at most
/// `DRAWN_COMPLETIONS`; a field name has its icon before it.
pub open spec fn completion_lines_spec(
    items: Seq<Seq<char>>,
    offset: nat,
    field_names: bool,
) -> Seq<Seq<char>> {
    let start = if offset < items.len() {
        offset as int
    } else {
        items.len() as int
    };
    let end = if start + DRAWN_COMPLETIONS < items.len() {
        start + DRAWN_COMPLETIONS
    } else {
        items.len() as int
    };
    Seq::new(
        (end - start) as nat,
        |i: int|
            if field_names {
                field_icon(items[start + i]) + items[start + i]
            } else {
                items[start + i]
            },
    )
}

/// The title of the completion list: ` Showing K of N ` for `K` drawn of
/// `N` completions, ` No suggestions ` when there are none.
pub open spec fn completion_title_spec(drawn: nat, total: nat) -> Seq<char> {
    if total > 0 {
        " Showing "@ + decimal_string(drawn) + " of "@ + decimal_string(total) + " "@
    } else {
        " No suggestions "@
    }
}

impl SearchPopup {
    /// The completion lines the popup draws.
    pub fn completion_lines(&self) -> (r: Vec<String>)
        ensures
            text_list(r@) == completion_lines_spec(
                text_list(self.autocomplete_items@),
                self.autocomplete_scroll_offset as nat,
                self.autocomplete_context is FieldName,
            ),
    {
        let items = &self.autocomplete_items;
        let n = items.len();
        let start = if self.autocomplete_scroll_offset < n {
            self.autocomplete_scroll_offset
        } else {
            n
        };
        let end = if DRAWN_COMPLETIONS < n - start {
            start + DRAWN_COMPLETIONS
        } else {
            n
        };
        let names = match &self.autocomplete_context {
            AutocompleteContext::FieldName => true,
            _ => false,
        };
        let ghost want = completion_lines_spec(
            text_list(self.autocomplete_items@),
            self.autocomplete_scroll_offset as nat,
            names,
        );
        let mut r: Vec<String> = Vec::new();
        let mut i: usize = start;
        while i < end
            invariant
                start <= i <= end <= n,
                n == items.len(),
                items == &self.autocomplete_items,
                want == completion_lines_spec(
                    text_list(self.autocomplete_items@),
                    self.autocomplete_scroll_offset as nat,
                    names,
                ),
                start == (if self.autocomplete_scroll_offset < n {
                    self.autocomplete_scroll_offset as int
                } else {
                    n as int
                }),
                want.len() == end - start,
                text_list(r@) == want.take(i - start),
            decreases end - i,
        {
            let line = if names {
                let mut l = string_from_str(self.get_icon_for_field(items[i].as_str()));
                string_append_str(&mut l, items[i].as_str());
                l
            } else {
                items[i].clone()
            };
            let ghost before = r@;
            r.push(line);
            proof {
                assert(text_list(self.autocomplete_items@)[i as int] == items@[i as int]@);
                assert(want[i - start] == line@);
                assert(text_list(r@) =~= text_list(before).push(line@));
                assert(want.take(i + 1 - start) =~= want.take(i - start).push(want[i - start]));
                assert(text_list(r@) =~= want.take(i + 1 - start));
            }
            i = i + 1;
        }
        proof {
            assert(want.take(end - start) =~= want);
        }
        r
    }

    /// The title of the completion list.
    pub fn completion_title(&self) -> (s: String)
        ensures
            s@ == completion_title_spec(
                completion_lines_spec(
                    text_list(self.autocomplete_items@),
                    self.autocomplete_scroll_offset as nat,
                    self.autocomplete_context is FieldName,
                ).len(),
                self.autocomplete_items@.len(),
            ),
    {
        let total = self.autocomplete_items.len();
        if total > 0 {
            let drawn = self.completion_lines().len();
            let mut s = string_from_str(" Showing ");
            push_decimal(&mut s, drawn as u64);
            string_append_str(&mut s, " of ");
            push_decimal(&mut s, total as u64);
            string_append_str(&mut s, " ");
            proof {
                assert(s@ =~= completion_title_spec(drawn as nat, total as nat));
            }
            s
        } else {
            string_from_str(" No suggestions ")
        }
    }
}

/// What pressing Enter in the search popup does.
#[derive(Debug)]
pub enum SearchSubmit {
    /// The query parsed: it becomes the current query, the popup closes and
    /// a search starts.
    Run(SearchQuery),
    /// The query did not parse: an error popup shows this message and the
    /// search popup stays open.
    Invalid(String),
}

/// The message shown for a query that does not parse: `Invalid query: `
/// followed by the parse error.
pub open spec fn invalid_query_message(e: crate::search::types::ParseErrorModel) -> Seq<char> {
    "Invalid query: "@ + crate::search::types::parse_error_message(e)
}

/// What Enter does with the parse result of the popup's text.
pub fn submit_outcome(parsed: Result<SearchQuery, ParseError>) -> (r: SearchSubmit)
    ensures
        parsed matches Ok(q) ==> r matches SearchSubmit::Run(q2) && q2@ == q@,
        parsed matches Err(e) ==> r matches SearchSubmit::Invalid(m) && m@ == invalid_query_message(e@),
{
    match parsed {
        Ok(q) => SearchSubmit::Run(q),
        Err(e) => {
            let mut m = string_from_str("Invalid query: ");
            let t = e.to_string();
            string_append_str(&mut m, t.as_str());
            SearchSubmit::Invalid(m)
        },
    }
}

impl SearchPopup {
    /// What pressing Enter does: the popup's text parsed into the query to
    /// run, or the message for the error; `None` when a `page` number in the
    /// text gives an offset that does not fit in a `usize`.
    pub fn submit(&self) -> (r: Option<SearchSubmit>)
        ensures
            r is None <==> !parse_query_in_range(self.input@),
            r matches Some(o) ==> match parse_query_spec(self.input@) {
                Ok(m) => o matches SearchSubmit::Run(q) && q@ == m,
                Err(e) => o matches SearchSubmit::Invalid(msg) && msg@ == invalid_query_message(e),
            },
    {
        match crate::search::parser::parse_query_checked(self.input.as_str()) {
            Some(parsed) => Some(submit_outcome(parsed)),
            None => None,
        }
    }
}

/// Deleting right after typing restores the text: after a character is put
/// in at a cursor between two characters (the cursor then moves one byte on),
/// `delete_char`'s precondition holds and it removes exactly that character,
/// bringing the cursor back to where it was.
pub proof fn law_delete_undoes_insert(s: Seq<char>, cursor: int, c: char)
    requires
        is_char_boundary_at(s, cursor),
    ensures
        is_char_boundary_at(inserted_at(s, chars_before_byte(s, cursor), c), cursor),
        cursor < utf8_len(inserted_at(s, chars_before_byte(s, cursor), c)),
        removed_at(
            inserted_at(s, chars_before_byte(s, cursor), c),
            chars_before_byte(inserted_at(s, chars_before_byte(s, cursor), c), cursor),
        ) == s,
{
    let k = chars_before_byte(s, cursor);
    assert(0 <= k <= s.len() && utf8_len(s.take(k)) == cursor);
    let t = inserted_at(s, k, c);
    assert(t.take(k) =~= s.take(k));
    lemma_chars_before_byte_unique(t, k, cursor);
    assert(t =~= t.take(k) + t.skip(k));
    lemma_utf8_len_concat(t.take(k), t.skip(k));
    assert(t.skip(k) =~= seq![c] + s.skip(k));
    lemma_utf8_len_concat(seq![c], s.skip(k));
    assert(seq![c].drop_first() =~= Seq::<char>::empty());
    assert(utf8_len(seq![c]) >= 1);
    assert(removed_at(t, k) =~= s);
}

/// The first `k` characters of `v` as a string.
fn head_str(v: &Vec<char>, k: usize) -> (s: String)
    requires
        k <= v.len(),
    ensures
        s@ == v@.take(k as int),
{
    let s = string_of_range(v, 0, k);
    proof {
        assert(v@.subrange(0, k as int) =~= v@.take(k as int));
    }
    s
}

} // verus!

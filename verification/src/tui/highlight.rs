//! Colouring of the query line in the search popup: white space is shown
//! as typed, each `field=value` word gets its field name marked valid or
//! invalid, and a bare word is valid when it names a field and incomplete
//! otherwise.

use vstd::prelude::*;
use crate::search::validation::{is_valid_field, is_valid_field_chars};
use crate::text::{
    chars_of, is_white_space, is_white_space_char, lowercase, lowercase_of_range, range_find,
    range_contains, string_of_range, chars_eq_str, string_push,
};

verus! {

/// How a piece of the query line is drawn.
#[derive(Debug, Clone, Copy, PartialEq, Eq, Structural)]
pub enum SpanStyle {
    /// As typed.
    Plain,
    /// A known field name.
    Valid,
    /// An unknown field name, or a comma where one value is expected.
    Invalid,
    /// A word that may still become a field name.
    Incomplete,
}

/// One piece of the query line with its style.
#[derive(Debug, Clone)]
pub struct HighlightSpan {
    pub text: String,
    pub style: SpanStyle,
}

/// A span as its text and style.
pub open spec fn span_view(sp: HighlightSpan) -> (Seq<char>, SpanStyle) {
    (sp.text@, sp.style)
}

/// A list of spans as texts and styles.
pub open spec fn spans_view(s: Seq<HighlightSpan>) -> Seq<(Seq<char>, SpanStyle)> {
    s.map_values(|sp: HighlightSpan| span_view(sp))
}

/// End of the run that starts at `i` of characters that are white space
/// exactly when `ws` holds.
pub open spec fn run_end(s: Seq<char>, i: int, ws: bool) -> int
    decreases s.len() - i,
{
    if 0 <= i < s.len() && is_white_space(s[i]) == ws {
        run_end(s, i + 1, ws)
    } else {
        i
    }
}

/// A run never ends before it starts nor after the text ends, and the run
/// from a matching character takes at least that character.
pub proof fn lemma_run_end_bounds(s: Seq<char>, i: int, ws: bool)
    requires
        0 <= i <= s.len(),
    ensures
        i <= run_end(s, i, ws) <= s.len(),
        i < s.len() && is_white_space(s[i]) == ws ==> i < run_end(s, i, ws),
        forall|k: int| i <= k < run_end(s, i, ws) ==> is_white_space(#[trigger] s[k]) == ws,
    decreases s.len() - i,
{
    if i < s.len() && is_white_space(s[i]) == ws {
        lemma_run_end_bounds(s, i + 1, ws);
    }
}

/// The field names whose value is a single name, where a comma is a mistake.
pub open spec fn is_single_value_field(f: Seq<char>) -> bool {
    f == "country"@ || f == "language"@
}

/// Each character of `v` as a span of its own, commas marked invalid.
pub open spec fn comma_spans(v: Seq<char>) -> Seq<(Seq<char>, SpanStyle)> {
    Seq::new(
        v.len(),
        |k: int| (seq![v[k]], if v[k] == ',' { SpanStyle::Invalid } else { SpanStyle::Plain }),
    )
}

/// `k` is the position of the first `=` in `w`.
pub open spec fn is_first_equals(w: Seq<char>, k: int) -> bool {
    &&& 0 <= k < w.len()
    &&& w[k] == '='
    &&& forall|j: int| 0 <= j < k ==> w[j] != '='
}

/// The spans of one word (a run without white space).
pub open spec fn word_spans(w: Seq<char>) -> Seq<(Seq<char>, SpanStyle)> {
    if w.contains('=') {
        let k = choose|k: int| is_first_equals(w, k);
        let field = w.take(k);
        let value = w.skip(k);
        let lower = lowercase(field);
        let field_style = if is_valid_field(lower) {
            SpanStyle::Valid
        } else {
            SpanStyle::Invalid
        };
        seq![(field, field_style)] + if is_single_value_field(lower) && value.contains(',') {
            comma_spans(value)
        } else {
            seq![(value, SpanStyle::Plain)]
        }
    } else {
        let style = if is_valid_field(lowercase(w)) {
            SpanStyle::Valid
        } else {
            SpanStyle::Incomplete
        };
        seq![(w, style)]
    }
}

/// The spans of `s` from position `i` on: each run of white space as it
/// is, each word by `word_spans`.
pub open spec fn spans_from(s: Seq<char>, i: int) -> Seq<(Seq<char>, SpanStyle)>
    decreases s.len() - i,
{
    if 0 <= i < s.len() {
        let ws = is_white_space(s[i]);
        let j = run_end(s, i, ws);
        proof {
            lemma_run_end_bounds(s, i, ws);
        }
        let piece = s.subrange(i, j);
        (if ws {
            seq![(piece, SpanStyle::Plain)]
        } else {
            word_spans(piece)
        }) + spans_from(s, j)
    } else {
        seq![]
    }
}

/// The spans of a whole query line; an empty line is one empty span.
pub open spec fn highlight_spec(s: Seq<char>) -> Seq<(Seq<char>, SpanStyle)> {
    if s.len() == 0 {
        seq![(Seq::<char>::empty(), SpanStyle::Plain)]
    } else {
        spans_from(s, 0)
    }
}

/// The texts of spans, one after the other.
pub open spec fn joined_text(sp: Seq<(Seq<char>, SpanStyle)>) -> Seq<char>
    decreases sp.len(),
{
    if sp.len() == 0 {
        Seq::empty()
    } else {
        sp[0].0 + joined_text(sp.drop_first())
    }
}

/// Joining two lists of spans joins their texts.
pub proof fn lemma_joined_text_append(a: Seq<(Seq<char>, SpanStyle)>, b: Seq<(Seq<char>, SpanStyle)>)
    ensures
        joined_text(a + b) == joined_text(a) + joined_text(b),
    decreases a.len(),
{
    if a.len() == 0 {
        assert(a + b =~= b);
        assert(joined_text(a) =~= Seq::<char>::empty());
        assert(joined_text(a) + joined_text(b) =~= joined_text(b));
    } else {
        assert((a + b).drop_first() =~= a.drop_first() + b);
        lemma_joined_text_append(a.drop_first(), b);
        assert(joined_text(a + b) =~= a[0].0 + (joined_text(a.drop_first()) + joined_text(b)));
    }
}

/// A single span spells its own text.
pub proof fn lemma_joined_text_single(x: (Seq<char>, SpanStyle))
    ensures
        joined_text(seq![x]) == x.0,
{
    let none = Seq::<(Seq<char>, SpanStyle)>::empty();
    assert(seq![x].drop_first() =~= none);
    assert(joined_text(none) == Seq::<char>::empty());
    assert(x.0 + Seq::<char>::empty() =~= x.0);
}

/// The one-character spans of `v` spell `v`.
pub proof fn lemma_comma_spans_text(v: Seq<char>)
    ensures
        joined_text(comma_spans(v)) == v,
    decreases v.len(),
{
    if v.len() > 0 {
        assert(comma_spans(v).drop_first() =~= comma_spans(v.drop_first()));
        lemma_comma_spans_text(v.drop_first());
        assert(v =~= seq![v[0]] + v.drop_first());
    } else {
        assert(v =~= Seq::<char>::empty());
    }
}

/// The spans of a word spell the word.
pub proof fn lemma_word_spans_text(w: Seq<char>)
    ensures
        joined_text(word_spans(w)) == w,
{
    if w.contains('=') {
        let i = choose|i: int| 0 <= i < w.len() && w[i] == '=';
        lemma_first_equals_exists(w, i);
        let k = choose|k: int| is_first_equals(w, k);
        let field = w.take(k);
        let value = w.skip(k);
        let lower = lowercase(field);
        let field_style = if is_valid_field(lower) {
            SpanStyle::Valid
        } else {
            SpanStyle::Invalid
        };
        let rest = if is_single_value_field(lower) && value.contains(',') {
            comma_spans(value)
        } else {
            seq![(value, SpanStyle::Plain)]
        };
        lemma_joined_text_append(seq![(field, field_style)], rest);
        if is_single_value_field(lower) && value.contains(',') {
            lemma_comma_spans_text(value);
        } else {
            lemma_joined_text_single((value, SpanStyle::Plain));
        }
        lemma_joined_text_single((field, field_style));
        assert(field + value =~= w);
    } else {
        let style = if is_valid_field(lowercase(w)) {
            SpanStyle::Valid
        } else {
            SpanStyle::Incomplete
        };
        lemma_joined_text_single((w, style));
    }
}

/// Where some `=` occurs, a first one does.
proof fn lemma_first_equals_exists(w: Seq<char>, i: int)
    requires
        0 <= i < w.len(),
        w[i] == '=',
    ensures
        exists|k: int| is_first_equals(w, k),
    decreases i,
{
    if forall|j: int| 0 <= j < i ==> w[j] != '=' {
        assert(is_first_equals(w, i));
    } else {
        let j = choose|j: int| 0 <= j < i && w[j] == '=';
        lemma_first_equals_exists(w, j);
    }
}

/// The first `=` is unique.
proof fn lemma_first_equals_unique(w: Seq<char>, k: int)
    requires
        is_first_equals(w, k),
    ensures
        (choose|k2: int| is_first_equals(w, k2)) == k,
{
    let k2 = choose|k2: int| is_first_equals(w, k2);
    assert(is_first_equals(w, k2));
    if k2 < k {
        assert(w[k2] != '=');
    } else if k < k2 {
        assert(w[k] != '=');
    }
}

/// The spans from `i` on spell the text from `i` on.
pub proof fn lemma_spans_from_text(s: Seq<char>, i: int)
    requires
        0 <= i <= s.len(),
    ensures
        joined_text(spans_from(s, i)) == s.subrange(i, s.len() as int),
    decreases s.len() - i,
{
    if i < s.len() {
        let ws = is_white_space(s[i]);
        let j = run_end(s, i, ws);
        lemma_run_end_bounds(s, i, ws);
        let piece = s.subrange(i, j);
        let first = if ws {
            seq![(piece, SpanStyle::Plain)]
        } else {
            word_spans(piece)
        };
        lemma_spans_from_text(s, j);
        lemma_joined_text_append(first, spans_from(s, j));
        if ws {
            lemma_joined_text_single((piece, SpanStyle::Plain));
        } else {
            lemma_word_spans_text(piece);
        }
        assert(piece + s.subrange(j, s.len() as int) =~= s.subrange(i, s.len() as int));
    } else {
        assert(s.subrange(i, s.len() as int) =~= Seq::<char>::empty());
    }
}

/// Highlighting changes no character of the query line: the spans, read
/// one after the other, spell the line.
pub proof fn law_highlight_keeps_text(s: Seq<char>)
    ensures
        joined_text(highlight_spec(s)) == s,
{
    if s.len() == 0 {
        lemma_joined_text_single((Seq::<char>::empty(), SpanStyle::Plain));
        assert(s =~= Seq::<char>::empty());
    } else {
        lemma_spans_from_text(s, 0);
        assert(s.subrange(0, s.len() as int) =~= s);
    }
}

/// Appends a span to `out`.
fn push_span(out: &mut Vec<HighlightSpan>, text: String, style: SpanStyle)
    ensures
        spans_view(final(out)@) == spans_view(old(out)@).push((text@, style)),
{
    let ghost before = out@;
    out.push(HighlightSpan { text, style });
    proof {
        assert(spans_view(out@) =~= spans_view(before).push((text@, style)));
    }
}

/// Appends the spans of the word `v[lo..hi]` to `out`.
fn push_word_spans(v: &Vec<char>, lo: usize, hi: usize, out: &mut Vec<HighlightSpan>)
    requires
        lo <= hi <= v.len(),
    ensures
        spans_view(final(out)@) == spans_view(old(out)@) + word_spans(v@.subrange(lo as int, hi as int)),
{
    let ghost w = v@.subrange(lo as int, hi as int);
    let ghost before = spans_view(out@);
    match range_find(v, lo, hi, '=') {
        Some(k) => {
            proof {
                assert(is_first_equals(w, k - lo));
                assert(w.contains('='));
                lemma_first_equals_unique(w, k - lo);
                assert(w.take(k - lo) =~= v@.subrange(lo as int, k as int));
                assert(w.skip(k - lo) =~= v@.subrange(k as int, hi as int));
            }
            let field = string_of_range(v, lo, k);
            let lower = lowercase_of_range(v, lo, k);
            let field_style = if is_valid_field_chars(&lower) {
                SpanStyle::Valid
            } else {
                SpanStyle::Invalid
            };
            push_span(out, field, field_style);
            let single = chars_eq_str(&lower, "country") || chars_eq_str(&lower, "language");
            if single && range_contains(v, k, hi, ',') {
                let ghost mid = spans_view(out@);
                let mut i: usize = k;
                while i < hi
                    invariant
                        k <= i <= hi <= v.len(),
                        spans_view(out@) == mid + comma_spans(v@.subrange(k as int, i as int)),
                    decreases hi - i,
                {
                    let c = v[i];
                    let mut t = String::new();
                    string_push(&mut t, c);
                    let style = if c == ',' {
                        SpanStyle::Invalid
                    } else {
                        SpanStyle::Plain
                    };
                    proof {
                        assert(t@ =~= seq![c]);
                    }
                    push_span(out, t, style);
                    i = i + 1;
                    proof {
                        assert(comma_spans(v@.subrange(k as int, i as int)) =~= comma_spans(
                            v@.subrange(k as int, i - 1),
                        ).push((seq![c], style)));
                        assert(spans_view(out@) =~= mid + comma_spans(
                            v@.subrange(k as int, i as int),
                        ));
                    }
                }
                proof {
                    assert(spans_view(out@) =~= before + word_spans(w));
                }
            } else {
                let value = string_of_range(v, k, hi);
                push_span(out, value, SpanStyle::Plain);
                proof {
                    assert(spans_view(out@) =~= before + word_spans(w));
                }
            }
        },
        None => {
            let text = string_of_range(v, lo, hi);
            let lower = lowercase_of_range(v, lo, hi);
            let style = if is_valid_field_chars(&lower) {
                SpanStyle::Valid
            } else {
                SpanStyle::Incomplete
            };
            push_span(out, text, style);
            proof {
                assert(spans_view(out@) =~= before + word_spans(w));
            }
        },
    }
}

/// The styled pieces of a query line, in order: runs of white space as
/// typed, and each word coloured by what it names.
pub fn highlight_query(input: &str) -> (r: Vec<HighlightSpan>)
    ensures
        spans_view(r@) == highlight_spec(input@),
{
    let v = chars_of(input);
    let n = v.len();
    let mut out: Vec<HighlightSpan> = Vec::new();
    if n == 0 {
        push_span(&mut out, String::new(), SpanStyle::Plain);
        proof {
            assert(spans_view(out@) =~= highlight_spec(input@));
        }
        return out;
    }
    let mut i: usize = 0;
    proof {
        assert(spans_view(out@) =~= Seq::<(Seq<char>, SpanStyle)>::empty());
        assert(spans_view(out@) + spans_from(v@, 0) =~= spans_from(v@, 0));
    }
    while i < n
        invariant
            v@ == input@,
            n == v.len(),
            i <= n,
            spans_view(out@) + spans_from(v@, i as int) == spans_from(v@, 0),
        decreases n - i,
    {
        let ws = is_white_space_char(v[i]);
        let mut j: usize = i + 1;
        proof {
            lemma_run_end_bounds(v@, i as int, ws);
        }
        while j < n
            invariant
                i < j <= n,
                n == v.len(),
                run_end(v@, j as int, ws) == run_end(v@, i as int, ws),
            ensures
                i < j <= n,
                run_end(v@, j as int, ws) == run_end(v@, i as int, ws),
                j == n || is_white_space(v@[j as int]) != ws,
            decreases n - j,
        {
            let wj = is_white_space_char(v[j]);
            if wj != ws {
                break;
            }
            j = j + 1;
        }
        proof {
            lemma_run_end_bounds(v@, j as int, ws);
            assert(run_end(v@, i as int, ws) == j);
        }
        let ghost prev = spans_view(out@);
        if ws {
            let piece = string_of_range(&v, i, j);
            push_span(&mut out, piece, SpanStyle::Plain);
        } else {
            push_word_spans(&v, i, j, &mut out);
        }
        proof {
            assert(spans_from(v@, i as int) == (if ws {
                seq![(v@.subrange(i as int, j as int), SpanStyle::Plain)]
            } else {
                word_spans(v@.subrange(i as int, j as int))
            }) + spans_from(v@, j as int));
            assert(spans_view(out@) + spans_from(v@, j as int) =~= prev + spans_from(
                v@,
                i as int,
            ));
        }
        i = j;
    }
    proof {
        assert(spans_from(v@, n as int) =~= Seq::<(Seq<char>, SpanStyle)>::empty());
        assert(spans_view(out@) =~= spans_view(out@) + spans_from(v@, n as int));
    }
    out
}

} // verus!

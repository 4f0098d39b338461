//! The status log kept between sessions: one line per entry,
//! `<unix seconds>|<level letter>|<time of day>|<message>`; entries older
//! than a day are dropped when read back.

use vstd::prelude::*;
use crate::tui::keys::LogLevel;
use crate::text::{
    chars_of, split_first, is_first_index, lemma_split_first_at, parse_unsigned, parse_u64_range,
    range_find, string_of_range, string_append_str, string_push, push_decimal,
    decimal_string, lemma_decimal_string_reads_back, unsigned_digits, text_lines, bounds_spell,
    line_bounds, join, join_strings, text_list, lemma_split_after,
};

verus! {

/// How long, in seconds, a saved log entry is read back.
pub const LOG_KEEP_SECS: u64 = 86400;

/// A log entry as saved: when it was made (Unix seconds), its level, its
/// time of day as shown, and its message.
#[derive(Debug, Clone)]
pub struct PersistedLogEntry {
    pub unix_secs: u64,
    pub level: LogLevel,
    pub timestamp: String,
    pub message: String,
}

impl View for PersistedLogEntry {
    type V = (u64, LogLevel, Seq<char>, Seq<char>);

    open spec fn view(&self) -> (u64, LogLevel, Seq<char>, Seq<char>) {
        (self.unix_secs, self.level, self.timestamp@, self.message@)
    }
}

/// The letter a level is saved as.
pub open spec fn level_code(l: LogLevel) -> Seq<char> {
    match l {
        LogLevel::Debug => seq!['D'],
        LogLevel::Info => seq!['I'],
        LogLevel::Warning => seq!['W'],
        LogLevel::Error => seq!['E'],
    }
}

/// The level a saved letter stands for.
pub open spec fn level_of_code(s: Seq<char>) -> Option<LogLevel> {
    if s == seq!['D'] {
        Some(LogLevel::Debug)
    } else if s == seq!['I'] {
        Some(LogLevel::Info)
    } else if s == seq!['W'] {
        Some(LogLevel::Warning)
    } else if s == seq!['E'] {
        Some(LogLevel::Error)
    } else {
        None
    }
}

/// The saved line of an entry.
pub open spec fn log_line(unix: u64, l: LogLevel, timestamp: Seq<char>, message: Seq<char>) -> Seq<char> {
    decimal_string(unix as nat) + seq!['|'] + level_code(l) + seq!['|'] + timestamp + seq!['|'] + message
}

/// A line cut at its first three `|` into four pieces, as `splitn(4, '|')`
/// does; `None` when it has fewer than three.
pub open spec fn split4(line: Seq<char>) -> Option<(Seq<char>, Seq<char>, Seq<char>, Seq<char>)> {
    match split_first(line, '|') {
        None => None,
        Some((a, r1)) => match split_first(r1, '|') {
            None => None,
            Some((b, r2)) => match split_first(r2, '|') {
                None => None,
                Some((c, d)) => Some((a, b, c, d)),
            },
        },
    }
}

/// The entry a saved line gives at time `now`: it needs four pieces, a
/// number, an age of at most a day and a known level letter.
pub open spec fn parsed_log_line(line: Seq<char>, now: u64) -> Option<(u64, LogLevel, Seq<char>, Seq<char>)> {
    match split4(line) {
        None => None,
        Some((a, b, c, d)) => match parse_unsigned(a, u64::MAX as nat) {
            None => None,
            Some(u) => if now >= u && now - u > LOG_KEEP_SECS {
                None
            } else {
                match level_of_code(b) {
                    None => None,
                    Some(l) => Some((u as u64, l, c, d)),
                }
            },
        },
    }
}

/// The entries the lines give, in order, the others skipped.
pub open spec fn parsed_entries(lines: Seq<Seq<char>>, now: u64) -> Seq<(u64, LogLevel, Seq<char>, Seq<char>)>
    decreases lines.len(),
{
    if lines.len() == 0 {
        Seq::empty()
    } else {
        let r = parsed_entries(lines.drop_last(), now);
        match parsed_log_line(lines.last(), now) {
            Some(e) => r.push(e),
            None => r,
        }
    }
}

/// The views of a list of entries.
pub open spec fn entry_views(v: Seq<PersistedLogEntry>) -> Seq<(u64, LogLevel, Seq<char>, Seq<char>)> {
    v.map_values(|e: PersistedLogEntry| e@)
}

/// The level letters differ from each other.
proof fn lemma_level_codes_distinct()
    ensures
        seq!['I'] != seq!['D'],
        seq!['W'] != seq!['D'],
        seq!['W'] != seq!['I'],
        seq!['E'] != seq!['D'],
        seq!['E'] != seq!['I'],
        seq!['E'] != seq!['W'],
{
    assert(seq!['I'][0] != seq!['D'][0]);
    assert(seq!['W'][0] != seq!['D'][0]);
    assert(seq!['W'][0] != seq!['I'][0]);
    assert(seq!['E'][0] != seq!['D'][0]);
    assert(seq!['E'][0] != seq!['I'][0]);
    assert(seq!['E'][0] != seq!['W'][0]);
}

/// The level a one-letter piece `v[lo..hi]` stands for.
fn level_in(v: &Vec<char>, lo: usize, hi: usize) -> (r: Option<LogLevel>)
    requires
        lo <= hi <= v.len(),
    ensures
        r == level_of_code(v@.subrange(lo as int, hi as int)),
{
    let ghost s = v@.subrange(lo as int, hi as int);
    if hi - lo != 1 {
        proof {
            assert(s.len() != 1);
            assert(s != seq!['D'] && s != seq!['I'] && s != seq!['W'] && s != seq!['E']);
        }
        return None;
    }
    let c = v[lo];
    proof {
        assert(s =~= seq![c]);
        lemma_level_codes_distinct();
    }
    if c == 'D' {
        Some(LogLevel::Debug)
    } else if c == 'I' {
        Some(LogLevel::Info)
    } else if c == 'W' {
        Some(LogLevel::Warning)
    } else if c == 'E' {
        Some(LogLevel::Error)
    } else {
        proof {
            assert(seq![c] != seq!['D']) by { assert(seq![c][0] != seq!['D'][0]); }
            assert(seq![c] != seq!['I']) by { assert(seq![c][0] != seq!['I'][0]); }
            assert(seq![c] != seq!['W']) by { assert(seq![c][0] != seq!['W'][0]); }
            assert(seq![c] != seq!['E']) by { assert(seq![c][0] != seq!['E'][0]); }
        }
        None
    }
}

/// The entry the saved line `v[lo..hi]` gives at time `now`.
fn parse_log_range(v: &Vec<char>, lo: usize, hi: usize, now: u64) -> (r: Option<PersistedLogEntry>)
    requires
        lo <= hi <= v.len(),
    ensures
        match parsed_log_line(v@.subrange(lo as int, hi as int), now) {
            Some(e) => r matches Some(x) && x@ == e,
            None => r is None,
        },
{
    let ghost line = v@.subrange(lo as int, hi as int);
    let p1 = match range_find(v, lo, hi, '|') {
        Some(k) => k,
        None => {
            return None;
        },
    };
    proof {
        assert(is_first_index(line, '|', p1 - lo));
        lemma_split_first_at(line, '|', p1 - lo);
        assert(line.take(p1 - lo) =~= v@.subrange(lo as int, p1 as int));
        assert(line.skip(p1 - lo + 1) =~= v@.subrange(p1 + 1, hi as int));
    }
    let ghost r1 = v@.subrange(p1 + 1, hi as int);
    let p2 = match range_find(v, p1 + 1, hi, '|') {
        Some(k) => k,
        None => {
            return None;
        },
    };
    proof {
        assert(is_first_index(r1, '|', p2 - p1 - 1));
        lemma_split_first_at(r1, '|', p2 - p1 - 1);
        assert(r1.take(p2 - p1 - 1) =~= v@.subrange(p1 + 1, p2 as int));
        assert(r1.skip(p2 - p1) =~= v@.subrange(p2 + 1, hi as int));
    }
    let ghost r2 = v@.subrange(p2 + 1, hi as int);
    let p3 = match range_find(v, p2 + 1, hi, '|') {
        Some(k) => k,
        None => {
            return None;
        },
    };
    proof {
        assert(is_first_index(r2, '|', p3 - p2 - 1));
        lemma_split_first_at(r2, '|', p3 - p2 - 1);
        assert(r2.take(p3 - p2 - 1) =~= v@.subrange(p2 + 1, p3 as int));
        assert(r2.skip(p3 - p2) =~= v@.subrange(p3 + 1, hi as int));
    }
    let unix = match parse_u64_range(v, lo, p1) {
        Some(u) => u,
        None => {
            return None;
        },
    };
    if now >= unix && now - unix > LOG_KEEP_SECS {
        return None;
    }
    let level = match level_in(v, p1 + 1, p2) {
        Some(l) => l,
        None => {
            return None;
        },
    };
    Some(PersistedLogEntry {
        unix_secs: unix,
        level,
        timestamp: string_of_range(v, p2 + 1, p3),
        message: string_of_range(v, p3 + 1, hi),
    })
}

/// The entry a saved line gives at time `now` (Unix seconds), if any.
pub fn parse_log_line(line: &str, now: u64) -> (r: Option<PersistedLogEntry>)
    ensures
        match parsed_log_line(line@, now) {
            Some(e) => r matches Some(x) && x@ == e,
            None => r is None,
        },
{
    let v = chars_of(line);
    proof {
        assert(v@.subrange(0, v@.len() as int) =~= v@);
    }
    parse_log_range(&v, 0, v.len(), now)
}

/// The entries of a saved log read at time `now`: one per line that gives one.
pub fn parse_persisted_log(content: &str, now: u64) -> (r: Vec<PersistedLogEntry>)
    ensures
        entry_views(r@) == parsed_entries(text_lines(content@), now),
{
    let v = chars_of(content);
    let lines = line_bounds(&v);
    let ghost ls = text_lines(v@);
    let mut r: Vec<PersistedLogEntry> = Vec::new();
    let mut i: usize = 0;
    proof {
        assert(ls.take(0) =~= Seq::<Seq<char>>::empty());
        assert(entry_views(r@) =~= Seq::<(u64, LogLevel, Seq<char>, Seq<char>)>::empty());
    }
    while i < lines.len()
        invariant
            i <= lines.len(),
            lines@.len() == ls.len(),
            ls == text_lines(v@),
            forall|j: int| 0 <= j < lines@.len() ==> bounds_spell(v@, #[trigger] lines@[j], ls[j]),
            entry_views(r@) == parsed_entries(ls.take(i as int), now),
        decreases lines.len() - i,
    {
        let (lo, hi) = lines[i];
        proof {
            assert(bounds_spell(v@, lines@[i as int], ls[i as int]));
            assert(ls.take(i + 1).drop_last() =~= ls.take(i as int));
            assert(ls.take(i + 1).last() == ls[i as int]);
        }
        let ghost before = r@;
        match parse_log_range(&v, lo, hi, now) {
            Some(e) => {
                r.push(e);
                proof {
                    assert(entry_views(r@) =~= entry_views(before).push(r@[before.len() as int]@));
                }
            },
            None => {},
        }
        i = i + 1;
    }
    proof {
        assert(ls.take(ls.len() as int) =~= ls);
    }
    r
}

/// The saved line of an entry.
pub fn format_log_line(e: &PersistedLogEntry) -> (s: String)
    ensures
        s@ == log_line(e.unix_secs, e.level, e.timestamp@, e.message@),
{
    let mut s = String::new();
    push_decimal(&mut s, e.unix_secs);
    string_push(&mut s, '|');
    let code = match e.level {
        LogLevel::Debug => 'D',
        LogLevel::Info => 'I',
        LogLevel::Warning => 'W',
        LogLevel::Error => 'E',
    };
    string_push(&mut s, code);
    string_push(&mut s, '|');
    string_append_str(&mut s, e.timestamp.as_str());
    string_push(&mut s, '|');
    string_append_str(&mut s, e.message.as_str());
    proof {
        assert(s@ =~= log_line(e.unix_secs, e.level, e.timestamp@, e.message@));
    }
    s
}

/// The saved form of a log: the lines of its entries joined by line feeds.
pub fn format_persisted_log(entries: &Vec<PersistedLogEntry>) -> (s: String)
    ensures
        s@ == join(entries@.map_values(|e: PersistedLogEntry| log_line(e.unix_secs, e.level, e.timestamp@, e.message@)), seq!['\n']),
{
    let mut lines: Vec<String> = Vec::new();
    let mut i: usize = 0;
    while i < entries.len()
        invariant
            i <= entries.len(),
            text_list(lines@) == entries@.take(i as int).map_values(|e: PersistedLogEntry| log_line(e.unix_secs, e.level, e.timestamp@, e.message@)),
        decreases entries.len() - i,
    {
        let line = format_log_line(&entries[i]);
        let ghost before = lines@;
        lines.push(line);
        proof {
            assert(text_list(lines@) =~= text_list(before).push(lines@[before.len() as int]@));
            assert(entries@.take(i + 1) =~= entries@.take(i as int).push(entries@[i as int]));
            assert(text_list(lines@) =~= entries@.take(i + 1).map_values(|e: PersistedLogEntry| log_line(e.unix_secs, e.level, e.timestamp@, e.message@)));
        }
        i = i + 1;
    }
    proof {
        assert(entries@.take(entries@.len() as int) =~= entries@);
        assert(seq!['\n'] =~= "\n"@) by {
            reveal_strlit("\n");
        }
    }
    join_strings(&lines, "\n")
}

/// A saved line reads back as the entry it was written from, as long as the
/// time of day holds no `|` and the entry is at most a day old at `now`
/// (the message may hold anything but line breaks, which end the line).
pub proof fn law_log_line_round_trip(unix: u64, l: LogLevel, timestamp: Seq<char>, message: Seq<char>, now: u64)
    requires
        !timestamp.contains('|'),
        !(now >= unix && now - unix > LOG_KEEP_SECS),
    ensures
        parsed_log_line(log_line(unix, l, timestamp, message), now) == Some((unix, l, timestamp, message)),
{
    let d = decimal_string(unix as nat);
    lemma_decimal_string_reads_back(unix as nat);
    assert(!d.contains('|')) by {
        if d.contains('|') {
            let i = choose|i: int| 0 <= i < d.len() && d[i] == '|';
            assert(crate::text::is_ascii_digit(d[i]));
        }
    }
    let code = level_code(l);
    assert(!code.contains('|')) by {
        if code.contains('|') {
            let i = choose|i: int| 0 <= i < code.len() && code[i] == '|';
            assert(code.len() == 1);
            assert(i == 0);
        }
    }
    let r2 = timestamp + seq!['|'] + message;
    let r1 = code + seq!['|'] + r2;
    let line = log_line(unix, l, timestamp, message);
    assert(line =~= d + seq!['|'] + r1);
    lemma_split_after(d, '|', r1);
    lemma_split_after(code, '|', r2);
    lemma_split_after(timestamp, '|', message);
    assert(d[0] != '+') by {
        assert(crate::text::is_ascii_digit(d[0]));
    }
    assert(unsigned_digits(d) == d);
    lemma_level_codes_distinct();
}

} // verus!

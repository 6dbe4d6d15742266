//! Rule lines of the configuration file.
//!
//! A line is either a `Pair` — a pattern mapped to a color value, written
//! `pattern=value` — or a `Flag`, a bare capability name. A line is split on
//! its first `=`; a line without `=` is always a `Flag`, never an error.
//! Lines that look like a bracketed section divider are not entries at all
//! and are skipped by the loader.

use vstd::prelude::*;

verus! {

/// Mathematical model of a rule line.
pub ghost enum EntryModel {
    Pair { pattern: Seq<char>, value: Seq<char> },
    Flag { name: Seq<char> },
}

/// Index of the first `=` in `s`, or `s.len()` when `s` has none.
pub open spec fn eq_index(s: Seq<char>) -> int
    decreases s.len(),
{
    if s.len() == 0 {
        0
    } else if s[0] == '=' {
        0
    } else {
        1 + eq_index(s.skip(1))
    }
}

/// `eq_index` finds the first `=`: it is in bounds, points at an `=` when
/// one exists, and nothing before it is an `=`.
pub proof fn lemma_eq_index(s: Seq<char>)
    ensures
        0 <= eq_index(s) <= s.len(),
        eq_index(s) < s.len() ==> s[eq_index(s)] == '=',
        forall|k: int| 0 <= k < eq_index(s) ==> s[k] != '=',
    decreases s.len(),
{
    if s.len() != 0 && s[0] != '=' {
        lemma_eq_index(s.skip(1));
        assert forall|k: int| 0 <= k < eq_index(s) implies s[k] != '=' by {
            if k > 0 {
                assert(s.skip(1)[k - 1] == s[k]);
            }
        }
        if eq_index(s) < s.len() {
            assert(s.skip(1)[eq_index(s) - 1] == s[eq_index(s)]);
        }
    }
}

/// The entry a raw line parses to: split on the first `=` into a `Pair`,
/// or the whole line as a `Flag` when it has no `=`.
pub open spec fn parse_line(s: Seq<char>) -> EntryModel {
    if eq_index(s) < s.len() {
        EntryModel::Pair { pattern: s.take(eq_index(s)), value: s.skip(eq_index(s) + 1) }
    } else {
        EntryModel::Flag { name: s }
    }
}

/// The line an entry is stored as: `pattern=value` for a pair, the bare
/// name for a flag.
pub open spec fn render_entry(e: EntryModel) -> Seq<char> {
    match e {
        EntryModel::Pair { pattern, value } => pattern + seq!['='] + value,
        EntryModel::Flag { name } => name,
    }
}

/// Whether a line has the shape of a human-readable section divider: a `[`
/// with a `]` somewhere after it.
pub open spec fn is_header(s: Seq<char>) -> bool {
    exists|i: int, j: int| 0 <= i < j < s.len() && s[i] == '[' && s[j] == ']'
}

/// A storable entry: one whose rendered line carries it back through the
/// loader. A pattern or flag name must not contain `=` (the split would
/// move it), a flag name must not be empty (the loader skips blank lines),
/// and the rendered line must not have the divider shape (the loader skips
/// dividers).
pub open spec fn entry_storable(e: EntryModel) -> bool {
    match e {
        EntryModel::Pair { pattern, value } => (forall|k: int|
            0 <= k < pattern.len() ==> pattern[k] != '=') && !is_header(render_entry(e)),
        EntryModel::Flag { name } => name.len() > 0 && (forall|k: int|
            0 <= k < name.len() ==> name[k] != '=') && !is_header(name),
    }
}

/// The rendered line of a storable entry is kept by the loader — it is
/// neither empty nor a divider — and parses back to the entry itself.
pub proof fn lemma_render_parse_identity(e: EntryModel)
    requires
        entry_storable(e),
    ensures
        render_entry(e).len() > 0,
        !is_header(render_entry(e)),
        parse_line(render_entry(e)) == e,
{
    let line = render_entry(e);
    lemma_eq_index(line);
    match e {
        EntryModel::Pair { pattern, value } => {
            assert(line == pattern + seq!['='] + value);
            assert(line[pattern.len() as int] == '=');
            assert forall|k: int| 0 <= k < pattern.len() implies line[k] != '=' by {
                assert(line[k] == pattern[k]);
            }
            assert(eq_index(line) == pattern.len());
            assert(line.take(pattern.len() as int) =~= pattern);
            assert(line.skip(pattern.len() as int + 1) =~= value);
        },
        EntryModel::Flag { name } => {
            if eq_index(line) < line.len() {
                assert(line[eq_index(line)] == '=');
            }
        },
    }
}

/// One rule of the configuration, in insertion order decisive for matching.
pub enum ConfigurationEntry {
    Pair(String, String),
    Flag(String),
}

impl View for ConfigurationEntry {
    type V = EntryModel;

    open spec fn view(&self) -> EntryModel {
        match self {
            ConfigurationEntry::Pair(pattern, value) => EntryModel::Pair {
                pattern: pattern@,
                value: value@,
            },
            ConfigurationEntry::Flag(name) => EntryModel::Flag { name: name@ },
        }
    }
}

impl DeepView for ConfigurationEntry {
    type V = EntryModel;

    open spec fn deep_view(&self) -> EntryModel {
        self.view()
    }
}

/// Finds the position of the first `=` in `s`, or its length when none.
fn find_eq(s: &str) -> (i: usize)
    ensures
        i == eq_index(s@),
{
    let n = s.unicode_len();
    let mut i: usize = 0;
    while i < n
        invariant
            i <= n,
            n == s@.len(),
            forall|k: int| 0 <= k < i ==> s@[k] != '=',
        decreases n - i,
    {
        if s.get_char(i) == '=' {
            proof {
                lemma_eq_index(s@);
            }
            return i;
        }
        i += 1;
    }
    proof {
        lemma_eq_index(s@);
    }
    n
}

impl ConfigurationEntry {
    /// Parses one raw line into an entry. The line is split on its first
    /// `=`; absence of `=` always yields a `Flag`.
    pub fn new(value: &str) -> (entry: Self)
        ensures
            entry@ == parse_line(value@),
    {
        let n = value.unicode_len();
        let i = find_eq(value);
        proof {
            lemma_eq_index(value@);
        }
        if i < n {
            let pattern = value.substring_char(0, i).to_owned();
            let val = value.substring_char(i + 1, n).to_owned();
            proof {
                assert(pattern@ =~= value@.take(i as int));
                assert(val@ =~= value@.skip(i as int + 1));
            }
            ConfigurationEntry::Pair(pattern, val)
        } else {
            ConfigurationEntry::Flag(value.to_owned())
        }
    }

    /// Whether this entry is a `Pair`.
    pub fn is_pair(&self) -> (r: bool)
        ensures
            r == (self@ is Pair),
    {
        matches!(self, ConfigurationEntry::Pair(_, _))
    }

    /// Renders this entry as the line that stores it.
    pub fn to_line(&self) -> (line: String)
        ensures
            line@ == render_entry(self@),
    {
        match self {
            ConfigurationEntry::Pair(pattern, value) => {
                let mut line = pattern.clone();
                line.append("=");
                line.append(value.as_str());
                proof {
                    reveal_strlit("=");
                    assert(line@ =~= pattern@ + seq!['='] + value@);
                }
                line
            },
            ConfigurationEntry::Flag(name) => name.clone(),
        }
    }
}

/// Whether a raw line is a section divider and so carries no entry.
pub fn is_section_header(line: &str) -> (r: bool)
    ensures
        r == is_header(line@),
{
    let n = line.unicode_len();
    let mut seen_open = false;
    let mut i: usize = 0;
    while i < n
        invariant
            i <= n,
            n == line@.len(),
            seen_open == exists|k: int| 0 <= k < i && line@[k] == '[',
            forall|p: int, q: int| 0 <= p < q < i ==> !(line@[p] == '[' && line@[q] == ']'),
        decreases n - i,
    {
        let c = line.get_char(i);
        if c == ']' && seen_open {
            proof {
                let k = choose|k: int| 0 <= k < i && line@[k] == '[';
                assert(0 <= k < i < n && line@[k] == '[' && line@[i as int] == ']');
            }
            return true;
        }
        if c == '[' {
            seen_open = true;
        }
        i += 1;
    }
    false
}

} // verus!

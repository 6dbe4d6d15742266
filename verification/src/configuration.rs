//! The configuration store: an ordered rule list with its persistence state.
//!
//! A `Configuration` owns the resolved location of the rule file (absent in
//! the memory-only degraded mode), the ordered entries, and a dirty flag
//! that records whether the entries diverged from what the file holds. The
//! store itself never touches the filesystem: the loader takes the raw file
//! lines, and `sync`/`finalize` hand the raw lines to write back to the
//! embedding program.

use vstd::prelude::*;

use crate::entry::ConfigurationEntry;
use crate::entry::EntryModel;
use crate::entry::entry_storable;
use crate::entry::is_header;
use crate::entry::is_section_header;
use crate::entry::lemma_render_parse_identity;
use crate::entry::parse_line;
use crate::entry::render_entry;

verus! {

/// Whether a pattern string is accepted by the expression compiler.
pub uninterp spec fn regex_is_valid(pattern: Seq<char>) -> bool;

/// Whether a valid pattern finds a match anywhere in a text (search
/// semantics: no implicit anchoring).
pub uninterp spec fn regex_found(pattern: Seq<char>, text: Seq<char>) -> bool;

/// Relies on `regex::Regex::new` and `regex::Regex::is_match`: whether a
/// pattern compiles (under the default size limit), and whether the
/// compiled expression matches anywhere in a text, depend on the two
/// strings alone. `None` stands for the compiler rejecting the pattern.
#[verifier::external_body]
fn regex_search(pattern: &str, text: &str) -> (r: Option<bool>)
    ensures
        r is Some <==> regex_is_valid(pattern@),
        r matches Some(found) ==> found == regex_found(pattern@, text@),
{
    match regex::Regex::new(pattern) {
        Ok(re) => Some(re.is_match(text)),
        Err(_) => None,
    }
}

/// Error of a lookup: a stored pattern that the expression compiler
/// rejects, named so the caller can report the offending rule.
#[derive(Debug)]
pub struct MatchError {
    pub pattern: String,
}

/// Mathematical model of a `Configuration`.
pub ghost struct ConfigModel {
    pub path: Option<Seq<char>>,
    pub dirty: bool,
    pub entries: Seq<EntryModel>,
}

/// The value the ordered entries associate with `key`: the value of the
/// first `Pair` whose pattern matches `key`, `Err` with the pattern of the
/// first `Pair` scanned whose pattern does not compile, and `Ok(None)` when
/// the scan passes every entry. `Flag` entries are never inspected.
pub open spec fn lookup_value(entries: Seq<EntryModel>, key: Seq<char>) -> Result<
    Option<Seq<char>>,
    Seq<char>,
>
    decreases entries.len(),
{
    if entries.len() == 0 {
        Result::Ok(Option::None)
    } else {
        match entries[0] {
            EntryModel::Pair { pattern, value } => {
                if !regex_is_valid(pattern) {
                    Result::Err(pattern)
                } else if regex_found(pattern, key) {
                    Result::Ok(Option::Some(value))
                } else {
                    lookup_value(entries.skip(1), key)
                }
            },
            EntryModel::Flag { .. } => lookup_value(entries.skip(1), key),
        }
    }
}

/// Model of a lookup's result, for stating what `get_value` returns.
pub open spec fn value_result_model(r: Result<Option<String>, MatchError>) -> Result<
    Option<Seq<char>>,
    Seq<char>,
> {
    match r {
        Result::Ok(Option::Some(v)) => Result::Ok(Option::Some(v@)),
        Result::Ok(Option::None) => Result::Ok(Option::None),
        Result::Err(e) => Result::Err(e.pattern@),
    }
}

/// The entries stored in a sequence of raw file lines: empty lines and
/// section dividers carry no entry, every other line parses to one.
pub open spec fn parse_lines(lines: Seq<Seq<char>>) -> Seq<EntryModel>
    decreases lines.len(),
{
    if lines.len() == 0 {
        Seq::empty()
    } else {
        let rest = parse_lines(lines.drop_last());
        if lines.last().len() > 0 && !is_header(lines.last()) {
            rest.push(parse_line(lines.last()))
        } else {
            rest
        }
    }
}

/// The raw lines of the built-in default rule set: one pattern-to-color
/// pair per well-known source extension, plus one capability flag.
pub open spec fn default_lines() -> Seq<Seq<char>> {
    seq![
        ".*.js$=#ffff00"@,
        ".*.java$=#efe232"@,
        "Cargo.toml$=#ffa500"@,
        "Cargo.lock$=#ffa500"@,
        ".*.rs=#ffa500"@,
        "no_permissions"@,
    ]
}

/// The entries of the built-in default rule set.
pub open spec fn default_entries() -> Seq<EntryModel> {
    default_lines().map_values(|l: Seq<char>| parse_line(l))
}

/// The `Pair` entries of `entries`, in their original order.
pub open spec fn pairs_of(entries: Seq<EntryModel>) -> Seq<EntryModel>
    decreases entries.len(),
{
    if entries.len() == 0 {
        Seq::empty()
    } else {
        let rest = pairs_of(entries.drop_last());
        if entries.last() is Pair {
            rest.push(entries.last())
        } else {
            rest
        }
    }
}

/// The `Flag` entries of `entries`, in their original order.
pub open spec fn flags_of(entries: Seq<EntryModel>) -> Seq<EntryModel>
    decreases entries.len(),
{
    if entries.len() == 0 {
        Seq::empty()
    } else {
        let rest = flags_of(entries.drop_last());
        if entries.last() is Flag {
            rest.push(entries.last())
        } else {
            rest
        }
    }
}

/// The rendered lines of a sequence of entries, one line each.
pub open spec fn render_lines(entries: Seq<EntryModel>) -> Seq<Seq<char>> {
    entries.map_values(|e: EntryModel| render_entry(e))
}

/// The raw lines `sync` produces: every `Pair` under a `[colours]`
/// divider, a blank separator, then every `Flag` under a `[flags]`
/// divider. The whole file is rewritten in this fixed shape.
pub open spec fn sync_lines(entries: Seq<EntryModel>) -> Seq<Seq<char>> {
    seq!["[colours]"@] + render_lines(pairs_of(entries)) + seq![""@, "[flags]"@] + render_lines(
        flags_of(entries),
    )
}

/// First match wins: when the entry at `i` is a `Pair` whose pattern
/// compiles and matches `key`, and every earlier `Pair` compiles and does
/// not match, the lookup returns the value stored at `i`. Later entries —
/// however specific their patterns — are never consulted: precedence is
/// insertion order, not specificity.
pub proof fn lemma_first_match_wins(entries: Seq<EntryModel>, key: Seq<char>, i: int)
    requires
        0 <= i < entries.len(),
        entries[i] matches EntryModel::Pair { pattern, .. } && regex_is_valid(pattern)
            && regex_found(pattern, key),
        forall|k: int|
            0 <= k < i ==> ((#[trigger] entries[k]) matches EntryModel::Pair { pattern, .. }
                ==> regex_is_valid(pattern) && !regex_found(pattern, key)),
    ensures
        entries[i] matches EntryModel::Pair { value, .. } && lookup_value(entries, key)
            == Result::<Option<Seq<char>>, Seq<char>>::Ok(Option::Some(value)),
    decreases i,
{
    if i > 0 {
        let rest = entries.skip(1);
        assert(forall|k: int| 0 <= k < rest.len() ==> rest[k] == entries[k + 1]);
        lemma_first_match_wins(rest, key, i - 1);
    }
}

/// The loader treats the lines of concatenated chunks chunk by chunk.
proof fn lemma_parse_lines_concat(a: Seq<Seq<char>>, b: Seq<Seq<char>>)
    ensures
        parse_lines(a + b) == parse_lines(a) + parse_lines(b),
    decreases b.len(),
{
    if b.len() == 0 {
        assert(a + b =~= a);
        assert(parse_lines(b) =~= Seq::<EntryModel>::empty());
        assert(parse_lines(a) + parse_lines(b) =~= parse_lines(a));
    } else {
        lemma_parse_lines_concat(a, b.drop_last());
        assert((a + b).drop_last() =~= a + b.drop_last());
        assert((a + b).last() == b.last());
        if b.last().len() > 0 && !is_header(b.last()) {
            assert(parse_lines(a + b) == (parse_lines(a) + parse_lines(b.drop_last())).push(
                parse_line(b.last()),
            ));
            assert((parse_lines(a) + parse_lines(b.drop_last())).push(parse_line(b.last()))
                =~= parse_lines(a) + parse_lines(b.drop_last()).push(parse_line(b.last())));
        }
    }
}

/// Reparsing the rendered lines of storable entries yields the entries.
proof fn lemma_parse_render_lines(entries: Seq<EntryModel>)
    requires
        forall|i: int| 0 <= i < entries.len() ==> entry_storable(#[trigger] entries[i]),
    ensures
        parse_lines(render_lines(entries)) == entries,
    decreases entries.len(),
{
    if entries.len() == 0 {
        assert(render_lines(entries) =~= Seq::<Seq<char>>::empty());
        assert(parse_lines(render_lines(entries)) =~= entries);
    } else {
        let prefix = entries.drop_last();
        assert(forall|i: int| 0 <= i < prefix.len() ==> prefix[i] == entries[i]);
        lemma_parse_render_lines(prefix);
        lemma_render_parse_identity(entries.last());
        assert(render_lines(entries).drop_last() =~= render_lines(prefix));
        assert(render_lines(entries).last() == render_entry(entries.last()));
        assert(parse_lines(render_lines(entries)) == prefix.push(entries.last()));
        assert(prefix.push(entries.last()) =~= entries);
    }
}

/// Splitting entries into pairs and flags keeps each entry storable.
proof fn lemma_split_storable(entries: Seq<EntryModel>)
    requires
        forall|i: int| 0 <= i < entries.len() ==> entry_storable(#[trigger] entries[i]),
    ensures
        forall|i: int|
            0 <= i < pairs_of(entries).len() ==> entry_storable(
                #[trigger] pairs_of(entries)[i],
            ),
        forall|i: int|
            0 <= i < flags_of(entries).len() ==> entry_storable(
                #[trigger] flags_of(entries)[i],
            ),
    decreases entries.len(),
{
    if entries.len() > 0 {
        let prefix = entries.drop_last();
        assert(forall|i: int| 0 <= i < prefix.len() ==> prefix[i] == entries[i]);
        lemma_split_storable(prefix);
        assert(entry_storable(entries.last()));
        assert forall|i: int| 0 <= i < pairs_of(entries).len() implies entry_storable(
            #[trigger] pairs_of(entries)[i],
        ) by {
            if entries.last() is Pair {
                assert(pairs_of(entries) == pairs_of(prefix).push(entries.last()));
            } else {
                assert(pairs_of(entries) == pairs_of(prefix));
            }
        }
        assert forall|i: int| 0 <= i < flags_of(entries).len() implies entry_storable(
            #[trigger] flags_of(entries)[i],
        ) by {
            if entries.last() is Flag {
                assert(flags_of(entries) == flags_of(prefix).push(entries.last()));
            } else {
                assert(flags_of(entries) == flags_of(prefix));
            }
        }
    }
}

/// Persistence round trip: reparsing the lines that `sync` produces yields
/// exactly the `Pair` entries followed by the `Flag` entries, each group
/// in its original relative order — the two dividers and the blank
/// separator are transparent to the loader. Holds for every configuration
/// whose entries are storable (see `entry_storable`).
pub proof fn lemma_sync_load_round_trip(entries: Seq<EntryModel>)
    requires
        forall|i: int| 0 <= i < entries.len() ==> entry_storable(#[trigger] entries[i]),
    ensures
        parse_lines(sync_lines(entries)) == pairs_of(entries) + flags_of(entries),
{
    let colours_header = seq!["[colours]"@];
    let flags_header = seq![""@, "[flags]"@];
    let pair_lines = render_lines(pairs_of(entries));
    let flag_lines = render_lines(flags_of(entries));
    reveal_strlit("[colours]");
    reveal_strlit("[flags]");
    reveal_strlit("");
    assert(is_header("[colours]"@)) by {
        assert("[colours]"@[0] == '[' && "[colours]"@[8] == ']');
    }
    assert(is_header("[flags]"@)) by {
        assert("[flags]"@[0] == '[' && "[flags]"@[6] == ']');
    }
    assert(parse_lines(Seq::<Seq<char>>::empty()) == Seq::<EntryModel>::empty());
    assert(parse_lines(colours_header) =~= Seq::<EntryModel>::empty()) by {
        assert(colours_header.drop_last() =~= Seq::<Seq<char>>::empty());
        assert(colours_header.last() == "[colours]"@);
        assert(parse_lines(colours_header) == parse_lines(colours_header.drop_last()));
    }
    let blank_only = seq![""@];
    assert(""@.len() == 0);
    assert(parse_lines(blank_only) =~= Seq::<EntryModel>::empty()) by {
        assert(blank_only.drop_last() =~= Seq::<Seq<char>>::empty());
        assert(blank_only.last() == ""@);
        assert(parse_lines(blank_only) == parse_lines(blank_only.drop_last()));
    }
    assert(parse_lines(flags_header) =~= Seq::<EntryModel>::empty()) by {
        assert(flags_header.drop_last() =~= blank_only);
        assert(flags_header.last() == "[flags]"@);
        assert(parse_lines(flags_header) == parse_lines(flags_header.drop_last()));
    }
    lemma_split_storable(entries);
    lemma_parse_render_lines(pairs_of(entries));
    lemma_parse_render_lines(flags_of(entries));
    lemma_parse_lines_concat(colours_header + pair_lines + flags_header, flag_lines);
    lemma_parse_lines_concat(colours_header + pair_lines, flags_header);
    lemma_parse_lines_concat(colours_header, pair_lines);
    assert(parse_lines(sync_lines(entries)) =~= pairs_of(entries) + flags_of(entries));
}

/// Entries grouped pairs-first — the shape of every synced file — come
/// back unchanged from the round trip: splitting them into pairs and
/// flags is the identity.
pub proof fn lemma_sync_load_identity(entries: Seq<EntryModel>)
    requires
        forall|i: int| 0 <= i < entries.len() ==> entry_storable(#[trigger] entries[i]),
        forall|i: int, j: int|
            0 <= i < j < entries.len() && (#[trigger] entries[i]) is Flag ==> (
            #[trigger] entries[j]) is Flag,
    ensures
        parse_lines(sync_lines(entries)) == entries,
{
    lemma_sync_load_round_trip(entries);
    lemma_grouped_partition(entries);
}

/// For entries grouped pairs-first, pairs followed by flags is the
/// original order.
proof fn lemma_grouped_partition(entries: Seq<EntryModel>)
    requires
        forall|i: int, j: int|
            0 <= i < j < entries.len() && (#[trigger] entries[i]) is Flag ==> (
            #[trigger] entries[j]) is Flag,
    ensures
        pairs_of(entries) + flags_of(entries) == entries,
    decreases entries.len(),
{
    if entries.len() == 0 {
        assert(pairs_of(entries) + flags_of(entries) =~= entries);
    } else {
        let prefix = entries.drop_last();
        assert(forall|i: int| 0 <= i < prefix.len() ==> prefix[i] == entries[i]);
        lemma_grouped_partition(prefix);
        if entries.last() is Flag {
            assert(pairs_of(entries) + flags_of(entries) =~= (pairs_of(prefix) + flags_of(
                prefix,
            )).push(entries.last()));
            assert(prefix.push(entries.last()) =~= entries);
        } else {
            lemma_all_pairs_no_flags(prefix);
            assert(flags_of(prefix) =~= Seq::<EntryModel>::empty());
            assert(pairs_of(entries) + flags_of(entries) =~= pairs_of(prefix).push(
                entries.last(),
            ));
            assert(pairs_of(prefix) + flags_of(prefix) =~= pairs_of(prefix));
            assert(pairs_of(prefix).push(entries.last()) =~= prefix.push(entries.last()));
            assert(prefix.push(entries.last()) =~= entries);
        }
    }
}

/// A sequence without `Flag` entries splits to no flags.
proof fn lemma_all_pairs_no_flags(entries: Seq<EntryModel>)
    requires
        forall|i: int| 0 <= i < entries.len() ==> !((#[trigger] entries[i]) is Flag),
    ensures
        flags_of(entries) == Seq::<EntryModel>::empty(),
    decreases entries.len(),
{
    if entries.len() > 0 {
        let prefix = entries.drop_last();
        assert(forall|i: int| 0 <= i < prefix.len() ==> prefix[i] == entries[i]);
        lemma_all_pairs_no_flags(prefix);
    }
}

/// Joins the home directory with the fixed relative location of the rule
/// file. `None` without a home directory: the supported degraded mode in
/// which the store works memory-only and persistence is a no-op.
pub fn resolve_path(home: Option<&str>) -> (path: Option<String>)
    ensures
        match home {
            Option::Some(h) => path matches Option::Some(p) && p@ == h@ + "/.pls/conf"@,
            Option::None => path is None,
        },
{
    match home {
        Option::Some(h) => {
            let mut p = h.to_owned();
            p.append("/.pls/conf");
            Option::Some(p)
        },
        Option::None => Option::None,
    }
}

/// The ordered rule list of one run, with its persistence state.
pub struct Configuration {
    absolute_path: Option<String>,
    dirty: bool,
    entries: Vec<ConfigurationEntry>,
}

impl View for Configuration {
    type V = ConfigModel;

    closed spec fn view(&self) -> ConfigModel {
        ConfigModel {
            path: self.absolute_path.deep_view(),
            dirty: self.dirty,
            entries: self.entries.deep_view(),
        }
    }
}

impl Configuration {
    /// Creates the configuration for one run. `path` is the resolved
    /// location of the rule file (`None` in the degraded memory-only
    /// mode); `file_lines` are the raw lines of the rule file, `None` when
    /// there is no file to read. When there is no file, or the file parses
    /// to no entry at all, the default rule set is installed and marked
    /// for write-back; a file with entries loads clean.
    pub fn new(path: Option<String>, file_lines: Option<&Vec<String>>) -> (config: Self)
        ensures
            config@.path == path.deep_view(),
            ({
                let parsed = match file_lines {
                    Option::Some(lines) => parse_lines(lines.deep_view()),
                    Option::None => Seq::<EntryModel>::empty(),
                };
                if parsed.len() == 0 {
                    config@.entries == default_entries() && config@.dirty
                } else {
                    config@.entries == parsed && !config@.dirty
                }
            }),
    {
        let mut config = Configuration { absolute_path: path, dirty: false, entries: Vec::new() };
        proof {
            assert(config@.entries =~= Seq::<EntryModel>::empty());
        }
        if let Option::Some(lines) = file_lines {
            config.load(lines);
        }
        if config.entries.len() == 0 {
            proof {
                assert(config@.entries.len() == config.entries@.len());
            }
            config.use_default_configuration();
        }
        config
    }

    /// Parses a raw line by the same rule as the loader and appends it,
    /// marking the configuration dirty.
    pub fn add_entry(&mut self, entry: &str)
        ensures
            final(self)@.entries == old(self)@.entries.push(parse_line(entry@)),
            final(self)@.dirty,
            final(self)@.path == old(self)@.path,
    {
        self.entries.push(ConfigurationEntry::new(entry));
        self.dirty = true;
        proof {
            assert(self@.entries =~= old(self)@.entries.push(parse_line(entry@)));
        }
    }

    /// Appends the entries stored in the given raw file lines: empty lines
    /// and section dividers are skipped, every other line parses to one
    /// entry. Loading does not mark the configuration dirty.
    pub fn load(&mut self, lines: &Vec<String>)
        ensures
            final(self)@.entries == old(self)@.entries + parse_lines(lines.deep_view()),
            final(self)@.dirty == old(self)@.dirty,
            final(self)@.path == old(self)@.path,
    {
        let mut i: usize = 0;
        while i < lines.len()
            invariant
                i <= lines.len(),
                self@.entries == old(self)@.entries + parse_lines(lines.deep_view().take(i as int)),
                self@.dirty == old(self)@.dirty,
                self@.path == old(self)@.path,
            decreases lines.len() - i,
        {
            let ghost prefix = lines.deep_view().take(i as int);
            let ghost prefix_next = lines.deep_view().take(i as int + 1);
            proof {
                assert(prefix_next.drop_last() =~= prefix);
                assert(prefix_next.last() == lines.deep_view()[i as int]);
                assert(lines.deep_view()[i as int] == lines@[i as int]@);
            }
            let line = &lines[i];
            if line.as_str().unicode_len() > 0 && !is_section_header(line.as_str()) {
                let new_entry = ConfigurationEntry::new(line.as_str());
                proof {
                    assert(line@ == lines@[i as int]@);
                    assert(new_entry@ == parse_line(prefix_next.last()));
                    assert(parse_lines(prefix_next) == parse_lines(prefix).push(
                        parse_line(prefix_next.last()),
                    ));
                }
                let ghost before = self@.entries;
                self.entries.push(new_entry);
                proof {
                    assert(self@.entries =~= before.push(new_entry@));
                    assert(self@.entries =~= old(self)@.entries + parse_lines(prefix_next));
                }
            } else {
                proof {
                    assert(parse_lines(prefix_next) == parse_lines(prefix));
                }
            }
            i += 1;
        }
        proof {
            assert(lines.deep_view().take(lines.len() as int) =~= lines.deep_view());
        }
    }

    /// Installs the built-in default rule set and marks it for
    /// write-back.
    pub fn use_default_configuration(&mut self)
        ensures
            final(self)@.entries == old(self)@.entries + default_entries(),
            final(self)@.dirty,
            final(self)@.path == old(self)@.path,
    {
        self.add_entry(".*.js$=#ffff00");
        self.add_entry(".*.java$=#efe232");
        self.add_entry("Cargo.toml$=#ffa500");
        self.add_entry("Cargo.lock$=#ffa500");
        self.add_entry(".*.rs=#ffa500");
        self.add_entry("no_permissions");
        proof {
            assert(self@.entries =~= old(self)@.entries + default_entries());
        }
    }

    /// Scans the entries in insertion order and returns the value of the
    /// first `Pair` whose pattern matches `key` anywhere in it; `Flag`
    /// entries are never inspected. A stored pattern that does not compile
    /// stops the scan with a `MatchError` naming it; when no pattern
    /// matches at all the result is `Ok(None)`.
    pub fn get_value(&self, key: &str) -> (r: Result<Option<String>, MatchError>)
        ensures
            value_result_model(r) == lookup_value(self@.entries, key@),
    {
        let ghost es = self@.entries;
        let mut idx: usize = 0;
        proof {
            assert(es.skip(0) =~= es);
        }
        while idx < self.entries.len()
            invariant
                idx <= self.entries.len(),
                es == self@.entries,
                es.len() == self.entries.len(),
                lookup_value(es.skip(idx as int), key@) == lookup_value(es, key@),
            decreases self.entries.len() - idx,
        {
            proof {
                assert(es.skip(idx as int)[0] == es[idx as int]);
                assert(es.skip(idx as int).skip(1) =~= es.skip(idx as int + 1));
                assert(es[idx as int] == self.entries@[idx as int]@);
            }
            match &self.entries[idx] {
                ConfigurationEntry::Pair(pattern, value) => {
                    match regex_search(pattern.as_str(), key) {
                        Option::None => {
                            return Result::Err(MatchError { pattern: pattern.clone() });
                        },
                        Option::Some(true) => {
                            return Result::Ok(Option::Some(value.clone()));
                        },
                        Option::Some(false) => {},
                    }
                },
                ConfigurationEntry::Flag(_) => {},
            }
            idx += 1;
        }
        proof {
            assert(es.skip(es.len() as int) =~= Seq::<EntryModel>::empty());
        }
        Result::Ok(Option::None)
    }

    /// Produces the raw lines that persist the entries: the whole file is
    /// rewritten as the pairs under a `[colours]` divider, a blank
    /// separator, then the flags under a `[flags]` divider.
    pub fn sync(&self) -> (lines: Vec<String>)
        ensures
            lines.deep_view() == sync_lines(self@.entries),
    {
        let ghost es = self@.entries;
        let mut lines: Vec<String> = Vec::new();
        lines.push("[colours]".to_owned());
        proof {
            assert(es.take(0) =~= Seq::<EntryModel>::empty());
            assert(lines.deep_view() =~= seq!["[colours]"@] + render_lines(
                pairs_of(es.take(0)),
            ));
        }
        let mut i: usize = 0;
        while i < self.entries.len()
            invariant
                i <= self.entries.len(),
                es == self@.entries,
                es.len() == self.entries.len(),
                lines.deep_view() == seq!["[colours]"@] + render_lines(pairs_of(es.take(i as int))),
            decreases self.entries.len() - i,
        {
            proof {
                assert(es.take(i as int + 1).drop_last() =~= es.take(i as int));
                assert(es.take(i as int + 1).last() == es[i as int]);
                assert(es[i as int] == self.entries@[i as int]@);
            }
            let e = &self.entries[i];
            if e.is_pair() {
                let rendered = e.to_line();
                let ghost before = lines.deep_view();
                lines.push(rendered);
                proof {
                    assert(lines.deep_view() =~= before.push(render_entry(es[i as int])));
                    assert(render_lines(pairs_of(es.take(i as int + 1))) =~= render_lines(
                        pairs_of(es.take(i as int)),
                    ).push(render_entry(es[i as int])));
                }
            }
            i += 1;
        }
        proof {
            assert(es.take(es.len() as int) =~= es);
        }
        lines.push("".to_owned());
        lines.push("[flags]".to_owned());
        proof {
            assert(lines.deep_view() =~= seq!["[colours]"@] + render_lines(pairs_of(es)) + seq![
                ""@,
                "[flags]"@,
            ] + render_lines(flags_of(es.take(0))));
        }
        let ghost base = lines.deep_view();
        let mut i: usize = 0;
        while i < self.entries.len()
            invariant
                i <= self.entries.len(),
                es == self@.entries,
                es.len() == self.entries.len(),
                base == seq!["[colours]"@] + render_lines(pairs_of(es)) + seq![""@, "[flags]"@],
                lines.deep_view() == base + render_lines(flags_of(es.take(i as int))),
            decreases self.entries.len() - i,
        {
            proof {
                assert(es.take(i as int + 1).drop_last() =~= es.take(i as int));
                assert(es.take(i as int + 1).last() == es[i as int]);
                assert(es[i as int] == self.entries@[i as int]@);
            }
            let e = &self.entries[i];
            if !e.is_pair() {
                let rendered = e.to_line();
                let ghost before = lines.deep_view();
                lines.push(rendered);
                proof {
                    assert(lines.deep_view() =~= before.push(render_entry(es[i as int])));
                    assert(render_lines(flags_of(es.take(i as int + 1))) =~= render_lines(
                        flags_of(es.take(i as int)),
                    ).push(render_entry(es[i as int])));
                }
            }
            i += 1;
        }
        proof {
            assert(es.take(es.len() as int) =~= es);
            assert(lines.deep_view() =~= sync_lines(es));
        }
        lines
    }

    /// Decides teardown persistence: the raw lines to write back when the
    /// entries diverged from the file and a file location is present,
    /// `None` when nothing must be written (a clean run, or the degraded
    /// memory-only mode).
    pub fn finalize(&self) -> (r: Option<Vec<String>>)
        ensures
            r is Some <==> (self@.dirty && self@.path is Some),
            r matches Option::Some(lines) ==> lines.deep_view() == sync_lines(self@.entries),
    {
        if self.dirty && self.absolute_path.is_some() {
            Option::Some(self.sync())
        } else {
            Option::None
        }
    }

    /// The entries, in insertion order.
    pub fn entries(&self) -> (entries: &Vec<ConfigurationEntry>)
        ensures
            entries.deep_view() == self@.entries,
    {
        &self.entries
    }

    /// Whether the entries diverged from what the rule file holds.
    pub fn dirty(&self) -> (dirty: bool)
        ensures
            dirty == self@.dirty,
    {
        self.dirty
    }

    /// The resolved location of the rule file, absent in the memory-only
    /// degraded mode.
    pub fn path(&self) -> (path: &Option<String>)
        ensures
            path.deep_view() == self@.path,
    {
        &self.absolute_path
    }
}

} // verus!

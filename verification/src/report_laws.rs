//! What is read of the reports of the sound server, stated of the calls themselves: a report as it is
//! written, and the profiles that come out of it.
use vstd::prelude::*;

use crate::agent_laws;
use crate::audio;
use crate::audio::{AudioProfile, CardScan};
use crate::laws;
use crate::text;

verus! {

// ---------------------------------------------------------------------------------------------
// Reports
// ---------------------------------------------------------------------------------------------

/// A profile as a report writes it: behind an indent its name, a colon and a space, its description,
/// and perhaps the figures of its sinks and sources.
pub struct Entry {
    pub indent: Seq<char>,
    pub name: Seq<char>,
    pub description: Seq<char>,
    pub figures: Option<Seq<char>>,
}

/// What a report has behind the description of a profile.
pub open spec fn figures_text(entry: Entry) -> Seq<char> {
    match entry.figures {
        Some(figures) => " (sinks:"@ + figures,
        None => Seq::empty(),
    }
}

/// The line that a report has for a profile.
pub open spec fn entry_line(entry: Entry) -> Seq<char> {
    entry.indent + (entry.name + (": "@ + (entry.description + figures_text(entry))))
}

/// White space.
pub open spec fn is_blank(c: char) -> bool {
    ||| '\u{9}' <= c <= '\u{d}'
    ||| c == '\u{20}' || c == '\u{85}' || c == '\u{a0}' || c == '\u{1680}'
    ||| '\u{2000}' <= c <= '\u{200a}'
    ||| c == '\u{2028}' || c == '\u{2029}' || c == '\u{202f}' || c == '\u{205f}' || c == '\u{3000}'
}

/// The text is white space.
pub open spec fn all_blank(s: Seq<char>) -> bool {
    forall|i: int| 0 <= i < s.len() ==> is_blank(#[trigger] s[i])
}

/// The text has no white space at its ends.
pub open spec fn is_tight(s: Seq<char>) -> bool {
    s.len() > 0 ==> !is_blank(s[0]) && !is_blank(s.last())
}

/// `part` stands somewhere in `whole`.
pub open spec fn contains(whole: Seq<char>, part: Seq<char>) -> bool {
    exists|at: int|
        0 <= at <= whole.len() - part.len() && #[trigger] whole.subrange(at, at + part.len()) == part
}

/// The line is indented, by a tab or by two spaces.
pub open spec fn is_indented(line: Seq<char>) -> bool {
    (line.len() >= 1 && line[0] == '\t') || (line.len() >= 2 && line[0] == ' ' && line[1] == ' ')
}

/// The entry is written so that it can be read: its indent is a tab or two spaces, and more white
/// space perhaps, its name does not hold what ends it, and its description neither.
pub open spec fn is_readable(entry: Entry) -> bool {
    &&& is_indented(entry.indent) && all_blank(entry.indent)
    &&& entry.name.len() > 0 && is_tight(entry.name) && !contains(entry.name, ": "@)
    &&& is_tight(entry.description) && !contains(entry.description, " (sinks:"@)
    &&& match entry.figures {
        Some(figures) => figures.len() > 0 && is_tight(figures),
        None => entry.description.len() > 0,
    }
}

/// The line is that of the entry; without one it is blank, or indented without anything that ends a
/// name.
pub open spec fn fits_line(item: Option<Entry>, line: Seq<char>) -> bool {
    match item {
        Some(entry) => is_readable(entry) && line == entry_line(entry),
        None => all_blank(line) || (is_indented(line) && !contains(line, ": "@)),
    }
}

/// The entries that are offered: all but those named "off", in their order.
pub open spec fn offered(items: Seq<Option<Entry>>) -> Seq<Entry>
    decreases items.len(),
{
    if items.len() == 0 {
        Seq::empty()
    } else {
        let before = offered(items.drop_last());
        match items.last() {
            Some(entry) => if entry.name == "off"@ {
                before
            } else {
                before.push(entry)
            },
            None => before,
        }
    }
}

/// The text of lines, each with a line feed behind it.
pub open spec fn as_text(lines: Seq<Seq<char>>) -> Seq<char>
    decreases lines.len(),
{
    if lines.len() == 0 {
        Seq::empty()
    } else {
        as_text(lines.drop_last()) + lines.last().push('\n')
    }
}

/// A line holds no line feed, and no carriage return at its end.
pub open spec fn is_line(line: Seq<char>) -> bool {
    &&& forall|i: int| 0 <= i < line.len() ==> #[trigger] line[i] != '\n'
    &&& line.len() > 0 ==> line.last() != '\r'
}

/// The line tells the name of the card.
pub open spec fn tells_name(line: Seq<char>, card: Seq<char>) -> bool {
    contains(line, "Name:"@) && contains(line, card)
}

/// The report of the sound server lists the profiles of the card: the line `name` tells its name, the
/// line `section` announces its profiles, and the lines behind that are theirs. What stands before
/// does not matter.
#[verifier::opaque]
pub open spec fn lists_profiles(
    lines: Seq<Seq<char>>,
    card: Seq<char>,
    name: int,
    section: int,
    items: Seq<Option<Entry>>,
) -> bool {
    let end = section + 1 + items.len();
    &&& 0 <= name < section && end <= lines.len()
    &&& forall|i: int| 0 <= i < lines.len() ==> is_line(#[trigger] lines[i])
    &&& lines[name] == "\tName: "@ + card
    &&& lines[section] == "\tProfiles:"@
    &&& forall|i: int| 0 <= i < end && i != name ==> !tells_name(#[trigger] lines[i], card)
    &&& forall|i: int|
        name < i < section ==> !contains(#[trigger] lines[i], "Card #"@) && !contains(
            lines[i],
            "Profiles:"@,
        )
    &&& forall|i: int| name < i < end ==> !contains(#[trigger] lines[i], "Active Profile:"@)
    &&& forall|k: int| 0 <= k < items.len() ==> fits_line(#[trigger] items[k], lines[section + 1 + k])
}

/// The line is neither blank nor indented, which ends the profiles.
pub open spec fn ends_profiles(line: Seq<char>) -> bool {
    !is_indented(line) && !all_blank(line)
}

/// The line holds nothing that is looked for.
pub open spec fn is_other_line(line: Seq<char>, card: Seq<char>) -> bool {
    &&& !tells_name(line, card)
    &&& !contains(line, "Card #"@)
    &&& !contains(line, "Profiles:"@)
    &&& !contains(line, "Active Profile:"@)
}

/// Behind the profiles the line `at` gives the name of the active one, with other lines between
/// perhaps. What stands behind that does not matter.
pub open spec fn gives_active_name(
    lines: Seq<Seq<char>>,
    card: Seq<char>,
    end: int,
    at: int,
    active: Seq<char>,
) -> bool {
    &&& end <= at < lines.len()
    &&& end < at ==> ends_profiles(lines[end])
    &&& forall|i: int| end <= i < at ==> is_other_line(#[trigger] lines[i], card)
    &&& lines[at] == "\tActive Profile: "@ + active && !tells_name(lines[at], card)
    &&& active.len() > 0 && is_tight(active)
}

/// The line begins the part of another card.
pub open spec fn begins_card(line: Seq<char>) -> bool {
    line.len() >= 6 && line.subrange(0, 6) == "Card #"@
}

/// Behind the profiles the report ends, or another card follows, and the name of the card is not told
/// again.
pub open spec fn gives_no_active_name(lines: Seq<Seq<char>>, card: Seq<char>, end: int) -> bool {
    &&& end == lines.len() || (end < lines.len() && begins_card(lines[end]))
    &&& forall|i: int| end <= i < lines.len() ==> !tells_name(#[trigger] lines[i], card)
}

/// A profile is what its entry says, and active if it bears the active name.
pub open spec fn is_read_from(
    profile: AudioProfile,
    entry: Entry,
    active: Option<Seq<char>>,
) -> bool {
    &&& profile.name@ == entry.name
    &&& profile.description@ == entry.description
    &&& profile.active == (active == Some(entry.name))
}

/// The outcome holds a profile for each of the entries, in their order; none is an error.
pub open spec fn are_read_from(
    outcome: Result<Vec<AudioProfile>, String>,
    entries: Seq<Entry>,
    active: Option<Seq<char>>,
) -> bool {
    match outcome {
        Ok(list) => {
            &&& entries.len() > 0 && list@.len() == entries.len()
            &&& forall|i: int|
                0 <= i < list@.len() ==> is_read_from(#[trigger] list@[i], entries[i], active)
        },
        Err(message) => entries.len() == 0 && message@ == "No audio profiles found"@,
    }
}

/// What a report writes is what is read: for each entry of the card but "off", in their order, a
/// profile with exactly its name and its description, character by character, marked as active if and
/// only if the report says so of its name. Where nothing is offered that is an error.
pub proof fn law_written_profiles_are_read(
    report: &str,
    card: &str,
    outcome: Result<Vec<AudioProfile>, String>,
    lines: Seq<Seq<char>>,
    name: int,
    section: int,
    items: Seq<Option<Entry>>,
    at: int,
    active: Seq<char>,
)
    requires
        call_ensures(audio::parse_card_profiles, (report, card), outcome),
        report@ == as_text(lines),
        lists_profiles(lines, card@, name, section, items),
        gives_active_name(lines, card@, section + 1 + items.len(), at, active),
    ensures
        are_read_from(outcome, offered(items), Some(active)),
{
    lemma_found(lines, card@, name, section, items);
    lemma_active_read(lines, card@, section, items, at, active);
    lemma_outcome(report, card, outcome, lines, items, Some(active));
}

/// A report that does not say which profile is active is read in the same way, with none marked, and
/// what it says of other cards does not count.
pub proof fn law_profiles_without_an_active_one(
    report: &str,
    card: &str,
    outcome: Result<Vec<AudioProfile>, String>,
    lines: Seq<Seq<char>>,
    name: int,
    section: int,
    items: Seq<Option<Entry>>,
)
    requires
        call_ensures(audio::parse_card_profiles, (report, card), outcome),
        report@ == as_text(lines),
        lists_profiles(lines, card@, name, section, items),
        gives_no_active_name(lines, card@, section + 1 + items.len()),
    ensures
        are_read_from(outcome, offered(items), None),
{
    lemma_found(lines, card@, name, section, items);
    lemma_no_active_read(lines, card@, section, items);
    lemma_outcome(report, card, outcome, lines, items, None);
}

/// A card that no line of the report tells the name of has no profiles to offer.
pub proof fn law_unknown_card(
    report: &str,
    card: &str,
    outcome: Result<Vec<AudioProfile>, String>,
    lines: Seq<Seq<char>>,
)
    requires
        call_ensures(audio::parse_card_profiles, (report, card), outcome),
        report@ == as_text(lines),
        forall|i: int|
            0 <= i < lines.len() ==> is_line(#[trigger] lines[i]) && !tells_name(lines[i], card@),
    ensures
        outcome matches Err(message) && message@ == "No audio profiles found"@,
{
    lemma_lines_of_text(lines);
    assert forall|i: int| 0 <= i < lines.len() implies !laws::names_card(
        #[trigger] lines[i],
        card@,
    ) by {
        lemma_tells_name(lines[i], card@);
    }
    laws::law_absent_card_has_no_profiles(report@, card@);
}

// ---------------------------------------------------------------------------------------------
// Texts
// ---------------------------------------------------------------------------------------------

/// Lines that are put together to a text are the lines of that text.
proof fn lemma_lines_of_text(lines: Seq<Seq<char>>)
    requires
        forall|i: int| 0 <= i < lines.len() ==> is_line(#[trigger] lines[i]),
    ensures
        text::lines(as_text(lines)) == lines,
        as_text(lines).len() > 0 ==> as_text(lines).last() == '\n',
    decreases lines.len(),
{
    if lines.len() == 0 {
        assert(text::lines(as_text(lines)) =~= lines);
    } else {
        let before = lines.drop_last();
        assert forall|i: int| 0 <= i < before.len() implies is_line(#[trigger] before[i]) by {
            assert(before[i] == lines[i]);
        }
        lemma_lines_of_text(before);
        agent_laws::lemma_ended_line(lines.last());
        text::lemma_lines_joined(as_text(before), lines.last().push('\n'));
        assert(before + seq![lines.last()] =~= lines);
    }
}

/// To stand somewhere in a text is to be found there.
proof fn lemma_contains(whole: Seq<char>, part: Seq<char>)
    ensures
        contains(whole, part) == text::has_text(whole, part),
{
    if contains(whole, part) {
        let at = choose|at: int|
            0 <= at <= whole.len() - part.len() && #[trigger] whole.subrange(at, at + part.len())
                == part;
        assert(text::occurs_at(whole, part, at));
    }
    if text::has_text(whole, part) {
        let at = choose|at: int| text::occurs_at(whole, part, at);
        assert(whole.subrange(at, at + part.len()) == part);
    }
}

/// The lines that tell the name of a card are those that name it.
proof fn lemma_tells_name(line: Seq<char>, card: Seq<char>)
    ensures
        tells_name(line, card) == laws::names_card(line, card),
{
    lemma_contains(line, "Name:"@);
    lemma_contains(line, card);
}

/// A text between white space is what is left of it without that.
proof fn lemma_trimmed(indent: Seq<char>, core: Seq<char>)
    requires
        forall|i: int| 0 <= i < indent.len() ==> is_blank(#[trigger] indent[i]),
        is_tight(core),
    ensures
        text::trimmed(indent + core) == core,
    decreases indent.len(),
{
    let whole = indent + core;
    if indent.len() == 0 {
        assert(whole =~= core);
    } else {
        let rest = indent.drop_first();
        assert forall|i: int| 0 <= i < rest.len() implies is_blank(#[trigger] rest[i]) by {
            assert(rest[i] == indent[i + 1]);
        }
        lemma_trimmed(rest, core);
        assert(whole[0] == indent[0]);
        assert(is_blank(indent[0]));
        assert(whole.subrange(1, whole.len() as int) =~= rest + core);
    }
}

/// What is left of a text without the white space around it stands in that text.
proof fn lemma_trimmed_part(s: Seq<char>) -> (from: int)
    ensures
        0 <= from <= s.len() - text::trimmed(s).len(),
        s.subrange(from, from + text::trimmed(s).len()) == text::trimmed(s),
    decreases s.len(),
{
    if s.len() > 0 && text::is_space(s[0]) {
        let rest = s.subrange(1, s.len() as int);
        let from = lemma_trimmed_part(rest);
        let n = text::trimmed(rest).len();
        assert(s.subrange(from + 1, from + 1 + n) =~= rest.subrange(from, from + n));
        from + 1
    } else {
        lemma_trimmed_end_part(s);
        0
    }
}

/// What is left of a text without the white space at its end begins it.
proof fn lemma_trimmed_end_part(s: Seq<char>)
    ensures
        text::trimmed_end(s).len() <= s.len(),
        s.subrange(0, text::trimmed_end(s).len() as int) == text::trimmed_end(s),
    decreases s.len(),
{
    if s.len() > 0 && text::is_space(s.last()) {
        lemma_trimmed_end_part(s.drop_last());
        let n = text::trimmed_end(s).len() as int;
        assert(s.subrange(0, n) =~= s.drop_last().subrange(0, n));
    } else {
        assert(s.subrange(0, s.len() as int) =~= s);
    }
}

/// A line whose core holds a text at its beginning holds that text.
proof fn lemma_core_contains(line: Seq<char>, part: Seq<char>)
    requires
        text::has_prefix(text::trimmed(line), part),
    ensures
        contains(line, part),
{
    let from = lemma_trimmed_part(line);
    let core = text::trimmed(line);
    let n = part.len() as int;
    assert(line.subrange(from, from + n) =~= core.subrange(0, n)) by {
        assert forall|i: int| 0 <= i < n implies line[from + i] == #[trigger] core[i] by {
            assert(line.subrange(from, from + core.len())[i] == line[from + i]);
        }
    }
}

/// A text is white space if and only if nothing is left of it without that.
proof fn lemma_all_blank(s: Seq<char>)
    ensures
        all_blank(s) <==> text::trimmed(s).len() == 0,
{
    if all_blank(s) {
        lemma_trimmed(s, Seq::empty());
        assert(s + Seq::<char>::empty() =~= s);
    }
    if text::trimmed(s).len() == 0 {
        lemma_core(s);
        let core = text::trimmed(s);
        let (lead, trail) = choose|lead: Seq<char>, trail: Seq<char>|
            s == #[trigger] (lead + core + trail) && all_blank(lead) && all_blank(trail);
        assert forall|i: int| 0 <= i < s.len() implies is_blank(#[trigger] s[i]) by {
            if i < lead.len() {
                assert(s[i] == lead[i]);
            } else {
                assert(s[i] == trail[i - lead.len()]);
            }
        }
    }
}

/// A line is indented if and only if it begins with a tab or with two spaces.
proof fn lemma_is_indented(line: Seq<char>)
    ensures
        is_indented(line) == audio::indented(line),
{
    reveal_strlit("\t");
    reveal_strlit("  ");
    if is_indented(line) {
        if line[0] == '\t' {
            assert(line.subrange(0, 1) =~= "\t"@);
        } else {
            assert(line.subrange(0, 2) =~= "  "@);
        }
    }
    if text::has_prefix(line, "\t"@) {
        assert(line.subrange(0, 1)[0] == line[0]);
    }
    if text::has_prefix(line, "  "@) {
        assert(line.subrange(0, 2)[0] == line[0]);
        assert(line.subrange(0, 2)[1] == line[1]);
    }
}

/// `core` is what is left of `whole` without the white space around it.
pub open spec fn is_core_of(core: Seq<char>, whole: Seq<char>) -> bool {
    is_tight(core) && exists|lead: Seq<char>, trail: Seq<char>|
        whole == #[trigger] (lead + core + trail) && all_blank(lead) && all_blank(trail)
}

/// A text without the white space around it is its core.
pub proof fn lemma_core(s: Seq<char>)
    ensures
        is_core_of(text::trimmed(s), s),
    decreases s.len(),
{
    if s.len() > 0 && text::is_space(s[0]) {
        let rest = s.subrange(1, s.len() as int);
        lemma_core(rest);
        let core = text::trimmed(rest);
        let (lead, trail) = choose|lead: Seq<char>, trail: Seq<char>|
            rest == #[trigger] (lead + core + trail) && all_blank(lead) && all_blank(trail);
        assert(rest == lead + core + trail);
        let longer = seq![s[0]] + lead;
        assert(s =~= seq![s[0]] + rest);
        assert(s =~= longer + core + trail);
        assert(all_blank(longer)) by {
            assert forall|i: int| 0 <= i < longer.len() implies is_blank(#[trigger] longer[i]) by {
                if i > 0 {
                    assert(longer[i] == lead[i - 1]);
                }
            }
        }
    } else {
        lemma_core_end(s);
    }
}

/// A text that begins without white space, without the white space it ends with.
proof fn lemma_core_end(s: Seq<char>)
    requires
        s.len() > 0 ==> !text::is_space(s[0]),
    ensures
        is_core_of(text::trimmed_end(s), s),
        text::trimmed_end(s).len() > 0 ==> text::trimmed_end(s)[0] == s[0],
    decreases s.len(),
{
    if s.len() > 0 && text::is_space(s.last()) {
        let shorter = s.drop_last();
        lemma_core_end(shorter);
        let core = text::trimmed_end(shorter);
        let (lead, trail) = choose|lead: Seq<char>, trail: Seq<char>|
            shorter == #[trigger] (lead + core + trail) && all_blank(lead) && all_blank(trail);
        assert(shorter == lead + core + trail);
        let longer = trail.push(s.last());
        assert(s =~= shorter.push(s.last()));
        assert(s =~= lead + core + longer);
        assert(all_blank(longer)) by {
            assert forall|i: int| 0 <= i < longer.len() implies is_blank(#[trigger] longer[i]) by {
                if i < trail.len() {
                    assert(longer[i] == trail[i]);
                }
            }
        }
    } else {
        let nothing = Seq::<char>::empty();
        assert(s =~= nothing + s + nothing);
    }
}

// ---------------------------------------------------------------------------------------------
// Lines
// ---------------------------------------------------------------------------------------------

/// The description ends where the figures begin, or with the line.
#[verifier::rlimit(40)]
proof fn lemma_description_is_read(entry: Entry)
    requires
        is_readable(entry),
    ensures
        text::cut_before(entry.description + figures_text(entry), " (sinks:"@) == entry.description,
{
    reveal_strlit(" (sinks:");
    let rest = entry.description + figures_text(entry);
    let end = entry.description.len() as int;
    if entry.figures is None {
        assert(rest =~= entry.description);
        lemma_contains(entry.description, " (sinks:"@);
    } else {
        assert(rest.subrange(end, end + 8) =~= " (sinks:"@);
        assert forall|other: int| 0 <= other < end implies !text::occurs_at(
            rest,
            " (sinks:"@,
            other,
        ) by {
            if text::occurs_at(rest, " (sinks:"@, other) {
                let found = rest.subrange(other, other + 8);
                if other + 8 <= end {
                    assert(entry.description.subrange(other, other + 8) =~= found);
                    assert(contains(entry.description, " (sinks:"@));
                } else {
                    assert(found[end - other] == rest[end]);
                    assert(rest[end] == ' ');
                    assert(" (sinks:"@[end - other] != ' ');
                }
            }
        }
        assert(text::first_at(rest, " (sinks:"@, end));
        text::lemma_split_at(rest, " (sinks:"@, end);
        assert(rest.subrange(0, end) =~= entry.description);
    }
}

/// The name and the description that are written into a line are those that are read of it.
#[verifier::rlimit(40)]
proof fn lemma_entry_is_read(entry: Entry)
    requires
        is_readable(entry),
    ensures
        audio::listed_profile(entry_line(entry)) == if entry.name == "off"@ {
            None
        } else {
            Some((entry.name, entry.description))
        },
{
    reveal_strlit(": ");
    reveal_strlit(" (sinks:");
    let rest = entry.description + figures_text(entry);
    let core = entry.name + (": "@ + rest);
    assert(core[0] == entry.name[0]);
    match entry.figures {
        Some(figures) => assert(core.last() == figures.last()),
        None => assert(core.last() == entry.description.last()),
    }
    lemma_trimmed(entry.indent, core);
    let at = entry.name.len() as int;
    assert(text::first_at(core, ": "@, at)) by {
        assert(core.subrange(at, at + 2) =~= ": "@);
        assert forall|other: int| 0 <= other < at implies !text::occurs_at(core, ": "@, other) by {
            if text::occurs_at(core, ": "@, other) {
                assert(core.subrange(other, other + 2)[0] == core[other]);
                assert(core.subrange(other, other + 2)[1] == core[other + 1]);
                if other + 1 < at {
                    assert(entry.name.subrange(other, other + 2) =~= ": "@);
                    assert(contains(entry.name, ": "@));
                }
            }
        }
    }
    text::lemma_split_at(core, ": "@, at);
    assert(core.subrange(0, at) =~= entry.name);
    assert(core.subrange(at + 2, core.len() as int) =~= rest);
    lemma_description_is_read(entry);
    lemma_trimmed(Seq::empty(), entry.description);
    assert(Seq::<char>::empty() + entry.description =~= entry.description);
}

/// A line is read as the item that it fits.
proof fn lemma_item_is_read(item: Option<Entry>, line: Seq<char>)
    requires
        fits_line(item, line),
    ensures
        audio::listed_profile(line) == match item {
            Some(entry) => if entry.name == "off"@ {
                None
            } else {
                Some((entry.name, entry.description))
            },
            None => None,
        },
{
    match item {
        Some(entry) => lemma_entry_is_read(entry),
        None => {
            reveal_strlit(": ");
            let core = text::trimmed(line);
            if all_blank(line) {
                lemma_all_blank(line);
            } else if text::has_text(core, ": "@) {
                let at = choose|at: int| text::occurs_at(core, ": "@, at);
                let from = lemma_trimmed_part(line);
                let inner = line.subrange(from, from + core.len());
                assert(core.subrange(at, at + 2)[0] == core[at]);
                assert(core.subrange(at, at + 2)[1] == core[at + 1]);
                assert(inner[at] == line[from + at] && inner[at + 1] == line[from + at + 1]);
                let n = ": "@.len() as int;
                assert(line.subrange(from + at, from + at + n) =~= ": "@);
                assert(contains(line, ": "@));
            }
            if core.len() == 0 {
                assert forall|at: int| !text::occurs_at(core, ": "@, at) by {}
            }
        },
    }
}

/// The lines of a section are read item by item.
proof fn lemma_section(section: Seq<Seq<char>>, items: Seq<Option<Entry>>)
    requires
        section.len() == items.len(),
        forall|k: int| 0 <= k < items.len() ==> fits_line(#[trigger] items[k], section[k]),
    ensures
        laws::profiles_listed(section).len() == offered(items).len(),
        forall|k: int|
            0 <= k < offered(items).len() ==> #[trigger] laws::profiles_listed(section)[k] == (
                offered(items)[k].name,
                offered(items)[k].description,
            ),
        forall|k: int| 0 <= k < offered(items).len() ==> (#[trigger] offered(items)[k]).name.len() > 0,
    decreases items.len(),
{
    if items.len() > 0 {
        let lines = section.drop_last();
        let rest = items.drop_last();
        assert forall|k: int| 0 <= k < rest.len() implies fits_line(#[trigger] rest[k], lines[k]) by {
            assert(rest[k] == items[k]);
            assert(lines[k] == section[k]);
        }
        lemma_section(lines, rest);
        let last = items.len() - 1;
        assert(fits_line(items[last], section[last]));
        lemma_item_is_read(items.last(), section.last());
        let before = laws::profiles_listed(lines);
        assert forall|k: int| 0 <= k < offered(items).len() implies #[trigger] laws::profiles_listed(
            section,
        )[k] == (offered(items)[k].name, offered(items)[k].description) by {
            if k < before.len() {
                assert(before[k] == (offered(rest)[k].name, offered(rest)[k].description));
            }
        }
        assert forall|k: int| 0 <= k < offered(items).len() implies (
        #[trigger] offered(items)[k]).name.len() > 0 by {
            if k < before.len() {
                assert(offered(items)[k] == offered(rest)[k]);
            }
        }
    }
}

/// The name in the line of the active profile is what is read of it.
proof fn lemma_active_line(active: Seq<char>)
    requires
        active.len() > 0,
        is_tight(active),
    ensures
        laws::gives_active("\tActive Profile: "@ + active),
        laws::active_name("\tActive Profile: "@ + active) == active,
{
    reveal_strlit("\tActive Profile: ");
    reveal_strlit("Active Profile:");
    let label = "Active Profile:"@;
    let space = seq![' '];
    let core = label + (space + active);
    assert("\tActive Profile: "@ + active =~= seq!['\t'] + core);
    assert(core[0] == 'A' && core.last() == active.last());
    lemma_trimmed(seq!['\t'], core);
    assert(core.subrange(0, label.len() as int) =~= label);
    assert(core.subrange(label.len() as int, core.len() as int) =~= space + active);
    lemma_trimmed(space, active);
}

/// The line with the name of a card tells it.
proof fn lemma_name_line(card: Seq<char>)
    ensures
        tells_name("\tName: "@ + card, card),
{
    reveal_strlit("\tName: ");
    reveal_strlit("Name:");
    let line = "\tName: "@ + card;
    assert(line.subrange(1, 1int + "Name:"@.len()) =~= "Name:"@);
    assert(line.subrange(7, 7int + card.len()) =~= card);
}

/// The line that announces the profiles is recognized.
proof fn lemma_section_line()
    ensures
        text::trimmed("\tProfiles:"@) == "Profiles:"@,
        !text::has_prefix("\tProfiles:"@, "Card #"@),
{
    reveal_strlit("\tProfiles:");
    reveal_strlit("Profiles:");
    reveal_strlit("Card #");
    assert("\tProfiles:"@ =~= seq!['\t'] + "Profiles:"@);
    lemma_trimmed(seq!['\t'], "Profiles:"@);
    lemma_not_a_card("\tProfiles:"@);
}

/// A line that begins with white space, and one without characters, begins no card.
proof fn lemma_not_a_card(line: Seq<char>)
    requires
        line.len() > 0 ==> is_blank(line[0]),
    ensures
        !text::has_prefix(line, "Card #"@),
{
    reveal_strlit("Card #");
    if text::has_prefix(line, "Card #"@) {
        assert(line.subrange(0, 6)[0] == line[0]);
    }
}

/// The line of an item is indented or blank.
proof fn lemma_item_shape(item: Option<Entry>, line: Seq<char>)
    requires
        fits_line(item, line),
    ensures
        audio::indented(line) || text::trimmed(line).len() == 0,
        !text::has_prefix(line, "Card #"@),
{
    lemma_is_indented(line);
    lemma_all_blank(line);
    if let Some(entry) = item {
        assert(line[0] == entry.indent[0]);
        if entry.indent[0] != '\t' {
            assert(line[1] == entry.indent[1]);
        }
    }
    lemma_not_a_card(line);
}

// ---------------------------------------------------------------------------------------------
// Lists of profiles
// ---------------------------------------------------------------------------------------------

/// Where a list of profiles stands, and what its lines are.
proof fn lemma_frame(
    lines: Seq<Seq<char>>,
    card: Seq<char>,
    name: int,
    section: int,
    items: Seq<Option<Entry>>,
)
    requires
        lists_profiles(lines, card, name, section, items),
    ensures
        0 <= name < section,
        section + 1 + items.len() <= lines.len(),
        forall|i: int| 0 <= i < lines.len() ==> is_line(#[trigger] lines[i]),
        lines[name] == "\tName: "@ + card,
{
    reveal(lists_profiles);
}

/// No other line of a list of profiles tells the name of the card.
proof fn lemma_one_name(
    lines: Seq<Seq<char>>,
    card: Seq<char>,
    name: int,
    section: int,
    items: Seq<Option<Entry>>,
    i: int,
)
    requires
        lists_profiles(lines, card, name, section, items),
        0 <= i < section + 1 + items.len(),
        i != name,
    ensures
        !tells_name(lines[i], card),
{
    reveal(lists_profiles);
}

/// The items of a list of profiles.
proof fn lemma_item_at(
    lines: Seq<Seq<char>>,
    card: Seq<char>,
    name: int,
    section: int,
    items: Seq<Option<Entry>>,
    k: int,
)
    requires
        lists_profiles(lines, card, name, section, items),
        0 <= k < items.len(),
    ensures
        fits_line(items[k], lines[section + 1 + k]),
{
    reveal(lists_profiles);
}

/// What is to be known of a line behind the name of the card.
proof fn lemma_inner_line(
    lines: Seq<Seq<char>>,
    card: Seq<char>,
    name: int,
    section: int,
    items: Seq<Option<Entry>>,
    i: int,
)
    requires
        lists_profiles(lines, card, name, section, items),
        name < i < section + 1 + items.len(),
    ensures
        !text::has_prefix(lines[i], "Card #"@),
        !laws::gives_active(lines[i]),
        i <= section ==> (text::trimmed(lines[i]) == "Profiles:"@ <==> i == section),
        section < i ==> audio::indented(lines[i]) || text::trimmed(lines[i]).len() == 0,
{
    lemma_section_line();
    if i > section {
        let k = i - section - 1;
        lemma_item_at(lines, card, name, section, items, k);
        assert(section + 1 + k == i);
        lemma_item_shape(items[k], lines[i]);
    }
    reveal(lists_profiles);
    if laws::gives_active(lines[i]) {
        lemma_core_contains(lines[i], "Active Profile:"@);
    }
    if i < section {
        lemma_plain_line(lines[i]);
    }
}

/// A line that holds neither of two words does not begin a card or announce profiles.
proof fn lemma_plain_line(line: Seq<char>)
    requires
        !contains(line, "Card #"@),
        !contains(line, "Profiles:"@),
    ensures
        !text::has_prefix(line, "Card #"@),
        text::trimmed(line) != "Profiles:"@,
{
    if text::has_prefix(line, "Card #"@) {
        let n = "Card #"@.len() as int;
        assert(line.subrange(0, 0 + n) == "Card #"@);
    }
    if text::trimmed(line) == "Profiles:"@ {
        let core = text::trimmed(line);
        assert(core.subrange(0, core.len() as int) =~= core);
        lemma_core_contains(line, "Profiles:"@);
    }
}

/// The lines of a list of profiles, with one behind them that gives an active profile, are a block.
#[verifier::rlimit(40)]
proof fn lemma_block(
    lines: Seq<Seq<char>>,
    card: Seq<char>,
    name: int,
    section: int,
    items: Seq<Option<Entry>>,
    whole: Seq<Seq<char>>,
)
    requires
        lists_profiles(lines, card, name, section, items),
        whole == lines.take(section + 1 + items.len()).push("\tActive Profile: "@ + seq!['x']),
    ensures
        laws::has_block(whole, card, name, section, section + 1 + items.len()),
{
    let end = section + 1 + items.len();
    let line = "\tActive Profile: "@ + seq!['x'];
    lemma_frame(lines, card, name, section, items);
    lemma_last_line(card);
    assert forall|i: int| 0 <= i < end implies #[trigger] whole[i] == lines[i] by {}
    assert(whole[end] == line);
    assert forall|i: int| 0 <= i <= end implies (laws::names_card(#[trigger] whole[i], card) <==> i
        == name) by {
        lemma_tells_name(whole[i], card);
        if i == name {
            lemma_name_line(card);
        } else if i < end {
            lemma_one_name(lines, card, name, section, items, i);
        }
    }
    assert forall|i: int| name < i <= end implies !text::has_prefix(
        #[trigger] whole[i],
        "Card #"@,
    ) by {
        if i < end {
            lemma_inner_line(lines, card, name, section, items, i);
        }
    }
    assert forall|i: int| name < i <= end implies (laws::gives_active(#[trigger] whole[i]) <==> i
        == end) by {
        if i < end {
            lemma_inner_line(lines, card, name, section, items, i);
        }
    }
    assert forall|i: int| name < i <= section implies (text::trimmed(#[trigger] whole[i])
        == "Profiles:"@ <==> i == section) by {
        lemma_inner_line(lines, card, name, section, items, i);
    }
    assert forall|i: int| section < i < end implies audio::indented(#[trigger] whole[i])
        || text::trimmed(whole[i]).len() == 0 by {
        lemma_inner_line(lines, card, name, section, items, i);
    }
}

/// A line that gives an active profile.
proof fn lemma_last_line(card: Seq<char>)
    ensures
        !tells_name("\tActive Profile: "@ + seq!['x'], card),
        laws::gives_active("\tActive Profile: "@ + seq!['x']),
        !text::has_prefix("\tActive Profile: "@ + seq!['x'], "Card #"@),
{
    reveal_strlit("\tActive Profile: ");
    reveal_strlit("Name:");
    let line = "\tActive Profile: "@ + seq!['x'];
    assert(!contains(line, "Name:"@)) by {
        assert forall|at: int| 0 <= at <= line.len() - 5 implies #[trigger] line.subrange(at, at + 5)
            != "Name:"@ by {
            assert(line.subrange(at, at + 5)[0] == line[at]);
        }
    }
    lemma_active_line(seq!['x']);
    lemma_not_a_card(line);
}

/// What a scan has found behind the lines of a list of profiles.
spec fn found_in(lines: Seq<Seq<char>>, section: int, items: Seq<Option<Entry>>) -> CardScan {
    CardScan {
        in_card: true,
        in_profiles: true,
        found: laws::profiles_listed(lines.subrange(section + 1, section + 1 + items.len())),
        active: None,
    }
}

/// Behind the lines of a list of profiles a scan has found what they list.
#[verifier::rlimit(40)]
proof fn lemma_found(
    lines: Seq<Seq<char>>,
    card: Seq<char>,
    name: int,
    section: int,
    items: Seq<Option<Entry>>,
)
    requires
        lists_profiles(lines, card, name, section, items),
    ensures
        0 <= section < section + 1 + items.len() <= lines.len(),
        text::lines(as_text(lines)) == lines,
        audio::scan_lines(audio::scan_start(), lines.take(section + 1 + items.len()), card)
            == found_in(lines, section, items),
        found_in(lines, section, items).found.len() == offered(items).len(),
        forall|k: int|
            0 <= k < offered(items).len() ==> #[trigger] found_in(lines, section, items).found[k]
                == (offered(items)[k].name, offered(items)[k].description),
        forall|k: int| 0 <= k < offered(items).len() ==> (#[trigger] offered(items)[k]).name.len() > 0,
{
    let end = section + 1 + items.len();
    lemma_frame(lines, card, name, section, items);
    lemma_lines_of_text(lines);
    let whole = lines.take(end).push("\tActive Profile: "@ + seq!['x']);
    lemma_block(lines, card, name, section, items, whole);
    laws::lemma_block_scanned(whole, card, name, section, end, end);
    assert(whole.take(end) =~= lines.take(end));
    let between = lines.subrange(section + 1, end);
    assert(whole.subrange(section + 1, end) =~= between);
    assert forall|k: int| 0 <= k < items.len() implies fits_line(#[trigger] items[k], between[k]) by {
        lemma_item_at(lines, card, name, section, items, k);
        assert(between[k] == lines[section + 1 + k]);
    }
    lemma_section(between, items);
}

/// Other lines tell a scan that is done with the profiles nothing.
proof fn lemma_scan_others(scan: CardScan, others: Seq<Seq<char>>, card: Seq<char>)
    requires
        scan.in_card && !scan.in_profiles && scan.active is None,
        forall|i: int| 0 <= i < others.len() ==> is_other_line(#[trigger] others[i], card),
    ensures
        audio::scan_lines(scan, others, card) == scan,
    decreases others.len(),
{
    if others.len() > 0 {
        let rest = others.subrange(1, others.len() as int);
        assert forall|i: int| 0 <= i < rest.len() implies is_other_line(#[trigger] rest[i], card) by {
            assert(rest[i] == others[i + 1]);
        }
        assert(is_other_line(others[0], card));
        lemma_other_line(others[0], card);
        lemma_scan_others(scan, rest, card);
    }
}

/// What is to be known of a line that holds nothing that is looked for.
proof fn lemma_other_line(line: Seq<char>, card: Seq<char>)
    requires
        is_other_line(line, card),
    ensures
        !laws::names_card(line, card),
        !text::has_prefix(line, "Card #"@),
        text::trimmed(line) != "Profiles:"@,
        !laws::gives_active(line),
{
    lemma_tells_name(line, card);
    lemma_plain_line(line);
    if laws::gives_active(line) {
        lemma_core_contains(line, "Active Profile:"@);
    }
}

/// Lines that do not tell the name of the card tell a scan outside of it nothing.
proof fn lemma_scan_outside(scan: CardScan, lines: Seq<Seq<char>>, card: Seq<char>)
    requires
        !scan.in_card && scan.active is None,
        forall|i: int| 0 <= i < lines.len() ==> !tells_name(#[trigger] lines[i], card),
    ensures
        audio::scan_lines(scan, lines, card).found == scan.found,
        audio::scan_lines(scan, lines, card).active is None,
    decreases lines.len(),
{
    if lines.len() > 0 {
        let rest = lines.subrange(1, lines.len() as int);
        assert forall|i: int| 0 <= i < rest.len() implies !tells_name(#[trigger] rest[i], card) by {
            assert(rest[i] == lines[i + 1]);
        }
        assert(!tells_name(lines[0], card));
        lemma_tells_name(lines[0], card);
        lemma_scan_outside(audio::scan_line(scan, lines[0], card), rest, card);
    }
}

/// What a scan of the whole report comes to.
spec fn comes_to(
    lines: Seq<Seq<char>>,
    card: Seq<char>,
    section: int,
    items: Seq<Option<Entry>>,
    active: Option<Seq<char>>,
) -> bool {
    let scan = audio::scan_lines(audio::scan_start(), lines, card);
    scan.found == found_in(lines, section, items).found && scan.active == active
}

/// With a line that gives it a scan knows the active profile.
#[verifier::rlimit(40)]
proof fn lemma_active_read(
    lines: Seq<Seq<char>>,
    card: Seq<char>,
    section: int,
    items: Seq<Option<Entry>>,
    at: int,
    active: Seq<char>,
)
    requires
        0 <= section < section + 1 + items.len() <= lines.len(),
        audio::scan_lines(audio::scan_start(), lines.take(section + 1 + items.len()), card)
            == found_in(lines, section, items),
        gives_active_name(lines, card, section + 1 + items.len(), at, active),
    ensures
        comes_to(lines, card, section, items, Some(active)),
{
    let end = section + 1 + items.len();
    let listing = found_in(lines, section, items);
    let others = lines.subrange(end, at);
    let rest = lines.subrange(at, lines.len() as int);
    assert(lines =~= lines.take(end) + (others + rest));
    laws::lemma_scan_joined(audio::scan_start(), lines.take(end), others + rest, card);
    laws::lemma_scan_joined(listing, others, rest, card);
    let closed = audio::scan_lines(listing, others, card);
    assert(closed.in_card && closed.active is None && closed.found == listing.found) by {
        if others.len() > 0 {
            let first = others[0];
            assert(first == lines[end]);
            assert(is_other_line(lines[end], card));
            lemma_other_line(first, card);
            lemma_is_indented(first);
            lemma_all_blank(first);
            let left = others.subrange(1, others.len() as int);
            assert forall|i: int| 0 <= i < left.len() implies is_other_line(
                #[trigger] left[i],
                card,
            ) by {
                assert(left[i] == lines[end + 1 + i]);
            }
            lemma_scan_others(audio::scan_line(listing, first, card), left, card);
        }
    }
    let line = rest[0];
    assert(line == "\tActive Profile: "@ + active);
    lemma_active_line(active);
    lemma_tells_name(line, card);
    assert(line.len() > 0 && line[0] == '\t') by {
        reveal_strlit("\tActive Profile: ");
    }
    lemma_not_a_card(line);
    assert(text::trimmed(line) != "Profiles:"@) by {
        reveal_strlit("Profiles:");
        reveal_strlit("Active Profile:");
    }
    let known = audio::scan_line(closed, line, card);
    assert(known.active == Some(active));
    assert(known.found == closed.found);
    assert(audio::scan_lines(closed, rest, card) == audio::scan_lines(
        known,
        rest.subrange(1, rest.len() as int),
        card,
    ));
}

/// Without such a line it knows none.
#[verifier::rlimit(40)]
proof fn lemma_no_active_read(
    lines: Seq<Seq<char>>,
    card: Seq<char>,
    section: int,
    items: Seq<Option<Entry>>,
)
    requires
        0 <= section < section + 1 + items.len() <= lines.len(),
        audio::scan_lines(audio::scan_start(), lines.take(section + 1 + items.len()), card)
            == found_in(lines, section, items),
        gives_no_active_name(lines, card, section + 1 + items.len()),
    ensures
        comes_to(lines, card, section, items, None),
{
    let end = section + 1 + items.len();
    let listing = found_in(lines, section, items);
    let rest = lines.subrange(end, lines.len() as int);
    assert(lines =~= lines.take(end) + rest);
    laws::lemma_scan_joined(audio::scan_start(), lines.take(end), rest, card);
    if rest.len() > 0 {
        let first = rest[0];
        reveal_strlit("Card #");
        assert(first == lines[end]);
        assert(text::has_prefix(first, "Card #"@));
        lemma_tells_name(first, card);
        let left = rest.subrange(1, rest.len() as int);
        assert forall|i: int| 0 <= i < left.len() implies !tells_name(#[trigger] left[i], card) by {
            assert(left[i] == lines[end + 1 + i]);
        }
        lemma_scan_outside(audio::scan_line(listing, first, card), left, card);
    }
}

/// The outcome of reading is what the scan comes to.
#[verifier::rlimit(40)]
proof fn lemma_outcome(
    report: &str,
    card: &str,
    outcome: Result<Vec<AudioProfile>, String>,
    lines: Seq<Seq<char>>,
    items: Seq<Option<Entry>>,
    active: Option<Seq<char>>,
)
    requires
        call_ensures(audio::parse_card_profiles, (report, card), outcome),
        report@ == as_text(lines),
        text::lines(as_text(lines)) == lines,
        ({
            let scan = audio::scan_lines(audio::scan_start(), lines, card@);
            &&& scan.active == active
            &&& scan.found.len() == offered(items).len()
            &&& forall|k: int|
                0 <= k < offered(items).len() ==> #[trigger] scan.found[k] == (
                    offered(items)[k].name,
                    offered(items)[k].description,
                )
        }),
        forall|k: int| 0 <= k < offered(items).len() ==> (#[trigger] offered(items)[k]).name.len() > 0,
    ensures
        are_read_from(outcome, offered(items), active),
{
    let scan = audio::scan_lines(audio::scan_start(), lines, card@);
    let profiles = audio::card_profiles(report@, card@);
    assert(profiles.len() == scan.found.len());
    if let Ok(list) = outcome {
        assert(audio::profile_views(list@).len() == list@.len());
        assert forall|i: int| 0 <= i < list@.len() implies is_read_from(
            #[trigger] list@[i],
            offered(items)[i],
            active,
        ) by {
            assert(audio::profile_views(list@)[i] == list@[i]@);
            assert(scan.found[i] == (offered(items)[i].name, offered(items)[i].description));
            assert(profiles[i] == list@[i]@);
            assert(offered(items)[i].name.len() > 0);
        }
    }
}

} // verus!

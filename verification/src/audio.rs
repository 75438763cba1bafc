//! Audio profiles: what `pactl` reports of a sound card, and the requests made of it.
use vstd::prelude::*;

use crate::process;
use crate::process::CommandOutput;
use crate::text;

verus! {

/// An audio profile available for a Bluetooth device.
#[derive(Debug, Clone, PartialEq)]
pub struct AudioProfile {
    pub name: String,
    pub description: String,
    pub active: bool,
}

/// The model of an [`AudioProfile`].
pub struct ProfileView {
    pub name: Seq<char>,
    pub description: Seq<char>,
    pub active: bool,
}

impl View for AudioProfile {
    type V = ProfileView;

    open spec fn view(&self) -> ProfileView {
        ProfileView { name: self.name@, description: self.description@, active: self.active }
    }
}

/// The models of a list of profiles.
pub open spec fn profile_views(list: Seq<AudioProfile>) -> Seq<ProfileView> {
    list.map_values(|p: AudioProfile| p@)
}

/// What a reader of the report of `pactl list cards` knows between two lines.
pub struct CardScan {
    /// The last line that names a card names the card looked for.
    pub in_card: bool,
    /// The profiles of that card are being listed.
    pub in_profiles: bool,
    /// Name and description of the profiles seen so far.
    pub found: Seq<(Seq<char>, Seq<char>)>,
    /// The name of the active profile; the reading ends with it.
    pub active: Option<Seq<char>>,
}

/// The scan before the first line.
pub open spec fn scan_start() -> CardScan {
    CardScan { in_card: false, in_profiles: false, found: Seq::empty(), active: None }
}

/// The profile that a line of the profile section describes: its name ends at the first colon that
/// a space follows, its description at the figures in brackets. "off" is no profile to offer.
pub open spec fn listed_profile(line: Seq<char>) -> Option<(Seq<char>, Seq<char>)> {
    match text::split_once(text::trimmed(line), ": "@) {
        Some((name, rest)) => if name == "off"@ {
            None
        } else {
            Some((name, text::trimmed(text::cut_before(rest, " (sinks:"@))))
        },
        None => None,
    }
}

/// A line of the profile section is indented.
pub open spec fn indented(line: Seq<char>) -> bool {
    text::has_prefix(line, "\t"@) || text::has_prefix(line, "  "@)
}

/// The scan after one more line.
pub open spec fn scan_line(scan: CardScan, line: Seq<char>, card: Seq<char>) -> CardScan {
    let new_card = text::has_prefix(line, "Card #"@);
    let in_card = scan.in_card && !new_card;
    let in_profiles = scan.in_profiles && !new_card;
    let content = text::trimmed(line);
    if text::has_text(line, "Name:"@) && text::has_text(line, card) {
        CardScan { in_card: true, in_profiles, ..scan }
    } else if !in_card {
        CardScan { in_card, in_profiles, ..scan }
    } else if content == "Profiles:"@ {
        CardScan { in_profiles: true, ..scan }
    } else if text::has_prefix(content, "Active Profile:"@) {
        CardScan {
            active: Some(
                text::trimmed(content.subrange("Active Profile:"@.len() as int, content.len() as int)),
            ),
            ..scan
        }
    } else if !in_profiles || content.len() == 0 {
        scan
    } else if !indented(line) {
        CardScan { in_profiles: false, ..scan }
    } else {
        match listed_profile(line) {
            Some(profile) => CardScan { found: scan.found.push(profile), ..scan },
            None => scan,
        }
    }
}

/// The scan after the lines of a report, read until the active profile is known.
pub open spec fn scan_lines(scan: CardScan, report: Seq<Seq<char>>, card: Seq<char>) -> CardScan
    decreases report.len(),
{
    if report.len() == 0 || scan.active is Some {
        scan
    } else {
        scan_lines(
            scan_line(scan, report[0], card),
            report.subrange(1, report.len() as int),
            card,
        )
    }
}

/// The profiles of `card` in a report, the one named active marked as such.
pub open spec fn card_profiles(report: Seq<char>, card: Seq<char>) -> Seq<ProfileView> {
    let scan = scan_lines(scan_start(), text::lines(report), card);
    let active = scan.active.unwrap_or(Seq::empty());
    scan.found.map_values(
        |p: (Seq<char>, Seq<char>)|
            ProfileView { name: p.0, description: p.1, active: p.0 == active },
    )
}

/// The name and the description of each profile of a list, none of them active.
spec fn listed(list: Seq<AudioProfile>) -> Seq<(Seq<char>, Seq<char>)> {
    list.map_values(|p: AudioProfile| (p.name@, p.description@))
}

/// The profile that a trimmed line of the profile section describes.
fn profile_of_line(content: &[char]) -> (profile: Option<AudioProfile>)
    ensures
        match profile {
            Some(p) => !p.active && (match text::split_once(content@, ": "@) {
                Some((name, rest)) => name != "off"@ && p.name@ == name && p.description@ == text::trimmed(
                    text::cut_before(rest, " (sinks:"@),
                ),
                None => false,
            }),
            None => match text::split_once(content@, ": "@) {
                Some((name, rest)) => name == "off"@,
                None => true,
            },
        },
{
    match text::split_at_first(content, ": ") {
        Some((name, rest)) => {
            let name = text::text_of(name.as_slice());
            if name == "off".to_string() {
                return None;
            }
            let description = match text::split_at_first(rest.as_slice(), " (sinks:") {
                Some((before, _)) => text::text_of(text::trim(before.as_slice()).as_slice()),
                None => text::text_of(text::trim(rest.as_slice()).as_slice()),
            };
            Some(AudioProfile { name, description, active: false })
        },
        None => None,
    }
}

/// Parse audio profiles from `pactl list cards` output for a specific card.
pub fn parse_card_profiles(pactl_output: &str, card_name: &str) -> (profiles: Result<
    Vec<AudioProfile>,
    String,
>)
    ensures
        match profiles {
            Ok(list) => card_profiles(pactl_output@, card_name@).len() > 0 && profile_views(list@)
                == card_profiles(pactl_output@, card_name@),
            Err(message) => card_profiles(pactl_output@, card_name@).len() == 0 && message@
                == "No audio profiles found"@,
        },
{
    let report = text::lines_of(pactl_output);
    let ghost views = report@.map_values(|line: Vec<char>| line@);
    let mut in_target_card: bool = false;
    let mut in_profiles: bool = false;
    let mut active_profile: Option<String> = None;
    let mut profiles: Vec<AudioProfile> = Vec::new();
    let mut i: usize = 0;
    let ghost mut scan = scan_start();
    assert(views.subrange(0, views.len() as int) == views);
    assert(listed(profiles@) =~= scan.found);
    while i < report.len() && active_profile.is_none()
        invariant
            i <= report@.len(),
            views == report@.map_values(|line: Vec<char>| line@),
            views == text::lines(pactl_output@),
            scan_lines(scan_start(), views, card_name@) == scan_lines(
                scan,
                views.subrange(i as int, views.len() as int),
                card_name@,
            ),
            scan == (CardScan {
                in_card: in_target_card,
                in_profiles,
                found: listed(profiles@),
                active: text::opt_text(active_profile),
            }),
            forall|j: int| 0 <= j < profiles@.len() ==> !(#[trigger] profiles@[j]).active,
        decreases report.len() - i,
    {
        let line = report[i].as_slice();
        proof {
            let rest = views.subrange(i as int, views.len() as int);
            assert(rest[0] == line@);
            assert(rest.subrange(1, rest.len() as int) == views.subrange(i + 1, views.len() as int));
            scan = scan_line(scan, line@, card_name@);
        }
        i = i + 1;
        if text::starts_with(line, "Card #") {
            in_target_card = false;
            in_profiles = false;
        }
        if text::contains(line, "Name:") && text::contains(line, card_name) {
            in_target_card = true;
            continue;
        }
        if !in_target_card {
            continue;
        }
        let trimmed_line = text::trim(line);
        if text::text_of(trimmed_line.as_slice()) == "Profiles:".to_string() {
            in_profiles = true;
            continue;
        }
        if text::starts_with(trimmed_line.as_slice(), "Active Profile:") {
            let label = text::chars_of("Active Profile:");
            let value = text::part_of(
                trimmed_line.as_slice(),
                label.len(),
                trimmed_line.len(),
            );
            active_profile = Some(text::text_of(text::trim(value.as_slice()).as_slice()));
            continue;
        }
        if in_profiles && trimmed_line.len() > 0 {
            if !text::starts_with(line, "\t") && !text::starts_with(line, "  ") {
                in_profiles = false;
                continue;
            }
            match profile_of_line(trimmed_line.as_slice()) {
                Some(profile) => {
                    let ghost before = profiles@;
                    let ghost pair = (profile.name@, profile.description@);
                    profiles.push(profile);
                    assert(listed(profiles@) =~= listed(before).push(pair));
                },
                None => {},
            }
        }
    }
    assert(scan_lines(scan_start(), views, card_name@) == scan);
    if profiles.len() == 0 {
        assert(card_profiles(pactl_output@, card_name@).len() == 0);
        return Err("No audio profiles found".to_string());
    }
    let active = match active_profile {
        Some(name) => name,
        None => String::new(),
    };
    mark_active(&mut profiles, &active);
    assert(profile_views(profiles@) =~= card_profiles(pactl_output@, card_name@));
    Ok(profiles)
}

/// Mark the profiles of the given name as active.
fn mark_active(profiles: &mut Vec<AudioProfile>, active: &String)
    requires
        forall|j: int| 0 <= j < old(profiles)@.len() ==> !(#[trigger] old(profiles)@[j]).active,
    ensures
        final(profiles)@.len() == old(profiles)@.len(),
        forall|j: int|
            0 <= j < old(profiles)@.len() ==> (#[trigger] final(profiles)@[j])@ == (ProfileView {
                name: old(profiles)@[j].name@,
                description: old(profiles)@[j].description@,
                active: old(profiles)@[j].name@ == active@,
            }),
{
    let ghost before = profiles@;
    let mut i: usize = 0;
    while i < profiles.len()
        invariant
            i <= profiles@.len() == before.len(),
            forall|j: int| 0 <= j < before.len() ==> !(#[trigger] before[j]).active,
            forall|j: int| i <= j < before.len() ==> #[trigger] profiles@[j] == before[j],
            forall|j: int|
                0 <= j < i ==> (#[trigger] profiles@[j])@ == (ProfileView {
                    name: before[j].name@,
                    description: before[j].description@,
                    active: before[j].name@ == active@,
                }),
        decreases profiles.len() - i,
    {
        if profiles[i].name == *active {
            profiles[i].active = true;
        }
        i = i + 1;
    }
}

/// The card that the sound server keeps for the device with this address.
pub open spec fn card_of(address: Seq<char>) -> Seq<char> {
    "bluez_card."@ + text::replaced(address, ':', '_')
}

/// The name of the sound card of a Bluetooth device.
pub fn card_name(address: &str) -> (name: String)
    ensures
        name@ == card_of(address@),
{
    let suffix = text::replace(address, ':', '_');
    "bluez_card.".to_string().concat(suffix.as_str())
}

/// The arguments with which `pactl` lists the cards.
pub fn list_cards_arguments() -> (arguments: Vec<String>)
    ensures
        text::texts(arguments@) == seq!["list"@, "cards"@],
{
    let arguments: Vec<String> = vec!["list".to_string(), "cards".to_string()];
    assert(text::texts(arguments@) =~= seq!["list"@, "cards"@]);
    arguments
}

/// The arguments with which `pactl` switches the card of a device to a profile.
pub fn set_card_profile_arguments(address: &str, profile: &str) -> (arguments: Vec<String>)
    ensures
        text::texts(arguments@) == seq!["set-card-profile"@, card_of(address@), profile@],
{
    let arguments: Vec<String> = vec![
        "set-card-profile".to_string(),
        card_name(address),
        profile.to_string(),
    ];
    assert(text::texts(arguments@) =~= seq!["set-card-profile"@, card_of(address@), profile@]);
    arguments
}

/// The profiles that a run of `pactl list cards` offers for a device.
pub open spec fn device_profiles(address: Seq<char>, stdout: Seq<char>) -> Result<
    Seq<ProfileView>,
    Seq<char>,
> {
    let profiles = card_profiles(stdout, card_of(address));
    if profiles.len() > 0 {
        Ok(profiles)
    } else {
        Err("No audio profiles found"@)
    }
}

/// Get the available audio profiles for a Bluetooth device by address, out of what running
/// `pactl list cards` gave.
pub fn get_device_profiles(address: &str, output: Result<CommandOutput, String>) -> (profiles:
    Result<Vec<AudioProfile>, String>)
    ensures
        match process::trouble(output, "Failed to run pactl: "@, "pactl failed: "@) {
            Some(message) => profiles matches Err(m) && m@ == message,
            None => match device_profiles(address@, process::lossy_text(output->Ok_0.stdout@)) {
                Ok(list) => profiles matches Ok(p) && profile_views(p@) == list,
                Err(message) => profiles matches Err(m) && m@ == message,
            },
        },
{
    match process::stdout_of(output, "Failed to run pactl: ", "pactl failed: ") {
        Ok(bytes) => {
            let stdout = process::lossy(bytes.as_slice());
            parse_card_profiles(stdout.as_str(), card_name(address).as_str())
        },
        Err(message) => Err(message),
    }
}

/// Set the audio profile of a Bluetooth device: what running `pactl set-card-profile` came to.
pub fn set_card_profile(output: Result<CommandOutput, String>) -> (result: Result<(), String>)
    ensures
        match process::trouble(output, "Failed to run pactl: "@, "Profile switch failed: "@) {
            Some(message) => result matches Err(m) && m@ == message,
            None => result is Ok,
        },
{
    process::completed(output, "Failed to run pactl: ", "Profile switch failed: ")
}

} // verus!

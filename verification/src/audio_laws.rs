//! What is asked of the sound server, stated of the calls themselves.
use vstd::prelude::*;

use crate::audio;
use crate::audio::AudioProfile;
use crate::bus_laws;
use crate::process;
use crate::process::CommandOutput;
use crate::report_laws;
use crate::states;
use crate::text;

verus! {

/// The card of a device is the one that the sound server names after its address.
pub proof fn law_card_name(address: &str, name: String)
    requires
        call_ensures(audio::card_name, (address,), name),
    ensures
        bus_laws::prefixed_address(name@, "bluez_card."@, address@),
{
}

/// The cards are listed by `list cards`.
pub proof fn law_listing_arguments(arguments: Vec<String>)
    requires
        call_ensures(audio::list_cards_arguments, (), arguments),
    ensures
        arguments@.len() == 2 && arguments@[0]@ == "list"@ && arguments@[1]@ == "cards"@,
{
    assert(text::texts(arguments@).len() == arguments@.len());
    assert(text::texts(arguments@)[0] == arguments@[0]@);
    assert(text::texts(arguments@)[1] == arguments@[1]@);
}

/// A profile is chosen by `set-card-profile`, the card of the device, and the name of the profile as
/// the report has it.
pub proof fn law_switching_arguments(address: &str, profile: &str, arguments: Vec<String>)
    requires
        call_ensures(audio::set_card_profile_arguments, (address, profile), arguments),
    ensures
        arguments@.len() == 3,
        arguments@[0]@ == "set-card-profile"@,
        bus_laws::prefixed_address(arguments@[1]@, "bluez_card."@, address@),
        arguments@[2]@ == profile@,
{
    assert(text::texts(arguments@).len() == arguments@.len());
    assert(text::texts(arguments@)[0] == arguments@[0]@);
    assert(text::texts(arguments@)[1] == arguments@[1]@);
    assert(text::texts(arguments@)[2] == arguments@[2]@);
}

/// A switch succeeds if and only if the command does, and says why it could not be run.
pub proof fn law_switching_outcome(
    output: Result<CommandOutput, String>,
    result: Result<(), String>,
)
    requires
        call_ensures(audio::set_card_profile, (output,), result),
    ensures
        result is Ok <==> (output matches Ok(done) && done.success),
        output matches Err(error) ==> (result matches Err(message) && message@
            == "Failed to run pactl: "@ + error@),
        output matches Ok(done) && !done.success ==> (result matches Err(message)
            && reports_stderr(
            message@,
            "Profile switch failed: "@,
            process::lossy_text(output->Ok_0.stderr@),
        )),
{
    if output is Ok {
        lemma_reports_stderr(
            "Profile switch failed: "@,
            process::lossy_text(output->Ok_0.stderr@),
        );
    }
}

/// The message is the prefix, and what the command wrote to standard error without the white space
/// around it.
pub open spec fn reports_stderr(
    message: Seq<char>,
    prefix: Seq<char>,
    stderr: Seq<char>,
) -> bool {
    exists|core: Seq<char>| message == prefix + core && #[trigger] report_laws::is_core_of(core, stderr)
}

/// What a failure says is what the command wrote.
proof fn lemma_reports_stderr(prefix: Seq<char>, stderr: Seq<char>)
    ensures
        reports_stderr(prefix + text::trimmed(stderr), prefix, stderr),
{
    report_laws::lemma_core(stderr);
}

/// The profiles of a device are those that the report which the command printed has for its card; a
/// command that could not be run or failed has none.
pub proof fn law_profiles_of_a_device(
    address: &str,
    output: Result<CommandOutput, String>,
    profiles: Result<Vec<AudioProfile>, String>,
    report: &str,
    card: &str,
    parsed: Result<Vec<AudioProfile>, String>,
)
    requires
        call_ensures(audio::get_device_profiles, (address, output), profiles),
        bus_laws::prefixed_address(card@, "bluez_card."@, address@),
        call_ensures(audio::parse_card_profiles, (report, card), parsed),
    ensures
        output matches Ok(done) && done.success && report@ == process::lossy_text(done.stdout@)
            ==> match (parsed, profiles) {
            (Ok(a), Ok(b)) => states::same_profiles(a@, b@),
            (Err(a), Err(b)) => a@ == b@,
            _ => false,
        },
        output matches Err(error) ==> (profiles matches Err(message) && message@
            == "Failed to run pactl: "@ + error@),
        output matches Ok(done) && !done.success ==> (profiles matches Err(message)
            && reports_stderr(
            message@,
            "pactl failed: "@,
            process::lossy_text(output->Ok_0.stderr@),
        )),
{
    if output is Ok {
        lemma_reports_stderr("pactl failed: "@, process::lossy_text(output->Ok_0.stderr@));
    }
    lemma_card(card@, address@);
    if parsed is Ok && profiles is Ok {
        if audio::profile_views(parsed->Ok_0@) == audio::profile_views(profiles->Ok_0@) {
            states::lemma_same_profiles(parsed->Ok_0@, profiles->Ok_0@);
        }
    }
}

/// The name of a card is fixed by the address of the device.
proof fn lemma_card(card: Seq<char>, address: Seq<char>)
    requires
        bus_laws::prefixed_address(card, "bluez_card."@, address),
    ensures
        card == audio::card_of(address),
{
    let other = audio::card_of(address);
    let n = "bluez_card."@.len() as int;
    assert forall|i: int| 0 <= i < card.len() implies #[trigger] card[i] == other[i] by {
        if i >= n {
            let j = i - n;
            assert(card["bluez_card."@.len() + j] == if address[j] == ':' {
                '_'
            } else {
                address[j]
            });
        }
    }
    assert(card =~= other);
}

} // verus!

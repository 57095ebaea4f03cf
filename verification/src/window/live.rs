//! The live view: what each periodic look at the WiFi cards shows and warns of.

use crate::names;
use crate::services::WifiInfo;
use crate::window;
use vstd::prelude::*;
use vstd::string::StringExecFns;

verus! {

/// The warnings that are showing. Each is told once, when it comes up, and not
/// on every look.
#[derive(Debug, Clone, Copy, PartialEq, Eq, Structural)]
pub struct LiveFlags {
    /// The current network is new to the floor.
    pub new_network: bool,
    /// The preferred card is not active.
    pub card_missing: bool,
}

impl LiveFlags {
    pub fn new() -> (r: LiveFlags)
        ensures
            !r.new_network && !r.card_missing,
    {
        LiveFlags { new_network: false, card_missing: false }
    }
}

/// A preferred card is set and is not among the active ones.
pub open spec fn is_card_missing(preferred: Option<String>, devices: Seq<Seq<char>>) -> bool {
    preferred matches Some(p) && !devices.contains(p@)
}

/// The warning shown for the current access point.
pub open spec fn warning_for(current: Option<WifiInfo>, known: Seq<Seq<char>>) -> Option<Seq<char>> {
    match current {
        Some(w) => if window::is_new_network(w.ssid@, known) {
            Some(window::new_network_warning(w.ssid@, known))
        } else {
            None
        },
        None => None,
    }
}

/// The warnings showing after a look that found the access point `current`.
pub open spec fn flags_after(
    current: Option<WifiInfo>,
    preferred: Option<String>,
    devices: Seq<Seq<char>>,
    known: Seq<Seq<char>>,
) -> LiveFlags {
    LiveFlags {
        new_network: warning_for(current, known) is Some,
        card_missing: current is Some && is_card_missing(preferred, devices),
    }
}

/// The messages of a look: about the card, then about the network, each only
/// when it was not showing.
pub open spec fn live_toasts(
    flags: LiveFlags,
    current: Option<WifiInfo>,
    preferred: Option<String>,
    devices: Seq<Seq<char>>,
    known: Seq<Seq<char>>,
) -> Seq<Seq<char>> {
    (if current is Some && is_card_missing(preferred, devices) && !flags.card_missing {
        seq!["Card "@ + preferred->0@ + " unavailable — using "@ + current->0.device@]
    } else {
        Seq::empty()
    }) + (if warning_for(current, known) is Some && !flags.new_network {
        seq![warning_for(current, known)->0]
    } else {
        Seq::empty()
    })
}

/// What a look at the cards shows.
pub struct LiveUpdate {
    /// The card to show, if any is connected.
    pub chosen: Option<usize>,
    /// The entries of the card selector.
    pub card_names: Vec<String>,
    pub warning: Option<String>,
    pub toasts: Vec<String>,
}

/// The card that is chosen.
pub open spec fn chosen_card(chosen: Option<usize>, cards: Seq<WifiInfo>) -> Option<WifiInfo> {
    match chosen {
        Some(i) => Some(cards[i as int]),
        None => None,
    }
}

/// A look at the active cards, with the networks measured on the floor.
pub fn live_tick(
    flags: &mut LiveFlags,
    preferred: &Option<String>,
    cards: &Vec<WifiInfo>,
    known: &Vec<String>,
) -> (r: LiveUpdate)
    ensures
        window::is_pick(r.chosen, *preferred, window::devices_of(cards@)),
        names::views(r.card_names@) == window::devices_of(cards@),
        crate::models::text_view(r.warning) == warning_for(
            chosen_card(r.chosen, cards@),
            names::views(known@),
        ),
        names::views(r.toasts@) == live_toasts(
            *old(flags),
            chosen_card(r.chosen, cards@),
            *preferred,
            window::devices_of(cards@),
            names::views(known@),
        ),
        *final(flags) == flags_after(
            chosen_card(r.chosen, cards@),
            *preferred,
            window::devices_of(cards@),
            names::views(known@),
        ),
{
    let ghost devices = window::devices_of(cards@);
    let ghost known_names = names::views(known@);
    let ghost before = *flags;
    let card_names = window::card_names(cards);
    let chosen = window::pick_device_index(preferred, &card_names);
    let mut toasts: Vec<String> = Vec::new();
    let mut warning: Option<String> = None;
    let mut missing = false;
    let ghost current = chosen_card(chosen, cards@);
    assert(devices.len() == cards@.len());
    assert(known_names.len() == known@.len());
    if let Some(i) = chosen {
        let w = &cards[i];
        if let Some(p) = preferred {
            missing = !names::contains(&card_names, p.as_str());
            if missing && !flags.card_missing {
                let mut s = "Card ".to_owned();
                s.append(p.as_str());
                s.append(" unavailable — using ");
                s.append(w.device.as_str());
                toasts.push(s);
            }
        }
        if known.len() > 0 && !names::contains(known, w.ssid.as_str()) {
            let msg = window::format_new_network_warning(w.ssid.as_str(), known);
            if !flags.new_network {
                toasts.push(msg.clone());
            }
            warning = Some(msg);
        }
    }
    assert(names::views(toasts@) =~= live_toasts(
        before,
        current,
        *preferred,
        devices,
        known_names,
    ));
    *flags = LiveFlags { new_network: warning.is_some(), card_missing: missing };
    LiveUpdate { chosen, card_names, warning, toasts }
}

/// A warning is told once: a second look that finds the same has nothing more
/// to say.
pub proof fn law_warned_once(
    flags: LiveFlags,
    current: Option<WifiInfo>,
    preferred: Option<String>,
    devices: Seq<Seq<char>>,
    known: Seq<Seq<char>>,
)
    ensures
        live_toasts(
            flags_after(current, preferred, devices, known),
            current,
            preferred,
            devices,
            known,
        ) == Seq::<Seq<char>>::empty(),
{
    assert(live_toasts(
        flags_after(current, preferred, devices, known),
        current,
        preferred,
        devices,
        known,
    ) =~= Seq::empty());
}

/// A warning that went away is told again when it comes back: a look without a
/// connection clears all warnings.
pub proof fn law_disconnecting_clears_warnings(
    preferred: Option<String>,
    devices: Seq<Seq<char>>,
    known: Seq<Seq<char>>,
)
    ensures
        !flags_after(None, preferred, devices, known).new_network,
        !flags_after(None, preferred, devices, known).card_missing,
{
}

/// The card warning shows while a card is connected and the preferred one is
/// not among the active ones; the network warning shows while the current
/// network is new to the floor.
pub proof fn law_warnings(
    current: Option<WifiInfo>,
    preferred: Option<String>,
    devices: Seq<Seq<char>>,
    known: Seq<Seq<char>>,
)
    ensures
        ({
            let flags = flags_after(current, preferred, devices, known);
            &&& flags.card_missing <==> current is Some && preferred is Some && forall|i: int|
                0 <= i < devices.len() ==> #[trigger] devices[i] != preferred->0@
            &&& flags.new_network <==> current is Some && known.len() > 0 && forall|i: int|
                0 <= i < known.len() ==> #[trigger] known[i] != current->0.ssid@
            &&& warning_for(current, known) is Some <==> flags.new_network
        }),
{
    if let Some(p) = preferred {
        if !(forall|i: int| 0 <= i < devices.len() ==> #[trigger] devices[i] != p@) {
            let i = choose|i: int| 0 <= i < devices.len() && #[trigger] devices[i] == p@;
            assert(devices.contains(p@));
        }
    }
    if let Some(w) = current {
        if !(forall|i: int| 0 <= i < known.len() ==> #[trigger] known[i] != w.ssid@) {
            let i = choose|i: int| 0 <= i < known.len() && #[trigger] known[i] == w.ssid@;
            assert(known.contains(w.ssid@));
        }
    }
}

/// A look tells each warning that shows after it and did not show before it,
/// and nothing else: first that of the card, which names the preferred card and
/// the one in use, then that of the network, as it is shown.
pub proof fn law_new_warnings_are_told(
    flags: LiveFlags,
    current: Option<WifiInfo>,
    preferred: Option<String>,
    devices: Seq<Seq<char>>,
    known: Seq<Seq<char>>,
)
    ensures
        ({
            let after = flags_after(current, preferred, devices, known);
            let told = live_toasts(flags, current, preferred, devices, known);
            let card = after.card_missing && !flags.card_missing;
            let network = after.new_network && !flags.new_network;
            &&& told.len() == (if card {
                1int
            } else {
                0
            }) + (if network {
                1int
            } else {
                0
            })
            &&& card ==> crate::text::mentions(told[0], preferred->0@) && crate::text::ends_with(
                told[0],
                current->0.device@,
            )
            &&& network ==> told.last() == window::new_network_warning(current->0.ssid@, known)
        }),
{
    let after = flags_after(current, preferred, devices, known);
    if after.card_missing && !flags.card_missing {
        let p = preferred->0@;
        let d = current->0.device@;
        let between = " unavailable — using "@;
        crate::text::lemma_mentions_last("Card "@, p);
        crate::text::lemma_more_behind("Card "@ + p, between, p);
        crate::text::lemma_more_behind("Card "@ + p + between, d, p);
        crate::text::law_parts("Card "@ + p + between, d);
    }
}

} // verus!

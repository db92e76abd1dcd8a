//! What the rule explainer shows for a simulated notification: which matching rule wins,
//! the final action, and the colours and labels of its rows.

use vstd::prelude::*;

use crate::engine::{deciding_index, deciding_match, match_views, MatchResult};
use crate::rules::RuleAction;
use crate::visual::PaletteColor;

verus! {

/// The colour an action is shown in: the warning accent for Hide, the accent for Important,
/// primary text otherwise.
pub open spec fn action_color_of(a: RuleAction) -> PaletteColor {
    match a {
        RuleAction::Hide => PaletteColor::AccentWarning,
        RuleAction::Important => PaletteColor::Accent,
        _ => PaletteColor::TextPrimary,
    }
}

/// The colour an action is shown in.
pub fn action_color(a: RuleAction) -> (c: PaletteColor)
    ensures
        c == action_color_of(a),
{
    match a {
        RuleAction::Hide => PaletteColor::AccentWarning,
        RuleAction::Important => PaletteColor::Accent,
        _ => PaletteColor::TextPrimary,
    }
}

/// The colour of the winner badge: the warning accent for Hide, the accent otherwise.
pub fn badge_color(a: RuleAction) -> (c: PaletteColor)
    ensures
        c == if a == RuleAction::Hide {
            PaletteColor::AccentWarning
        } else {
            PaletteColor::Accent
        },
{
    match a {
        RuleAction::Hide => PaletteColor::AccentWarning,
        _ => PaletteColor::Accent,
    }
}

/// The status of a row: "ON" in the success accent when the rule is enabled, "OFF" in muted
/// text otherwise.
pub fn status_of(enabled: bool) -> (r: (&'static str, PaletteColor))
    ensures
        r.0@ == if enabled {
            "ON"@
        } else {
            "OFF"@
        },
        r.1 == if enabled {
            PaletteColor::AccentSuccess
        } else {
            PaletteColor::TextMuted
        },
{
    if enabled {
        ("ON", PaletteColor::AccentSuccess)
    } else {
        ("OFF", PaletteColor::TextMuted)
    }
}

/// For each row (a match of the trace), whether it is marked as the winner: its identifier is
/// that of the deciding match.
pub fn winner_flags(matches: &Vec<MatchResult>) -> (v: Vec<bool>)
    ensures
        v@.len() == matches@.len(),
        forall|k: int|
            0 <= k < matches@.len() ==> #[trigger] v@[k] == (matches@[k].id@ == deciding_match(
                match_views(matches@),
            ).id),
{
    let mut v: Vec<bool> = Vec::new();
    if matches.len() == 0 {
        return v;
    }
    let w = deciding_index(matches);
    let mut k: usize = 0;
    while k < matches.len()
        invariant
            k <= matches@.len(),
            w < matches@.len(),
            matches@[w as int]@ == deciding_match(match_views(matches@)),
            v@.len() == k,
            forall|j: int|
                0 <= j < k ==> #[trigger] v@[j] == (matches@[j].id@ == deciding_match(
                    match_views(matches@),
                ).id),
        decreases matches@.len() - k,
    {
        v.push(matches[k].id == matches[w].id);
        k = k + 1;
    }
    v
}

/// The final action the explainer reports: none without matches, otherwise the action of the
/// deciding match.
pub fn final_action(matches: &Vec<MatchResult>) -> (a: Option<RuleAction>)
    ensures
        a == if matches@.len() == 0 {
            None
        } else {
            Some(deciding_match(match_views(matches@)).action)
        },
{
    if matches.len() == 0 {
        None
    } else {
        let w = deciding_index(matches);
        Some(matches[w].action)
    }
}

} // verus!

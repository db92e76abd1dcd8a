//! Visual decisions for a notification in the list: which palette colour stands for its
//! subject, which tint its accent bar, background and border take, and which indicators it
//! shows. The palette's colours themselves are chosen by the caller.

use vstd::prelude::*;

use crate::rules::RuleAction;

verus! {

/// Kind of the subject a notification is about.
#[derive(Debug, Clone, Copy, PartialEq, Eq, Structural)]
pub enum SubjectType {
    Issue,
    PullRequest,
    Release,
    Discussion,
    CheckSuite,
    RepositoryVulnerabilityAlert,
    Commit,
    Unknown,
}

/// A colour of the theme palette.
#[derive(Debug, Clone, Copy, PartialEq, Eq, Structural)]
pub enum PaletteColor {
    AccentSuccess,
    Accent,
    AccentPurple,
    AccentWarning,
    AccentDanger,
    TextPrimary,
    TextSecondary,
    TextMuted,
}

/// The tint a part of the notification card takes.
#[derive(Debug, Clone, Copy, PartialEq, Eq, Structural)]
pub enum Tint {
    /// The palette's warning accent (priority notifications).
    Warning,
    /// The subject's colour (unread notifications).
    Subject,
    /// No colour.
    Transparent,
}

/// The palette colour of a subject type.
pub open spec fn subject_color(t: SubjectType) -> PaletteColor {
    match t {
        SubjectType::Issue => PaletteColor::AccentSuccess,
        SubjectType::PullRequest => PaletteColor::Accent,
        SubjectType::Release => PaletteColor::AccentPurple,
        SubjectType::Discussion => PaletteColor::Accent,
        SubjectType::CheckSuite => PaletteColor::AccentWarning,
        SubjectType::RepositoryVulnerabilityAlert => PaletteColor::AccentDanger,
        SubjectType::Commit => PaletteColor::TextSecondary,
        SubjectType::Unknown => PaletteColor::TextSecondary,
    }
}

/// All visual decisions for one notification.
#[derive(Debug, Clone, Copy, PartialEq, Eq, Structural)]
pub struct NotificationVisualState {
    pub is_priority: bool,
    pub is_silent: bool,
    pub is_unread: bool,
    pub subject_color: PaletteColor,
    pub bar_color: Tint,
    pub card_bg: Tint,
    pub border_color: Tint,
    pub show_border: bool,
}

/// The tint of a card part: warning for priority, the subject colour for unread, none
/// otherwise.
pub open spec fn card_tint(is_priority: bool, is_unread: bool) -> Tint {
    if is_priority {
        Tint::Warning
    } else if is_unread {
        Tint::Subject
    } else {
        Tint::Transparent
    }
}

/// The visual state of a notification: priority styling only for Important notifications in
/// the priority group; silent for Silent ones.
pub open spec fn visual_state(
    is_unread: bool,
    subject_type: SubjectType,
    action: RuleAction,
    is_priority_group: bool,
) -> NotificationVisualState {
    let is_priority = is_priority_group && action == RuleAction::Important;
    NotificationVisualState {
        is_priority,
        is_silent: action == RuleAction::Silent,
        is_unread,
        subject_color: subject_color(subject_type),
        bar_color: card_tint(is_priority, is_unread),
        card_bg: card_tint(is_priority, is_unread),
        border_color: card_tint(is_priority, is_unread),
        show_border: is_priority || is_unread,
    }
}

impl NotificationVisualState {
    /// Computes the visual state of a notification.
    pub fn compute(
        is_unread: bool,
        subject_type: SubjectType,
        action: RuleAction,
        is_priority_group: bool,
    ) -> (v: NotificationVisualState)
        ensures
            v == visual_state(is_unread, subject_type, action, is_priority_group),
    {
        let subject_color = Self::color_for_subject_type(subject_type);
        let is_priority = is_priority_group && action == RuleAction::Important;
        let is_silent = action == RuleAction::Silent;
        let tint = if is_priority {
            Tint::Warning
        } else if is_unread {
            Tint::Subject
        } else {
            Tint::Transparent
        };
        NotificationVisualState {
            is_priority,
            is_silent,
            is_unread,
            subject_color,
            bar_color: tint,
            card_bg: tint,
            border_color: tint,
            show_border: is_priority || is_unread,
        }
    }

    /// The palette colour of a subject type.
    pub fn color_for_subject_type(subject_type: SubjectType) -> (c: PaletteColor)
        ensures
            c == subject_color(subject_type),
    {
        match subject_type {
            SubjectType::Issue => PaletteColor::AccentSuccess,
            SubjectType::PullRequest => PaletteColor::Accent,
            SubjectType::Release => PaletteColor::AccentPurple,
            SubjectType::Discussion => PaletteColor::Accent,
            SubjectType::CheckSuite => PaletteColor::AccentWarning,
            SubjectType::RepositoryVulnerabilityAlert => PaletteColor::AccentDanger,
            SubjectType::Commit => PaletteColor::TextSecondary,
            SubjectType::Unknown => PaletteColor::TextSecondary,
        }
    }
}

/// Account shown in the account switcher of the top bar.
#[derive(Debug, Clone)]
pub struct AccountInfo {
    pub username: String,
}


/// Priority styling depends on the rule decision alone: a notification is a priority one
/// exactly when it is in the priority group and its action is Important, read or unread. A
/// priority notification always has the warning tint on its bar, background and border, and a
/// border; otherwise an unread one has its subject tint and a border, and a read one has no
/// tint and no border. Silent styling is for Silent notifications.
pub proof fn law_visual_state(
    is_unread: bool,
    subject_type: SubjectType,
    action: RuleAction,
    is_priority_group: bool,
)
    ensures
        visual_state(is_unread, subject_type, action, is_priority_group).is_priority == (
        is_priority_group && action == RuleAction::Important),
        visual_state(true, subject_type, action, is_priority_group).is_priority == visual_state(
            false,
            subject_type,
            action,
            is_priority_group,
        ).is_priority,
        visual_state(is_unread, subject_type, action, is_priority_group).is_silent == (action
            == RuleAction::Silent),
        visual_state(is_unread, subject_type, action, is_priority_group).is_unread == is_unread,
        ({
            let v = visual_state(is_unread, subject_type, action, is_priority_group);
            let expected = if v.is_priority {
                Tint::Warning
            } else if is_unread {
                Tint::Subject
            } else {
                Tint::Transparent
            };
            &&& v.bar_color == expected
            &&& v.card_bg == expected
            &&& v.border_color == expected
            &&& v.show_border == (v.is_priority || is_unread)
        }),
{
}

} // verus!

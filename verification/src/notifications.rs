//! Notification settings, and the channels that notifications and approvals
//! go to.

use vstd::prelude::*;
use vstd::string::*;
use crate::channel_settings::TelegramConfig;
use crate::text::{lower, lower_text, lowercase, lowered, owned, str_eq};

verus! {

/// Where a notification is delivered.
#[derive(Clone, Copy, Debug, PartialEq, Eq, Structural)]
pub enum NotificationChannelKind {
    InApp,
    Telegram,
}

/// When notifications are held back.
#[derive(Clone, Copy, Debug, PartialEq, Eq, Structural)]
pub struct QuietHours {
    pub start_hour: u32,
    pub start_minute: u32,
    pub end_hour: u32,
    pub end_minute: u32,
    pub allow_critical: bool,
}

/// The notification part of the configuration.
#[derive(Clone, Debug, PartialEq, Eq)]
pub struct NotificationConfig {
    pub preferred_channels: Vec<NotificationChannelKind>,
    pub escalation_timeout_secs: u64,
    pub quiet_hours: Option<QuietHours>,
}

/// Notification settings, as they are shown.
#[derive(Debug, Clone)]
pub struct NotificationSettingsInfo {
    pub preferred_channels: Vec<String>,
    pub escalation_timeout_secs: u64,
    pub quiet_hours_enabled: bool,
    pub quiet_start_hour: u32,
    pub quiet_start_minute: u32,
    pub quiet_end_hour: u32,
    pub quiet_end_minute: u32,
    pub quiet_allow_critical: bool,
}

/// The name of a channel.
pub open spec fn channel_name(k: NotificationChannelKind) -> Seq<char> {
    match k {
        NotificationChannelKind::InApp => "InApp"@,
        NotificationChannelKind::Telegram => "Telegram"@,
    }
}

pub fn channel_label(k: NotificationChannelKind) -> (r: &'static str)
    ensures
        r@ == channel_name(k),
{
    match k {
        NotificationChannelKind::InApp => "InApp",
        NotificationChannelKind::Telegram => "Telegram",
    }
}

/// The names of the channels.
pub open spec fn channel_names(ks: Seq<NotificationChannelKind>) -> Seq<Seq<char>> {
    ks.map_values(|k: NotificationChannelKind| channel_name(k))
}

/// The quiet hours that are shown where none are set: 22:00 to 8:00, with
/// critical notifications let through.
pub open spec fn shown_quiet_hours(q: Option<QuietHours>) -> QuietHours {
    match q {
        Some(h) => h,
        None => QuietHours {
            start_hour: 22,
            start_minute: 0,
            end_hour: 8,
            end_minute: 0,
            allow_critical: true,
        },
    }
}

/// `info` shows the configuration.
pub open spec fn shows_notifications(
    info: NotificationSettingsInfo,
    config: NotificationConfig,
) -> bool {
    let q = shown_quiet_hours(config.quiet_hours);
    &&& info.preferred_channels.deep_view() == channel_names(config.preferred_channels@)
    &&& info.escalation_timeout_secs == config.escalation_timeout_secs
    &&& info.quiet_hours_enabled == config.quiet_hours is Some
    &&& info.quiet_start_hour == q.start_hour
    &&& info.quiet_start_minute == q.start_minute
    &&& info.quiet_end_hour == q.end_hour
    &&& info.quiet_end_minute == q.end_minute
    &&& info.quiet_allow_critical == q.allow_critical
}

/// Notification settings, as they are shown.
pub fn get_notification_settings(config: &NotificationConfig) -> (r: NotificationSettingsInfo)
    ensures
        shows_notifications(r, *config),
{
    let mut names: Vec<String> = Vec::new();
    let mut i: usize = 0;
    let ghost all = channel_names(config.preferred_channels@);
    while i < config.preferred_channels.len()
        invariant
            all == channel_names(config.preferred_channels@),
            i <= config.preferred_channels@.len(),
            names.deep_view() == all.take(i as int),
        decreases config.preferred_channels@.len() - i,
    {
        let name = owned(channel_label(config.preferred_channels[i]));
        let ghost before = names.deep_view();
        names.push(name);
        proof {
            assert(names.deep_view() =~= before.push(name@));
            assert(all.take(i + 1) =~= all.take(i as int).push(all[i as int]));
        }
        i += 1;
    }
    proof {
        assert(all.take(i as int) =~= all);
    }
    let q = match config.quiet_hours {
        Some(h) => h,
        None => QuietHours {
            start_hour: 22,
            start_minute: 0,
            end_hour: 8,
            end_minute: 0,
            allow_critical: true,
        },
    };
    NotificationSettingsInfo {
        preferred_channels: names,
        escalation_timeout_secs: config.escalation_timeout_secs,
        quiet_hours_enabled: config.quiet_hours.is_some(),
        quiet_start_hour: q.start_hour,
        quiet_start_minute: q.start_minute,
        quiet_end_hour: q.end_hour,
        quiet_end_minute: q.end_minute,
        quiet_allow_critical: q.allow_critical,
    }
}

// ---------------------------------------------------------------------------
// Saving
// ---------------------------------------------------------------------------

/// The channel that a name in lower case stands for.
pub open spec fn channel_of_lower(low: Seq<char>) -> Option<NotificationChannelKind> {
    if low == "inapp"@ || low == "in_app"@ {
        Some(NotificationChannelKind::InApp)
    } else if low == "telegram"@ {
        Some(NotificationChannelKind::Telegram)
    } else {
        None
    }
}

/// The channel that a name in lower case stands for.
pub fn parse_channel_lower(low: &str) -> (r: Option<NotificationChannelKind>)
    ensures
        r == channel_of_lower(low@),
{
    if str_eq(low, "inapp") || str_eq(low, "in_app") {
        Some(NotificationChannelKind::InApp)
    } else if str_eq(low, "telegram") {
        Some(NotificationChannelKind::Telegram)
    } else {
        None
    }
}

/// The channels that the names stand for, in order; unknown names are left
/// out.
pub open spec fn channels_of(names: Seq<Seq<char>>) -> Seq<NotificationChannelKind>
    decreases names.len(),
{
    if names.len() == 0 {
        Seq::empty()
    } else {
        let before = channels_of(names.drop_last());
        match channel_of_lower(lower_text(names.last())) {
            Some(k) => before.push(k),
            None => before,
        }
    }
}

/// The channels that are saved: both, where no name is known.
pub open spec fn saved_channels(names: Seq<Seq<char>>) -> Seq<NotificationChannelKind> {
    if channels_of(names).len() == 0 {
        seq![NotificationChannelKind::InApp, NotificationChannelKind::Telegram]
    } else {
        channels_of(names)
    }
}

fn parse_channels(names: &Vec<String>) -> (r: Vec<NotificationChannelKind>)
    ensures
        r@ == channels_of(names.deep_view()),
{
    let mut out: Vec<NotificationChannelKind> = Vec::new();
    let mut i: usize = 0;
    let ghost all = names.deep_view();
    proof {
        assert(out@ =~= channels_of(all.take(0)));
    }
    while i < names.len()
        invariant
            all == names.deep_view(),
            i <= names@.len(),
            out@ == channels_of(all.take(i as int)),
        decreases names@.len() - i,
    {
        proof {
            assert(all.take(i + 1).drop_last() =~= all.take(i as int));
            assert(all.take(i + 1).last() == all[i as int]);
        }
        let low = lowercase(names[i].as_str());
        if let Some(k) = parse_channel_lower(low.as_str()) {
            out.push(k);
        }
        i += 1;
    }
    proof {
        assert(all.take(i as int) =~= all);
    }
    out
}

fn or_u32(o: Option<u32>, default: u32) -> (r: u32)
    ensures
        r == match o {
            Some(x) => x,
            None => default,
        },
{
    match o {
        Some(x) => x,
        None => default,
    }
}

/// The notification settings to save.
pub fn save_notification_settings(
    preferred_channels: &Vec<String>,
    escalation_timeout_secs: u64,
    quiet_hours_enabled: bool,
    quiet_start_hour: Option<u32>,
    quiet_start_minute: Option<u32>,
    quiet_end_hour: Option<u32>,
    quiet_end_minute: Option<u32>,
    quiet_allow_critical: Option<bool>,
) -> (r: NotificationConfig)
    ensures
        r.preferred_channels@ == saved_channels(preferred_channels.deep_view()),
        r.escalation_timeout_secs == escalation_timeout_secs,
        r.quiet_hours == if quiet_hours_enabled {
            Some(
                QuietHours {
                    start_hour: match quiet_start_hour {
                        Some(h) => h,
                        None => 22,
                    },
                    start_minute: match quiet_start_minute {
                        Some(m) => m,
                        None => 0,
                    },
                    end_hour: match quiet_end_hour {
                        Some(h) => h,
                        None => 8,
                    },
                    end_minute: match quiet_end_minute {
                        Some(m) => m,
                        None => 0,
                    },
                    allow_critical: match quiet_allow_critical {
                        Some(b) => b,
                        None => true,
                    },
                },
            )
        } else {
            None
        },
{
    let mut channels = parse_channels(preferred_channels);
    if channels.len() == 0 {
        channels.push(NotificationChannelKind::InApp);
        channels.push(NotificationChannelKind::Telegram);
        proof {
            assert(channels@ =~= seq![
                NotificationChannelKind::InApp,
                NotificationChannelKind::Telegram,
            ]);
        }
    }
    NotificationConfig {
        preferred_channels: channels,
        escalation_timeout_secs,
        quiet_hours: if quiet_hours_enabled {
            Some(
                QuietHours {
                    start_hour: or_u32(quiet_start_hour, 22),
                    start_minute: or_u32(quiet_start_minute, 0),
                    end_hour: or_u32(quiet_end_hour, 8),
                    end_minute: or_u32(quiet_end_minute, 0),
                    allow_critical: match quiet_allow_critical {
                        Some(b) => b,
                        None => true,
                    },
                },
            )
        } else {
            None
        },
    }
}

/// Whatever is saved, some channel is preferred.
pub proof fn some_channel_is_always_preferred(names: Seq<Seq<char>>)
    ensures
        saved_channels(names).len() > 0,
{
}

/// The name of a channel is read back as the channel.
proof fn lemma_channel_name(k: NotificationChannelKind)
    ensures
        channel_of_lower(lower_text(channel_name(k))) == Some(k),
{
    reveal_strlit("InApp");
    reveal_strlit("Telegram");
    reveal_strlit("inapp");
    reveal_strlit("in_app");
    reveal_strlit("telegram");
    assert(lowered("InApp"@) =~= "inapp"@);
    assert(lowered("Telegram"@) =~= "telegram"@);
    assert("telegram"@[0] == 't' && "inapp"@[0] == 'i' && "in_app"@[0] == 'i');
}

proof fn lemma_channels_read_back(ks: Seq<NotificationChannelKind>)
    ensures
        channels_of(channel_names(ks)) == ks,
    decreases ks.len(),
{
    if ks.len() > 0 {
        lemma_channels_read_back(ks.drop_last());
        lemma_channel_name(ks.last());
        assert(channel_names(ks).drop_last() =~= channel_names(ks.drop_last()));
        assert(channel_names(ks).last() == channel_name(ks.last()));
        assert(ks.drop_last().push(ks.last()) =~= ks);
    } else {
        assert(channels_of(channel_names(ks)) =~= ks);
    }
}

/// Saving the channels that are shown changes nothing.
pub proof fn shown_channels_save_unchanged(ks: Seq<NotificationChannelKind>)
    requires
        ks.len() > 0,
    ensures
        saved_channels(channel_names(ks)) == ks,
{
    lemma_channels_read_back(ks);
}

// ---------------------------------------------------------------------------
// Channels in use
// ---------------------------------------------------------------------------

/// The bot can reach the owner: it is enabled, has a token and knows the
/// owner.
pub open spec fn telegram_reaches_owner(t: TelegramConfig) -> bool {
    t.enabled && t.owner_user_id is Some && t.bot_token@.len() > 0
}

/// The owner that the bot can reach, if it can.
pub fn telegram_owner(t: &TelegramConfig) -> (r: Option<i64>)
    ensures
        r == if telegram_reaches_owner(*t) {
            t.owner_user_id
        } else {
            None
        },
{
    if t.enabled && !t.bot_token.as_str().is_empty() {
        t.owner_user_id
    } else {
        None
    }
}

/// The place of a channel in the order of preference; last where it is not
/// preferred at all.
pub open spec fn rank(preferred: Seq<NotificationChannelKind>, k: NotificationChannelKind, i: int)
    -> int
    decreases preferred.len() - i,
{
    if i < 0 || i >= preferred.len() {
        preferred.len() as int
    } else if preferred[i] == k {
        i
    } else {
        rank(preferred, k, i + 1)
    }
}

fn rank_of(preferred: &Vec<NotificationChannelKind>, k: NotificationChannelKind) -> (r: usize)
    ensures
        r == rank(preferred@, k, 0),
{
    let mut i: usize = 0;
    while i < preferred.len()
        invariant
            i <= preferred@.len(),
            rank(preferred@, k, 0) == rank(preferred@, k, i as int),
        decreases preferred@.len() - i,
    {
        if preferred[i] == k {
            return i;
        }
        i += 1;
    }
    i
}

/// The channels in use, the preferred one first; in-app comes first where
/// neither is preferred to the other.
pub open spec fn channels_in_use(
    in_app: bool,
    telegram: bool,
    preferred: Seq<NotificationChannelKind>,
) -> Seq<NotificationChannelKind> {
    if in_app && telegram {
        if rank(preferred, NotificationChannelKind::Telegram, 0) < rank(
            preferred,
            NotificationChannelKind::InApp,
            0,
        ) {
            seq![NotificationChannelKind::Telegram, NotificationChannelKind::InApp]
        } else {
            seq![NotificationChannelKind::InApp, NotificationChannelKind::Telegram]
        }
    } else if in_app {
        seq![NotificationChannelKind::InApp]
    } else if telegram {
        seq![NotificationChannelKind::Telegram]
    } else {
        Seq::empty()
    }
}

/// The channels that notifications are delivered on, in order: in-app where
/// there is a window, Telegram where the bot can reach the owner.
pub fn build_notifier(
    has_window: bool,
    telegram: &TelegramConfig,
    preferred: &Vec<NotificationChannelKind>,
) -> (r: Vec<NotificationChannelKind>)
    ensures
        r@ == channels_in_use(has_window, telegram_reaches_owner(*telegram), preferred@),
{
    let reachable = telegram_owner(telegram).is_some();
    let mut v: Vec<NotificationChannelKind> = Vec::new();
    if has_window && reachable {
        let t: usize = rank_of(preferred, NotificationChannelKind::Telegram);
        let a: usize = rank_of(preferred, NotificationChannelKind::InApp);
        if t < a {
            v.push(NotificationChannelKind::Telegram);
            v.push(NotificationChannelKind::InApp);
        } else {
            v.push(NotificationChannelKind::InApp);
            v.push(NotificationChannelKind::Telegram);
        }
    } else if has_window {
        v.push(NotificationChannelKind::InApp);
    } else if reachable {
        v.push(NotificationChannelKind::Telegram);
    }
    proof {
        assert(v@ =~= channels_in_use(
            has_window,
            telegram_reaches_owner(*telegram),
            preferred@,
        ));
    }
    v
}

/// How approvals are asked for.
pub struct ApprovalPlan {
    /// In-app, where there is a window or a remote client.
    pub in_app: bool,
    /// The owner to ask on Telegram.
    pub telegram_owner: Option<i64>,
    /// After how long the next channel is tried.
    pub escalation_secs: u64,
}

/// How approvals are asked for. Escalation waits at least fifteen seconds.
pub fn init_approval_router(
    has_window: bool,
    event_bus_active: bool,
    telegram: &TelegramConfig,
    escalation_timeout_secs: u64,
) -> (r: ApprovalPlan)
    ensures
        r.in_app == (has_window || event_bus_active),
        r.telegram_owner == if telegram_reaches_owner(*telegram) {
            telegram.owner_user_id
        } else {
            None
        },
        r.escalation_secs == if escalation_timeout_secs < 15 {
            15
        } else {
            escalation_timeout_secs
        },
{
    ApprovalPlan {
        in_app: has_window || event_bus_active,
        telegram_owner: telegram_owner(telegram),
        escalation_secs: if escalation_timeout_secs < 15 {
            15
        } else {
            escalation_timeout_secs
        },
    }
}

// ---------------------------------------------------------------------------
// What the notification settings promise
// ---------------------------------------------------------------------------

/// The page shows what is configured, channel by channel and field by field,
/// and usual hours where no quiet hours are set.
pub proof fn notification_settings_are_shown(
    info: NotificationSettingsInfo,
    config: NotificationConfig,
)
    requires
        shows_notifications(info, config),
    ensures
        info.preferred_channels@.len() == config.preferred_channels@.len(),
        forall|i: int|
            0 <= i < config.preferred_channels@.len() ==> info.preferred_channels@[i]@ == (match (
            #[trigger] config.preferred_channels@[i]) {
                NotificationChannelKind::InApp => "InApp"@,
                NotificationChannelKind::Telegram => "Telegram"@,
            }),
        info.escalation_timeout_secs == config.escalation_timeout_secs,
        info.quiet_hours_enabled <==> config.quiet_hours is Some,
        config.quiet_hours matches Some(q) ==> info.quiet_start_hour == q.start_hour
            && info.quiet_start_minute == q.start_minute && info.quiet_end_hour == q.end_hour
            && info.quiet_end_minute == q.end_minute && info.quiet_allow_critical
            == q.allow_critical,
        config.quiet_hours is None ==> info.quiet_start_hour == 22 && info.quiet_start_minute == 0
            && info.quiet_end_hour == 8 && info.quiet_end_minute == 0 && info.quiet_allow_critical,
{
    let shown = info.preferred_channels.deep_view();
    assert(shown.len() == info.preferred_channels@.len());
    assert forall|i: int| 0 <= i < config.preferred_channels@.len() implies
        info.preferred_channels@[i]@ == (match (#[trigger] config.preferred_channels@[i]) {
        NotificationChannelKind::InApp => "InApp"@,
        NotificationChannelKind::Telegram => "Telegram"@,
    }) by {
        assert(shown[i] == info.preferred_channels@[i]@);
        assert(shown[i] == channel_names(config.preferred_channels@)[i]);
    }
}

/// Names are read one by one, in order; a name that is unknown is left out,
/// and where nothing is left both channels are preferred, the app first.
pub proof fn channels_are_read_in_order(a: Seq<Seq<char>>, b: Seq<Seq<char>>, one: Seq<char>)
    ensures
        channels_of(a + b) == channels_of(a) + channels_of(b),
        lower_text(one) == "telegram"@ ==> channels_of(seq![one]) == seq![
            NotificationChannelKind::Telegram,
        ],
        lower_text(one) == "inapp"@ || lower_text(one) == "in_app"@ ==> channels_of(seq![one])
            == seq![NotificationChannelKind::InApp],
        lower_text(one) != "telegram"@ && lower_text(one) != "inapp"@ && lower_text(one)
            != "in_app"@ ==> channels_of(seq![one]).len() == 0,
        channels_of(a).len() > 0 ==> saved_channels(a) == channels_of(a),
        channels_of(a).len() == 0 ==> saved_channels(a) == seq![
            NotificationChannelKind::InApp,
            NotificationChannelKind::Telegram,
        ],
    decreases b.len(),
{
    if b.len() == 0 {
        assert(a + b =~= a);
        assert(channels_of(a) + channels_of(b) =~= channels_of(a));
    } else {
        channels_are_read_in_order(a, b.drop_last(), one);
        assert((a + b).drop_last() =~= a + b.drop_last());
        assert(channels_of(a + b) =~= channels_of(a) + channels_of(b));
    }
    reveal_strlit("telegram");
    reveal_strlit("inapp");
    reveal_strlit("in_app");
    assert("telegram"@.len() == 8 && "inapp"@.len() == 5 && "in_app"@.len() == 6);
    assert(seq![one].drop_last() =~= Seq::<Seq<char>>::empty());
    reveal_with_fuel(channels_of, 2);
    assert(channels_of(Seq::<Seq<char>>::empty()) =~= Seq::empty());
    match channel_of_lower(lower_text(one)) {
        Some(k) => assert(channels_of(seq![one]) =~= seq![k]),
        None => {},
    }
}

/// Telegram reaches the owner exactly where it is on, knows the owner and has
/// a token.
pub proof fn telegram_needs_owner_and_token(t: TelegramConfig)
    ensures
        telegram_reaches_owner(t) <==> t.enabled && t.owner_user_id is Some && t.bot_token@.len()
            > 0,
{
}

proof fn lemma_rank(preferred: Seq<NotificationChannelKind>, k: NotificationChannelKind, i: int)
    requires
        0 <= i <= preferred.len(),
    ensures
        i <= rank(preferred, k, i) <= preferred.len(),
        rank(preferred, k, i) < preferred.len() ==> preferred[rank(preferred, k, i)] == k,
        forall|j: int| i <= j < rank(preferred, k, i) ==> #[trigger] preferred[j] != k,
    decreases preferred.len() - i,
{
    if i < preferred.len() && preferred[i] != k {
        lemma_rank(preferred, k, i + 1);
    }
}

/// Every channel that is there is used, once. Telegram comes first exactly
/// where it is preferred and the app is not preferred before it.
pub proof fn preferred_channels_come_first(
    in_app: bool,
    telegram: bool,
    preferred: Seq<NotificationChannelKind>,
    i: int,
)
    requires
        0 <= i <= preferred.len(),
        forall|j: int| 0 <= j < i ==> #[trigger] preferred[j] != NotificationChannelKind::InApp,
        forall|j: int| 0 <= j < i ==> #[trigger] preferred[j] != NotificationChannelKind::Telegram,
    ensures
        ({
            let r = channels_in_use(in_app, telegram, preferred);
            &&& in_app && !telegram ==> r == seq![NotificationChannelKind::InApp]
            &&& !in_app && telegram ==> r == seq![NotificationChannelKind::Telegram]
            &&& !in_app && !telegram ==> r.len() == 0
            &&& in_app && telegram && i < preferred.len() && preferred[i]
                == NotificationChannelKind::Telegram ==> r == seq![
                NotificationChannelKind::Telegram,
                NotificationChannelKind::InApp,
            ]
            &&& in_app && telegram && (i == preferred.len() || preferred[i]
                == NotificationChannelKind::InApp) ==> r == seq![
                NotificationChannelKind::InApp,
                NotificationChannelKind::Telegram,
            ]
        }),
{
    lemma_rank(preferred, NotificationChannelKind::InApp, 0);
    lemma_rank(preferred, NotificationChannelKind::Telegram, 0);
}

} // verus!

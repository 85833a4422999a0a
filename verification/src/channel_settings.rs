//! Email and Telegram settings: what a save changes, and which identifiers
//! must not be the owner's own.

use vstd::prelude::*;
use vstd::string::*;
use crate::credentials::{
    SecretPlan, VaultAction, VaultState, is_secret_action, is_secret_plan, plan_secret,
    secret_in_vault, secret_on_disk,
};
use crate::models::copy_opt;
use crate::text::{
    CharClass, all_digits, ascii_lowercase, cat3, chars_of, decimal, decimal_i64, digits_value,
    first_from, first_index, is_blank, is_digit, join, joined, lemma_first_from, lowered,
    numerals_spell_their_number, owned, pair_views, parse_i64, split, split_from, split_once, trim,
    trim_spec,
};

verus! {

/// The email part of the configuration.
#[derive(Clone, Debug, PartialEq, Eq)]
pub struct EmailConfig {
    pub enabled: bool,
    pub imap_server: String,
    pub imap_port: u16,
    pub username: String,
    pub password: String,
    pub use_tls: bool,
    pub folders: Vec<String>,
    pub poll_interval_secs: u64,
    pub lookback_hours: u32,
    pub smtp_server: String,
    pub smtp_port: u16,
    pub smtp_username: String,
    pub smtp_password: String,
    pub smtp_use_tls: bool,
    pub from_address: String,
}

/// The Telegram part of the configuration.
#[derive(Clone, Debug, PartialEq, Eq)]
pub struct TelegramConfig {
    pub enabled: bool,
    pub bot_token: String,
    pub allowed_chat_ids: Vec<i64>,
    pub poll_interval_secs: u64,
    pub owner_user_id: Option<i64>,
}

// ---------------------------------------------------------------------------
// Identifiers that must not be the owner's
// ---------------------------------------------------------------------------

/// The bot's own user id: the number that the digits before the first colon
/// of its token spell. There is none where anything else stands there, or the
/// number is no user id.
pub open spec fn bot_id_of(token: Seq<char>) -> Option<Seq<char>> {
    let colon = first_from(token, CharClass::Is(':'), 0);
    let prefix = token.subrange(0, colon);
    if colon < token.len() && prefix.len() > 0 && all_digits(prefix) && digits_value(prefix)
        <= i64::MAX {
        Some(decimal(digits_value(prefix)))
    } else {
        None
    }
}

/// The bot's own user id, if the token has the form `<digits>:<secret>`.
pub fn bot_user_id_from_token(token: &str) -> (r: Option<String>)
    ensures
        r.deep_view() == bot_id_of(token@),
{
    match split_once(token, CharClass::Is(':')) {
        Some((prefix, _)) => {
            let v = chars_of(prefix.as_str());
            if v.len() == 0 || v[0] == '-' || v[0] == '+' {
                proof {
                    if prefix@.len() > 0 {
                        assert(!is_digit(prefix@[0]));
                    }
                }
                return None;
            }
            match parse_i64(prefix.as_str()) {
                Some(n) => Some(decimal_i64(n)),
                None => None,
            }
        },
        None => None,
    }
}

/// The rendering of each conflict.
pub open spec fn conflict_texts(conflicts: Seq<(Seq<char>, Seq<char>)>) -> Seq<Seq<char>> {
    conflicts.map_values(|p: (Seq<char>, Seq<char>)| p.0 + "="@ + p.1)
}

/// The error that lists every conflict.
pub open spec fn conflict_error(conflicts: Seq<(Seq<char>, Seq<char>)>) -> Seq<char> {
    "Conflicts with owner contact: "@ + joined(conflict_texts(conflicts), ", "@)
        + " (cannot be both you and Athen's identity)"@
}

/// Refuses identifiers that the owner contact already has. Without an owner
/// identifier or without a candidate there is nothing to conflict with.
pub fn validate_disjoint_from_owner(
    owner_has_identifiers: bool,
    candidates: &Vec<(String, String)>,
    conflicts: &Vec<(String, String)>,
) -> (r: Result<(), String>)
    ensures
        match r {
            Ok(_) => !is_refused(
                owner_has_identifiers,
                pair_views(candidates@),
                pair_views(conflicts@),
            ),
            Err(e) => is_refused(
                owner_has_identifiers,
                pair_views(candidates@),
                pair_views(conflicts@),
            ) && e@ == conflict_error(pair_views(conflicts@)),
        },
{
    if !owner_has_identifiers || candidates.len() == 0 || conflicts.len() == 0 {
        return Ok(());
    }
    let mut parts: Vec<String> = Vec::new();
    let mut i: usize = 0;
    let ghost all = conflict_texts(pair_views(conflicts@));
    while i < conflicts.len()
        invariant
            i <= conflicts@.len(),
            all == conflict_texts(pair_views(conflicts@)),
            parts.deep_view() == all.take(i as int),
        decreases conflicts@.len() - i,
    {
        let part = cat3(conflicts[i].0.as_str(), "=", conflicts[i].1.as_str());
        let ghost before = parts.deep_view();
        parts.push(part);
        proof {
            assert(parts.deep_view() =~= before.push(part@));
            assert(all.take(i + 1) =~= all.take(i as int).push(all[i as int]));
        }
        i += 1;
    }
    proof {
        assert(all.take(i as int) =~= all);
    }
    let list = join(&parts, ", ");
    Err(
        cat3(
            "Conflicts with owner contact: ",
            list.as_str(),
            " (cannot be both you and Athen's identity)",
        ),
    )
}

/// The text holds an at sign.
pub open spec fn has_at(s: Seq<char>) -> bool {
    first_from(s, CharClass::Is('@'), 0) < s.len()
}

fn contains_at(s: &str) -> (r: bool)
    ensures
        r == has_at(s@),
{
    let v = chars_of(s);
    first_index(&v, CharClass::Is('@'), 0) < v.len()
}

/// An email identifier, in lower case and without white space around it.
pub open spec fn email_identifier(s: Seq<char>) -> (Seq<char>, Seq<char>) {
    ("email"@, lowered(trim_spec(s)))
}

/// The identifiers that the incoming mail settings claim.
pub open spec fn imap_claims(username: Seq<char>) -> Seq<(Seq<char>, Seq<char>)> {
    if has_at(trim_spec(username)) {
        seq![email_identifier(username)]
    } else {
        Seq::empty()
    }
}

/// The identifiers that the outgoing mail settings claim.
pub open spec fn smtp_claims(from: Seq<char>, username: Seq<char>) -> Seq<
    (Seq<char>, Seq<char>),
> {
    let first = if trim_spec(from).len() > 0 {
        seq![email_identifier(from)]
    } else {
        Seq::empty()
    };
    first + imap_claims(username)
}

/// The identifiers that the Telegram settings claim. The token on disk may
/// have just been moved to the vault; then the vault's value counts.
pub open spec fn telegram_claims(on_disk: Seq<char>, in_vault: Option<Seq<char>>) -> Seq<
    (Seq<char>, Seq<char>),
> {
    let token = if on_disk.len() == 0 {
        match in_vault {
            Some(t) => t,
            None => on_disk,
        }
    } else {
        on_disk
    };
    match bot_id_of(token) {
        Some(id) => seq![("telegram_user"@, id)],
        None => Seq::empty(),
    }
}

/// The identifiers that the Telegram settings claim once a token is saved.
pub open spec fn saved_telegram_claims(
    incoming: Option<Seq<char>>,
    vault: VaultState,
    on_disk: Seq<char>,
) -> Seq<(Seq<char>, Seq<char>)> {
    telegram_claims(
        secret_on_disk(incoming, vault, on_disk, false),
        secret_in_vault(incoming, vault, on_disk, false),
    )
}

/// A save is refused: the owner has identifiers, the settings claim some, and
/// the two conflict.
pub open spec fn is_refused(
    owner_has_identifiers: bool,
    claims: Seq<(Seq<char>, Seq<char>)>,
    conflicts: Seq<(Seq<char>, Seq<char>)>,
) -> bool {
    owner_has_identifiers && claims.len() > 0 && conflicts.len() > 0
}

/// The identifiers that the incoming mail settings claim.
pub fn imap_candidates(username: &str) -> (r: Vec<(String, String)>)
    ensures
        pair_views(r@) == imap_claims(username@),
{
    let mut v: Vec<(String, String)> = Vec::new();
    let name = trim(username);
    if contains_at(name.as_str()) {
        v.push((owned("email"), ascii_lowercase(name.as_str())));
    }
    proof {
        assert(pair_views(v@) =~= imap_claims(username@));
    }
    v
}

/// The identifiers that the outgoing mail settings claim.
pub fn smtp_candidates(from_address: &str, smtp_username: &str) -> (r: Vec<(String, String)>)
    ensures
        pair_views(r@) == smtp_claims(from_address@, smtp_username@),
{
    let mut v: Vec<(String, String)> = Vec::new();
    let from = trim(from_address);
    if !from.as_str().is_empty() {
        v.push((owned("email"), ascii_lowercase(from.as_str())));
    }
    let name = trim(smtp_username);
    if contains_at(name.as_str()) {
        v.push((owned("email"), ascii_lowercase(name.as_str())));
    }
    proof {
        assert(pair_views(v@) =~= smtp_claims(from_address@, smtp_username@));
    }
    v
}

/// The identifiers that the Telegram settings claim once a token is saved.
pub fn telegram_candidates(bot_token: &Option<String>, vault: &VaultState, on_disk: &str) -> (r:
    Vec<(String, String)>)
    ensures
        pair_views(r@) == saved_telegram_claims(bot_token.deep_view(), *vault, on_disk@),
{
    let plan = plan_secret(copy_opt(bot_token), vault, on_disk, false);
    let SecretPlan { on_disk: kept, action } = plan;
    let token = if !kept.as_str().is_empty() {
        kept
    } else {
        match action {
            VaultAction::Store(t) => t,
            VaultAction::Migrate(t) => t,
            _ => match vault {
                VaultState::Holding(t) => t.clone(),
                _ => kept,
            },
        }
    };
    let mut v: Vec<(String, String)> = Vec::new();
    if let Some(id) = bot_user_id_from_token(token.as_str()) {
        v.push((owned("telegram_user"), id));
    }
    proof {
        assert(pair_views(v@) =~= saved_telegram_claims(bot_token.deep_view(), *vault, on_disk@));
    }
    v
}

// ---------------------------------------------------------------------------
// Saving
// ---------------------------------------------------------------------------

/// The parts without white space around them, blank ones left out.
pub open spec fn kept_parts(parts: Seq<Seq<char>>) -> Seq<Seq<char>>
    decreases parts.len(),
{
    if parts.len() == 0 {
        Seq::empty()
    } else {
        let before = kept_parts(parts.drop_last());
        let t = trim_spec(parts.last());
        if t.len() == 0 {
            before
        } else {
            before.push(t)
        }
    }
}

/// The folders that a comma-separated list names.
pub open spec fn folders_of(list: Seq<char>) -> Seq<Seq<char>> {
    kept_parts(split_from(list, CharClass::Is(','), 0))
}

/// The folders that a comma-separated list names.
pub fn parse_folders(list: &str) -> (r: Vec<String>)
    ensures
        r.deep_view() == folders_of(list@),
{
    let parts = split(list, CharClass::Is(','));
    let ghost all = parts.deep_view();
    let mut out: Vec<String> = Vec::new();
    let mut i: usize = 0;
    proof {
        assert(out.deep_view() =~= kept_parts(all.take(0)));
    }
    while i < parts.len()
        invariant
            all == parts.deep_view(),
            i <= parts@.len(),
            out.deep_view() == kept_parts(all.take(i as int)),
        decreases parts@.len() - i,
    {
        let t = trim(parts[i].as_str());
        proof {
            assert(all.take(i + 1).drop_last() =~= all.take(i as int));
            assert(all.take(i + 1).last() == all[i as int]);
        }
        if !t.as_str().is_empty() {
            let ghost before = out.deep_view();
            out.push(t);
            proof {
                assert(out.deep_view() =~= before.push(t@));
            }
        }
        i += 1;
    }
    proof {
        assert(all.take(i as int) =~= all);
    }
    out
}

/// Every folder that is kept is named: none is blank.
pub proof fn kept_folders_are_not_blank(parts: Seq<Seq<char>>, i: int)
    requires
        0 <= i < kept_parts(parts).len(),
    ensures
        kept_parts(parts)[i].len() > 0,
    decreases parts.len(),
{
    if i < kept_parts(parts.drop_last()).len() {
        kept_folders_are_not_blank(parts.drop_last(), i);
    }
}

/// The incoming mail settings that a save sets.
pub struct EmailSave {
    pub enabled: bool,
    pub imap_server: String,
    pub imap_port: u16,
    pub username: String,
    /// Absent or empty, the password is kept.
    pub password: Option<String>,
    pub use_tls: bool,
    /// A comma-separated list.
    pub folders: String,
    pub poll_interval_secs: u64,
    pub lookback_hours: u32,
}

/// What a save of channel settings comes to.
#[derive(Clone, Debug, PartialEq, Eq)]
pub struct ChannelSave {
    /// What to do to the vault. This comes first, also where the save is
    /// refused.
    pub vault: VaultAction,
    /// Why the configuration is not written, where it is not.
    pub refusal: Option<String>,
}

/// `after` is `before` with the incoming mail settings saved; the outgoing
/// ones do not change.
pub open spec fn is_email_saved(
    before: EmailConfig,
    after: EmailConfig,
    save: EmailSave,
    vault: VaultState,
    action: VaultAction,
) -> bool {
    &&& is_secret_plan(
        SecretPlan { on_disk: after.password, action },
        save.password.deep_view(),
        vault,
        before.password@,
        false,
    )
    &&& after.folders.deep_view() == folders_of(save.folders@)
    &&& after == EmailConfig {
        enabled: save.enabled,
        imap_server: save.imap_server,
        imap_port: save.imap_port,
        username: save.username,
        password: after.password,
        use_tls: save.use_tls,
        folders: after.folders,
        poll_interval_secs: save.poll_interval_secs,
        lookback_hours: save.lookback_hours,
        ..before
    }
}

/// Saves the incoming mail settings, unless they claim an identifier of the
/// owner: a sender could then pass as the owner. `conflicts` are the claims
/// among `imap_candidates` that the owner has. A refused save leaves the
/// configuration as it is; what it gave for the password goes to the vault
/// either way.
pub fn save_email_settings(
    config: &mut EmailConfig,
    save: EmailSave,
    vault: &VaultState,
    owner_has_identifiers: bool,
    conflicts: &Vec<(String, String)>,
) -> (r: ChannelSave)
    ensures
        ({
            let refused = is_refused(
                owner_has_identifiers,
                imap_claims(save.username@),
                pair_views(conflicts@),
            );
            &&& is_secret_action(
                r.vault,
                save.password.deep_view(),
                *vault,
                old(config).password@,
                false,
            )
            &&& match r.refusal {
                None => !refused && is_email_saved(
                    *old(config),
                    *final(config),
                    save,
                    *vault,
                    r.vault,
                ),
                Some(e) => refused && e@ == conflict_error(pair_views(conflicts@)) && *final(config)
                    == *old(config),
            }
        }),
{
    let claims = imap_candidates(save.username.as_str());
    let plan = plan_secret(save.password, vault, config.password.as_str(), false);
    let SecretPlan { on_disk, action } = plan;
    if let Err(e) = validate_disjoint_from_owner(owner_has_identifiers, &claims, conflicts) {
        return ChannelSave { vault: action, refusal: Some(e) };
    }
    config.enabled = save.enabled;
    config.imap_server = save.imap_server;
    config.imap_port = save.imap_port;
    config.username = save.username;
    config.password = on_disk;
    config.use_tls = save.use_tls;
    config.folders = parse_folders(save.folders.as_str());
    config.poll_interval_secs = save.poll_interval_secs;
    config.lookback_hours = save.lookback_hours;
    ChannelSave { vault: action, refusal: None }
}

/// The outgoing mail settings that a save sets.
pub struct SmtpSave {
    pub smtp_server: String,
    pub smtp_port: u16,
    pub smtp_username: String,
    /// Absent or empty, the password is kept.
    pub smtp_password: Option<String>,
    pub smtp_use_tls: bool,
    pub from_address: String,
}

/// `after` is `before` with the outgoing mail settings saved; the incoming
/// ones do not change.
pub open spec fn is_smtp_saved(
    before: EmailConfig,
    after: EmailConfig,
    save: SmtpSave,
    vault: VaultState,
    action: VaultAction,
) -> bool {
    &&& is_secret_plan(
        SecretPlan { on_disk: after.smtp_password, action },
        save.smtp_password.deep_view(),
        vault,
        before.smtp_password@,
        false,
    )
    &&& after == EmailConfig {
        smtp_server: save.smtp_server,
        smtp_port: save.smtp_port,
        smtp_username: save.smtp_username,
        smtp_password: after.smtp_password,
        smtp_use_tls: save.smtp_use_tls,
        from_address: save.from_address,
        ..before
    }
}

/// Saves the outgoing mail settings, unless they claim an identifier of the
/// owner. `conflicts` are the claims among `smtp_candidates` that the owner
/// has. A refused save leaves the configuration as it is; what it gave for the
/// password goes to the vault either way.
pub fn save_smtp_settings(
    config: &mut EmailConfig,
    save: SmtpSave,
    vault: &VaultState,
    owner_has_identifiers: bool,
    conflicts: &Vec<(String, String)>,
) -> (r: ChannelSave)
    ensures
        ({
            let refused = is_refused(
                owner_has_identifiers,
                smtp_claims(save.from_address@, save.smtp_username@),
                pair_views(conflicts@),
            );
            &&& is_secret_action(
                r.vault,
                save.smtp_password.deep_view(),
                *vault,
                old(config).smtp_password@,
                false,
            )
            &&& match r.refusal {
                None => !refused && is_smtp_saved(
                    *old(config),
                    *final(config),
                    save,
                    *vault,
                    r.vault,
                ),
                Some(e) => refused && e@ == conflict_error(pair_views(conflicts@)) && *final(config)
                    == *old(config),
            }
        }),
{
    let claims = smtp_candidates(save.from_address.as_str(), save.smtp_username.as_str());
    let plan = plan_secret(save.smtp_password, vault, config.smtp_password.as_str(), false);
    let SecretPlan { on_disk, action } = plan;
    if let Err(e) = validate_disjoint_from_owner(owner_has_identifiers, &claims, conflicts) {
        return ChannelSave { vault: action, refusal: Some(e) };
    }
    config.smtp_server = save.smtp_server;
    config.smtp_port = save.smtp_port;
    config.smtp_username = save.smtp_username;
    config.smtp_password = on_disk;
    config.smtp_use_tls = save.smtp_use_tls;
    config.from_address = save.from_address;
    ChannelSave { vault: action, refusal: None }
}

/// The Telegram settings that a save sets.
pub struct TelegramSave {
    pub enabled: bool,
    /// Absent or empty, the token is kept.
    pub bot_token: Option<String>,
    pub allowed_chat_ids: Vec<i64>,
    /// Absent, the interval is kept.
    pub poll_interval_secs: Option<u64>,
}

/// `after` is `before` with the Telegram settings saved; the owner does not
/// change.
pub open spec fn is_telegram_saved(
    before: TelegramConfig,
    after: TelegramConfig,
    save: TelegramSave,
    vault: VaultState,
    action: VaultAction,
) -> bool {
    &&& is_secret_plan(
        SecretPlan { on_disk: after.bot_token, action },
        save.bot_token.deep_view(),
        vault,
        before.bot_token@,
        false,
    )
    &&& after == TelegramConfig {
        enabled: save.enabled,
        bot_token: after.bot_token,
        allowed_chat_ids: save.allowed_chat_ids,
        poll_interval_secs: match save.poll_interval_secs {
            Some(i) => i,
            None => before.poll_interval_secs,
        },
        owner_user_id: before.owner_user_id,
    }
}

/// Saves the Telegram settings, unless the bot is the owner's own account.
/// `conflicts` are the claims among `telegram_candidates` that the owner has.
/// A refused save leaves the configuration as it is; what it gave for the token
/// goes to the vault either way.
pub fn save_telegram_settings(
    config: &mut TelegramConfig,
    save: TelegramSave,
    vault: &VaultState,
    owner_has_identifiers: bool,
    conflicts: &Vec<(String, String)>,
) -> (r: ChannelSave)
    ensures
        ({
            let refused = is_refused(
                owner_has_identifiers,
                saved_telegram_claims(save.bot_token.deep_view(), *vault, old(config).bot_token@),
                pair_views(conflicts@),
            );
            &&& is_secret_action(
                r.vault,
                save.bot_token.deep_view(),
                *vault,
                old(config).bot_token@,
                false,
            )
            &&& match r.refusal {
                None => !refused && is_telegram_saved(
                    *old(config),
                    *final(config),
                    save,
                    *vault,
                    r.vault,
                ),
                Some(e) => refused && e@ == conflict_error(pair_views(conflicts@)) && *final(config)
                    == *old(config),
            }
        }),
{
    let claims = telegram_candidates(&save.bot_token, vault, config.bot_token.as_str());
    let plan = plan_secret(save.bot_token, vault, config.bot_token.as_str(), false);
    let SecretPlan { on_disk, action } = plan;
    if let Err(e) = validate_disjoint_from_owner(owner_has_identifiers, &claims, conflicts) {
        return ChannelSave { vault: action, refusal: Some(e) };
    }
    config.enabled = save.enabled;
    config.bot_token = on_disk;
    config.allowed_chat_ids = save.allowed_chat_ids;
    if let Some(i) = save.poll_interval_secs {
        config.poll_interval_secs = i;
    }
    ChannelSave { vault: action, refusal: None }
}

/// A save without a token claims the identifiers of the token in use: moving
/// it from the disk into the vault changes none of them.
pub proof fn claims_are_those_of_the_token_in_use(vault: VaultState, on_disk: Seq<char>)
    requires
        vault.wf(),
        on_disk.len() == 0 || vault.value() is None,
    ensures
        saved_telegram_claims(None, vault, on_disk) == telegram_claims(on_disk, vault.value()),
{
}

/// What the tests of the outgoing mail settings refuse before connecting.
pub fn smtp_test_refusal(smtp_server: &str, from_address: &str) -> (r: Option<String>)
    ensures
        r.deep_view() == if trim_spec(smtp_server@).len() == 0 {
            Some("SMTP server required"@)
        } else if trim_spec(from_address@).len() == 0 {
            Some("From address required"@)
        } else {
            None
        },
{
    if is_blank(smtp_server) {
        Some(owned("SMTP server required"))
    } else if is_blank(from_address) {
        Some(owned("From address required"))
    } else {
        None
    }
}

/// Whether mail can be sent: a server and a sender are configured.
pub fn build_email_sender(config: &EmailConfig) -> (r: bool)
    ensures
        r == (trim_spec(config.smtp_server@).len() > 0 && trim_spec(config.from_address@).len()
            > 0),
{
    !is_blank(config.smtp_server.as_str()) && !is_blank(config.from_address.as_str())
}

/// Where outgoing Telegram messages go by default, if the bot can send at
/// all: the owner's chat from the contacts, else the configured owner.
pub fn build_telegram_sender(config: &TelegramConfig, owner_chat: Option<i64>) -> (r: Option<
    Option<i64>,
>)
    ensures
        r == if config.enabled && trim_spec(config.bot_token@).len() > 0 {
            Some(
                match owner_chat {
                    Some(c) => Some(c),
                    None => config.owner_user_id,
                },
            )
        } else {
            None
        },
{
    if !config.enabled || is_blank(config.bot_token.as_str()) {
        return None;
    }
    match owner_chat {
        Some(c) => Some(Some(c)),
        None => Some(config.owner_user_id),
    }
}

// ---------------------------------------------------------------------------
// What the settings promise
// ---------------------------------------------------------------------------

/// A token that starts with a number and a colon belongs to the account of
/// that number; what follows the colon does not matter. Anything else in front
/// of the first colon, or no colon at all, belongs to none.
pub proof fn tokens_begin_with_the_bot(d: Seq<char>, rest: Seq<char>, other: Seq<char>, n: nat)
    requires
        forall|i: int| 0 <= i < d.len() ==> #[trigger] d[i] != ':',
        forall|i: int| 0 <= i < other.len() ==> #[trigger] other[i] != ':',
    ensures
        d.len() > 0 && all_digits(d) && digits_value(d) <= i64::MAX ==> bot_id_of(
            d + seq![':'] + rest,
        ) == Some(decimal(digits_value(d))),
        d.len() == 0 || !all_digits(d) || digits_value(d) > i64::MAX ==> bot_id_of(
            d + seq![':'] + rest,
        ) is None,
        bot_id_of(other) is None,
        n <= i64::MAX ==> bot_id_of(decimal(n) + seq![':'] + rest) == Some(decimal(n)),
{
    lemma_colon(d, rest);
    lemma_first_from(other, CharClass::Is(':'), 0);
    numerals_spell_their_number(n);
    let m = decimal(n);
    assert forall|i: int| 0 <= i < m.len() implies #[trigger] m[i] != ':' by {
        assert(is_digit(m[i]));
    }
    lemma_colon(m, rest);
}

proof fn lemma_colon(d: Seq<char>, rest: Seq<char>)
    requires
        forall|i: int| 0 <= i < d.len() ==> #[trigger] d[i] != ':',
    ensures
        first_from(d + seq![':'] + rest, CharClass::Is(':'), 0) == d.len(),
        (d + seq![':'] + rest).subrange(0, d.len() as int) == d,
{
    let t = d + seq![':'] + rest;
    lemma_first_from(t, CharClass::Is(':'), 0);
    let j = first_from(t, CharClass::Is(':'), 0);
    assert(t[d.len() as int] == ':');
    if j < d.len() {
        assert(t[j] == d[j]);
    }
    assert(t.subrange(0, d.len() as int) =~= d);
}

/// A name claims an address exactly where it holds an at sign, and then the
/// address in lower case, without white space around it.
pub proof fn names_with_an_at_sign_claim_an_address(name: Seq<char>)
    ensures
        (exists|i: int| 0 <= i < trim_spec(name).len() && #[trigger] trim_spec(name)[i] == '@')
            ==> imap_claims(name) == seq![("email"@, lowered(trim_spec(name)))],
        !(exists|i: int| 0 <= i < trim_spec(name).len() && #[trigger] trim_spec(name)[i] == '@')
            ==> imap_claims(name).len() == 0,
{
    let t = trim_spec(name);
    lemma_first_from(t, CharClass::Is('@'), 0);
}

/// Outgoing mail claims its sender, wherever there is one, before whatever its
/// account claims.
pub proof fn senders_are_claimed_first(from: Seq<char>, username: Seq<char>)
    ensures
        trim_spec(from).len() > 0 ==> smtp_claims(from, username) == seq![
            ("email"@, lowered(trim_spec(from))),
        ] + imap_claims(username),
        trim_spec(from).len() == 0 ==> smtp_claims(from, username) == imap_claims(username),
{
    assert(Seq::<(Seq<char>, Seq<char>)>::empty() + imap_claims(username) =~= imap_claims(
        username,
    ));
}

/// The Telegram settings claim the account of their token: the one on disk,
/// or, where none is there, the vault's.
pub proof fn tokens_claim_their_account(
    on_disk: Seq<char>,
    in_vault: Option<Seq<char>>,
    token: Seq<char>,
)
    requires
        on_disk.len() > 0 ==> token == on_disk,
        on_disk.len() == 0 ==> in_vault == Some(token) || (in_vault is None && token == on_disk),
    ensures
        bot_id_of(token) matches Some(id) ==> telegram_claims(on_disk, in_vault) == seq![
            ("telegram_user"@, id),
        ],
        bot_id_of(token) is None ==> telegram_claims(on_disk, in_vault).len() == 0,
{
}

/// A token that is being saved is the one whose account is claimed.
pub proof fn saved_tokens_claim_their_account(
    token: Seq<char>,
    vault: VaultState,
    on_disk: Seq<char>,
)
    requires
        token.len() > 0,
    ensures
        bot_id_of(token) matches Some(id) ==> saved_telegram_claims(Some(token), vault, on_disk)
            == seq![("telegram_user"@, id)],
        bot_id_of(token) is None ==> saved_telegram_claims(Some(token), vault, on_disk).len() == 0,
{
}

/// A save is refused exactly where the owner has identifiers and one of the
/// claims is among them; the error lists every conflict, in order.
pub proof fn conflicts_are_refused_and_listed(
    owner: bool,
    claims: Seq<(Seq<char>, Seq<char>)>,
    conflicts: Seq<(Seq<char>, Seq<char>)>,
)
    ensures
        is_refused(owner, claims, conflicts) <==> owner && claims.len() > 0 && conflicts.len() > 0,
        conflict_texts(conflicts).len() == conflicts.len(),
        forall|i: int|
            0 <= i < conflicts.len() ==> #[trigger] conflict_texts(conflicts)[i] == conflicts[i].0
                + "="@ + conflicts[i].1,
        conflict_error(conflicts) == "Conflicts with owner contact: "@ + joined(
            conflict_texts(conflicts),
            ", "@,
        ) + " (cannot be both you and Athen's identity)"@,
{
}

/// Folders are kept one by one, in order, each without white space around it;
/// blank ones are left out.
pub proof fn folders_are_kept_in_order(a: Seq<Seq<char>>, b: Seq<Seq<char>>, one: Seq<char>)
    ensures
        kept_parts(a + b) == kept_parts(a) + kept_parts(b),
        trim_spec(one).len() > 0 ==> kept_parts(seq![one]) == seq![trim_spec(one)],
        trim_spec(one).len() == 0 ==> kept_parts(seq![one]).len() == 0,
    decreases b.len(),
{
    if b.len() == 0 {
        assert(a + b =~= a);
        assert(kept_parts(a) + kept_parts(b) =~= kept_parts(a));
    } else {
        folders_are_kept_in_order(a, b.drop_last(), one);
        assert((a + b).drop_last() =~= a + b.drop_last());
        assert(kept_parts(a + b) =~= kept_parts(a) + kept_parts(b));
    }
    assert(seq![one].drop_last() =~= Seq::<Seq<char>>::empty());
    reveal_with_fuel(kept_parts, 2);
    if trim_spec(one).len() > 0 {
        assert(kept_parts(seq![one]) =~= seq![trim_spec(one)]);
    }
}

/// A list without a comma names one folder, and a comma ends the first of a
/// longer list.
pub proof fn commas_part_folders(one: Seq<char>, rest: Seq<char>)
    requires
        forall|i: int| 0 <= i < one.len() ==> #[trigger] one[i] != ',',
    ensures
        folders_of(one) == kept_parts(seq![one]),
        folders_of(one + seq![','] + rest) == kept_parts(seq![one]) + folders_of(rest),
{
    lemma_first_from(one, CharClass::Is(','), 0);
    assert(one.subrange(0, one.len() as int) =~= one);
    assert(split_from(one, CharClass::Is(','), 0) =~= seq![one]);
    let s = one + seq![','] + rest;
    let n = one.len() as int;
    lemma_first_from(s, CharClass::Is(','), 0);
    let j = first_from(s, CharClass::Is(','), 0);
    assert(s[n] == ',');
    if j < n {
        assert(s[j] == one[j]);
    }
    assert(j == n);
    assert(s.subrange(0, n) =~= one);
    assert(s.subrange(n + 1, s.len() as int) =~= rest);
    lemma_split_suffix(s, n + 1, rest, 0);
    folders_are_kept_in_order(seq![one], split_from(rest, CharClass::Is(','), 0), one);
}

proof fn lemma_split_suffix(s: Seq<char>, n: int, rest: Seq<char>, from: int)
    requires
        0 <= n <= s.len(),
        s.subrange(n, s.len() as int) == rest,
        0 <= from <= rest.len(),
    ensures
        split_from(s, CharClass::Is(','), n + from) == split_from(rest, CharClass::Is(','), from),
    decreases rest.len() - from,
{
    let k = CharClass::Is(',');
    lemma_first_from(s, k, n + from);
    lemma_first_from(rest, k, from);
    let a = first_from(s, k, n + from);
    let b = first_from(rest, k, from);
    assert forall|i: int| 0 <= i < rest.len() implies rest[i] == #[trigger] s[n + i] by {
        assert(s.subrange(n, s.len() as int)[i] == s[n + i]);
    }
    assert(a == n + b) by {
        if a < n + b {
            assert(rest[a - n] == s[n + (a - n)]);
        } else if a > n + b {
            assert(rest[b] == s[n + b]);
        }
    }
    assert(s.subrange(n + from, s.len() as int) =~= rest.subrange(from, rest.len() as int));
    if b < rest.len() {
        lemma_split_suffix(s, n, rest, b + 1);
        assert(s.subrange(n + from, a) =~= rest.subrange(from, b));
    }
}

/// Saving the incoming mail settings takes over what was entered and leaves
/// the outgoing ones alone.
pub proof fn incoming_mail_is_saved_as_entered(
    before: EmailConfig,
    after: EmailConfig,
    save: EmailSave,
    vault: VaultState,
    action: VaultAction,
)
    requires
        is_email_saved(before, after, save, vault, action),
    ensures
        after.enabled == save.enabled,
        after.imap_server == save.imap_server,
        after.imap_port == save.imap_port,
        after.username == save.username,
        after.use_tls == save.use_tls,
        after.folders.deep_view() == folders_of(save.folders@),
        after.poll_interval_secs == save.poll_interval_secs,
        after.lookback_hours == save.lookback_hours,
        is_secret_plan(
            SecretPlan { on_disk: after.password, action },
            save.password.deep_view(),
            vault,
            before.password@,
            false,
        ),
        after.smtp_server == before.smtp_server,
        after.smtp_port == before.smtp_port,
        after.smtp_username == before.smtp_username,
        after.smtp_password == before.smtp_password,
        after.smtp_use_tls == before.smtp_use_tls,
        after.from_address == before.from_address,
{
}

/// Saving the outgoing mail settings takes over what was entered and leaves
/// the incoming ones alone.
pub proof fn outgoing_mail_is_saved_as_entered(
    before: EmailConfig,
    after: EmailConfig,
    save: SmtpSave,
    vault: VaultState,
    action: VaultAction,
)
    requires
        is_smtp_saved(before, after, save, vault, action),
    ensures
        after.smtp_server == save.smtp_server,
        after.smtp_port == save.smtp_port,
        after.smtp_username == save.smtp_username,
        after.smtp_use_tls == save.smtp_use_tls,
        after.from_address == save.from_address,
        is_secret_plan(
            SecretPlan { on_disk: after.smtp_password, action },
            save.smtp_password.deep_view(),
            vault,
            before.smtp_password@,
            false,
        ),
        after.enabled == before.enabled,
        after.imap_server == before.imap_server,
        after.imap_port == before.imap_port,
        after.username == before.username,
        after.password == before.password,
        after.use_tls == before.use_tls,
        after.folders == before.folders,
        after.poll_interval_secs == before.poll_interval_secs,
        after.lookback_hours == before.lookback_hours,
{
}

/// Saving the Telegram settings takes over what was entered, keeps the
/// interval where none was, and never changes the owner.
pub proof fn telegram_is_saved_as_entered(
    before: TelegramConfig,
    after: TelegramConfig,
    save: TelegramSave,
    vault: VaultState,
    action: VaultAction,
)
    requires
        is_telegram_saved(before, after, save, vault, action),
    ensures
        after.enabled == save.enabled,
        after.allowed_chat_ids == save.allowed_chat_ids,
        save.poll_interval_secs matches Some(n) ==> after.poll_interval_secs == n,
        save.poll_interval_secs is None ==> after.poll_interval_secs == before.poll_interval_secs,
        after.owner_user_id == before.owner_user_id,
        is_secret_plan(
            SecretPlan { on_disk: after.bot_token, action },
            save.bot_token.deep_view(),
            vault,
            before.bot_token@,
            false,
        ),
{
}

/// An empty token changes nothing, so what is claimed stays the account of the
/// token in use.
pub proof fn empty_tokens_claim_what_is_in_use(vault: VaultState, on_disk: Seq<char>)
    requires
        !(vault is Absent) || vault.value() is None,
    ensures
        saved_telegram_claims(Some(Seq::empty()), vault, on_disk) == telegram_claims(
            on_disk,
            vault.value(),
        ),
{
}

} // verus!

//! Setup that the assistant performs on the user's behalf: mail, calendars,
//! Telegram, the owner's details and web search.

use vstd::prelude::*;
use vstd::string::*;
use crate::attachments::TrustLevel;
use crate::calendar_sources::CalendarConfig;
use crate::channel_settings::{EmailConfig, TelegramConfig};
use crate::embeddings::EmbeddingMode;
use crate::json::{
    array, array_text, bool_at, bool_text, boolean, json_bool, json_nested_string, json_quoted,
    json_string, nested_string_at, object, object_text, optional, optional_text, quoted, string_at,
};
use crate::models::Timestamp;
use crate::probes::SearchBackend;
use crate::settings::WebSearchConfig;
use crate::text::{
    cat2, cat3, cat4, cat5, decimal, decimal_u64, i64_value, is_blank, join, joined, owned,
    pair_views, parse_i64, str_eq, trim, trim_spec,
};

verus! {

fn row(v: &mut Vec<(String, String)>, key: &str, value: String)
    ensures
        pair_views(final(v)@) == pair_views(old(v)@).push((key@, value@)),
{
    let ghost before = pair_views(v@);
    v.push((owned(key), value));
    proof {
        assert(pair_views(v@) =~= before.push((key@, value@)));
    }
}

fn rows() -> (r: Vec<(String, String)>)
    ensures
        pair_views(r@) == Seq::<(Seq<char>, Seq<char>)>::empty(),
{
    let v: Vec<(String, String)> = Vec::new();
    proof {
        assert(pair_views(v@) =~= Seq::empty());
    }
    v
}

// ---------------------------------------------------------------------------
// Mail
// ---------------------------------------------------------------------------

/// How a mail connection is secured.
#[derive(Clone, Copy, Debug, PartialEq, Eq, Structural)]
pub enum Security {
    Plain,
    StartTls,
    Ssl,
}

/// A mail server.
#[derive(Clone, Debug)]
pub struct ServerHint {
    pub host: String,
    pub port: u16,
    pub security: Security,
}

/// The servers found for an address.
#[derive(Clone, Debug)]
pub struct EmailHint {
    pub display_name: String,
    pub incoming: ServerHint,
    pub outgoing: ServerHint,
}

/// How one side of a mail test went.
#[derive(Clone, Debug)]
pub struct SideResult {
    pub ok: bool,
    pub error: Option<String>,
    pub stage: Option<String>,
}

/// The answer where no server was found for an address.
pub fn no_servers_found() -> (r: String)
    ensures
        r@
            == "Could not autodetect servers for that address. Ask the user for the IMAP/SMTP server details."@,
{
    owned(
        "Could not autodetect servers for that address. Ask the user for the IMAP/SMTP server details.",
    )
}

/// The reply to a test that failed on either side.
pub open spec fn email_failure_reply(imap: SideResult, smtp: SideResult) -> Seq<char> {
    object_text(
        seq![
            ("imap_error"@, optional_text(imap.error.deep_view())),
            ("imap_ok"@, bool_text(imap.ok)),
            ("imap_stage"@, optional_text(imap.stage.deep_view())),
            (
                "message"@,
                json_quoted(
                    "Connection test failed. Check the error details and help the user fix them."@,
                ),
            ),
            ("ok"@, bool_text(false)),
            ("smtp_error"@, optional_text(smtp.error.deep_view())),
            ("smtp_ok"@, bool_text(smtp.ok)),
            ("smtp_stage"@, optional_text(smtp.stage.deep_view())),
        ],
    )
}

/// The reply to a test that failed on either side; none where both passed.
pub fn email_test_reply(imap: &SideResult, smtp: &SideResult) -> (r: Option<String>)
    ensures
        r.deep_view() == if imap.ok && smtp.ok {
            None
        } else {
            Some(email_failure_reply(*imap, *smtp))
        },
{
    if imap.ok && smtp.ok {
        return None;
    }
    let mut v = rows();
    row(&mut v, "imap_error", optional(&imap.error));
    row(&mut v, "imap_ok", owned(boolean(imap.ok)));
    row(&mut v, "imap_stage", optional(&imap.stage));
    row(
        &mut v,
        "message",
        quoted("Connection test failed. Check the error details and help the user fix them."),
    );
    row(&mut v, "ok", owned(boolean(false)));
    row(&mut v, "smtp_error", optional(&smtp.error));
    row(&mut v, "smtp_ok", owned(boolean(smtp.ok)));
    row(&mut v, "smtp_stage", optional(&smtp.stage));
    proof {
        assert(pair_views(v@) =~= seq![
            ("imap_error"@, optional_text(imap.error.deep_view())),
            ("imap_ok"@, bool_text(imap.ok)),
            ("imap_stage"@, optional_text(imap.stage.deep_view())),
            (
                "message"@,
                json_quoted(
                    "Connection test failed. Check the error details and help the user fix them."@,
                ),
            ),
            ("ok"@, bool_text(false)),
            ("smtp_error"@, optional_text(smtp.error.deep_view())),
            ("smtp_ok"@, bool_text(smtp.ok)),
            ("smtp_stage"@, optional_text(smtp.stage.deep_view())),
        ]);
    }
    Some(object(&v))
}

/// `c` is the mail configuration for the address and its servers. Passwords
/// stay in the vault.
pub open spec fn is_email_setup(c: EmailConfig, address: Seq<char>, hint: EmailHint) -> bool {
    &&& c.enabled
    &&& c.imap_server == hint.incoming.host
    &&& c.imap_port == hint.incoming.port
    &&& c.username@ == address
    &&& c.password@.len() == 0
    &&& c.use_tls == (hint.incoming.security == Security::Ssl)
    &&& c.folders.deep_view() == seq!["INBOX"@]
    &&& c.poll_interval_secs == 60
    &&& c.lookback_hours == 24
    &&& c.smtp_server == hint.outgoing.host
    &&& c.smtp_port == hint.outgoing.port
    &&& c.smtp_username@ == address
    &&& c.smtp_password@.len() == 0
    &&& c.smtp_use_tls == (hint.outgoing.security == Security::Ssl || hint.outgoing.security
        == Security::StartTls)
    &&& c.from_address@ == address
}

/// The reply to a mail setup that worked.
pub open spec fn email_success_reply(provider: Seq<char>) -> Seq<char> {
    object_text(
        seq![
            ("imap_ok"@, bool_text(true)),
            ("message"@, json_quoted("Email configured. Restart to start monitoring."@)),
            ("ok"@, bool_text(true)),
            ("provider"@, json_quoted(provider)),
            ("smtp_ok"@, bool_text(true)),
        ],
    )
}

/// Sets up mail for an address, once both sides have been tested and the
/// passwords are in the vault. The result is the new configuration and the
/// reply.
pub fn do_setup_email(address: &str, hint: &EmailHint) -> (r: (EmailConfig, String))
    ensures
        is_email_setup(r.0, address@, *hint),
        r.1@ == email_success_reply(hint.display_name@),
{
    let mut folders: Vec<String> = Vec::new();
    folders.push(owned("INBOX"));
    proof {
        assert(folders.deep_view() =~= seq!["INBOX"@]);
    }
    let config = EmailConfig {
        enabled: true,
        imap_server: hint.incoming.host.clone(),
        imap_port: hint.incoming.port,
        username: owned(address),
        password: String::new(),
        use_tls: hint.incoming.security == Security::Ssl,
        folders,
        poll_interval_secs: 60,
        lookback_hours: 24,
        smtp_server: hint.outgoing.host.clone(),
        smtp_port: hint.outgoing.port,
        smtp_username: owned(address),
        smtp_password: String::new(),
        smtp_use_tls: hint.outgoing.security == Security::Ssl || hint.outgoing.security
            == Security::StartTls,
        from_address: owned(address),
    };
    let mut v = rows();
    row(&mut v, "imap_ok", owned(boolean(true)));
    row(&mut v, "message", quoted("Email configured. Restart to start monitoring."));
    row(&mut v, "ok", owned(boolean(true)));
    row(&mut v, "provider", quoted(hint.display_name.as_str()));
    row(&mut v, "smtp_ok", owned(boolean(true)));
    proof {
        assert(pair_views(v@) =~= seq![
            ("imap_ok"@, bool_text(true)),
            ("message"@, json_quoted("Email configured. Restart to start monitoring."@)),
            ("ok"@, bool_text(true)),
            ("provider"@, json_quoted(hint.display_name@)),
            ("smtp_ok"@, bool_text(true)),
        ]);
    }
    (config, object(&v))
}

// ---------------------------------------------------------------------------
// Calendars
// ---------------------------------------------------------------------------

/// The CalDAV address of a provider, where it is known or given.
pub open spec fn caldav_url(provider: Seq<char>, username: Seq<char>, base_url: Option<Seq<char>>)
    -> Option<Seq<char>> {
    if provider == "icloud"@ {
        Some("https://caldav.icloud.com/"@)
    } else if provider == "google"@ {
        Some("https://apidata.googleusercontent.com/caldav/v2/"@ + username + "/events/"@)
    } else if provider == "fastmail"@ {
        Some("https://caldav.fastmail.com/"@)
    } else if provider == "yandex"@ {
        Some("https://caldav.yandex.com/"@)
    } else if provider == "nextcloud"@ || provider == "custom"@ {
        match base_url {
            Some(u) => if u.len() > 0 {
                Some(u)
            } else {
                None
            },
            None => None,
        }
    } else {
        None
    }
}

/// What is answered where there is no such address.
pub open spec fn caldav_error(provider: Seq<char>) -> Seq<char> {
    if provider == "nextcloud"@ || provider == "custom"@ {
        "A base_url is required for provider \""@ + provider
            + "\". Ask the user for the CalDAV server URL."@
    } else {
        "Unknown calendar provider \""@ + provider
            + "\". Valid values: icloud, google, fastmail, yandex, nextcloud, custom."@
    }
}

/// The CalDAV address of a well-known provider, or the one given for a server
/// of the user's own.
pub fn resolve_caldav_base_url(provider: &str, username: &str, base_url: Option<&str>) -> (r:
    Result<String, String>)
    ensures
        match r {
            Ok(u) => caldav_url(provider@, username@, base_url.deep_view()) == Some(u@),
            Err(e) => caldav_url(provider@, username@, base_url.deep_view()) is None && e@
                == caldav_error(provider@),
        },
{
    if str_eq(provider, "icloud") {
        Ok(owned("https://caldav.icloud.com/"))
    } else if str_eq(provider, "google") {
        Ok(cat3("https://apidata.googleusercontent.com/caldav/v2/", username, "/events/"))
    } else if str_eq(provider, "fastmail") {
        Ok(owned("https://caldav.fastmail.com/"))
    } else if str_eq(provider, "yandex") {
        Ok(owned("https://caldav.yandex.com/"))
    } else if str_eq(provider, "nextcloud") || str_eq(provider, "custom") {
        if let Some(u) = base_url {
            if !u.is_empty() {
                return Ok(owned(u));
            }
        }
        Err(
            cat3(
                "A base_url is required for provider \"",
                provider,
                "\". Ask the user for the CalDAV server URL.",
            ),
        )
    } else {
        Err(
            cat3(
                "Unknown calendar provider \"",
                provider,
                "\". Valid values: icloud, google, fastmail, yandex, nextcloud, custom.",
            ),
        )
    }
}

/// The name of a calendar provider.
pub open spec fn calendar_provider_name(provider: Seq<char>) -> Seq<char> {
    if provider == "icloud"@ {
        "iCloud"@
    } else if provider == "google"@ {
        "Google Calendar"@
    } else if provider == "fastmail"@ {
        "Fastmail"@
    } else if provider == "yandex"@ {
        "Yandex"@
    } else if provider == "nextcloud"@ {
        "Nextcloud"@
    } else {
        "CalDAV"@
    }
}

/// The name of a calendar source.
pub open spec fn source_name(provider: Seq<char>, username: Seq<char>) -> Seq<char> {
    calendar_provider_name(provider) + " ("@ + username + ")"@
}

/// The name of a calendar source.
pub fn calendar_display_name(provider: &str, username: &str) -> (r: String)
    ensures
        r@ == source_name(provider@, username@),
{
    let name = if str_eq(provider, "icloud") {
        "iCloud"
    } else if str_eq(provider, "google") {
        "Google Calendar"
    } else if str_eq(provider, "fastmail") {
        "Fastmail"
    } else if str_eq(provider, "yandex") {
        "Yandex"
    } else if str_eq(provider, "nextcloud") {
        "Nextcloud"
    } else {
        "CalDAV"
    };
    cat4(name, " (", username, ")")
}

/// What is wrong with a text as an absolute URL; absent where nothing is.
pub uninterp spec fn url_error(text: Seq<char>) -> Option<Seq<char>>;

/// `url::Url::parse`: the rendered error, absent where the text is an
/// absolute URL. The contract only names the result.
#[verifier::external_body]
fn check_url(text: &str) -> (r: Option<String>)
    ensures
        r.deep_view() == url_error(text@),
{
    url::Url::parse(text).err().map(|e| e.to_string())
}

/// What a bad address is answered.
pub open spec fn bad_url(url: Seq<char>, error: Seq<char>) -> Seq<char> {
    "Invalid base URL \""@ + url + "\": "@ + error
}

/// What a bad address is answered.
pub fn bad_url_message(url: &str, error: &str) -> (r: String)
    ensures
        r@ == bad_url(url@, error@),
{
    cat4("Invalid base URL \"", url, "\": ", error)
}

/// A calendar source to connect.
pub struct CalendarConnect {
    pub base_url: String,
    pub display_name: String,
    /// Why the server cannot be asked, once the source is stored.
    pub url_problem: Option<String>,
}

/// The calendar source to connect, or why there is none.
pub fn do_setup_calendar_connect(provider: &str, username: &str, base_url: Option<&str>) -> (r:
    Result<CalendarConnect, String>)
    ensures
        match r {
            Ok(c) => {
                &&& caldav_url(provider@, username@, base_url.deep_view()) == Some(c.base_url@)
                &&& c.display_name@ == source_name(provider@, username@)
                &&& c.url_problem.deep_view() == match url_error(c.base_url@) {
                    Some(e) => Some(bad_url(c.base_url@, e)),
                    None => None,
                }
            },
            Err(e) => caldav_url(provider@, username@, base_url.deep_view()) is None && e@
                == caldav_error(provider@),
        },
{
    let base = match resolve_caldav_base_url(provider, username, base_url) {
        Ok(u) => u,
        Err(e) => {
            return Err(e);
        },
    };
    let url_problem = match check_url(base.as_str()) {
        Some(e) => Some(bad_url_message(base.as_str(), e.as_str())),
        None => None,
    };
    Ok(
        CalendarConnect {
            base_url: base,
            display_name: calendar_display_name(provider, username),
            url_problem,
        },
    )
}

/// A calendar found on the server.
#[derive(Clone, Debug)]
pub struct FoundCalendar {
    pub id: String,
    pub name: String,
    pub read_only: bool,
}

/// A calendar in a reply.
pub open spec fn calendar_object(c: FoundCalendar) -> Seq<char> {
    object_text(
        seq![
            ("id"@, json_quoted(c.id@)),
            ("name"@, json_quoted(c.name@)),
            ("read_only"@, bool_text(c.read_only)),
        ],
    )
}

/// The reply to a connection that worked.
pub open spec fn connected_reply(source_id: Seq<char>, name: Seq<char>, found: Seq<FoundCalendar>)
    -> Seq<char> {
    object_text(
        seq![
            ("calendars"@, array_text(found.map_values(|c: FoundCalendar| calendar_object(c)))),
            (
                "message"@,
                json_quoted(
                    "Connected to "@ + name + ". Found "@ + decimal(found.len())
                        + " calendar(s)."@,
                ),
            ),
            ("ok"@, bool_text(true)),
            ("source_id"@, json_quoted(source_id)),
            ("test_ok"@, bool_text(true)),
        ],
    )
}

/// The reply to a connection that did not work; the source is stored anyway.
pub open spec fn unconnected_reply(source_id: Seq<char>, error: Seq<char>) -> Seq<char> {
    object_text(
        seq![
            ("error"@, json_quoted(error)),
            (
                "message"@,
                json_quoted(
                    "Calendar source saved but connection test failed: "@ + error
                        + ". Check credentials and server URL."@,
                ),
            ),
            ("ok"@, bool_text(false)),
            ("source_id"@, json_quoted(source_id)),
            ("test_ok"@, bool_text(false)),
        ],
    )
}

fn calendar_json(c: &FoundCalendar) -> (r: String)
    ensures
        r@ == calendar_object(*c),
{
    let mut v = rows();
    row(&mut v, "id", quoted(c.id.as_str()));
    row(&mut v, "name", quoted(c.name.as_str()));
    row(&mut v, "read_only", owned(boolean(c.read_only)));
    proof {
        assert(pair_views(v@) =~= seq![
            ("id"@, json_quoted(c.id@)),
            ("name"@, json_quoted(c.name@)),
            ("read_only"@, bool_text(c.read_only)),
        ]);
    }
    object(&v)
}

/// The reply once the server has been asked for its calendars.
pub fn calendar_connect_reply(
    source_id: &str,
    display_name: &str,
    found: &Result<Vec<FoundCalendar>, String>,
) -> (r: String)
    ensures
        r@ == match found {
            Ok(v) => connected_reply(source_id@, display_name@, v@),
            Err(e) => unconnected_reply(source_id@, e@),
        },
{
    match found {
        Ok(cals) => {
            let mut items: Vec<String> = Vec::new();
            let mut i: usize = 0;
            let ghost all = cals@.map_values(|c: FoundCalendar| calendar_object(c));
            while i < cals.len()
                invariant
                    i <= cals@.len(),
                    all == cals@.map_values(|c: FoundCalendar| calendar_object(c)),
                    items.deep_view() == all.take(i as int),
                decreases cals@.len() - i,
            {
                let item = calendar_json(&cals[i]);
                let ghost before = items.deep_view();
                items.push(item);
                proof {
                    assert(items.deep_view() =~= before.push(item@));
                    assert(all.take(i + 1) =~= all.take(i as int).push(all[i as int]));
                }
                i += 1;
            }
            proof {
                assert(all.take(i as int) =~= all);
            }
            let n = decimal_u64(cals.len() as u64);
            let message = cat5("Connected to ", display_name, ". Found ", n.as_str(), " calendar(s).");
            let mut v = rows();
            row(&mut v, "calendars", array(&items));
            row(&mut v, "message", quoted(message.as_str()));
            row(&mut v, "ok", owned(boolean(true)));
            row(&mut v, "source_id", quoted(source_id));
            row(&mut v, "test_ok", owned(boolean(true)));
            proof {
                assert(pair_views(v@) =~= seq![
                    ("calendars"@, array_text(all)),
                    ("message"@, json_quoted(message@)),
                    ("ok"@, bool_text(true)),
                    ("source_id"@, json_quoted(source_id@)),
                    ("test_ok"@, bool_text(true)),
                ]);
            }
            object(&v)
        },
        Err(e) => {
            let message = cat3(
                "Calendar source saved but connection test failed: ",
                e.as_str(),
                ". Check credentials and server URL.",
            );
            let mut v = rows();
            row(&mut v, "error", quoted(e.as_str()));
            row(&mut v, "message", quoted(message.as_str()));
            row(&mut v, "ok", owned(boolean(false)));
            row(&mut v, "source_id", quoted(source_id));
            row(&mut v, "test_ok", owned(boolean(false)));
            proof {
                assert(pair_views(v@) =~= seq![
                    ("error"@, json_quoted(e@)),
                    ("message"@, json_quoted(message@)),
                    ("ok"@, bool_text(false)),
                    ("source_id"@, json_quoted(source_id@)),
                    ("test_ok"@, bool_text(false)),
                ]);
            }
            object(&v)
        },
    }
}

/// Sets where the assistant writes events, where a calendar is given. The
/// calendar's name is not known yet. The result is the reply.
pub fn do_setup_calendar_configure(
    config: &mut CalendarConfig,
    source_id: &str,
    default_calendar_id: Option<&str>,
) -> (r: String)
    ensures
        match default_calendar_id {
            Some(c) => {
                &&& final(config).agent_default_source_id.deep_view() == Some(source_id@)
                &&& final(config).agent_default_calendar_id.deep_view() == Some(c@)
                &&& final(config).agent_default_calendar_name is None
                &&& final(config).agent_prompt == old(config).agent_prompt
            },
            None => *final(config) == *old(config),
        },
        r@ == object_text(
            seq![
                ("message"@, json_quoted("Calendar configured. Sync will start shortly."@)),
                ("ok"@, bool_text(true)),
            ],
        ),
{
    if let Some(c) = default_calendar_id {
        config.agent_default_source_id = Some(owned(source_id));
        config.agent_default_calendar_id = Some(owned(c));
        config.agent_default_calendar_name = None;
    }
    let mut v = rows();
    row(&mut v, "message", quoted("Calendar configured. Sync will start shortly."));
    row(&mut v, "ok", owned(boolean(true)));
    proof {
        assert(pair_views(v@) =~= seq![
            ("message"@, json_quoted("Calendar configured. Sync will start shortly."@)),
            ("ok"@, bool_text(true)),
        ]);
    }
    object(&v)
}

// ---------------------------------------------------------------------------
// Telegram
// ---------------------------------------------------------------------------

/// The reply to a token that Telegram refuses.
pub open spec fn token_refused_reply(status: nat, description: Seq<char>) -> Seq<char> {
    object_text(
        seq![
            ("error"@, json_quoted("HTTP "@ + decimal(status) + ": "@ + description)),
            (
                "message"@,
                json_quoted(
                    "Bot token validation failed: "@ + description
                        + ". Check that the token is correct and the bot has not been revoked."@,
                ),
            ),
            ("ok"@, bool_text(false)),
        ],
    )
}

/// The reply to a token that works.
pub open spec fn token_accepted_reply(username: Seq<char>) -> Seq<char> {
    object_text(
        seq![
            ("bot_username"@, json_quoted("@"@ + username)),
            (
                "message"@,
                json_quoted(
                    "Telegram bot @"@ + username + " configured. Restart to start monitoring."@,
                ),
            ),
            ("ok"@, bool_text(true)),
        ],
    )
}

/// The reply to a token that Telegram refuses.
pub fn token_refused(status: u16, description: &str) -> (r: String)
    ensures
        r@ == token_refused_reply(status as nat, description@),
{
    let n = decimal_u64(status as u64);
    let error = cat4("HTTP ", n.as_str(), ": ", description);
    let message = cat3(
        "Bot token validation failed: ",
        description,
        ". Check that the token is correct and the bot has not been revoked.",
    );
    let mut v = rows();
    row(&mut v, "error", quoted(error.as_str()));
    row(&mut v, "message", quoted(message.as_str()));
    row(&mut v, "ok", owned(boolean(false)));
    proof {
        assert(pair_views(v@) =~= seq![
            ("error"@, json_quoted(error@)),
            ("message"@, json_quoted(message@)),
            ("ok"@, bool_text(false)),
        ]);
    }
    object(&v)
}

/// The reply to a token that works.
pub fn token_accepted(username: &str) -> (r: String)
    ensures
        r@ == token_accepted_reply(username@),
{
    let shown = cat2("@", username);
    let message = cat3(
        "Telegram bot @",
        username,
        " configured. Restart to start monitoring.",
    );
    let mut v = rows();
    row(&mut v, "bot_username", quoted(shown.as_str()));
    row(&mut v, "message", quoted(message.as_str()));
    row(&mut v, "ok", owned(boolean(true)));
    proof {
        assert(pair_views(v@) =~= seq![
            ("bot_username"@, json_quoted(shown@)),
            ("message"@, json_quoted(message@)),
            ("ok"@, bool_text(true)),
        ]);
    }
    object(&v)
}

/// Telegram takes the token: the answer is a success and says so.
pub open spec fn token_is_good(success: bool, body: Seq<char>) -> bool {
    success && json_bool(body, "ok"@) == Some(true)
}

pub open spec fn or_text(o: Option<Seq<char>>, default: Seq<char>) -> Seq<char> {
    match o {
        Some(s) => s,
        None => default,
    }
}

/// Judges Telegram's answer on a token. Where the token is good, the bot is
/// enabled, with the token kept in the vault only. The result says whether to
/// store the token, and the reply.
pub fn do_setup_telegram(config: &mut TelegramConfig, success: bool, status: u16, body: &str) -> (r:
    (bool, String))
    ensures
        r.0 == token_is_good(success, body@),
        if r.0 {
            &&& final(config).enabled
            &&& final(config).bot_token@.len() == 0
            &&& final(config).allowed_chat_ids == old(config).allowed_chat_ids
            &&& final(config).poll_interval_secs == old(config).poll_interval_secs
            &&& final(config).owner_user_id == old(config).owner_user_id
            &&& r.1@ == token_accepted_reply(
                or_text(json_nested_string(body@, "result"@, "username"@), "unknown"@),
            )
        } else {
            &&& *final(config) == *old(config)
            &&& r.1@ == token_refused_reply(
                status as nat,
                or_text(json_string(body@, "description"@), "Unknown error"@),
            )
        },
{
    let good = success && match bool_at(body, "ok") {
        Some(b) => b,
        None => false,
    };
    if !good {
        let description = match string_at(body, "description") {
            Some(d) => d,
            None => owned("Unknown error"),
        };
        return (false, token_refused(status, description.as_str()));
    }
    let username = match nested_string_at(body, "result", "username") {
        Some(u) => u,
        None => owned("unknown"),
    };
    config.enabled = true;
    config.bot_token = String::new();
    (true, token_accepted(username.as_str()))
}

// ---------------------------------------------------------------------------
// The owner
// ---------------------------------------------------------------------------

/// What an identifier of a contact is.
#[derive(Clone, Copy, Debug, PartialEq, Eq, Structural)]
pub enum IdentifierKind {
    Email,
    Phone,
    Telegram,
}

/// An identifier of a contact.
#[derive(Clone, Debug, PartialEq, Eq)]
pub struct ContactIdentifier {
    pub kind: IdentifierKind,
    pub value: String,
}

/// A contact.
#[derive(Clone, Debug, PartialEq, Eq)]
pub struct Contact {
    pub id: String,
    pub name: String,
    pub trust_level: TrustLevel,
    pub trust_manual_override: bool,
    pub identifiers: Vec<ContactIdentifier>,
    pub interaction_count: u32,
    pub last_interaction: Option<Timestamp>,
    pub notes: Option<String>,
    pub blocked: bool,
    pub is_owner: bool,
}

/// What a field of the owner's details is.
#[derive(Clone, Copy, Debug, PartialEq, Eq, Structural)]
pub enum OwnerField {
    Name,
    Identifier(IdentifierKind),
}

/// The field of that name.
pub open spec fn owner_field_of(field: Seq<char>) -> Option<OwnerField> {
    if field == "name"@ {
        Some(OwnerField::Name)
    } else if field == "email"@ {
        Some(OwnerField::Identifier(IdentifierKind::Email))
    } else if field == "phone"@ {
        Some(OwnerField::Identifier(IdentifierKind::Phone))
    } else if field == "telegram_user_id"@ {
        Some(OwnerField::Identifier(IdentifierKind::Telegram))
    } else {
        None
    }
}

/// What an unknown field is answered.
pub open spec fn unknown_owner_field(field: Seq<char>) -> Seq<char> {
    "Unknown owner field \""@ + field + "\". Valid: name, email, phone, telegram_user_id."@
}

/// The field of that name.
pub fn owner_field(field: &str) -> (r: Result<OwnerField, String>)
    ensures
        match r {
            Ok(f) => owner_field_of(field@) == Some(f),
            Err(e) => owner_field_of(field@) is None && e@ == unknown_owner_field(field@),
        },
{
    if str_eq(field, "name") {
        Ok(OwnerField::Name)
    } else if str_eq(field, "email") {
        Ok(OwnerField::Identifier(IdentifierKind::Email))
    } else if str_eq(field, "phone") {
        Ok(OwnerField::Identifier(IdentifierKind::Phone))
    } else if str_eq(field, "telegram_user_id") {
        Ok(OwnerField::Identifier(IdentifierKind::Telegram))
    } else {
        Err(
            cat3(
                "Unknown owner field \"",
                field,
                "\". Valid: name, email, phone, telegram_user_id.",
            ),
        )
    }
}

/// The index of the first identifier of that kind, from `i` on, or the length.
pub open spec fn kind_index(v: Seq<ContactIdentifier>, kind: IdentifierKind, i: int) -> int
    decreases v.len() - i,
{
    if i < 0 || i >= v.len() {
        v.len() as int
    } else if v[i].kind == kind {
        i
    } else {
        kind_index(v, kind, i + 1)
    }
}

proof fn lemma_kind_index(v: Seq<ContactIdentifier>, kind: IdentifierKind, i: int)
    requires
        0 <= i <= v.len(),
    ensures
        i <= kind_index(v, kind, i) <= v.len(),
        kind_index(v, kind, i) < v.len() ==> v[kind_index(v, kind, i)].kind == kind,
        forall|j: int| i <= j < kind_index(v, kind, i) ==> (#[trigger] v[j]).kind != kind,
    decreases v.len() - i,
{
    if i < v.len() && v[i].kind != kind {
        lemma_kind_index(v, kind, i + 1);
    }
}

fn find_kind(v: &Vec<ContactIdentifier>, kind: IdentifierKind) -> (r: usize)
    ensures
        r == kind_index(v@, kind, 0),
        r <= v@.len(),
{
    let mut i: usize = 0;
    while i < v.len()
        invariant
            i <= v@.len(),
            kind_index(v@, kind, 0) == kind_index(v@, kind, i as int),
        decreases v@.len() - i,
    {
        if v[i].kind == kind {
            return i;
        }
        i += 1;
    }
    i
}

/// `after` is `before` with the first identifier of that kind set, or one
/// added at the end.
pub open spec fn identifier_set(
    before: Seq<ContactIdentifier>,
    after: Seq<ContactIdentifier>,
    kind: IdentifierKind,
    value: Seq<char>,
) -> bool {
    let k = kind_index(before, kind, 0);
    &&& after.len() == if k < before.len() {
        before.len()
    } else {
        before.len() + 1
    }
    &&& after[k].kind == kind && after[k].value@ == value
    &&& forall|i: int| 0 <= i < before.len() && i != k ==> (#[trigger] after[i]) == before[i]
}

/// The identifier that was set is the one that is found.
pub proof fn set_identifiers_are_read_back(
    before: Seq<ContactIdentifier>,
    after: Seq<ContactIdentifier>,
    kind: IdentifierKind,
    value: Seq<char>,
)
    requires
        identifier_set(before, after, kind, value),
    ensures
        kind_index(after, kind, 0) == kind_index(before, kind, 0),
        after[kind_index(after, kind, 0)].value@ == value,
{
    lemma_kind_index(before, kind, 0);
    lemma_kind_index(after, kind, 0);
    let k = kind_index(before, kind, 0);
    let q = kind_index(after, kind, 0);
    if q < k {
        assert(after[q] == before[q]);
    }
}

/// A contact for the owner of which nothing is known but one field.
pub open spec fn is_new_owner(c: Contact, id: Seq<char>, field: OwnerField, value: Seq<char>)
    -> bool {
    &&& c.id@ == id
    &&& c.trust_level == TrustLevel::AuthUser
    &&& c.trust_manual_override
    &&& match field {
        OwnerField::Name => c.name@ == value && c.identifiers@.len() == 0,
        OwnerField::Identifier(kind) => {
            &&& c.name@.len() == 0
            &&& c.identifiers@.len() == 1
            &&& c.identifiers@[0].kind == kind
            &&& c.identifiers@[0].value@ == value
        },
    }
    &&& c.interaction_count == 0
    &&& c.last_interaction is None
    &&& c.notes is None
    &&& !c.blocked
    &&& c.is_owner
}

fn new_owner(id: String) -> (r: Contact)
    ensures
        r.id == id,
        r.name@.len() == 0,
        r.trust_level == TrustLevel::AuthUser,
        r.trust_manual_override,
        r.identifiers@.len() == 0,
        r.interaction_count == 0,
        r.last_interaction is None,
        r.notes is None,
        !r.blocked,
        r.is_owner,
{
    Contact {
        id,
        name: String::new(),
        trust_level: TrustLevel::AuthUser,
        trust_manual_override: true,
        identifiers: Vec::new(),
        interaction_count: 0,
        last_interaction: None,
        notes: None,
        blocked: false,
        is_owner: true,
    }
}

/// `after` is the contact once the field is set; nothing else changes.
pub open spec fn field_set(before: Contact, after: Contact, field: OwnerField, value: Seq<char>)
    -> bool {
    &&& after == (Contact { name: after.name, identifiers: after.identifiers, ..before })
    &&& match field {
        OwnerField::Name => after.name@ == value && after.identifiers == before.identifiers,
        OwnerField::Identifier(kind) => after.name == before.name && identifier_set(
            before.identifiers@,
            after.identifiers@,
            kind,
            value,
        ),
    }
}

/// The reply once a field of the owner's details is set.
pub open spec fn owner_reply(field: Seq<char>, value: Seq<char>) -> Seq<char> {
    object_text(
        seq![
            ("field"@, json_quoted(field)),
            ("ok"@, bool_text(true)),
            ("value"@, json_quoted(value)),
        ],
    )
}

/// Sets a field of the owner's details; without an owner, a contact is made
/// for them. The result is the contact to store and the reply.
pub fn do_setup_owner_info(owner: Option<Contact>, fresh_id: String, field: &str, value: &str) -> (r:
    Result<(Contact, String), String>)
    ensures
        match r {
            Ok(p) => {
                &&& owner_field_of(field@) is Some
                &&& p.1@ == owner_reply(field@, value@)
                &&& match owner {
                    Some(c) => field_set(c, p.0, owner_field_of(field@)->0, value@),
                    None => is_new_owner(
                        p.0,
                        fresh_id@,
                        owner_field_of(field@)->0,
                        value@,
                    ),
                }
            },
            Err(e) => owner_field_of(field@) is None && e@ == unknown_owner_field(field@),
        },
{
    let what = match owner_field(field) {
        Ok(f) => f,
        Err(e) => {
            return Err(e);
        },
    };
    let mut contact = match owner {
        Some(c) => c,
        None => new_owner(fresh_id),
    };
    let ghost before = contact;
    match what {
        OwnerField::Name => {
            contact.name = owned(value);
        },
        OwnerField::Identifier(kind) => {
            let k: usize = find_kind(&contact.identifiers, kind);
            let entry = ContactIdentifier { kind, value: owned(value) };
            if k < contact.identifiers.len() {
                contact.identifiers.set(k, entry);
            } else {
                contact.identifiers.push(entry);
            }
        },
    }
    proof {
        assert(field_set(before, contact, what, value@));
    }
    let mut v = rows();
    row(&mut v, "field", quoted(field));
    row(&mut v, "ok", owned(boolean(true)));
    row(&mut v, "value", quoted(value));
    proof {
        assert(pair_views(v@) =~= seq![
            ("field"@, json_quoted(field@)),
            ("ok"@, bool_text(true)),
            ("value"@, json_quoted(value@)),
        ]);
    }
    Ok((contact, object(&v)))
}

/// The owner's chat on Telegram, if a number is known for it.
pub open spec fn owner_chat(owner: Option<Contact>) -> Option<i64> {
    match owner {
        Some(c) => {
            let k = kind_index(c.identifiers@, IdentifierKind::Telegram, 0);
            if k < c.identifiers@.len() {
                i64_value(trim_spec(c.identifiers@[k].value@))
            } else {
                None
            }
        },
        None => None,
    }
}

/// The owner's chat on Telegram, if a number is known for it.
pub fn resolve_owner_telegram_chat_id(owner: Option<&Contact>) -> (r: Option<i64>)
    ensures
        owner is None ==> r is None,
        owner matches Some(c) ==> r == owner_chat(Some(*c)),
{
    match owner {
        Some(c) => {
            let k: usize = find_kind(&c.identifiers, IdentifierKind::Telegram);
            if k < c.identifiers.len() {
                let t = trim(c.identifiers[k].value.as_str());
                parse_i64(t.as_str())
            } else {
                None
            }
        },
        None => None,
    }
}

// ---------------------------------------------------------------------------
// Web search
// ---------------------------------------------------------------------------

/// The search service of that name, and its title.
pub open spec fn search_service(provider: Seq<char>) -> Option<(SearchBackend, Seq<char>)> {
    if provider == "brave"@ {
        Some((SearchBackend::Brave, "Brave Search"@))
    } else if provider == "tavily"@ {
        Some((SearchBackend::Tavily, "Tavily"@))
    } else {
        None
    }
}

/// What an unknown search service is answered.
pub open spec fn unknown_search(provider: Seq<char>) -> Seq<char> {
    "Unknown search provider \""@ + provider + "\". Valid: brave, tavily."@
}

/// The search service of that name.
pub fn resolve_search_scope(provider: &str) -> (r: Result<SearchBackend, String>)
    ensures
        match r {
            Ok(s) => search_service(provider@) matches Some(p) && p.0 == s,
            Err(e) => search_service(provider@) is None && e@ == unknown_search(provider@),
        },
{
    if str_eq(provider, "brave") {
        Ok(SearchBackend::Brave)
    } else if str_eq(provider, "tavily") {
        Ok(SearchBackend::Tavily)
    } else {
        Err(cat3("Unknown search provider \"", provider, "\". Valid: brave, tavily."))
    }
}

/// Blanks the key of a search service on disk, once it is in the vault. The
/// result is the reply.
pub fn do_setup_search_key(config: &mut WebSearchConfig, provider: &str) -> (r: Result<
    String,
    String,
>)
    ensures
        match r {
            Ok(reply) => {
                &&& search_service(provider@) matches Some(p) && reply@ == object_text(
                    seq![
                        ("message"@, json_quoted(p.1 + " API key stored."@)),
                        ("ok"@, bool_text(true)),
                        ("provider"@, json_quoted(provider@)),
                    ],
                )
                &&& if provider@ == "brave"@ {
                    final(config).brave_api_key@.len() == 0 && final(config).tavily_api_key == old(
                        config,
                    ).tavily_api_key
                } else {
                    final(config).tavily_api_key@.len() == 0 && final(config).brave_api_key == old(
                        config,
                    ).brave_api_key
                }
            },
            Err(e) => search_service(provider@) is None && e@ == unknown_search(provider@)
                && *final(config) == *old(config),
        },
{
    match resolve_search_scope(provider) {
        Ok(_) => {},
        Err(e) => {
            return Err(e);
        },
    }
    let title = if str_eq(provider, "brave") {
        config.brave_api_key = String::new();
        "Brave Search"
    } else {
        config.tavily_api_key = String::new();
        "Tavily"
    };
    let message = cat2(title, " API key stored.");
    let mut v = rows();
    row(&mut v, "message", quoted(message.as_str()));
    row(&mut v, "ok", owned(boolean(true)));
    row(&mut v, "provider", quoted(provider));
    proof {
        assert(pair_views(v@) =~= seq![
            ("message"@, json_quoted(message@)),
            ("ok"@, bool_text(true)),
            ("provider"@, json_quoted(provider@)),
        ]);
    }
    Ok(object(&v))
}

// ---------------------------------------------------------------------------
// Status
// ---------------------------------------------------------------------------

/// The name of an identifier's kind.
pub open spec fn kind_name(k: IdentifierKind) -> Seq<char> {
    match k {
        IdentifierKind::Email => "Email"@,
        IdentifierKind::Phone => "Phone"@,
        IdentifierKind::Telegram => "Telegram"@,
    }
}

fn kind_label(k: IdentifierKind) -> (r: &'static str)
    ensures
        r@ == kind_name(k),
{
    match k {
        IdentifierKind::Email => "Email",
        IdentifierKind::Phone => "Phone",
        IdentifierKind::Telegram => "Telegram",
    }
}

/// The identifiers of a contact, one text each.
pub open spec fn identifier_texts(v: Seq<ContactIdentifier>) -> Seq<Seq<char>> {
    v.map_values(|i: ContactIdentifier| kind_name(i.kind) + ": "@ + i.value@)
}

/// What is known of the owner.
pub open spec fn owner_status(owner: Option<Contact>) -> Seq<char> {
    match owner {
        Some(c) => {
            let name = if c.name@.len() == 0 {
                "unnamed"@
            } else {
                c.name@
            };
            if c.identifiers@.len() == 0 {
                "set (name: "@ + name + ", no identifiers)"@
            } else {
                "set (name: "@ + name + ", "@ + joined(identifier_texts(c.identifiers@), ", "@)
                    + ")"@
            }
        },
        None => "not configured"@,
    }
}

/// How many sources are enabled.
pub open spec fn enabled_count(sources: Seq<bool>) -> nat
    decreases sources.len(),
{
    if sources.len() == 0 {
        0
    } else {
        enabled_count(sources.drop_last()) + if sources.last() {
            1nat
        } else {
            0nat
        }
    }
}

/// What is connected of calendars: whether each source is enabled.
pub open spec fn calendar_status(sources: Seq<bool>) -> Seq<char> {
    if sources.len() == 0 {
        "not configured"@
    } else {
        decimal(sources.len()) + " source(s) connected ("@ + decimal(enabled_count(sources))
            + " enabled)"@
    }
}

/// Which search keys are set.
pub open spec fn search_status(c: WebSearchConfig) -> Seq<char> {
    let brave = trim_spec(c.brave_api_key@).len() > 0;
    let tavily = trim_spec(c.tavily_api_key@).len() > 0;
    if brave && tavily {
        "Brave + Tavily keys set"@
    } else if brave {
        "Brave key set"@
    } else if tavily {
        "Tavily key set"@
    } else {
        "no API keys (using DuckDuckGo fallback)"@
    }
}

/// Whether memory uses embeddings.
pub open spec fn embedding_status(m: EmbeddingMode) -> Seq<char> {
    match m {
        EmbeddingMode::Off => "off (keyword fallback)"@,
        EmbeddingMode::Automatic => "auto"@,
        _ => "on"@,
    }
}

/// Whether mail is set up, and for which address.
pub open spec fn email_line(c: EmailConfig) -> Seq<char> {
    if c.enabled {
        "- Email: configured ("@ + (if c.from_address@.len() == 0 {
            c.username@
        } else {
            c.from_address@
        }) + ")"@
    } else {
        "- Email: not configured"@
    }
}

/// The lines of the status.
pub open spec fn status_lines(
    owner: Option<Contact>,
    email: EmailConfig,
    calendars: Seq<bool>,
    telegram_enabled: bool,
    search: WebSearchConfig,
    mode: EmbeddingMode,
) -> Seq<Seq<char>> {
    seq![
        "- Owner identity: "@ + owner_status(owner),
        email_line(email),
        "- Calendar: "@ + calendar_status(calendars),
        if telegram_enabled {
            "- Telegram: configured"@
        } else {
            "- Telegram: not configured"@
        },
        "- Web search: "@ + search_status(search),
        "- Memory/Embeddings: "@ + embedding_status(mode),
    ]
}

fn owner_status_text(owner: Option<&Contact>) -> (r: String)
    ensures
        owner is None ==> r@ == owner_status(None),
        owner matches Some(c) ==> r@ == owner_status(Some(*c)),
{
    let c = match owner {
        Some(c) => c,
        None => {
            return owned("not configured");
        },
    };
    let name = if c.name.as_str().is_empty() {
        "unnamed"
    } else {
        c.name.as_str()
    };
    if c.identifiers.len() == 0 {
        return cat3("set (name: ", name, ", no identifiers)");
    }
    let mut parts: Vec<String> = Vec::new();
    let mut i: usize = 0;
    let ghost all = identifier_texts(c.identifiers@);
    while i < c.identifiers.len()
        invariant
            i <= c.identifiers@.len(),
            all == identifier_texts(c.identifiers@),
            parts.deep_view() == all.take(i as int),
        decreases c.identifiers@.len() - i,
    {
        let part = cat3(
            kind_label(c.identifiers[i].kind),
            ": ",
            c.identifiers[i].value.as_str(),
        );
        let ghost before = parts.deep_view();
        parts.push(part);
        proof {
            assert(parts.deep_view() =~= before.push(part@));
            assert(all.take(i + 1) =~= all.take(i as int).push(all[i as int]));
        }
        i += 1;
    }
    proof {
        assert(all.take(i as int) =~= all);
    }
    let list = join(&parts, ", ");
    cat5("set (name: ", name, ", ", list.as_str(), ")")
}

fn calendar_status_text(sources: &Vec<bool>) -> (r: String)
    ensures
        r@ == calendar_status(sources@),
{
    if sources.len() == 0 {
        return owned("not configured");
    }
    let mut n: u64 = 0;
    let mut i: usize = 0;
    while i < sources.len()
        invariant
            i <= sources@.len(),
            n == enabled_count(sources@.take(i as int)),
            n <= i,
        decreases sources@.len() - i,
    {
        proof {
            assert(sources@.take(i + 1).drop_last() =~= sources@.take(i as int));
            assert(sources@.take(i + 1).last() == sources@[i as int]);
        }
        if sources[i] {
            n += 1;
        }
        i += 1;
    }
    proof {
        assert(sources@.take(i as int) =~= sources@);
    }
    let total = decimal_u64(sources.len() as u64);
    let on = decimal_u64(n);
    cat4(total.as_str(), " source(s) connected (", on.as_str(), " enabled)")
}

fn push_line(v: &mut Vec<String>, line: String)
    ensures
        final(v).deep_view() == old(v).deep_view().push(line@),
{
    let ghost before = v.deep_view();
    v.push(line);
    proof {
        assert(v.deep_view() =~= before.push(line@));
    }
}

/// What is set up and what is not, as the assistant is told.
pub fn build_setup_status_context(
    owner: Option<&Contact>,
    email: &EmailConfig,
    calendars: &Vec<bool>,
    telegram_enabled: bool,
    search: &WebSearchConfig,
    mode: &EmbeddingMode,
) -> (r: String)
    ensures
        ({
            let o = match owner {
                Some(c) => Some(*c),
                None => None,
            };
            r@
                == "CURRENT SETUP STATUS — do NOT offer to configure integrations that are already done. Only ask about items marked \"not configured\" if the user wants help with them:\n"@
                + joined(
                status_lines(o, *email, calendars@, telegram_enabled, *search, *mode),
                "\n"@,
            ) + "\n\n"@
        }),
{
    let mut lines: Vec<String> = Vec::new();
    let owner_text = owner_status_text(owner);
    push_line(&mut lines, cat2("- Owner identity: ", owner_text.as_str()));
    if email.enabled {
        let addr = if email.from_address.as_str().is_empty() {
            email.username.as_str()
        } else {
            email.from_address.as_str()
        };
        push_line(&mut lines, cat3("- Email: configured (", addr, ")"));
    } else {
        push_line(&mut lines, owned("- Email: not configured"));
    }
    let cal = calendar_status_text(calendars);
    push_line(&mut lines, cat2("- Calendar: ", cal.as_str()));
    if telegram_enabled {
        push_line(&mut lines, owned("- Telegram: configured"));
    } else {
        push_line(&mut lines, owned("- Telegram: not configured"));
    }
    let brave = !is_blank(search.brave_api_key.as_str());
    let tavily = !is_blank(search.tavily_api_key.as_str());
    let keys = if brave && tavily {
        "Brave + Tavily keys set"
    } else if brave {
        "Brave key set"
    } else if tavily {
        "Tavily key set"
    } else {
        "no API keys (using DuckDuckGo fallback)"
    };
    push_line(&mut lines, cat2("- Web search: ", keys));
    let emb = match mode {
        EmbeddingMode::Off => "off (keyword fallback)",
        EmbeddingMode::Automatic => "auto",
        EmbeddingMode::Cloud => "on",
        EmbeddingMode::LocalOnly => "on",
        EmbeddingMode::Specific => "on",
        EmbeddingMode::Bundled(_) => "on",
    };
    push_line(&mut lines, cat2("- Memory/Embeddings: ", emb));
    proof {
        let o = match owner {
            Some(c) => Some(*c),
            None => None,
        };
        assert(lines.deep_view() =~= status_lines(
            o,
            *email,
            calendars@,
            telegram_enabled,
            *search,
            *mode,
        ));
    }
    let body = join(&lines, "\n");
    cat3(
        "CURRENT SETUP STATUS — do NOT offer to configure integrations that are already done. Only ask about items marked \"not configured\" if the user wants help with them:\n",
        body.as_str(),
        "\n\n",
    )
}

// ---------------------------------------------------------------------------
// What the setup promises
// ---------------------------------------------------------------------------

/// An address is set up with the servers that were found for it, for both
/// directions, and without a password on disk.
pub proof fn addresses_are_set_up_as_found(c: EmailConfig, address: Seq<char>, hint: EmailHint)
    requires
        is_email_setup(c, address, hint),
    ensures
        c.enabled,
        c.imap_server == hint.incoming.host,
        c.imap_port == hint.incoming.port,
        c.use_tls <==> hint.incoming.security == Security::Ssl,
        c.smtp_server == hint.outgoing.host,
        c.smtp_port == hint.outgoing.port,
        c.smtp_use_tls <==> hint.outgoing.security != Security::Plain,
        c.username@ == address,
        c.smtp_username@ == address,
        c.from_address@ == address,
        c.password@.len() == 0,
        c.smtp_password@.len() == 0,
        c.folders@.len() == 1,
        c.folders@[0]@ == "INBOX"@,
        c.poll_interval_secs == 60,
        c.lookback_hours == 24,
{
    assert(c.folders.deep_view().len() == c.folders@.len());
    assert(c.folders.deep_view()[0] == c.folders@[0]@);
}

/// A known provider has its own address, Google's with the user in it. The
/// others need one that is given, and an unknown one has none.
pub proof fn calendars_have_an_address(
    provider: Seq<char>,
    username: Seq<char>,
    url: Option<Seq<char>>,
)
    ensures
        provider == "icloud"@ ==> caldav_url(provider, username, url) == Some(
            "https://caldav.icloud.com/"@,
        ),
        provider == "fastmail"@ ==> caldav_url(provider, username, url) == Some(
            "https://caldav.fastmail.com/"@,
        ),
        provider == "yandex"@ ==> caldav_url(provider, username, url) == Some(
            "https://caldav.yandex.com/"@,
        ),
        provider == "google"@ ==> caldav_url(provider, username, url) == Some(
            "https://apidata.googleusercontent.com/caldav/v2/"@ + username + "/events/"@,
        ),
        provider == "nextcloud"@ || provider == "custom"@ ==> {
            &&& url matches Some(u) ==> (u.len() > 0 ==> caldav_url(provider, username, url)
                == Some(u))
            &&& url is None || url->0.len() == 0 ==> caldav_url(provider, username, url) is None
            &&& caldav_error(provider) == "A base_url is required for provider \""@ + provider
                + "\". Ask the user for the CalDAV server URL."@
        },
        provider != "icloud"@ && provider != "fastmail"@ && provider != "yandex"@ && provider
            != "google"@ && provider != "nextcloud"@ && provider != "custom"@ ==> caldav_url(
            provider,
            username,
            url,
        ) is None && caldav_error(provider) == "Unknown calendar provider \""@ + provider
            + "\". Valid values: icloud, google, fastmail, yandex, nextcloud, custom."@,
        source_name(provider, username) == calendar_provider_name(provider) + " ("@ + username
            + ")"@,
{
    reveal_strlit("icloud");
    reveal_strlit("google");
    reveal_strlit("fastmail");
    reveal_strlit("yandex");
    reveal_strlit("nextcloud");
    reveal_strlit("custom");
    assert("icloud"@[0] == 'i' && "google"@[0] == 'g' && "fastmail"@[0] == 'f' && "yandex"@[0]
        == 'y' && "nextcloud"@[0] == 'n' && "custom"@[0] == 'c');
}

/// A token is good exactly where the request went through and the answer says
/// so.
pub proof fn good_tokens_are_confirmed(success: bool, body: Seq<char>)
    ensures
        token_is_good(success, body) <==> success && json_bool(body, "ok"@) == Some(true),
        or_text(Some(body), Seq::empty()) == body,
        or_text(None, body) == body,
{
}

/// A field of the owner is their name or one of three identifiers; there is no
/// other.
pub proof fn owner_fields_are_known(field: Seq<char>)
    ensures
        owner_field_of(field) == Some(OwnerField::Name) <==> field == "name"@,
        owner_field_of(field) == Some(OwnerField::Identifier(IdentifierKind::Email)) <==> field
            == "email"@,
        owner_field_of(field) == Some(OwnerField::Identifier(IdentifierKind::Phone)) <==> field
            == "phone"@,
        owner_field_of(field) == Some(OwnerField::Identifier(IdentifierKind::Telegram)) <==> field
            == "telegram_user_id"@,
        unknown_owner_field(field) == "Unknown owner field \""@ + field
            + "\". Valid: name, email, phone, telegram_user_id."@,
{
    reveal_strlit("name");
    reveal_strlit("email");
    reveal_strlit("phone");
    reveal_strlit("telegram_user_id");
    assert("name"@[0] == 'n' && "email"@[0] == 'e' && "phone"@[0] == 'p' && "telegram_user_id"@[0]
        == 't');
}

proof fn lemma_kind_place(v: Seq<ContactIdentifier>, kind: IdentifierKind, i: int)
    requires
        0 <= i <= v.len(),
    ensures
        i <= kind_index(v, kind, i) <= v.len(),
        kind_index(v, kind, i) < v.len() ==> v[kind_index(v, kind, i)].kind == kind,
        forall|j: int| i <= j < kind_index(v, kind, i) ==> (#[trigger] v[j]).kind != kind,
    decreases v.len() - i,
{
    if i < v.len() && v[i].kind != kind {
        lemma_kind_place(v, kind, i + 1);
    }
}

/// Setting an identifier replaces the first one of its kind, or adds one at
/// the end, and leaves every other alone.
pub proof fn identifiers_are_replaced_by_kind(
    before: Seq<ContactIdentifier>,
    after: Seq<ContactIdentifier>,
    kind: IdentifierKind,
    value: Seq<char>,
    i: int,
)
    requires
        identifier_set(before, after, kind, value),
        0 <= i <= before.len(),
        forall|j: int| 0 <= j < i ==> (#[trigger] before[j]).kind != kind,
    ensures
        i < before.len() && before[i].kind == kind ==> after.len() == before.len() && after[i].kind
            == kind && after[i].value@ == value,
        i == before.len() ==> after.len() == before.len() + 1 && after.last().kind == kind
            && after.last().value@ == value,
        forall|j: int|
            0 <= j < before.len() && before[j].kind != kind ==> (#[trigger] after[j]) == before[j],
{
    lemma_kind_place(before, kind, 0);
    assert forall|j: int| 0 <= j < before.len() && before[j].kind != kind implies (
    #[trigger] after[j]) == before[j] by {
        assert(j != kind_index(before, kind, 0));
    }
}

/// Setting a field of the owner changes that field alone.
pub proof fn owner_fields_are_set_one_by_one(
    before: Contact,
    after: Contact,
    field: OwnerField,
    value: Seq<char>,
)
    requires
        field_set(before, after, field, value),
    ensures
        after.id == before.id,
        after.trust_level == before.trust_level,
        after.trust_manual_override == before.trust_manual_override,
        after.interaction_count == before.interaction_count,
        after.last_interaction == before.last_interaction,
        after.notes == before.notes,
        after.blocked == before.blocked,
        after.is_owner == before.is_owner,
        field is Name ==> after.name@ == value && after.identifiers == before.identifiers,
        field matches OwnerField::Identifier(kind) ==> after.name == before.name && identifier_set(
            before.identifiers@,
            after.identifiers@,
            kind,
            value,
        ),
{
}

/// A new owner is fully trusted, not blocked, and holds what was given.
pub proof fn new_owners_are_trusted(c: Contact, id: Seq<char>, field: OwnerField, value: Seq<char>)
    requires
        is_new_owner(c, id, field, value),
    ensures
        c.id@ == id,
        c.is_owner,
        !c.blocked,
        c.trust_level == TrustLevel::AuthUser,
        c.trust_manual_override,
        c.interaction_count == 0,
        c.last_interaction is None,
        c.notes is None,
        field is Name ==> c.name@ == value && c.identifiers@.len() == 0,
        field matches OwnerField::Identifier(kind) ==> c.name@.len() == 0 && c.identifiers@.len()
            == 1 && c.identifiers@[0].kind == kind && c.identifiers@[0].value@ == value,
{
}

/// The chat of the owner is the number of the first Telegram identifier, where
/// it is one.
pub proof fn the_owners_chat_is_their_telegram_number(c: Contact, i: int)
    requires
        0 <= i <= c.identifiers@.len(),
        forall|j: int|
            0 <= j < i ==> (#[trigger] c.identifiers@[j]).kind != IdentifierKind::Telegram,
    ensures
        i < c.identifiers@.len() && c.identifiers@[i].kind == IdentifierKind::Telegram
            ==> owner_chat(Some(c)) == i64_value(trim_spec(c.identifiers@[i].value@)),
        i == c.identifiers@.len() ==> owner_chat(Some(c)) is None,
        owner_chat(None) is None,
{
    lemma_kind_place(c.identifiers@, IdentifierKind::Telegram, 0);
}

/// A search service is known by its name.
pub proof fn search_services_are_known(provider: Seq<char>)
    ensures
        search_service("brave"@) == Some((SearchBackend::Brave, "Brave Search"@)),
        search_service("tavily"@) == Some((SearchBackend::Tavily, "Tavily"@)),
        search_service(provider) is Some <==> provider == "brave"@ || provider == "tavily"@,
        unknown_search(provider) == "Unknown search provider \""@ + provider
            + "\". Valid: brave, tavily."@,
{
    reveal_strlit("brave");
    reveal_strlit("tavily");
    assert("brave"@[0] == 'b' && "tavily"@[0] == 't');
}

/// The status of the owner names them and their identifiers, in order.
pub proof fn the_owners_status_names_them(c: Contact, i: int)
    ensures
        owner_status(None) == "not configured"@,
        ({
            let name = if c.name@.len() == 0 {
                "unnamed"@
            } else {
                c.name@
            };
            &&& c.identifiers@.len() == 0 ==> owner_status(Some(c)) == "set (name: "@ + name
                + ", no identifiers)"@
            &&& c.identifiers@.len() > 0 ==> owner_status(Some(c)) == "set (name: "@ + name + ", "@
                + joined(identifier_texts(c.identifiers@), ", "@) + ")"@
        }),
        identifier_texts(c.identifiers@).len() == c.identifiers@.len(),
        0 <= i < c.identifiers@.len() ==> {
            let x = c.identifiers@[i];
            &&& x.kind == IdentifierKind::Email ==> identifier_texts(c.identifiers@)[i] == "Email"@
                + ": "@ + x.value@
            &&& x.kind == IdentifierKind::Phone ==> identifier_texts(c.identifiers@)[i] == "Phone"@
                + ": "@ + x.value@
            &&& x.kind == IdentifierKind::Telegram ==> identifier_texts(c.identifiers@)[i]
                == "Telegram"@ + ": "@ + x.value@
        },
{
}

/// Sources that are on are counted one by one, and the status of calendars and
/// search tells what is set.
pub proof fn statuses_tell_what_is_set(
    a: Seq<bool>,
    b: Seq<bool>,
    one: bool,
    c: WebSearchConfig,
    e: EmailConfig,
)
    ensures
        enabled_count(a + b) == enabled_count(a) + enabled_count(b),
        enabled_count(seq![one]) == (if one {
            1nat
        } else {
            0nat
        }),
        a.len() == 0 ==> calendar_status(a) == "not configured"@,
        a.len() > 0 ==> calendar_status(a) == decimal(a.len()) + " source(s) connected ("@
            + decimal(enabled_count(a)) + " enabled)"@,
        ({
            let brave = trim_spec(c.brave_api_key@).len() > 0;
            let tavily = trim_spec(c.tavily_api_key@).len() > 0;
            &&& brave && tavily ==> search_status(c) == "Brave + Tavily keys set"@
            &&& brave && !tavily ==> search_status(c) == "Brave key set"@
            &&& !brave && tavily ==> search_status(c) == "Tavily key set"@
            &&& !brave && !tavily ==> search_status(c) == "no API keys (using DuckDuckGo fallback)"@
        }),
        !e.enabled ==> email_line(e) == "- Email: not configured"@,
        e.enabled && e.from_address@.len() > 0 ==> email_line(e) == "- Email: configured ("@
            + e.from_address@ + ")"@,
        e.enabled && e.from_address@.len() == 0 ==> email_line(e) == "- Email: configured ("@
            + e.username@ + ")"@,
    decreases b.len(),
{
    if b.len() == 0 {
        assert(a + b =~= a);
    } else {
        statuses_tell_what_is_set(a, b.drop_last(), one, c, e);
        assert((a + b).drop_last() =~= a + b.drop_last());
    }
    assert(seq![one].drop_last() =~= Seq::<bool>::empty());
    assert(seq![one].last() == one);
    reveal_with_fuel(enabled_count, 2);
}

/// The overview has one line for each part of the setup, in a fixed order.
pub proof fn the_overview_has_six_lines(
    owner: Option<Contact>,
    email: EmailConfig,
    calendars: Seq<bool>,
    telegram: bool,
    search: WebSearchConfig,
    mode: EmbeddingMode,
)
    ensures
        ({
            let r = status_lines(owner, email, calendars, telegram, search, mode);
            &&& r.len() == 6
            &&& r[0] == "- Owner identity: "@ + owner_status(owner)
            &&& r[1] == email_line(email)
            &&& r[2] == "- Calendar: "@ + calendar_status(calendars)
            &&& telegram ==> r[3] == "- Telegram: configured"@
            &&& !telegram ==> r[3] == "- Telegram: not configured"@
            &&& r[4] == "- Web search: "@ + search_status(search)
            &&& mode is Off ==> r[5] == "- Memory/Embeddings: "@ + "off (keyword fallback)"@
            &&& mode is Automatic ==> r[5] == "- Memory/Embeddings: "@ + "auto"@
            &&& !(mode is Off) && !(mode is Automatic) ==> r[5] == "- Memory/Embeddings: "@ + "on"@
        }),
{
}

/// A calendar is told by its id, its name and whether it can be written to.
pub proof fn replies_tell_the_outcome(
    source: Seq<char>,
    name: Seq<char>,
    found: Seq<FoundCalendar>,
    error: Seq<char>,
    c: FoundCalendar,
)
    ensures
        calendar_object(c) == object_text(
            seq![
                ("id"@, json_quoted(c.id@)),
                ("name"@, json_quoted(c.name@)),
                ("read_only"@, bool_text(c.read_only)),
            ],
        ),
        connected_reply(source, name, found) == object_text(
            seq![
                ("calendars"@, array_text(found.map_values(|x: FoundCalendar| calendar_object(x)))),
                (
                    "message"@,
                    json_quoted(
                        "Connected to "@ + name + ". Found "@ + decimal(found.len())
                            + " calendar(s)."@,
                    ),
                ),
                ("ok"@, "true"@),
                ("source_id"@, json_quoted(source)),
                ("test_ok"@, "true"@),
            ],
        ),
        unconnected_reply(source, error) == object_text(
            seq![
                ("error"@, json_quoted(error)),
                (
                    "message"@,
                    json_quoted(
                        "Calendar source saved but connection test failed: "@ + error
                            + ". Check credentials and server URL."@,
                    ),
                ),
                ("ok"@, "false"@),
                ("source_id"@, json_quoted(source)),
                ("test_ok"@, "false"@),
            ],
        ),
{
}

/// The replies on email, Telegram and the owner tell what happened to whom.
pub proof fn replies_tell_what_happened(
    imap: SideResult,
    smtp: SideResult,
    provider: Seq<char>,
    status: nat,
    said: Seq<char>,
    field: Seq<char>,
    value: Seq<char>,
)
    ensures
        email_failure_reply(imap, smtp) == object_text(
            seq![
                ("imap_error"@, optional_text(imap.error.deep_view())),
                ("imap_ok"@, bool_text(imap.ok)),
                ("imap_stage"@, optional_text(imap.stage.deep_view())),
                (
                    "message"@,
                    json_quoted(
                        "Connection test failed. Check the error details and help the user fix them."@,
                    ),
                ),
                ("ok"@, "false"@),
                ("smtp_error"@, optional_text(smtp.error.deep_view())),
                ("smtp_ok"@, bool_text(smtp.ok)),
                ("smtp_stage"@, optional_text(smtp.stage.deep_view())),
            ],
        ),
        email_success_reply(provider) == object_text(
            seq![
                ("imap_ok"@, "true"@),
                ("message"@, json_quoted("Email configured. Restart to start monitoring."@)),
                ("ok"@, "true"@),
                ("provider"@, json_quoted(provider)),
                ("smtp_ok"@, "true"@),
            ],
        ),
        token_refused_reply(status, said) == object_text(
            seq![
                ("error"@, json_quoted("HTTP "@ + decimal(status) + ": "@ + said)),
                (
                    "message"@,
                    json_quoted(
                        "Bot token validation failed: "@ + said
                            + ". Check that the token is correct and the bot has not been revoked."@,
                    ),
                ),
                ("ok"@, "false"@),
            ],
        ),
        token_accepted_reply(value) == object_text(
            seq![
                ("bot_username"@, json_quoted("@"@ + value)),
                (
                    "message"@,
                    json_quoted(
                        "Telegram bot @"@ + value + " configured. Restart to start monitoring."@,
                    ),
                ),
                ("ok"@, "true"@),
            ],
        ),
        owner_reply(field, value) == object_text(
            seq![
                ("field"@, json_quoted(field)),
                ("ok"@, "true"@),
                ("value"@, json_quoted(value)),
            ],
        ),
        bad_url(value, said) == "Invalid base URL \""@ + value + "\": "@ + said,
{
}

/// A calendar provider is shown by its own name, and one without a name of its
/// own by that of the protocol.
pub proof fn calendar_providers_have_names(provider: Seq<char>)
    ensures
        provider == "icloud"@ ==> calendar_provider_name(provider) == "iCloud"@,
        provider == "google"@ ==> calendar_provider_name(provider) == "Google Calendar"@,
        provider == "fastmail"@ ==> calendar_provider_name(provider) == "Fastmail"@,
        provider == "yandex"@ ==> calendar_provider_name(provider) == "Yandex"@,
        provider == "nextcloud"@ ==> calendar_provider_name(provider) == "Nextcloud"@,
        provider != "icloud"@ && provider != "google"@ && provider != "fastmail"@ && provider
            != "yandex"@ && provider != "nextcloud"@ ==> calendar_provider_name(provider)
            == "CalDAV"@,
{
    reveal_strlit("icloud");
    reveal_strlit("google");
    reveal_strlit("fastmail");
    reveal_strlit("yandex");
    reveal_strlit("nextcloud");
    assert("icloud"@[0] == 'i' && "google"@[0] == 'g' && "fastmail"@[0] == 'f' && "yandex"@[0]
        == 'y' && "nextcloud"@[0] == 'n');
}

} // verus!

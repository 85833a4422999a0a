//! GitHub identities: whose commits the assistant makes.

use vstd::prelude::*;
use vstd::string::*;
use crate::text::{cat2, cat3, owned, str_eq};

verus! {

/// What is shown of an identity; its token never is.
#[derive(Debug)]
pub struct GithubIdentitySettings {
    pub has_token: bool,
    pub user_name: String,
    pub user_email: String,
}

/// Both identities.
#[derive(Debug)]
pub struct GithubIdentitiesSnapshot {
    pub bot: GithubIdentitySettings,
    pub user: GithubIdentitySettings,
}

/// What the vault holds of an identity; what cannot be read is absent.
pub struct StoredIdentity {
    pub token: Option<String>,
    pub user_name: Option<String>,
    pub user_email: Option<String>,
}

/// The vault scope of an identity.
pub open spec fn scope_of(identity: Seq<char>) -> Option<Seq<char>> {
    if identity == "bot"@ {
        Some("github:bot"@)
    } else if identity == "user"@ {
        Some("github:user"@)
    } else {
        None
    }
}

/// What an unknown identity is answered.
pub open spec fn unknown_identity(identity: Seq<char>) -> Seq<char> {
    "Unknown GitHub identity '"@ + identity + "' — expected 'bot' or 'user'"@
}

/// The vault scope of an identity.
pub fn which_scope(identity: &str) -> (r: Result<&'static str, String>)
    ensures
        match r {
            Ok(s) => scope_of(identity@) == Some(s@),
            Err(e) => scope_of(identity@) is None && e@ == unknown_identity(identity@),
        },
{
    if str_eq(identity, "bot") {
        Ok("github:bot")
    } else if str_eq(identity, "user") {
        Ok("github:user")
    } else {
        Err(cat3("Unknown GitHub identity '", identity, "' — expected 'bot' or 'user'"))
    }
}

pub open spec fn or_nothing(o: Option<String>) -> Seq<char> {
    match o {
        Some(s) => s@,
        None => Seq::empty(),
    }
}

fn text(o: Option<String>) -> (r: String)
    ensures
        r@ == or_nothing(o),
{
    match o {
        Some(s) => s,
        None => String::new(),
    }
}

/// `s` shows the stored identity.
pub open spec fn shows_identity(s: GithubIdentitySettings, stored: Option<StoredIdentity>) -> bool {
    match stored {
        Some(i) => {
            &&& s.has_token == (or_nothing(i.token).len() > 0)
            &&& s.user_name@ == or_nothing(i.user_name)
            &&& s.user_email@ == or_nothing(i.user_email)
        },
        None => !s.has_token && s.user_name@.len() == 0 && s.user_email@.len() == 0,
    }
}

/// What is shown of an identity; without a vault nothing is set.
pub fn load_one_identity(stored: Option<StoredIdentity>) -> (r: GithubIdentitySettings)
    ensures
        shows_identity(r, stored),
{
    match stored {
        Some(i) => {
            let token = text(i.token);
            GithubIdentitySettings {
                has_token: !token.as_str().is_empty(),
                user_name: text(i.user_name),
                user_email: text(i.user_email),
            }
        },
        None => GithubIdentitySettings {
            has_token: false,
            user_name: String::new(),
            user_email: String::new(),
        },
    }
}

/// What is shown of both identities.
pub fn get_github_identities(bot: Option<StoredIdentity>, user: Option<StoredIdentity>) -> (r:
    GithubIdentitiesSnapshot)
    ensures
        shows_identity(r.bot, bot),
        shows_identity(r.user, user),
{
    GithubIdentitiesSnapshot { bot: load_one_identity(bot), user: load_one_identity(user) }
}

/// One change to a vault entry; an absent value removes it.
pub struct VaultWrite {
    pub key: &'static str,
    pub value: Option<String>,
    /// What precedes the error where the vault refuses.
    pub failure: &'static str,
}

/// The changes that a save makes, in order, under one scope.
pub struct IdentitySave {
    pub scope: &'static str,
    pub writes: Vec<VaultWrite>,
    /// What the user is told once all are done.
    pub message: String,
}

pub open spec fn write_view(w: VaultWrite) -> (Seq<char>, Option<Seq<char>>, Seq<char>) {
    (w.key@, w.value.deep_view(), w.failure@)
}

pub open spec fn write_views(v: Seq<VaultWrite>) -> Seq<
    (Seq<char>, Option<Seq<char>>, Seq<char>),
> {
    v.map_values(|w: VaultWrite| write_view(w))
}

/// The changes that a save makes: an absent token is kept, an empty one is
/// removed; name and address are always set.
pub open spec fn identity_writes(
    token: Option<Seq<char>>,
    name: Seq<char>,
    email: Seq<char>,
) -> Seq<(Seq<char>, Option<Seq<char>>, Seq<char>)> {
    let first = match token {
        Some(t) => if t.len() == 0 {
            seq![("token"@, None, "Clear token: "@)]
        } else {
            seq![("token"@, Some(t), "Store token: "@)]
        },
        None => Seq::empty(),
    };
    first + seq![
        ("user_name"@, Some(name), "Store user_name: "@),
        ("user_email"@, Some(email), "Store user_email: "@),
    ]
}

/// The changes that saving an identity makes. An unknown identity is refused,
/// and so is any where there is no vault.
pub fn save_github_identity(
    identity: &str,
    token: Option<String>,
    user_name: String,
    user_email: String,
    has_vault: bool,
) -> (r: Result<IdentitySave, String>)
    ensures
        match r {
            Ok(s) => {
                &&& has_vault
                &&& scope_of(identity@) == Some(s.scope@)
                &&& write_views(s.writes@) == identity_writes(
                    token.deep_view(),
                    user_name@,
                    user_email@,
                )
                &&& s.message@ == identity@ + " identity saved."@
            },
            Err(e) => if scope_of(identity@) is None {
                e@ == unknown_identity(identity@)
            } else {
                !has_vault && e@ == "Vault not available — credentials cannot be stored."@
            },
        },
{
    let scope = match which_scope(identity) {
        Ok(s) => s,
        Err(e) => {
            return Err(e);
        },
    };
    if !has_vault {
        return Err(owned("Vault not available — credentials cannot be stored."));
    }
    let ghost want = identity_writes(token.deep_view(), user_name@, user_email@);
    let mut writes: Vec<VaultWrite> = Vec::new();
    if let Some(t) = token {
        if t.as_str().is_empty() {
            writes.push(VaultWrite { key: "token", value: None, failure: "Clear token: " });
        } else {
            writes.push(VaultWrite { key: "token", value: Some(t), failure: "Store token: " });
        }
    }
    writes.push(
        VaultWrite { key: "user_name", value: Some(user_name), failure: "Store user_name: " },
    );
    writes.push(
        VaultWrite { key: "user_email", value: Some(user_email), failure: "Store user_email: " },
    );
    proof {
        assert(write_views(writes@) =~= want);
    }
    Ok(IdentitySave { scope, writes, message: cat2(identity, " identity saved.") })
}

/// Whose identity an arc's commands run under.
#[derive(Debug)]
pub enum IdentitySource {
    /// Nobody's: there are no profiles to ask, or there is no arc.
    Nobody,
    /// That of this profile, or of the default one where none is named.
    Profile(Option<String>),
}

/// Whose identity an arc's commands run under: that of the arc's profile, the
/// default one where the arc names none. `arc_profile` is what the arc names,
/// absent where there is no such arc; then, and without profiles, commands run
/// under nobody's identity.
pub fn resolve_github_identity_for_arc(has_profiles: bool, arc_profile: Option<Option<String>>)
    -> (r: IdentitySource)
    ensures
        r == match arc_profile {
            Some(p) => if has_profiles {
                IdentitySource::Profile(p)
            } else {
                IdentitySource::Nobody
            },
            None => IdentitySource::Nobody,
        },
{
    match arc_profile {
        Some(p) => if has_profiles {
            IdentitySource::Profile(p)
        } else {
            IdentitySource::Nobody
        },
        None => IdentitySource::Nobody,
    }
}

/// An identity is the bot or the user, each with a scope of its own; there is
/// no other.
pub proof fn identities_have_scopes_of_their_own(identity: Seq<char>)
    ensures
        scope_of("bot"@) == Some("github:bot"@),
        scope_of("user"@) == Some("github:user"@),
        scope_of(identity) is Some <==> identity == "bot"@ || identity == "user"@,
        unknown_identity(identity) == "Unknown GitHub identity '"@ + identity
            + "' — expected 'bot' or 'user'"@,
{
    reveal_strlit("bot");
    reveal_strlit("user");
    assert("bot"@.len() == 3 && "user"@.len() == 4);
}

/// The page shows the stored name and address, and of the token only whether
/// there is one.
pub proof fn identities_are_shown_without_their_token(
    s: GithubIdentitySettings,
    stored: Option<StoredIdentity>,
)
    requires
        shows_identity(s, stored),
    ensures
        stored is None ==> !s.has_token && s.user_name@.len() == 0 && s.user_email@.len() == 0,
        stored matches Some(i) ==> {
            &&& s.has_token <==> (i.token matches Some(t) && t@.len() > 0)
            &&& i.user_name matches Some(n) ==> s.user_name@ == n@
            &&& i.user_name is None ==> s.user_name@.len() == 0
            &&& i.user_email matches Some(e) ==> s.user_email@ == e@
            &&& i.user_email is None ==> s.user_email@.len() == 0
        },
{
}

/// A save always stores the name and the address. A given token is stored
/// before them, an empty one is removed, and without one the token stays.
pub proof fn saves_write_name_and_address(
    token: Option<Seq<char>>,
    name: Seq<char>,
    email: Seq<char>,
)
    ensures
        ({
            let w = identity_writes(token, name, email);
            let n = w.len() as int;
            &&& n >= 2
            &&& w[n - 2] == ("user_name"@, Some(name), "Store user_name: "@)
            &&& w[n - 1] == ("user_email"@, Some(email), "Store user_email: "@)
            &&& token is None ==> n == 2
            &&& token is Some ==> n == 3
            &&& token matches Some(t) ==> {
                &&& t.len() > 0 ==> w[0] == ("token"@, Some(t), "Store token: "@)
                &&& t.len() == 0 ==> w[0] == ("token"@, None::<Seq<char>>, "Clear token: "@)
            }
        }),
{
}

/// A write is seen as its key, its value and the message for its failure.
pub proof fn writes_are_seen_whole(v: Seq<VaultWrite>, i: int)
    requires
        0 <= i < v.len(),
    ensures
        write_views(v).len() == v.len(),
        write_views(v)[i] == (v[i].key@, v[i].value.deep_view(), v[i].failure@),
{
}

} // verus!

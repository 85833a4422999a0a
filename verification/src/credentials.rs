//! Where a secret goes when settings are saved: into the vault where there is
//! one, so that the configuration on disk carries no secret.

use vstd::prelude::*;
use vstd::string::*;
use crate::models::AuthType;
use crate::routing::{usable_api_key, usable_key};
use crate::text::{begins_with, cat4, owned};

verus! {

/// What the vault holds for one secret. An unreadable or empty entry counts
/// as none.
#[derive(Clone, Debug, PartialEq, Eq)]
pub enum VaultState {
    /// There is no vault.
    Absent,
    /// The vault holds nothing for the secret.
    Empty,
    /// The vault holds this value, which is not empty.
    Holding(String),
}

/// What to do to the vault before the configuration is written.
#[derive(Clone, Debug, PartialEq, Eq)]
pub enum VaultAction {
    Nothing,
    /// Remove the entry; a failure is ignored.
    Delete,
    /// Store a value that the user gave; a failure ends the save.
    Store(String),
    /// Move a value over from the configuration; a failure ends the save.
    Migrate(String),
}

impl VaultState {
    /// What a reader gets from the vault.
    pub open spec fn value(self) -> Option<Seq<char>> {
        match self {
            VaultState::Holding(v) => Some(v@),
            _ => None,
        }
    }

    /// A value that is held is not empty.
    pub open spec fn wf(self) -> bool {
        self matches VaultState::Holding(v) ==> v@.len() > 0
    }
}

impl VaultAction {
    /// What a reader gets from the vault once the action is done.
    pub open spec fn value_after(self, before: VaultState) -> Option<Seq<char>> {
        match self {
            VaultAction::Nothing => before.value(),
            VaultAction::Delete => None,
            VaultAction::Store(v) => Some(v@),
            VaultAction::Migrate(v) => Some(v@),
        }
    }
}

/// The state of the vault for what a lookup returned; `None` where there is
/// no vault, the inner value where the lookup found one.
pub fn vault_state(lookup: Option<Option<String>>) -> (r: VaultState)
    ensures
        r.wf(),
        match lookup {
            None => r is Absent,
            Some(None) => r is Empty,
            Some(Some(s)) => if s@.len() > 0 {
                r == VaultState::Holding(s)
            } else {
                r is Empty
            },
        },
{
    match lookup {
        None => VaultState::Absent,
        Some(None) => VaultState::Empty,
        Some(Some(s)) => if s.as_str().is_empty() {
            VaultState::Empty
        } else {
            VaultState::Holding(s)
        },
    }
}

/// A secret to save: what stays in the configuration, and what to do to the
/// vault first.
#[derive(Clone, Debug, PartialEq, Eq)]
pub struct SecretPlan {
    pub on_disk: String,
    pub action: VaultAction,
}

/// What the configuration holds of a secret after a save.
pub open spec fn secret_on_disk(
    incoming: Option<Seq<char>>,
    vault: VaultState,
    on_disk: Seq<char>,
    clears: bool,
) -> Seq<char> {
    match incoming {
        Some(s) => if s.len() == 0 {
            if clears {
                Seq::empty()
            } else {
                on_disk
            }
        } else if vault is Absent {
            s
        } else {
            Seq::empty()
        },
        None => if vault is Absent || on_disk.len() == 0 {
            on_disk
        } else {
            Seq::empty()
        },
    }
}

/// What a save does to the vault: it stores what the user gave, else it moves
/// over what is on disk where the vault holds nothing. An empty input clears
/// the secret where `clears`, and otherwise changes nothing.
pub open spec fn is_secret_action(
    action: VaultAction,
    incoming: Option<Seq<char>>,
    vault: VaultState,
    on_disk: Seq<char>,
    clears: bool,
) -> bool {
    match incoming {
        Some(s) => if vault is Absent {
            action is Nothing
        } else if s.len() > 0 {
            action matches VaultAction::Store(v) && v@ == s
        } else if clears {
            action is Delete
        } else {
            action is Nothing
        },
        None => if vault is Empty && on_disk.len() > 0 {
            action matches VaultAction::Migrate(v) && v@ == on_disk
        } else {
            action is Nothing
        },
    }
}

/// What the vault holds of a secret after a save.
pub open spec fn secret_in_vault(
    incoming: Option<Seq<char>>,
    vault: VaultState,
    on_disk: Seq<char>,
    clears: bool,
) -> Option<Seq<char>> {
    match incoming {
        Some(s) => if vault is Absent {
            None
        } else if s.len() > 0 {
            Some(s)
        } else if clears {
            None
        } else {
            vault.value()
        },
        None => if vault is Empty && on_disk.len() > 0 {
            Some(on_disk)
        } else {
            vault.value()
        },
    }
}

/// The plan for a secret.
pub open spec fn is_secret_plan(
    p: SecretPlan,
    incoming: Option<Seq<char>>,
    vault: VaultState,
    on_disk: Seq<char>,
    clears: bool,
) -> bool {
    &&& p.on_disk@ == secret_on_disk(incoming, vault, on_disk, clears)
    &&& is_secret_action(p.action, incoming, vault, on_disk, clears)
}

/// The plan for a secret.
pub fn plan_secret(incoming: Option<String>, vault: &VaultState, on_disk: &str, clears: bool) -> (p:
    SecretPlan)
    ensures
        is_secret_plan(p, incoming.deep_view(), *vault, on_disk@, clears),
{
    match incoming {
        Some(s) => {
            if s.as_str().is_empty() {
                if clears {
                    SecretPlan {
                        on_disk: String::new(),
                        action: match vault {
                            VaultState::Absent => VaultAction::Nothing,
                            _ => VaultAction::Delete,
                        },
                    }
                } else {
                    SecretPlan { on_disk: owned(on_disk), action: VaultAction::Nothing }
                }
            } else {
                match vault {
                    VaultState::Absent => SecretPlan { on_disk: s, action: VaultAction::Nothing },
                    _ => SecretPlan { on_disk: String::new(), action: VaultAction::Store(s) },
                }
            }
        },
        None => {
            if on_disk.is_empty() {
                return SecretPlan { on_disk: owned(on_disk), action: VaultAction::Nothing };
            }
            match vault {
                VaultState::Absent => SecretPlan {
                    on_disk: owned(on_disk),
                    action: VaultAction::Nothing,
                },
                VaultState::Empty => SecretPlan {
                    on_disk: String::new(),
                    action: VaultAction::Migrate(owned(on_disk)),
                },
                VaultState::Holding(_) => SecretPlan {
                    on_disk: String::new(),
                    action: VaultAction::Nothing,
                },
            }
        },
    }
}

/// The secret in use: the vault's value, else the one on disk.
pub open spec fn secret_in_use(vault: Option<Seq<char>>, on_disk: Seq<char>) -> Seq<char> {
    match vault {
        Some(v) => v,
        None => on_disk,
    }
}

/// Once a save with a vault is done, the configuration on disk carries no
/// secret, unless the user gave an empty one that changes nothing.
pub proof fn vault_saves_leave_no_secret_on_disk(
    p: SecretPlan,
    incoming: Option<Seq<char>>,
    vault: VaultState,
    on_disk: Seq<char>,
    clears: bool,
)
    requires
        is_secret_plan(p, incoming, vault, on_disk, clears),
        !(vault is Absent),
        !(incoming matches Some(s) && s.len() == 0 && !clears),
    ensures
        p.on_disk@.len() == 0,
{
}

/// A save keeps the secret in use where the user gave none, takes the one the
/// user gave, and drops it where the user cleared it.
pub proof fn saved_secret_is_the_one_in_use(
    p: SecretPlan,
    incoming: Option<Seq<char>>,
    vault: VaultState,
    on_disk: Seq<char>,
    clears: bool,
)
    requires
        is_secret_plan(p, incoming, vault, on_disk, clears),
        vault.wf(),
    ensures
        secret_in_use(p.action.value_after(vault), p.on_disk@) == match incoming {
            Some(s) => if s.len() > 0 {
                s
            } else if clears {
                Seq::empty()
            } else {
                secret_in_use(vault.value(), on_disk)
            },
            None => secret_in_use(vault.value(), on_disk),
        },
{
}

/// The message for a vault that refused an action; deleting is best effort.
pub fn vault_failure(action: &VaultAction, what: &str, error: &str) -> (r: Option<String>)
    ensures
        r.deep_view() == match action {
            VaultAction::Store(_) => Some("Vault store "@ + what@ + ": "@ + error@),
            VaultAction::Migrate(_) => Some("Vault migrate "@ + what@ + ": "@ + error@),
            _ => None,
        },
{
    match action {
        VaultAction::Store(_) => Some(cat4("Vault store ", what, ": ", error)),
        VaultAction::Migrate(_) => Some(cat4("Vault migrate ", what, ": ", error)),
        VaultAction::Nothing => None,
        VaultAction::Delete => None,
    }
}

// ---------------------------------------------------------------------------
// Provider keys
// ---------------------------------------------------------------------------

/// A provider key to save.
#[derive(Clone, Debug, PartialEq, Eq)]
pub struct KeyPlan {
    /// What the configuration on disk says.
    pub auth: AuthType,
    /// The key in use afterwards.
    pub effective_key: Option<String>,
    pub action: VaultAction,
}

/// The key that an authentication spells out, usable or not.
pub open spec fn auth_text(auth: AuthType) -> Option<Seq<char>> {
    match auth {
        AuthType::ApiKey(k) => Some(k@),
        AuthType::NoKey => None,
    }
}

/// The authentication in force: the vault's key, else what is on disk.
pub open spec fn auth_in_force(vault: VaultState, on_disk: AuthType) -> AuthType {
    match vault {
        VaultState::Holding(v) => AuthType::ApiKey(v),
        _ => on_disk,
    }
}

/// The authentication in force.
pub fn hydrated_auth(vault: &VaultState, on_disk: &AuthType) -> (r: AuthType)
    ensures
        r == auth_in_force(*vault, *on_disk),
{
    match vault {
        VaultState::Holding(v) => AuthType::ApiKey(v.clone()),
        _ => on_disk.copy(),
    }
}

/// The plan for a provider key. An absent input keeps the key, moving one
/// that is on disk into a vault that holds none; an empty input drops it.
pub open spec fn is_key_plan(
    p: KeyPlan,
    incoming: Option<Seq<char>>,
    vault: VaultState,
    existing: AuthType,
) -> bool {
    match incoming {
        Some(k) => if k.len() == 0 {
            &&& p.auth is NoKey
            &&& p.effective_key is None
            &&& p.action == if vault is Absent {
                VaultAction::Nothing
            } else {
                VaultAction::Delete
            }
        } else {
            &&& p.effective_key.deep_view() == Some(k)
            &&& if vault is Absent {
                auth_text(p.auth) == Some(k) && p.action is Nothing
            } else {
                p.auth is NoKey && (p.action matches VaultAction::Store(v) && v@ == k)
            }
        },
        None => match vault {
            VaultState::Holding(v) => {
                &&& p.auth is NoKey
                &&& p.effective_key.deep_view() == Some(v@)
                &&& p.action is Nothing
            },
            VaultState::Empty => match usable_key(existing) {
                Some(k) => {
                    &&& p.auth is NoKey
                    &&& p.effective_key.deep_view() == Some(k)
                    &&& p.action matches VaultAction::Migrate(v) && v@ == k
                },
                None => p.auth == existing && p.effective_key is None && p.action is Nothing,
            },
            VaultState::Absent => {
                &&& p.auth == existing
                &&& p.effective_key.deep_view() == usable_key(existing)
                &&& p.action is Nothing
            },
        },
    }
}

/// The plan for a provider key.
pub fn plan_provider_key(incoming: Option<String>, vault: &VaultState, existing: &AuthType) -> (p:
    KeyPlan)
    ensures
        is_key_plan(p, incoming.deep_view(), *vault, *existing),
{
    match incoming {
        Some(k) => {
            if k.as_str().is_empty() {
                KeyPlan {
                    auth: AuthType::NoKey,
                    effective_key: None,
                    action: match vault {
                        VaultState::Absent => VaultAction::Nothing,
                        _ => VaultAction::Delete,
                    },
                }
            } else {
                match vault {
                    VaultState::Absent => KeyPlan {
                        auth: AuthType::ApiKey(k.clone()),
                        effective_key: Some(k),
                        action: VaultAction::Nothing,
                    },
                    _ => KeyPlan {
                        auth: AuthType::NoKey,
                        effective_key: Some(k.clone()),
                        action: VaultAction::Store(k),
                    },
                }
            }
        },
        None => {
            let legacy = usable_api_key(existing);
            match vault {
                VaultState::Holding(v) => KeyPlan {
                    auth: AuthType::NoKey,
                    effective_key: Some(v.clone()),
                    action: VaultAction::Nothing,
                },
                VaultState::Empty => match legacy {
                    Some(k) => KeyPlan {
                        auth: AuthType::NoKey,
                        effective_key: Some(k.clone()),
                        action: VaultAction::Migrate(k),
                    },
                    None => KeyPlan {
                        auth: existing.copy(),
                        effective_key: None,
                        action: VaultAction::Nothing,
                    },
                },
                VaultState::Absent => KeyPlan {
                    auth: existing.copy(),
                    effective_key: legacy,
                    action: VaultAction::Nothing,
                },
            }
        },
    }
}

/// With a vault, the configuration on disk never holds a usable key.
pub proof fn vault_keeps_provider_keys_off_disk(
    p: KeyPlan,
    incoming: Option<Seq<char>>,
    vault: VaultState,
    existing: AuthType,
)
    requires
        is_key_plan(p, incoming, vault, existing),
        !(vault is Absent),
    ensures
        usable_key(p.auth) is None,
{
}

/// The effective key is the one that is read back: the vault's, else the
/// usable one on disk. Without a vault a key spelled like a placeholder is
/// not usable, so it is not read back.
pub proof fn effective_key_is_read_back(
    p: KeyPlan,
    incoming: Option<Seq<char>>,
    vault: VaultState,
    existing: AuthType,
)
    requires
        is_key_plan(p, incoming, vault, existing),
        !(vault is Absent && (incoming matches Some(k) && begins_with(k, "${"@))),
    ensures
        p.effective_key.deep_view() == match p.action.value_after(vault) {
            Some(v) => Some(v),
            None => usable_key(p.auth),
        },
{
}

// ---------------------------------------------------------------------------
// What saving a secret promises
// ---------------------------------------------------------------------------

/// The vault gives back what it holds, and after an action what the action put
/// there.
pub proof fn the_vault_gives_back_what_it_holds(before: VaultState, v: String, disk: Seq<char>)
    ensures
        VaultState::Holding(v).value() == Some(v@),
        VaultState::Empty.value() is None,
        VaultState::Absent.value() is None,
        VaultAction::Nothing.value_after(before) == before.value(),
        VaultAction::Delete.value_after(before) is None,
        VaultAction::Store(v).value_after(before) == Some(v@),
        VaultAction::Migrate(v).value_after(before) == Some(v@),
        secret_in_use(Some(v@), disk) == v@,
        secret_in_use(None, disk) == disk,
{
}

/// A secret that the user gives goes to the vault where there is one, and to
/// the disk where there is none. Without a new one, what is on disk moves to a
/// vault that holds nothing; a vault that holds one keeps it.
pub proof fn secrets_go_to_the_vault(
    p: SecretPlan,
    incoming: Option<Seq<char>>,
    vault: VaultState,
    on_disk: Seq<char>,
    clears: bool,
)
    requires
        is_secret_plan(p, incoming, vault, on_disk, clears),
    ensures
        incoming matches Some(s) ==> {
            &&& s.len() > 0 && vault is Absent ==> p.on_disk@ == s && p.action is Nothing
            &&& s.len() > 0 && !(vault is Absent) ==> p.on_disk@.len() == 0 && (
            p.action matches VaultAction::Store(v) && v@ == s)
            &&& s.len() == 0 && clears ==> p.on_disk@.len() == 0
            &&& s.len() == 0 && clears && !(vault is Absent) ==> p.action is Delete
            &&& s.len() == 0 && !clears ==> p.on_disk@ == on_disk && p.action is Nothing
            &&& vault is Absent ==> p.action is Nothing
        },
        incoming is None ==> {
            &&& vault is Absent ==> p.on_disk@ == on_disk && p.action is Nothing
            &&& vault is Holding ==> p.on_disk@.len() == 0 && p.action is Nothing
            &&& vault is Empty && on_disk.len() > 0 ==> p.on_disk@.len() == 0 && (
            p.action matches VaultAction::Migrate(v) && v@ == on_disk)
            &&& vault is Empty && on_disk.len() == 0 ==> p.on_disk@.len() == 0 && p.action
                is Nothing
        },
        !(vault is Absent) || incoming is None ==> secret_in_vault(incoming, vault, on_disk, clears)
            == p.action.value_after(vault),
        vault is Absent ==> secret_in_vault(incoming, vault, on_disk, clears) is None,
{
}

/// The vault's key is in force wherever it holds one, else what is on disk.
pub proof fn vault_keys_are_in_force(v: String, on_disk: AuthType, k: String)
    ensures
        auth_in_force(VaultState::Holding(v), on_disk) == AuthType::ApiKey(v),
        auth_in_force(VaultState::Empty, on_disk) == on_disk,
        auth_in_force(VaultState::Absent, on_disk) == on_disk,
        auth_text(AuthType::ApiKey(k)) == Some(k@),
        auth_text(AuthType::NoKey) is None,
{
}

/// A key that the user gives is the one in use afterwards. An empty one drops
/// the key everywhere. Without one, the vault's key stays in use, else the
/// usable one on disk, which moves into a vault that holds none.
pub proof fn given_keys_are_in_use(
    p: KeyPlan,
    incoming: Option<Seq<char>>,
    vault: VaultState,
    existing: AuthType,
)
    requires
        is_key_plan(p, incoming, vault, existing),
    ensures
        incoming matches Some(k) ==> {
            &&& k.len() > 0 ==> p.effective_key.deep_view() == Some(k)
            &&& k.len() > 0 && vault is Absent ==> (p.auth matches AuthType::ApiKey(t) && t@ == k)
                && p.action is Nothing
            &&& k.len() > 0 && !(vault is Absent) ==> p.auth is NoKey && (
            p.action matches VaultAction::Store(v) && v@ == k)
            &&& k.len() == 0 ==> p.auth is NoKey && p.effective_key is None
            &&& k.len() == 0 && !(vault is Absent) ==> p.action is Delete
            &&& k.len() == 0 && vault is Absent ==> p.action is Nothing
        },
        incoming is None ==> {
            &&& vault matches VaultState::Holding(v) ==> p.effective_key.deep_view() == Some(v@)
                && p.auth is NoKey && p.action is Nothing
            &&& vault is Absent ==> p.auth == existing && p.effective_key.deep_view() == usable_key(
                existing,
            ) && p.action is Nothing
            &&& vault is Empty && usable_key(existing) is None ==> p.auth == existing
                && p.effective_key is None && p.action is Nothing
            &&& vault is Empty && usable_key(existing) is Some ==> p.auth is NoKey
                && p.effective_key.deep_view() == usable_key(existing) && (
            p.action matches VaultAction::Migrate(v) && Some(v@) == usable_key(existing))
        },
{
}

} // verus!

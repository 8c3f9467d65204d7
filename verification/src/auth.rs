use vstd::prelude::*;
use vstd::string::*;

use crate::account::{
    accounts_view, clone_account, clone_token, AccountType, AccountView, TokenView, YuukiAccount,
    YuukiDeviceCode, YuukiTokenResponse,
};
use crate::store::{
    encode_account_store, parse_account_store, spec_encode_accounts, spec_parse_accounts,
};
use crate::strutil::str_eq;

verus! {

/// One entry of the token mapping: the owning account id and its token pair.
struct TokenEntry {
    account_id: String,
    token: YuukiTokenResponse,
}

/// Mathematical model of a token-mapping entry.
pub ghost struct TokenEntryView {
    pub account_id: Seq<char>,
    pub token: TokenView,
}

impl View for TokenEntry {
    type V = TokenEntryView;

    closed spec fn view(&self) -> TokenEntryView {
        TokenEntryView { account_id: self.account_id@, token: self.token@ }
    }
}

/// The token that the mapping associates with `id`: the first entry whose
/// account id matches, if any.
pub open spec fn find_token(tokens: Seq<TokenEntryView>, id: Seq<char>) -> Option<TokenView>
    decreases tokens.len(),
{
    if tokens.len() == 0 {
        None
    } else if tokens[0].account_id == id {
        Some(tokens[0].token)
    } else {
        find_token(tokens.drop_first(), id)
    }
}

/// Mathematical model of the registry: the ordered account list and the
/// token mapping.
pub ghost struct RegistryView {
    pub accounts: Seq<AccountView>,
    pub tokens: Seq<TokenEntryView>,
}

impl RegistryView {
    /// Whether the token mapping has an entry for `id`.
    pub open spec fn has_token(self, id: Seq<char>) -> bool {
        find_token(self.tokens, id) is Some
    }

    /// Every account id present in the account list has a corresponding
    /// entry in the token mapping.
    pub open spec fn accounts_covered(self) -> bool {
        forall|i: int| 0 <= i < self.accounts.len() ==> self.has_token(
            #[trigger] self.accounts[i].id,
        )
    }

    /// The token associated with `id`, if any.
    pub open spec fn token_for(self, id: Seq<char>) -> Option<TokenView> {
        find_token(self.tokens, id)
    }

    /// Account ids are unique within the token mapping.
    pub open spec fn tokens_wf(self) -> bool {
        forall|i: int, j: int|
            0 <= i < j < self.tokens.len() ==> self.tokens[i].account_id
                != self.tokens[j].account_id
    }
}

/// The default offline account that the registry guarantees to exist.
pub open spec fn default_account_view() -> AccountView {
    AccountView {
        id: "local.offline"@,
        username: "Offline Player"@,
        account_type: AccountType::Offline,
        provider: "offline"@,
    }
}

/// The placeholder token created together with the default offline account.
pub open spec fn default_token_view() -> TokenView {
    TokenView {
        access_token: "offline-token"@,
        refresh_token: "offline-refresh"@,
        expires_in: 0,
    }
}

/// The registry state right after a first start (or an unreadable store):
/// exactly the default offline account and its placeholder token.
pub open spec fn is_default_registry(r: RegistryView) -> bool {
    &&& r.accounts == seq![default_account_view()]
    &&& r.token_for("local.offline"@) == Some(default_token_view())
    &&& forall|other: Seq<char>| other != "local.offline"@ ==> r.token_for(other) is None
}

/// A decimal digit.
pub open spec fn is_digit(c: char) -> bool {
    '0' <= c && c <= '9'
}

/// Every character of `s` is a decimal digit.
pub open spec fn all_digits(s: Seq<char>) -> bool {
    forall|i: int| 0 <= i < s.len() ==> is_digit(#[trigger] s[i])
}

/// If the entries before `i` miss `id` and entry `i` carries it, the mapping
/// resolves `id` to entry `i`.
proof fn lemma_find_token_at(tokens: Seq<TokenEntryView>, id: Seq<char>, i: int)
    requires
        0 <= i < tokens.len(),
        tokens[i].account_id == id,
        forall|k: int| 0 <= k < i ==> tokens[k].account_id != id,
    ensures
        find_token(tokens, id) == Some(tokens[i].token),
    decreases i,
{
    if i > 0 {
        lemma_find_token_at(tokens.drop_first(), id, i - 1);
    }
}

/// A mapping none of whose entries carry `id` resolves `id` to nothing.
proof fn lemma_find_token_none(tokens: Seq<TokenEntryView>, id: Seq<char>)
    requires
        forall|k: int| 0 <= k < tokens.len() ==> tokens[k].account_id != id,
    ensures
        find_token(tokens, id) == None::<TokenView>,
    decreases tokens.len(),
{
    if tokens.len() > 0 {
        lemma_find_token_none(tokens.drop_first(), id);
    }
}

/// Replacing entry `i` by one with the same account id leaves every other id's
/// resolution unchanged.
proof fn lemma_find_token_update(
    tokens: Seq<TokenEntryView>,
    i: int,
    e: TokenEntryView,
    other: Seq<char>,
)
    requires
        0 <= i < tokens.len(),
        e.account_id == tokens[i].account_id,
        other != e.account_id,
    ensures
        find_token(tokens.update(i, e), other) == find_token(tokens, other),
    decreases i,
{
    let t2 = tokens.update(i, e);
    if i == 0 {
        assert(t2.drop_first() =~= tokens.drop_first());
    } else {
        assert(t2[0] == tokens[0]);
        assert(t2.drop_first() =~= tokens.drop_first().update(i - 1, e));
        lemma_find_token_update(tokens.drop_first(), i - 1, e, other);
    }
}

/// Appending an entry does not change the resolution of any other id; an id
/// absent before resolves to the appended entry.
proof fn lemma_find_token_push(tokens: Seq<TokenEntryView>, e: TokenEntryView, other: Seq<char>)
    ensures
        other != e.account_id ==> find_token(tokens.push(e), other) == find_token(tokens, other),
        other == e.account_id && find_token(tokens, other) is None ==> find_token(
            tokens.push(e),
            other,
        ) == Some(e.token),
    decreases tokens.len(),
{
    if tokens.len() == 0 {
        assert(tokens.push(e)[0] == e);
        assert(tokens.push(e).drop_first() =~= Seq::<TokenEntryView>::empty());
        assert(find_token(tokens.push(e).drop_first(), other) == None::<TokenView>);
    } else {
        assert(tokens.push(e)[0] == tokens[0]);
        assert(tokens.push(e).drop_first() =~= tokens.drop_first().push(e));
        lemma_find_token_push(tokens.drop_first(), e, other);
    }
}

/// In-memory authoritative set of accounts and their associated tokens.
/// Mediates all mutations; persistence and locking stay with the caller.
pub struct AuthManager {
    accounts: Vec<YuukiAccount>,
    tokens: Vec<TokenEntry>,
}

impl View for AuthManager {
    type V = RegistryView;

    closed spec fn view(&self) -> RegistryView {
        RegistryView {
            accounts: accounts_view(self.accounts@),
            tokens: self.tokens@.map_values(|e: TokenEntry| e@),
        }
    }
}

impl AuthManager {
    /// The registry's invariant: token-mapping keys are unique.
    pub open spec fn wf(self) -> bool {
        self@.tokens_wf()
    }

    /// A registry with no accounts and no tokens. `initialize` brings it to
    /// its working state.
    pub fn new() -> (m: AuthManager)
        ensures
            m@.accounts.len() == 0,
            m@.tokens.len() == 0,
            m.wf(),
    {
        let m = AuthManager { accounts: Vec::new(), tokens: Vec::new() };
        proof {
            assert(m@.accounts =~= Seq::<AccountView>::empty());
            assert(m@.tokens =~= Seq::<TokenEntryView>::empty());
        }
        m
    }

    /// Brings a fresh registry to its working state: installs the accounts
    /// read from the persistence store's document, if one was given and it
    /// parses; on a missing or malformed document proceeds from an empty set.
    /// Either way the default offline account is guaranteed afterwards.
    /// Tokens are never read from the store: a restart loses them.
    pub fn initialize(&mut self, stored: Option<&String>)
        requires
            old(self)@.accounts.len() == 0,
            old(self)@.tokens.len() == 0,
        ensures
            final(self).wf(),
            final(self)@.accounts.len() > 0,
            match stored {
                Some(s) => match spec_parse_accounts(s@) {
                    Some(accs) => {
                        &&& accs.len() > 0 ==> final(self)@.accounts == accs
                            && final(self)@.tokens.len() == 0
                        &&& accs.len() == 0 ==> is_default_registry(final(self)@)
                    },
                    None => is_default_registry(final(self)@),
                },
                None => is_default_registry(final(self)@),
            },
    {
        match stored {
            None => {
                self.ensure_default_account();
            },
            Some(s) => {
                match parse_account_store(s.as_str()) {
                    Ok(accs) => {
                        self.accounts = accs;
                        self.ensure_default_account();
                    },
                    Err(_) => {
                        self.ensure_default_account();
                    },
                }
            },
        }
    }

    /// Writes the current account list as the persistence store's document.
    /// Tokens are deliberately not part of the document.
    pub fn export_accounts(&self) -> (r: String)
        ensures
            r@ == spec_encode_accounts(self@.accounts),
    {
        encode_account_store(&self.accounts)
    }

    /// The index of the token entry for `id`, scanning from the front.
    fn token_index(&self, id: &str) -> (r: Option<usize>)
        ensures
            match r {
                Some(i) => {
                    &&& i < self@.tokens.len()
                    &&& self@.tokens[i as int].account_id == id@
                    &&& forall|k: int| 0 <= k < i ==> self@.tokens[k].account_id != id@
                },
                None => forall|k: int|
                    0 <= k < self@.tokens.len() ==> self@.tokens[k].account_id != id@,
            },
    {
        let mut i: usize = 0;
        while i < self.tokens.len()
            invariant
                i <= self@.tokens.len(),
                self@.tokens.len() == self.tokens@.len(),
                forall|k: int| 0 <= k < i ==> self@.tokens[k].account_id != id@,
            decreases self.tokens@.len() - i,
        {
            if str_eq(self.tokens[i].account_id.as_str(), id) {
                return Some(i);
            }
            i = i + 1;
        }
        None
    }

    /// Associates `id` with `token`, replacing an existing entry or appending
    /// a new one. Keeps the keys unique.
    fn put_token(&mut self, id: String, token: YuukiTokenResponse)
        requires
            old(self).wf(),
        ensures
            final(self).wf(),
            final(self)@.accounts == old(self)@.accounts,
            final(self)@.token_for(id@) == Some(token@),
            forall|other: Seq<char>|
                other != id@ ==> final(self)@.token_for(other) == old(self)@.token_for(other),
    {
        let ghost old_tokens = self@.tokens;
        let found = self.token_index(id.as_str());
        let entry = TokenEntry { account_id: id, token };
        match found {
            Some(i) => {
                self.tokens[i] = entry;
                proof {
                    assert(self@.tokens =~= old_tokens.update(i as int, entry@));
                    lemma_find_token_at(self@.tokens, entry@.account_id, i as int);
                    assert forall|other: Seq<char>| other != entry@.account_id implies find_token(
                        self@.tokens,
                        other,
                    ) == find_token(old_tokens, other) by {
                        lemma_find_token_update(old_tokens, i as int, entry@, other);
                    }
                }
            },
            None => {
                self.tokens.push(entry);
                proof {
                    assert(self@.tokens =~= old_tokens.push(entry@));
                    lemma_find_token_none(old_tokens, entry@.account_id);
                    lemma_find_token_push(old_tokens, entry@, entry@.account_id);
                    assert forall|other: Seq<char>| other != entry@.account_id implies find_token(
                        self@.tokens,
                        other,
                    ) == find_token(old_tokens, other) by {
                        lemma_find_token_push(old_tokens, entry@, other);
                    }
                }
            },
        }
    }

    /// Re-establishes the invariant that the account set is never empty: if
    /// no account exists, creates the default offline account together with
    /// its placeholder token. Otherwise changes nothing.
    pub fn ensure_default_account(&mut self)
        requires
            old(self).wf(),
        ensures
            final(self).wf(),
            final(self)@.accounts.len() > 0,
            old(self)@.accounts.len() > 0 ==> *final(self) == *old(self),
            old(self)@.accounts.len() == 0 ==> {
                &&& final(self)@.accounts == seq![default_account_view()]
                &&& final(self)@.token_for("local.offline"@) == Some(default_token_view())
                &&& forall|other: Seq<char>|
                    other != "local.offline"@ ==> final(self)@.token_for(other) == old(
                        self,
                    )@.token_for(other)
            },
    {
        if self.accounts.len() == 0 {
            let account = YuukiAccount {
                id: String::from_str("local.offline"),
                username: String::from_str("Offline Player"),
                account_type: AccountType::Offline,
                provider: String::from_str("offline"),
            };
            let token = YuukiTokenResponse {
                access_token: String::from_str("offline-token"),
                refresh_token: String::from_str("offline-refresh"),
                expires_in: 0,
            };
            let ghost before = self@.accounts;
            self.put_token(String::from_str("local.offline"), token);
            self.accounts.push(account);
            proof {
                assert(self@.accounts =~= before.push(account@));
                assert(self@.accounts =~= seq![default_account_view()]);
            }
        }
    }

    /// Returns a snapshot (copy) of the current account set, after
    /// re-asserting the default-account invariant. The result is never empty.
    pub fn list_accounts(&mut self) -> (r: Vec<YuukiAccount>)
        requires
            old(self).wf(),
        ensures
            final(self).wf(),
            accounts_view(r@) == final(self)@.accounts,
            r@.len() > 0,
            old(self)@.accounts.len() > 0 ==> *final(self) == *old(self),
            old(self)@.accounts.len() == 0 ==> final(self)@.accounts == seq![
                default_account_view(),
            ],
    {
        self.ensure_default_account();
        let mut r: Vec<YuukiAccount> = Vec::new();
        let mut i: usize = 0;
        while i < self.accounts.len()
            invariant
                i <= self.accounts@.len(),
                accounts_view(r@) =~= self@.accounts.subrange(0, i as int),
                r@.len() == i,
            decreases self.accounts@.len() - i,
        {
            let a = clone_account(&self.accounts[i]);
            r.push(a);
            proof {
                assert(accounts_view(r@) =~= self@.accounts.subrange(0, i + 1 as int));
            }
            i = i + 1;
        }
        proof {
            assert(accounts_view(r@) =~= self@.accounts);
        }
        r
    }

    /// Creates a new offline account under a freshly generated unique id,
    /// together with a zero-expiry token, appends both to the registry and
    /// returns the created account. The caller is expected to persist the
    /// registry afterwards.
    pub fn add_offline_account(&mut self, username: &str) -> (r: YuukiAccount)
        requires
            old(self).wf(),
        ensures
            final(self).wf(),
            r.username@ == username@,
            r.account_type == AccountType::Offline,
            r.provider@ == "offline"@,
            r.id@.len() == 44,
            r.id@.subrange(0, 8) == "offline-"@,
            r.id@ != "local.offline"@,
            final(self)@.accounts == old(self)@.accounts.push(r@),
            final(self)@.token_for(r.id@) == Some(
                TokenView {
                    access_token: "tok-"@ + r.id@,
                    refresh_token: "ref-"@ + r.id@,
                    expires_in: 0,
                },
            ),
            forall|other: Seq<char>|
                other != r.id@ ==> final(self)@.token_for(other) == old(self)@.token_for(other),
            old(self)@.accounts_covered() ==> final(self)@.accounts_covered(),
    {
        proof {
            reveal_strlit("offline-");
            reveal_strlit("local.offline");
        }
        let mut id = String::from_str("offline-");
        id.append(new_uuid_string().as_str());
        let account = YuukiAccount {
            id: id.clone(),
            username: String::from_str(username),
            account_type: AccountType::Offline,
            provider: String::from_str("offline"),
        };
        let mut access_token = String::from_str("tok-");
        access_token.append(id.as_str());
        let mut refresh_token = String::from_str("ref-");
        refresh_token.append(id.as_str());
        let token = YuukiTokenResponse { access_token, refresh_token, expires_in: 0 };
        let ghost before = self@.accounts;
        self.put_token(id, token);
        let result = clone_account(&account);
        self.accounts.push(account);
        proof {
            assert(self@.accounts =~= before.push(result@));
            assert(result.id@.subrange(0, 8) =~= "offline-"@);
            if old(self)@.accounts_covered() {
                assert forall|i: int| 0 <= i < self@.accounts.len() implies self@.has_token(
                    #[trigger] self@.accounts[i].id,
                ) by {
                    let aid = self@.accounts[i].id;
                    if aid == result.id@ {
                        assert(self@.token_for(result.id@) is Some);
                    } else {
                        assert(i < before.len());
                        assert(aid == old(self)@.accounts[i].id);
                        assert(old(self)@.has_token(aid));
                        assert(self@.token_for(aid) == old(self)@.token_for(aid));
                    }
                }
            }
        }
        result
    }

    /// Initiates a device-code login for `provider`: fabricates the session
    /// descriptor, and optimistically registers a new pending account of
    /// type Microsoft under the id `provider:device_code`, together with a
    /// 600-second token. The caller is expected to persist the registry
    /// afterwards.
    pub fn start_device_login(&mut self, provider: &str) -> (r: YuukiDeviceCode)
        requires
            old(self).wf(),
        ensures
            final(self).wf(),
            r.poll_interval == 5,
            r.expires_in == 600,
            r.verification_uri@ == "https://microsoft.com/devicelogin"@,
            r.device_code@.len() == 36,
            exists|code: Seq<char>|
                #![auto]
                code.len() == 6 && all_digits(code) && r.user_code@ == upper_of(provider@) + "-"@
                    + code,
            r.message@ == "Enter "@ + r.user_code@
                + " at https://microsoft.com/devicelogin to link your account."@,
            final(self)@.accounts == old(self)@.accounts.push(
                AccountView {
                    id: provider@ + ":"@ + r.device_code@,
                    username: "New Device"@,
                    account_type: AccountType::Microsoft,
                    provider: provider@,
                },
            ),
            final(self)@.token_for(provider@ + ":"@ + r.device_code@) == Some(
                TokenView {
                    access_token: "tok-"@ + r.device_code@,
                    refresh_token: "ref-"@ + r.device_code@,
                    expires_in: 600,
                },
            ),
            forall|other: Seq<char>|
                other != provider@ + ":"@ + r.device_code@ ==> final(self)@.token_for(other) == old(
                    self,
                )@.token_for(other),
            old(self)@.accounts_covered() ==> final(self)@.accounts_covered(),
    {
        let code = random_code();
        let mut user_code = to_uppercase_string(provider);
        user_code.append("-");
        user_code.append(code.as_str());
        proof {
            assert(code@.len() == 6 && all_digits(code@) && user_code@ == upper_of(provider@)
                + "-"@ + code@);
        }
        let device_code = new_uuid_string();
        let mut id = String::from_str(provider);
        id.append(":");
        id.append(device_code.as_str());
        let account = YuukiAccount {
            id: id.clone(),
            username: String::from_str("New Device"),
            account_type: AccountType::Microsoft,
            provider: String::from_str(provider),
        };
        let mut access_token = String::from_str("tok-");
        access_token.append(device_code.as_str());
        let mut refresh_token = String::from_str("ref-");
        refresh_token.append(device_code.as_str());
        let token = YuukiTokenResponse { access_token, refresh_token, expires_in: 600 };
        let ghost before = self@.accounts;
        self.put_token(id, token);
        self.accounts.push(account);
        proof {
            assert(self@.accounts =~= before.push(account@));
            if old(self)@.accounts_covered() {
                assert forall|i: int| 0 <= i < self@.accounts.len() implies self@.has_token(
                    #[trigger] self@.accounts[i].id,
                ) by {
                    let aid = self@.accounts[i].id;
                    if aid == account@.id {
                        assert(self@.token_for(account@.id) is Some);
                    } else {
                        assert(i < before.len());
                        assert(aid == old(self)@.accounts[i].id);
                        assert(old(self)@.has_token(aid));
                        assert(self@.token_for(aid) == old(self)@.token_for(aid));
                    }
                }
            }
        }
        let mut message = String::from_str("Enter ");
        message.append(user_code.as_str());
        message.append(" at https://microsoft.com/devicelogin to link your account.");
        YuukiDeviceCode {
            user_code,
            verification_uri: String::from_str("https://microsoft.com/devicelogin"),
            device_code,
            expires_in: 600,
            message,
            poll_interval: 5,
        }
    }

    /// Looks up the token for `account_id`. On a hit, replaces both token
    /// values by freshly generated material and resets the expiry to 900
    /// seconds, returning the updated token. On a miss, returns nothing and
    /// leaves the registry untouched.
    pub fn refresh_token(&mut self, account_id: &str) -> (r: Option<YuukiTokenResponse>)
        requires
            old(self).wf(),
        ensures
            final(self).wf(),
            final(self)@.accounts == old(self)@.accounts,
            !old(self)@.has_token(account_id@) ==> r is None && *final(self) == *old(self),
            old(self)@.has_token(account_id@) ==> match r {
                Some(t) => {
                    &&& t.expires_in == 900
                    &&& t.access_token@.len() == 10
                    &&& t.access_token@.subrange(0, 4) == "tok-"@
                    &&& all_digits(t.access_token@.subrange(4, 10))
                    &&& t.refresh_token@.len() == 10
                    &&& t.refresh_token@.subrange(0, 4) == "ref-"@
                    &&& all_digits(t.refresh_token@.subrange(4, 10))
                    &&& final(self)@.token_for(account_id@) == Some(t@)
                    &&& forall|other: Seq<char>|
                        other != account_id@ ==> final(self)@.token_for(other) == old(
                            self,
                        )@.token_for(other)
                },
                None => false,
            },
    {
        let found = self.token_index(account_id);
        match found {
            Some(i) => {
                proof {
                    lemma_find_token_at(self@.tokens, account_id@, i as int);
                    reveal_strlit("tok-");
                    reveal_strlit("ref-");
                }
                let mut access_token = String::from_str("tok-");
                access_token.append(random_code().as_str());
                let mut refresh_token = String::from_str("ref-");
                refresh_token.append(random_code().as_str());
                let token = YuukiTokenResponse { access_token, refresh_token, expires_in: 900 };
                let result = clone_token(&token);
                let id_copy = self.tokens[i].account_id.clone();
                self.put_token(id_copy, token);
                proof {
                    assert(result.access_token@.subrange(0, 4) =~= "tok-"@);
                    assert(result.refresh_token@.subrange(0, 4) =~= "ref-"@);
                    assert(all_digits(result.access_token@.subrange(4, 10)));
                    assert(all_digits(result.refresh_token@.subrange(4, 10)));
                }
                Some(result)
            },
            None => {
                proof {
                    lemma_find_token_none(self@.tokens, account_id@);
                }
                None
            },
        }
    }
}

/// Relies on `rand::random_range`: a uniformly random value inside the given
/// range; `0..10` is non-empty, so the call returns a digit value.
#[verifier::external_body]
fn random_digit() -> (d: u8)
    ensures
        d < 10,
{
    rand::random_range(0..10)
}

/// Relies on `uuid::Uuid::new_v4` and the `Display` impl of `uuid::Uuid`: a
/// fresh random identifier rendered in the 36-character hyphenated form.
#[verifier::external_body]
fn new_uuid_string() -> (r: String)
    ensures
        r@.len() == 36,
{
    uuid::Uuid::new_v4().to_string()
}

/// The uppercase form of a character sequence, as `str::to_uppercase`
/// computes it.
pub uninterp spec fn upper_of(s: Seq<char>) -> Seq<char>;

/// Relies on `str::to_uppercase`: the Unicode uppercase form of the input, a
/// function of the characters alone (locale-independent).
#[verifier::external_body]
fn to_uppercase_string(s: &str) -> (r: String)
    ensures
        r@ == upper_of(s@),
{
    s.to_uppercase()
}

/// A freshly generated 6-digit numeric code.
fn random_code() -> (r: String)
    ensures
        r@.len() == 6,
        all_digits(r@),
{
    proof {
        reveal_strlit("0");
        reveal_strlit("1");
        reveal_strlit("2");
        reveal_strlit("3");
        reveal_strlit("4");
        reveal_strlit("5");
        reveal_strlit("6");
        reveal_strlit("7");
        reveal_strlit("8");
        reveal_strlit("9");
    }
    let mut r = String::new();
    let mut i: usize = 0;
    while i < 6
        invariant
            i <= 6,
            r@.len() == i,
            all_digits(r@),
        decreases 6 - i,
    {
        let d = random_digit();
        let ds: &str = if d == 0 {
            "0"
        } else if d == 1 {
            "1"
        } else if d == 2 {
            "2"
        } else if d == 3 {
            "3"
        } else if d == 4 {
            "4"
        } else if d == 5 {
            "5"
        } else if d == 6 {
            "6"
        } else if d == 7 {
            "7"
        } else if d == 8 {
            "8"
        } else {
            "9"
        };
        proof {
            reveal_strlit("0");
            reveal_strlit("1");
            reveal_strlit("2");
            reveal_strlit("3");
            reveal_strlit("4");
            reveal_strlit("5");
            reveal_strlit("6");
            reveal_strlit("7");
            reveal_strlit("8");
            reveal_strlit("9");
            assert(ds@.len() == 1 && is_digit(ds@[0]));
        }
        r.append(ds);
        i = i + 1;
    }
    r
}

} // verus!

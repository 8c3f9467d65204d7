use vstd::prelude::*;

verus! {

/// Supported account families for Yuuki.
#[derive(Debug, Clone, Copy, PartialEq, Eq, Structural)]
pub enum AccountType {
    Microsoft,
    Offline,
    LittleSkin,
}

/// Represents a user account stored by the launcher.
#[derive(Debug, Clone)]
pub struct YuukiAccount {
    pub id: String,
    pub username: String,
    pub account_type: AccountType,
    pub provider: String,
}

/// Mathematical model of an account: the character sequences of its string
/// fields together with its family.
pub ghost struct AccountView {
    pub id: Seq<char>,
    pub username: Seq<char>,
    pub account_type: AccountType,
    pub provider: Seq<char>,
}

impl View for YuukiAccount {
    type V = AccountView;

    open spec fn view(&self) -> AccountView {
        AccountView {
            id: self.id@,
            username: self.username@,
            account_type: self.account_type,
            provider: self.provider@,
        }
    }
}

/// Token information tied to each account.
#[derive(Debug, Clone)]
pub struct YuukiTokenResponse {
    pub access_token: String,
    pub refresh_token: String,
    pub expires_in: u32,
}

/// Mathematical model of a token pair.
pub ghost struct TokenView {
    pub access_token: Seq<char>,
    pub refresh_token: Seq<char>,
    pub expires_in: u32,
}

impl View for YuukiTokenResponse {
    type V = TokenView;

    open spec fn view(&self) -> TokenView {
        TokenView {
            access_token: self.access_token@,
            refresh_token: self.refresh_token@,
            expires_in: self.expires_in,
        }
    }
}

/// Response returned when initiating the device code flow.
#[derive(Debug, Clone)]
pub struct YuukiDeviceCode {
    pub user_code: String,
    pub verification_uri: String,
    pub device_code: String,
    pub expires_in: u32,
    pub message: String,
    pub poll_interval: u32,
}

/// The account models of a sequence of accounts, in order.
pub open spec fn accounts_view(s: Seq<YuukiAccount>) -> Seq<AccountView> {
    s.map_values(|a: YuukiAccount| a@)
}

/// Copies an account field by field.
pub fn clone_account(a: &YuukiAccount) -> (r: YuukiAccount)
    ensures
        r@ == a@,
{
    YuukiAccount {
        id: a.id.clone(),
        username: a.username.clone(),
        account_type: a.account_type,
        provider: a.provider.clone(),
    }
}

/// Copies a token pair field by field.
pub fn clone_token(t: &YuukiTokenResponse) -> (r: YuukiTokenResponse)
    ensures
        r@ == t@,
{
    YuukiTokenResponse {
        access_token: t.access_token.clone(),
        refresh_token: t.refresh_token.clone(),
        expires_in: t.expires_in,
    }
}

} // verus!

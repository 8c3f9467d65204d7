use yuuki_core::{AccountType, AuthManager};

#[test]
fn fresh_registry_lists_exactly_the_default_account() {
    let mut m = AuthManager::new();
    m.initialize(None);
    let accs = m.list_accounts();
    assert_eq!(accs.len(), 1);
    assert_eq!(accs[0].id, "local.offline");
    assert_eq!(accs[0].username, "Offline Player");
    assert_eq!(accs[0].account_type, AccountType::Offline);
    assert_eq!(accs[0].provider, "offline");
}

#[test]
fn list_accounts_is_never_empty() {
    let mut m = AuthManager::new();
    m.initialize(None);
    assert!(!m.list_accounts().is_empty());
    m.add_offline_account("Alex");
    assert!(!m.list_accounts().is_empty());
    m.start_device_login("microsoft");
    assert!(!m.list_accounts().is_empty());
}

#[test]
fn list_accounts_self_heals_an_empty_registry() {
    let mut m = AuthManager::new();
    let accs = m.list_accounts();
    assert_eq!(accs.len(), 1);
    assert_eq!(accs[0].id, "local.offline");
}

#[test]
fn add_offline_account_creates_a_fresh_offline_identity() {
    let mut m = AuthManager::new();
    m.initialize(None);
    let a = m.add_offline_account("Steve");
    assert_eq!(a.username, "Steve");
    assert_eq!(a.account_type, AccountType::Offline);
    assert_eq!(a.provider, "offline");
    assert_ne!(a.id, "local.offline");
    assert!(a.id.starts_with("offline-"));
    assert_eq!(a.id.len(), 44);
    let accs = m.list_accounts();
    assert_eq!(accs.len(), 2);
    assert!(accs.iter().any(|x| x.id == "local.offline"));
    assert!(accs.iter().any(|x| x.id == a.id && x.username == "Steve"));
}

#[test]
fn created_accounts_have_token_entries() {
    let mut m = AuthManager::new();
    m.initialize(None);
    let a = m.add_offline_account("Steve");
    assert!(m.refresh_token(&a.id).is_some());
    let s = m.start_device_login("microsoft");
    let device_account_id = format!("microsoft:{}", s.device_code);
    assert!(m.refresh_token(&device_account_id).is_some());
}

#[test]
fn refresh_token_for_unknown_id_is_a_miss_and_mutates_nothing() {
    let mut m = AuthManager::new();
    m.initialize(None);
    let before = m.list_accounts();
    assert!(m.refresh_token("no-such-account").is_none());
    let after = m.list_accounts();
    assert_eq!(before.len(), after.len());
    for (b, a) in before.iter().zip(after.iter()) {
        assert_eq!(b.id, a.id);
        assert_eq!(b.username, a.username);
    }
}

#[test]
fn refresh_token_replaces_both_values_and_resets_expiry() {
    let mut m = AuthManager::new();
    m.initialize(None);
    let a = m.add_offline_account("Steve");
    // the token created with the account embeds the 44-character account id,
    // so the refreshed 10-character values must differ from it
    let t = m.refresh_token(&a.id).expect("token for a fresh account");
    assert_eq!(t.expires_in, 900);
    assert!(t.access_token.starts_with("tok-"));
    assert!(t.refresh_token.starts_with("ref-"));
    assert_eq!(t.access_token.len(), 10);
    assert_eq!(t.refresh_token.len(), 10);
    assert!(t.access_token[4..].chars().all(|c| c.is_ascii_digit()));
    assert!(t.refresh_token[4..].chars().all(|c| c.is_ascii_digit()));
    assert_ne!(t.access_token, format!("tok-{}", a.id));
    assert_ne!(t.refresh_token, format!("ref-{}", a.id));
}

#[test]
fn start_device_login_returns_the_expected_session_shape() {
    let mut m = AuthManager::new();
    m.initialize(None);
    let s = m.start_device_login("microsoft");
    assert_eq!(s.poll_interval, 5);
    assert_eq!(s.expires_in, 600);
    assert_eq!(s.verification_uri, "https://microsoft.com/devicelogin");
    assert!(s.user_code.starts_with("MICROSOFT-"));
    let digits = &s.user_code["MICROSOFT-".len()..];
    assert_eq!(digits.len(), 6);
    assert!(digits.chars().all(|c| c.is_ascii_digit()));
    assert_eq!(s.device_code.len(), 36);
    assert_eq!(
        s.message,
        format!(
            "Enter {} at https://microsoft.com/devicelogin to link your account.",
            s.user_code
        )
    );
    let accs = m.list_accounts();
    let expected_id = format!("microsoft:{}", s.device_code);
    assert!(accs
        .iter()
        .any(|x| x.id == expected_id && x.account_type == AccountType::Microsoft
            && x.username == "New Device" && x.provider == "microsoft"));
}

#[test]
fn store_round_trip_preserves_the_account_list() {
    let mut m = AuthManager::new();
    m.initialize(None);
    m.add_offline_account("Steve");
    m.add_offline_account("weird\nname with \\ and : in it");
    m.start_device_login("littleskin");
    let doc = m.export_accounts();
    let mut m2 = AuthManager::new();
    m2.initialize(Some(&doc));
    let a1 = m.list_accounts();
    let a2 = m2.list_accounts();
    assert_eq!(a1.len(), a2.len());
    for (x, y) in a1.iter().zip(a2.iter()) {
        assert_eq!(x.id, y.id);
        assert_eq!(x.username, y.username);
        assert_eq!(x.account_type, y.account_type);
        assert_eq!(x.provider, y.provider);
    }
}

#[test]
fn corrupt_store_recovers_with_the_default_account() {
    let mut m = AuthManager::new();
    let garbage = String::from("{{{ not the account store format");
    m.initialize(Some(&garbage));
    let accs = m.list_accounts();
    assert_eq!(accs.len(), 1);
    assert_eq!(accs[0].id, "local.offline");
    assert_eq!(accs[0].account_type, AccountType::Offline);
}

use yuuki_core::store::{encode_account_store, parse_account_store};
use yuuki_core::{AccountType, YuukiAccount, YuukiError};

fn account(id: &str, username: &str, account_type: AccountType, provider: &str) -> YuukiAccount {
    YuukiAccount {
        id: id.to_string(),
        username: username.to_string(),
        account_type,
        provider: provider.to_string(),
    }
}

#[test]
fn encode_writes_the_exact_document_for_one_account() {
    let accs = vec![account("local.offline", "Offline Player", AccountType::Offline, "offline")];
    let doc = encode_account_store(&accs);
    assert_eq!(
        doc,
        "- id: local.offline\n  username: Offline Player\n  account_type: Offline\n  provider: offline\n"
    );
}

#[test]
fn encode_escapes_backslashes_and_line_breaks() {
    let accs = vec![account("a", "x\\y\nz", AccountType::LittleSkin, "p")];
    let doc = encode_account_store(&accs);
    assert_eq!(
        doc,
        "- id: a\n  username: x\\\\y\\nz\n  account_type: LittleSkin\n  provider: p\n"
    );
}

#[test]
fn empty_document_parses_to_an_empty_list() {
    let accs = parse_account_store("").expect("empty document");
    assert!(accs.is_empty());
}

#[test]
fn parse_reads_back_a_written_document() {
    let accs = vec![
        account("local.offline", "Offline Player", AccountType::Offline, "offline"),
        account("microsoft:abc", "New Device", AccountType::Microsoft, "microsoft"),
        account("offline-1", "with \\ and \n inside", AccountType::LittleSkin, "littleskin"),
    ];
    let doc = encode_account_store(&accs);
    let back = parse_account_store(&doc).expect("well-formed document");
    assert_eq!(back.len(), accs.len());
    for (x, y) in accs.iter().zip(back.iter()) {
        assert_eq!(x.id, y.id);
        assert_eq!(x.username, y.username);
        assert_eq!(x.account_type, y.account_type);
        assert_eq!(x.provider, y.provider);
    }
}

#[test]
fn parse_rejects_an_unknown_account_family() {
    let doc = "- id: a\n  username: u\n  account_type: Mojang\n  provider: p\n";
    let err = parse_account_store(doc).unwrap_err();
    assert!(matches!(err, YuukiError::ConfigParse(_)));
}

#[test]
fn parse_rejects_a_dangling_escape() {
    let doc = "- id: a\\\n  username: u\n  account_type: Offline\n  provider: p\n";
    let err = parse_account_store(doc).unwrap_err();
    assert!(matches!(err, YuukiError::ConfigParse(_)));
}

#[test]
fn parse_rejects_a_truncated_record() {
    let doc = "- id: a\n  username: u\n  account_type: Offline\n";
    let err = parse_account_store(doc).unwrap_err();
    assert!(matches!(err, YuukiError::ConfigParse(_)));
}

#[test]
fn parse_rejects_a_wrong_line_prefix() {
    let doc = "- id: a\n  user: u\n  account_type: Offline\n  provider: p\n";
    let err = parse_account_store(doc).unwrap_err();
    assert!(matches!(err, YuukiError::ConfigParse(_)));
}

#[test]
fn parse_rejects_a_document_without_a_final_line_break() {
    let doc = "- id: a\n  username: u\n  account_type: Offline\n  provider: p";
    let err = parse_account_store(doc).unwrap_err();
    assert!(matches!(err, YuukiError::ConfigParse(_)));
}

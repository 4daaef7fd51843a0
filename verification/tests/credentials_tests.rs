use noiisseur::credentials::{CredentialFile, Credentials};

fn credentials(access: &str, refresh: &str) -> Credentials {
    Credentials { access_token: access.to_string(), refresh_token: refresh.to_string() }
}

#[test]
fn empty_file_holds_no_credentials() {
    let file = CredentialFile::new();
    assert_eq!(file.load(), None);
    assert_eq!(file.refresh_token(), None);
    assert_eq!(file.to_text(), "");
}

#[test]
fn saved_credentials_are_loaded_again() {
    let mut file = CredentialFile::new();
    file.save(&credentials("BQC-access", "AQD-refresh"));
    assert_eq!(file.load(), Some(credentials("BQC-access", "AQD-refresh")));
    assert_eq!(file.refresh_token(), Some("AQD-refresh".to_string()));
}

#[test]
fn saved_file_has_one_section_with_both_tokens() {
    let mut file = CredentialFile::new();
    file.save(&credentials("BQC-access", "AQD-refresh"));
    assert_eq!(file.to_text(), "[default]\naccess_token=BQC-access\nrefresh_token=AQD-refresh\n");
}

#[test]
fn file_is_read_from_its_text() {
    let file =
        CredentialFile::from_text("[default]\naccess_token=one\nrefresh_token=two\n").unwrap();
    assert_eq!(file.load(), Some(credentials("one", "two")));
}

#[test]
fn tokens_of_another_section_are_not_credentials() {
    let file = CredentialFile::from_text("[other]\naccess_token=one\nrefresh_token=two\n").unwrap();
    assert_eq!(file.load(), None);
}

#[test]
fn file_without_a_refresh_token_holds_no_credentials() {
    let file = CredentialFile::from_text("[default]\naccess_token=one\n").unwrap();
    assert_eq!(file.load(), None);
    assert_eq!(file.refresh_token(), None);
}

#[test]
fn text_with_an_open_section_header_is_no_file() {
    assert!(CredentialFile::from_text("[default\naccess_token=one\n").is_none());
}

#[test]
fn saving_replaces_the_tokens_and_keeps_the_rest() {
    let mut file = CredentialFile::from_text(
        "[default]\naccess_token=old\nrefresh_token=older\nregion=eu\n[other]\nkey=value\n",
    )
    .unwrap();
    file.save(&credentials("new", "newer"));
    assert_eq!(file.load(), Some(credentials("new", "newer")));
    assert_eq!(
        file.to_text(),
        "[default]\nregion=eu\naccess_token=new\nrefresh_token=newer\n\n[other]\nkey=value\n"
    );
}

#[test]
fn new_access_token_leaves_the_refresh_token() {
    let mut file = CredentialFile::new();
    file.save(&credentials("old", "keep"));
    file.set_access_token("fresh");
    assert_eq!(file.load(), Some(credentials("fresh", "keep")));
}

use robo_radio::soundcloud::CredentialScan;

#[test]
fn scan_lists_each_script_src_in_order() {
    let page = "<html><head>\
<script crossorigin src=\"https://a.example.com/0-abc.js\"></script>\
<script crossorigin src=\"https://a.example.com/1-def.js\"></script>\
</head><body><script>inline</script></body></html>";
    let mut scan = CredentialScan::new(page);
    assert_eq!(scan.next_src(), Some("https://a.example.com/0-abc.js".to_string()));
    assert_eq!(scan.next_src(), Some("https://a.example.com/1-def.js".to_string()));
    assert_eq!(scan.next_src(), None);
}

#[test]
fn scan_of_plain_page_has_nothing_to_fetch() {
    let mut scan = CredentialScan::new("<html><body>hello</body></html>");
    assert_eq!(scan.next_src(), None);
}

#[test]
fn client_id_is_found_in_a_script_body() {
    let page = "<script src=\"https://a.example.com/app.js\"></script>";
    let mut scan = CredentialScan::new(page);
    assert!(scan.next_src().is_some());
    let js = "var x=1;client_id:\"abcDEF0123456789ghiJKL0123456789\",foo:2";
    let found = scan.feed(js);
    assert_eq!(found, Some("abcDEF0123456789ghiJKL0123456789".to_string()));
    let token = found.unwrap();
    assert_eq!(token.len(), 32);
    assert!(token.chars().all(|c| c.is_ascii_alphanumeric()));
    // A found credential closes the scan.
    assert_eq!(scan.next_src(), None);
}

#[test]
fn client_id_allows_spaces_around_the_colon() {
    let mut scan = CredentialScan::new("<script src=\"https://a.example.com/x.js\"></script>");
    assert!(scan.next_src().is_some());
    assert!(scan.feed("client_id : \"abcDEF0123456789ghiJKL0123456789\"").is_some());
}

#[test]
fn short_token_is_not_a_client_id() {
    let mut scan = CredentialScan::new("<script src=\"https://a.example.com/x.js\"></script>");
    assert!(scan.next_src().is_some());
    assert_eq!(scan.feed("client_id:\"tooshort\""), None);
}

#[test]
fn first_body_with_a_credential_wins() {
    let page = "<script src=\"https://a.example.com/0.js\"></script>\
<script src=\"https://a.example.com/1.js\"></script>\
<script src=\"https://a.example.com/2.js\"></script>";
    let mut scan = CredentialScan::new(page);
    assert!(scan.next_src().is_some());
    assert_eq!(scan.feed("nothing here"), None);
    assert!(scan.next_src().is_some());
    let hit = scan.feed("client_id:\"abcDEF0123456789ghiJKL0123456789\"");
    assert_eq!(hit, Some("abcDEF0123456789ghiJKL0123456789".to_string()));
    assert_eq!(scan.found, hit);
    // The remaining script is never asked for.
    assert_eq!(scan.next_src(), None);
}

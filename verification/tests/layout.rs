use dioscuri::layout::{cert_file_name, default_files, get_cert_dir, get_default_file};

#[test]
fn the_default_files_by_name() {
    assert_eq!(default_files(), vec!["head.html", "nav.html", "body.html"]);
}

#[test]
fn each_default_file_has_content_of_its_own() {
    let head = get_default_file("head.html");
    let nav = get_default_file("nav.html");
    let body = get_default_file("body.html");
    assert!(head.contains("<title>Dioscuri | Gemini Client</title>"));
    assert!(head.contains("<link rel='stylesheet' href=\"/static/css/style.css\"/>"));
    assert!(nav.contains("<form action=\"http://localhost:1965/\" method=\"GET\">"));
    assert!(nav.contains("<a href=\"gemini/geminiprotocol.net/\">geminiprotocol.net</a>"));
    assert!(body.contains("<h1>Hello, world!</h1>"));
    assert_ne!(head, nav);
    assert_ne!(nav, body);
    assert!(head.starts_with("\n            <head>\n"));
    assert!(body.ends_with("<h1>Hello, world!</h1>\n            "));
}

#[test]
fn other_names_have_no_default_content() {
    for name in ["", "home.html", "HEAD.HTML", "head.html ", "head", "/head.html"] {
        assert_eq!(get_default_file(name), "Error in getting default file.");
    }
}

#[test]
fn the_trust_store_lies_below_the_client_directory() {
    assert_eq!(get_cert_dir("/home/me/.dioscuri"), "/home/me/.dioscuri/cert");
    assert_eq!(get_cert_dir(""), "/cert");
    assert_eq!(get_cert_dir("relative"), "relative/cert");
}

#[test]
fn a_plain_domain_is_filed_under_its_own_name() {
    assert_eq!(cert_file_name("www.example.com"), "www.example.com.der");
    assert_eq!(cert_file_name("münchen.example"), "münchen.example.der");
    assert_eq!(cert_file_name("localhost"), "localhost.der");
    assert_eq!(cert_file_name("a-b.c_d:1965"), "a-b.c_d:1965.der");
    assert_eq!(cert_file_name(""), ".der");
    assert_eq!(cert_file_name("."), "..der");
    assert_eq!(cert_file_name(".."), "...der");
}

#[test]
fn what_would_lead_out_of_the_store_is_escaped() {
    assert_eq!(cert_file_name("a/b"), "a%2Fb.der");
    assert_eq!(cert_file_name("../x"), "..%2Fx.der");
    assert_eq!(cert_file_name("/etc/passwd"), "%2Fetc%2Fpasswd.der");
    assert_eq!(cert_file_name("a\\b"), "a%5Cb.der");
    assert_eq!(cert_file_name("a\0b"), "a%00b.der");
    assert_eq!(cert_file_name("100%"), "100%25.der");
    assert_eq!(cert_file_name("a%2Fb"), "a%252Fb.der");
    assert_eq!(cert_file_name("IGC/A"), "IGC%2FA.der");
}

#[test]
fn every_file_name_stays_in_the_store_and_no_two_domains_share_one() {
    let domains = [
        "", ".", "..", "a", "a/b", "a%2Fb", "a%252Fb", "a\\b", "a%5Cb", "a\0b", "a%00b", "%", "%25",
        "%2", "%2F", "/", "//", "\\", "../..", "..%2F..", "www.example.com", "www.example/com",
        "x.der", "x", "%%", "%25%", "25", "2F",
    ];
    let mut names: Vec<String> = Vec::new();
    for domain in domains {
        let name = cert_file_name(domain);
        assert!(!name.is_empty() && name != "." && name != "..", "{:?}", domain);
        assert!(!name.contains('/') && !name.contains('\\') && !name.contains('\0'), "{:?}", domain);
        assert!(name.ends_with(".der"), "{:?}", domain);
        assert!(!names.contains(&name), "{:?} shares {:?}", domain, name);
        names.push(name);
    }
    assert_eq!(names.len(), domains.len());
}

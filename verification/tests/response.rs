use osiris::response::Response;

fn pairs(v: &[(&str, &str)]) -> Vec<(String, String)> {
    v.iter().map(|(a, b)| (a.to_string(), b.to_string())).collect()
}

fn strings(v: &[&str]) -> Vec<String> {
    v.iter().map(|s| s.to_string()).collect()
}

#[test]
fn all_succeeded_is_complete_success() {
    let r = Response::new(pairs(&[("addr1", "tx1")]), Vec::new(), Vec::new(), Vec::new());
    assert!(r.complete_success());
    // `false` only if no address was dispensed tokens
    assert!(r.complete_failure());
    assert_eq!(r.succeeded(), &pairs(&[("addr1", "tx1")])[..]);
    assert!(r.failed().is_empty());
    assert!(r.unparsed().is_empty());
    assert!(r.remaining().is_empty());
}

#[test]
fn nothing_succeeded_is_complete_failure() {
    let r = Response::new(Vec::new(), pairs(&[("addr1", "no funds")]), strings(&["bad"]), strings(&["addr2"]));
    assert!(!r.complete_success());
    assert!(r.complete_failure());
    assert_eq!(r.failed(), &pairs(&[("addr1", "no funds")])[..]);
    assert_eq!(r.unparsed(), &strings(&["bad"])[..]);
    assert_eq!(r.remaining(), &strings(&["addr2"])[..]);
}

#[test]
fn partial_outcome() {
    let r = Response::new(pairs(&[("addr1", "tx1")]), Vec::new(), Vec::new(), strings(&["addr2"]));
    assert!(!r.complete_success());
    assert!(r.complete_failure());
}

#[test]
fn empty_response_is_complete_success() {
    let r = Response::new(Vec::new(), Vec::new(), Vec::new(), Vec::new());
    assert!(r.complete_success());
    assert!(!r.complete_failure());
}

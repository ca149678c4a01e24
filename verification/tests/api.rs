use url_shortener::{redirect, shorten, stats, AppError, AppState, ShortenRequest};

fn request(url: &str) -> ShortenRequest {
    ShortenRequest { url: url.to_string() }
}

/// Shorten a URL and return the assigned short code.
fn shorten_on(state: &mut AppState, url: &str) -> String {
    match shorten(state, request(url)) {
        Ok(resp) => resp.short,
        Err(e) => panic!("shortening {url:?} failed: {e:?}"),
    }
}

fn get_clicks(state: &AppState, code: &str) -> u64 {
    let resp = stats(state, code).expect("known code");
    assert_eq!(resp.short, code);
    resp.clicks
}

#[test]
fn shorten_returns_a_code() {
    let mut state = AppState::new();
    let resp = shorten(&mut state, request("https://www.rust-lang.org/learn")).unwrap();
    assert_eq!(resp.short, "0");
}

#[test]
fn shorten_rejects_bad_url() {
    let mut state = AppState::new();
    let err = shorten(&mut state, request("not-a-url")).unwrap_err();
    assert!(matches!(err, AppError::BadRequest));
    assert_eq!(err.status_and_body().0, 400);
}

#[test]
fn shorten_rejects_empty_url() {
    let mut state = AppState::new();
    let err = shorten(&mut state, request("")).unwrap_err();
    assert!(matches!(err, AppError::BadRequest));
    assert_eq!(err.status_and_body().0, 400);
}

#[test]
fn redirect_returns_the_original_url() {
    let mut state = AppState::new();
    let code = shorten_on(&mut state, "https://example.com/a/very/long/path");
    let location = redirect(&mut state, &code).unwrap();
    assert_eq!(location, "https://example.com/a/very/long/path");
}

#[test]
fn redirect_unknown_code_is_404() {
    let mut state = AppState::new();
    let err = redirect(&mut state, "does-not-exist").unwrap_err();
    assert!(matches!(err, AppError::NotFound));
    assert_eq!(err.status_and_body().0, 404);
}

#[test]
fn stats_starts_at_zero() {
    let mut state = AppState::new();
    let code = shorten_on(&mut state, "https://example.com");
    assert_eq!(get_clicks(&state, &code), 0);
}

#[test]
fn stats_counts_redirects() {
    let mut state = AppState::new();
    let code = shorten_on(&mut state, "https://example.com");
    for _ in 0..3 {
        assert_eq!(redirect(&mut state, &code).unwrap(), "https://example.com");
    }
    assert_eq!(get_clicks(&state, &code), 3);
}

#[test]
fn stats_unknown_code_is_404() {
    let state = AppState::new();
    let err = stats(&state, "does-not-exist").unwrap_err();
    assert!(matches!(err, AppError::NotFound));
    assert_eq!(err.status_and_body().0, 404);
}

#[test]
fn codes_are_sequential_and_distinct() {
    let mut state = AppState::new_in_memory();
    for n in 0..130u64 {
        let code = shorten_on(&mut state, &format!("http://example.com/{n}"));
        assert_eq!(code, url_shortener::encode(n));
    }
    assert_eq!(shorten_on(&mut state, "http://example.com/x"), "26");
    // every earlier code still leads to its own URL
    for n in 0..130u64 {
        let code = url_shortener::encode(n);
        assert_eq!(redirect(&mut state, &code).unwrap(), format!("http://example.com/{n}"));
    }
}

#[test]
fn shorten_trims_whitespace() {
    let mut state = AppState::new();
    let code = shorten_on(&mut state, " \t\n https://example.com/x \u{3000}\u{a0}");
    assert_eq!(redirect(&mut state, &code).unwrap(), "https://example.com/x");
}

#[test]
fn shorten_accepts_only_http_and_https() {
    let mut state = AppState::new();
    assert!(shorten(&mut state, request("http://a")).is_ok());
    assert!(shorten(&mut state, request("https://a")).is_ok());
    assert!(shorten(&mut state, request("http://")).is_ok());
    for bad in ["ftp://a", "HTTP://a", "http:/a", "https:/a", "   ", "\u{2003}", "http", " x http://a"] {
        let err = shorten(&mut state, request(bad)).unwrap_err();
        assert!(matches!(err, AppError::BadRequest), "{bad:?}");
    }
    // rejected requests store nothing: the next code is still "3"
    assert_eq!(shorten_on(&mut state, "https://b"), "3");
}

#[test]
fn unknown_and_near_miss_codes_are_not_found() {
    let mut state = AppState::new();
    let code = shorten_on(&mut state, "https://example.com");
    assert_eq!(code, "0");
    for other in ["", "1", "00", " 0", "0 ", "O"] {
        assert!(matches!(redirect(&mut state, other), Err(AppError::NotFound)));
        assert!(matches!(stats(&state, other), Err(AppError::NotFound)));
    }
    // failed redirects count nothing
    assert_eq!(get_clicks(&state, "0"), 0);
}

#[test]
fn clicks_are_counted_per_link() {
    let mut state = AppState::new();
    let a = shorten_on(&mut state, "https://a.example");
    let b = shorten_on(&mut state, "https://b.example");
    redirect(&mut state, &a).unwrap();
    redirect(&mut state, &b).unwrap();
    redirect(&mut state, &b).unwrap();
    assert_eq!(get_clicks(&state, &a), 1);
    assert_eq!(get_clicks(&state, &b), 2);
    // shortening another URL leaves the counts alone
    shorten_on(&mut state, "https://c.example");
    assert_eq!(get_clicks(&state, &a), 1);
    assert_eq!(get_clicks(&state, &b), 2);
}

#[test]
fn error_responses() {
    assert_eq!(AppError::BadRequest.status_and_body(), (400, "bad request"));
    assert_eq!(AppError::NotFound.status_and_body(), (404, "not found"));
    assert_eq!(
        AppError::Internal("disk full".to_string()).status_and_body(),
        (500, "internal server error")
    );
}

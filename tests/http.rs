use order_sync::http::{HttpMethod, HttpTool};

#[test]
fn test_curl() {
    let curl_command = r#"curl --request POST 'https://weav3r.dev/favorites' --header 'User-Agent: Mozilla/5.0 (Windows NT 10.0; Win64; x64) AppleWebKit/537.36 (KHTML, like Gecko) Chrome/144.0.0.0 Safari/537.36 Edg/144.0.0.0' --header 'Accept: text/x-component' --header 'accept-language: en' --header 'content-type: text/plain;charset=UTF-8' --header 'dnt: 1' --header 'next-action: 40b56cda62a77de9e1724496c1e9fdea42e89ab88a' --header 'next-router-state-tree: %5B%22%22%2C%7B%22children%22%3A%5B%22favorites%22%2C%7B%22children%22%3A%5B%22__PAGE__%22%2C%7B%7D%2Cnull%2Cnull%5D%7D%2Cnull%2Cnull%5D%7D%2Cnull%2Cnull%2Ctrue%5D' --header 'origin: https://weav3r.dev' --header 'priority: u=1, i' --header 'referer: https://weav3r.dev/favorites' --header 'sec-ch-ua: "Not(A:Brand";v="8", "Chromium";v="144", "Microsoft Edge";v="144"' --header 'sec-ch-ua-mobile: ?0' --header 'sec-ch-ua-platform: "Windows"' --header 'sec-fetch-dest: empty' --header 'sec-fetch-mode: cors' --header 'sec-fetch-site: same-origin' --header 'Cookie: __tf_verified=1770611010478.e74392adabbaf29579a9e4f62881c8e478c12fc35d286bd365b5a1ff8b5a8f3a; _ga=GA1.1.513731005.1770524621; cf_clearance=OZlKaHRTcyP1STPGJGSOv2As0_ojXe_Zs0yqOyJgVI0-1770524621-1.2.1.1-qbGhAh1vXpKnYedj03Ouv1UylV6Hwhd0IWvzbngnef5CUJaKZcw480VZFwhs6rpZrR0MPfycUDwD.VZuMzli1LGRcp.1JcQDGYEE_S3JuFp_ifx79H3ETkpsTHJVoKCNAmBsnm9xwmMDFKmGMrR0mV1adeCf2a58P9uXwgvN6b1CAVLKmH4p8yr7ASpnH9D1Qbc23MXTtAuYYJwGi5QV.Xe8BhlR0T.Bj7J7dpxJK9A; _ga_PF693NSPW1=GS2.1.s1770524620$o1$g1$t1770524626$j54$l0$h0' --data '[[206]]'"#;
    let tool = HttpTool::from_curl(curl_command);
    assert!(tool.is_ok());
    let tool = tool.unwrap();
    println!("tool info:{:?}", tool);
    assert_eq!(tool.method, HttpMethod::POST);
    assert_eq!(tool.url, "https://weav3r.dev/favorites");
    println!("next-action: {:?}", tool.headers.get("next-action"));
    println!("cookie: {:?}", tool.headers.get("cookie"));
}

#[test]
fn test_curl_with_backticks() {
    let curl_command = r#"curl --request POST ' `https://weav3r.dev/favorites` ' --header 'origin: `https://weav3r.dev` ' --header 'Cookie: test=value' --data '[[206]]'"#;
    let tool = HttpTool::from_curl(curl_command);
    assert!(tool.is_ok());
    let tool = tool.unwrap();
    assert_eq!(tool.url, "https://weav3r.dev/favorites");
    assert_eq!(tool.headers.get("origin"), Some(&"https://weav3r.dev".to_string()));
    assert_eq!(tool.headers.get("cookie"), Some(&"test=value".to_string()));
}

#[test]
fn curl_without_url_is_an_error() {
    let tool = HttpTool::from_curl("curl -X POST --header 'a: b'");
    assert_eq!(tool.unwrap_err(), "URL not found in curl command");
}

#[test]
fn curl_form_fields_make_a_post_body() {
    let tool = HttpTool::from_curl("curl https://example.com -F a=1 -F b=2").unwrap();
    assert_eq!(tool.method, HttpMethod::POST);
    assert_eq!(tool.body, b"a=1&b=2".to_vec());
    assert_eq!(
        tool.headers.get("Content-Type"),
        Some(&"application/x-www-form-urlencoded".to_string())
    );
}

#[test]
fn curl_user_becomes_basic_authorization() {
    let tool = HttpTool::from_curl("curl -u user:pass https://example.com").unwrap();
    assert_eq!(
        tool.headers.get("authorization"),
        Some(&"Basic dXNlcjpwYXNz".to_string())
    );
    assert_eq!(tool.method, HttpMethod::GET);
    assert!(tool.body.is_empty());
}

#[test]
fn curl_short_option_cluster_takes_arguments_in_turn() {
    let tool = HttpTool::from_curl("curl -sXH put 'X-Key: v' \"http://h/x\"").unwrap();
    assert_eq!(tool.method, HttpMethod::PUT);
    assert_eq!(tool.headers.get("x-key"), Some(&"v".to_string()));
    assert_eq!(tool.url, "http://h/x");
}

#[test]
fn curl_compressed_and_cookie() {
    let tool = HttpTool::from_curl("curl.exe --compressed -b k=v -A agent https://a.b").unwrap();
    assert_eq!(tool.headers.get("accept-encoding"), Some(&"gzip, deflate".to_string()));
    assert_eq!(tool.headers.get("cookie"), Some(&"k=v".to_string()));
    assert_eq!(tool.headers.get("user-agent"), Some(&"agent".to_string()));
}

#[test]
fn method_names_ignore_case() {
    assert_eq!(HttpMethod::from_str("delete"), HttpMethod::DELETE);
    assert_eq!(HttpMethod::from_str("Options"), HttpMethod::OPTIONS);
    assert_eq!(HttpMethod::from_str("fetch"), HttpMethod::GET);
}

#[test]
fn tool_setters() {
    let mut tool = HttpTool::default();
    tool.add_param("q", "1");
    tool.add_header("h", "2");
    tool.set_url("http://x");
    tool.set_body(vec![1, 2]);
    assert_eq!(tool.params.get("q"), Some(&"1".to_string()));
    assert_eq!(tool.headers.get("h"), Some(&"2".to_string()));
    assert_eq!(tool.url, "http://x");
    assert_eq!(tool.body, vec![1, 2]);
}

#[test]
fn base64_of_credentials() {
    assert_eq!(order_sync::base64::base64_encode("user:pass"), "dXNlcjpwYXNz");
    assert_eq!(order_sync::base64::base64_encode("ab"), "YWI=");
    assert_eq!(order_sync::base64::base64_encode("a"), "YQ==");
    assert_eq!(order_sync::base64::base64_encode(""), "");
}

#[test]
fn header_values_are_trimmed_of_unicode_white_space() {
    let tool = HttpTool::from_curl("curl http://a -H 'K:\u{3000}v w\u{a0}'").unwrap();
    assert_eq!(tool.headers.get("k"), Some(&"v w".to_string()));
}

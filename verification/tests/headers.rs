use fanbox_archive::headers::generate_user_headers;
use fanbox_archive::headers::sec_ch_ua;
use fanbox_archive::headers::ua_browser;
use fanbox_archive::headers::ua_mobile;
use fanbox_archive::headers::ua_platform;
use fanbox_archive::headers::ua_version;

const EDGE_UA: &str = "Mozilla/5.0 (Windows NT 10.0; Win64; x64) AppleWebKit/537.36 (KHTML, like Gecko) Chrome/126.0.0.0 Safari/537.36 Edg/126.0.0.0";
const FIREFOX_UA: &str = "Mozilla/5.0 (X11; Linux x86_64; rv:127.0) Gecko/20100101 Firefox/127.0";
const SAFARI_UA: &str = "Mozilla/5.0 (Macintosh; Intel Mac OS X 10_15_7) AppleWebKit/605.1.15 (KHTML, like Gecko) Version/17.4 Safari/605.1.15";

#[test]
fn platform_is_classified_from_the_user_agent() {
    assert_eq!(ua_platform(EDGE_UA), "\"Windows\"");
    assert_eq!(ua_platform(FIREFOX_UA), "\"Linux\"");
    assert_eq!(ua_platform(SAFARI_UA), "\"macOS\"");
    assert_eq!(ua_platform("something else"), "\"Unknown\"");
}

#[test]
fn mobile_hint_follows_the_mobile_token() {
    assert_eq!(ua_mobile(EDGE_UA), "?0");
    assert_eq!(ua_mobile("Mozilla/5.0 (Linux; Android 14) Mobile Safari"), "?1");
}

#[test]
fn browser_family_is_classified_in_priority_order() {
    assert_eq!(ua_browser(EDGE_UA), "Edg");
    assert_eq!(ua_browser(FIREFOX_UA), "Firefox");
    assert_eq!(ua_browser(SAFARI_UA), "Safari");
    assert_eq!(ua_browser("curl/8.0"), "Unknown");
    // a Chrome token without the Edge token classifies as Chromium
    let chrome = "Mozilla/5.0 (Windows NT 10.0) Chrome/126.0.0.0 Safari/537.36";
    assert_eq!(ua_browser(chrome), "Chromium");
}

#[test]
fn version_comes_from_the_matching_token() {
    // the Edge label matches its own token and yields the major version
    assert_eq!(ua_version(EDGE_UA), "126");
    assert_eq!(ua_version(FIREFOX_UA), "127");
    // the Safari token itself carries the WebKit build number
    assert_eq!(ua_version(SAFARI_UA), "605");
    // no token starts with the fallback label, so the fallback version is used
    assert_eq!(ua_version("curl/8.0"), "12");
}

#[test]
fn brand_list_names_the_recognised_browser() {
    assert_eq!(
        sec_ch_ua("Edg", "126"),
        "\"Chromium\";v=\"126\",\"Microsoft Edge\";v=\"126\", \"Not_A Brand\";v=\"99\""
    );
    assert_eq!(
        sec_ch_ua("Chromium", "125"),
        "\"Chromium\";v=\"125\",\"Google Chrome\";v=\"125\", \"Not_A Brand\";v=\"99\""
    );
    assert_eq!(
        sec_ch_ua("Weird", "3"),
        "\"Chromium\";v=\"3\",\"Weird\";v=\"3\", \"Not_A Brand\";v=\"99\""
    );
}

#[test]
fn header_values_are_derived_together() {
    let h = generate_user_headers(EDGE_UA);
    assert_eq!(h.platform, "\"Windows\"");
    assert_eq!(h.mobile, "?0");
    assert_eq!(
        h.brands,
        "\"Chromium\";v=\"126\",\"Microsoft Edge\";v=\"126\", \"Not_A Brand\";v=\"99\""
    );
}

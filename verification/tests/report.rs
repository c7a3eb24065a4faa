use rinkai_info::config::build_url;
use rinkai_info::config::require_token;
use rinkai_info::matching::contains_str;
use rinkai_info::matching::railway_matches;
use rinkai_info::present::render_block;
use rinkai_info::present::render_report;
use rinkai_info::records::TrainInfo;

const FALLBACK_SENTENCE: &str = "現在、りんかい線に関する特別な運行情報（遅延・運休など）はありません。\n";

fn record(railway: &str, text: Option<Vec<(&str, &str)>>) -> TrainInfo {
    TrainInfo {
        railway: railway.to_string(),
        text: text.map(|pairs| {
            pairs.into_iter().map(|(k, v)| (k.to_string(), v.to_string())).collect()
        }),
    }
}

#[test]
fn resolves_fallback_when_text_absent() {
    let info = record("odpt.Railway:TWR.Rinkai", None);
    assert_eq!(info.resolve_display_text(), "情報なし");
}

#[test]
fn resolves_fallback_when_ja_missing() {
    let info = record("odpt.Railway:TWR.Rinkai", Some(vec![("en", "Delayed")]));
    assert_eq!(info.resolve_display_text(), "情報なし");
}

#[test]
fn resolves_ja_entry() {
    let info = record("odpt.Railway:TWR.Rinkai", Some(vec![("en", "Delayed"), ("ja", "遅延中")]));
    assert_eq!(info.resolve_display_text(), "遅延中");
}

#[test]
fn keyword_match_is_case_sensitive_substring() {
    assert!(railway_matches("odpt.Railway:TWR.Rinkai"));
    assert!(railway_matches("Rinkai"));
    assert!(!railway_matches("odpt.Railway:JR-East.Yamanote"));
    assert!(!railway_matches("odpt.Railway:TWR.rinkai"));
    assert!(!railway_matches(""));
}

#[test]
fn substring_search_edges() {
    assert!(contains_str("abc", ""));
    assert!(contains_str("", ""));
    assert!(!contains_str("", "a"));
    assert!(contains_str("aab", "ab"));
    assert!(!contains_str("ab", "abc"));
    assert!(contains_str("りんかい線", "かい"));
}

#[test]
fn block_has_label_text_and_blank_line() {
    let info = record("odpt.Railway:TWR.Rinkai", Some(vec![("ja", "遅延中")]));
    assert_eq!(render_block(&info), "【odpt.Railway:TWR.Rinkai】\n遅延中\n\n");
}

#[test]
fn report_lists_matches_in_input_order() {
    let infos = vec![
        record("odpt.Railway:TWR.Rinkai", Some(vec![("ja", "運転見合わせ")])),
        record("odpt.Railway:JR-East.Yamanote", Some(vec![("ja", "平常運転")])),
        record("odpt.Railway:TWR.Rinkai.Branch", None),
    ];
    assert_eq!(
        render_report(&infos),
        "【odpt.Railway:TWR.Rinkai】\n運転見合わせ\n\n【odpt.Railway:TWR.Rinkai.Branch】\n情報なし\n\n"
    );
}

#[test]
fn report_falls_back_when_nothing_matches() {
    let infos = vec![record("odpt.Railway:JR-East.Yamanote", Some(vec![("ja", "平常運転")]))];
    assert_eq!(render_report(&infos), FALLBACK_SENTENCE);
}

#[test]
fn report_falls_back_on_empty_list() {
    let infos: Vec<TrainInfo> = Vec::new();
    assert_eq!(render_report(&infos), FALLBACK_SENTENCE);
}

#[test]
fn missing_token_is_rejected_with_message() {
    let r = require_token(None);
    assert_eq!(r, Err("ODPT_TOKEN must be set".to_string()));
}

#[test]
fn present_token_is_accepted() {
    let r = require_token(Some("demo-token".to_string()));
    assert_eq!(r, Ok("demo-token".to_string()));
}

#[test]
fn url_embeds_token_in_fixed_endpoint() {
    assert_eq!(
        build_url("abc123"),
        "https://api.odpt.org/api/v4/odpt:TrainInformation?acl:consumerKey=abc123"
    );
}

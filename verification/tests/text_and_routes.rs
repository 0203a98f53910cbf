use plugin::decimal::{last_segment_of, parse_i32};
use plugin::icons::{rank_icon_index, RankIcons};
use plugin::init::{init_precheck, InitResult};
use plugin::web::{route, web_server_thread, Route};

#[test]
fn parse_i32_accepts_what_from_str_accepts() {
    assert_eq!(parse_i32(b"123"), Some(123));
    assert_eq!(parse_i32(b"+7"), Some(7));
    assert_eq!(parse_i32(b"-0"), Some(0));
    assert_eq!(parse_i32(b"0012"), Some(12));
    assert_eq!(parse_i32(b"2147483647"), Some(i32::MAX));
    assert_eq!(parse_i32(b"-2147483648"), Some(i32::MIN));
}

#[test]
fn parse_i32_rejects_what_from_str_rejects() {
    assert_eq!(parse_i32(b""), None);
    assert_eq!(parse_i32(b"-"), None);
    assert_eq!(parse_i32(b"+"), None);
    assert_eq!(parse_i32(b"12a"), None);
    assert_eq!(parse_i32(b"-+5"), None);
    assert_eq!(parse_i32(b" 5"), None);
    assert_eq!(parse_i32(b"2147483648"), None);
    assert_eq!(parse_i32(b"-2147483649"), None);
    assert_eq!(parse_i32(b"99999999999999999999"), None);
}

#[test]
fn parse_i32_agrees_with_std_on_samples() {
    for text in ["0", "-1", "+00", "42", "-2147483648", "2147483648", "4x", "", "-", "1_2"] {
        assert_eq!(parse_i32(text.as_bytes()), text.parse::<i32>().ok(), "{text}");
    }
}

#[test]
fn last_segment_is_what_split_last_gives() {
    for name in ["utx_ico_rank_05", "rank", "a_", "_b", "", "a__b"] {
        let expected = name.split('_').last().unwrap();
        assert_eq!(last_segment_of(name.as_bytes(), b'_'), expected.as_bytes());
    }
}

#[test]
fn sprite_rank_is_one_past_the_number() {
    assert_eq!(rank_icon_index(b"utx_ico_rank_05"), Some(6));
    assert_eq!(rank_icon_index(b"0"), Some(1));
    assert_eq!(rank_icon_index(b"rank_-1"), Some(0));
    assert_eq!(rank_icon_index(b"rank_2147483646"), Some(i32::MAX));
}

#[test]
fn sprite_without_rank_number_is_refused() {
    assert_eq!(rank_icon_index(b"rank_2147483647"), None);
    assert_eq!(rank_icon_index(b"rank_x"), None);
    assert_eq!(rank_icon_index(b"rank_"), None);
}

#[test]
fn rank_icons_lookup_after_add() {
    let mut icons = RankIcons::new();
    assert!(icons.add_sprite(b"utx_ico_rank_00", vec![1, 2, 3]));
    assert!(icons.add_sprite(b"utx_ico_rank_07", vec![9]));
    assert!(!icons.add_sprite(b"utx_ico_rank", vec![7]));
    assert_eq!(icons.icon_for_rank(1), Some(vec![1, 2, 3]));
    assert_eq!(icons.icon_for_rank(8), Some(vec![9]));
    assert_eq!(icons.icon_for_rank(0), None);
    assert!(icons.add_sprite(b"other_0", vec![5]));
    assert_eq!(icons.icon_for_rank(1), Some(vec![5]));
}

#[test]
fn routes_of_get_requests() {
    assert_eq!(route(b"GET", b"/socket"), Route::Socket);
    assert_eq!(route(b"GET", b"/socket?x=1"), Route::Socket);
    assert_eq!(route(b"GET", b"/rank/12"), Route::Rank(12));
    assert_eq!(route(b"GET", b"/rank/-12?a"), Route::Rank(-12));
    assert_eq!(route(b"GET", b"/rank_icon/30"), Route::RankIcon(30));
}

#[test]
fn route_decodes_percent_escapes() {
    assert_eq!(route(b"GET", b"/rank/%35"), Route::Rank(5));
    assert_eq!(route(b"GET", b"/rank_icon/1%32"), Route::RankIcon(12));
    assert_eq!(route(b"GET", b"/rank/1%2F2"), Route::Assets);
}

#[test]
fn other_requests_go_to_assets() {
    assert_eq!(route(b"POST", b"/socket"), Route::Assets);
    assert_eq!(route(b"get", b"/socket"), Route::Assets);
    assert_eq!(route(b"GET", b"/socket/"), Route::Assets);
    assert_eq!(route(b"GET", b"/rank/12/"), Route::Assets);
    assert_eq!(route(b"GET", b"/rank/"), Route::Assets);
    assert_eq!(route(b"GET", b"/rank/abc"), Route::Assets);
    assert_eq!(route(b"GET", b"/rank?/5"), Route::Assets);
    assert_eq!(route(b"GET", b"/index.html"), Route::Assets);
    assert_eq!(route(b"GET", b""), Route::Assets);
}

#[test]
fn init_precheck_cases() {
    assert_eq!(init_precheck(true, 3, 2), InitResult::Success);
    assert_eq!(init_precheck(true, 2, 2), InitResult::Success);
    assert_eq!(init_precheck(true, 1, 2), InitResult::Error);
    assert_eq!(init_precheck(false, 5, 2), InitResult::Error);
}

#[test]
fn web_server_thread_returns() {
    web_server_thread();
}

#[test]
fn decimal_text_parses_back() {
    for v in [0, 7, -7, 10, -10, 123456, i32::MAX, i32::MIN, 1000000000] {
        assert_eq!(parse_i32(v.to_string().as_bytes()), Some(v));
    }
}

#[test]
fn score_requests_reach_their_handlers() {
    for score in [0, 5, -1, 49999, i32::MAX, i32::MIN] {
        let rank = format!("/rank/{score}");
        let icon = format!("/rank_icon/{score}");
        assert_eq!(route(b"GET", rank.as_bytes()), Route::Rank(score));
        assert_eq!(route(b"GET", icon.as_bytes()), Route::RankIcon(score));
    }
}

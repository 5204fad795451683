use streaming_gif::config::{
    format_trailer_policy, stream_config_from_settings, trailer_policy_from_setting,
    StreamConfig, BIND_ADDR, GIF_CACHE_CONTROL, GIF_CONTENT_TYPE,
};
use streaming_gif::gif_stream::TrailerPolicy;

#[test]
fn default_config_is_one_frame_per_second_closed_after_ten() {
    let config = StreamConfig::default();
    assert_eq!(config.policy, TrailerPolicy::AfterN(10));
    assert_eq!(config.interval.as_millis(), 1000);
    assert_eq!(config.interval.subsec_nanos(), 0);
}

#[test]
fn trailer_settings_select_a_policy() {
    assert_eq!(trailer_policy_from_setting(Some("never")), TrailerPolicy::Never);
    assert_eq!(trailer_policy_from_setting(Some("ondrop")), TrailerPolicy::OnDrop);
    assert_eq!(trailer_policy_from_setting(Some("after:20")), TrailerPolicy::AfterN(20));
    assert_eq!(trailer_policy_from_setting(Some("after:0")), TrailerPolicy::AfterN(0));
    assert_eq!(trailer_policy_from_setting(Some("after:+7")), TrailerPolicy::AfterN(7));
    assert_eq!(trailer_policy_from_setting(Some("after:after:3")), TrailerPolicy::AfterN(3));
    assert_eq!(
        trailer_policy_from_setting(Some("after:4294967295")),
        TrailerPolicy::AfterN(u32::MAX)
    );
    // Counts that are not a valid u32 fall back to 10.
    for bad in ["after:", "after:4294967296", "after:-1", "after:x", "after: 5", "after:+"] {
        assert_eq!(trailer_policy_from_setting(Some(bad)), TrailerPolicy::AfterN(10), "{bad}");
    }
    // Anything else, or nothing, is the default.
    for other in ["", "NEVER", "never ", "onDrop", "after", "10"] {
        assert_eq!(trailer_policy_from_setting(Some(other)), TrailerPolicy::AfterN(10), "{other}");
    }
    assert_eq!(trailer_policy_from_setting(None), TrailerPolicy::AfterN(10));
}

#[test]
fn policy_text_reads_back_as_the_same_policy() {
    for policy in [
        TrailerPolicy::Never,
        TrailerPolicy::OnDrop,
        TrailerPolicy::AfterN(0),
        TrailerPolicy::AfterN(10),
        TrailerPolicy::AfterN(u32::MAX),
    ] {
        let text = format_trailer_policy(policy);
        assert_eq!(trailer_policy_from_setting(Some(text.as_str())), policy);
    }
    assert_eq!(format_trailer_policy(TrailerPolicy::Never), "never");
    assert_eq!(format_trailer_policy(TrailerPolicy::OnDrop), "ondrop");
    assert_eq!(format_trailer_policy(TrailerPolicy::AfterN(10)), "after:10");
    assert_eq!(format_trailer_policy(TrailerPolicy::AfterN(4294967295)), "after:4294967295");
}

#[test]
fn interval_setting_is_milliseconds() {
    let config = stream_config_from_settings(Some("never"), Some("250"));
    assert_eq!(config.policy, TrailerPolicy::Never);
    assert_eq!(config.interval.as_millis(), 250);
    let config = stream_config_from_settings(None, Some("0"));
    assert!(config.interval.is_zero());
    assert_eq!(config.policy, TrailerPolicy::AfterN(10));
    let config = stream_config_from_settings(None, Some("18446744073709551615"));
    assert_eq!(config.interval.as_millis(), u64::MAX as u128);
    for bad in ["", "abc", "-5", "1.5", "18446744073709551616"] {
        let config = stream_config_from_settings(Some("after:2"), Some(bad));
        assert_eq!(config.interval.as_millis(), 1000, "{bad}");
        assert_eq!(config.policy, TrailerPolicy::AfterN(2));
    }
    let config = stream_config_from_settings(None, None);
    assert_eq!(config.interval.as_millis(), 1000);
}

#[test]
fn route_constants() {
    assert_eq!(BIND_ADDR, "127.0.0.1:3000");
    assert_eq!(GIF_CONTENT_TYPE, "image/gif");
    assert_eq!(GIF_CACHE_CONTROL, "no-store");
}

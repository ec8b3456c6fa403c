use tais_core::wechat::{extract_tag, openid_nameable, parse_u64, WechatBot, WxMessageType, WxReply};

const TEXT_MESSAGE: &str = "<xml>
<ToUserName><![CDATA[gh_abc123]]></ToUserName>
<FromUserName><![CDATA[oXYZ456]]></FromUserName>
<CreateTime>1234567890</CreateTime>
<MsgType><![CDATA[text]]></MsgType>
<Content><![CDATA[牛顿第二定律是什么？]]></Content>
<MsgId>123456</MsgId>
</xml>";

#[test]
fn test_parse_text_message() {
    let msg = WechatBot::parse_message(TEXT_MESSAGE).unwrap();
    assert_eq!(msg.from_user, "oXYZ456");
    assert_eq!(msg.msg_type, WxMessageType::Text);
    assert_eq!(msg.content, "牛顿第二定律是什么？");
}

#[test]
fn parsed_message_fields() {
    let msg = WechatBot::parse_message(TEXT_MESSAGE).unwrap();
    assert_eq!(msg.to_user, "gh_abc123");
    assert_eq!(msg.msg_id, "123456");
    assert_eq!(msg.create_time, 1234567890);
}

#[test]
fn test_build_reply() {
    let reply = WxReply {
        to_user: "oXYZ456".into(),
        from_user: "gh_abc123".into(),
        msg_type: "text".into(),
        content: "好问题！先想想：力和加速度之间有什么关系？".into(),
    };
    let xml = WechatBot::build_reply_xml(&reply);
    assert!(xml.contains("oXYZ456"));
    assert!(xml.contains("力和加速度"));
}

#[test]
fn reply_xml_layout() {
    let reply = WxReply { to_user: "u".into(), from_user: "g".into(), msg_type: "text".into(), content: "c".into() };
    let xml = WechatBot::reply_xml_at(&reply, -42);
    assert_eq!(
        xml,
        "<xml>\n<ToUserName><![CDATA[u]]></ToUserName>\n<FromUserName><![CDATA[g]]></FromUserName>\n<CreateTime>-42</CreateTime>\n<MsgType><![CDATA[text]]></MsgType>\n<Content><![CDATA[c]]></Content>\n</xml>"
    );
    let back = WechatBot::parse_message(&xml).unwrap();
    assert_eq!(back.from_user, "g");
    assert_eq!(back.content, "c");
    assert_eq!(back.create_time, 0);
}

#[test]
fn test_signature_verification() {
    let bot = WechatBot::new("test_token", None, None);
    assert!(bot.verify_signature("any", "any", "any") || true);
}

#[test]
fn signature_is_sha1_of_sorted_parts() {
    let bot = WechatBot::new("token", None, None);
    // the parts sort as "123" < "abc" < "token"; sha1("123abctoken")
    let good = "84501b652458690801074dc0b44e9822dfb63245";
    assert!(bot.verify_signature(good, "123", "abc"));
    assert!(bot.verify_signature(good, "abc", "123"));
    assert!(bot.verify_signature(&good.to_uppercase(), "123", "abc"));
    assert!(!bot.verify_signature("0000", "123", "abc"));
}

#[test]
fn test_session_creation() {
    let mut bot = WechatBot::new("token", None, None);
    let session = bot.get_or_create_session("user123");
    assert_eq!(session.openid, "user123");
    assert_eq!(session.message_count, 0);

    bot.record_activity("user123");
    let session = bot.get_or_create_session("user123");
    assert_eq!(session.message_count, 1);
}

#[test]
fn session_names_and_listing() {
    let mut bot = WechatBot::new("token", Some("key"), Some("app"));
    let first = bot.get_or_create_session("abcdefgh").tais_session_id.clone();
    assert_eq!(bot.get_or_create_session("abcdefgh").student_name, "微信用户_abcdef");
    bot.get_or_create_session("xy");
    assert_eq!(bot.get_or_create_session("xy").student_name, "微信用户_xy");
    let all = bot.list_sessions();
    assert_eq!(all.len(), 2);
    assert_eq!(all[0].openid, "abcdefgh");
    assert_eq!(all[0].tais_session_id, first);
    assert_eq!(first.len(), 36);
    bot.record_activity("nobody");
    assert_eq!(bot.list_sessions().len(), 2);
}

#[test]
fn missing_tags_are_errors() {
    assert_eq!(extract_tag("<xml></xml>", "MsgType").unwrap_err(), "tag not found: MsgType");
    assert_eq!(extract_tag("<a>x", "a").unwrap_err(), "closing tag not found: a");
    assert_eq!(extract_tag("<a>plain</a>", "a").unwrap(), "plain");
    let e = WechatBot::parse_message("<xml><FromUserName>f</FromUserName></xml>").err().unwrap();
    assert_eq!(e, "tag not found: ToUserName");
}

#[test]
fn unsigned_parsing() {
    assert_eq!(parse_u64("42"), Some(42));
    assert_eq!(parse_u64("+7"), Some(7));
    assert_eq!(parse_u64("+"), None);
    assert_eq!(parse_u64(""), None);
    assert_eq!(parse_u64("-1"), None);
    assert_eq!(parse_u64("18446744073709551615"), Some(u64::MAX));
    assert_eq!(parse_u64("18446744073709551616"), None);
    assert_eq!(parse_u64("12a"), None);
}

#[test]
fn openid_naming_precondition() {
    assert!(openid_nameable("oXYZ456abc"));
    assert!(openid_nameable("用户"));
    assert!(openid_nameable("用户ab"));
    assert!(!openid_nameable("ab用户cd"));
}

//! WeChat Official Account bot: parsing the XML of incoming messages,
//! building replies, checking the server's signature and keeping one
//! session per WeChat user (OpenID). Times are seconds (reply stamps) or
//! microseconds (sessions) since the Unix epoch.

use vstd::prelude::*;
use vstd::hash_map::StringHashMap;
use sha1::Digest;
use crate::platform::{is_lower_hex, new_uuid, now_micros, now_secs};
use crate::text::{
    byte_len, chars_of, chars_within, concat, dec, find_from, find_from_spec, lowercase, owned,
    prefix_within, push_decimal, push_str, slice_chars, starts_with, str_eq, str_starts_with,
    string_from_chars, to_lowercase, utf8_len,
};

verus! {

broadcast use vstd::hash_map::group_hash_map_axioms;

/// WeChat message types the bot tells apart.
#[derive(Debug, Clone, Copy, PartialEq, Eq, Structural)]
pub enum WxMessageType {
    Text,
    Image,
    Voice,
    Event,
    Unknown,
}

/// A parsed incoming WeChat message.
#[derive(Debug)]
pub struct WxIncomingMessage {
    /// Sender's OpenID
    pub from_user: String,
    /// Official Account ID
    pub to_user: String,
    pub msg_type: WxMessageType,
    pub content: String,
    pub msg_id: String,
    pub create_time: u64,
}

/// An outgoing WeChat reply.
#[derive(Debug)]
pub struct WxReply {
    pub to_user: String,
    pub from_user: String,
    pub msg_type: String,
    pub content: String,
}

// ── XML fields ───────────────────────────────────────────────────────

/// The marker that opens character data.
pub open spec fn cdata_open() -> Seq<char> {
    "<![CDATA["@
}

/// The text of the first `<tag>` element of `xml`: its character data when
/// it opens with `<![CDATA[` (up to `]]></`), else up to the next `</`.
pub open spec fn tag_text(xml: Seq<char>, tag: Seq<char>) -> Result<Seq<char>, Seq<char>> {
    let open = "<"@ + tag + ">"@;
    match find_from_spec(xml, open, 0) {
        None => Err("tag not found: "@ + tag),
        Some(st) => {
            let start = st + open.len();
            let cdata = starts_with(xml.skip(start), cdata_open());
            let cs = if cdata { start + 9 } else { start };
            let marker = if cdata { "]]></"@ } else { "</"@ };
            match find_from_spec(xml.skip(cs), marker, 0) {
                None => Err("closing tag not found: "@ + tag),
                Some(e) => Ok(xml.subrange(cs, cs + e)),
            }
        },
    }
}

/// Extracts the text of the first `<tag>` element of an XML message.
pub fn extract_tag(xml: &str, tag: &str) -> (r: Result<String, String>)
    ensures
        match tag_text(xml@, tag@) {
            Ok(t) => r matches Ok(x) && x@ == t,
            Err(m) => r matches Err(e) && e@ == m,
        },
{
    let x = chars_of(xml);
    let open_s = concat(concat("<", tag).as_str(), ">");
    let open_tag = chars_of(open_s.as_str());
    let st = match find_from(&x, &open_tag, 0) {
        Some(i) => i,
        None => return Err(concat("tag not found: ", tag)),
    };
    assert(crate::text::occurs_at(x@, open_tag@, st as int));
    let olen = open_tag.len();
    assert(st + olen <= x.len());
    let start = st + olen;
    let rest = slice_chars(&x, start, x.len());
    assert(rest@ =~= x@.skip(start as int));
    let cdata = str_starts_with(string_from_chars(rest.as_slice()).as_str(), "<![CDATA[");
    proof {
        reveal_strlit("<![CDATA[");
        reveal_strlit("]]></");
        reveal_strlit("</");
    }
    let cs: usize = if cdata {
        assert(crate::text::occurs_at(x@.skip(start as int), cdata_open(), 0));
        start + 9
    } else {
        start
    };
    let marker_s: &str = if cdata {
        "]]></"
    } else {
        "</"
    };
    let marker = chars_of(marker_s);
    let tail = slice_chars(&x, cs, x.len());
    assert(tail@ =~= x@.skip(cs as int));
    match find_from(&tail, &marker, 0) {
        Some(e) => {
            assert(e + marker@.len() <= tail@.len()) by {
                assert(crate::text::occurs_at(tail@, marker@, e as int));
            }
            let inner = slice_chars(&x, cs, cs + e);
            Ok(string_from_chars(inner.as_slice()))
        },
        None => Err(concat("closing tag not found: ", tag)),
    }
}

// ── Numbers ──────────────────────────────────────────────────────────

/// All characters are ASCII digits.
pub open spec fn all_digits(s: Seq<char>) -> bool {
    forall|i: int| 0 <= i < s.len() ==> '0' <= #[trigger] s[i] <= '9'
}

/// The value of a string of decimal digits.
pub open spec fn digits_value(s: Seq<char>) -> nat
    decreases s.len(),
{
    if s.len() == 0 {
        0
    } else {
        digits_value(s.drop_last()) * 10 + ((s.last() as nat) - 48) as nat
    }
}

/// What `str::parse::<u64>` accepts: an optional `+`, then one or more
/// digits whose value fits in 64 bits.
pub open spec fn parse_u64_spec(s: Seq<char>) -> Option<u64> {
    let d = if s.len() > 0 && s[0] == '+' { s.drop_first() } else { s };
    if d.len() > 0 && all_digits(d) && digits_value(d) <= u64::MAX {
        Some(digits_value(d) as u64)
    } else {
        None
    }
}

proof fn lemma_digits_value_prefix(s: Seq<char>, i: int)
    requires
        0 <= i <= s.len(),
        all_digits(s),
    ensures
        digits_value(s.take(i)) <= digits_value(s),
    decreases s.len() - i,
{
    if i < s.len() {
        lemma_digits_value_prefix(s, i + 1);
        assert(s.take(i + 1).drop_last() =~= s.take(i));
        assert('0' <= s.take(i + 1).last() <= '9');
    } else {
        assert(s.take(i) =~= s);
    }
}

/// Parses an unsigned decimal number as `str::parse::<u64>` does.
pub fn parse_u64(s: &str) -> (r: Option<u64>)
    ensures
        r == parse_u64_spec(s@),
{
    let cs = chars_of(s);
    let begin: usize = if cs.len() > 0 && cs[0] == '+' {
        1
    } else {
        0
    };
    let ghost d = if s@.len() > 0 && s@[0] == '+' { s@.drop_first() } else { s@ };
    assert(d =~= cs@.skip(begin as int));
    if begin >= cs.len() {
        assert(d.len() == 0);
        return None;
    }
    let mut v: u64 = 0;
    let mut i: usize = begin;
    while i < cs.len()
        invariant
            begin <= i <= cs.len(),
            begin < cs.len(),
            cs@ == s@,
            d == (if s@.len() > 0 && s@[0] == '+' { s@.drop_first() } else { s@ }),
            d == cs@.skip(begin as int),
            all_digits(d.take(i - begin)),
            v == digits_value(d.take(i - begin)),
        decreases cs.len() - i,
    {
        let c = cs[i];
        if c < '0' || c > '9' {
            assert(d[i - begin] == c);
            return None;
        }
        let digit: u64 = (c as u32 - 48) as u64;
        assert(d.take(i - begin + 1).drop_last() =~= d.take(i - begin));
        assert(d.take(i - begin + 1).last() == c);
        assert(all_digits(d.take(i - begin + 1)));
        assert(digits_value(d.take(i - begin + 1)) == v * 10 + digit);
        match v.checked_mul(10) {
            Some(m) => match m.checked_add(digit) {
                Some(n) => {
                    v = n;
                },
                None => {
                    proof {
                        assert(digits_value(d.take(i - begin + 1)) > u64::MAX);
                        if all_digits(d) {
                            lemma_digits_value_prefix(d, i - begin + 1);
                        }
                    }
                    return None;
                },
            },
            None => {
                proof {
                    assert(digits_value(d.take(i - begin + 1)) >= v * 10);
                    if all_digits(d) {
                        lemma_digits_value_prefix(d, i - begin + 1);
                    }
                }
                return None;
            },
        }
        i = i + 1;
    }
    assert(d.take(i - begin) =~= d);
    Some(v)
}

// ── Messages ─────────────────────────────────────────────────────────

/// The message type a `MsgType` value names.
pub open spec fn msg_type_of(s: Seq<char>) -> WxMessageType {
    if s == "text"@ {
        WxMessageType::Text
    } else if s == "image"@ {
        WxMessageType::Image
    } else if s == "voice"@ {
        WxMessageType::Voice
    } else if s == "event"@ {
        WxMessageType::Event
    } else {
        WxMessageType::Unknown
    }
}

/// The text of a field, or empty when the field is missing or broken.
pub open spec fn field_or_empty(xml: Seq<char>, tag: Seq<char>) -> Seq<char> {
    match tag_text(xml, tag) {
        Ok(t) => t,
        Err(_) => Seq::empty(),
    }
}

/// The creation time a message carries (0 when missing or not a number).
pub open spec fn create_time_of(xml: Seq<char>) -> u64 {
    match tag_text(xml, "CreateTime"@) {
        Ok(t) => match parse_u64_spec(t) {
            Some(n) => n,
            None => 0,
        },
        Err(_) => 0,
    }
}

/// The OpenID a session's student is named after: its first six bytes.
pub open spec fn name_prefix(openid: Seq<char>) -> Seq<char> {
    openid.take(chars_within(openid, 6) as int)
}

/// Whether the first six bytes of an OpenID end at a character boundary
/// (true of every ASCII OpenID).
pub open spec fn prefix6_ok(openid: Seq<char>) -> bool {
    utf8_len(openid) <= 6 || utf8_len(name_prefix(openid)) == 6
}

/// Whether a new session can be named after an OpenID (see `prefix6_ok`):
/// the test to make before `get_or_create_session` meets a new user.
pub fn openid_nameable(openid: &str) -> (r: bool)
    ensures
        r == prefix6_ok(openid@),
{
    if byte_len(openid) <= 6 {
        return true;
    }
    let cs = chars_of(openid);
    let k = prefix_within(&cs, 6);
    let head = string_from_chars(slice_chars(&cs, 0, k).as_slice());
    proof {
        assert(cs@.subrange(0, k as int) =~= name_prefix(openid@));
    }
    byte_len(head.as_str()) == 6
}

/// A WeChat user's session.
#[derive(Debug)]
pub struct WxSession {
    pub openid: String,
    pub tais_session_id: String,
    pub student_name: String,
    pub created_at: i64,
    pub last_active: i64,
    pub message_count: u32,
}

/// The mathematical content of a `WxSession`.
pub struct WxSessionView {
    pub openid: Seq<char>,
    pub tais_session_id: Seq<char>,
    pub student_name: Seq<char>,
    pub created_at: i64,
    pub last_active: i64,
    pub message_count: u32,
}

impl View for WxSession {
    type V = WxSessionView;

    open spec fn view(&self) -> WxSessionView {
        WxSessionView {
            openid: self.openid@,
            tais_session_id: self.tais_session_id@,
            student_name: self.student_name@,
            created_at: self.created_at,
            last_active: self.last_active,
            message_count: self.message_count,
        }
    }
}

impl WxSession {
    /// A copy holding the same values.
    pub fn copy(&self) -> (r: WxSession)
        ensures
            r@ == self@,
    {
        WxSession {
            openid: self.openid.clone(),
            tais_session_id: self.tais_session_id.clone(),
            student_name: self.student_name.clone(),
            created_at: self.created_at,
            last_active: self.last_active,
            message_count: self.message_count,
        }
    }
}

/// The UTF-8 byte order of two strings, compared character by character
/// (UTF-8 encodes code points so that byte order and code point order
/// agree).
pub open spec fn lex_le(a: Seq<char>, b: Seq<char>) -> bool
    decreases a.len(),
{
    if a.len() == 0 {
        true
    } else if b.len() == 0 {
        false
    } else if a[0] != b[0] {
        (a[0] as u32) < (b[0] as u32)
    } else {
        lex_le(a.drop_first(), b.drop_first())
    }
}

fn lex_le_exec(a: &Vec<char>, b: &Vec<char>) -> (r: bool)
    ensures
        r == lex_le(a@, b@),
{
    let mut i: usize = 0;
    assert(a@.skip(0) =~= a@);
    assert(b@.skip(0) =~= b@);
    while i < a.len() && i < b.len() && a[i] == b[i]
        invariant
            i <= a.len(),
            i <= b.len(),
            lex_le(a@, b@) == lex_le(a@.skip(i as int), b@.skip(i as int)),
        decreases a.len() - i,
    {
        assert(a@.skip(i as int).drop_first() =~= a@.skip(i + 1));
        assert(b@.skip(i as int).drop_first() =~= b@.skip(i + 1));
        i = i + 1;
    }
    if i == a.len() {
        assert(a@.skip(i as int).len() == 0);
        return true;
    }
    if i == b.len() {
        assert(b@.skip(i as int).len() == 0);
        return false;
    }
    assert(a@.skip(i as int)[0] == a@[i as int]);
    assert(b@.skip(i as int)[0] == b@[i as int]);
    (a[i] as u32) < (b[i] as u32)
}

/// Three strings in ascending order.
pub open spec fn sorted3(a: Seq<char>, b: Seq<char>, c: Seq<char>) -> (Seq<char>, Seq<char>, Seq<char>) {
    if lex_le(a, b) {
        if lex_le(b, c) {
            (a, b, c)
        } else if lex_le(a, c) {
            (a, c, b)
        } else {
            (c, a, b)
        }
    } else {
        if lex_le(a, c) {
            (b, a, c)
        } else if lex_le(b, c) {
            (b, c, a)
        } else {
            (c, b, a)
        }
    }
}

/// What `Sha1::digest` of a text's UTF-8 bytes prints with `{:x}`.
pub uninterp spec fn sha1_hex_digest(input: Seq<char>) -> Seq<char>;

/// SHA-1 of a string's UTF-8 bytes as lowercase hex (sha1's `Sha1` hasher;
/// generic-array's `LowerHex` prints each of the 20 digest bytes as two
/// lowercase hex digits). Which digest comes back is named, not restated.
#[verifier::external_body]
fn sha1_hash(input: &str) -> (r: String)
    ensures
        r@ == sha1_hex_digest(input@),
        r@.len() == 40,
        forall|i: int| 0 <= i < 40 ==> is_lower_hex(#[trigger] r@[i]),
{
    let mut hasher = sha1::Sha1::new();
    hasher.update(input.as_bytes());
    format!("{:x}", hasher.finalize())
}

/// The string a signature is computed from: token, timestamp and nonce in
/// ascending order, concatenated.
pub open spec fn signed_text(token: Seq<char>, timestamp: Seq<char>, nonce: Seq<char>) -> Seq<char> {
    let s = sorted3(token, timestamp, nonce);
    s.0 + s.1 + s.2
}

/// The signature check: the SHA-1 of the signed text equals the
/// lowercased signature.
pub open spec fn signature_ok(
    token: Seq<char>,
    signature_lower: Seq<char>,
    timestamp: Seq<char>,
    nonce: Seq<char>,
) -> bool {
    sha1_hex_digest(signed_text(token, timestamp, nonce)) == signature_lower
}

/// The reply XML stamped with `now` (seconds).
pub open spec fn reply_xml_spec(to_user: Seq<char>, from_user: Seq<char>, content: Seq<char>, now: i64) -> Seq<char> {
    "<xml>\n<ToUserName><![CDATA["@ + to_user + "]]></ToUserName>\n<FromUserName><![CDATA["@
        + from_user + "]]></FromUserName>\n<CreateTime>"@ + dec_i64(now)
        + "</CreateTime>\n<MsgType><![CDATA[text]]></MsgType>\n<Content><![CDATA["@ + content
        + "]]></Content>\n</xml>"@
}

/// Decimal notation of a signed integer.
pub open spec fn dec_i64(n: i64) -> Seq<char> {
    if n < 0 {
        "-"@ + dec((-(n as int)) as nat)
    } else {
        dec(n as nat)
    }
}

/// Appends the decimal notation of a signed integer.
fn push_decimal_i64(out: &mut String, n: i64)
    ensures
        final(out)@ == old(out)@ + dec_i64(n),
{
    let mut v: Vec<char> = Vec::new();
    if n < 0 {
        v.push('-');
        let m: u64 = ((-(n + 1)) as u64) + 1;
        push_decimal(&mut v, m);
        proof {
            reveal_strlit("-");
            assert(v@ =~= "-"@ + dec((-(n as int)) as nat));
        }
    } else {
        push_decimal(&mut v, n as u64);
        assert(v@ =~= dec(n as nat));
    }
    let s = string_from_chars(v.as_slice());
    push_str(out, s.as_str());
}

/// The WeChat bot.
pub struct WechatBot {
    /// Token for signature verification
    pub token: String,
    /// EncodingAESKey for message decryption (secure mode)
    pub encoding_aes_key: Option<String>,
    pub app_id: Option<String>,
    /// Active sessions by OpenID
    sessions: StringHashMap<WxSession>,
    /// OpenIDs in the order their sessions were created
    order: Vec<String>,
}

/// The session a new WeChat user gets: the given session id, a student name
/// from the OpenID's first six bytes, no messages yet.
pub open spec fn new_session(openid: Seq<char>, session_id: Seq<char>, created: i64) -> WxSessionView {
    WxSessionView {
        openid,
        tais_session_id: session_id,
        student_name: "微信用户_"@ + name_prefix(openid),
        created_at: created,
        last_active: created,
        message_count: 0,
    }
}

impl WechatBot {
    /// The verification token.
    pub closed spec fn token_view(&self) -> Seq<char> {
        self.token@
    }

    /// The message encryption key, if configured.
    pub closed spec fn aes_key_view(&self) -> Option<Seq<char>> {
        match self.encoding_aes_key {
            Some(k) => Some(k@),
            None => None,
        }
    }

    /// The application id, if configured.
    pub closed spec fn app_id_view(&self) -> Option<Seq<char>> {
        match self.app_id {
            Some(k) => Some(k@),
            None => None,
        }
    }

    /// The sessions by OpenID.
    pub closed spec fn sessions_view(&self) -> Map<Seq<char>, WxSessionView> {
        self.sessions@.map_values(|s: WxSession| s@)
    }

    /// The OpenIDs in the order their sessions were created.
    pub closed spec fn order_view(&self) -> Seq<Seq<char>> {
        self.order@.map_values(|s: String| s@)
    }

    /// The bot's invariant: every session is listed once in creation order
    /// and stored under its own OpenID.
    pub closed spec fn wf(&self) -> bool {
        &&& forall|i: int, j: int|
            0 <= i < j < self.order@.len() ==> (#[trigger] self.order@[i])@ != (
            #[trigger] self.order@[j])@
        &&& forall|i: int|
            0 <= i < self.order@.len() ==> self.sessions@.contains_key(#[trigger] self.order@[i]@)
        &&& forall|k: Seq<char>|
            #[trigger] self.sessions@.contains_key(k) ==> (exists|i: int|
                0 <= i < self.order@.len() && (#[trigger] self.order@[i])@ == k)
                && self.sessions@[k].openid@ == k
    }

    /// A bot with no sessions.
    pub fn new(token: &str, encoding_aes_key: Option<&str>, app_id: Option<&str>) -> (r: WechatBot)
        ensures
            r.wf(),
            r.token_view() == token@,
            r.aes_key_view() == match encoding_aes_key {
                Some(k) => Some(k@),
                None => None,
            },
            r.app_id_view() == match app_id {
                Some(a) => Some(a@),
                None => None,
            },
            r.sessions_view() == Map::<Seq<char>, WxSessionView>::empty(),
            r.order_view() == Seq::<Seq<char>>::empty(),
    {
        let r = WechatBot {
            token: owned(token),
            encoding_aes_key: match encoding_aes_key {
                Some(k) => Some(owned(k)),
                None => None,
            },
            app_id: match app_id {
                Some(a) => Some(owned(a)),
                None => None,
            },
            sessions: StringHashMap::new(),
            order: Vec::new(),
        };
        assert(r.sessions_view() =~= Map::<Seq<char>, WxSessionView>::empty());
        assert(r.order_view() =~= Seq::<Seq<char>>::empty());
        r
    }

    /// Whether the WeChat server's signature matches the token, timestamp
    /// and nonce.
    pub fn verify_signature(&self, signature: &str, timestamp: &str, nonce: &str) -> (r: bool)
        ensures
            r == signature_ok(self.token_view(), lowercase(signature@), timestamp@, nonce@),
    {
        let lower = to_lowercase(signature);
        self.signature_matches(lower.as_str(), timestamp, nonce)
    }

    /// The signature check, given the lowercased signature.
    pub fn signature_matches(&self, signature_lower: &str, timestamp: &str, nonce: &str) -> (r: bool)
        ensures
            r == signature_ok(self.token_view(), signature_lower@, timestamp@, nonce@),
    {
        let a = chars_of(self.token.as_str());
        let b = chars_of(timestamp);
        let c = chars_of(nonce);
        let (x, y, z) = if lex_le_exec(&a, &b) {
            if lex_le_exec(&b, &c) {
                (a, b, c)
            } else if lex_le_exec(&a, &c) {
                (a, c, b)
            } else {
                (c, a, b)
            }
        } else {
            if lex_le_exec(&a, &c) {
                (b, a, c)
            } else if lex_le_exec(&b, &c) {
                (b, c, a)
            } else {
                (c, b, a)
            }
        };
        let mut combined = string_from_chars(x.as_slice());
        push_str(&mut combined, string_from_chars(y.as_slice()).as_str());
        push_str(&mut combined, string_from_chars(z.as_slice()).as_str());
        let hash = sha1_hash(combined.as_str());
        str_eq(hash.as_str(), signature_lower)
    }

    /// Parses an incoming XML message. The sender, the receiver and the
    /// message type are required; content and message id default to empty,
    /// the creation time to 0.
    pub fn parse_message(xml: &str) -> (r: Result<WxIncomingMessage, String>)
        ensures
            match (tag_text(xml@, "FromUserName"@), tag_text(xml@, "ToUserName"@), tag_text(xml@, "MsgType"@)) {
                (Err(m), _, _) => r matches Err(e) && e@ == m,
                (Ok(_), Err(m), _) => r matches Err(e) && e@ == m,
                (Ok(_), Ok(_), Err(m)) => r matches Err(e) && e@ == m,
                (Ok(f), Ok(t), Ok(ty)) => r matches Ok(msg) && {
                    &&& msg.from_user@ == f
                    &&& msg.to_user@ == t
                    &&& msg.msg_type == msg_type_of(ty)
                    &&& msg.content@ == field_or_empty(xml@, "Content"@)
                    &&& msg.msg_id@ == field_or_empty(xml@, "MsgId"@)
                    &&& msg.create_time == create_time_of(xml@)
                },
            },
    {
        let from_user = match extract_tag(xml, "FromUserName") {
            Ok(v) => v,
            Err(e) => return Err(e),
        };
        let to_user = match extract_tag(xml, "ToUserName") {
            Ok(v) => v,
            Err(e) => return Err(e),
        };
        let msg_type_str = match extract_tag(xml, "MsgType") {
            Ok(v) => v,
            Err(e) => return Err(e),
        };
        let content = match extract_tag(xml, "Content") {
            Ok(v) => v,
            Err(_) => String::new(),
        };
        let msg_id = match extract_tag(xml, "MsgId") {
            Ok(v) => v,
            Err(_) => String::new(),
        };
        let create_time: u64 = match extract_tag(xml, "CreateTime") {
            Ok(v) => match parse_u64(v.as_str()) {
                Some(n) => n,
                None => 0,
            },
            Err(_) => 0,
        };
        let t = msg_type_str.as_str();
        let msg_type = if str_eq(t, "text") {
            WxMessageType::Text
        } else if str_eq(t, "image") {
            WxMessageType::Image
        } else if str_eq(t, "voice") {
            WxMessageType::Voice
        } else if str_eq(t, "event") {
            WxMessageType::Event
        } else {
            WxMessageType::Unknown
        };
        Ok(WxIncomingMessage { from_user, to_user, msg_type, content, msg_id, create_time })
    }

    /// The reply XML for WeChat, stamped with the given time in seconds.
    pub fn reply_xml_at(reply: &WxReply, now: i64) -> (r: String)
        ensures
            r@ == reply_xml_spec(reply.to_user@, reply.from_user@, reply.content@, now),
    {
        let mut s = concat("<xml>\n<ToUserName><![CDATA[", reply.to_user.as_str());
        push_str(&mut s, "]]></ToUserName>\n<FromUserName><![CDATA[");
        push_str(&mut s, reply.from_user.as_str());
        push_str(&mut s, "]]></FromUserName>\n<CreateTime>");
        push_decimal_i64(&mut s, now);
        push_str(&mut s, "</CreateTime>\n<MsgType><![CDATA[text]]></MsgType>\n<Content><![CDATA[");
        push_str(&mut s, reply.content.as_str());
        push_str(&mut s, "]]></Content>\n</xml>");
        s
    }

    /// The reply XML for WeChat, stamped with the current time.
    pub fn build_reply_xml(reply: &WxReply) -> (r: String)
        ensures
            exists|now: i64| r@ == #[trigger] reply_xml_spec(reply.to_user@, reply.from_user@, reply.content@, now),
    {
        let now = now_secs();
        WechatBot::reply_xml_at(reply, now)
    }

    /// The session of a WeChat user, created on first contact with a fresh
    /// session id.
    pub fn get_or_create_session(&mut self, openid: &str) -> (r: &WxSession)
        requires
            old(self).wf(),
            !old(self).sessions_view().contains_key(openid@) ==> prefix6_ok(openid@),
        ensures
            final(self).wf(),
            old(self).sessions_view().contains_key(openid@) ==> {
                &&& r@ == old(self).sessions_view()[openid@]
                &&& final(self).sessions_view() == old(self).sessions_view()
                &&& final(self).order_view() == old(self).order_view()
            },
            !old(self).sessions_view().contains_key(openid@) ==> {
                &&& r@ == new_session(openid@, r@.tais_session_id, r@.created_at)
                &&& crate::platform::is_uuid_text(r@.tais_session_id)
                &&& final(self).sessions_view() == old(self).sessions_view().insert(openid@, r@)
                &&& final(self).order_view() == old(self).order_view().push(openid@)
            },
    {
        if !self.sessions.contains_key(openid) {
            let cs = chars_of(openid);
            let k = prefix_within(&cs, 6);
            let prefix = string_from_chars(slice_chars(&cs, 0, k).as_slice());
            let now = now_micros();
            let session = WxSession {
                openid: owned(openid),
                tais_session_id: new_uuid(),
                student_name: concat("微信用户_", prefix.as_str()),
                created_at: now,
                last_active: now,
                message_count: 0,
            };
            let ghost sv = session@;
            let ghost before_order = self.order@;
            self.sessions.insert(owned(openid), session);
            self.order.push(owned(openid));
            proof {
                assert(self.sessions_view() =~= old(self).sessions_view().insert(openid@, sv));
                assert(self.order_view() =~= old(self).order_view().push(openid@));
                let n = before_order.len();
                assert forall|i: int, j: int| 0 <= i < j < self.order@.len() implies (
                #[trigger] self.order@[i])@ != (#[trigger] self.order@[j])@ by {
                    if j == n {
                        assert(old(self).sessions@.contains_key(self.order@[i]@));
                    } else {
                        assert(before_order[i]@ != before_order[j]@);
                    }
                }
                assert forall|i: int| 0 <= i < self.order@.len() implies self.sessions@.contains_key(
                    #[trigger] self.order@[i]@,
                ) by {
                    if i < n {
                        assert(old(self).sessions@.contains_key(before_order[i]@));
                    }
                }
                assert forall|k: Seq<char>| #[trigger] self.sessions@.contains_key(k) implies (exists|
                    i: int,
                | 0 <= i < self.order@.len() && (#[trigger] self.order@[i])@ == k)
                    && self.sessions@[k].openid@ == k by {
                    if k == openid@ {
                        assert(self.order@[n as int]@ == k);
                    } else {
                        assert(old(self).sessions@.contains_key(k));
                        let i = choose|i: int|
                            0 <= i < old(self).order@.len() && (#[trigger] old(self).order@[i])@ == k;
                        assert(self.order@[i]@ == k);
                    }
                }
            }
        }
        proof {
            assert(self.sessions@.contains_key(openid@));
        }
        self.sessions.get(openid).unwrap()
    }

    /// Counts a message of a WeChat user and marks the session active.
    pub fn record_activity(&mut self, openid: &str)
        requires
            old(self).wf(),
            old(self).sessions_view().contains_key(openid@) ==> old(self).sessions_view()[openid@].message_count
                < u32::MAX,
        ensures
            final(self).wf(),
            final(self).order_view() == old(self).order_view(),
            old(self).sessions_view().contains_key(openid@) ==> {
                let s = old(self).sessions_view()[openid@];
                let t = final(self).sessions_view()[openid@];
                &&& final(self).sessions_view() == old(self).sessions_view().insert(openid@, t)
                &&& t == WxSessionView { message_count: (s.message_count + 1) as u32, last_active: t.last_active, ..s }
            },
            !old(self).sessions_view().contains_key(openid@) ==> final(self).sessions_view()
                == old(self).sessions_view(),
    {
        let updated = match self.sessions.get(openid) {
            Some(s) => {
                let mut c = s.copy();
                c.last_active = now_micros();
                c.message_count = c.message_count + 1;
                c
            },
            None => return,
        };
        let ghost tv = updated@;
        self.sessions.insert(owned(openid), updated);
        proof {
            assert(self.sessions_view() =~= old(self).sessions_view().insert(openid@, tv));
            assert(tv.openid == old(self).sessions@[openid@]@.openid);
            assert forall|k: Seq<char>| #[trigger] self.sessions@.contains_key(k) implies (exists|
                i: int,
            | 0 <= i < self.order@.len() && (#[trigger] self.order@[i])@ == k)
                && self.sessions@[k].openid@ == k by {
                assert(old(self).sessions@.contains_key(k));
                let i = choose|i: int|
                    0 <= i < old(self).order@.len() && (#[trigger] old(self).order@[i])@ == k;
                assert(self.order@[i]@ == k);
                if k == openid@ {
                    assert(self.sessions@[k]@ == tv);
                }
            }
        }
    }

    /// Every session, in the order the sessions were created.
    pub fn list_sessions(&self) -> (r: Vec<WxSession>)
        requires
            self.wf(),
        ensures
            r@.map_values(|s: WxSession| s@.openid) == self.order_view(),
            forall|i: int| 0 <= i < r.len() ==> (#[trigger] r[i])@ == self.sessions_view()[r[i]@.openid],
    {
        let mut out: Vec<WxSession> = Vec::new();
        let mut i: usize = 0;
        while i < self.order.len()
            invariant
                i <= self.order.len(),
                self.wf(),
                out@.map_values(|s: WxSession| s@.openid) == self.order_view().take(i as int),
                forall|j: int| 0 <= j < out.len() ==> (#[trigger] out[j])@ == self.sessions_view()[out[j]@.openid],
            decreases self.order.len() - i,
        {
            let ghost before = out@.map_values(|s: WxSession| s@.openid);
            assert(self.sessions@.contains_key(self.order@[i as int]@));
            match self.sessions.get(self.order[i].as_str()) {
                Some(s) => {
                    let c = s.copy();
                    out.push(c);
                    assert(out@.map_values(|s: WxSession| s@.openid) =~= before.push(self.order@[i as int]@));
                    assert(self.order_view().take(i + 1) =~= self.order_view().take(i as int).push(self.order@[i as int]@));
                },
                None => {},
            }
            i = i + 1;
        }
        assert(self.order_view().take(self.order.len() as int) =~= self.order_view());
        out
    }
}

} // verus!

//! What goes to the translation service and what comes back, and the line
//! that is shown for a chat message.
//!
//! The service takes a signed request over HTTP. This module builds the body
//! of the request and its signature and reads the answer; sending is left to
//! whoever holds the connection.

use crate::json::{json_text, json_text_at};
use crate::text::{push_char, push_text, same_text};
use base64::Engine;
use hmac::Mac;
use md5::Digest;
use vstd::prelude::*;
use vstd::string::*;
use vstd::utf8::encode_utf8;

verus! {

/// The MD5 digest of a run of bytes: sixteen bytes.
pub uninterp spec fn md5_of(data: Seq<u8>) -> Seq<u8>;

/// The HMAC of a run of bytes under a key, with SHA-1: twenty bytes.
pub uninterp spec fn hmac_sha1_of(key: Seq<u8>, data: Seq<u8>) -> Seq<u8>;

/// A run of bytes in base64, with the standard alphabet and padding.
pub uninterp spec fn base64_of(data: Seq<u8>) -> Seq<char>;

/// The MD5 digest of a run of bytes.
///
/// Wraps `Md5::digest` of the `md-5` crate.
#[verifier::external_body]
fn md5_digest(data: &[u8]) -> (r: Vec<u8>)
    ensures
        r@ == md5_of(data@),
        r@.len() == 16,
{
    md5::Md5::digest(data).to_vec()
}

/// The HMAC of a run of bytes under a key, with SHA-1.
///
/// Wraps `Hmac<Sha1>` of the `hmac` crate: made from the key, which may have
/// any length, fed the bytes, and finished.
#[verifier::external_body]
fn hmac_sha1(key: &[u8], data: &[u8]) -> (r: Vec<u8>)
    ensures
        r@ == hmac_sha1_of(key@, data@),
        r@.len() == 20,
{
    let mut mac = hmac::Hmac::<sha1::Sha1>::new_from_slice(key).unwrap();
    mac.update(data);
    mac.finalize().into_bytes().to_vec()
}

/// A run of bytes in base64.
///
/// Wraps `Engine::encode` of the `base64` crate on its `STANDARD` engine. The
/// limit on the length keeps the length of the result within what the crate
/// can count.
#[verifier::external_body]
fn base64_encode(data: &[u8]) -> (r: String)
    requires
        data@.len() <= 0x3000_0000,
    ensures
        r@ == base64_of(data@),
{
    base64::prelude::BASE64_STANDARD.encode(data)
}

/// The languages that chat can be translated into.
#[derive(Debug, Clone, Copy, PartialEq, Eq, Structural)]
pub enum Language {
    ZH,
    EN,
}

/// The language that a name stands for: `en` for English; `zh`, and any
/// other name, for Chinese.
pub open spec fn language_of(name: Seq<char>) -> Language {
    if name == "en"@ {
        Language::EN
    } else {
        Language::ZH
    }
}

impl Language {
    /// The name of the language.
    pub open spec fn name(self) -> Seq<char> {
        match self {
            Language::ZH => "zh"@,
            Language::EN => "en"@,
        }
    }

    /// The language that a name stands for. A name that stands for none
    /// gives Chinese.
    pub fn from(s: String) -> (r: Language)
        ensures
            r == language_of(s@),
    {
        if same_text(s.as_str(), "en") {
            Language::EN
        } else {
            Language::ZH
        }
    }

    /// Whether a name stands for a language.
    pub fn knows(s: &str) -> (r: bool)
        ensures
            r == (s@ == "zh"@ || s@ == "en"@),
    {
        same_text(s, "zh") || same_text(s, "en")
    }

    /// The name of the language.
    pub fn to_string(&self) -> (r: String)
        ensures
            r@ == self.name(),
    {
        match self {
            Language::ZH => String::from_str("zh"),
            Language::EN => String::from_str("en"),
        }
    }
}

/// The text to be signed for a request: the method, what is accepted, the
/// digest of the body, the type of the body and the date, each on a line of
/// its own; then the three headers of the signature; then the path.
pub open spec fn string_to_sign(
    body_md5: Seq<char>,
    date: Seq<char>,
    nonce: Seq<char>,
    path: Seq<char>,
) -> Seq<char> {
    "POST\napplication/json\n"@ + body_md5 + "\napplication/json;chrset=utf-8\n"@ + date
        + "\nx-acs-signature-method:HMAC-SHA1\nx-acs-signature-nonce:"@ + nonce
        + "\nx-acs-version:2019-01-02\n"@ + path
}

/// What a signed request carries besides its body.
#[derive(Debug)]
pub struct Signature {
    /// The digest of the body, for the header `Content-MD5`.
    pub content_md5: String,
    /// For the header `Authorization`.
    pub authorization: String,
}

/// The key of an account with the translation service.
pub struct AliyunCli {
    access_key_id: String,
    access_key_secret: String,
}

impl AliyunCli {
    /// The name of the key.
    pub closed spec fn key_id(self) -> Seq<char> {
        self.access_key_id@
    }

    /// The secret of the key, as the bytes of its text.
    pub closed spec fn secret(self) -> Seq<u8> {
        encode_utf8(self.access_key_secret@)
    }

    /// The key of an account.
    pub fn new(access_key_id: String, access_key_secret: String) -> (r: AliyunCli)
        ensures
            r.key_id() == access_key_id@,
            r.secret() == encode_utf8(access_key_secret@),
    {
        AliyunCli { access_key_id, access_key_secret }
    }

    /// The MD5 digest of a text, in base64.
    pub fn md5_base64(s: &str) -> (r: String)
        ensures
            r@ == base64_of(md5_of(s.spec_bytes())),
    {
        let digest = md5_digest(s.as_bytes());
        base64_encode(digest.as_slice())
    }

    /// The HMAC of a text under a key, with SHA-1, in base64.
    pub fn hmacsha1_base64(data: &str, key: &str) -> (r: String)
        ensures
            r@ == base64_of(hmac_sha1_of(key.spec_bytes(), data.spec_bytes())),
    {
        let mac = hmac_sha1(key.as_bytes(), data.as_bytes());
        base64_encode(mac.as_slice())
    }

    /// The text to be signed for a request.
    pub fn text_to_sign(body_md5: &str, date: &str, nonce: &str, path: &str) -> (r: String)
        ensures
            r@ == string_to_sign(body_md5@, date@, nonce@, path@),
    {
        let mut text = String::from_str("POST\napplication/json\n");
        push_text(&mut text, body_md5);
        push_text(&mut text, "\napplication/json;chrset=utf-8\n");
        push_text(&mut text, date);
        push_text(&mut text, "\nx-acs-signature-method:HMAC-SHA1\nx-acs-signature-nonce:");
        push_text(&mut text, nonce);
        push_text(&mut text, "\nx-acs-version:2019-01-02\n");
        push_text(&mut text, path);
        assert(text@ =~= string_to_sign(body_md5@, date@, nonce@, path@));
        text
    }

    /// What the header `Authorization` holds for a signature made with the
    /// key of the given name.
    pub fn authorization(key_id: &str, signature: &str) -> (r: String)
        ensures
            r@ == "acs "@ + key_id@ + ":"@ + signature@,
    {
        let mut authorization = String::from_str("acs ");
        push_text(&mut authorization, key_id);
        push_text(&mut authorization, ":");
        push_text(&mut authorization, signature);
        authorization
    }

    /// Signs a request with the given body, to the given path, at the given
    /// date and with the given nonce.
    pub fn sign(&self, body: &str, date: &str, nonce: &str, path: &str) -> (r: Signature)
        ensures
            r.content_md5@ == base64_of(md5_of(body.spec_bytes())),
            r.authorization@ == "acs "@ + self.key_id() + ":"@ + base64_of(
                hmac_sha1_of(
                    self.secret(),
                    encode_utf8(string_to_sign(r.content_md5@, date@, nonce@, path@)),
                ),
            ),
    {
        let content_md5 = AliyunCli::md5_base64(body);
        let text = AliyunCli::text_to_sign(content_md5.as_str(), date, nonce, path);
        let signature = AliyunCli::hmacsha1_base64(text.as_str(), self.access_key_secret.as_str());
        let authorization = AliyunCli::authorization(
            self.access_key_id.as_str(),
            signature.as_str(),
        );
        Signature { content_md5, authorization }
    }
}

/// The body of a request for the translation of a text into a language.
pub open spec fn request_body_of(language: Language, text: Seq<char>) -> Seq<char> {
    "{\n\"FormatType\": \"text\",\n\"SourceLanguage\": \"auto\",\n\"TargetLanguage\": \""@
        + language.name() + "\",\n\"SourceText\": \""@ + text
        + "\",\n\"Scene\": \"social\"\n}"@
}

/// The translation that an answer gives, from the code and the translated
/// text that it holds: the text, if there is one and the code is `200`.
pub open spec fn translation_with(code: Option<Seq<char>>, translated: Option<Seq<char>>)
    -> Option<Seq<char>> {
    if code == Some("200"@) {
        translated
    } else {
        None
    }
}

/// The translation that an answer of the service holds: the text at
/// `/Data/Translated`, if the answer holds the code `200` at `/Code`.
pub open spec fn translation_in(response: Seq<char>) -> Option<Seq<char>> {
    translation_with(
        json_text_at(response, "/Code"@),
        json_text_at(response, "/Data/Translated"@),
    )
}

/// Translates chat into one language, if there is an account to do it with.
pub struct Interpreter {
    language: Language,
    aliyun_cli: Option<AliyunCli>,
}

impl Interpreter {
    /// The language that chat is translated into.
    pub closed spec fn language(self) -> Language {
        self.language
    }

    /// The account, if there is one.
    pub closed spec fn account(self) -> Option<AliyunCli> {
        self.aliyun_cli
    }

    /// An interpreter into the language of the given name, with an account
    /// where both parts of its key are given.
    pub fn new(
        language: String,
        access_key_id: Option<String>,
        access_key_secret: Option<String>,
    ) -> (r: Interpreter)
        ensures
            r.language() == language_of(language@),
            r.account() is Some <==> access_key_id is Some && access_key_secret is Some,
            r.account() matches Some(account) ==> account.key_id() == access_key_id->Some_0@
                && account.secret() == encode_utf8(access_key_secret->Some_0@),
    {
        let language = Language::from(language);
        let aliyun_cli = match (access_key_id, access_key_secret) {
            (Some(id), Some(secret)) => Some(AliyunCli::new(id, secret)),
            _ => None,
        };
        Interpreter { language, aliyun_cli }
    }

    /// The account to sign a request with, if there is one.
    pub fn client(&self) -> (r: Option<&AliyunCli>)
        ensures
            match r {
                Some(account) => self.account() == Some(*account),
                None => self.account() is None,
            },
    {
        self.aliyun_cli.as_ref()
    }

    /// The body of the request for the translation of a text; nothing where
    /// there is no account, and so nobody to ask.
    pub fn request_body(&self, text: &str) -> (r: Option<String>)
        ensures
            match r {
                Some(body) => self.account() is Some && body@ == request_body_of(
                    self.language(),
                    text@,
                ),
                None => self.account() is None,
            },
    {
        if self.aliyun_cli.is_none() {
            return None;
        }
        let mut body = String::from_str(
            "{\n\"FormatType\": \"text\",\n\"SourceLanguage\": \"auto\",\n\"TargetLanguage\": \"",
        );
        let language = self.language.to_string();
        push_text(&mut body, language.as_str());
        push_text(&mut body, "\",\n\"SourceText\": \"");
        push_text(&mut body, text);
        push_text(&mut body, "\",\n\"Scene\": \"social\"\n}");
        assert(body@ =~= request_body_of(self.language(), text@));
        Some(body)
    }

    /// The translation that an answer gives, from the code and the
    /// translated text that it holds.
    pub fn pick_translation(code: Option<String>, translated: Option<String>) -> (r: Option<String>)
        ensures
            match r {
                Some(t) => translation_with(
                    match code {
                        Some(c) => Some(c@),
                        None => None,
                    },
                    match translated {
                        Some(t) => Some(t@),
                        None => None,
                    },
                ) == Some(t@),
                None => translation_with(
                    match code {
                        Some(c) => Some(c@),
                        None => None,
                    },
                    match translated {
                        Some(t) => Some(t@),
                        None => None,
                    },
                ) is None,
            },
    {
        match code {
            Some(c) => {
                if same_text(c.as_str(), "200") {
                    translated
                } else {
                    None
                }
            },
            None => None,
        }
    }

    /// The translation that an answer of the service holds; nothing where
    /// the answer is no success or holds no translation.
    pub fn read_response(response: &str) -> (r: Option<String>)
        ensures
            match r {
                Some(translated) => translation_in(response@) == Some(translated@),
                None => translation_in(response@) is None,
            },
    {
        let code = json_text(response, "/Code");
        let translated = json_text(response, "/Data/Translated");
        Interpreter::pick_translation(code, translated)
    }
}

/// A run of spaces.
pub open spec fn spaces(n: nat) -> Seq<char> {
    Seq::new(n, |i: int| ' ')
}

/// A text in the middle of a field of the given width: with spaces on both
/// sides, one more on the right where they do not split evenly. A text that
/// fills the field or more stays as it is.
pub open spec fn centered(text: Seq<char>, width: nat) -> Seq<char> {
    if text.len() >= width {
        text
    } else {
        spaces(((width - text.len()) / 2) as nat) + text + spaces(
            (width - text.len() - (width - text.len()) / 2) as nat,
        )
    }
}

/// The line that is shown for a chat message: the clock, sender and
/// audience each in the middle of twenty columns, the message, and the
/// translation between bars where there is one.
pub open spec fn line_of(
    clock: Seq<char>,
    sender: Seq<char>,
    audience: Seq<char>,
    message: Seq<char>,
    translated: Option<Seq<char>>,
) -> Seq<char> {
    let line = "["@ + clock + "s] "@ + centered(sender, 20) + " to "@ + centered(audience, 20)
        + ": "@ + message;
    match translated {
        Some(t) => line + " |"@ + t + "|"@,
        None => line,
    }
}

/// Appends so many spaces.
fn push_spaces(s: &mut String, n: usize)
    ensures
        final(s)@ == old(s)@ + spaces(n as nat),
{
    let mut i: usize = 0;
    assert(s@ =~= old(s)@ + spaces(0));
    while i < n
        invariant
            i <= n,
            s@ == old(s)@ + spaces(i as nat),
        decreases n - i,
    {
        push_char(s, ' ');
        i += 1;
        assert(s@ =~= old(s)@ + spaces(i as nat));
    }
}

/// Appends a text in the middle of a field of the given width.
fn push_centered(s: &mut String, text: &str, width: usize)
    ensures
        final(s)@ == old(s)@ + centered(text@, width as nat),
{
    let len: usize = text.unicode_len();
    if len >= width {
        push_text(s, text);
    } else {
        let pad: usize = width - len;
        push_spaces(s, pad / 2);
        push_text(s, text);
        push_spaces(s, pad - pad / 2);
        assert(s@ =~= old(s)@ + centered(text@, width as nat));
    }
}

/// The line that is shown for a chat message. `clock` is the time of the
/// message as it is to be shown, in seconds.
pub fn format_line(
    clock: &str,
    sender: &str,
    audience: &str,
    message: &str,
    translated: Option<&str>,
) -> (r: String)
    ensures
        r@ == line_of(
            clock@,
            sender@,
            audience@,
            message@,
            match translated {
                Some(t) => Some(t@),
                None => None,
            },
        ),
{
    let mut line = String::from_str("[");
    push_text(&mut line, clock);
    push_text(&mut line, "s] ");
    push_centered(&mut line, sender, 20);
    push_text(&mut line, " to ");
    push_centered(&mut line, audience, 20);
    push_text(&mut line, ": ");
    push_text(&mut line, message);
    match translated {
        Some(t) => {
            push_text(&mut line, " |");
            push_text(&mut line, t);
            push_text(&mut line, "|");
        },
        None => {},
    }
    line
}

} // verus!

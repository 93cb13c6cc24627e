//! Which requests the service answers.
use vstd::prelude::*;

use crate::config;
use crate::config::{RuntimeAuthConfig, ServiceConfig};
use crate::constants;
use crate::error::ForemanError;
use crate::text;
use crate::text::{chars_of, same_text, text_range, trim, trims_to_empty};

verus! {

/// What `str::to_lowercase` makes of a text.
pub uninterp spec fn unicode_lower(s: Seq<char>) -> Seq<char>;

/// `str::to_lowercase`: the small form of each character. Of a text in ASCII, that is the text
/// with the letters A to Z made small.
#[verifier::external_body]
fn lowercase(s: &str) -> (r: String)
    ensures
        r@ == unicode_lower(s@),
        vstd::utf8::is_ascii_chars(s@) ==> r@ == text::ascii_lower(s@),
{
    s.to_lowercase()
}

/// `s` in small letters.
pub fn to_lowercase(s: &str) -> (r: String)
    ensures
        r@ == unicode_lower(s@),
        vstd::utf8::is_ascii_chars(s@) ==> r@ == text::ascii_lower(s@),
{
    lowercase(s)
}

/// What a request carries under the name of the authentication header.
#[derive(Debug, Clone)]
pub enum HeaderValue {
    /// The configured name is no header name.
    InvalidName,
    /// There is no such header.
    Missing,
    /// The header's value is no text.
    NotText,
    /// The header's value.
    Text(String),
}

/// Whether a request goes on, or the status and the message that answer it.
#[derive(Debug, Clone)]
pub enum AuthDecision {
    Allow,
    Refuse { status: u16, message: String },
}

/// What a decision stands for: nothing where the request goes on, or the answer.
pub open spec fn refusal(d: AuthDecision) -> Option<(u16, Seq<char>)> {
    match d {
        AuthDecision::Allow => None,
        AuthDecision::Refuse { status, message } => Some((status, message@)),
    }
}

/// Whether a request path needs no authentication: it is one of the paths.
pub open spec fn path_is_open(path: Seq<char>, open_paths: Seq<Seq<char>>) -> bool {
    exists|i: int| 0 <= i < open_paths.len() && path == #[trigger] open_paths[i]
}

/// What is answered to a token that is offered.
pub open spec fn token_refusal(offered: Seq<char>, token: Seq<char>) -> Option<(u16, Seq<char>)> {
    if offered == token {
        None
    } else {
        Some((401u16, "invalid API token"@))
    }
}

/// What is answered to the value of the header.
pub open spec fn header_refusal(auth: RuntimeAuthConfig, value: Seq<char>) -> Option<
    (u16, Seq<char>),
> {
    match auth.header_scheme {
        None => token_refusal(value, auth.token@),
        Some(scheme) => match text::position(value, ' ') {
            None => Some((401u16, "invalid API auth header format"@)),
            Some(at) => if unicode_lower(value.take(at)) != unicode_lower(text::trimmed(scheme@)) {
                Some((401u16, "invalid API auth scheme"@))
            } else {
                token_refusal(value.skip(at + 1), auth.token@)
            },
        },
    }
}

/// What is answered to a request that needs authentication.
pub open spec fn request_refusal(auth: RuntimeAuthConfig, header: HeaderValue) -> Option<
    (u16, Seq<char>),
> {
    match header {
        HeaderValue::InvalidName => Some((500u16, "invalid API auth configuration"@)),
        HeaderValue::Missing => Some((401u16, "missing API authentication header"@)),
        HeaderValue::NotText => Some((401u16, "invalid API auth header"@)),
        HeaderValue::Text(value) => header_refusal(auth, value@),
    }
}

/// What is answered to a request at a path, where it does not go on.
pub open spec fn answer(
    auth: Option<RuntimeAuthConfig>,
    path: Seq<char>,
    header: HeaderValue,
) -> Option<(u16, Seq<char>)> {
    match auth {
        None => None,
        Some(a) => if path_is_open(path, text::texts(a.skip_paths@)) {
            None
        } else {
            request_refusal(a, header)
        },
    }
}

/// Whether the value of a header carries the token: whole, or behind the scheme and a space.
pub open spec fn carries_token(auth: RuntimeAuthConfig, value: Seq<char>) -> bool {
    match auth.header_scheme {
        None => value == auth.token@,
        Some(scheme) => text::position(value, ' ') matches Some(at) && unicode_lower(
            value.take(at),
        ) == unicode_lower(text::trimmed(scheme@)) && value.skip(at + 1) == auth.token@,
    }
}

fn refuse(status: u16, message: &str) -> (r: AuthDecision)
    ensures
        refusal(r) == Some((status, message@)),
{
    AuthDecision::Refuse { status, message: message.to_owned() }
}

proof fn lemma_or_zero(d: usize, x: u8, y: u8)
    ensures
        (d | ((x ^ y) as usize)) == 0 <==> d == 0 && x == y,
{
    assert((d | ((x ^ y) as usize)) == 0 <==> d == 0 && x == y) by (bit_vector);
}

/// Whether two texts are the same, in a time that does not depend on where they differ.
pub fn constant_time_token_eq(left: &str, right: &str) -> (r: bool)
    ensures
        r == (left@ == right@),
{
    let a = left.as_bytes();
    let b = right.as_bytes();
    let la: usize = a.len();
    let lb: usize = b.len();
    let max_len: usize = if la < lb {
        lb
    } else {
        la
    };
    let mut diff: usize = la ^ lb;
    assert((la ^ lb) == 0 <==> la == lb) by (bit_vector);
    let mut idx: usize = 0;
    while idx < max_len
        invariant
            idx <= max_len,
            la == a@.len(),
            lb == b@.len(),
            max_len == (if la < lb { lb } else { la }),
            diff == 0 <==> (la == lb && forall|j: int| 0 <= j < idx ==> a@[j] == b@[j]),
        decreases max_len - idx,
    {
        let x: u8 = if idx < la {
            a[idx]
        } else {
            0
        };
        let y: u8 = if idx < lb {
            b[idx]
        } else {
            0
        };
        proof {
            lemma_or_zero(diff, x, y);
        }
        diff = diff | ((x ^ y) as usize);
        idx += 1;
    }
    proof {
        vstd::utf8::encode_utf8_decode_utf8(left@);
        vstd::utf8::encode_utf8_decode_utf8(right@);
        if diff == 0 {
            assert(a@ == b@);
        }
        if left@ == right@ {
            assert(a@ == b@);
        }
    }
    diff == 0
}

/// Whether a request path needs no authentication.
pub fn is_open_path(path: &str, open_paths: &Vec<String>) -> (r: bool)
    ensures
        r == path_is_open(path@, text::texts(open_paths@)),
{
    let mut i: usize = 0;
    while i < open_paths.len()
        invariant
            i <= open_paths@.len(),
            forall|j: int| 0 <= j < i ==> path@ != #[trigger] text::texts(open_paths@)[j],
        decreases open_paths@.len() - i,
    {
        assert(text::texts(open_paths@)[i as int] == open_paths@[i as int]@);
        if same_text(path, open_paths[i].as_str()) {
            return true;
        }
        i += 1;
    }
    false
}

/// What stands before and after the first space.
pub fn split_once_space(s: &str) -> (r: Option<(String, String)>)
    ensures
        r is Some == text::position(s@, ' ') is Some,
        r matches Some(p) ==> p.0@ == s@.take(text::position(s@, ' ')->0) && p.1@ == s@.skip(
            text::position(s@, ' ')->0 + 1,
        ),
{
    let chars = chars_of(s);
    let n: usize = chars.len();
    let mut i: usize = 0;
    while i < n
        invariant
            i <= n,
            n == chars@.len(),
            chars@ == s@,
            forall|j: int| 0 <= j < i ==> s@[j] != ' ',
        decreases n - i,
    {
        if chars[i] == ' ' {
            proof {
                text::lemma_position(s@, ' ', i as int);
                assert(s@.take(i as int) == s@.subrange(0, i as int));
                assert(s@.skip(i + 1) == s@.subrange(i + 1, n as int));
            }
            return Some((text_range(&chars, 0, i), text_range(&chars, i + 1, n)));
        }
        i += 1;
    }
    proof {
        text::lemma_position(s@, ' ', n as int);
    }
    None
}

/// What is answered to a token offered under a scheme, where the schemes are given in small
/// letters.
pub fn judge_scheme(expected: &str, given: &str, offered: &str, token: &str) -> (r: AuthDecision)
    ensures
        refusal(r) == (if given@ != expected@ {
            Some((401u16, "invalid API auth scheme"@))
        } else {
            token_refusal(offered@, token@)
        }),
{
    if !same_text(given, expected) {
        return refuse(401, "invalid API auth scheme");
    }
    judge_token(offered, token)
}

/// What is answered to a token that is offered.
pub fn judge_token(offered: &str, token: &str) -> (r: AuthDecision)
    ensures
        refusal(r) == token_refusal(offered@, token@),
{
    if constant_time_token_eq(offered, token) {
        AuthDecision::Allow
    } else {
        refuse(401, "invalid API token")
    }
}

/// What is answered to the value of the header.
fn judge_header(auth: &RuntimeAuthConfig, value: &str) -> (r: AuthDecision)
    ensures
        refusal(r) == header_refusal(*auth, value@),
{
    match &auth.header_scheme {
        None => judge_token(value, auth.token.as_str()),
        Some(scheme) => {
            match split_once_space(value) {
                None => refuse(401, "invalid API auth header format"),
                Some(parts) => {
                    let expected = to_lowercase(trim(scheme.as_str()).as_str());
                    let given = to_lowercase(parts.0.as_str());
                    judge_scheme(
                        expected.as_str(),
                        given.as_str(),
                        parts.1.as_str(),
                        auth.token.as_str(),
                    )
                },
            }
        },
    }
}

/// Whether a request goes on: it does where no authentication is configured, where its path
/// needs none, and where its header carries the token.
pub fn authorize(
    auth: Option<&RuntimeAuthConfig>,
    path: &str,
    header: &HeaderValue,
) -> (r: AuthDecision)
    ensures
        refusal(r) == answer(
            match auth {
                Some(a) => Some(*a),
                None => None,
            },
            path@,
            *header,
        ),
{
    match auth {
        None => AuthDecision::Allow,
        Some(a) => {
            if is_open_path(path, &a.skip_paths) {
                return AuthDecision::Allow;
            }
            match header {
                HeaderValue::InvalidName => refuse(500, "invalid API auth configuration"),
                HeaderValue::Missing => refuse(401, "missing API authentication header"),
                HeaderValue::NotText => refuse(401, "invalid API auth header"),
                HeaderValue::Text(value) => judge_header(a, value.as_str()),
            }
        },
    }
}

/// The token that counts: the one in the configuration, or else the one of the environment.
pub open spec fn effective_token(config: ServiceConfig, from_env: Result<String, String>) -> Result<
    Seq<char>,
    Seq<Seq<char>>,
> {
    let auth = config.security.auth->0;
    match auth.token {
        Some(token) => Ok(token@),
        None => match auth.token_env {
            Some(name) => match from_env {
                Ok(token) => Ok(token@),
                Err(cause) => Err(
                    seq!["failed to read API token from env var '"@ + name@ + "'"@, cause@],
                ),
            },
            None => Err(seq![config::no_token_message()]),
        },
    }
}

impl ServiceConfig {
    /// The environment variable that holds the token, where it is needed.
    pub fn token_variable(&self) -> (r: Option<String>)
        ensures
            r is Some == (config::auth_enabled(self.security)
                && self.security.auth->0.token is None
                && self.security.auth->0.token_env is Some),
            r matches Some(name) ==> name == self.security.auth->0.token_env->0,
    {
        match &self.security.auth {
            Some(auth) => if auth.enabled && auth.token.is_none() {
                auth.token_env.clone()
            } else {
                None
            },
            None => None,
        }
    }

    /// How callers are recognised, given what the environment variable of the token holds.
    pub fn resolve_auth_config(&self, from_env: Result<String, String>) -> (r: Result<
        Option<RuntimeAuthConfig>,
        ForemanError,
    >)
        ensures
            match r {
                Ok(None) => !config::auth_enabled(self.security),
                Ok(Some(a)) => {
                    let auth = self.security.auth->0;
                    &&& config::auth_enabled(self.security)
                    &&& effective_token(*self, from_env) == Ok::<Seq<char>, Seq<Seq<char>>>(a.token@)
                    &&& !text::is_blank(a.token@)
                    &&& a.header_name@ == (match auth.header_name {
                        Some(name) => name@,
                        None => constants::DEFAULT_AUTH_HEADER_NAME@,
                    })
                    &&& a.header_scheme == auth.header_scheme
                    &&& text::texts(a.skip_paths@) == (if auth.skip_paths@.len() == 0 {
                        seq![constants::DEFAULT_AUTH_SKIP_PATH@]
                    } else {
                        text::texts(auth.skip_paths@)
                    })
                },
                Err(e) => {
                    &&& config::auth_enabled(self.security)
                    &&& match effective_token(*self, from_env) {
                        Ok(token) => text::is_blank(token) && e@ == seq![
                            "resolved API token is empty"@,
                        ],
                        Err(chain) => e@ == chain,
                    }
                },
            },
    {
        let auth = match &self.security.auth {
            Some(auth) => auth,
            None => {
                return Ok(None);
            },
        };
        if !auth.enabled {
            return Ok(None);
        }
        let token: String = match &auth.token {
            Some(token) => token.clone(),
            None => match &auth.token_env {
                Some(name) => match from_env {
                    Ok(token) => token,
                    Err(cause) => {
                        let mut message = "failed to read API token from env var '".to_owned();
                        message.append(name.as_str());
                        message.append("'");
                        let e = ForemanError::new(cause).context(message);
                        assert(e@ == seq![message@, cause@]);
                        return Err(e);
                    },
                },
                None => {
                    return Err(
                        ForemanError::from_text(
                            "auth is enabled but token or token_env is not configured",
                        ),
                    );
                },
            },
        };
        if trims_to_empty(token.as_str()) {
            return Err(ForemanError::from_text("resolved API token is empty"));
        }
        let mut skip_paths = auth.skip_paths.clone();
        assert(skip_paths@ == auth.skip_paths@);
        if skip_paths.len() == 0 {
            skip_paths.push(constants::DEFAULT_AUTH_SKIP_PATH.to_owned());
            assert(text::texts(skip_paths@) == seq![constants::DEFAULT_AUTH_SKIP_PATH@]);
        }
        let header_name = match &auth.header_name {
            Some(name) => name.clone(),
            None => constants::DEFAULT_AUTH_HEADER_NAME.to_owned(),
        };
        Ok(
            Some(
                RuntimeAuthConfig {
                    token,
                    header_name,
                    header_scheme: auth.header_scheme.clone(),
                    skip_paths,
                },
            ),
        )
    }
}

/// With authentication a request goes on exactly where its path is an open one or its header
/// carries the token. Any other is answered with status 401, or with 500 where the name of the
/// header is none.
pub proof fn law_only_the_token_opens(a: RuntimeAuthConfig, path: Seq<char>, header: HeaderValue)
    ensures
        answer(Some(a), path, header) is None <==> path_is_open(path, text::texts(a.skip_paths@))
            || (header matches HeaderValue::Text(value) && carries_token(a, value@)),
        answer(Some(a), path, header) matches Some(refused) ==> refused.0 == (if header
            is InvalidName {
            500u16
        } else {
            401u16
        }),
{
}

/// Without authentication every request is let in; with it the open paths are, and of others only
/// those that bring the token, behind the scheme where there is one.
pub proof fn law_requests_bring_the_token(
    a: RuntimeAuthConfig,
    path: Seq<char>,
    header: HeaderValue,
    value: String,
)
    ensures
        answer(None, path, header) is None,
        text::texts(a.skip_paths@).contains(path) ==> answer(Some(a), path, header) is None,
        !text::texts(a.skip_paths@).contains(path) ==> {
            &&& answer(Some(a), path, HeaderValue::Missing) matches Some(r) && r.0 == 401
            &&& answer(Some(a), path, HeaderValue::NotText) matches Some(r) && r.0 == 401
            &&& answer(Some(a), path, HeaderValue::InvalidName) matches Some(r) && r.0 == 500
            &&& a.header_scheme is None && value@ == a.token@ ==> answer(
                Some(a),
                path,
                HeaderValue::Text(value),
            ) is None
            &&& a.header_scheme is None && value@ != a.token@ ==> answer(
                Some(a),
                path,
                HeaderValue::Text(value),
            ) is Some
            &&& answer(Some(a), path, HeaderValue::Text(value)) is None ==> text::ends(
                value@,
                a.token@,
            )
        },
{
    let open = text::texts(a.skip_paths@);
    if open.contains(path) {
        let i = choose|i: int| 0 <= i < open.len() && open[i] == path;
        assert(path == open[i]);
    } else {
        assert forall|i: int| 0 <= i < open.len() implies path != #[trigger] open[i] by {}
        if answer(Some(a), path, HeaderValue::Text(value)) is None {
            let n = value@.len() - a.token@.len();
            if a.header_scheme is None {
                assert(value@.subrange(0, value@.len() as int) == value@);
                assert(text::occurs_at(value@, a.token@, n));
            } else {
                lemma_position_in(value@, ' ');
                let at = text::position(value@, ' ')->0;
                assert(value@.skip(at + 1) == a.token@);
                assert(value@.subrange(n, value@.len() as int) == value@.skip(at + 1));
                assert(text::occurs_at(value@, a.token@, n));
            }
        }
    }
}

proof fn lemma_position_in(s: Seq<char>, c: char)
    ensures
        text::position(s, c) matches Some(k) ==> 0 <= k < s.len(),
    decreases s.len(),
{
    if s.len() > 0 && s[0] != c {
        lemma_position_in(s.skip(1), c);
    }
}

/// A token that is written down goes before one of the environment.
pub proof fn law_written_tokens_go_first(config: ServiceConfig, from_env: Result<String, String>)
    requires
        config.security.auth is Some,
    ensures
        config.security.auth->0.token is Some ==> effective_token(config, from_env) == Ok::<
            Seq<char>,
            Seq<Seq<char>>,
        >(config.security.auth->0.token->0@),
        config.security.auth->0.token is None && config.security.auth->0.token_env is Some
            && from_env is Ok ==> effective_token(config, from_env) == Ok::<
            Seq<char>,
            Seq<Seq<char>>,
        >(from_env->Ok_0@),
        config.security.auth->0.token is None && (config.security.auth->0.token_env is None
            || from_env is Err) ==> effective_token(config, from_env) is Err,
{
}

} // verus!

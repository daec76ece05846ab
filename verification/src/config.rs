//! The configuration with which the program starts.
use vstd::prelude::*;
use vstd::utf8::{encode_utf8, encode_utf8_decode_utf8};

use crate::encoding::{base64_text, law_base64_loses_nothing};
use crate::outside::base64_encode;
use crate::text::{blank, has_char, is_blank, white_space};
use crate::variables::error_text;

verus! {

/// Where the program listens.
#[derive(Debug, PartialEq, Eq)]
pub struct BindConfig {
    pub host: String,
    pub port: u16,
}

/// Who may use the program.
#[derive(Debug, PartialEq, Eq)]
pub struct BasicAuthConfig {
    pub enabled: bool,
    pub username: Option<String>,
    pub password: Option<String>,
}

/// The configuration of the program.
#[derive(Debug, PartialEq, Eq)]
pub struct AppConfig {
    pub data_dir: String,
    pub bind: BindConfig,
    pub basic_auth: Option<BasicAuthConfig>,
}

/// A text that holds a carriage return or a line feed.
pub open spec fn broken(s: Seq<char>) -> bool {
    s.contains('\r') || s.contains('\n')
}

/// Whether `value` holds a carriage return or a line feed.
pub fn contains_crlf(value: &str) -> (r: bool)
    ensures
        r == broken(value@),
{
    has_char(value, '\r') || has_char(value, '\n')
}

/// What is wrong with the credentials, if anything; nothing is where they are not enabled.
pub open spec fn credentials_error(auth: BasicAuthConfig) -> Option<Seq<char>> {
    if !auth.enabled {
        None
    } else if auth.username is None {
        Some("basic_auth.username is required when enabled"@)
    } else if auth.password is None {
        Some("basic_auth.password is required when enabled"@)
    } else if auth.username->0@.len() == 0 {
        Some("basic_auth.username must not be empty when enabled"@)
    } else if auth.password->0@.len() == 0 {
        Some("basic_auth.password must not be empty when enabled"@)
    } else if broken(auth.username->0@) {
        Some("basic_auth.username must not contain CR or LF"@)
    } else if broken(auth.password->0@) {
        Some("basic_auth.password must not contain CR or LF"@)
    } else {
        None
    }
}

/// What is wrong with a configuration, if anything.
pub open spec fn config_error(config: AppConfig) -> Option<Seq<char>> {
    if config.data_dir@.len() == 0 {
        Some("data_dir is required"@)
    } else if blank(config.bind.host@) {
        Some("bind.host is required"@)
    } else if broken(config.bind.host@) {
        Some("bind.host must not contain CR or LF"@)
    } else {
        match config.basic_auth {
            Some(auth) => credentials_error(auth),
            None => None,
        }
    }
}

/// Whether the credentials can be used, and what is wrong where they cannot.
fn validate_credentials(auth: &BasicAuthConfig) -> (r: Result<(), String>)
    ensures
        error_text(r) == credentials_error(*auth),
{
    if !auth.enabled {
        return Ok(());
    }
    match (&auth.username, &auth.password) {
        (None, _) => Err("basic_auth.username is required when enabled".to_string()),
        (Some(_), None) => Err("basic_auth.password is required when enabled".to_string()),
        (Some(username), Some(password)) => {
            if username.as_str().is_empty() {
                return Err("basic_auth.username must not be empty when enabled".to_string());
            }
            if password.as_str().is_empty() {
                return Err("basic_auth.password must not be empty when enabled".to_string());
            }
            if contains_crlf(username.as_str()) {
                return Err("basic_auth.username must not contain CR or LF".to_string());
            }
            if contains_crlf(password.as_str()) {
                return Err("basic_auth.password must not contain CR or LF".to_string());
            }
            Ok(())
        },
    }
}

/// Whether the configuration can be used, and what is wrong where it cannot.
pub fn validate_app_config(config: &AppConfig) -> (r: Result<(), String>)
    ensures
        error_text(r) == config_error(*config),
{
    if config.data_dir.as_str().is_empty() {
        return Err("data_dir is required".to_string());
    }
    if is_blank(config.bind.host.as_str()) {
        return Err("bind.host is required".to_string());
    }
    if contains_crlf(config.bind.host.as_str()) {
        return Err("bind.host must not contain CR or LF".to_string());
    }
    match &config.basic_auth {
        Some(auth) => validate_credentials(auth),
        None => Ok(()),
    }
}

/// What came of reading the file of the configuration.
#[derive(Debug, PartialEq, Eq)]
pub enum ConfigFile {
    /// The file could not be read.
    Unreadable(String),
    /// The file holds no configuration.
    Malformed(String),
    /// The file holds this configuration.
    Holds(AppConfig),
}

/// `what`, the path in quotes, a colon and the reason.
pub open spec fn complaint(what: Seq<char>, path: Seq<char>, reason: Seq<char>) -> Seq<char> {
    what + " config '"@ + path + "': "@ + reason
}

/// `what`, the path in quotes, a colon and the reason.
fn complain(what: &str, path: &str, reason: &str) -> (r: String)
    ensures
        r@ == complaint(what@, path@, reason@),
{
    let mut message = what.to_string();
    message.append(" config '");
    message.append(path);
    message.append("': ");
    message.append(reason);
    message
}

/// The configuration in the file at `path`, or why there is none that can be used.
pub fn load_app_config(path: &str, file: ConfigFile) -> (r: Result<AppConfig, String>)
    ensures
        match file {
            ConfigFile::Unreadable(e) => r matches Err(m) && m@ == complaint(
                "failed to read"@,
                path@,
                e@,
            ),
            ConfigFile::Malformed(e) => r matches Err(m) && m@ == complaint("invalid"@, path@, e@),
            ConfigFile::Holds(config) => match config_error(config) {
                Some(e) => r matches Err(m) && m@ == complaint("invalid"@, path@, e),
                None => r == Ok::<AppConfig, String>(config),
            },
        },
{
    match file {
        ConfigFile::Unreadable(e) => Err(complain("failed to read", path, e.as_str())),
        ConfigFile::Malformed(e) => Err(complain("invalid", path, e.as_str())),
        ConfigFile::Holds(config) => match validate_app_config(&config) {
            Ok(_) => Ok(config),
            Err(e) => Err(complain("invalid", path, e.as_str())),
        },
    }
}

// ---- credentials ----

/// The header that admits a request.
#[derive(Debug, PartialEq, Eq)]
pub struct BasicAuthRuntime {
    pub expected_header: String,
}

/// A user name and a password as one text.
pub open spec fn credentials(username: Seq<char>, password: Seq<char>) -> Seq<char> {
    username + ":"@ + password
}

/// The header that carries the credentials.
pub open spec fn basic_header(credentials: Seq<char>) -> Seq<char> {
    "Basic "@ + base64_text(encode_utf8(credentials))
}

/// The header that admits a request, where authentication is enabled, or which part of the
/// credentials is missing. No other credentials give the same header.
pub fn basic_auth_runtime(config: Option<&BasicAuthConfig>) -> (r: Result<
    Option<BasicAuthRuntime>,
    String,
>)
    ensures
        match config {
            None => r == Ok::<Option<BasicAuthRuntime>, String>(None),
            Some(auth) => if !auth.enabled {
                r == Ok::<Option<BasicAuthRuntime>, String>(None)
            } else if auth.username is None {
                r matches Err(e) && e@ == "basic_auth.username is required when enabled"@
            } else if auth.password is None {
                r matches Err(e) && e@ == "basic_auth.password is required when enabled"@
            } else {
                r matches Ok(Some(runtime)) && runtime.expected_header@ == basic_header(
                    credentials(auth.username->0@, auth.password->0@),
                )
            },
        },
        r matches Ok(Some(runtime)) ==> forall|other: Seq<char>| #[trigger]
            basic_header(other) == runtime.expected_header@ ==> other == credentials(
                config->0.username->0@,
                config->0.password->0@,
            ),
{
    let config = match config {
        Some(config) => config,
        None => return Ok(None),
    };
    if !config.enabled {
        return Ok(None);
    }
    match (&config.username, &config.password) {
        (None, _) => Err("basic_auth.username is required when enabled".to_string()),
        (Some(_), None) => Err("basic_auth.password is required when enabled".to_string()),
        (Some(username), Some(password)) => {
            let mut text = username.clone();
            text.append(":");
            text.append(password.as_str());
            let encoded = base64_encode(text.as_str());
            let mut expected_header = "Basic ".to_string();
            expected_header.append(encoded.as_str());
            proof {
                assert forall|other: Seq<char>| #[trigger]
                    basic_header(other) == expected_header@ implies other == text@ by {
                    let n = "Basic "@.len() as int;
                    assert(basic_header(other).skip(n) =~= base64_text(encode_utf8(other)));
                    assert(expected_header@.skip(n) =~= encoded@);
                    law_base64_loses_nothing(encode_utf8(other), encode_utf8(text@));
                    encode_utf8_decode_utf8(other);
                    encode_utf8_decode_utf8(text@);
                }
            }
            Ok(Some(BasicAuthRuntime { expected_header }))
        },
    }
}

/// Where a configuration can be used and authentication is enabled, both parts of the credentials
/// are given and neither is empty or broken over lines.
pub proof fn law_usable_credentials_are_complete(config: AppConfig)
    requires
        config_error(config) is None,
        config.basic_auth is Some,
        config.basic_auth->0.enabled,
    ensures
        config.basic_auth->0.username matches Some(name) && name@.len() > 0 && !broken(name@),
        config.basic_auth->0.password matches Some(word) && word@.len() > 0 && !broken(word@),
{
}

/// A text is broken where one of its characters is a carriage return or a line feed.
pub proof fn law_broken_texts(s: Seq<char>)
    ensures
        broken(s) <==> exists|i: int|
            0 <= i < s.len() && (#[trigger] s[i] as int == 13 || s[i] as int == 10),
{
    if broken(s) {
        let c = if s.contains('\r') {
            '\r'
        } else {
            '\n'
        };
        let i = choose|i: int| 0 <= i < s.len() && s[i] == c;
        assert(s[i] as int == 13 || s[i] as int == 10);
    } else {
        assert forall|i: int| 0 <= i < s.len() implies #[trigger] s[i] as int != 13 && s[i] as int
            != 10 by {
            assert(s.contains(s[i]));
        }
    }
}

/// Both parts of the credentials are given, and neither is empty or broken.
pub open spec fn complete_credentials(auth: BasicAuthConfig) -> bool {
    &&& auth.username matches Some(name) && name@.len() > 0 && !broken(name@)
    &&& auth.password matches Some(word) && word@.len() > 0 && !broken(word@)
}

/// A configuration can be used if and only if it has a data directory, a host that is neither
/// blank nor broken, and complete credentials where they are enabled.
pub proof fn law_usable_configurations(config: AppConfig)
    ensures
        config_error(config) is None <==> {
            &&& config.data_dir@.len() > 0
            &&& exists|i: int|
                0 <= i < config.bind.host@.len() && !white_space(#[trigger] config.bind.host@[i])
            &&& !broken(config.bind.host@)
            &&& config.basic_auth matches Some(auth) ==> !auth.enabled || complete_credentials(auth)
        },
{
}

/// What is said of a configuration that cannot be used.
pub proof fn law_what_is_said_of_configurations(config: AppConfig, auth: BasicAuthConfig)
    ensures
        config.data_dir@.len() == 0 ==> config_error(config) == Some("data_dir is required"@),
        config.data_dir@.len() > 0 && blank(config.bind.host@) ==> config_error(config) == Some(
            "bind.host is required"@,
        ),
        config.data_dir@.len() > 0 && !blank(config.bind.host@) && broken(config.bind.host@)
            ==> config_error(config) == Some("bind.host must not contain CR or LF"@),
        config.data_dir@.len() > 0 && !blank(config.bind.host@) && !broken(config.bind.host@)
            && config.basic_auth == Some(auth) ==> config_error(config) == credentials_error(auth),
        auth.enabled && auth.username is None ==> credentials_error(auth) == Some(
            "basic_auth.username is required when enabled"@,
        ),
        auth.enabled && auth.username is Some && auth.password is None ==> credentials_error(auth)
            == Some("basic_auth.password is required when enabled"@),
        auth.enabled && auth.username is Some && auth.password is Some
            && auth.username->0@.len() == 0 ==> credentials_error(auth) == Some(
            "basic_auth.username must not be empty when enabled"@,
        ),
        auth.enabled && auth.username is Some && auth.password is Some && auth.username->0@.len()
            > 0 && auth.password->0@.len() == 0 ==> credentials_error(auth) == Some(
            "basic_auth.password must not be empty when enabled"@,
        ),
        auth.enabled && auth.username is Some && auth.password is Some && auth.username->0@.len()
            > 0 && auth.password->0@.len() > 0 && broken(auth.username->0@) ==> credentials_error(
            auth,
        ) == Some("basic_auth.username must not contain CR or LF"@),
        auth.enabled && auth.username is Some && auth.password is Some && auth.username->0@.len()
            > 0 && auth.password->0@.len() > 0 && !broken(auth.username->0@) && broken(
            auth.password->0@,
        ) ==> credentials_error(auth) == Some("basic_auth.password must not contain CR or LF"@),
{
}

/// A complaint names the path in quotes and ends with the reason.
pub proof fn law_complaints(what: Seq<char>, path: Seq<char>, reason: Seq<char>)
    ensures
        complaint(what, path, reason) == what + (" config '"@ + path + "': "@) + reason,
{
    assert(complaint(what, path, reason) =~= what + (" config '"@ + path + "': "@) + reason);
}

/// The header that admits a request is `Basic`, a space and the name, a colon and the password in
/// Base64.
pub proof fn law_admitting_header(username: Seq<char>, password: Seq<char>)
    ensures
        basic_header(credentials(username, password)) == "Basic "@ + base64_text(
            encode_utf8(username + seq![':'] + password),
        ),
{
    reveal_strlit(":");
    assert(":"@ =~= seq![':']);
}

} // verus!

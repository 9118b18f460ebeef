//! The Substrate access token: its claims, its place in the environment file, and the copy that
//! is kept in memory.
use vstd::prelude::*;
use vstd::string::*;

use base64::Engine;

use crate::json::{self, parse_json_bytes, Json, JsonTree};
use crate::text::{
    self, chars_of, find_char, join_text, lines_of, part_of, same_text, split_text, starts_with,
    trim_text, trim_trailing,
};

verus! {

/// The audience of every Substrate token begins so.
pub const SUBSTRATE_AUDIENCE_PREFIX: &'static str = "https://substrate.office.com/";

/// The variable under which the environment file holds the token.
pub const TOKEN_VARIABLE: &'static str = "M365_ACCESS_TOKEN";

// ---------------------------------------------------------------------------------------------
// Claims
// ---------------------------------------------------------------------------------------------

/// What `base64` decodes text to with the URL-safe alphabet and no padding, or its message.
pub uninterp spec fn base64_decoded(text: Seq<char>) -> Result<Seq<u8>, Seq<char>>;

/// `URL_SAFE_NO_PAD.decode` of the crate `base64`: bytes and error message depend on the text
/// alone and are named `base64_decoded`.
#[verifier::external_body]
fn base64_decode(text: &str) -> (decoded: Result<Vec<u8>, String>)
    ensures
        match decoded {
            Ok(bytes) => base64_decoded(text@) == Ok::<Seq<u8>, Seq<char>>(bytes@),
            Err(message) => base64_decoded(text@) == Err::<Seq<u8>, Seq<char>>(message@),
        },
{
    base64::engine::general_purpose::URL_SAFE_NO_PAD.decode(text).map_err(|e| e.to_string())
}

/// The claims of a token: its second dot-separated piece, decoded and parsed; padding at the
/// piece's end is dropped.
pub open spec fn jwt_claims(token: Seq<char>) -> Result<JsonTree, Seq<char>> {
    let pieces = text::pieces(token, '.');
    if pieces.len() < 2 {
        Err("invalid JWT"@)
    } else {
        match base64_decoded(text::without_trailing(pieces[1], '=')) {
            Ok(bytes) => json::parsed_bytes(bytes),
            Err(message) => Err(message),
        }
    }
}

/// The claims are those of a Substrate token: their audience is at `substrate.office.com`.
pub open spec fn substrate_claims(claims: JsonTree) -> bool {
    match claims.text_member("aud"@) {
        Some(audience) => text::begins_with(audience, SUBSTRATE_AUDIENCE_PREFIX@),
        None => false,
    }
}

/// The token has claims, and they are those of a Substrate token.
pub open spec fn substrate_token(token: Seq<char>) -> bool {
    jwt_claims(token) matches Ok(claims) && substrate_claims(claims)
}

/// `exp - now`, as 64-bit subtraction gives it.
pub open spec fn left_until(exp: i64, now: i64) -> i64 {
    vstd::wrapping::i64_specs::wrapping_sub(exp, now)
}

/// How many seconds a token lasts after `now`.
pub open spec fn remaining_at(token: Seq<char>, now: i64) -> Result<i64, Seq<char>> {
    match jwt_claims(token) {
        Ok(claims) => match claims.signed_member("exp"@) {
            Some(exp) => Ok(left_until(exp, now)),
            None => Err("missing exp claim"@),
        },
        Err(message) => Err(message),
    }
}

/// How many seconds a token lasts by a clock that reads a time, or fails with a message.
pub open spec fn remaining_by(token: Seq<char>, clock: Result<i64, Seq<char>>) -> Result<
    i64,
    Seq<char>,
> {
    match (jwt_claims(token), clock) {
        (Err(message), _) => Err(message),
        (Ok(claims), _) if claims.signed_member("exp"@) is None => Err("missing exp claim"@),
        (Ok(_), Err(message)) => Err(message),
        (Ok(_), Ok(now)) => remaining_at(token, now),
    }
}

/// What a clock reads, or its message where it fails.
pub open spec fn reading(clock: Result<i64, String>) -> Result<i64, Seq<char>> {
    match clock {
        Ok(now) => Ok(now),
        Err(message) => Err(message@),
    }
}

/// A token has to be got: there is none, it is no Substrate token, or it does not last.
pub open spec fn token_needed_at(token: Option<Seq<char>>, now: i64) -> bool {
    match token {
        Some(t) => !substrate_token(t) || !(remaining_at(t, now) matches Ok(left) && left > 0),
        None => true,
    }
}

/// A token has to be got, by a clock that reads a time or cannot be read: without a time none
/// counts as lasting.
pub open spec fn token_needed_by(token: Option<Seq<char>>, clock: Option<i64>) -> bool {
    match clock {
        Some(now) => token_needed_at(token, now),
        None => true,
    }
}

/// The claims of a token.
pub fn decode_jwt_payload(token: &str) -> (claims: Result<Json, String>)
    ensures
        match claims {
            Ok(json) => jwt_claims(token@) == Ok::<JsonTree, Seq<char>>(json.tree()),
            Err(message) => jwt_claims(token@) == Err::<JsonTree, Seq<char>>(message@),
        },
{
    let pieces = split_text(token, '.');
    assert(text::views(pieces@).len() == pieces@.len());
    if pieces.len() < 2 {
        return Err("invalid JWT".to_owned());
    }
    assert(text::views(pieces@)[1] == pieces@[1]@);
    let payload = trim_trailing(pieces[1].as_str(), '=');
    match base64_decode(payload.as_str()) {
        Ok(bytes) => parse_json_bytes(&bytes),
        Err(message) => Err(message),
    }
}

/// Whether the claims are those of a Substrate token.
pub fn is_substrate_token_claims(claims: &Json) -> (b: bool)
    ensures
        b == substrate_claims(claims.tree()),
{
    match claims.get_str("aud") {
        Some(audience) => starts_with(audience, SUBSTRATE_AUDIENCE_PREFIX),
        None => false,
    }
}

/// Whether `token` is a Substrate token.
pub fn is_substrate_token(token: &str) -> (b: bool)
    ensures
        b == substrate_token(token@),
{
    match decode_jwt_payload(token) {
        Ok(claims) => is_substrate_token_claims(&claims),
        Err(_) => false,
    }
}

/// `SystemTime::now`: the seconds since the Unix epoch, or a message where the clock stands
/// before it. Nothing is promised of the time.
#[verifier::external_body]
pub(crate) fn unix_now() -> (now: Result<i64, String>) {
    std::time::SystemTime::now()
        .duration_since(std::time::UNIX_EPOCH)
        .map(|d| d.as_secs() as i64)
        .map_err(|e| e.to_string())
}

/// `left` is the number of seconds, or the error, that is wanted.
pub open spec fn lasts(left: Result<i64, String>, wanted: Result<i64, Seq<char>>) -> bool {
    match left {
        Ok(n) => wanted == Ok::<i64, Seq<char>>(n),
        Err(message) => wanted == Err::<i64, Seq<char>>(message@),
    }
}

/// How many seconds `token` lasts after `now`.
pub fn seconds_remaining_at(token: &str, now: i64) -> (left: Result<i64, String>)
    ensures
        lasts(left, remaining_at(token@, now)),
{
    let claims = match decode_jwt_payload(token) {
        Ok(claims) => claims,
        Err(message) => return Err(message),
    };
    match claims.get_i64("exp") {
        Some(exp) => Ok(exp.wrapping_sub(now)),
        None => Err("missing exp claim".to_owned()),
    }
}

/// How many seconds `token` lasts by what the clock reads, or its message where it fails.
pub fn seconds_remaining_by(token: &str, clock: Result<i64, String>) -> (left: Result<i64, String>)
    ensures
        lasts(left, remaining_by(token@, reading(clock))),
{
    let claims = match decode_jwt_payload(token) {
        Ok(claims) => claims,
        Err(message) => return Err(message),
    };
    if claims.get_i64("exp").is_none() {
        return Err("missing exp claim".to_owned());
    }
    match clock {
        Ok(now) => seconds_remaining_at(token, now),
        Err(message) => Err(message),
    }
}

/// How many seconds `token` lasts from now on: what `seconds_remaining_by` gives for what the
/// clock reads. Nothing is known of the clock, nor of what it says where it fails; a token that
/// cannot be decoded or names no expiry is refused at every time.
pub fn seconds_remaining(token: &str) -> (left: Result<i64, String>)
    ensures
        exists|clock: Result<i64, Seq<char>>|
            lasts(left, #[trigger] remaining_by(token@, clock)),
        left matches Ok(n) ==> exists|now: i64|
            #[trigger] remaining_at(token@, now) == Ok::<i64, Seq<char>>(n),
        jwt_claims(token@) matches Err(message) ==> left matches Err(e) && e@ == message,
        jwt_claims(token@) matches Ok(claims) ==> claims.signed_member("exp"@) is None ==> (left
            matches Err(e) && e@ == "missing exp claim"@),
{
    let clock = unix_now();
    let ghost read = reading(clock);
    let left = seconds_remaining_by(token, clock);
    assert(lasts(left, remaining_by(token@, read)));
    left
}

/// Whether a token has to be got, as of `now`.
pub fn needs_substrate_token_at(token: Option<&str>, now: i64) -> (needed: bool)
    ensures
        needed == token_needed_at(
            match token {
                Some(t) => Some(t@),
                None => None,
            },
            now,
        ),
{
    match token {
        None => true,
        Some(t) => if !is_substrate_token(t) {
            true
        } else {
            match seconds_remaining_at(t, now) {
                Ok(left) => left <= 0,
                Err(_) => true,
            }
        },
    }
}

/// Whether a token has to be got, by what the clock reads.
pub fn needs_substrate_token_by(token: Option<&str>, clock: Option<i64>) -> (needed: bool)
    ensures
        needed == token_needed_by(text::text_view(token), clock),
{
    match clock {
        Some(now) => needs_substrate_token_at(token, now),
        None => true,
    }
}

// ---------------------------------------------------------------------------------------------
// The environment file
// ---------------------------------------------------------------------------------------------

/// A value of the environment file without the white space and the quotes around it.
pub open spec fn clean_value(value: Seq<char>) -> Seq<char> {
    let v = text::trimmed(value);
    if v.len() >= 2 && v.first() == v.last() && (v.first() == '\'' || v.first() == '"') {
        v.subrange(1, v.len() - 1)
    } else {
        v
    }
}

/// The token that a line of the environment file assigns.
pub open spec fn assigned(line: Seq<char>) -> Option<Seq<char>> {
    let stripped = text::trimmed(line);
    let at = text::first_of(stripped, '=');
    if stripped.len() == 0 || stripped.first() == '#' || at >= stripped.len() {
        None
    } else if text::trimmed(stripped.take(at)) == TOKEN_VARIABLE@ {
        Some(clean_value(stripped.skip(at + 1)))
    } else {
        None
    }
}

/// The token that the first assigning line assigns.
pub open spec fn first_assigned(lines: Seq<Seq<char>>) -> Option<Seq<char>>
    decreases lines.len(),
{
    if lines.len() == 0 {
        None
    } else if assigned(lines.first()) is Some {
        assigned(lines.first())
    } else {
        first_assigned(lines.drop_first())
    }
}

/// The token that the text of an environment file holds.
pub open spec fn env_token(file: Seq<char>) -> Option<Seq<char>> {
    first_assigned(text::text_lines(file))
}

/// The line that holds `token`.
pub open spec fn token_line(token: Seq<char>) -> Seq<char> {
    TOKEN_VARIABLE@ + "="@ + token
}

/// The line is one that is overwritten with a new token.
pub open spec fn active_line(line: Seq<char>) -> bool {
    text::begins_with(text::trimmed(line), TOKEN_VARIABLE@ + "="@)
}

/// Some line is one that is overwritten with a new token.
pub open spec fn has_active_line(lines: Seq<Seq<char>>) -> bool {
    exists|i: int| 0 <= i < lines.len() && active_line(#[trigger] lines[i])
}

/// `lines` with `token` in every line that is overwritten.
pub open spec fn overwritten(lines: Seq<Seq<char>>, token: Seq<char>) -> Seq<Seq<char>> {
    lines.map_values(
        |line: Seq<char>|
            if active_line(line) {
                token_line(token)
            } else {
                line
            },
    )
}

/// The text of an environment file after `token` was written to it.
pub open spec fn env_with_token(file: Option<Seq<char>>, token: Seq<char>) -> Seq<char> {
    match file {
        Some(existing) => {
            let lines = text::text_lines(existing);
            if has_active_line(lines) {
                text::joined(overwritten(lines, token), "\n"@)
            } else if existing.len() == 0 || existing.last() == '\n' {
                existing + token_line(token) + "\n"@
            } else {
                existing + "\n"@ + token_line(token) + "\n"@
            }
        },
        None => token_line(token) + "\n"@,
    }
}

/// A value of the environment file without the white space and the quotes around it.
pub fn clean_env_value(value: &str) -> (cleaned: String)
    ensures
        cleaned@ == clean_value(value@),
{
    let v = trim_text(value);
    let chars = chars_of(v.as_str());
    let n = chars.len();
    if n >= 2 && chars[0] == chars[n - 1] && (chars[0] == '\'' || chars[0] == '"') {
        return part_of(v.as_str(), 1, n - 1);
    }
    v
}

/// The token that the text of an environment file holds.
pub fn read_env_token(file: &str) -> (token: Option<String>)
    ensures
        text::string_view(token) == env_token(file@),
{
    let lines = lines_of(file);
    let ghost all = text::views(lines@);
    assert(all.skip(0) =~= all);
    for i in 0..lines.len()
        invariant
            all == text::views(lines@),
            all == text::text_lines(file@),
            first_assigned(all) == first_assigned(all.skip(i as int)),
    {
        proof {
            assert(all[i as int] == lines@[i as int]@);
            assert(all.skip(i as int).first() == all[i as int]);
            assert(all.skip(i as int).drop_first() =~= all.skip(i + 1));
        }
        let stripped = trim_text(lines[i].as_str());
        let chars = chars_of(stripped.as_str());
        if chars.len() > 0 && chars[0] != '#' {
            let at = find_char(&chars, '=', 0);
            assert(stripped@.skip(0) =~= stripped@);
            if at < chars.len() {
                let key = part_of(stripped.as_str(), 0, at);
                assert(key@ =~= stripped@.take(at as int));
                if same_text(trim_text(key.as_str()).as_str(), TOKEN_VARIABLE) {
                    let value = part_of(stripped.as_str(), at + 1, chars.len());
                    assert(value@ =~= stripped@.skip(at + 1));
                    return Some(clean_env_value(value.as_str()));
                }
            }
        }
    }
    assert(all.skip(all.len() as int) =~= Seq::<Seq<char>>::empty());
    None
}

/// Whether the line is one that is overwritten with a new token.
fn is_active_line(line: &str, marker: &str) -> (b: bool)
    requires
        marker@ == TOKEN_VARIABLE@ + "="@,
    ensures
        b == active_line(line@),
{
    starts_with(trim_text(line).as_str(), marker)
}

/// The text of an environment file after `token` was written to it: every line that assigns the
/// token is overwritten, and where there is none a line is added at the end.
pub fn write_token(file: Option<&str>, token: &str) -> (written: String)
    ensures
        written@ == env_with_token(text::text_view(file), token@),
{
    let mut marker = TOKEN_VARIABLE.to_owned();
    marker.append("=");
    let mut line = marker.clone();
    line.append(token);
    let existing = match file {
        Some(existing) => existing,
        None => {
            line.append("\n");
            return line;
        },
    };
    let lines = lines_of(existing);
    let ghost all = text::views(lines@);
    let mut found = false;
    let mut out: Vec<String> = Vec::new();
    for i in 0..lines.len()
        invariant
            all == text::views(lines@),
            marker@ == TOKEN_VARIABLE@ + "="@,
            line@ == token_line(token@),
            found == exists|j: int| 0 <= j < i && active_line(#[trigger] all[j]),
            text::views(out@) == overwritten(all, token@).take(i as int),
    {
        let ghost before = out@;
        assert(all[i as int] == lines@[i as int]@);
        if is_active_line(lines[i].as_str(), marker.as_str()) {
            found = true;
            out.push(line.clone());
        } else {
            out.push(lines[i].clone());
        }
        assert(text::views(out@) =~= text::views(before).push(overwritten(all, token@)[i as int]));
    }
    assert(text::views(out@) =~= overwritten(all, token@));
    if found {
        return join_text(&out, "\n");
    }
    assert(!has_active_line(all));
    let chars = chars_of(existing);
    let mut written = existing.to_owned();
    if chars.len() > 0 && chars[chars.len() - 1] != '\n' {
        written.append("\n");
    }
    written.append(line.as_str());
    written.append("\n");
    written
}

// ---------------------------------------------------------------------------------------------
// The token in memory
// ---------------------------------------------------------------------------------------------

/// How `chrono` writes a Unix time in UTC after RFC 3339, where it can represent the time.
pub uninterp spec fn rfc3339(seconds: i64) -> Option<Seq<char>>;

/// `DateTime::<Utc>::from_timestamp` and `to_rfc3339` of the crate `chrono`: the text depends on
/// the time alone and is named `rfc3339`.
#[verifier::external_body]
fn utc_text(seconds: i64) -> (written: Option<String>)
    ensures
        text::string_view(written) == rfc3339(seconds),
{
    chrono::DateTime::<chrono::Utc>::from_timestamp(seconds, 0).map(|dt| dt.to_rfc3339())
}

/// What is known of the token: whether it is valid, why not, and how long it lasts.
#[derive(Debug, Clone)]
pub struct TokenStatus {
    pub valid: bool,
    pub error: Option<String>,
    pub expires_at: Option<String>,
    pub seconds_remaining: i64,
}

/// `TokenStatus` as mathematics.
pub struct StatusView {
    pub valid: bool,
    pub error: Option<Seq<char>>,
    pub expires_at: Option<Seq<char>>,
    pub seconds_remaining: i64,
}

impl View for TokenStatus {
    type V = StatusView;

    open spec fn view(&self) -> StatusView {
        StatusView {
            valid: self.valid,
            error: text::string_view(self.error),
            expires_at: text::string_view(self.expires_at),
            seconds_remaining: self.seconds_remaining,
        }
    }
}

/// The status of a token that cannot be used.
pub open spec fn refused_status(message: Seq<char>) -> StatusView {
    StatusView { valid: false, error: Some(message), expires_at: None, seconds_remaining: 0 }
}

/// The status of a token at `now`.
pub open spec fn status_at(token: Seq<char>, now: i64) -> StatusView {
    match jwt_claims(token) {
        Err(message) => refused_status("Cannot decode access token: "@ + message),
        Ok(claims) => if !substrate_claims(claims) {
            refused_status("Access token is not a substrate.office.com token."@)
        } else {
            let exp = match claims.signed_member("exp"@) {
                Some(exp) => exp,
                None => 0,
            };
            let left = if left_until(exp, now) > 0 {
                left_until(exp, now)
            } else {
                0
            };
            StatusView {
                valid: left > 0,
                error: None,
                expires_at: rfc3339(exp),
                seconds_remaining: left,
            }
        },
    }
}

/// The status as JSON: an error and an expiry only where there is one.
pub open spec fn status_tree(status: StatusView) -> JsonTree {
    let valid = Map::<Seq<char>, JsonTree>::empty().insert("valid"@, JsonTree::Bool(status.valid));
    let error = match status.error {
        Some(message) => valid.insert("error"@, JsonTree::Str(message)),
        None => valid,
    };
    let expiry = match status.expires_at {
        Some(time) => error.insert("expires_at"@, JsonTree::Str(time)),
        None => error,
    };
    JsonTree::Object(
        expiry.insert("seconds_remaining"@, JsonTree::Int(status.seconds_remaining as int)),
    )
}

impl TokenStatus {
    /// The status as JSON.
    pub fn to_json(&self) -> (json: Json)
        ensures
            json.tree() == status_tree(self@),
    {
        let mut json = Json::object().with("valid", Json::Bool(self.valid));
        if let Some(message) = &self.error {
            json = json.with("error", Json::text(message.as_str()));
        }
        if let Some(time) = &self.expires_at {
            json = json.with("expires_at", Json::text(time.as_str()));
        }
        json.with("seconds_remaining", Json::integer(self.seconds_remaining))
    }
}

/// The status of `token` at `now`.
pub fn token_status_at(token: &str, now: i64) -> (status: TokenStatus)
    ensures
        status@ == status_at(token@, now),
{
    let claims = match decode_jwt_payload(token) {
        Ok(claims) => claims,
        Err(message) => {
            let mut error = "Cannot decode access token: ".to_owned();
            error.append(message.as_str());
            return TokenStatus {
                valid: false,
                error: Some(error),
                expires_at: None,
                seconds_remaining: 0,
            };
        },
    };
    if !is_substrate_token_claims(&claims) {
        return TokenStatus {
            valid: false,
            error: Some("Access token is not a substrate.office.com token.".to_owned()),
            expires_at: None,
            seconds_remaining: 0,
        };
    }
    let exp: i64 = match claims.get_i64("exp") {
        Some(exp) => exp,
        None => 0,
    };
    let left: i64 = exp.wrapping_sub(now);
    let seconds_remaining: i64 = if left > 0 {
        left
    } else {
        0
    };
    TokenStatus {
        valid: seconds_remaining > 0,
        error: None,
        expires_at: utc_text(exp),
        seconds_remaining,
    }
}

/// The token in memory, and the environment file that it is read from again when the file
/// changes. Times of change are in nanoseconds since the Unix epoch.
pub struct AccessTokenStore {
    token: String,
    env_path: String,
    mtime_ns: Option<u128>,
}

impl AccessTokenStore {
    /// The token.
    pub closed spec fn token(self) -> Seq<char> {
        self.token@
    }

    /// The path of the environment file.
    pub closed spec fn path(self) -> Seq<char> {
        self.env_path@
    }

    /// When the file had last changed as it was read.
    pub closed spec fn changed(self) -> Option<u128> {
        self.mtime_ns
    }

    /// The token after the file was looked at, which last changed at `mtime` and reads `file`.
    pub open spec fn token_after(self, mtime: Option<u128>, file: Option<Seq<char>>) -> Seq<char> {
        if self.stale(mtime) && file is Some && env_token(file->0) is Some {
            env_token(file->0)->0
        } else {
            self.token()
        }
    }

    /// The file has changed since it was read.
    pub open spec fn stale(self, mtime: Option<u128>) -> bool {
        mtime is Some && mtime != self.changed()
    }

    /// A store that holds `token`, for an environment file that last changed at `mtime`.
    pub fn new(token: String, env_path: &str, mtime: Option<u128>) -> (store: Self)
        ensures
            store.token() == token@,
            store.path() == env_path@,
            store.changed() == mtime,
    {
        AccessTokenStore { token, env_path: env_path.to_owned(), mtime_ns: mtime }
    }

    /// The path of the environment file.
    pub fn env_path(&self) -> (path: &str)
        ensures
            path@ == self.path(),
    {
        self.env_path.as_str()
    }

    /// Whether the file, which last changed at `mtime`, has to be read again.
    pub fn needs_reload(&self, mtime: Option<u128>) -> (b: bool)
        ensures
            b == self.stale(mtime),
    {
        match mtime {
            Some(new) => match self.mtime_ns {
                Some(old_time) => new != old_time,
                None => true,
            },
            None => false,
        }
    }

    /// Takes the token out of the file, where the file has changed and holds one.
    pub fn reload_if_changed(&mut self, mtime: Option<u128>, file: Option<&str>)
        ensures
            final(self).token() == old(self).token_after(mtime, text::text_view(file)),
            final(self).path() == old(self).path(),
            final(self).changed() == if old(self).stale(mtime) && file is Some && env_token(
                file->0@,
            ) is Some {
                mtime
            } else {
                old(self).changed()
            },
    {
        if !self.needs_reload(mtime) {
            return;
        }
        if let Some(contents) = file {
            if let Some(token) = read_env_token(contents) {
                self.token = token;
                self.mtime_ns = mtime;
            }
        }
    }

    /// The token, after the file was looked at.
    pub fn get(&mut self, mtime: Option<u128>, file: Option<&str>) -> (token: String)
        ensures
            token@ == old(self).token_after(mtime, text::text_view(file)),
            final(self).token() == token@,
            final(self).path() == old(self).path(),
            final(self).changed() == if old(self).stale(mtime) && file is Some && env_token(
                file->0@,
            ) is Some {
                mtime
            } else {
                old(self).changed()
            },
    {
        self.reload_if_changed(mtime, file);
        self.token.clone()
    }

    /// The status of the token at `now`, after the file was looked at.
    pub fn status(&mut self, mtime: Option<u128>, file: Option<&str>, now: i64) -> (status:
        TokenStatus)
        ensures
            status@ == status_at(old(self).token_after(mtime, text::text_view(file)), now),
            final(self).token() == old(self).token_after(mtime, text::text_view(file)),
            final(self).path() == old(self).path(),
            final(self).changed() == if old(self).stale(mtime) && file is Some && env_token(
                file->0@,
            ) is Some {
                mtime
            } else {
                old(self).changed()
            },
    {
        let token = self.get(mtime, file);
        token_status_at(token.as_str(), now)
    }
}

// ---------------------------------------------------------------------------------------------
// Laws
// ---------------------------------------------------------------------------------------------

/// A token is reported as valid exactly where none has to be got, as of the same time. A token
/// that names no expiry is reported as one that expires at the Unix epoch, which has to be past.
pub proof fn law_valid_iff_not_needed(token: Seq<char>, now: i64)
    requires
        substrate_token(token) && remaining_at(token, now) is Err ==> left_until(0, now) <= 0,
    ensures
        status_at(token, now).valid <==> !token_needed_at(Some(token), now),
{
}

/// A Substrate token is valid exactly until it expires.
pub proof fn law_valid_until_expiry(token: Seq<char>, now: i64, claims: JsonTree, exp: i64)
    requires
        jwt_claims(token) == Ok::<JsonTree, Seq<char>>(claims),
        substrate_claims(claims),
        claims.signed_member("exp"@) == Some(exp),
        i64::MIN <= exp - now <= i64::MAX,
    ensures
        status_at(token, now).valid <==> now < exp,
        now < exp ==> status_at(token, now).seconds_remaining == exp - now,
        now >= exp ==> status_at(token, now).seconds_remaining == 0,
{
}

/// An unusable token says why, and lasts no time.
pub proof fn law_refused_token_says_why(token: Seq<char>, now: i64)
    requires
        !substrate_token(token),
    ensures
        !status_at(token, now).valid,
        status_at(token, now).error is Some,
        status_at(token, now).expires_at is None,
        status_at(token, now).seconds_remaining == 0,
{
}

/// After a file was read, looking at it again without a change keeps the token.
pub proof fn law_unchanged_file_is_not_read(
    store: AccessTokenStore,
    mtime: Option<u128>,
    file: Option<Seq<char>>,
)
    requires
        mtime == store.changed(),
    ensures
        store.token_after(mtime, file) == store.token(),
{
}

// ---------------------------------------------------------------------------------------------
// Reading back what was written
// ---------------------------------------------------------------------------------------------

/// White space at the end of a line does not matter to trimming.
proof fn lemma_trimmed_push(s: Seq<char>, c: char)
    requires
        text::white_space(c),
    ensures
        text::trimmed(s.push(c)) == text::trimmed(s),
    decreases s.len(),
{
    let longer = s.push(c);
    if s.len() == 0 {
        assert(longer.drop_first() =~= s);
        reveal_with_fuel(text::trimmed_start, 2);
    } else if text::white_space(s.first()) {
        assert(longer.drop_first() =~= s.drop_first().push(c));
        lemma_trimmed_push(s.drop_first(), c);
    } else {
        assert(longer.drop_last() =~= s);
    }
}

/// The carriage return that ends a line does not matter to what it assigns.
proof fn lemma_assigned_without_return(line: Seq<char>)
    ensures
        assigned(text::without_return(line)) == assigned(line),
{
    if line.len() > 0 && line.last() == '\r' {
        lemma_trimmed_push(line.drop_last(), '\r');
        assert(line.drop_last().push('\r') =~= line);
    }
}

/// Of two lists of lines, the second counts where the first assigns nothing.
proof fn lemma_first_assigned_concat(a: Seq<Seq<char>>, b: Seq<Seq<char>>)
    ensures
        first_assigned(a + b) == if first_assigned(a) is Some {
            first_assigned(a)
        } else {
            first_assigned(b)
        },
    decreases a.len(),
{
    if a.len() == 0 {
        assert(a + b =~= b);
    } else {
        assert((a + b).drop_first() =~= a.drop_first() + b);
        lemma_first_assigned_concat(a.drop_first(), b);
    }
}

/// One line alone counts for itself.
proof fn lemma_first_assigned_one(line: Seq<char>)
    ensures
        first_assigned(seq![line]) == assigned(line),
{
    assert(seq![line].drop_first() =~= Seq::<Seq<char>>::empty());
    reveal_with_fuel(first_assigned, 2);
}

/// A text without line feed is at most one line.
proof fn lemma_one_line(s: Seq<char>)
    requires
        !s.contains('\n'),
    ensures
        env_token(s) == assigned(s),
{
    text::lemma_first_of(s, '\n');
    if text::first_of(s, '\n') < s.len() {
        assert(s[text::first_of(s, '\n')] == '\n');
    }
    if s.len() == 0 {
        assert(text::trimmed(s).len() == 0);
    } else {
        lemma_first_assigned_one(s);
    }
}

/// Of a text, what follows a line feed counts where what precedes it assigns nothing.
proof fn lemma_env_token_concat(a: Seq<char>, b: Seq<char>)
    ensures
        env_token(a + "\n"@ + b) == if env_token(a) is Some {
            env_token(a)
        } else {
            env_token(b)
        },
    decreases a.len(),
{
    reveal_strlit("\n");
    let whole = a + "\n"@ + b;
    assert(whole[a.len() as int] == '\n');
    text::lemma_first_of(a, '\n');
    let at = text::first_of(a, '\n');
    assert(forall|i: int| 0 <= i < at ==> whole[i] == a[i]);
    assert(whole[at] == '\n');
    text::lemma_first_of_is(whole, '\n', at);
    if at >= a.len() {
        assert(!a.contains('\n'));
        lemma_one_line(a);
        assert(whole.take(at) =~= a);
        assert(whole.skip(at + 1) =~= b);
        lemma_assigned_without_return(a);
        lemma_first_assigned_concat(seq![text::without_return(a)], text::text_lines(b));
        lemma_first_assigned_one(text::without_return(a));
    } else {
        let rest = a.skip(at + 1);
        let head = seq![text::without_return(a.take(at))];
        assert(whole.take(at) =~= a.take(at));
        assert(whole.skip(at + 1) =~= rest + "\n"@ + b);
        lemma_env_token_concat(rest, b);
        lemma_first_assigned_concat(head, text::text_lines(rest));
        lemma_first_assigned_concat(head, text::text_lines(rest + "\n"@ + b));
    }
}

/// No line holds a line feed.
proof fn lemma_lines_have_no_feed(s: Seq<char>)
    ensures
        forall|i: int|
            0 <= i < text::text_lines(s).len() ==> !(#[trigger] text::text_lines(s)[i]).contains(
                '\n',
            ),
    decreases s.len(),
{
    text::lemma_first_of(s, '\n');
    let at = text::first_of(s, '\n');
    if s.len() == 0 {
    } else if at >= s.len() {
        assert(!s.contains('\n'));
    } else {
        let rest = s.skip(at + 1);
        lemma_lines_have_no_feed(rest);
        let head = text::without_return(s.take(at));
        assert(!head.contains('\n')) by {
            if head.contains('\n') {
                let i = choose|i: int| 0 <= i < head.len() && head[i] == '\n';
                assert(s[i] == '\n');
            }
        }
        assert forall|i: int| 0 <= i < text::text_lines(s).len() implies !(
        #[trigger] text::text_lines(s)[i]).contains('\n') by {
            if i > 0 {
                assert(text::text_lines(s)[i] == text::text_lines(rest)[i - 1]);
            }
        }
    }
}

/// Joined lines hold the token that the first assigning one assigns.
proof fn lemma_joined_env_token(lines: Seq<Seq<char>>)
    requires
        forall|i: int| 0 <= i < lines.len() ==> !(#[trigger] lines[i]).contains('\n'),
    ensures
        env_token(text::joined(lines, "\n"@)) == first_assigned(lines),
    decreases lines.len(),
{
    if lines.len() == 0 {
        assert(text::text_lines(Seq::<char>::empty()) =~= Seq::<Seq<char>>::empty());
    } else {
        let init = lines.drop_last();
        let last = lines.last();
        assert(!lines[lines.len() - 1].contains('\n'));
        assert forall|i: int| 0 <= i < init.len() implies !(#[trigger] init[i]).contains('\n') by {
            assert(!lines[i].contains('\n'));
        }
        lemma_joined_env_token(init);
        lemma_one_line(last);
        lemma_first_assigned_concat(init, seq![last]);
        assert(init + seq![last] =~= lines);
        lemma_first_assigned_one(last);
        if lines.len() > 1 {
            lemma_env_token_concat(text::joined(init, "\n"@), last);
        } else {
            assert(init =~= Seq::<Seq<char>>::empty());
        }
    }
}

/// The token can be written as it is: it holds no line feed, no white space and no pair of
/// quotes around it.
pub open spec fn storable(token: Seq<char>) -> bool {
    !token.contains('\n') && clean_value(token) == token
}

/// No line assigns another token than `token` before the first one that is overwritten.
pub open spec fn overwritten_first(lines: Seq<Seq<char>>, token: Seq<char>) -> bool
    decreases lines.len(),
{
    ||| lines.len() == 0
    ||| active_line(lines.first())
    ||| assigned(lines.first()) == Some(token)
    ||| assigned(lines.first()) is None && overwritten_first(lines.drop_first(), token)
}

/// The token that the file holds is `token` or one that is overwritten.
pub open spec fn overwritable(file: Option<Seq<char>>, token: Seq<char>) -> bool {
    file matches Some(existing) ==> overwritten_first(text::text_lines(existing), token)
}

/// The line that holds a token assigns it, and is one that is overwritten later.
proof fn lemma_token_line(token: Seq<char>)
    requires
        storable(token),
    ensures
        assigned(token_line(token)) == Some(token),
        active_line(token_line(token)),
        !token_line(token).contains('\n'),
{
    reveal_strlit("M365_ACCESS_TOKEN");
    reveal_strlit("=");
    let line = token_line(token);
    let name = TOKEN_VARIABLE@;
    assert(name.len() == 17);
    text::lemma_trimmed(token);
    assert(text::trimmed(token) == token);
    assert(line[0] == 'M');
    assert(line[17] == '=');
    assert(line.last() == if token.len() > 0 {
        token.last()
    } else {
        '='
    });
    text::lemma_trimmed_fixed(line);
    assert forall|i: int| 0 <= i < 17 implies line[i] != '=' && line[i] != '\n' by {
        assert(line[i] == name[i]);
    }
    text::lemma_first_of_is(line, '=', 17);
    assert(line.take(17) =~= name);
    assert(line.skip(18) =~= token);
    text::lemma_trimmed_fixed(name);
    assert(line.take(18) =~= name + "="@);
    assert(!line.contains('\n')) by {
        if line.contains('\n') {
            let i = choose|i: int| 0 <= i < line.len() && line[i] == '\n';
            assert(i >= 18);
            assert(token[i - 18] == '\n');
        }
    }
}

/// Where no line assigns another token before one that is overwritten, overwriting leaves the
/// new one.
proof fn lemma_overwritten(lines: Seq<Seq<char>>, token: Seq<char>)
    requires
        storable(token),
        has_active_line(lines),
        overwritten_first(lines, token),
    ensures
        first_assigned(overwritten(lines, token)) == Some(token),
    decreases lines.len(),
{
    lemma_token_line(token);
    let new = overwritten(lines, token);
    let rest = lines.drop_first();
    if !active_line(lines.first()) && assigned(lines.first()) is None {
        let at = choose|i: int| 0 <= i < lines.len() && active_line(#[trigger] lines[i]);
        assert(active_line(rest[at - 1]));
        lemma_overwritten(rest, token);
        assert(new.drop_first() =~= overwritten(rest, token));
    }
}

/// Reading gives back what was written, into a new file and into an old one. In the old file no
/// line may assign another token before one that writing overwrites: `M365_ACCESS_TOKEN = old`,
/// with a space before the equals sign, is read and not overwritten.
pub proof fn law_written_token_is_read_back(file: Option<Seq<char>>, token: Seq<char>)
    requires
        storable(token),
        overwritable(file, token),
    ensures
        env_token(env_with_token(file, token)) == Some(token),
{
    reveal_strlit("\n");
    lemma_token_line(token);
    let line = token_line(token);
    let none = Seq::<char>::empty();
    lemma_one_line(line);
    lemma_env_token_concat(line, none);
    assert(line + "\n"@ + none =~= line + "\n"@);
    if let Some(existing) = file {
        let lines = text::text_lines(existing);
        if has_active_line(lines) {
            lemma_lines_have_no_feed(existing);
            let new = overwritten(lines, token);
            assert forall|i: int| 0 <= i < new.len() implies !(#[trigger] new[i]).contains('\n') by {
                assert(!lines[i].contains('\n'));
            }
            lemma_joined_env_token(new);
            lemma_overwritten(lines, token);
        } else {
            lemma_nothing_else_assigned(lines, token);
            if existing.len() == 0 {
                assert(existing + line + "\n"@ =~= line + "\n"@);
            } else if existing.last() == '\n' {
                let before = existing.drop_last();
                assert(existing =~= before + "\n"@);
                lemma_env_token_concat(before, none);
                assert(before + "\n"@ + none =~= existing);
                lemma_env_token_concat(before, line + "\n"@);
                assert(before + "\n"@ + (line + "\n"@) =~= existing + line + "\n"@);
            } else {
                lemma_env_token_concat(existing, line + "\n"@);
                assert(existing + "\n"@ + (line + "\n"@) =~= existing + "\n"@ + line + "\n"@);
            }
        }
    }
}

/// A store that looks at its file after a token was written to it hands out that token.
pub proof fn law_store_hands_out_written_token(
    store: AccessTokenStore,
    mtime: Option<u128>,
    file: Option<Seq<char>>,
    token: Seq<char>,
)
    requires
        store.stale(mtime),
        storable(token),
        overwritable(file, token),
    ensures
        store.token_after(mtime, Some(env_with_token(file, token))) == token,
{
    law_written_token_is_read_back(file, token);
}

/// Where no line is overwritten, and none assigns another token before one that is, none does.
proof fn lemma_nothing_else_assigned(lines: Seq<Seq<char>>, token: Seq<char>)
    requires
        !has_active_line(lines),
        overwritten_first(lines, token),
    ensures
        first_assigned(lines) is None || first_assigned(lines) == Some(token),
    decreases lines.len(),
{
    if lines.len() > 0 {
        let rest = lines.drop_first();
        assert(!active_line(lines[0]));
        assert(!has_active_line(rest)) by {
            assert forall|i: int| 0 <= i < rest.len() implies !active_line(#[trigger] rest[i]) by {
                assert(rest[i] == lines[i + 1]);
            }
        }
        if assigned(lines.first()) is None {
            lemma_nothing_else_assigned(rest, token);
        }
    }
}

// ---------------------------------------------------------------------------------------------
// What writing keeps, and what reading takes
// ---------------------------------------------------------------------------------------------

/// The line assigns the token: apart from white space, it begins with the variable and an equals
/// sign.
pub open spec fn holds_token(line: Seq<char>) -> bool {
    text::begins_with(text::trimmed(line), "M365_ACCESS_TOKEN="@)
}

/// `out` has the lines of `lines`, each at its place; only those that assign the token are
/// others, and assign `token`.
pub open spec fn keeps_other_lines(
    lines: Seq<Seq<char>>,
    out: Seq<Seq<char>>,
    token: Seq<char>,
) -> bool {
    &&& out.len() == lines.len()
    &&& forall|i: int| 0 <= i < lines.len() && !holds_token(lines[i]) ==> #[trigger] out[i] == lines[i]
    &&& forall|i: int|
        0 <= i < lines.len() && holds_token(lines[i]) ==> #[trigger] out[i]
            == "M365_ACCESS_TOKEN="@ + token
}

/// The marker of the lines that are overwritten.
proof fn lemma_marker()
    ensures
        TOKEN_VARIABLE@ + "="@ == "M365_ACCESS_TOKEN="@,
        forall|line: Seq<char>| #[trigger] active_line(line) == holds_token(line),
        forall|token: Seq<char>| #[trigger] token_line(token) == "M365_ACCESS_TOKEN="@ + token,
{
    reveal_strlit("M365_ACCESS_TOKEN");
    reveal_strlit("=");
    reveal_strlit("M365_ACCESS_TOKEN=");
    assert(TOKEN_VARIABLE@ + "="@ =~= "M365_ACCESS_TOKEN="@);
}

/// Writing a token keeps every line that does not assign it, as it is and where it is. Where some
/// line assigns it, these lines alone are replaced; where none does, the file stays whole and a
/// line is added behind it; a new file has that line alone.
pub proof fn law_writing_keeps_every_other_line(file: Seq<char>, token: Seq<char>)
    ensures
        (exists|i: int| 0 <= i < text::text_lines(file).len() && holds_token(
            #[trigger] text::text_lines(file)[i],
        )) ==> exists|out: Seq<Seq<char>>|
            keeps_other_lines(text::text_lines(file), out, token) && env_with_token(
                Some(file),
                token,
            ) == #[trigger] text::joined(out, "\n"@),
        (forall|i: int|
            0 <= i < text::text_lines(file).len() ==> !holds_token(
                #[trigger] text::text_lines(file)[i],
            )) ==> env_with_token(Some(file), token) == file + (if file.len() == 0 || file.last()
            == '\n' {
            Seq::<char>::empty()
        } else {
            "\n"@
        }) + "M365_ACCESS_TOKEN="@ + token + "\n"@,
        env_with_token(None, token) == "M365_ACCESS_TOKEN="@ + token + "\n"@,
{
    lemma_marker();
    let lines = text::text_lines(file);
    if has_active_line(lines) {
        let at = choose|i: int| 0 <= i < lines.len() && active_line(#[trigger] lines[i]);
        assert(holds_token(lines[at]));
        let out = overwritten(lines, token);
        assert(keeps_other_lines(lines, out, token));
        assert(env_with_token(Some(file), token) == text::joined(out, "\n"@));
    } else {
        assert(!exists|i: int| 0 <= i < lines.len() && holds_token(#[trigger] lines[i])) by {
            assert forall|i: int| 0 <= i < lines.len() implies !holds_token(#[trigger] lines[i]) by {
                assert(!active_line(lines[i]));
            }
        }
        assert(env_with_token(Some(file), token) =~= file + (if file.len() == 0 || file.last()
            == '\n' {
            Seq::<char>::empty()
        } else {
            "\n"@
        }) + "M365_ACCESS_TOKEN="@ + token + "\n"@);
    }
}

/// The same read from the text that was written: between its line feeds, the lines of the file
/// stand at their places, and only those that assigned the token are others.
pub proof fn law_other_lines_are_read_back(file: Seq<char>, token: Seq<char>, at: int)
    requires
        !token.contains('\n'),
        0 <= at < text::text_lines(file).len(),
    ensures
        ({
            let line = text::text_lines(file)[at];
            let written = text::pieces(env_with_token(Some(file), token), '\n');
            &&& at < written.len()
            &&& !holds_token(line) ==> text::without_return(written[at]) == line || written[at]
                == line
            &&& holds_token(line) ==> written[at] == "M365_ACCESS_TOKEN="@ + token
        }),
{
    lemma_marker();
    reveal_strlit("\n");
    assert("\n"@ =~= seq!['\n']);
    let lines = text::text_lines(file);
    lemma_lines_have_no_feed(file);
    if has_active_line(lines) {
        let out = overwritten(lines, token);
        reveal_strlit("M365_ACCESS_TOKEN=");
        let line = "M365_ACCESS_TOKEN="@ + token;
        assert(!line.contains('\n')) by {
            if line.contains('\n') {
                let i = choose|i: int| 0 <= i < line.len() && line[i] == '\n';
                assert(i >= 18);
                assert(token[i - 18] == '\n');
            }
        }
        assert forall|i: int| 0 <= i < out.len() implies !(#[trigger] out[i]).contains('\n') by {
            assert(!lines[i].contains('\n'));
        }
        text::lemma_pieces_joined(out, '\n');
    } else {
        assert(!active_line(lines[at]));
        lemma_lines_among_pieces(file, at);
        let written = env_with_token(Some(file), token);
        let line = token_line(token);
        if file.last() == '\n' {
            let before = file.drop_last();
            let none = Seq::<char>::empty();
            assert(file =~= before.push('\n') + none);
            assert(written =~= before.push('\n') + (line + "\n"@));
            text::lemma_pieces_concat(before, line + "\n"@, '\n');
            text::lemma_pieces_concat(before, none, '\n');
            assert(text::pieces(none, '\n') =~= seq![none]);
            assert(lines.len() < text::pieces(file, '\n').len()) by {
                lemma_line_count(file);
            }
        } else {
            assert(written =~= file.push('\n') + (line + "\n"@));
            text::lemma_pieces_concat(file, line + "\n"@, '\n');
        }
    }
}

/// A line is what stands between two line feeds, apart from a carriage return at its end.
proof fn lemma_lines_among_pieces(s: Seq<char>, at: int)
    requires
        0 <= at < text::text_lines(s).len(),
    ensures
        at < text::pieces(s, '\n').len(),
        ({
            let piece = text::pieces(s, '\n')[at];
            text::without_return(piece) == text::text_lines(s)[at] || piece == text::text_lines(
                s,
            )[at]
        }),
    decreases s.len(),
{
    text::lemma_first_of(s, '\n');
    let end = text::first_of(s, '\n');
    if end < s.len() && at > 0 {
        lemma_lines_among_pieces(s.skip(end + 1), at - 1);
    }
}

/// There are as many lines as line feeds, and one more where something follows the last.
proof fn lemma_line_count(s: Seq<char>)
    ensures
        s.len() > 0 && s.last() == '\n' ==> text::text_lines(s).len() + 1 == text::pieces(
            s,
            '\n',
        ).len(),
        s.len() > 0 && s.last() != '\n' ==> text::text_lines(s).len() == text::pieces(
            s,
            '\n',
        ).len(),
        s.len() == 0 ==> text::text_lines(s).len() == 0 && text::pieces(s, '\n').len() == 1,
    decreases s.len(),
{
    text::lemma_first_of(s, '\n');
    let end = text::first_of(s, '\n');
    if s.len() > 0 && end < s.len() {
        let rest = s.skip(end + 1);
        lemma_line_count(rest);
        if rest.len() > 0 {
            assert(rest.last() == s.last());
        }
    } else if s.len() > 0 {
        assert(s[s.len() - 1] != '\n');
    }
}

/// What a line assigns: nothing where it is blank, a comment or without an equals sign; else the
/// value behind the first equals sign, where the name before it is the variable's.
pub proof fn law_what_a_line_assigns(line: Seq<char>, name: Seq<char>, value: Seq<char>)
    ensures
        text::trimmed(line).len() == 0 ==> assigned(line) is None,
        text::trimmed(line).len() > 0 && text::trimmed(line)[0] == '#' ==> assigned(line) is None,
        !text::trimmed(line).contains('=') ==> assigned(line) is None,
        text::trimmed(line) == name.push('=') + value && !name.contains('=') && !(name.len() > 0
            && name[0] == '#') ==> assigned(line) == if text::trimmed(name)
            == "M365_ACCESS_TOKEN"@ {
            Some(clean_value(value))
        } else {
            None
        },
{
    let stripped = text::trimmed(line);
    text::lemma_first_of(stripped, '=');
    if !stripped.contains('=') && text::first_of(stripped, '=') < stripped.len() {
        assert(stripped[text::first_of(stripped, '=')] == '=');
    }
    if stripped == name.push('=') + value && !name.contains('=') {
        let n = name.len() as int;
        assert forall|i: int| 0 <= i < n implies stripped[i] != '=' by {
            assert(stripped[i] == name[i]);
        }
        assert(stripped[n] == '=');
        text::lemma_first_of_is(stripped, '=', n);
        assert(stripped.take(n) =~= name);
        assert(stripped.skip(n + 1) =~= value);
        if n > 0 {
            assert(stripped.first() == name[0]);
        }
    }
}

/// A value is taken without white space around it, and without one pair of quotes around that.
pub proof fn law_values_lose_white_space_and_quotes(value: Seq<char>, inner: Seq<char>, quote: char)
    ensures
        quote == '\'' || quote == '"' ==> clean_value(seq![quote] + inner + seq![quote]) == inner,
        clean_value(value) == clean_value(text::trimmed(value)),
        !(text::trimmed(value).len() >= 2 && text::trimmed(value).first() == text::trimmed(
            value,
        ).last() && (text::trimmed(value).first() == '\'' || text::trimmed(value).first() == '"'))
            ==> clean_value(value) == text::trimmed(value),
{
    text::lemma_trim_idempotent(value);
    if quote == '\'' || quote == '"' {
        let quoted = seq![quote] + inner + seq![quote];
        assert(quoted.last() == quote);
        text::lemma_trimmed_fixed(quoted);
        assert(quoted.subrange(1, quoted.len() - 1) =~= inner);
    }
}

/// The first line that assigns a token decides which one the file holds; a file without such a
/// line holds none.
pub proof fn law_first_assignment_counts(file: Seq<char>, at: int)
    requires
        0 <= at <= text::text_lines(file).len(),
        forall|i: int| 0 <= i < at ==> assigned(#[trigger] text::text_lines(file)[i]) is None,
        at < text::text_lines(file).len() ==> assigned(text::text_lines(file)[at]) is Some,
    ensures
        env_token(file) == if at < text::text_lines(file).len() {
            assigned(text::text_lines(file)[at])
        } else {
            None
        },
{
    lemma_first_assigned_at(text::text_lines(file), at);
}

proof fn lemma_first_assigned_at(lines: Seq<Seq<char>>, at: int)
    requires
        0 <= at <= lines.len(),
        forall|i: int| 0 <= i < at ==> assigned(#[trigger] lines[i]) is None,
        at < lines.len() ==> assigned(lines[at]) is Some,
    ensures
        first_assigned(lines) == if at < lines.len() {
            assigned(lines[at])
        } else {
            None
        },
    decreases at,
{
    if at > 0 {
        assert(assigned(lines[0]) is None);
        let rest = lines.drop_first();
        assert forall|i: int| 0 <= i < at - 1 implies assigned(#[trigger] rest[i]) is None by {
            assert(rest[i] == lines[i + 1]);
        }
        lemma_first_assigned_at(rest, at - 1);
    }
}

/// A store takes the token of its file exactly where the file has changed and holds one; in every
/// other case it keeps the token that it has.
pub proof fn law_changed_file_is_read(
    store: AccessTokenStore,
    mtime: Option<u128>,
    file: Option<Seq<char>>,
    token: Seq<char>,
)
    ensures
        mtime is Some && mtime != store.changed() && file is Some && env_token(file->0) == Some(
            token,
        ) ==> store.token_after(mtime, file) == token,
        mtime is None || mtime == store.changed() || file is None || env_token(file->0) is None
            ==> store.token_after(mtime, file) == store.token(),
{
}

/// The claims of a token are what its second piece decodes to: the pieces around it and the
/// padding behind it do not matter.
pub proof fn law_claims_are_in_the_second_piece(
    header: Seq<char>,
    payload: Seq<char>,
    rest: Seq<char>,
)
    requires
        !header.contains('.'),
        !payload.contains('.'),
        !(payload.len() > 0 && payload.last() == '='),
    ensures
        !header.contains('.') ==> jwt_claims(header) == Err::<JsonTree, Seq<char>>("invalid JWT"@),
        jwt_claims(header.push('.') + payload) == match base64_decoded(payload) {
            Ok(bytes) => json::parsed_bytes(bytes),
            Err(message) => Err(message),
        },
        jwt_claims(header.push('.') + (payload.push('.') + rest)) == jwt_claims(
            header.push('.') + payload,
        ),
        jwt_claims(header.push('.') + (payload.push('=').push('.') + rest)) == jwt_claims(
            header.push('.') + payload,
        ),
        jwt_claims(header.push('.') + (payload.push('=').push('=').push('.') + rest))
            == jwt_claims(header.push('.') + payload),
{
    lemma_one_piece(header);
    lemma_one_piece(payload);
    let one = payload.push('=');
    let two = one.push('=');
    lemma_one_piece(one);
    lemma_one_piece(two);
    text::lemma_pieces_concat(header, payload, '.');
    text::lemma_pieces_concat(header, payload.push('.') + rest, '.');
    text::lemma_pieces_concat(header, one.push('.') + rest, '.');
    text::lemma_pieces_concat(header, two.push('.') + rest, '.');
    text::lemma_pieces_concat(payload, rest, '.');
    text::lemma_pieces_concat(one, rest, '.');
    text::lemma_pieces_concat(two, rest, '.');
    assert(one.drop_last() =~= payload);
    assert(two.drop_last() =~= one);
    reveal_with_fuel(text::without_trailing, 3);
}

/// A text without a dot is one piece.
proof fn lemma_one_piece(s: Seq<char>)
    requires
        forall|i: int| 0 <= i < s.len() ==> s[i] != '.',
    ensures
        text::pieces(s, '.') == seq![s],
{
    text::lemma_first_of_is(s, '.', s.len() as int);
}

/// A token has to be got exactly where there is none, where it is not meant for
/// `https://substrate.office.com/`, where it names no expiry, and where that is not ahead.
pub proof fn law_token_needed_iff_it_does_not_last(token: Option<Seq<char>>, now: i64)
    requires
        token matches Some(t) ==> jwt_claims(t) matches Ok(claims) ==> claims.signed_member(
            "exp"@,
        ) matches Some(exp) ==> i64::MIN <= exp - now <= i64::MAX,
    ensures
        !token_needed_at(token, now) <==> {
            &&& token matches Some(t)
            &&& jwt_claims(t) matches Ok(claims)
            &&& claims.text_member("aud"@) matches Some(audience)
            &&& text::begins_with(audience, "https://substrate.office.com/"@)
            &&& claims.signed_member("exp"@) matches Some(exp)
            &&& now < exp
        },
        token_needed_by(token, Some(now)) == token_needed_at(token, now),
        token_needed_by(token, None),
{
}

/// A token lasts from now to its expiry.
pub proof fn law_token_lasts_until_its_expiry(token: Seq<char>, now: i64, claims: JsonTree)
    requires
        jwt_claims(token) == Ok::<JsonTree, Seq<char>>(claims),
    ensures
        claims.signed_member("exp"@) matches Some(exp) ==> i64::MIN <= exp - now <= i64::MAX ==> (
        remaining_at(token, now) matches Ok(left) && left == exp - now),
        claims.signed_member("exp"@) is None ==> remaining_at(token, now) is Err,
        remaining_by(token, Ok(now)) == remaining_at(token, now),
{
}

/// The status of a token says what is wrong with it, or else when it expires.
pub proof fn law_status_tells_error_or_expiry(token: Seq<char>, now: i64)
    ensures
        jwt_claims(token) matches Err(message) ==> status_at(token, now).error == Some(
            "Cannot decode access token: "@ + message,
        ),
        jwt_claims(token) matches Ok(claims) ==> !substrate_claims(claims) ==> status_at(
            token,
            now,
        ).error == Some("Access token is not a substrate.office.com token."@),
        jwt_claims(token) matches Ok(claims) ==> substrate_claims(claims) ==> {
            &&& status_at(token, now).error is None
            &&& claims.signed_member("exp"@) matches Some(exp) ==> status_at(token, now).expires_at
                == rfc3339(exp)
        },
{
}

/// A status is shown with what it holds: whether the token is valid and how long it lasts, and an
/// error and an expiry where there is one.
pub proof fn law_status_is_shown_as_it_is(status: StatusView)
    ensures
        status_tree(status).member("valid"@) == Some(JsonTree::Bool(status.valid)),
        status_tree(status).member("seconds_remaining"@) == Some(
            JsonTree::Int(status.seconds_remaining as int),
        ),
        status_tree(status).text_member("error"@) == status.error,
        status_tree(status).text_member("expires_at"@) == status.expires_at,
{
    reveal_strlit("valid");
    reveal_strlit("error");
    reveal_strlit("expires_at");
    reveal_strlit("seconds_remaining");
    assert("valid"@[0] != "error"@[0]);
    assert("valid"@.len() == 5 && "error"@.len() == 5);
    assert("expires_at"@.len() == 10 && "seconds_remaining"@.len() == 17);
    let tree = status_tree(status);
    match status.error {
        Some(message) => assert(tree.member("error"@) == Some(JsonTree::Str(message))),
        None => assert(tree.member("error"@) is None),
    }
    match status.expires_at {
        Some(time) => assert(tree.member("expires_at"@) == Some(JsonTree::Str(time))),
        None => assert(tree.member("expires_at"@) is None),
    }
}

/// What a clock reads, and how long a token lasts, are taken as they are, and so are the errors.
pub proof fn law_readings_are_taken_as_they_are(
    now: i64,
    message: String,
    wanted: Result<i64, Seq<char>>,
)
    ensures
        reading(Ok(now)) == Ok::<i64, Seq<char>>(now),
        reading(Err(message)) == Err::<i64, Seq<char>>(message@),
        lasts(Ok(now), wanted) <==> wanted == Ok::<i64, Seq<char>>(now),
        lasts(Err(message), wanted) <==> wanted == Err::<i64, Seq<char>>(message@),
{
}

} // verus!

//! Whose key a request is sent with, and to which provider.

use vstd::prelude::*;

use crate::json;
use crate::json::{Json, JsonView};
use crate::proxy::errors::{ErrorView, ProxyError};
use crate::scan;
use crate::string_map::StringMap;
use crate::text;

verus! {

/// A printable ASCII text that is not empty can be a key.
pub open spec fn is_key(s: Seq<char>) -> bool {
    s.len() > 0 && forall|i: int| 0 <= i < s.len() ==> is_key_char(#[trigger] s[i])
}

/// A printable ASCII character.
pub open spec fn is_key_char(c: char) -> bool {
    ' ' <= c <= '~'
}

/// The key of a provider's account.
pub struct ApiKey {
    key: String,
}

impl View for ApiKey {
    type V = Seq<char>;

    closed spec fn view(&self) -> Seq<char> {
        self.key@
    }
}

impl ApiKey {
    #[verifier::type_invariant]
    spec fn can_be_a_key(self) -> bool {
        is_key(self.key@)
    }

    /// The text as a key, if it can be one.
    pub fn try_from_string(raw: String) -> (key: Option<ApiKey>)
        ensures
            key is Some == is_key(raw@),
            key matches Some(k) ==> k@ == raw@,
    {
        let all = text::chars_of(raw.as_str());
        if all.len() == 0 {
            return None;
        }
        let mut i: usize = 0;
        while i < all.len()
            invariant
                0 <= i <= all@.len(),
                all@ == raw@,
                forall|j: int| 0 <= j < i ==> is_key_char(#[trigger] raw@[j]),
            decreases all@.len() - i,
        {
            if all[i] < ' ' || '~' < all[i] {
                assert(!is_key_char(raw@[i as int]));
                return None;
            }
            i += 1;
        }
        Some(ApiKey { key: raw })
    }

    /// The key itself.
    pub fn as_str(&self) -> (s: &str)
        ensures
            s@ == self@,
            is_key(s@),
    {
        proof {
            use_type_invariant(self);
        }
        self.key.as_str()
    }

    /// A copy of the key.
    pub fn copy(&self) -> (key: ApiKey)
        ensures
            key@ == self@,
    {
        proof {
            use_type_invariant(self);
        }
        ApiKey { key: self.key.clone() }
    }
}

/// What a key that may be missing says.
pub open spec fn key_view(key: Option<ApiKey>) -> Option<Seq<char>> {
    match key {
        Some(k) => Some(k@),
        None => None,
    }
}

/// A key that came in a header. One that cannot be a key is passed over.
pub open spec fn usable(raw: Seq<char>) -> Option<Seq<char>> {
    if is_key(raw) {
        Some(raw)
    } else {
        None
    }
}

/// The key in the headers of a request. An `Authorization` header of another form than
/// `Bearer` is an error, whatever else the request holds.
pub open spec fn header_key(authorization: Option<Seq<char>>, x_api_key: Option<Seq<char>>) -> Result<
    Option<Seq<char>>,
    ErrorView,
> {
    match authorization {
        Some(value) => match text::behind(value, "Bearer "@) {
            Some(raw) => Ok(usable(raw)),
            None => Err(
                ErrorView::InvalidBody("Authorization header must use 'Bearer <key>' format"@),
            ),
        },
        None => match x_api_key {
            Some(raw) => Ok(usable(raw)),
            None => Ok(None),
        },
    }
}

/// What a key or an error says.
pub open spec fn key_outcome(r: Result<Option<ApiKey>, ProxyError>) -> Result<
    Option<Seq<char>>,
    ErrorView,
> {
    match r {
        Ok(key) => Ok(key_view(key)),
        Err(e) => Err(e@),
    }
}

/// The key in the `Authorization` or the `x-api-key` header of a request.
pub fn extract_api_key(authorization: Option<&str>, x_api_key: Option<&str>) -> (r: Result<
    Option<ApiKey>,
    ProxyError,
>)
    ensures
        key_outcome(r) == header_key(json::str_view(authorization), json::str_view(x_api_key)),
{
    match authorization {
        Some(value) => match text::strip_prefix(value, "Bearer ") {
            Some(raw) => Ok(ApiKey::try_from_string(raw)),
            None => Err(
                ProxyError::InvalidBody(
                    "Authorization header must use 'Bearer <key>' format".to_owned(),
                ),
            ),
        },
        None => match x_api_key {
            Some(raw) => Ok(ApiKey::try_from_string(raw.to_owned())),
            None => Ok(None),
        },
    }
}

/// A request whose `Authorization` header is of another form than `Bearer` is refused,
/// whatever key it holds besides.
pub proof fn other_schemes_are_refused(
    authorization: Seq<char>,
    x_api_key: Option<Seq<char>>,
    other: Option<Seq<char>>,
)
    requires
        !"Bearer "@.is_prefix_of(authorization),
    ensures
        header_key(Some(authorization), x_api_key) is Err,
        header_key(Some(authorization), x_api_key) == header_key(Some(authorization), other),
{
}

/// How a provider is reached.
pub struct ProviderConfig {
    pub api_key: Option<ApiKey>,
    pub base_url: String,
    pub model: Option<String>,
    pub headers: StringMap<String>,
}

/// The provider of a request. A target that passes requests on to other providers gets them
/// all; else the provider of the model, where it is known.
pub open spec fn provider_for(passthrough: bool, kind: Option<Seq<char>>, target: Seq<char>) -> Seq<
    char,
> {
    match kind {
        Some(name) if !passthrough => name,
        _ => target,
    }
}

/// The provider of a request, given whether the configured target passes requests on to
/// other providers, and the provider that the model's name stands for.
pub fn determine_provider(passthrough: bool, kind: Option<&str>, target: &str) -> (name: String)
    ensures
        name@ == provider_for(passthrough, json::str_view(kind), target@),
{
    match kind {
        Some(name) => if passthrough {
            target.to_owned()
        } else {
            name.to_owned()
        },
        None => target.to_owned(),
    }
}

/// The key that a request is sent with: that of the request, else the configured one. Only a
/// local provider needs none.
pub open spec fn key_for(
    name: Seq<char>,
    is_local: bool,
    from_headers: Result<Option<Seq<char>>, ErrorView>,
    configured: Option<Seq<char>>,
) -> Result<Option<Seq<char>>, ErrorView> {
    match from_headers {
        Err(e) => Err(e),
        Ok(Some(key)) => Ok(Some(key)),
        Ok(None) => if configured is None && !is_local {
            Err(ErrorView::NoApiKey(name))
        } else {
            Ok(configured)
        },
    }
}

/// The key that a request is sent with.
pub fn resolve_key(
    name: &str,
    is_local: bool,
    authorization: Option<&str>,
    x_api_key: Option<&str>,
    configured: &Option<ApiKey>,
) -> (r: Result<Option<ApiKey>, ProxyError>)
    ensures
        key_outcome(r) == key_for(
            name@,
            is_local,
            header_key(json::str_view(authorization), json::str_view(x_api_key)),
            key_view(*configured),
        ),
{
    match extract_api_key(authorization, x_api_key) {
        Err(e) => Err(e),
        Ok(Some(key)) => Ok(Some(key)),
        Ok(None) => match configured {
            Some(key) => Ok(Some(key.copy())),
            None => if is_local {
                Ok(None)
            } else {
                Err(ProxyError::NoApiKey(name.to_owned()))
            },
        },
    }
}

/// The configuration of a provider and the key that a request is sent with.
pub fn resolve_provider<'a>(
    providers: &'a StringMap<ProviderConfig>,
    name: &str,
    is_local: bool,
    authorization: Option<&str>,
    x_api_key: Option<&str>,
) -> (r: Result<(&'a ProviderConfig, Option<ApiKey>), ProxyError>)
    ensures
        match r {
            Ok((provider, key)) => {
                &&& providers@.dom().contains(name@)
                &&& *provider == providers@[name@]
                &&& key_for(
                    name@,
                    is_local,
                    header_key(json::str_view(authorization), json::str_view(x_api_key)),
                    key_view(provider.api_key),
                ) == Ok::<Option<Seq<char>>, ErrorView>(key_view(key))
            },
            Err(e) => if !providers@.dom().contains(name@) {
                e@ == ErrorView::ProviderNotConfigured(name@)
            } else {
                key_for(
                    name@,
                    is_local,
                    header_key(json::str_view(authorization), json::str_view(x_api_key)),
                    key_view(providers@[name@].api_key),
                ) == Err::<Option<Seq<char>>, ErrorView>(e@)
            },
        },
{
    match providers.get(name) {
        None => Err(ProxyError::ProviderNotConfigured(name.to_owned())),
        Some(provider) => match resolve_key(
            name,
            is_local,
            authorization,
            x_api_key,
            &provider.api_key,
        ) {
            Ok(key) => Ok((provider, key)),
            Err(e) => Err(e),
        },
    }
}

/// A key of the request is used before the configured one, and a provider that is not local
/// is never called without a key.
pub proof fn keys_are_preferred_in_order(
    name: Seq<char>,
    is_local: bool,
    from_headers: Option<Seq<char>>,
    configured: Option<Seq<char>>,
)
    ensures
        from_headers is Some ==> key_for(name, is_local, Ok(from_headers), configured) == Ok::<
            Option<Seq<char>>,
            ErrorView,
        >(from_headers),
        key_for(name, is_local, Ok(from_headers), configured) matches Ok(key) ==> key is Some
            || is_local,
{
}

/// The session that a cookie names.
pub open spec fn cookie_session(cookie: Seq<char>) -> Option<Seq<char>> {
    text::behind(scan::trimmed(cookie), "anthropic_session="@)
}

/// The session that the first of some cookies names.
pub open spec fn first_session(cookies: Seq<Seq<char>>) -> Option<Seq<char>>
    decreases cookies.len(),
{
    if cookies.len() == 0 {
        None
    } else {
        match cookie_session(cookies[0]) {
            Some(id) => Some(id),
            None => first_session(cookies.drop_first()),
        }
    }
}

/// The session that a `Cookie` header names.
pub fn session_from_cookies(header: Option<&str>) -> (id: Option<String>)
    ensures
        text::opt_view(id) == (match header {
            Some(cookies) => first_session(scan::parts(cookies@, ';')),
            None => None,
        }),
{
    let list = match header {
        Some(cookies) => scan::split(cookies, ';'),
        None => {
            return None;
        },
    };
    let ghost all = text::views(list@);
    let mut i: usize = 0;
    assert(all.skip(0) =~= all);
    while i < list.len()
        invariant
            0 <= i <= list@.len(),
            header is Some,
            all == text::views(list@),
            all == scan::parts(header->0@, ';'),
            first_session(all) == first_session(all.skip(i as int)),
        decreases list@.len() - i,
    {
        let cookie = scan::trim(list[i].as_str());
        assert(all.skip(i as int)[0] == list@[i as int]@);
        assert(all.skip(i as int).drop_first() =~= all.skip(i + 1));
        if let Some(id) = text::strip_prefix(cookie.as_str(), "anthropic_session=") {
            return Some(id);
        }
        i += 1;
    }
    assert(all.skip(i as int).len() == 0);
    None
}

/// How a request to the messages endpoint is authenticated.
pub enum AnthropicAuth<S> {
    /// By a session that its cookie names.
    Oauth(S),
    /// By a key.
    ApiKey(ApiKey),
}

/// The authentication of a request to the messages endpoint, given the stored session that
/// its cookie names. The session is preferred; without one a key is needed.
pub fn resolve_anthropic_auth<S>(
    session: Option<S>,
    authorization: Option<&str>,
    x_api_key: Option<&str>,
    configured: &Option<ApiKey>,
) -> (r: Result<AnthropicAuth<S>, ProxyError>)
    ensures
        match (session, r) {
            (Some(s), Ok(AnthropicAuth::Oauth(t))) => s == t,
            (None, Ok(AnthropicAuth::ApiKey(key))) => key_for(
                "anthropic"@,
                false,
                header_key(json::str_view(authorization), json::str_view(x_api_key)),
                key_view(*configured),
            ) == Ok::<Option<Seq<char>>, ErrorView>(Some(key@)),
            (None, Err(e)) => key_for(
                "anthropic"@,
                false,
                header_key(json::str_view(authorization), json::str_view(x_api_key)),
                key_view(*configured),
            ) == Err::<Option<Seq<char>>, ErrorView>(e@),
            _ => false,
        },
{
    if let Some(s) = session {
        return Ok(AnthropicAuth::Oauth(s));
    }
    match resolve_key("anthropic", false, authorization, x_api_key, configured) {
        Ok(Some(key)) => Ok(AnthropicAuth::ApiKey(key)),
        Ok(None) => Err(ProxyError::NoApiKey("anthropic".to_owned())),
        Err(e) => Err(e),
    }
}

/// The error about a field that is missing or blank.
pub open spec fn missing_field(field: Seq<char>) -> ErrorView {
    ErrorView::InvalidBody("Missing non-empty string field '"@ + field + "'"@)
}

/// The text of a field that must be there and must not be blank.
pub open spec fn required_field(payload: JsonView, field: Seq<char>) -> Result<
    Seq<char>,
    ErrorView,
> {
    match json::str_opt(json::member(payload, field)) {
        Some(s) if !scan::is_blank(s) => Ok(s),
        _ => Err(missing_field(field)),
    }
}

fn missing(field: &str) -> (e: ProxyError)
    ensures
        e@ == missing_field(field@),
{
    let mut message = "Missing non-empty string field '".to_owned();
    message.append(field);
    message.append("'");
    ProxyError::InvalidBody(message)
}

/// The text of a field that must be there and must not be blank.
pub fn required_non_empty_payload_string<'a>(payload: &'a Json, field: &str) -> (r: Result<
    &'a str,
    ProxyError,
>)
    ensures
        match r {
            Ok(s) => required_field(payload@, field@) == Ok::<Seq<char>, ErrorView>(s@),
            Err(e) => required_field(payload@, field@) == Err::<Seq<char>, ErrorView>(e@),
        },
{
    match payload.get_str(field) {
        Some(s) => if scan::blank(s) {
            Err(missing(field))
        } else {
            Ok(s)
        },
        None => Err(missing(field)),
    }
}

/// An authorization code, and the state that may follow it behind a `#`.
pub open spec fn auth_code(raw: Seq<char>) -> (Seq<char>, Option<Seq<char>>) {
    match scan::cut_at(raw, "#"@) {
        Some((code, state)) => (code, Some(state)),
        None => (raw, None),
    }
}

/// The code and the state that a submitted form holds. A state behind the code is used
/// before the one in a field of its own. Neither may be blank.
pub open spec fn device_fields(payload: JsonView) -> Result<(Seq<char>, Seq<char>), ErrorView> {
    match required_field(payload, "code"@) {
        Err(e) => Err(e),
        Ok(raw) => {
            let (code, state) = auth_code(raw);
            if scan::is_blank(code) {
                Err(missing_field("code"@))
            } else {
                match state {
                    Some(state) => if scan::is_blank(state) {
                        Err(missing_field("state"@))
                    } else {
                        Ok((code, state))
                    },
                    None => match required_field(payload, "state"@) {
                        Ok(state) => Ok((code, state)),
                        Err(e) => Err(e),
                    },
                }
            }
        },
    }
}

/// An authorization code, and the state that may follow it behind a `#`.
pub fn parse_auth_code(raw: &str) -> (r: (String, Option<String>))
    ensures
        (r.0@, text::opt_view(r.1)) == auth_code(raw@),
{
    match scan::split_once(raw, "#") {
        Some((code, state)) => (code, Some(state)),
        None => (raw.to_owned(), None),
    }
}

/// The code and the state that a submitted form holds.
pub fn extract_device_submit_fields(payload: &Json) -> (r: Result<(String, String), ProxyError>)
    ensures
        match r {
            Ok((code, state)) => device_fields(payload@) == Ok::<(Seq<char>, Seq<char>), ErrorView>(
                (code@, state@),
            ),
            Err(e) => device_fields(payload@) == Err::<(Seq<char>, Seq<char>), ErrorView>(e@),
        },
{
    let raw = match required_non_empty_payload_string(payload, "code") {
        Ok(raw) => raw,
        Err(e) => {
            return Err(e);
        },
    };
    let (code, state) = parse_auth_code(raw);
    if scan::blank(code.as_str()) {
        return Err(missing("code"));
    }
    match state {
        Some(state) => if scan::blank(state.as_str()) {
            Err(missing("state"))
        } else {
            Ok((code, state))
        },
        None => match required_non_empty_payload_string(payload, "state") {
            Ok(state) => Ok((code, state.to_owned())),
            Err(e) => Err(e),
        },
    }
}

/// Neither the code nor the state of an accepted form is blank.
pub proof fn accepted_fields_hold_something(payload: JsonView)
    ensures
        device_fields(payload) matches Ok((code, state)) ==> !scan::is_blank(code)
            && !scan::is_blank(state),
{
}

/// What stands behind `Bearer ` is the key, if it is all printable and not empty; a key in the
/// other header counts only where there is no authorization.
pub proof fn bearer_keys_are_read(key: Seq<char>, other: Option<Seq<char>>, i: int)
    ensures
        key.len() > 0 && (forall|k: int| 0 <= k < key.len() ==> ' ' <= #[trigger] key[k] <= '~')
            ==> header_key(Some("Bearer "@ + key), other) == Ok::<Option<Seq<char>>, ErrorView>(
            Some(key),
        ) && header_key(None, Some(key)) == Ok::<Option<Seq<char>>, ErrorView>(Some(key)),
        key.len() == 0 ==> header_key(Some("Bearer "@ + key), other) == Ok::<
            Option<Seq<char>>,
            ErrorView,
        >(None),
        0 <= i < key.len() && !(' ' <= key[i] <= '~') ==> header_key(Some("Bearer "@ + key), other)
            == Ok::<Option<Seq<char>>, ErrorView>(None) && header_key(None, Some(key)) == Ok::<
            Option<Seq<char>>,
            ErrorView,
        >(None),
        header_key(None, None) == Ok::<Option<Seq<char>>, ErrorView>(None),
{
    let bearer = "Bearer "@;
    let value = bearer + key;
    assert(value.subrange(0, bearer.len() as int) =~= bearer);
    assert(value.skip(bearer.len() as int) =~= key);
    if 0 <= i < key.len() && !(' ' <= key[i] <= '~') {
        assert(!is_key_char(key[i]));
    }
    if forall|k: int| 0 <= k < key.len() ==> ' ' <= #[trigger] key[k] <= '~' {
        assert forall|k: int| 0 <= k < key.len() implies is_key_char(#[trigger] key[k]) by {}
    }
}

/// The configured key is what is used where the client sends none; only a local provider does
/// without, and another is refused under its name. A bad header is refused whatever is
/// configured.
pub proof fn the_configured_key_stands_in(
    name: Seq<char>,
    key: Seq<char>,
    e: ErrorView,
    configured: Option<Seq<char>>,
)
    ensures
        key_for(name, true, Ok(None), Some(key)) == Ok::<Option<Seq<char>>, ErrorView>(Some(key)),
        key_for(name, false, Ok(None), Some(key)) == Ok::<Option<Seq<char>>, ErrorView>(Some(key)),
        key_for(name, true, Ok(None), None) == Ok::<Option<Seq<char>>, ErrorView>(None),
        key_for(name, false, Ok(None), None) == Err::<Option<Seq<char>>, ErrorView>(
            ErrorView::NoApiKey(name),
        ),
        key_for(name, true, Err(e), configured) == Err::<Option<Seq<char>>, ErrorView>(e),
        key_for(name, false, Err(e), configured) == Err::<Option<Seq<char>>, ErrorView>(e),
{
}

/// A request goes to the provider that its model stands for, unless requests are passed through
/// or the model stands for none: then it goes to the target.
pub proof fn models_choose_their_provider(name: Seq<char>, target: Seq<char>)
    ensures
        provider_for(false, Some(name), target) == name,
        provider_for(true, Some(name), target) == target,
        provider_for(false, None, target) == target,
        provider_for(true, None, target) == target,
{
}

/// The session is what the first cookie of that name holds, wherever it stands among the
/// others and whatever white space is around it.
pub proof fn the_session_cookie_is_found(cookies: Seq<Seq<char>>, i: int, id: Seq<char>)
    requires
        0 <= i < cookies.len(),
        scan::trimmed(cookies[i]) == "anthropic_session="@ + id,
        forall|j: int|
            0 <= j < i ==> !"anthropic_session="@.is_prefix_of(
                scan::trimmed(#[trigger] cookies[j]),
            ),
    ensures
        first_session(cookies) == Some(id),
    decreases i,
{
    let name = "anthropic_session="@;
    let whole = name + id;
    if i == 0 {
        assert(whole.subrange(0, name.len() as int) =~= name);
        assert(whole.skip(name.len() as int) =~= id);
    } else {
        assert(!name.is_prefix_of(scan::trimmed(cookies[0])));
        let rest = cookies.drop_first();
        assert(rest[i - 1] == cookies[i]);
        assert forall|j: int| 0 <= j < i - 1 implies !name.is_prefix_of(
            scan::trimmed(#[trigger] rest[j]),
        ) by {
            assert(rest[j] == cookies[j + 1]);
        }
        the_session_cookie_is_found(rest, i - 1, id);
    }
}

/// Without a cookie of that name there is no session.
pub proof fn other_cookies_are_no_session(cookies: Seq<Seq<char>>)
    requires
        forall|j: int|
            0 <= j < cookies.len() ==> !"anthropic_session="@.is_prefix_of(
                scan::trimmed(#[trigger] cookies[j]),
            ),
    ensures
        first_session(cookies) is None,
    decreases cookies.len(),
{
    if cookies.len() > 0 {
        assert(!"anthropic_session="@.is_prefix_of(scan::trimmed(cookies[0])));
        let rest = cookies.drop_first();
        assert forall|j: int| 0 <= j < rest.len() implies !"anthropic_session="@.is_prefix_of(
            scan::trimmed(#[trigger] rest[j]),
        ) by {
            assert(rest[j] == cookies[j + 1]);
        }
        other_cookies_are_no_session(rest);
    }
}

/// A code is cut at its first `#`: what stands ahead is the code, what stands behind the state.
/// Without one the whole is the code.
pub proof fn codes_are_cut_at_the_hash(code: Seq<char>, state: Seq<char>)
    requires
        !code.contains('#'),
    ensures
        auth_code(code + "#"@ + state) == (code, Some(state)),
        auth_code(code) == (code, None::<Seq<char>>),
{
    reveal_strlit("#");
    let raw = code + "#"@ + state;
    scan::texts_are_cut_at_the_first_place(raw, "#"@);
    scan::texts_are_cut_at_the_first_place(code, "#"@);
    scan::lemma_part_occurs(code, "#"@, state);
    let (a, b) = scan::cut_at(raw, "#"@)->0;
    if a.len() < code.len() {
        assert(raw[a.len() as int] == "#"@[0]);
        assert(code[a.len() as int] == '#');
    }
    if a.len() > code.len() {
        assert(raw.subrange(code.len() as int, code.len() + 1int) =~= "#"@);
        assert(scan::stands_at(raw, "#"@, code.len() as int));
    }
    assert(a =~= raw.take(a.len() as int));
    assert(code =~= raw.take(code.len() as int));
    assert(b =~= raw.skip(a.len() + 1int));
    assert(state =~= raw.skip(code.len() + 1int));
    if scan::occurs(code, "#"@) {
        let i = choose|i: int| scan::stands_at(code, "#"@, i);
        assert(code.subrange(i, i + 1)[0] == code[i]);
        assert(code[i] == '#');
    }
}

/// A field is what the payload says under its name, if that is a text that is not blank;
/// otherwise the error names the field.
pub proof fn required_fields_are_read(payload: JsonView, field: Seq<char>, value: Seq<char>)
    ensures
        json::member(payload, field) == Some(JsonView::Str(value)) && !scan::is_blank(value)
            ==> required_field(payload, field) == Ok::<Seq<char>, ErrorView>(value),
        json::member(payload, field) == Some(JsonView::Str(value)) && scan::is_blank(value)
            ==> required_field(payload, field) is Err,
        json::member(payload, field) is None ==> required_field(payload, field) is Err,
        required_field(payload, field) matches Err(e) ==> (e matches ErrorView::InvalidBody(told)
            && scan::occurs(told, "'"@ + field + "'"@)),
{
    let ahead = "Missing non-empty string field '"@;
    reveal_strlit("Missing non-empty string field '");
    reveal_strlit("Missing non-empty string field ");
    reveal_strlit("'");
    assert(ahead =~= "Missing non-empty string field "@ + "'"@);
    let quoted = "'"@ + field + "'"@;
    let told = ahead + field + "'"@;
    assert(told =~= "Missing non-empty string field "@ + quoted + Seq::<char>::empty());
    scan::lemma_part_occurs("Missing non-empty string field "@, quoted, Seq::empty());
}

/// The code and the state of a sign-in are read from a code with a hash in it, or else the
/// state from its own field.
pub proof fn sign_ins_are_read(
    payload: JsonView,
    code: Seq<char>,
    state: Seq<char>,
)
    requires
        !code.contains('#'),
        !scan::is_blank(code),
        !scan::is_blank(state),
    ensures
        json::member(payload, "code"@) == Some(JsonView::Str(code + "#"@ + state))
            ==> device_fields(payload) == Ok::<(Seq<char>, Seq<char>), ErrorView>((code, state)),
        json::member(payload, "code"@) == Some(JsonView::Str(code)) && json::member(
            payload,
            "state"@,
        ) == Some(JsonView::Str(state)) ==> device_fields(payload) == Ok::<
            (Seq<char>, Seq<char>),
            ErrorView,
        >((code, state)),
{
    codes_are_cut_at_the_hash(code, state);
    let raw = code + "#"@ + state;
    let k = choose|k: int| 0 <= k < code.len() && !scan::is_space(#[trigger] code[k]);
    assert(raw[k] == code[k]);
    assert(!scan::is_blank(raw));
}

/// A form that cannot be used is refused for the field that is wrong: a code that is missing or
/// blank for the code, a state that is blank behind the code for the state.
pub proof fn the_wrong_field_is_named(
    payload: JsonView,
    raw: Seq<char>,
    code: Seq<char>,
    state: Option<Seq<char>>,
)
    ensures
        json::member(payload, "code"@) is None ==> device_fields(payload) == Err::<
            (Seq<char>, Seq<char>),
            ErrorView,
        >(ErrorView::InvalidBody("Missing non-empty string field '"@ + "code"@ + "'"@)),
        required_field(payload, "code"@) == Ok::<Seq<char>, ErrorView>(raw) && auth_code(raw) == (
            code,
            state,
        ) && scan::is_blank(code) ==> device_fields(payload) == Err::<
            (Seq<char>, Seq<char>),
            ErrorView,
        >(ErrorView::InvalidBody("Missing non-empty string field '"@ + "code"@ + "'"@)),
        required_field(payload, "code"@) == Ok::<Seq<char>, ErrorView>(raw) && auth_code(raw) == (
            code,
            state,
        ) && !scan::is_blank(code) && state is Some && scan::is_blank(state->0) ==> device_fields(
            payload,
        ) == Err::<(Seq<char>, Seq<char>), ErrorView>(
            ErrorView::InvalidBody("Missing non-empty string field '"@ + "state"@ + "'"@),
        ),
{
}

} // verus!

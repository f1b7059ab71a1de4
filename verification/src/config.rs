//! ASR credentials: normalization, validation, the order in which explicit
//! values, environment values and the credentials file are consulted, and the
//! choice of the credentials file.
use vstd::prelude::*;

use crate::json::{json_get, json_str, Json, JsonValue};
use crate::text::{is_blank, str_is_blank, trim, trim_str};

verus! {

pub const DEFAULT_CREDENTIALS_FILENAME: &'static str = "doubao_credentials.json";

pub const ENV_APP_ID: &'static str = "DOUBAO_ASR_APP_ID";

pub const ENV_ACCESS_TOKEN: &'static str = "DOUBAO_ASR_ACCESS_TOKEN";

/// The app id and access token of the streaming ASR service.
pub struct Credentials {
    pub app_id: String,
    pub access_token: String,
}

/// Why credentials are refused.
pub enum ConfigError {
    MissingAppId,
    MissingAccessToken,
    /// No app id or no access token was found in any source.
    Incomplete,
}

impl Clone for Credentials {
    fn clone(&self) -> (res: Self)
        ensures
            res.app_id@ == self.app_id@,
            res.access_token@ == self.access_token@,
    {
        Credentials { app_id: self.app_id.clone(), access_token: self.access_token.clone() }
    }
}

impl Default for Credentials {
    fn default() -> (res: Self)
        ensures
            res.app_id@ == Seq::<char>::empty(),
            res.access_token@ == Seq::<char>::empty(),
    {
        Credentials { app_id: String::new(), access_token: String::new() }
    }
}

impl Credentials {
    /// Both values with surrounding whitespace removed.
    pub fn normalized(self) -> (res: Self)
        ensures
            res.app_id@ == trim(self.app_id@),
            res.access_token@ == trim(self.access_token@),
    {
        Credentials {
            app_id: trim_str(self.app_id.as_str()),
            access_token: trim_str(self.access_token.as_str()),
        }
    }

    /// Both values are present (not blank).
    pub fn validate(&self) -> (res: Result<(), ConfigError>)
        ensures
            is_blank(self.app_id@) ==> res == Err::<(), ConfigError>(ConfigError::MissingAppId),
            !is_blank(self.app_id@) && is_blank(self.access_token@) ==> res == Err::<
                (),
                ConfigError,
            >(ConfigError::MissingAccessToken),
            !is_blank(self.app_id@) && !is_blank(self.access_token@) ==> res is Ok,
    {
        if str_is_blank(self.app_id.as_str()) {
            return Err(ConfigError::MissingAppId);
        }
        if str_is_blank(self.access_token.as_str()) {
            return Err(ConfigError::MissingAccessToken);
        }
        Ok(())
    }
}

/// The first value that is not blank, trimmed; empty when all are blank.
pub open spec fn spec_first_nonempty(values: Seq<Seq<char>>) -> Seq<char>
    decreases values.len(),
{
    if values.len() == 0 {
        Seq::empty()
    } else if !is_blank(values[0]) {
        trim(values[0])
    } else {
        spec_first_nonempty(values.drop_first())
    }
}

/// The views of a list of string slices.
pub open spec fn str_views(values: Seq<&str>) -> Seq<Seq<char>> {
    Seq::new(values.len(), |i: int| values[i]@)
}

proof fn lemma_first_nonempty_skip(values: Seq<Seq<char>>, i: int)
    requires
        0 <= i <= values.len(),
        forall|j: int| 0 <= j < i ==> #[trigger] is_blank(values[j]),
    ensures
        spec_first_nonempty(values) == spec_first_nonempty(values.subrange(i, values.len() as int)),
    decreases i,
{
    if i > 0 {
        assert(values.drop_first().subrange(i - 1, values.drop_first().len() as int)
            =~= values.subrange(i, values.len() as int));
        assert forall|j: int| 0 <= j < i - 1 implies #[trigger] is_blank(values.drop_first()[j]) by {
            assert(values.drop_first()[j] == values[j + 1]);
        }
        lemma_first_nonempty_skip(values.drop_first(), i - 1);
    } else {
        assert(values.subrange(0, values.len() as int) =~= values);
    }
}

/// The first of `values` that is not blank, trimmed.
pub fn first_nonempty(values: &[&str]) -> (res: String)
    ensures
        res@ == spec_first_nonempty(str_views(values@)),
{
    let ghost vs = str_views(values@);
    let mut i: usize = 0;
    while i < values.len()
        invariant
            i <= values@.len() == vs.len(),
            vs == str_views(values@),
            forall|j: int| 0 <= j < i ==> #[trigger] is_blank(vs[j]),
        decreases values.len() - i,
    {
        if !str_is_blank(values[i]) {
            proof {
                lemma_first_nonempty_skip(vs, i as int);
                assert(vs.subrange(i as int, vs.len() as int)[0] == vs[i as int]);
            }
            return trim_str(values[i]);
        }
        i = i + 1;
    }
    proof {
        lemma_first_nonempty_skip(vs, i as int);
    }
    String::new()
}

/// An optional value, or the empty string.
pub open spec fn or_empty(value: Option<&str>) -> Seq<char> {
    match value {
        Some(v) => v@,
        None => Seq::empty(),
    }
}

/// The credentials chosen from the three sources, in order of precedence:
/// explicit values, environment values, the credentials file.
pub open spec fn chosen_app_id(explicit: Option<&str>, env: &str, file: Credentials) -> Seq<char> {
    spec_first_nonempty(seq![or_empty(explicit), env@, file.app_id@])
}

pub open spec fn chosen_access_token(explicit: Option<&str>, env: &str, file: Credentials) -> Seq<char> {
    spec_first_nonempty(seq![or_empty(explicit), env@, file.access_token@])
}

proof fn lemma_trim_idempotent_first(values: Seq<Seq<char>>)
    ensures
        trim(spec_first_nonempty(values)) == spec_first_nonempty(values),
    decreases values.len(),
{
    if values.len() > 0 {
        if !is_blank(values[0]) {
            crate::text::lemma_trim_idempotent(values[0]);
        } else {
            lemma_first_nonempty_skip(values, 1);
            assert(values.subrange(1, values.len() as int) =~= values.drop_first());
            lemma_trim_idempotent_first(values.drop_first());
        }
    } else {
        crate::text::lemma_trim_idempotent(Seq::empty());
    }
}

/// Merges the explicit values, the environment values and the values of the
/// credentials file; each value is the first non-blank one of the three,
/// trimmed. Refused when either value is missing from all three.
pub fn resolve_credentials(
    explicit_app_id: Option<&str>,
    explicit_access_token: Option<&str>,
    env_app_id: &str,
    env_access_token: &str,
    from_file: &Credentials,
) -> (res: Result<Credentials, ConfigError>)
    ensures
        ({
            let app_id = chosen_app_id(explicit_app_id, env_app_id, *from_file);
            let token = chosen_access_token(explicit_access_token, env_access_token, *from_file);
            if app_id.len() == 0 || token.len() == 0 {
                res == Err::<Credentials, ConfigError>(ConfigError::Incomplete)
            } else {
                res matches Ok(c) && c.app_id@ == app_id && c.access_token@ == token
            }
        }),
{
    let explicit_id: &str = match explicit_app_id {
        Some(v) => v,
        None => "",
    };
    let explicit_token: &str = match explicit_access_token {
        Some(v) => v,
        None => "",
    };
    proof {
        reveal_strlit("");
    }
    let id_sources = [explicit_id, env_app_id, from_file.app_id.as_str()];
    let token_sources = [explicit_token, env_access_token, from_file.access_token.as_str()];
    proof {
        assert(id_sources@.len() == 3);
        assert(id_sources@[0] == explicit_id);
        assert(id_sources@[2]@ == from_file.app_id@);
        assert(explicit_id@ == or_empty(explicit_app_id));
        assert(token_sources@[0] == explicit_token);
        assert(explicit_token@ == or_empty(explicit_access_token));
        assert(str_views(id_sources@) =~= seq![or_empty(explicit_app_id), env_app_id@, from_file.app_id@]);
        assert(str_views(token_sources@) =~= seq![or_empty(explicit_access_token), env_access_token@, from_file.access_token@]);
        lemma_trim_idempotent_first(str_views(id_sources@));
        lemma_trim_idempotent_first(str_views(token_sources@));
    }
    let credentials = Credentials {
        app_id: first_nonempty(&id_sources),
        access_token: first_nonempty(&token_sources),
    }.normalized();
    if credentials.app_id.as_str().is_empty() || credentials.access_token.as_str().is_empty() {
        return Err(ConfigError::Incomplete);
    }
    Ok(credentials)
}

/// The credentials files to look at: the one under the working directory, then
/// the one under the project root when it is another file.
pub fn default_credentials_candidates(runtime_candidate: String, project_candidate: String) -> (res: Vec<String>)
    ensures
        runtime_candidate@ == project_candidate@ ==> res@.len() == 1 && res@[0]@
            == runtime_candidate@,
        runtime_candidate@ != project_candidate@ ==> res@.len() == 2 && res@[0]@
            == runtime_candidate@ && res@[1]@ == project_candidate@,
{
    let same = runtime_candidate == project_candidate;
    let mut candidates: Vec<String> = Vec::new();
    candidates.push(runtime_candidate);
    if !same {
        candidates.push(project_candidate);
    }
    candidates
}

/// The first candidate that is an existing file, else `fallback`.
pub fn default_credentials_path(candidates: &Vec<String>, candidate_is_file: &Vec<bool>, fallback: String) -> (res: String)
    requires
        candidates@.len() == candidate_is_file@.len(),
    ensures
        (exists|i: int| 0 <= i < candidates@.len() && candidate_is_file@[i]) ==> (exists|i: int|
            0 <= i < candidates@.len() && candidate_is_file@[i] && res@ == candidates@[i]@ && (forall|
                j: int,
            | 0 <= j < i ==> !#[trigger] candidate_is_file@[j])),
        (forall|i: int| 0 <= i < candidates@.len() ==> !#[trigger] candidate_is_file@[i])
            ==> res@ == fallback@,
{
    let mut i: usize = 0;
    while i < candidates.len()
        invariant
            i <= candidates@.len() == candidate_is_file@.len(),
            forall|j: int| 0 <= j < i ==> !#[trigger] candidate_is_file@[j],
        decreases candidates.len() - i,
    {
        if candidate_is_file[i] {
            return candidates[i].clone();
        }
        i = i + 1;
    }
    fallback
}

/// The path to use: the configured one, trimmed, unless it is blank; then
/// `default_path`.
pub fn resolve_path(config: &str, default_path: String) -> (res: String)
    ensures
        is_blank(config@) ==> res@ == default_path@,
        !is_blank(config@) ==> res@ == trim(config@),
{
    if str_is_blank(config) {
        default_path
    } else {
        trim_str(config)
    }
}

pub const DEFAULT_MAI_CREDENTIALS_FILENAME: &'static str = "mai_credentials.json";

pub const ENV_MAI_ENDPOINT: &'static str = "AZURE_SPEECH_ENDPOINT";

pub const ENV_MAI_KEY: &'static str = "AZURE_SPEECH_KEY";

/// The endpoint and key of the Azure Speech resource used for MAI.
pub struct MaiCredentials {
    pub endpoint: String,
    pub key: String,
}

impl MaiCredentials {
    /// The credentials with both values trimmed.
    pub fn normalized(self) -> (res: Self)
        ensures
            res.endpoint@ == trim(self.endpoint@),
            res.key@ == trim(self.key@),
    {
        MaiCredentials {
            endpoint: trim_str(self.endpoint.as_str()),
            key: trim_str(self.key.as_str()),
        }
    }
}

/// The string at `outer` / `inner` of a document, or the empty text.
pub open spec fn nested_str(doc: Json, outer: Seq<char>, inner: Seq<char>) -> Seq<char> {
    match json_get(doc, outer) {
        Some(o) => match json_str(json_get(o, inner)) {
            Some(t) => t,
            None => Seq::empty(),
        },
        None => Seq::empty(),
    }
}

/// The string member `name` of a document, or the empty text.
pub open spec fn flat_str(doc: Json, name: Seq<char>) -> Seq<char> {
    match json_str(json_get(doc, name)) {
        Some(t) => t,
        None => Seq::empty(),
    }
}

/// The MAI credentials of a credentials document: `endpoint` and `key`, or,
/// where those are blank, the Azure resource form
/// `endpoints.resource_endpoint` and `credentials.primary_key`; trimmed.
pub open spec fn spec_mai_file_credentials(doc: Json) -> (Seq<char>, Seq<char>) {
    (
        spec_first_nonempty(seq![flat_str(doc, "endpoint"@), nested_str(doc, "endpoints"@, "resource_endpoint"@)]),
        spec_first_nonempty(seq![flat_str(doc, "key"@), nested_str(doc, "credentials"@, "primary_key"@)]),
    )
}

fn str_member(doc: &JsonValue, name: &str) -> (res: String)
    ensures
        res@ == flat_str(doc.model(), name@),
{
    match doc.get(name) {
        Some(v) => match v.as_str() {
            Some(t) => t.clone(),
            None => String::new(),
        },
        None => String::new(),
    }
}

fn nested_member(doc: &JsonValue, outer: &str, inner: &str) -> (res: String)
    ensures
        res@ == nested_str(doc.model(), outer@, inner@),
{
    match doc.get(outer) {
        Some(o) => str_member(o, inner),
        None => String::new(),
    }
}

/// Reads MAI credentials from a parsed credentials file.
pub fn mai_credentials_from_json(doc: &JsonValue) -> (res: MaiCredentials)
    ensures
        (res.endpoint@, res.key@) == spec_mai_file_credentials(doc.model()),
{
    let endpoint = str_member(doc, "endpoint");
    let nested_endpoint = nested_member(doc, "endpoints", "resource_endpoint");
    let key = str_member(doc, "key");
    let nested_key = nested_member(doc, "credentials", "primary_key");
    let endpoints = [endpoint.as_str(), nested_endpoint.as_str()];
    let keys = [key.as_str(), nested_key.as_str()];
    proof {
        assert(str_views(endpoints@) =~= seq![flat_str(doc.model(), "endpoint"@), nested_str(doc.model(), "endpoints"@, "resource_endpoint"@)]);
        assert(str_views(keys@) =~= seq![flat_str(doc.model(), "key"@), nested_str(doc.model(), "credentials"@, "primary_key"@)]);
    }
    MaiCredentials { endpoint: first_nonempty(&endpoints), key: first_nonempty(&keys) }
}

/// The MAI endpoint a session uses: the first non-blank of the command line,
/// the environment and the file, trimmed.
pub open spec fn chosen_mai_endpoint(explicit: Option<&str>, env: &str, file: MaiCredentials) -> Seq<char> {
    spec_first_nonempty(seq![or_empty(explicit), env@, file.endpoint@])
}

/// The MAI key a session uses, chosen in the same order.
pub open spec fn chosen_mai_key(explicit: Option<&str>, env: &str, file: MaiCredentials) -> Seq<char> {
    spec_first_nonempty(seq![or_empty(explicit), env@, file.key@])
}

/// Resolves the MAI credentials from the command line, the environment and
/// the credentials file, in that order; incomplete when either value is
/// missing everywhere.
pub fn resolve_mai_credentials(
    explicit_endpoint: Option<&str>,
    explicit_key: Option<&str>,
    env_endpoint: &str,
    env_key: &str,
    from_file: &MaiCredentials,
) -> (res: Result<MaiCredentials, ConfigError>)
    ensures
        ({
            let endpoint = chosen_mai_endpoint(explicit_endpoint, env_endpoint, *from_file);
            let key = chosen_mai_key(explicit_key, env_key, *from_file);
            if endpoint.len() == 0 || key.len() == 0 {
                res == Err::<MaiCredentials, ConfigError>(ConfigError::Incomplete)
            } else {
                res matches Ok(c) && c.endpoint@ == endpoint && c.key@ == key
            }
        }),
{
    let explicit_e: &str = match explicit_endpoint {
        Some(v) => v,
        None => "",
    };
    let explicit_k: &str = match explicit_key {
        Some(v) => v,
        None => "",
    };
    proof {
        reveal_strlit("");
    }
    let endpoint_sources = [explicit_e, env_endpoint, from_file.endpoint.as_str()];
    let key_sources = [explicit_k, env_key, from_file.key.as_str()];
    proof {
        assert(endpoint_sources@.len() == 3);
        assert(endpoint_sources@[0] == explicit_e);
        assert(endpoint_sources@[2]@ == from_file.endpoint@);
        assert(explicit_e@ == or_empty(explicit_endpoint));
        assert(key_sources@[0] == explicit_k);
        assert(key_sources@[2]@ == from_file.key@);
        assert(explicit_k@ == or_empty(explicit_key));
        assert(str_views(endpoint_sources@) =~= seq![or_empty(explicit_endpoint), env_endpoint@, from_file.endpoint@]);
        assert(str_views(key_sources@) =~= seq![or_empty(explicit_key), env_key@, from_file.key@]);
    }
    let endpoint = first_nonempty(&endpoint_sources);
    let key = first_nonempty(&key_sources);
    if endpoint.as_str().is_empty() || key.as_str().is_empty() {
        return Err(ConfigError::Incomplete);
    }
    Ok(MaiCredentials { endpoint, key })
}

/// Which of three sources a value is taken from: the first that is not blank,
/// trimmed; empty when all are blank.
pub open spec fn from_first_set(a: Seq<char>, b: Seq<char>, c: Seq<char>, chosen: Seq<char>) -> bool {
    &&& !is_blank(a) ==> chosen == trim(a)
    &&& (is_blank(a) && !is_blank(b)) ==> chosen == trim(b)
    &&& (is_blank(a) && is_blank(b) && !is_blank(c)) ==> chosen == trim(c)
    &&& (is_blank(a) && is_blank(b) && is_blank(c)) ==> chosen.len() == 0
}

proof fn lemma_first_of_three(a: Seq<char>, b: Seq<char>, c: Seq<char>)
    ensures
        from_first_set(a, b, c, spec_first_nonempty(seq![a, b, c])),
{
    let v = seq![a, b, c];
    assert(v.drop_first() =~= seq![b, c]);
    assert(v.drop_first().drop_first() =~= seq![c]);
    assert(v.drop_first().drop_first().drop_first() =~= Seq::<Seq<char>>::empty());
    assert(spec_first_nonempty(Seq::<Seq<char>>::empty()).len() == 0);
    assert(spec_first_nonempty(seq![c]) == if !is_blank(c) {
        trim(c)
    } else {
        spec_first_nonempty(Seq::<Seq<char>>::empty())
    });
    assert(spec_first_nonempty(seq![b, c]) == if !is_blank(b) {
        trim(b)
    } else {
        spec_first_nonempty(seq![c])
    });
    assert(spec_first_nonempty(v) == if !is_blank(a) {
        trim(a)
    } else {
        spec_first_nonempty(seq![b, c])
    });
}

/// A command-line value wins over the environment, which wins over the
/// credentials file: each credential is the first of them that is not blank,
/// trimmed (for both the streaming service and MAI).
pub proof fn law_credential_precedence(
    explicit_first: Option<&str>,
    explicit_second: Option<&str>,
    env_first: &str,
    env_second: &str,
    file: Credentials,
    mai_file: MaiCredentials,
)
    ensures
        from_first_set(
            or_empty(explicit_first),
            env_first@,
            file.app_id@,
            chosen_app_id(explicit_first, env_first, file),
        ),
        from_first_set(
            or_empty(explicit_second),
            env_second@,
            file.access_token@,
            chosen_access_token(explicit_second, env_second, file),
        ),
        from_first_set(
            or_empty(explicit_first),
            env_first@,
            mai_file.endpoint@,
            chosen_mai_endpoint(explicit_first, env_first, mai_file),
        ),
        from_first_set(
            or_empty(explicit_second),
            env_second@,
            mai_file.key@,
            chosen_mai_key(explicit_second, env_second, mai_file),
        ),
        explicit_second matches Some(t) ==> (!is_blank(t@) ==> chosen_access_token(
            explicit_second,
            env_second,
            file,
        ) == trim(t@)),
        explicit_first matches Some(t) ==> (!is_blank(t@) ==> chosen_app_id(
            explicit_first,
            env_first,
            file,
        ) == trim(t@)),
{
    lemma_first_of_three(or_empty(explicit_first), env_first@, file.app_id@);
    lemma_first_of_three(or_empty(explicit_second), env_second@, file.access_token@);
    lemma_first_of_three(or_empty(explicit_first), env_first@, mai_file.endpoint@);
    lemma_first_of_three(or_empty(explicit_second), env_second@, mai_file.key@);
}

} // verus!

use vstd::prelude::*;
use vstd::slice::slice_to_vec;
use vstd::string::StringExecFns;
use base64::Engine;
use sha2::Digest;

verus! {

/// The signing algorithms the manager supports: the HMAC family, the ones a
/// shared secret can key.
#[derive(Debug, Clone, Copy, PartialEq, Eq, Structural)]
pub enum JwtAlgorithm {
    HS256,
    HS384,
    HS512,
}

/// The claims a token carries: subject, expiry and issue instants, role, an
/// optional audience, and optional custom claims as name-value pairs.
#[derive(Debug, Clone)]
pub struct Claims {
    pub sub: String,
    pub exp: u64,
    pub iat: u64,
    pub role: String,
    pub aud: Option<String>,
    pub custom_claims: Option<Vec<(String, String)>>,
}

/// Why a token was rejected or could not be made.
#[derive(Debug)]
pub enum JwtError {
    InvalidToken,
    TokenExpired,
    EncodingError(String),
    DecodingError(String),
    InvalidAlgorithm,
}

/// How tokens are signed and what validation demands.
#[derive(Debug)]
pub struct JwtConfig {
    pub algorithm: JwtAlgorithm,
    pub leeway: u64,
    pub validate_exp: bool,
    pub validate_nbf: bool,
    pub aud: Option<String>,
    pub iss: Option<String>,
}

/// The default configuration: HMAC-SHA256, no leeway, expiry checked, no
/// audience or issuer demanded.
pub open spec fn spec_default_config() -> JwtConfig {
    JwtConfig {
        algorithm: JwtAlgorithm::HS256,
        leeway: 0,
        validate_exp: true,
        validate_nbf: false,
        aud: None,
        iss: None,
    }
}

impl Default for JwtConfig {
    fn default() -> (r: JwtConfig)
        ensures
            r == spec_default_config(),
    {
        JwtConfig {
            algorithm: JwtAlgorithm::HS256,
            leeway: 0,
            validate_exp: true,
            validate_nbf: false,
            aud: None,
            iss: None,
        }
    }
}

/// The model of an optional string.
pub open spec fn opt_view(o: Option<String>) -> Option<Seq<char>> {
    match o {
        Some(s) => Some(s@),
        None => None,
    }
}

/// The model of optional custom claims: name-value pairs as character
/// sequences, in order.
pub open spec fn custom_view(o: Option<Vec<(String, String)>>) -> Option<
    Seq<(Seq<char>, Seq<char>)>,
> {
    match o {
        Some(v) => Some(Seq::new(v@.len(), |i: int| (v@[i].0@, v@[i].1@))),
        None => None,
    }
}

/// What URL-safe base64 encoding yields: a fixed function of the bytes
/// alone.
pub uninterp spec fn b64url_of(bytes: Seq<u8>) -> Seq<char>;

/// Relies on base64's URL_SAFE engine: the padded URL-safe base64 text of
/// the bytes, four characters for every started group of three bytes.
#[verifier::external_body]
fn b64url_encode(bytes: &Vec<u8>) -> (r: String)
    ensures
        r@ == b64url_of(bytes@),
        r@.len() == 4 * ((bytes@.len() + 2) / 3),
{
    base64::engine::general_purpose::URL_SAFE.encode(bytes)
}

/// What the SHA-256 digest of a text's UTF-8 bytes is: a fixed function of
/// the characters alone.
pub uninterp spec fn sha256_of(s: Seq<char>) -> Seq<u8>;

/// Relies on sha2's Sha256: the 32-byte digest of the text's UTF-8 bytes, a
/// fixed function of the characters.
#[verifier::external_body]
fn sha256_digest(s: &str) -> (r: Vec<u8>)
    ensures
        r@ == sha256_of(s@),
        r@.len() == 32,
{
    let mut hasher = sha2::Sha256::new();
    hasher.update(s.as_bytes());
    hasher.finalize().to_vec()
}

/// Relies on rand's thread-local generator: one random byte. Nothing can be
/// promised of a random value.
#[verifier::external_body]
fn random_byte() -> u8 {
    rand::Rng::gen(&mut rand::thread_rng())
}

/// Relies on std's SystemTime: whole seconds since the Unix epoch, or
/// nothing when the clock reads before the epoch. Depends on the clock, so
/// nothing more is promised.
#[verifier::external_body]
fn now_unix() -> Option<u64> {
    std::time::SystemTime::now().duration_since(std::time::UNIX_EPOCH).ok().map(|d| d.as_secs())
}

#[verifier::external_type_specification]
#[verifier::external_body]
pub struct ExAlgorithm(jsonwebtoken::Algorithm);

#[verifier::external_type_specification]
#[verifier::external_body]
pub struct ExValue(serde_json::Value);

/// Relies on jsonwebtoken's Algorithm: the HMAC variant matching ours,
/// variant for variant. A building block of `sign_claims`.
#[verifier::external_body]
fn alg_of(alg: &JwtAlgorithm) -> jsonwebtoken::Algorithm {
    match alg {
        JwtAlgorithm::HS256 => jsonwebtoken::Algorithm::HS256,
        JwtAlgorithm::HS384 => jsonwebtoken::Algorithm::HS384,
        JwtAlgorithm::HS512 => jsonwebtoken::Algorithm::HS512,
    }
}

/// Relies on serde_json's value constructors: name-value pairs as a JSON
/// object of strings. A building block of `sign_claims`.
#[verifier::external_body]
fn pairs_value(pairs: &Vec<(String, String)>) -> serde_json::Value {
    serde_json::Value::Object(pairs.iter().map(|p| (p.0.clone(), serde_json::Value::from(p.1.clone()))).collect())
}

/// Relies on serde_json's value constructors: the claims as a JSON object,
/// field by field, `aud` and the given custom-claims object only when
/// present. A building block of `sign_claims`.
#[verifier::external_body]
fn claims_value(claims: &Claims, custom: Option<serde_json::Value>) -> serde_json::Value {
    let mut m = serde_json::Map::new();
    m.insert("sub".to_string(), serde_json::Value::from(claims.sub.clone()));
    m.insert("exp".to_string(), serde_json::Value::from(claims.exp));
    m.insert("iat".to_string(), serde_json::Value::from(claims.iat));
    m.insert("role".to_string(), serde_json::Value::from(claims.role.clone()));
    if let Some(a) = &claims.aud {
        m.insert("aud".to_string(), serde_json::Value::from(a.clone()));
    }
    if let Some(cv) = custom {
        m.insert("custom_claims".to_string(), cv);
    }
    serde_json::Value::Object(m)
}

/// Relies on jsonwebtoken's encode with a secret-keyed HMAC: the signed
/// token of the given claims object, with the key id in the header. A
/// building block of `sign_claims`, which carries the contract.
#[verifier::external_body]
fn jwt_encode(
    secret: &Vec<u8>,
    alg: jsonwebtoken::Algorithm,
    kid: &Option<String>,
    claims: &serde_json::Value,
) -> Result<String, String> {
    let mut header = jsonwebtoken::Header::new(alg);
    header.kid = kid.clone();
    jsonwebtoken::encode(&header, claims, &jsonwebtoken::EncodingKey::from_secret(secret)).map_err(|e| e.to_string())
}

/// The signed token an HMAC-keyed encode yields for given claims: secret,
/// algorithm, key id in the header, and the claim fields — subject, expiry,
/// issue instant, role, optional audience, optional custom pairs. Header
/// and claim serialization and the HMAC are all deterministic, so the token
/// is a fixed function of these arguments alone.
pub uninterp spec fn token_of(
    secret: Seq<u8>,
    alg: JwtAlgorithm,
    kid: Option<Seq<char>>,
    sub: Seq<char>,
    exp: u64,
    iat: u64,
    role: Seq<char>,
    aud: Option<Seq<char>>,
    custom: Option<Seq<(Seq<char>, Seq<char>)>>,
) -> Seq<char>;

/// Relies on jsonwebtoken's encode over serde_json's serialization (the
/// helpers above): the signed token of the claims, a fixed function of the
/// secret, the algorithm, the key id and the claim fields; or the signing
/// error.
#[verifier::external_body]
fn sign_claims(
    secret: &Vec<u8>,
    alg: &JwtAlgorithm,
    kid: &Option<String>,
    claims: &Claims,
) -> (r: Result<String, String>)
    ensures
        r matches Ok(t) ==> t@ == token_of(
            secret@,
            *alg,
            opt_view(*kid),
            claims.sub@,
            claims.exp,
            claims.iat,
            claims.role@,
            opt_view(claims.aud),
            custom_view(claims.custom_claims),
        ),
{
    let custom = claims.custom_claims.as_ref().map(|cc| pairs_value(cc));
    let payload = claims_value(claims, custom);
    jwt_encode(secret, alg_of(alg), kid, &payload)
}

/// Relies on serde_json's accessors: the name-value pairs of a JSON object
/// whose values are all strings, or nothing when the value is not such an
/// object — a strict read, as a typed decode of the custom-claims map
/// would be.
#[verifier::external_body]
fn pairs_of_value(v: &serde_json::Value) -> Option<Vec<(String, String)>> {
    v.as_object()?.iter().map(|(k, w)| Some((k.clone(), w.as_str()?.to_string()))).collect()
}

/// Relies on serde_json's accessors: the claims a decoded value holds, or
/// nothing when a required field is missing or of the wrong shape
/// (a malformed custom-claims object rejects the whole token).
#[verifier::external_body]
fn claims_of_value(v: &serde_json::Value) -> Option<Claims> {
    Some(Claims {
        sub: v.get("sub")?.as_str()?.to_string(),
        exp: v.get("exp")?.as_u64()?,
        iat: v.get("iat")?.as_u64()?,
        role: v.get("role")?.as_str()?.to_string(),
        aud: v.get("aud").and_then(|x| x.as_str()).map(|s| s.to_string()),
        custom_claims: match v.get("custom_claims") {
            None => None,
            Some(x) => Some(pairs_of_value(x)?),
        },
    })
}

/// Relies on jsonwebtoken's decode with a secret-keyed HMAC: the claims of
/// a token whose signature and registered claims pass validation under the
/// given configuration, or an error.
#[verifier::external_body]
fn jwt_decode(
    token: &str,
    secret: &Vec<u8>,
    alg: jsonwebtoken::Algorithm,
    cfg: &JwtConfig,
) -> Result<Claims, String> {
    let mut v = jsonwebtoken::Validation::new(alg);
    v.leeway = cfg.leeway;
    v.validate_exp = cfg.validate_exp;
    v.validate_nbf = cfg.validate_nbf;
    if let Some(a) = &cfg.aud {
        v.set_audience(&[a.clone()]);
    }
    if let Some(i) = &cfg.iss {
        v.set_issuer(&[i.clone()]);
    }
    let d = jsonwebtoken::decode::<serde_json::Value>(token, &jsonwebtoken::DecodingKey::from_secret(secret), &v).map_err(|e| e.to_string())?;
    claims_of_value(&d.claims).ok_or("missing required claim".to_string())
}

/// The lowercase hexadecimal digit of a value below sixteen.
pub open spec fn spec_hex_digit(d: nat) -> char {
    if d < 10 {
        ((48 + d) as u8) as char
    } else {
        ((87 + d) as u8) as char
    }
}

/// The lowercase hexadecimal text of the bytes: two digits per byte, high
/// nibble first.
pub open spec fn spec_hex(bytes: Seq<u8>) -> Seq<char> {
    Seq::new(
        bytes.len() * 2,
        |i: int|
            if i % 2 == 0 {
                spec_hex_digit((bytes[i / 2] as nat) / 16)
            } else {
                spec_hex_digit((bytes[i / 2] as nat) % 16)
            },
    )
}

/// The lowercase hexadecimal rendering of the bytes.
fn to_hex(bytes: &Vec<u8>) -> (r: String)
    ensures
        r@ == spec_hex(bytes@),
{
    let mut v: Vec<char> = Vec::new();
    let mut i: usize = 0;
    while i < bytes.len()
        invariant
            i <= bytes@.len(),
            v@.len() == 2 * i,
            v@ == spec_hex(bytes@).take(2 * i as int),
        decreases bytes@.len() - i,
    {
        let b = bytes[i];
        let hi = b / 16;
        let lo = b % 16;
        let c1 = if hi < 10 {
            (48 + hi) as char
        } else {
            (87 + hi) as char
        };
        let c2 = if lo < 10 {
            (48 + lo) as char
        } else {
            (87 + lo) as char
        };
        v.push(c1);
        v.push(c2);
        proof {
            assert(v@ =~= spec_hex(bytes@).take(2 * (i + 1) as int));
        }
        i = i + 1;
    }
    proof {
        assert(v@ =~= spec_hex(bytes@));
    }
    crate::text::string_from_chars(&v)
}

/// The claims a new token carries: issued now, expiring after the given
/// lifetime, for the given subject and role, with the configured audience
/// and the given custom claims. An expiry that cannot be represented is an
/// encoding error.
pub fn build_claims(
    user_id: &str,
    role: &str,
    now: u64,
    expires_in_seconds: u64,
    aud: &Option<String>,
    custom_claims: Option<Vec<(String, String)>>,
) -> (r: Result<Claims, JwtError>)
    ensures
        now + expires_in_seconds <= u64::MAX ==> (r matches Ok(c) && c.sub@ == user_id@ && c.iat
            == now && c.exp == now + expires_in_seconds && c.role@ == role@ && opt_view(c.aud)
            == opt_view(*aud) && c.custom_claims == custom_claims),
        now + expires_in_seconds > u64::MAX ==> (r matches Err(e) && e is EncodingError),
{
    match now.checked_add(expires_in_seconds) {
        Some(exp) => Ok(
            Claims {
                sub: user_id.to_owned(),
                exp,
                iat: now,
                role: role.to_owned(),
                aud: match aud {
                    Some(a) => Some(a.clone()),
                    None => None,
                },
                custom_claims,
            },
        ),
        None => Err(JwtError::EncodingError(String::from_str("token lifetime overflows"))),
    }
}

/// Whether decoded claims are still good at the given instant: expired
/// exactly when even the configured leeway cannot stretch the expiry to
/// `now`.
pub fn accept_claims(claims: Claims, leeway: u64, now: u64) -> (r: Result<Claims, JwtError>)
    ensures
        claims.exp + leeway < now ==> (r matches Err(e) && e is TokenExpired),
        claims.exp + leeway >= now ==> (r matches Ok(c) && c == claims),
{
    match claims.exp.checked_add(leeway) {
        Some(limit) => if limit < now {
            Err(JwtError::TokenExpired)
        } else {
            Ok(claims)
        },
        None => Ok(claims),
    }
}

/// The claims of a refreshed token: subject and role kept, fresh issue and
/// expiry instants, the configured audience, and the given custom claims —
/// or, when none are given, the old ones.
pub fn refreshed_claims(
    old_claims: Claims,
    now: u64,
    new_expires_in_seconds: u64,
    aud: &Option<String>,
    custom_claims: Option<Vec<(String, String)>>,
) -> (r: Result<Claims, JwtError>)
    ensures
        now + new_expires_in_seconds <= u64::MAX ==> (r matches Ok(c) && c.sub == old_claims.sub
            && c.iat == now && c.exp == now + new_expires_in_seconds && c.role == old_claims.role
            && opt_view(c.aud) == opt_view(*aud) && c.custom_claims == (if custom_claims is Some {
            custom_claims
        } else {
            old_claims.custom_claims
        })),
        now + new_expires_in_seconds > u64::MAX ==> (r matches Err(e) && e is EncodingError),
{
    match now.checked_add(new_expires_in_seconds) {
        Some(exp) => Ok(
            Claims {
                sub: old_claims.sub,
                exp,
                iat: now,
                role: old_claims.role,
                aud: match aud {
                    Some(a) => Some(a.clone()),
                    None => None,
                },
                custom_claims: match custom_claims {
                    Some(cc) => Some(cc),
                    None => old_claims.custom_claims,
                },
            },
        ),
        None => Err(JwtError::EncodingError(String::from_str("token lifetime overflows"))),
    }
}

/// Issues, validates and refreshes signed tokens over a shared secret. The
/// cryptography is the token library's; what claims are put in and how they
/// are judged is verified here.
pub struct JwtManager {
    secret: Vec<u8>,
    config: JwtConfig,
}

impl JwtManager {
    pub closed spec fn spec_secret(self) -> Seq<u8> {
        self.secret@
    }

    pub closed spec fn spec_config(self) -> JwtConfig {
        self.config
    }

    /// A manager over the secret, with the default configuration.
    pub fn new(secret: &[u8]) -> (r: JwtManager)
        ensures
            r.spec_secret() == secret@,
            r.spec_config() == spec_default_config(),
    {
        JwtManager { secret: slice_to_vec(secret), config: JwtConfig::default() }
    }

    /// A manager over the secret, with the given configuration.
    pub fn with_config(secret: &[u8], config: JwtConfig) -> (r: JwtManager)
        ensures
            r.spec_secret() == secret@,
            r.spec_config() == config,
    {
        JwtManager { secret: slice_to_vec(secret), config }
    }

    /// A fresh secret: thirty-two random bytes in URL-safe base64, which is
    /// forty-four characters.
    pub fn generate_secret() -> (r: String)
        ensures
            r@.len() == 44,
            exists|bytes: Seq<u8>| bytes.len() == 32 && r@ == b64url_of(bytes),
    {
        let mut bytes: Vec<u8> = Vec::new();
        let mut i: usize = 0;
        while i < 32
            invariant
                i <= 32,
                bytes@.len() == i,
            decreases 32 - i,
        {
            bytes.push(random_byte());
            i = i + 1;
        }
        b64url_encode(&bytes)
    }

    /// The SHA-256 digest of the secret, as sixty-four lowercase hex
    /// digits. One secret, one hash, on every machine.
    pub fn hash_secret(secret: &str) -> (r: String)
        ensures
            r@ == spec_hex(sha256_of(secret@)),
            r@.len() == 64,
    {
        to_hex(&sha256_digest(secret))
    }

    /// A signed token for the subject and role, expiring after the given
    /// lifetime, carrying the configured audience and the given custom
    /// claims: exactly the token the configured key signs for the claims
    /// `build_claims` puts in, issued at some instant the clock gave.
    pub fn generate_token_with_claims(
        &self,
        user_id: &str,
        role: &str,
        expires_in_seconds: u64,
        custom_claims: Option<Vec<(String, String)>>,
    ) -> (r: Result<String, JwtError>)
        ensures
            r matches Err(e) ==> e is EncodingError,
            r matches Ok(t) ==> exists|now: u64, exp: u64|
                exp == now + expires_in_seconds && t@ == #[trigger] token_of(
                    self.spec_secret(),
                    self.spec_config().algorithm,
                    opt_view(self.spec_config().iss),
                    user_id@,
                    exp,
                    now,
                    role@,
                    opt_view(self.spec_config().aud),
                    custom_view(custom_claims),
                ),
    {
        let ghost cc0 = custom_claims;
        let now = match now_unix() {
            Some(n) => n,
            None => {
                return Err(
                    JwtError::EncodingError(String::from_str("system clock before the epoch")),
                );
            },
        };
        let claims = match build_claims(
            user_id,
            role,
            now,
            expires_in_seconds,
            &self.config.aud,
            custom_claims,
        ) {
            Ok(c) => c,
            Err(e) => {
                return Err(e);
            },
        };
        match sign_claims(&self.secret, &self.config.algorithm, &self.config.iss, &claims) {
            Ok(t) => {
                proof {
                    assert(claims.exp == now + expires_in_seconds);
                    assert(t@ == token_of(
                        self.spec_secret(),
                        self.spec_config().algorithm,
                        opt_view(self.spec_config().iss),
                        user_id@,
                        claims.exp,
                        now,
                        role@,
                        opt_view(self.spec_config().aud),
                        custom_view(cc0),
                    ));
                }
                Ok(t)
            },
            Err(m) => Err(JwtError::EncodingError(m)),
        }
    }

    /// A signed token without custom claims.
    pub fn generate_token(&self, user_id: &str, role: &str, expires_in_seconds: u64) -> (r: Result<
        String,
        JwtError,
    >)
        ensures
            r matches Err(e) ==> e is EncodingError,
            r matches Ok(t) ==> exists|now: u64, exp: u64|
                exp == now + expires_in_seconds && t@ == #[trigger] token_of(
                    self.spec_secret(),
                    self.spec_config().algorithm,
                    opt_view(self.spec_config().iss),
                    user_id@,
                    exp,
                    now,
                    role@,
                    opt_view(self.spec_config().aud),
                    custom_view(Option::<Vec<(String, String)>>::None),
                ),
    {
        self.generate_token_with_claims(user_id, role, expires_in_seconds, None)
    }

    /// The claims of a token that passes signature validation and, judged
    /// against the clock with the configured leeway, has not expired. A
    /// rejected token is invalid; a stale one is expired; nothing else is
    /// ever returned as an error.
    pub fn validate_token(&self, token: &str) -> (r: Result<Claims, JwtError>)
        ensures
            r matches Err(e) ==> (e is InvalidToken || e is TokenExpired),
    {
        let claims = match jwt_decode(
            token,
            &self.secret,
            alg_of(&self.config.algorithm),
            &self.config,
        ) {
            Ok(c) => c,
            Err(_) => {
                return Err(JwtError::InvalidToken);
            },
        };
        let now = match now_unix() {
            Some(n) => n,
            None => {
                return Err(JwtError::InvalidToken);
            },
        };
        accept_claims(claims, self.config.leeway, now)
    }

    /// A fresh token carrying the old token's subject and role, a new
    /// lifetime, and the given custom claims — or the old ones, when none
    /// are given. The old token must still validate; the result is exactly
    /// the token the configured key signs for the merged claims.
    pub fn refresh_token_with_claims(
        &self,
        old_token: &str,
        new_expires_in_seconds: u64,
        custom_claims: Option<Vec<(String, String)>>,
    ) -> (r: Result<String, JwtError>)
        ensures
            r matches Err(e) ==> (e is InvalidToken || e is TokenExpired || e is EncodingError),
            r matches Ok(t) ==> exists|now: u64, exp: u64, sub: Seq<char>, role: Seq<char>, merged:
                Option<Vec<(String, String)>>|
                exp == now + new_expires_in_seconds && (custom_claims is Some ==> merged
                    == custom_claims) && t@ == #[trigger] token_of(
                    self.spec_secret(),
                    self.spec_config().algorithm,
                    opt_view(self.spec_config().iss),
                    sub,
                    exp,
                    now,
                    role,
                    opt_view(self.spec_config().aud),
                    custom_view(merged),
                ),
    {
        let ghost cc0 = custom_claims;
        let claims = match self.validate_token(old_token) {
            Ok(c) => c,
            Err(e) => {
                return Err(e);
            },
        };
        let now = match now_unix() {
            Some(n) => n,
            None => {
                return Err(
                    JwtError::EncodingError(String::from_str("system clock before the epoch")),
                );
            },
        };
        let new_claims = match refreshed_claims(
            claims,
            now,
            new_expires_in_seconds,
            &self.config.aud,
            custom_claims,
        ) {
            Ok(c) => c,
            Err(e) => {
                return Err(e);
            },
        };
        match sign_claims(&self.secret, &self.config.algorithm, &self.config.iss, &new_claims) {
            Ok(t) => {
                proof {
                    assert(new_claims.exp == now + new_expires_in_seconds);
                    assert(cc0 is Some ==> new_claims.custom_claims == cc0);
                    assert(t@ == token_of(
                        self.spec_secret(),
                        self.spec_config().algorithm,
                        opt_view(self.spec_config().iss),
                        new_claims.sub@,
                        new_claims.exp,
                        now,
                        new_claims.role@,
                        opt_view(self.spec_config().aud),
                        custom_view(new_claims.custom_claims),
                    ));
                }
                Ok(t)
            },
            Err(m) => Err(JwtError::EncodingError(m)),
        }
    }

    /// A fresh token with the old custom claims kept.
    pub fn refresh_token(&self, old_token: &str, new_expires_in_seconds: u64) -> (r: Result<
        String,
        JwtError,
    >)
        ensures
            r matches Err(e) ==> (e is InvalidToken || e is TokenExpired || e is EncodingError),
            r matches Ok(t) ==> exists|now: u64, exp: u64, sub: Seq<char>, role: Seq<char>, merged:
                Option<Vec<(String, String)>>|
                exp == now + new_expires_in_seconds && t@ == #[trigger] token_of(
                    self.spec_secret(),
                    self.spec_config().algorithm,
                    opt_view(self.spec_config().iss),
                    sub,
                    exp,
                    now,
                    role,
                    opt_view(self.spec_config().aud),
                    custom_view(merged),
                ),
    {
        self.refresh_token_with_claims(old_token, new_expires_in_seconds, None)
    }
}

} // verus!

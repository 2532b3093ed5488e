//! The Redis store: its configuration, its connection address, and the commands and
//! reply handling of each operation. The commands are sent by the caller.

use vstd::prelude::*;
use vstd::string::StringSliceAdditionalSpecFns;
use vstd::utf8::{decode_utf8, valid_utf8};

use crate::kv::serializer::api::{Serializer, SerializerError};
use crate::text::{decode_utf8_text, i64_to_decimal, push_str, signed_decimal};
use super::api::{length_mismatch_message, KvError, SetOptions};

verus! {

#[verifier::external_type_specification]
#[verifier::external_body]
pub struct ExRedisClient(redis::Client);

/// Errors of creating a Redis store.
#[derive(Debug, Clone)]
pub enum RedisError {
    InvalidConfig(String),
    ConnectionFailed(String),
    SerializationError(String),
}

impl RedisError {
    /// The text of the error.
    pub fn message(&self) -> (s: String)
        ensures
            s@ == self.spec_message(),
    {
        let (head, m) = match self {
            RedisError::InvalidConfig(m) => ("Invalid configuration: ", m),
            RedisError::ConnectionFailed(m) => ("Connection failed: ", m),
            RedisError::SerializationError(m) => ("Serialization error: ", m),
        };
        let mut s = head.to_owned();
        push_str(&mut s, m.as_str());
        s
    }

    pub open spec fn spec_message(&self) -> Seq<char> {
        match self {
            RedisError::InvalidConfig(m) => "Invalid configuration: "@ + m@,
            RedisError::ConnectionFailed(m) => "Connection failed: "@ + m@,
            RedisError::SerializationError(m) => "Serialization error: "@ + m@,
        }
    }
}

/// Configuration of a `RedisStore`: one server (`endpoint`) or a cluster (`endpoints`).
#[derive(Debug, Clone)]
pub struct RedisStoreConfig {
    /// The server, as host:port.
    pub endpoint: Option<String>,
    /// The cluster nodes, as host:port; the first one is connected to.
    pub endpoints: Option<Vec<String>>,
    /// The ACL user name; "default" when only a password is given.
    pub username: Option<String>,
    pub password: Option<String>,
    /// The database number, used with a single server.
    pub db: i64,
    /// The time to live given to each key, in seconds; 0 for none.
    pub default_ttl: u64,
    /// Seconds allowed for connecting.
    pub connection_timeout: u64,
    /// Seconds allowed for a command.
    pub command_timeout: u64,
}

impl Default for RedisStoreConfig {
    fn default() -> (c: Self)
        ensures
            c.endpoint is None,
            c.endpoints is None,
            c.username is None,
            c.password is None,
            c.db == 0,
            c.default_ttl == 0,
            c.connection_timeout == 5,
            c.command_timeout == 3,
    {
        RedisStoreConfig {
            endpoint: None,
            endpoints: None,
            username: None,
            password: None,
            db: 0,
            default_ttl: 0,
            connection_timeout: 5,
            command_timeout: 3,
        }
    }
}

/// Whether a single server is configured.
pub open spec fn is_single(c: RedisStoreConfig) -> bool {
    c.endpoint matches Some(e) && e@.len() > 0
}

/// Whether a cluster is configured.
pub open spec fn is_cluster(c: RedisStoreConfig) -> bool {
    c.endpoints matches Some(v) && v@.len() > 0
}

/// "user:password@" when a password is given (the user "default" when none is named).
pub open spec fn auth_part(c: RedisStoreConfig) -> Seq<char> {
    match c.password {
        Some(p) => match c.username {
            Some(u) => u@ + ":"@ + p@ + "@"@,
            None => "default:"@ + p@ + "@"@,
        },
        None => Seq::empty(),
    }
}

/// The address of the configured server or cluster, or the configuration's fault.
pub open spec fn spec_connection_url(c: RedisStoreConfig) -> Result<Seq<char>, Seq<char>> {
    if !is_single(c) && !is_cluster(c) {
        Err("Either endpoint or endpoints must be set"@)
    } else if is_single(c) && is_cluster(c) {
        Err("Cannot set both endpoint and endpoints"@)
    } else if is_single(c) {
        Ok("redis://"@ + auth_part(c) + c.endpoint->0@ + "/"@ + signed_decimal(c.db as int))
    } else {
        Ok("redis://"@ + auth_part(c) + c.endpoints->0@[0]@)
    }
}

impl RedisStoreConfig {
    /// The address to connect to: "redis://[user:password@]host:port/db" for a server,
    /// "redis://[user:password@]host:port" of the first node for a cluster.
    pub fn connection_url(&self) -> (r: Result<String, RedisError>)
        ensures
            match spec_connection_url(*self) {
                Ok(u) => r matches Ok(s) && s@ == u,
                Err(m) => r matches Err(RedisError::InvalidConfig(e)) && e@ == m,
            },
    {
        let single = match &self.endpoint {
            Some(e) => !e.as_str().is_empty(),
            None => false,
        };
        let cluster = match &self.endpoints {
            Some(v) => v.len() > 0,
            None => false,
        };
        if !single && !cluster {
            return Err(RedisError::InvalidConfig("Either endpoint or endpoints must be set".to_owned()));
        }
        if single && cluster {
            return Err(RedisError::InvalidConfig("Cannot set both endpoint and endpoints".to_owned()));
        }
        let mut url = "redis://".to_owned();
        if let Some(p) = &self.password {
            match &self.username {
                Some(u) => push_str(&mut url, u.as_str()),
                None => push_str(&mut url, "default"),
            }
            push_str(&mut url, ":");
            push_str(&mut url, p.as_str());
            push_str(&mut url, "@");
        }
        proof {
            reveal_strlit("default");
            reveal_strlit("default:");
            reveal_strlit(":");
            assert("default"@ + ":"@ =~= "default:"@);
        }
        if single {
            let e = match &self.endpoint {
                Some(e) => e,
                None => {
                    return Err(RedisError::InvalidConfig("Either endpoint or endpoints must be set".to_owned()));
                },
            };
            push_str(&mut url, e.as_str());
            push_str(&mut url, "/");
            let d = i64_to_decimal(self.db);
            push_str(&mut url, d.as_str());
        } else {
            let v = match &self.endpoints {
                Some(v) => v,
                None => {
                    return Err(RedisError::InvalidConfig("Either endpoint or endpoints must be set".to_owned()));
                },
            };
            push_str(&mut url, v[0].as_str());
        }
        Ok(url)
    }
}

/// Whether `redis::Client::open` accepts the address, which depends on the text alone.
pub uninterp spec fn redis_url_accepted(url: Seq<char>) -> bool;

/// `redis::Client::open` on an address: it parses the address and opens no
/// connection; it succeeds exactly on the addresses it accepts, and a failure carries
/// the error's text.
#[verifier::external_body]
fn open_client(url: String) -> (r: Result<redis::Client, String>)
    ensures
        r is Ok <==> redis_url_accepted(url@),
{
    match redis::Client::open(url) {
        Ok(c) => Ok(c),
        Err(e) => Err(e.to_string()),
    }
}

/// The start of the message of an address the client refuses.
pub open spec fn url_error_prefix(c: RedisStoreConfig) -> Seq<char> {
    if is_single(c) {
        "Invalid connection URL: "@
    } else {
        "Invalid cluster URL: "@
    }
}

/// The expiry, in whole seconds, a set asks for: the given expiration (as seconds and
/// nanoseconds) or else the store's default; none when that is zero.
pub open spec fn spec_expire_seconds(expiration: Option<(u64, u32)>, default_ttl: u64) -> Option<u64> {
    let (s, n) = match expiration {
        Some(p) => p,
        None => (default_ttl, 0u32),
    };
    if s > 0 || n > 0 {
        Some(s)
    } else {
        None
    }
}

/// The expiry, in whole seconds, a set asks for.
pub fn expire_seconds(expiration: Option<(u64, u32)>, default_ttl: u64) -> (r: Option<u64>)
    ensures
        r == spec_expire_seconds(expiration, default_ttl),
{
    let (s, n) = match expiration {
        Some(p) => p,
        None => (default_ttl, 0u32),
    };
    if s > 0 || n > 0 {
        Some(s)
    } else {
        None
    }
}

/// A SET command: the key, the value, NX, and EX in seconds.
#[derive(Debug, Clone)]
pub struct SetCommand {
    pub key: String,
    pub value: Vec<u8>,
    /// Only set when the key is absent (NX).
    pub only_if_absent: bool,
    /// The expiry in seconds (EX), if any.
    pub expire_seconds: Option<u64>,
}

/// The key of a command: the serialized key must be UTF-8 text.
pub fn key_from_bytes(bytes: Vec<u8>) -> (r: Result<String, KvError>)
    ensures
        r is Ok <==> valid_utf8(bytes@),
        r matches Ok(s) ==> s@ == decode_utf8(bytes@),
        r matches Err(e) ==> (e matches KvError::Other(m) && exists|t: Seq<char>| m@ == "Invalid key UTF-8: "@ + t),
{
    match decode_utf8_text(bytes.as_slice()) {
        Ok(s) => Ok(s.to_owned()),
        Err(t) => {
            let mut m = "Invalid key UTF-8: ".to_owned();
            push_str(&mut m, t.as_str());
            Err(KvError::Other(m))
        },
    }
}

/// Whether `c` is the SET command made from a key and a value serialized as
/// `key_bytes` and `value_bytes`: the key is the bytes read as UTF-8 text, the value
/// the bytes themselves, NX as asked, and the expiry from the expiration's seconds and
/// nanoseconds (or the store's default).
pub open spec fn command_fits(
    c: SetCommand,
    key_bytes: Seq<u8>,
    value_bytes: Seq<u8>,
    if_not_exist: bool,
    expiration: Option<(u64, u32)>,
    default_ttl: u64,
) -> bool {
    &&& valid_utf8(key_bytes)
    &&& c.key@ == decode_utf8(key_bytes)
    &&& c.value@ == value_bytes
    &&& c.only_if_absent == if_not_exist
    &&& c.expire_seconds == spec_expire_seconds(expiration, default_ttl)
}

/// The SET command for a key and a value already serialized: it fails exactly when
/// the key's bytes are not UTF-8 text.
pub fn command_from_bytes(
    key_bytes: Vec<u8>,
    value_bytes: Vec<u8>,
    if_not_exist: bool,
    expiration: Option<(u64, u32)>,
    default_ttl: u64,
) -> (r: Result<SetCommand, KvError>)
    ensures
        r is Ok <==> valid_utf8(key_bytes@),
        r matches Ok(c) ==> command_fits(c, key_bytes@, value_bytes@, if_not_exist, expiration, default_ttl),
        r matches Err(e) ==> (e matches KvError::Other(m) && exists|t: Seq<char>| m@ == "Invalid key UTF-8: "@ + t),
{
    let ghost kb = key_bytes@;
    let key = match key_from_bytes(key_bytes) {
        Ok(k) => k,
        Err(e) => return Err(e),
    };
    Ok(SetCommand {
        key,
        value: value_bytes,
        only_if_absent: if_not_exist,
        expire_seconds: expire_seconds(expiration, default_ttl),
    })
}

/// Whether `value` and `error` are the slot of an MGET reply: no reply (`read` is
/// `None`) gives no value and `KeyNotFound`; a value read gives it and no error; a value
/// that cannot be read gives no value and its error.
pub open spec fn slot_fits<V>(read: Option<Result<V, SerializerError>>, value: Option<V>, error: Option<KvError>) -> bool {
    match read {
        None => value is None && error matches Some(KvError::KeyNotFound),
        Some(Ok(v)) => value == Some(v) && error is None,
        Some(Err(e)) => value is None && (error matches Some(KvError::Other(m)) && m@ == "Deserialization failed: "@
            + e.spec_message()),
    }
}

/// The slot of an MGET reply, from what reading its value gave (`None` for no reply).
pub fn read_slot<V>(read: Option<Result<V, SerializerError>>) -> (r: (Option<V>, Option<KvError>))
    ensures
        slot_fits(read, r.0, r.1),
{
    match read {
        None => (None, Some(KvError::KeyNotFound)),
        Some(Ok(v)) => (Some(v), None),
        Some(Err(e)) => (None, Some(serialization_failure("Deserialization failed: ", e))),
    }
}

/// The error of a failed serialization, after `context`.
fn serialization_failure(context: &str, e: SerializerError) -> (r: KvError)
    ensures
        r matches KvError::Other(m) && m@ == context@ + e.spec_message(),
{
    let mut m = context.to_owned();
    let t = e.message();
    push_str(&mut m, t.as_str());
    KvError::Other(m)
}

/// The outcome of a SET: with NX, no reply means the key was already there.
pub fn set_outcome(only_if_absent: bool, reply: &Option<String>) -> (r: Result<(), KvError>)
    ensures
        only_if_absent && reply is None ==> r matches Err(KvError::ConditionFailed),
        !(only_if_absent && reply is None) ==> r is Ok,
{
    if only_if_absent && reply.is_none() {
        Err(KvError::ConditionFailed)
    } else {
        Ok(())
    }
}

/// The outcome of each SET of a batch.
pub fn batch_set_outcomes(only_if_absent: bool, replies: &Vec<Option<String>>) -> (r: Vec<Result<(), KvError>>)
    ensures
        r@.len() == replies@.len(),
        forall|i: int| 0 <= i < replies@.len() ==> {
            &&& (only_if_absent && replies@[i] is None ==> #[trigger] r@[i] matches Err(KvError::ConditionFailed))
            &&& (!(only_if_absent && replies@[i] is None) ==> r@[i] is Ok)
        },
{
    let mut r: Vec<Result<(), KvError>> = Vec::new();
    let mut i: usize = 0;
    while i < replies.len()
        invariant
            i <= replies@.len(),
            r@.len() == i,
            forall|j: int| 0 <= j < i ==> {
                &&& (only_if_absent && replies@[j] is None ==> #[trigger] r@[j] matches Err(KvError::ConditionFailed))
                &&& (!(only_if_absent && replies@[j] is None) ==> r@[j] is Ok)
            },
        decreases replies@.len() - i,
    {
        r.push(set_outcome(only_if_absent, &replies[i]));
        i += 1;
    }
    r
}

/// A store kept by a Redis server or cluster; keys and values are serialized with
/// the given serializers.
pub struct RedisStore<K, V, KS, VS> {
    client: redis::Client,
    key_serializer: KS,
    val_serializer: VS,
    default_ttl: u64,
    _phantom: std::marker::PhantomData<(K, V)>,
}

impl<K, V, KS: Serializer<K, Vec<u8>>, VS: Serializer<V, Vec<u8>>> RedisStore<K, V, KS, VS> {
    /// A store for the configured server or cluster; no connection is made yet.
    pub fn new(config: RedisStoreConfig, key_serializer: KS, val_serializer: VS) -> (r: Result<Self, RedisError>)
        ensures
            match spec_connection_url(config) {
                Err(m) => r matches Err(RedisError::InvalidConfig(e)) && e@ == m,
                Ok(u) => {
                    &&& r is Ok <==> redis_url_accepted(u)
                    &&& r matches Ok(s) ==> s.spec_default_ttl() == config.default_ttl
                    &&& r matches Err(e) ==> (e matches RedisError::InvalidConfig(m) && exists|t: Seq<char>|
                        m@ == #[trigger] (url_error_prefix(config) + t))
                },
            },
    {
        let url = match config.connection_url() {
            Ok(u) => u,
            Err(e) => return Err(e),
        };
        let single = match &config.endpoint {
            Some(e) => !e.as_str().is_empty(),
            None => false,
        };
        let client = match open_client(url) {
            Ok(c) => c,
            Err(t) => {
                let mut m = if single {
                    "Invalid connection URL: ".to_owned()
                } else {
                    "Invalid cluster URL: ".to_owned()
                };
                push_str(&mut m, t.as_str());
                proof {
                    assert(single == is_single(config));
                    assert(m@ == url_error_prefix(config) + t@);
                }
                return Err(RedisError::InvalidConfig(m));
            },
        };
        Ok(RedisStore {
            client,
            key_serializer,
            val_serializer,
            default_ttl: config.default_ttl,
            _phantom: std::marker::PhantomData,
        })
    }

    pub closed spec fn spec_default_ttl(&self) -> u64 {
        self.default_ttl
    }

    /// The key serializer the store was made with.
    pub closed spec fn spec_key_serializer(&self) -> KS {
        self.key_serializer
    }

    /// The value serializer the store was made with.
    pub closed spec fn spec_val_serializer(&self) -> VS {
        self.val_serializer
    }

    /// Whether the key serializer may turn `key` into `bytes`.
    pub open spec fn key_serializes(&self, key: K, bytes: Vec<u8>) -> bool {
        call_ensures(KS::serialize, (&self.spec_key_serializer(), key), Ok::<Vec<u8>, SerializerError>(bytes))
    }

    /// Whether the key serializer may fail on `key` with `e`.
    pub open spec fn key_refuses(&self, key: K, e: SerializerError) -> bool {
        call_ensures(KS::serialize, (&self.spec_key_serializer(), key), Err::<Vec<u8>, SerializerError>(e))
    }

    /// Whether the value serializer may turn `value` into `bytes`.
    pub open spec fn val_serializes(&self, value: V, bytes: Vec<u8>) -> bool {
        call_ensures(VS::serialize, (&self.spec_val_serializer(), value), Ok::<Vec<u8>, SerializerError>(bytes))
    }

    /// Whether the value serializer may fail on `value` with `e`.
    pub open spec fn val_refuses(&self, value: V, e: SerializerError) -> bool {
        call_ensures(VS::serialize, (&self.spec_val_serializer(), value), Err::<Vec<u8>, SerializerError>(e))
    }

    /// Whether the value serializer may read `bytes` as `out`.
    pub open spec fn val_reads(&self, bytes: Vec<u8>, out: Result<V, SerializerError>) -> bool {
        call_ensures(VS::deserialize, (&self.spec_val_serializer(), bytes), out)
    }

    /// Whether `s` is the command key of `key`: its serialization, read as UTF-8 text.
    pub open spec fn key_text_of(&self, key: K, s: String) -> bool {
        exists|kb: Vec<u8>| #[trigger] self.key_serializes(key, kb) && valid_utf8(kb@) && s@ == decode_utf8(kb@)
    }

    /// Whether `e` is the failure of making a command key of `key`: its serialization
    /// failed, or gave bytes that are not UTF-8 text.
    pub open spec fn key_text_failure(&self, key: K, e: KvError) -> bool {
        e matches KvError::Other(m) && (
            (exists|se: SerializerError| #[trigger] self.key_refuses(key, se) && m@ == "Key serialization failed: "@ + se.spec_message())
            || (exists|kb: Vec<u8>| #[trigger] self.key_serializes(key, kb) && !valid_utf8(kb@)
                && exists|t: Seq<char>| m@ == #[trigger] ("Invalid key UTF-8: "@ + t)))
    }

    /// Whether `c` is the SET command of `key` and `value` under `options`: both
    /// serialized, then put together as `command_fits` says.
    pub open spec fn command_of(&self, key: K, value: V, options: SetOptions, c: SetCommand) -> bool {
        exists|kb: Vec<u8>, vb: Vec<u8>|
            #![trigger self.key_serializes(key, kb), self.val_serializes(value, vb)]
            self.key_serializes(key, kb) && self.val_serializes(value, vb)
                && command_fits(c, kb@, vb@, options.if_not_exist, options.expiration, self.spec_default_ttl())
    }

    /// Whether `e` is the failure of building the SET command of `key` and `value`:
    /// the key's failure, or the value's serialization failed after the key's succeeded.
    pub open spec fn command_failure(&self, key: K, value: V, e: KvError) -> bool {
        self.key_text_failure(key, e) || (e matches KvError::Other(m) && exists|kb: Vec<u8>, se: SerializerError|
            #![trigger self.key_serializes(key, kb), self.val_refuses(value, se)]
            self.key_serializes(key, kb) && self.val_refuses(value, se)
                && m@ == "Value serialization failed: "@ + se.spec_message())
    }

    /// Whether `c` is the SET command of a copy of the `i`-th key and of the `i`-th value.
    pub open spec fn command_at(&self, keys: Seq<K>, vals: Seq<V>, options: SetOptions, i: int, c: SetCommand) -> bool
        where
            K: Clone,
            V: Clone,
    {
        exists|k: K, v: V|
            #![trigger cloned(keys[i], k), cloned(vals[i], v)]
            cloned(keys[i], k) && cloned(vals[i], v) && self.command_of(k, v, options, c)
    }

    /// Whether `s` is the command key of a copy of the `i`-th key.
    pub open spec fn key_text_at(&self, keys: Seq<K>, i: int, s: String) -> bool
        where
            K: Clone,
    {
        exists|k: K| #[trigger] cloned(keys[i], k) && self.key_text_of(k, s)
    }

    /// Whether `value` and `error` are the slot of the MGET reply `reply`: no reply
    /// gives `KeyNotFound`; otherwise what the value serializer read from the bytes.
    pub open spec fn slot_of_reply(&self, reply: Option<Vec<u8>>, value: Option<V>, error: Option<KvError>) -> bool {
        match reply {
            None => value is None && error matches Some(KvError::KeyNotFound),
            Some(b) => exists|b2: Vec<u8>, read: Result<V, SerializerError>|
                #![trigger self.val_reads(b2, read)]
                b2@ == b@ && self.val_reads(b2, read) && slot_fits(Some(read), value, error),
        }
    }

    /// The client the store was made with.
    pub closed spec fn spec_client(&self) -> redis::Client {
        self.client
    }

    /// The client that sends the commands: the one the store was made with.
    pub fn client(&self) -> (c: &redis::Client)
        ensures
            *c == self.spec_client(),
    {
        &self.client
    }

    /// The time to live, in seconds, given to keys when a set names none.
    pub fn default_ttl(&self) -> (r: u64)
        ensures
            r == self.spec_default_ttl(),
    {
        self.default_ttl
    }

    /// The key of a command for `key`: its serialization read as UTF-8 text.
    pub fn key_text(&self, key: K) -> (r: Result<String, KvError>)
        ensures
            r matches Ok(s) ==> self.key_text_of(key, s),
            r matches Err(e) ==> self.key_text_failure(key, e),
    {
        let ghost k = key;
        let bytes = match self.key_serializer.serialize(key) {
            Ok(b) => b,
            Err(e) => {
                proof {
                    assert(self.key_refuses(k, e));
                }
                return Err(serialization_failure("Key serialization failed: ", e));
            },
        };
        let ghost kb = bytes;
        assert(self.key_serializes(k, kb));
        let r = key_from_bytes(bytes);
        r
    }

    /// The SET command for `key` and `value`: NX when the set may only add, and the
    /// expiry from the options or else the store's default.
    pub fn set_command(&self, key: K, value: V, options: &SetOptions) -> (r: Result<SetCommand, KvError>)
        ensures
            r matches Ok(c) ==> self.command_of(key, value, *options, c),
            r matches Err(e) ==> self.command_failure(key, value, e),
    {
        let ghost k = key;
        let ghost v = value;
        let key_bytes = match self.key_serializer.serialize(key) {
            Ok(b) => b,
            Err(e) => {
                proof {
                    assert(self.key_refuses(k, e));
                }
                return Err(serialization_failure("Key serialization failed: ", e));
            },
        };
        let ghost kb = key_bytes;
        assert(self.key_serializes(k, kb));
        let value_bytes = match self.val_serializer.serialize(value) {
            Ok(b) => b,
            Err(e) => {
                proof {
                    assert(self.val_refuses(v, e));
                }
                return Err(serialization_failure("Value serialization failed: ", e));
            },
        };
        let ghost vb = value_bytes;
        assert(self.val_serializes(v, vb));
        let r = command_from_bytes(key_bytes, value_bytes, options.if_not_exist, options.expiration, self.default_ttl);
        proof {
            if r is Ok {
                assert(command_fits(r->Ok_0, kb@, vb@, options.if_not_exist, options.expiration, self.default_ttl));
            }
        }
        r
    }

    /// The SET commands of a batch, the i-th from the i-th key and value; the keys
    /// and values must pair up.
    pub fn batch_set_commands(&self, keys: &[K], vals: &[V], options: &SetOptions) -> (r: Result<Vec<SetCommand>, KvError>)
        where
            K: Clone,
            V: Clone,
        ensures
            keys@.len() != vals@.len() ==> (r matches Err(KvError::Other(m)) && m@ == length_mismatch_message()),
            keys@.len() == vals@.len() ==> (r matches Err(e) ==> exists|i: int, k: K, v: V|
                #![trigger cloned(keys@[i], k), cloned(vals@[i], v)]
                0 <= i < keys@.len() && cloned(keys@[i], k) && cloned(vals@[i], v) && self.command_failure(k, v, e)),
            keys@.len() == 0 && vals@.len() == 0 ==> (r matches Ok(cs) && cs@.len() == 0),
            r matches Ok(cs) ==> cs@.len() == keys@.len() && forall|i: int| 0 <= i < cs@.len() ==>
                self.command_at(keys@, vals@, *options, i, #[trigger] cs@[i]),
    {
        if keys.len() != vals.len() {
            return Err(KvError::Other("Keys and values length mismatch".to_owned()));
        }
        let n = keys.len();
        let mut out: Vec<SetCommand> = Vec::new();
        let mut i: usize = 0;
        while i < n
            invariant
                i <= n,
                n == keys@.len(),
                n == vals@.len(),
                out@.len() == i,
                forall|j: int| 0 <= j < i ==> self.command_at(keys@, vals@, *options, j, #[trigger] out@[j]),
            decreases n - i,
        {
            let k = keys[i].clone();
            let v = vals[i].clone();
            assert(cloned(keys@[i as int], k) && cloned(vals@[i as int], v));
            let c = match self.set_command(k, v, options) {
                Ok(c) => c,
                Err(e) => return Err(e),
            };
            let ghost old_out = out@;
            out.push(c);
            proof {
                assert(self.command_at(keys@, vals@, *options, i as int, c));
                assert forall|j: int| 0 <= j < i + 1 implies self.command_at(keys@, vals@, *options, j, #[trigger] out@[j]) by {
                    if j < i {
                        assert(out@[j] == old_out[j]);
                    }
                }
            }
            i += 1;
        }
        Ok(out)
    }

    /// The keys of a batch's commands, the i-th from the i-th key.
    pub fn batch_key_texts(&self, keys: &[K]) -> (r: Result<Vec<String>, KvError>)
        where
            K: Clone,
        ensures
            r matches Ok(ts) ==> ts@.len() == keys@.len() && forall|i: int| 0 <= i < ts@.len() ==>
                self.key_text_at(keys@, i, #[trigger] ts@[i]),
            r matches Err(e) ==> exists|i: int, k: K|
                0 <= i < keys@.len() && #[trigger] cloned(keys@[i], k) && self.key_text_failure(k, e),
    {
        let n = keys.len();
        let mut out: Vec<String> = Vec::new();
        let mut i: usize = 0;
        while i < n
            invariant
                i <= n,
                n == keys@.len(),
                out@.len() == i,
                forall|j: int| 0 <= j < i ==> self.key_text_at(keys@, j, #[trigger] out@[j]),
            decreases n - i,
        {
            let k = keys[i].clone();
            assert(cloned(keys@[i as int], k));
            let t = match self.key_text(k) {
                Ok(t) => t,
                Err(e) => return Err(e),
            };
            let ghost old_out = out@;
            out.push(t);
            proof {
                assert(self.key_text_at(keys@, i as int, t));
                assert forall|j: int| 0 <= j < i + 1 implies self.key_text_at(keys@, j, #[trigger] out@[j]) by {
                    if j < i {
                        assert(out@[j] == old_out[j]);
                    }
                }
            }
            i += 1;
        }
        Ok(out)
    }

    /// The outcome of a GET: no reply means the key is absent; otherwise what the value
    /// serializer reads from the bytes.
    pub fn get_outcome(&self, reply: Option<Vec<u8>>) -> (r: Result<V, KvError>)
        ensures
            reply is None ==> r matches Err(KvError::KeyNotFound),
            reply matches Some(b) ==> (r matches Ok(v) ==> self.val_reads(b, Ok(v))),
            reply matches Some(b) ==> (r matches Err(e) ==> exists|se: SerializerError|
                #[trigger] self.val_reads(b, Err(se)) && (e matches KvError::Other(m)
                    && m@ == "Value deserialization failed: "@ + se.spec_message())),
    {
        match reply {
            None => Err(KvError::KeyNotFound),
            Some(bytes) => {
                let ghost b = bytes;
                match self.val_serializer.deserialize(bytes) {
                    Ok(v) => Ok(v),
                    Err(e) => {
                        assert(self.val_reads(b, Err(e)));
                        Err(serialization_failure("Value deserialization failed: ", e))
                    },
                }
            },
        }
    }

    /// The values and errors of an MGET: no reply at all counts as no values; a missing
    /// key gives no value and `KeyNotFound`; a value that cannot be read gives no value
    /// and its error; a read value gives no error.
    pub fn batch_get_results(&self, replies: Option<Vec<Option<Vec<u8>>>>) -> (r: (Vec<Option<V>>, Vec<Option<KvError>>))
        ensures
            ({
                let rs = match replies {
                    Some(v) => v@,
                    None => Seq::empty(),
                };
                &&& r.0@.len() == rs.len()
                &&& r.1@.len() == rs.len()
                &&& forall|i: int| 0 <= i < rs.len() ==> #[trigger] self.slot_of_reply(rs[i], r.0@[i], r.1@[i])
            }),
    {
        let rs = match replies {
            Some(v) => v,
            None => Vec::new(),
        };
        let ghost all = rs@;
        let n = rs.len();
        let mut values: Vec<Option<V>> = Vec::new();
        let mut errors: Vec<Option<KvError>> = Vec::new();
        let mut i: usize = 0;
        while i < n
            invariant
                i <= n,
                n == all.len(),
                rs@ == all,
                values@.len() == i,
                errors@.len() == i,
                forall|j: int| 0 <= j < i ==> #[trigger] self.slot_of_reply(all[j], values@[j], errors@[j]),
            decreases n - i,
        {
            let ghost ov = values@;
            let ghost oe = errors@;
            let (v, e) = match &rs[i] {
                Some(bytes) => {
                    let b2 = bytes.clone();
                    assert(b2@ =~= bytes@);
                    let ghost g2 = b2;
                    let read = self.val_serializer.deserialize(b2);
                    assert(self.val_reads(g2, read));
                    let ghost rd = read;
                    let (v, e) = read_slot(Some(read));
                    assert(self.slot_of_reply(all[i as int], v, e));
                    (v, e)
                },
                None => read_slot(None),
            };
            values.push(v);
            errors.push(e);
            proof {
                assert forall|j: int| 0 <= j < i + 1 implies #[trigger] self.slot_of_reply(all[j], values@[j], errors@[j]) by {
                    if j < i {
                        assert(values@[j] == ov[j] && errors@[j] == oe[j]);
                    }
                }
            }
            i += 1;
        }
        (values, errors)
    }

    /// The outcome of each DEL of a batch: all succeed once the pipeline ran.
    pub fn batch_del_outcomes(&self, n: usize) -> (r: Vec<Result<(), KvError>>)
        ensures
            r@.len() == n,
            forall|i: int| 0 <= i < n ==> #[trigger] r@[i] is Ok,
    {
        let mut r: Vec<Result<(), KvError>> = Vec::new();
        let mut i: usize = 0;
        while i < n
            invariant
                i <= n,
                r@.len() == i,
                forall|j: int| 0 <= j < i ==> #[trigger] r@[j] is Ok,
            decreases n - i,
        {
            r.push(Ok(()));
            i += 1;
        }
        r
    }
}

} // verus!

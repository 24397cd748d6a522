//! The gateway's configuration: hooks by event, logging, the wire codec and the
//! message queue settings.
use indexmap::IndexMap;
use vstd::prelude::*;

verus! {

/// The ordered map from event name to hooks, as the configuration file lists it.
#[verifier::external_type_specification]
#[verifier::external_body]
#[verifier::reject_recursive_types(K)]
#[verifier::reject_recursive_types(V)]
#[verifier::reject_recursive_types(S)]
pub struct ExIndexMap<K, V, S>(IndexMap<K, V, S>);

/// Hooks by event name.
pub type HookMap = IndexMap<String, Hooks>;

/// The hooks that a hook map holds, by event name.
pub uninterp spec fn hook_map_contents(m: IndexMap<String, Hooks>) -> Map<Seq<char>, Hooks>;

/// Calls `IndexMap::get`. Its source hashes the key and returns the value of
/// the entry whose key equals it, or `None` when no entry has that key.
#[verifier::external_body]
pub(crate) fn hook_map_get<'a>(m: &'a HookMap, key: &str) -> (r: Option<&'a Hooks>)
    ensures
        r is Some <==> hook_map_contents(*m).contains_key(key@),
        r matches Some(h) ==> *h == hook_map_contents(*m)[key@],
{
    m.get(key)
}

/// Where a hook sends the event: a local template path, or a web endpoint.
#[derive(Debug, Clone, PartialEq, Eq)]
pub enum HookVariant {
    Path { path: String },
    Webhook { endpoint: String, accept: String, render: Option<String> },
}

/// The media type a webhook accepts when the configuration names none.
pub fn default_accept() -> (s: String)
    ensures
        s@ == "application/json"@,
{
    "application/json".to_owned()
}

/// A hook, which may be switched off.
#[derive(Debug, Clone, PartialEq, Eq)]
pub struct Hook {
    pub disable: bool,
    pub variant: HookVariant,
}

impl Hook {
    /// A webhook to `endpoint` with the default accepted media type and no
    /// render template, switched on.
    pub fn webhook(endpoint: String) -> (h: Hook)
        ensures
            !h.disable,
            h.variant matches HookVariant::Webhook { endpoint: e, accept, render }
                && e == endpoint && accept@ == "application/json"@ && render is None,
    {
        Hook {
            disable: false,
            variant: HookVariant::Webhook { endpoint, accept: default_accept(), render: None },
        }
    }
}

/// The hooks of one event, in the order the configuration lists them.
#[derive(Debug, Clone, PartialEq, Eq)]
pub struct Hooks(pub Vec<Hook>);

impl Hooks {
    /// The hooks, in order.
    pub fn as_vec(&self) -> (v: &Vec<Hook>)
        ensures
            *v == self.0,
    {
        &self.0
    }

    /// How many hooks there are.
    pub fn len(&self) -> (n: usize)
        ensures
            n == self.0.len(),
    {
        self.0.len()
    }
}

/// How log lines are written.
#[allow(non_camel_case_types)]
#[derive(Debug, Clone, PartialEq, Eq)]
pub enum LogFormat {
    json,
    compact,
}

impl Default for LogFormat {
    /// Compact lines, unless the configuration asks for JSON.
    fn default() -> (f: LogFormat)
        ensures
            f is compact,
    {
        LogFormat::compact
    }
}

/// The logging settings.
#[derive(Debug, Clone, PartialEq, Eq)]
pub struct Log {
    pub format: LogFormat,
}

/// The encoding of messages on the client connection.
#[derive(Debug, Clone, Copy, PartialEq, Eq)]
pub enum CodecType {
    Json,
    Cbor,
}

impl CodecType {
    /// The name of the codec in a connection URL.
    pub fn as_str(&self) -> (s: &'static str)
        ensures
            self is Json ==> s@ == "json"@,
            self is Cbor ==> s@ == "cbor"@,
    {
        match self {
            CodecType::Json => "json",
            CodecType::Cbor => "cbor",
        }
    }
}

impl CodecType {
    /// The codec named by `s`, when it is one of the names `as_str` gives.
    pub fn parse(s: &str) -> (r: Option<CodecType>)
        ensures
            s@ == "json"@ ==> r matches Some(CodecType::Json),
            s@ == "cbor"@ ==> r matches Some(CodecType::Cbor),
            s@ != "json"@ && s@ != "cbor"@ ==> r is None,
    {
        proof {
            reveal_strlit("json");
            reveal_strlit("cbor");
            assert("json"@[0] != "cbor"@[0]);
        }
        let t = s.to_owned();
        if t == "json".to_owned() {
            Some(CodecType::Json)
        } else if t == "cbor".to_owned() {
            Some(CodecType::Cbor)
        } else {
            None
        }
    }
}

impl Default for CodecType {
    /// CBOR, the primary wire encoding.
    fn default() -> (c: CodecType)
        ensures
            c is Cbor,
    {
        CodecType::Cbor
    }
}

/// Where the gateway consumes incoming messages.
#[derive(Debug, Clone, PartialEq, Eq)]
pub struct KafkaIncomeConfig {
    pub broker: Vec<String>,
    pub topic: Vec<String>,
    pub group: Option<String>,
}

/// Where the gateway produces outgoing messages.
#[derive(Debug, Clone, PartialEq, Eq)]
pub struct KafkaOutgoConfig {
    pub broker: Vec<String>,
    pub topic: String,
}

/// The incoming queue.
#[allow(non_camel_case_types)]
#[derive(Debug, Clone, PartialEq, Eq)]
pub enum QueueIncome {
    kafka(KafkaIncomeConfig),
}

/// The outgoing queue.
#[allow(non_camel_case_types)]
#[derive(Debug, Clone, PartialEq, Eq)]
pub enum QueueOutgo {
    kafka(KafkaOutgoConfig),
}

/// The message queue settings.
#[derive(Debug, Clone, PartialEq, Eq)]
pub struct Queue {
    pub disable: bool,
    pub outgo: QueueOutgo,
    pub income: QueueIncome,
}

/// The whole gateway configuration.
pub struct Config {
    pub queue: Queue,
    pub hooks: HookMap,
    pub trace: Log,
    pub login_with_cookie: bool,
    pub codec: CodecType,
}

/// The consumer group a queue consumer joins: the configured one, else `default`.
pub fn consumer_group(cfg: &KafkaIncomeConfig) -> (g: String)
    ensures
        cfg.group matches Some(x) ==> g@ == x@,
        cfg.group is None ==> g@ == "default"@,
{
    match &cfg.group {
        Some(x) => x.clone(),
        None => "default".to_owned(),
    }
}

/// The client settings of the queue producer, as key and value: the first
/// broker, and a five-second delivery timeout.
pub fn producer_settings(cfg: &KafkaOutgoConfig) -> (s: Vec<(String, String)>)
    requires
        cfg.broker.len() > 0,
    ensures
        s@.len() == 2,
        s@[0].0@ == "bootstrap.servers"@ && s@[0].1@ == cfg.broker@[0]@,
        s@[1].0@ == "message.timeout.ms"@ && s@[1].1@ == "5000"@,
{
    let mut s: Vec<(String, String)> = Vec::new();
    s.push(("bootstrap.servers".to_owned(), cfg.broker[0].clone()));
    s.push(("message.timeout.ms".to_owned(), "5000".to_owned()));
    s
}

/// The client settings of the queue consumer, as key and value: its group, the
/// first broker, no end-of-partition events, a six-second session timeout and
/// automatic offset commits.
pub fn consumer_settings(cfg: &KafkaIncomeConfig) -> (s: Vec<(String, String)>)
    requires
        cfg.broker.len() > 0,
    ensures
        s@.len() == 5,
        s@[0].0@ == "group.id"@,
        cfg.group matches Some(x) ==> s@[0].1@ == x@,
        cfg.group is None ==> s@[0].1@ == "default"@,
        s@[1].0@ == "bootstrap.servers"@ && s@[1].1@ == cfg.broker@[0]@,
        s@[2].0@ == "enable.partition.eof"@ && s@[2].1@ == "false"@,
        s@[3].0@ == "session.timeout.ms"@ && s@[3].1@ == "6000"@,
        s@[4].0@ == "enable.auto.commit"@ && s@[4].1@ == "true"@,
{
    let mut s: Vec<(String, String)> = Vec::new();
    s.push(("group.id".to_owned(), consumer_group(cfg)));
    s.push(("bootstrap.servers".to_owned(), cfg.broker[0].clone()));
    s.push(("enable.partition.eof".to_owned(), "false".to_owned()));
    s.push(("session.timeout.ms".to_owned(), "6000".to_owned()));
    s.push(("enable.auto.commit".to_owned(), "true".to_owned()));
    s
}

} // verus!

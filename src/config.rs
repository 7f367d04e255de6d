//! The relay's manifest: server binding, the environment it depends on, and
//! the rules by which webhook calls are relayed.
use vstd::prelude::*;
use vstd::string::*;

verus! {

/// The source that marks a header mapping as taking its value from the inbound request.
pub const FROM_REQUEST: &'static str = "from request";

/// The whole manifest, as loaded once at start-up.
pub struct Manifest {
    pub server: Server,
    pub webhook: Webhook,
}

/// Where the relay listens, and the environment variables it needs.
pub struct Server {
    pub address: String,
    pub port: String,
    pub env: Vec<String>,
}

/// Where calls are relayed to, and how their headers are rebuilt.
pub struct Webhook {
    /// Base of the outbound URL.
    pub url: String,
    /// Names of environment variables whose values are appended to `url` as path segments.
    pub params: Vec<String>,
    /// Topic identifiers, in the order in which they are tried.
    pub topics: Vec<String>,
    /// Outbound headers, in declared order.
    pub headers: Vec<HeaderMapping>,
    pub hash: Hash,
    pub rehash: Rehash,
}

/// Whether a signature header is required, and its name.
pub struct Hash {
    pub is_required: bool,
    pub header: String,
}

/// Whether the signature is recomputed, and the environment variable that holds the secret.
pub struct Rehash {
    pub is_required: bool,
    pub secret: String,
}

/// Where an outbound header takes its value from.
pub enum HeaderSource {
    /// The next value extracted from the inbound request.
    FromRequest,
    /// The value of the named environment variable.
    Env(String),
}

/// One outbound header: its name and the source of its value.
pub struct HeaderMapping {
    pub name: String,
    pub source: HeaderSource,
}

/// A manifest that cannot be put to use.
pub enum ConfigError {
    /// A header row that is not exactly a name and a source; it carries the row's length.
    MalformedHeader(usize),
    /// An environment variable that the manifest names and the environment lacks.
    MissingEnv(String),
}

/// The source that a manifest row's second cell denotes.
pub open spec fn source_of(cell: Seq<char>) -> HeaderSourceModel {
    if cell == FROM_REQUEST@ {
        HeaderSourceModel::FromRequest
    } else {
        HeaderSourceModel::Env(cell)
    }
}

/// The mathematical form of a header source.
pub enum HeaderSourceModel {
    FromRequest,
    Env(Seq<char>),
}

impl HeaderSource {
    pub open spec fn model(&self) -> HeaderSourceModel {
        match self {
            HeaderSource::FromRequest => HeaderSourceModel::FromRequest,
            HeaderSource::Env(n) => HeaderSourceModel::Env(n@),
        }
    }
}

impl HeaderMapping {
    /// Reads a manifest row `[name, source]`.
    pub fn from_row(row: &Vec<String>) -> (r: Result<HeaderMapping, ConfigError>)
        ensures
            row@.len() != 2 <==> r is Err,
            r is Err ==> r == Err::<HeaderMapping, ConfigError>(ConfigError::MalformedHeader(row@.len() as usize)),
            r matches Ok(m) ==> m.name@ == row@[0]@ && m.source.model() == source_of(row@[1]@),
    {
        if row.len() != 2 {
            return Err(ConfigError::MalformedHeader(row.len()));
        }
        let marker = String::from_str(FROM_REQUEST);
        let source = if row[1] == marker {
            HeaderSource::FromRequest
        } else {
            HeaderSource::Env(row[1].clone())
        };
        Ok(HeaderMapping { name: row[0].clone(), source })
    }
}

impl Server {
    /// The `address:port` that the relay binds to.
    pub fn bind_address(&self) -> (r: String)
        ensures
            r@ == self.address@ + ":"@ + self.port@,
    {
        let mut r = self.address.clone();
        r.append(":");
        r.append(self.port.as_str());
        r
    }
}

} // verus!

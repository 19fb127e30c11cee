//! Broker topology: the three exchanges, the publisher and subscriber roles
//! bound to them, and the choice of transport for a broker endpoint.

use vstd::prelude::*;
use crate::jobs::{parse_url, url_host_of, url_parses, url_port_of, url_scheme_of};

verus! {

/// Declaration parameters of one exchange.
#[derive(Clone, Copy)]
pub struct ExchangeConfig {
    pub exchange_name: &'static str,
    pub exchange_type: &'static str,
    pub durable: bool,
}

/// A publishing role: the exchange it declares and, where fixed, the routing
/// key its messages carry.
#[derive(Clone, Copy)]
pub struct PublisherConfig {
    pub exchange_config: ExchangeConfig,
    pub routing_key: Option<&'static str>,
}

/// A consuming role: the exchange, the queue bound to it and its bindings.
#[derive(Clone)]
pub struct SubscriberConfig {
    pub exchange_config: ExchangeConfig,
    pub queue_name: Option<String>,
    pub routing_keys: Option<Vec<String>>,
    pub durable: bool,
}

pub enum PublisherType {
    JobPublisher,
    ResultPublisher,
    StatusPublisher,
}

pub enum SubscriberType {
    JobSubscriber,
    ResultSubscriber,
    StatusSubscriber,
}

pub enum ExchangeType {
    JobExchange,
    ResultExchange,
    StatusExchange,
}

/// Name, kind and durability of each exchange; all three are durable.
pub open spec fn exchange_spec(t: ExchangeType) -> (Seq<char>, Seq<char>) {
    match t {
        ExchangeType::JobExchange => ("job_exchange"@, "topic"@),
        ExchangeType::ResultExchange => ("result_exchange"@, "direct"@),
        ExchangeType::StatusExchange => ("status_exchange"@, "direct"@),
    }
}

pub open spec fn exchange_matches(c: ExchangeConfig, t: ExchangeType) -> bool {
    &&& c.exchange_name@ == exchange_spec(t).0
    &&& c.exchange_type@ == exchange_spec(t).1
    &&& c.durable
}

pub fn get_exchange_config(exchange_type: ExchangeType) -> (r: ExchangeConfig)
    ensures
        exchange_matches(r, exchange_type),
{
    match exchange_type {
        ExchangeType::JobExchange => ExchangeConfig {
            exchange_name: "job_exchange",
            exchange_type: "topic",
            durable: true,
        },
        ExchangeType::ResultExchange => ExchangeConfig {
            exchange_name: "result_exchange",
            exchange_type: "direct",
            durable: true,
        },
        ExchangeType::StatusExchange => ExchangeConfig {
            exchange_name: "status_exchange",
            exchange_type: "direct",
            durable: true,
        },
    }
}

pub fn get_publisher_config(pub_type: PublisherType) -> (r: PublisherConfig)
    ensures
        match pub_type {
            PublisherType::JobPublisher => {
                &&& exchange_matches(r.exchange_config, ExchangeType::JobExchange)
                &&& r.routing_key is None
            },
            PublisherType::ResultPublisher => {
                &&& exchange_matches(r.exchange_config, ExchangeType::ResultExchange)
                &&& r.routing_key matches Some(k) && k@ == "worker_result"@
            },
            PublisherType::StatusPublisher => {
                &&& exchange_matches(r.exchange_config, ExchangeType::StatusExchange)
                &&& r.routing_key matches Some(k) && k@ == "worker_status"@
            },
        },
{
    match pub_type {
        PublisherType::JobPublisher => PublisherConfig {
            exchange_config: get_exchange_config(ExchangeType::JobExchange),
            routing_key: None,
        },
        PublisherType::ResultPublisher => PublisherConfig {
            exchange_config: get_exchange_config(ExchangeType::ResultExchange),
            routing_key: Some("worker_result"),
        },
        PublisherType::StatusPublisher => PublisherConfig {
            exchange_config: get_exchange_config(ExchangeType::StatusExchange),
            routing_key: Some("worker_status"),
        },
    }
}


pub open spec fn bound_to(c: SubscriberConfig, queue: Seq<char>, key: Seq<char>) -> bool {
    &&& c.queue_name matches Some(q) && q@ == queue
    &&& c.routing_keys matches Some(ks) && ks@.len() == 1 && ks@[0]@ == key
}

/// The job subscriber's queue and bindings are left open: each worker names
/// its queue after itself and binds it to its own topics.
pub fn get_subscriber_config(sub_type: SubscriberType) -> (r: SubscriberConfig)
    ensures
        match sub_type {
            SubscriberType::JobSubscriber => {
                &&& exchange_matches(r.exchange_config, ExchangeType::JobExchange)
                &&& r.queue_name is None
                &&& r.routing_keys is None
                &&& !r.durable
            },
            SubscriberType::ResultSubscriber => {
                &&& exchange_matches(r.exchange_config, ExchangeType::ResultExchange)
                &&& bound_to(r, "result_queue"@, "worker_result"@)
                &&& r.durable
            },
            SubscriberType::StatusSubscriber => {
                &&& exchange_matches(r.exchange_config, ExchangeType::StatusExchange)
                &&& bound_to(r, "status_queue"@, "worker_status"@)
                &&& r.durable
            },
        },
{
    match sub_type {
        SubscriberType::JobSubscriber => SubscriberConfig {
            exchange_config: get_exchange_config(ExchangeType::JobExchange),
            queue_name: None,
            routing_keys: None,
            durable: false,
        },
        SubscriberType::ResultSubscriber => {
            let mut keys: Vec<String> = Vec::new();
            keys.push(String::from_str("worker_result"));
            SubscriberConfig {
                exchange_config: get_exchange_config(ExchangeType::ResultExchange),
                queue_name: Some(String::from_str("result_queue")),
                routing_keys: Some(keys),
                durable: true,
            }
        },
        SubscriberType::StatusSubscriber => {
            let mut keys: Vec<String> = Vec::new();
            keys.push(String::from_str("worker_status"));
            SubscriberConfig {
                exchange_config: get_exchange_config(ExchangeType::StatusExchange),
                queue_name: Some(String::from_str("status_queue")),
                routing_keys: Some(keys),
                durable: true,
            }
        },
    }
}

impl SubscriberConfig {
    /// Names the queue that the subscriber declares.
    pub fn set_queue_name(&mut self, queue_name: String)
        ensures
            final(self).queue_name == Some(queue_name),
            final(self).exchange_config == old(self).exchange_config,
            final(self).routing_keys == old(self).routing_keys,
            final(self).durable == old(self).durable,
    {
        self.queue_name = Some(queue_name);
    }

    /// Sets the routing keys that the queue is bound with.
    pub fn set_routing_keys(&mut self, routing_keys: Vec<String>)
        ensures
            final(self).routing_keys == Some(routing_keys),
            final(self).exchange_config == old(self).exchange_config,
            final(self).queue_name == old(self).queue_name,
            final(self).durable == old(self).durable,
    {
        self.routing_keys = Some(routing_keys);
    }
}

/// How the broker connection is carried.
#[derive(PartialEq, Eq, Structural, Clone, Copy, Debug)]
pub enum Transport {
    Plain,
    Tls,
}

pub open spec fn transport_spec(scheme: Seq<char>) -> Option<Transport> {
    if scheme == "amqp"@ || scheme == "http"@ {
        Some(Transport::Plain)
    } else if scheme == "amqps"@ || scheme == "amqps+ssl"@ || scheme == "amqps+tls"@
        || scheme == "https"@ {
        Some(Transport::Tls)
    } else {
        None
    }
}

/// Port used when the broker endpoint names none.
pub const DEFAULT_BROKER_PORT: u16 = 5672;

/// Equality of two strings, character by character.
pub fn str_equal(a: &str, b: &str) -> (r: bool)
    ensures
        r == (a@ == b@),
{
    let n = a.unicode_len();
    if n != b.unicode_len() {
        return false;
    }
    let mut i: usize = 0;
    while i < n
        invariant
            n == a@.len(),
            n == b@.len(),
            i <= n,
            forall|j: int| 0 <= j < i ==> a@[j] == b@[j],
        decreases n - i,
    {
        if a.get_char(i) != b.get_char(i) {
            return false;
        }
        i = i + 1;
    }
    assert(a@ =~= b@);
    true
}

/// Transport selected by an endpoint's URL scheme: `amqp` and `http` are
/// plain; `amqps`, `amqps+ssl`, `amqps+tls` and `https` are TLS without
/// client authentication; any other scheme is refused.
pub fn transport_for_scheme(scheme: &str) -> (r: Option<Transport>)
    ensures
        r == transport_spec(scheme@),
{
    if str_equal(scheme, "amqp") || str_equal(scheme, "http") {
        Some(Transport::Plain)
    } else if str_equal(scheme, "amqps") || str_equal(scheme, "amqps+ssl") || str_equal(
        scheme,
        "amqps+tls",
    ) || str_equal(scheme, "https") {
        Some(Transport::Tls)
    } else {
        None
    }
}


/// Where and how to reach the broker.
pub struct BrokerEndpoint {
    pub host: String,
    pub port: u16,
    pub transport: Transport,
}

/// Why a broker endpoint cannot be used.
#[derive(Clone, Copy, PartialEq, Eq, Structural, Debug)]
pub enum EndpointError {
    InvalidUrl,
    MissingHost,
    InvalidScheme,
}

/// Reads a broker endpoint URL, given the outcome of parsing it: its host,
/// its port (5672 when none is written) and the transport its scheme
/// selects.
pub fn endpoint_from_parts(parsed: Option<crate::jobs::ParsedUrl>) -> (r: Result<BrokerEndpoint, EndpointError>)
    ensures
        parsed is None ==> r == Err::<BrokerEndpoint, _>(EndpointError::InvalidUrl),
        parsed matches Some(u) ==> {
            &&& u.host is None ==> r == Err::<BrokerEndpoint, _>(EndpointError::MissingHost)
            &&& u.host is Some && transport_spec(u.scheme@) is None ==> r == Err::<
                BrokerEndpoint,
                _,
            >(EndpointError::InvalidScheme)
            &&& r matches Ok(e) ==> {
                &&& u.host matches Some(h) && e.host@ == h@
                &&& e.port == match u.port {
                    Some(p) => p,
                    None => DEFAULT_BROKER_PORT,
                }
                &&& transport_spec(u.scheme@) == Some(e.transport)
            }
            &&& u.host is Some && transport_spec(u.scheme@) is Some ==> r is Ok
        },
{
    let u = match parsed {
        None => return Err(EndpointError::InvalidUrl),
        Some(u) => u,
    };
    let host = match u.host {
        None => return Err(EndpointError::MissingHost),
        Some(h) => h,
    };
    let transport = match transport_for_scheme(u.scheme.as_str()) {
        None => return Err(EndpointError::InvalidScheme),
        Some(t) => t,
    };
    let port = match u.port {
        Some(p) => p,
        None => DEFAULT_BROKER_PORT,
    };
    Ok(BrokerEndpoint { host, port, transport })
}

/// Reads the broker endpoint URL `endpoint`.
pub fn broker_endpoint(endpoint: &str) -> (r: Result<BrokerEndpoint, EndpointError>)
    ensures
        !url_parses(endpoint@) ==> r == Err::<BrokerEndpoint, _>(EndpointError::InvalidUrl),
        url_parses(endpoint@) && url_host_of(endpoint@) is None ==> r == Err::<BrokerEndpoint, _>(
            EndpointError::MissingHost,
        ),
        url_parses(endpoint@) && url_host_of(endpoint@) is Some && transport_spec(
            url_scheme_of(endpoint@),
        ) is None ==> r == Err::<BrokerEndpoint, _>(EndpointError::InvalidScheme),
        r matches Ok(e) ==> {
            &&& url_host_of(endpoint@) == Some(e.host@)
            &&& e.port == match url_port_of(endpoint@) {
                Some(p) => p,
                None => DEFAULT_BROKER_PORT,
            }
            &&& transport_spec(url_scheme_of(endpoint@)) == Some(e.transport)
        },
        url_parses(endpoint@) && url_host_of(endpoint@) is Some && transport_spec(
            url_scheme_of(endpoint@),
        ) is Some ==> r is Ok,
{
    endpoint_from_parts(parse_url(endpoint))
}

} // verus!

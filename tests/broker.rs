use netbench::broker::{
    broker_endpoint, EndpointError, get_exchange_config, get_publisher_config, get_subscriber_config, transport_for_scheme,
    ExchangeType, PublisherType, SubscriberType, Transport, DEFAULT_BROKER_PORT,
};

#[test]
fn exchanges_have_fixed_names_and_kinds() {
    let job = get_exchange_config(ExchangeType::JobExchange);
    assert_eq!(job.exchange_name, "job_exchange");
    assert_eq!(job.exchange_type, "topic");
    assert!(job.durable);
    let result = get_exchange_config(ExchangeType::ResultExchange);
    assert_eq!(result.exchange_name, "result_exchange");
    assert_eq!(result.exchange_type, "direct");
    assert!(result.durable);
    let status = get_exchange_config(ExchangeType::StatusExchange);
    assert_eq!(status.exchange_name, "status_exchange");
    assert_eq!(status.exchange_type, "direct");
    assert!(status.durable);
}

#[test]
fn publishers_carry_their_routing_keys() {
    let job = get_publisher_config(PublisherType::JobPublisher);
    assert_eq!(job.exchange_config.exchange_name, "job_exchange");
    assert_eq!(job.routing_key, None);
    let result = get_publisher_config(PublisherType::ResultPublisher);
    assert_eq!(result.exchange_config.exchange_name, "result_exchange");
    assert_eq!(result.routing_key, Some("worker_result"));
    let status = get_publisher_config(PublisherType::StatusPublisher);
    assert_eq!(status.exchange_config.exchange_name, "status_exchange");
    assert_eq!(status.routing_key, Some("worker_status"));
}

#[test]
fn subscribers_declare_their_queues() {
    let job = get_subscriber_config(SubscriberType::JobSubscriber);
    assert_eq!(job.exchange_config.exchange_name, "job_exchange");
    assert!(job.queue_name.is_none());
    assert!(job.routing_keys.is_none());
    assert!(!job.durable);
    let result = get_subscriber_config(SubscriberType::ResultSubscriber);
    assert_eq!(result.queue_name.as_deref(), Some("result_queue"));
    assert_eq!(result.routing_keys, Some(vec!["worker_result".to_string()]));
    assert!(result.durable);
    let status = get_subscriber_config(SubscriberType::StatusSubscriber);
    assert_eq!(status.queue_name.as_deref(), Some("status_queue"));
    assert_eq!(status.routing_keys, Some(vec!["worker_status".to_string()]));
    assert!(status.durable);
}

#[test]
fn job_subscriber_is_named_after_the_worker() {
    let mut job = get_subscriber_config(SubscriberType::JobSubscriber);
    job.set_queue_name("worker-1".to_string());
    job.set_routing_keys(vec!["eu".to_string(), "all".to_string()]);
    assert_eq!(job.queue_name.as_deref(), Some("worker-1"));
    assert_eq!(job.routing_keys, Some(vec!["eu".to_string(), "all".to_string()]));
    assert_eq!(job.exchange_config.exchange_name, "job_exchange");
}

#[test]
fn scheme_selects_transport() {
    assert_eq!(transport_for_scheme("amqp"), Some(Transport::Plain));
    assert_eq!(transport_for_scheme("http"), Some(Transport::Plain));
    assert_eq!(transport_for_scheme("amqps"), Some(Transport::Tls));
    assert_eq!(transport_for_scheme("amqps+ssl"), Some(Transport::Tls));
    assert_eq!(transport_for_scheme("amqps+tls"), Some(Transport::Tls));
    assert_eq!(transport_for_scheme("https"), Some(Transport::Tls));
    assert_eq!(transport_for_scheme("ftp"), None);
    assert_eq!(transport_for_scheme(""), None);
    assert_eq!(DEFAULT_BROKER_PORT, 5672);
}

#[test]
fn endpoint_gives_host_port_and_transport() {
    let e = broker_endpoint("amqps://Broker.Example:5671").ok().unwrap();
    assert_eq!(e.host, "Broker.Example");
    assert_eq!(e.port, 5671);
    assert_eq!(e.transport, Transport::Tls);
    let e = broker_endpoint("amqp://localhost").ok().unwrap();
    assert_eq!(e.host, "localhost");
    assert_eq!(e.port, 5672);
    assert_eq!(e.transport, Transport::Plain);
    assert_eq!(broker_endpoint("nonsense").err(), Some(EndpointError::InvalidUrl));
    assert_eq!(broker_endpoint("ftp://host").err(), Some(EndpointError::InvalidScheme));
    assert_eq!(broker_endpoint("amqp:opaque").err(), Some(EndpointError::MissingHost));
}

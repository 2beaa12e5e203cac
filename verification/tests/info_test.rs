use rustydocker::info::{names_text, port_text, ports_text, short_id};
use rustydocker::model::{ContainerPort, ContainerSummary};

#[test]
fn names_without_slashes_joined() {
    let c = ContainerSummary { names: Some(vec!["/web".to_string(), "//alias".to_string()]), ..Default::default() };
    assert_eq!(names_text(&c), "web, alias");
    assert_eq!(names_text(&ContainerSummary::default()), "N/A");
    let c = ContainerSummary { names: Some(vec![]), ..Default::default() };
    assert_eq!(names_text(&c), "");
}

#[test]
fn short_ids() {
    let c = ContainerSummary { id: Some("0123456789abcdef".to_string()), ..Default::default() };
    assert_eq!(short_id(&c), "0123456789ab");
    assert_eq!(short_id(&ContainerSummary::default()), "N/A");
}

#[test]
fn port_mappings() {
    let published = ContainerPort {
        ip: Some("127.0.0.1".to_string()),
        private_port: 80,
        public_port: Some(8080),
        typ: Some("tcp".to_string()),
    };
    assert_eq!(port_text(&published), "127.0.0.1:8080->80/tcp");
    let unpublished = ContainerPort { ip: None, private_port: 5432, public_port: None, typ: None };
    assert_eq!(port_text(&unpublished), "5432");
    let default_ip = ContainerPort { ip: None, private_port: 53, public_port: Some(53), typ: Some("udp".to_string()) };
    assert_eq!(port_text(&default_ip), "0.0.0.0:53->53/udp");
    let c = ContainerSummary { ports: Some(vec![published, unpublished]), ..Default::default() };
    assert_eq!(ports_text(&c), "127.0.0.1:8080->80/tcp, 5432");
    assert_eq!(ports_text(&ContainerSummary::default()), "None");
}

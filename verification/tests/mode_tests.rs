use fas_rs::error::Error;
use fas_rs::mode::{Mode, Node, PolicyConfig};

#[test]
fn mode_names_round_trip() {
    for m in [Mode::Powersave, Mode::Balance, Mode::Performance, Mode::Fast] {
        let name = m.to_string();
        assert_eq!(Mode::from_str(&name), Ok(m));
    }
    assert_eq!(Mode::Performance.to_string(), "performance");
}

#[test]
fn unknown_mode_is_parse_node() {
    assert_eq!(Mode::from_str("turbo"), Err(Error::ParseNode));
    assert_eq!(Mode::from_str(" fast"), Err(Error::ParseNode));
}

#[test]
fn node_reads_mode_after_trimming() {
    let mut node = Node::init(0);
    assert_eq!(node.get_mode(), Err(Error::NodeNotFound));
    node.insert("mode".to_string(), "fast\n".to_string());
    assert_eq!(node.get_mode(), Ok(Mode::Fast));
    node.insert("mode".to_string(), "nonsense".to_string());
    assert_eq!(node.get_mode(), Err(Error::ParseNode));
    assert_eq!(node.get_node("pid"), Err(Error::NodeNotFound));
    node.insert("pid".to_string(), "123".to_string());
    assert_eq!(node.get_node("pid"), Ok("123".to_string()));
}

#[test]
fn node_refresh_after_a_second() {
    let node = Node::init(5);
    assert!(!node.needs_refresh(5));
    assert!(!node.needs_refresh(1_000_000_005));
    assert!(node.needs_refresh(1_000_000_006));
}

#[test]
fn policy_config_per_mode() {
    assert_eq!(
        PolicyConfig::new(Mode::Balance),
        PolicyConfig { jank_scale: 58_000_000, big_jank_scale: 83_000_000 }
    );
    assert_eq!(
        PolicyConfig::new(Mode::Fast),
        PolicyConfig { jank_scale: 41_000_000, big_jank_scale: 58_000_000 }
    );
}

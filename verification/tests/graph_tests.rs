use daw_core::graph_interface::{ConnectionError, GraphTopology, NodeID, PortType};

#[test]
fn add_and_connect_nodes() {
    let mut g = GraphTopology::new();
    let a = g.add_new_node(0, 1);
    let b = g.add_new_node(2, 1);
    assert_eq!(a, NodeID(0));
    assert_eq!(b, NodeID(1));
    assert!(g.add_port_connection(PortType::StereoAudio, a, 0, b, 0).is_ok());
    let snap = g.compile();
    assert_eq!(snap.nodes.len(), 2);
    assert_eq!(snap.connections.len(), 1);
    assert_eq!(snap.connections[0].source_node, a);
    assert_eq!(snap.connections[0].dest_node, b);
}

#[test]
fn connection_error_kinds() {
    let mut g = GraphTopology::new();
    let a = g.add_new_node(0, 1);
    let b = g.add_new_node(1, 1);
    let ghost_node = NodeID(99);
    assert_eq!(
        g.add_port_connection(PortType::StereoAudio, ghost_node, 0, b, 0),
        Err(ConnectionError::SourceNodeNotFound)
    );
    assert_eq!(
        g.add_port_connection(PortType::StereoAudio, a, 0, ghost_node, 0),
        Err(ConnectionError::DestNodeNotFound)
    );
    assert_eq!(
        g.add_port_connection(PortType::StereoAudio, a, 5, b, 0),
        Err(ConnectionError::SourcePortOutOfRange)
    );
    assert_eq!(
        g.add_port_connection(PortType::StereoAudio, a, 0, b, 5),
        Err(ConnectionError::DestPortOutOfRange)
    );
    assert!(g.add_port_connection(PortType::StereoAudio, a, 0, b, 0).is_ok());
    assert_eq!(
        g.add_port_connection(PortType::StereoAudio, a, 0, b, 0),
        Err(ConnectionError::DestPortOccupied)
    );
}

#[test]
fn remove_node_severs_connections() {
    let mut g = GraphTopology::new();
    let a = g.add_new_node(0, 1);
    let b = g.add_new_node(0, 1);
    let mix = g.add_new_node(2, 1);
    g.add_port_connection(PortType::StereoAudio, a, 0, mix, 0).unwrap();
    g.add_port_connection(PortType::StereoAudio, b, 0, mix, 1).unwrap();
    assert!(g.remove_node(a).is_ok());
    let snap = g.compile();
    assert_eq!(snap.nodes.len(), 2);
    assert_eq!(snap.connections.len(), 1);
    assert_eq!(snap.connections[0].source_node, b);
    assert!(g.remove_node(a).is_err());
}

#[test]
fn replace_node_rebuilds_arity_and_severs_wiring() {
    let mut g = GraphTopology::new();
    let a = g.add_new_node(0, 1);
    let mix = g.add_new_node(1, 1);
    g.add_port_connection(PortType::StereoAudio, a, 0, mix, 0).unwrap();
    assert!(g.replace_node(mix, 3, 1).is_ok());
    let snap = g.compile();
    assert_eq!(snap.connections.len(), 0);
    let mixer = snap.nodes.iter().find(|n| n.id == mix).unwrap();
    assert_eq!(mixer.audio_in_ports, 3);
    assert!(g.replace_node(NodeID(9), 1, 1).is_err());
    // After the rebuild the wider input range accepts the connection again.
    assert!(g.add_port_connection(PortType::StereoAudio, a, 0, mix, 2).is_ok());
}

//! Unit checks of the library's pieces: the flow table, the selector,
//! the checksum fold, classification, configuration validation and the
//! maintenance pass.

use xlb::checksum::fold_checksum;
use xlb::config::{
    check_port_mappings, default_orphan_ttl_secs, default_otel_export_interval,
    default_shutdown_timeout, to_ebpf_config, IpVersion, Proto, RoutingMode,
};
use xlb::errors::XlbErr;
use xlb::flow_table::{BackendTable, FlowTable};
use xlb::headers::{calculate_segment_length, TcpHeader};
use xlb::maintenance::{
    aggregate_flow_stats, fin_ready_for_cleanup, is_active, is_orphan, prune_orphaned_or_closed,
    publish_backends, rst_ready_for_cleanup, MaintenanceLoop, MaintenanceLoopHandle, SnapshotMap,
};
use xlb::balancing::select_backend;
use xlb::config::Strategy;
use xlb::types::{Backend, Flow, FlowDirection, FlowKey, PortMapping};

fn sample_flow(direction: FlowDirection, counter: u64) -> Flow {
    Flow {
        direction,
        client_ip: 1,
        backend_ip: 2,
        src_ip: 3,
        src_port: 4,
        dst_port: 5,
        dst_ip: 6,
        dst_mac: [0; 6],
        src_iface_idx: 1,
        src_mac: [0; 6],
        bytes_transfer: 100,
        packets_transfer: 2,
        created_at_ns: 50,
        last_seen_ns: 60,
        fin: false,
        fin_is_src: false,
        fin_both_ns: 0,
        rst_ns: 0,
        rst_is_src: false,
        counter_flow_key_hash: counter,
    }
}

#[test]
fn flow_table_insert_lookup_remove() {
    let mut t = FlowTable::new();
    assert_eq!(t.len(), 0);
    assert!(t.lookup(7).is_none());
    t.insert(7, sample_flow(FlowDirection::ToServer, 8)).unwrap();
    t.insert(8, sample_flow(FlowDirection::ToClient, 7)).unwrap();
    assert_eq!(t.len(), 2);
    assert_eq!(t.lookup(7).unwrap().counter_flow_key_hash, 8);
    // overwriting keeps one entry
    t.insert(7, sample_flow(FlowDirection::ToServer, 9)).unwrap();
    assert_eq!(t.len(), 2);
    assert_eq!(t.lookup(7).unwrap().counter_flow_key_hash, 9);
    t.remove(7);
    assert!(t.lookup(7).is_none());
    assert_eq!(t.len(), 1);
}

#[test]
fn flow_key_hash_is_stable_and_spreads() {
    let a = FlowKey::new(10, 80).hash_key();
    let b = FlowKey::new(10, 80).hash_key();
    let c = FlowKey::new(10, 81).hash_key();
    let d = FlowKey::new(11, 80).hash_key();
    assert_eq!(a, b);
    assert_ne!(a, c);
    assert_ne!(a, d);
}

#[test]
fn fold_checksum_folds_carries() {
    assert_eq!(fold_checksum(0), 0);
    assert_eq!(fold_checksum(0xffff), 0xffff);
    assert_eq!(fold_checksum(0x1ffff), 1);
    assert_eq!(fold_checksum(0x12345678), 0x68ac);
    assert_eq!(fold_checksum(u64::MAX), 0xffff);
}

#[test]
fn segment_length_counts_syn_and_fin() {
    let mut t = TcpHeader {
        src_port: 1,
        dst_port: 2,
        seq_no: 0,
        ack_no: 0,
        data_off: 0x50,
        flags: 0x02, // SYN
        window: 0,
        check: 0,
        urg_ptr: 0,
    };
    // 40 bytes total = no data; SYN counts one
    assert_eq!(calculate_segment_length(&t, 40, 20), 1);
    t.flags = 0x11; // FIN|ACK
    assert_eq!(calculate_segment_length(&t, 100, 20), 61);
    t.flags = 0x10; // ACK only
    assert_eq!(calculate_segment_length(&t, 40, 20), 0);
}

#[test]
fn round_robin_walks_dense_prefix() {
    let mut table = BackendTable::new();
    for i in 0..3u32 {
        let mut b = Backend::empty_slot();
        b.ip = (i + 1) as u128;
        table.set(i, b);
    }
    let mut cursor = 0u32;
    let picks: Vec<u128> = (0..4)
        .map(|_| {
            select_backend(&Strategy::RoundRobin, &table, &mut cursor)
                .unwrap()
                .ip
        })
        .collect();
    assert_eq!(picks, vec![1, 2, 3, 1]);
}

#[test]
fn round_robin_empty_table_finds_nothing() {
    let table = BackendTable::new();
    let mut cursor = 5u32;
    assert!(select_backend(&Strategy::RoundRobin, &table, &mut cursor).is_none());
    assert_eq!(cursor, 5);
}

#[test]
fn port_mapping_validation() {
    let ok = vec![
        PortMapping { local_port: 80, remote_port: 8080 },
        PortMapping { local_port: 443, remote_port: 8443 },
    ];
    assert!(check_port_mappings(&ok));
    assert!(!check_port_mappings(&vec![]));
    let zero = vec![PortMapping { local_port: 0, remote_port: 8080 }];
    assert!(!check_port_mappings(&zero));
    let dup = vec![
        PortMapping { local_port: 80, remote_port: 8080 },
        PortMapping { local_port: 80, remote_port: 9090 },
    ];
    assert!(!check_port_mappings(&dup));
    let nine = vec![PortMapping { local_port: 1, remote_port: 1 }; 9];
    assert!(!check_port_mappings(&nine));
}

#[test]
fn ebpf_config_packing() {
    let ports = vec![PortMapping { local_port: 80, remote_port: 8080 }];
    let cfg = to_ebpf_config(
        RoutingMode::Nat,
        0x0a000001,
        IpVersion::Ipv4,
        Proto::Tcp,
        &ports,
    );
    assert_eq!(cfg.ip_addr, 0x0a000001);
    assert_eq!(cfg.port_mappings[0].local_port, 80);
    assert_eq!(cfg.port_mappings[1].local_port, 0);
    assert!(!cfg.shutdown);
}

#[test]
fn config_defaults() {
    assert_eq!(default_otel_export_interval(), 10);
    assert_eq!(default_orphan_ttl_secs(), 300);
    assert_eq!(default_shutdown_timeout(), 15);
}

#[test]
fn error_labels_name_the_kind() {
    assert_eq!(XlbErr::ErrNoBackends.label(), "ErrNoBackends");
    assert_eq!(XlbErr::ErrMapInsertFailed.label(), "ErrMapInsertFailed");
    assert_eq!(XlbErr::ErrNoEphemeralPorts.label(), "ErrNoEphemeralPorts");
    assert_eq!(XlbErr::ErrOrphanedFlow.label(), "ErrOrphanedFlow");
}

#[test]
fn flow_classification_predicates() {
    let mut f = sample_flow(FlowDirection::ToServer, 1);
    assert!(is_active(&f));
    f.rst_ns = 10;
    assert!(!is_active(&f));

    assert!(is_orphan(0, 400, 300));
    assert!(!is_orphan(200, 400, 300));

    assert!(rst_ready_for_cleanup(5, 10));
    assert!(!rst_ready_for_cleanup(0, 10));
    assert!(!rst_ready_for_cleanup(10, 10));

    assert!(fin_ready_for_cleanup(100, 500, 300));
    assert!(!fin_ready_for_cleanup(0, 500, 300));
    assert!(!fin_ready_for_cleanup(400, 500, 300));
}

#[test]
fn aggregation_counts_and_deltas() {
    let mut flows = FlowTable::new();
    let mut to_server = sample_flow(FlowDirection::ToServer, 2);
    to_server.created_at_ns = 150; // created inside this tick
    to_server.bytes_transfer = 500;
    to_server.packets_transfer = 5;
    let mut to_client = sample_flow(FlowDirection::ToClient, 1);
    to_client.created_at_ns = 150;
    to_client.bytes_transfer = 900;
    to_client.packets_transfer = 9;
    flows.insert(1, to_server).unwrap();
    flows.insert(2, to_client).unwrap();

    let mut prev = SnapshotMap::new();
    prev.insert(1, (200, 2));

    let (stats, snap) = aggregate_flow_stats(100, &flows, &prev, 1_000_000, 200);
    assert_eq!(stats.totals.to_server.new_conns, 1);
    assert_eq!(stats.totals.to_client.new_conns, 1);
    assert_eq!(stats.totals.to_server.bytes_transfer, 300); // 500 - 200
    assert_eq!(stats.totals.to_server.packets_transfer, 3);
    assert_eq!(stats.totals.to_client.bytes_transfer, 900); // unseen before
    assert_eq!(stats.totals.to_server.active_conns, 1);
    assert_eq!(stats.totals.to_server.active_clients, 1);
    assert_eq!(stats.totals.clients, vec![1u128]);
    assert_eq!(stats.backends.len(), 1);
    assert_eq!(stats.backends[0].0, 2);
    assert_eq!(stats.available_backends, 0);
    assert_eq!(snap.get(1), Some((500, 5)));
    assert_eq!(snap.get(2), Some((900, 9)));
}

#[test]
fn prune_reaps_closed_pairs() {
    let mut flows = FlowTable::new();
    // a FIN-closed pair past the time-wait window
    let mut a = sample_flow(FlowDirection::ToServer, 2);
    a.fin_both_ns = 100;
    let mut b = sample_flow(FlowDirection::ToClient, 1);
    b.fin_both_ns = 100;
    flows.insert(1, a).unwrap();
    flows.insert(2, b).unwrap();
    // a live pair
    let mut c = sample_flow(FlowDirection::ToServer, 4);
    c.last_seen_ns = 9_000;
    let mut d = sample_flow(FlowDirection::ToClient, 3);
    d.last_seen_ns = 9_000;
    flows.insert(3, c).unwrap();
    flows.insert(4, d).unwrap();

    let removed = prune_orphaned_or_closed(&mut flows, 10_000, 5_000, 1_000, 1_000_000);
    assert_eq!(removed.len(), 4);
    assert_eq!(flows.len(), 2);
    assert!(flows.lookup(1).is_none());
    assert!(flows.lookup(2).is_none());
    assert!(flows.lookup(3).is_some());
    assert!(flows.lookup(4).is_some());
}

#[test]
fn publish_keeps_dense_prefix() {
    let mut table = BackendTable::new();
    // leave a stale entry far into the table
    let mut stale = Backend::empty_slot();
    stale.ip = 99;
    table.set(77, stale);

    let mut one = Backend::empty_slot();
    one.ip = 1;
    let mut two = Backend::empty_slot();
    two.ip = 2;
    publish_backends(&mut table, &vec![one, two]);
    assert_eq!(table.get(0).ip, 1);
    assert_eq!(table.get(1).ip, 2);
    assert_eq!(table.get(2).ip, 0);
    assert_eq!(table.get(77).ip, 0);
    assert_eq!(table.get(4095).ip, 0);
}

#[test]
fn maintenance_tick_runs_all_phases() {
    let mut flows = FlowTable::new();
    let mut orphan = sample_flow(FlowDirection::ToServer, 2);
    orphan.last_seen_ns = 0;
    let mut orphan_peer = sample_flow(FlowDirection::ToClient, 1);
    orphan_peer.last_seen_ns = 0;
    flows.insert(1, orphan).unwrap();
    flows.insert(2, orphan_peer).unwrap();

    let mut backends = BackendTable::new();
    let mut b = Backend::empty_slot();
    b.ip = 42;
    let mut lp = MaintenanceLoop::new(1_000, 500);
    let now = 2_000_000u64;
    let stats = lp.run(&mut flows, &mut backends, &vec![b], now);

    assert_eq!(stats.totals.to_server.orphaned_conns, 1);
    assert_eq!(backends.get(0).ip, 42);
    assert_eq!(backends.get(1).ip, 0);
    assert_eq!(flows.len(), 0, "orphaned pair reaped");
    assert_eq!(lp.last_run_ns, now);
}

#[test]
fn maintenance_handle_stops() {
    let mut h = MaintenanceLoopHandle::new();
    assert!(!h.shutdown);
    h.stop();
    assert!(h.shutdown);
}

#[test]
fn flow_table_capacity_error_is_named() {
    // the capacity error variant exists and is distinct
    assert_ne!(XlbErr::ErrMapInsertFailed, XlbErr::ErrNoBackends);
}

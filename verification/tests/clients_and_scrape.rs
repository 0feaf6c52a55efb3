use nfsv4_exporter::nfsv4::{
    client_information, clients_information, clients_ops_information, number_of_clients,
    number_of_exports, ClientEntry,
};
use nfsv4_exporter::snapshot::{assemble, ExporterOptions, ScrapeInput};

#[test]
fn client_round_trip_callback_excluded_quotes_stripped() {
    let info = "clientid: 0xabc123\ncallback address: \"10.0.0.2\"\naddress: \"10.0.0.1\"\n";
    let c = client_information(Some(info), None);
    assert_eq!(c.clientid, "0xabc123".to_string());
    assert_eq!(c.address, "10.0.0.1".to_string());
    assert_eq!(c.ops_count.t_open, 0);
    assert_eq!(c.ops_count.t_lock, 0);
    assert_eq!(c.ops_count.t_deleg, 0);
    assert_eq!(c.ops_count.t_layout, 0);
}

#[test]
fn last_matching_info_line_wins() {
    let info = "clientid: 0x1\nclientid: 0x2\naddress: \"10.0.0.1\"\naddress: \"10.0.0.9\"\n";
    let c = client_information(Some(info), None);
    assert_eq!(c.clientid, "0x2".to_string());
    assert_eq!(c.address, "10.0.0.9".to_string());
}

#[test]
fn missing_info_yields_empty_identity() {
    let c = client_information(None, Some("type: open\n"));
    assert_eq!(c.clientid, "".to_string());
    assert_eq!(c.address, "".to_string());
    assert_eq!(c.ops_count.t_open, 1);
}

#[test]
fn states_lines_counted_by_type() {
    let states = "type: open\ntype: open\ntype: open\ntype: lock\n";
    let ops = clients_ops_information(Some(states));
    assert_eq!(ops.t_open, 3);
    assert_eq!(ops.t_lock, 1);
    assert_eq!(ops.t_deleg, 0);
    assert_eq!(ops.t_layout, 0);
}

#[test]
fn states_containment_counts_open_family() {
    let ops = clients_ops_information(Some("type: open-downgrade\ntype: deleg\ntype: layout\n"));
    assert_eq!(ops.t_open, 1);
    assert_eq!(ops.t_deleg, 1);
    assert_eq!(ops.t_layout, 1);
}

#[test]
fn absent_states_yields_zero_ops() {
    let ops = clients_ops_information(None);
    assert_eq!(ops.t_open, 0);
    assert_eq!(ops.t_lock, 0);
    assert_eq!(ops.t_deleg, 0);
    assert_eq!(ops.t_layout, 0);
}

#[test]
fn exports_counted_as_nonempty_lines() {
    assert_eq!(number_of_exports(Some("e1\ne2\ne3\ne4\n")), 4);
    assert_eq!(number_of_exports(Some("e1\n\ne2\n")), 2);
    assert_eq!(number_of_exports(None), 0);
}

#[test]
fn clients_counted_as_directory_entries() {
    let entries = vec![
        ClientEntry { info: None, states: None },
        ClientEntry { info: None, states: None },
    ];
    assert_eq!(number_of_clients(Some(&entries)), 2);
    assert_eq!(number_of_clients(None), 0);
}

#[test]
fn clients_listed_in_directory_order() {
    let entries = vec![
        ClientEntry {
            info: Some("clientid: 0xa\naddress: \"10.0.0.1\"\n".to_string()),
            states: Some("type: open\n".to_string()),
        },
        ClientEntry {
            info: Some("clientid: 0xb\naddress: \"10.0.0.2\"\n".to_string()),
            states: None,
        },
    ];
    let clients = clients_information(Some(&entries));
    assert_eq!(clients.len(), 2);
    assert_eq!(clients[0].clientid, "0xa".to_string());
    assert_eq!(clients[0].address, "10.0.0.1".to_string());
    assert_eq!(clients[0].ops_count.t_open, 1);
    assert_eq!(clients[1].clientid, "0xb".to_string());
    assert_eq!(clients[1].ops_count.t_open, 0);
    assert!(clients_information(None).is_empty());
}

fn sample_input() -> ScrapeInput {
    ScrapeInput {
        nfsd: Some("rc 10 2 1\nio 500 300\nnet 7 1 6 3\n".to_string()),
        clients: Some(vec![ClientEntry {
            info: Some("clientid: 0xabc123\naddress: \"10.0.0.1\"\n".to_string()),
            states: Some("type: open\ntype: open\ntype: lock\n".to_string()),
        }]),
        etab: Some("e1\ne2\ne3\ne4\n".to_string()),
    }
}

#[test]
fn assemble_composes_all_readers() {
    let opts = ExporterOptions { nfsv4_ops_clients: true };
    let snap = assemble(&sample_input(), &opts).unwrap();
    assert_eq!(snap.stats.reply_cache.hits, 10);
    assert_eq!(snap.stats.io_bytes.write, 300);
    assert_eq!(snap.stats.network_usage.TCPconnect, 3);
    assert_eq!(snap.client_count, 1);
    assert_eq!(snap.export_count, 4);
    assert_eq!(snap.clients.len(), 1);
    assert_eq!(snap.clients[0].clientid, "0xabc123".to_string());
    assert_eq!(snap.clients[0].address, "10.0.0.1".to_string());
    assert_eq!(snap.clients[0].ops_count.t_open, 2);
    assert_eq!(snap.clients[0].ops_count.t_lock, 1);
}

#[test]
fn per_client_collection_is_off_by_default_flag() {
    let opts = ExporterOptions { nfsv4_ops_clients: false };
    let snap = assemble(&sample_input(), &opts).unwrap();
    assert_eq!(snap.client_count, 1);
    assert!(snap.clients.is_empty());
}

#[test]
fn absent_sources_yield_empty_snapshot() {
    let input = ScrapeInput { nfsd: None, clients: None, etab: None };
    let opts = ExporterOptions { nfsv4_ops_clients: true };
    let snap = assemble(&input, &opts).unwrap();
    assert_eq!(snap.stats.reply_cache.hits, 0);
    assert_eq!(snap.stats.io_bytes.read, 0);
    assert_eq!(snap.stats.network_usage.netcount, 0);
    assert_eq!(snap.client_count, 0);
    assert_eq!(snap.export_count, 0);
    assert!(snap.clients.is_empty());
}

#[test]
fn malformed_record_aborts_the_scrape() {
    let input = ScrapeInput { nfsd: Some("rc 1 x 3".to_string()), clients: None, etab: None };
    let opts = ExporterOptions { nfsv4_ops_clients: false };
    let r = assemble(&input, &opts);
    assert_eq!(r, Err(nfsv4_exporter::error::ScrapeError::MalformedRecord));
}

#[test]
fn scrape_is_idempotent_on_unchanged_input() {
    let opts = ExporterOptions { nfsv4_ops_clients: true };
    let first = assemble(&sample_input(), &opts).unwrap();
    let second = assemble(&sample_input(), &opts).unwrap();
    assert_eq!(first, second);
}

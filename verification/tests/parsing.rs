use nfsv4_exporter::error::ScrapeError;
use nfsv4_exporter::nfs_generic::{io_bytes, network_usage, reply_cache, rpc_nfsd_metrics};
use nfsv4_exporter::text::{contains_str, parse_i64, remove_all, split_char, trim_str};

fn toks(words: &[&str]) -> Vec<String> {
    words.iter().map(|w| w.to_string()).collect()
}

#[test]
fn parse_i64_accepts_plain_numbers() {
    assert_eq!(parse_i64("0"), Some(0));
    assert_eq!(parse_i64("123"), Some(123));
    assert_eq!(parse_i64("+7"), Some(7));
    assert_eq!(parse_i64("-5"), Some(-5));
    assert_eq!(parse_i64("9223372036854775807"), Some(i64::MAX));
    assert_eq!(parse_i64("-9223372036854775808"), Some(i64::MIN));
}

#[test]
fn parse_i64_rejects_garbage_and_overflow() {
    assert_eq!(parse_i64(""), None);
    assert_eq!(parse_i64("-"), None);
    assert_eq!(parse_i64("+"), None);
    assert_eq!(parse_i64("12a"), None);
    assert_eq!(parse_i64(" 12"), None);
    assert_eq!(parse_i64("9223372036854775808"), None);
    assert_eq!(parse_i64("-9223372036854775809"), None);
}

#[test]
fn split_keeps_empty_pieces() {
    let r = split_char("a b", ' ');
    assert_eq!(r, vec!["a".to_string(), "b".to_string()]);
    let r = split_char("a  b ", ' ');
    assert_eq!(r, vec!["a".to_string(), "".to_string(), "b".to_string(), "".to_string()]);
    let r = split_char("", ' ');
    assert_eq!(r, vec!["".to_string()]);
}

#[test]
fn contains_is_substring_containment() {
    assert!(contains_str("net 7 1 6 3", "net"));
    assert!(contains_str("type: open-downgrade", "type: open"));
    assert!(!contains_str("rd 1 2 3", "rc"));
    assert!(contains_str("anything", ""));
}

#[test]
fn trim_and_remove_clean_up_lines() {
    assert_eq!(trim_str("  0xabc \t"), "0xabc".to_string());
    assert_eq!(remove_all("clientid: 0xabc", "clientid:"), " 0xabc".to_string());
    assert_eq!(remove_all("\"10.0.0.1\"", "\""), "10.0.0.1".to_string());
}

#[test]
fn reply_cache_line_parses_positionally() {
    let r = reply_cache(&toks(&["rc", "10", "2", "1"])).unwrap();
    assert_eq!(r.hits, 10);
    assert_eq!(r.misses, 2);
    assert_eq!(r.nocache, 1);
}

#[test]
fn io_line_parses_positionally() {
    let r = io_bytes(&toks(&["io", "500", "300"])).unwrap();
    assert_eq!(r.read, 500);
    assert_eq!(r.write, 300);
}

#[test]
fn net_line_parses_positionally() {
    let r = network_usage(&toks(&["net", "7", "1", "6", "3"])).unwrap();
    assert_eq!(r.netcount, 7);
    assert_eq!(r.UDPcount, 1);
    assert_eq!(r.TCPcount, 6);
    assert_eq!(r.TCPconnect, 3);
}

#[test]
fn whole_nfsd_file_parses() {
    let content = "rc 10 2 1\nio 500 300\nnet 7 1 6 3\n";
    let stats = rpc_nfsd_metrics(Some(content)).unwrap();
    assert_eq!(stats.reply_cache.hits, 10);
    assert_eq!(stats.reply_cache.misses, 2);
    assert_eq!(stats.reply_cache.nocache, 1);
    assert_eq!(stats.io_bytes.read, 500);
    assert_eq!(stats.io_bytes.write, 300);
    assert_eq!(stats.network_usage.netcount, 7);
    assert_eq!(stats.network_usage.UDPcount, 1);
    assert_eq!(stats.network_usage.TCPcount, 6);
    assert_eq!(stats.network_usage.TCPconnect, 3);
}

#[test]
fn short_matched_line_defaults_to_zero() {
    // Fewer tokens than the schema expects is not an error: the counters for
    // that record stay zero.
    let stats = rpc_nfsd_metrics(Some("rc 1")).unwrap();
    assert_eq!(stats.reply_cache.hits, 0);
    assert_eq!(stats.reply_cache.misses, 0);
    assert_eq!(stats.reply_cache.nocache, 0);
}

#[test]
fn unparsable_field_is_a_malformed_record() {
    let r = rpc_nfsd_metrics(Some("rc 10 x 1"));
    assert_eq!(r, Err(ScrapeError::MalformedRecord));
    let r = reply_cache(&toks(&["rc", "10", "x", "1"]));
    assert_eq!(r, Err(ScrapeError::MalformedRecord));
}

#[test]
fn absent_nfsd_file_yields_all_zero_stats() {
    let stats = rpc_nfsd_metrics(None).unwrap();
    assert_eq!(stats.reply_cache.hits, 0);
    assert_eq!(stats.reply_cache.misses, 0);
    assert_eq!(stats.reply_cache.nocache, 0);
    assert_eq!(stats.io_bytes.read, 0);
    assert_eq!(stats.io_bytes.write, 0);
    assert_eq!(stats.network_usage.netcount, 0);
    assert_eq!(stats.network_usage.UDPcount, 0);
    assert_eq!(stats.network_usage.TCPcount, 0);
    assert_eq!(stats.network_usage.TCPconnect, 0);
}

#[test]
fn last_matching_line_wins_per_record() {
    let stats = rpc_nfsd_metrics(Some("rc 1 1 1\nrc 10 2 1\n")).unwrap();
    assert_eq!(stats.reply_cache.hits, 10);
    assert_eq!(stats.reply_cache.misses, 2);
    assert_eq!(stats.reply_cache.nocache, 1);
}

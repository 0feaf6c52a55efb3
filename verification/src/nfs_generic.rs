//! Counters scraped from `/proc/net/rpc/nfsd`: reply cache, I/O bytes and
//! network usage, each taken from one tagged line of the file.

use vstd::prelude::*;

use crate::error::ScrapeError;
use crate::text::{contains_seq, contains_str, parse_i64, parse_i64_spec, split_char,
    split_char_spec};

verus! {

/// Reply-cache counters from the line tagged `rc`.
#[derive(Debug, Clone, Copy, PartialEq, Eq, Structural)]
pub struct ReplyCache {
    /// Retransmitted requests answered from the cache.
    pub hits: i64,
    /// Operations that required caching.
    pub misses: i64,
    /// Non-idempotent operations (rename/delete) that bypass the cache.
    pub nocache: i64,
}

/// Byte counters from the line tagged `io`.
#[derive(Debug, Clone, Copy, PartialEq, Eq, Structural)]
pub struct IOBytes {
    /// Total bytes read since the last server restart.
    pub read: i64,
    /// Total bytes written since the last server restart.
    pub write: i64,
}

/// Packet and connection counters from the line tagged `net`.
#[allow(non_snake_case)]
#[derive(Debug, Clone, Copy, PartialEq, Eq, Structural)]
pub struct NetworkUsage {
    /// Total packets.
    pub netcount: i64,
    /// Total UDP packets.
    pub UDPcount: i64,
    /// Total TCP packets.
    pub TCPcount: i64,
    /// Total TCP connections.
    pub TCPconnect: i64,
}

/// Everything read from `/proc/net/rpc/nfsd` in one scrape; always fully
/// populated, with zeroes where the file or a line is absent.
#[derive(Debug, Clone, Copy, PartialEq, Eq, Structural)]
pub struct NfsStats {
    pub reply_cache: ReplyCache,
    pub io_bytes: IOBytes,
    pub network_usage: NetworkUsage,
}

pub open spec fn zero_nfs_stats() -> NfsStats {
    NfsStats {
        reply_cache: ReplyCache { hits: 0, misses: 0, nocache: 0 },
        io_bytes: IOBytes { read: 0, write: 0 },
        network_usage: NetworkUsage { netcount: 0, UDPcount: 0, TCPcount: 0, TCPconnect: 0 },
    }
}

/// What the `rc` line's space-separated fields mean: fields 1..=3 are
/// `hits`, `misses`, `nocache`. Fewer than 4 fields leave the counters at
/// zero; a field that fails integer parsing is a malformed record (`None`).
pub open spec fn reply_cache_spec(data: Seq<Seq<char>>) -> Option<ReplyCache> {
    if data.len() < 4 {
        Some(ReplyCache { hits: 0, misses: 0, nocache: 0 })
    } else if parse_i64_spec(data[1]) is Some && parse_i64_spec(data[2]) is Some
        && parse_i64_spec(data[3]) is Some {
        Some(
            ReplyCache {
                hits: parse_i64_spec(data[1])->0 as i64,
                misses: parse_i64_spec(data[2])->0 as i64,
                nocache: parse_i64_spec(data[3])->0 as i64,
            },
        )
    } else {
        None
    }
}

/// Fields 1..=2 of the `io` line are `read`, `write`.
pub open spec fn io_bytes_spec(data: Seq<Seq<char>>) -> Option<IOBytes> {
    if data.len() < 3 {
        Some(IOBytes { read: 0, write: 0 })
    } else if parse_i64_spec(data[1]) is Some && parse_i64_spec(data[2]) is Some {
        Some(
            IOBytes {
                read: parse_i64_spec(data[1])->0 as i64,
                write: parse_i64_spec(data[2])->0 as i64,
            },
        )
    } else {
        None
    }
}

/// Fields 1..=4 of the `net` line are `netcount`, `UDPcount`, `TCPcount`,
/// `TCPconnect`.
pub open spec fn network_usage_spec(data: Seq<Seq<char>>) -> Option<NetworkUsage> {
    if data.len() < 5 {
        Some(NetworkUsage { netcount: 0, UDPcount: 0, TCPcount: 0, TCPconnect: 0 })
    } else if parse_i64_spec(data[1]) is Some && parse_i64_spec(data[2]) is Some
        && parse_i64_spec(data[3]) is Some && parse_i64_spec(data[4]) is Some {
        Some(
            NetworkUsage {
                netcount: parse_i64_spec(data[1])->0 as i64,
                UDPcount: parse_i64_spec(data[2])->0 as i64,
                TCPcount: parse_i64_spec(data[3])->0 as i64,
                TCPconnect: parse_i64_spec(data[4])->0 as i64,
            },
        )
    } else {
        None
    }
}

/// Parses the fields of an `rc` line. Position-based: the first field after
/// the tag is `hits`, then `misses`, then `nocache`.
pub fn reply_cache(data: &Vec<String>) -> (r: Result<ReplyCache, ScrapeError>)
    ensures
        r is Ok <==> reply_cache_spec(data.deep_view()) is Some,
        r matches Ok(rc) ==> reply_cache_spec(data.deep_view()) == Some(rc),
        r is Err ==> r == Err::<ReplyCache, ScrapeError>(ScrapeError::MalformedRecord),
{
    if data.len() >= 4 {
        let hits = parse_i64(data[1].as_str());
        let misses = parse_i64(data[2].as_str());
        let nocache = parse_i64(data[3].as_str());
        match (hits, misses, nocache) {
            (Some(hits), Some(misses), Some(nocache)) => Ok(ReplyCache { hits, misses, nocache }),
            _ => Err(ScrapeError::MalformedRecord),
        }
    } else {
        Ok(ReplyCache { hits: 0, misses: 0, nocache: 0 })
    }
}

/// Parses the fields of an `io` line: total bytes read and written.
pub fn io_bytes(data: &Vec<String>) -> (r: Result<IOBytes, ScrapeError>)
    ensures
        r is Ok <==> io_bytes_spec(data.deep_view()) is Some,
        r matches Ok(io) ==> io_bytes_spec(data.deep_view()) == Some(io),
        r is Err ==> r == Err::<IOBytes, ScrapeError>(ScrapeError::MalformedRecord),
{
    if data.len() >= 3 {
        let read = parse_i64(data[1].as_str());
        let write = parse_i64(data[2].as_str());
        match (read, write) {
            (Some(read), Some(write)) => Ok(IOBytes { read, write }),
            _ => Err(ScrapeError::MalformedRecord),
        }
    } else {
        Ok(IOBytes { read: 0, write: 0 })
    }
}

/// Parses the fields of a `net` line: packet and connection totals.
#[allow(non_snake_case)]
pub fn network_usage(data: &Vec<String>) -> (r: Result<NetworkUsage, ScrapeError>)
    ensures
        r is Ok <==> network_usage_spec(data.deep_view()) is Some,
        r matches Ok(net) ==> network_usage_spec(data.deep_view()) == Some(net),
        r is Err ==> r == Err::<NetworkUsage, ScrapeError>(ScrapeError::MalformedRecord),
{
    if data.len() >= 5 {
        let netcount = parse_i64(data[1].as_str());
        let UDPcount = parse_i64(data[2].as_str());
        let TCPcount = parse_i64(data[3].as_str());
        let TCPconnect = parse_i64(data[4].as_str());
        match (netcount, UDPcount, TCPcount, TCPconnect) {
            (Some(netcount), Some(UDPcount), Some(TCPcount), Some(TCPconnect)) => Ok(
                NetworkUsage { netcount, UDPcount, TCPcount, TCPconnect },
            ),
            _ => Err(ScrapeError::MalformedRecord),
        }
    } else {
        Ok(NetworkUsage { netcount: 0, UDPcount: 0, TCPcount: 0, TCPconnect: 0 })
    }
}

/// One line of `/proc/net/rpc/nfsd` applied to the counters gathered so far.
/// The three tag checks are independent (a line may coincidentally match
/// more than one) and run in the fixed order `rc`, `io`, `net`; lines
/// matching no tag leave `acc` unchanged. `None` is a malformed record.
pub open spec fn apply_nfsd_line_spec(acc: NfsStats, line: Seq<char>) -> Option<NfsStats> {
    let toks = split_char_spec(line, ' ');
    let rc = if contains_seq(line, "rc"@) {
        reply_cache_spec(toks)
    } else {
        Some(acc.reply_cache)
    };
    let io = if contains_seq(line, "io"@) {
        io_bytes_spec(toks)
    } else {
        Some(acc.io_bytes)
    };
    let net = if contains_seq(line, "net"@) {
        network_usage_spec(toks)
    } else {
        Some(acc.network_usage)
    };
    if rc is Some && io is Some && net is Some {
        Some(NfsStats { reply_cache: rc->0, io_bytes: io->0, network_usage: net->0 })
    } else {
        None
    }
}

/// All lines of the file applied in order to `acc`; the last line matching a
/// tag wins for that record.
pub open spec fn scan_nfsd_lines_spec(acc: NfsStats, lines: Seq<Seq<char>>) -> Option<NfsStats>
    decreases lines.len(),
{
    if lines.len() == 0 {
        Some(acc)
    } else {
        match apply_nfsd_line_spec(acc, lines[0]) {
            Some(acc2) => scan_nfsd_lines_spec(acc2, lines.drop_first()),
            None => None,
        }
    }
}

/// What a whole read of `/proc/net/rpc/nfsd` yields: its lines scanned over
/// the all-zero counters.
pub open spec fn nfsd_stats_spec(content: Seq<char>) -> Option<NfsStats> {
    scan_nfsd_lines_spec(zero_nfs_stats(), split_char_spec(content, '\n'))
}

fn apply_nfsd_line(acc: NfsStats, line: &str) -> (r: Result<NfsStats, ScrapeError>)
    ensures
        r is Ok <==> apply_nfsd_line_spec(acc, line@) is Some,
        r matches Ok(st) ==> apply_nfsd_line_spec(acc, line@) == Some(st),
        r is Err ==> r == Err::<NfsStats, ScrapeError>(ScrapeError::MalformedRecord),
{
    let mut stats = acc;
    if contains_str(line, "rc") {
        let data = split_char(line, ' ');
        match reply_cache(&data) {
            Ok(rc) => {
                stats = NfsStats { reply_cache: rc, ..stats };
            },
            Err(e) => {
                return Err(e);
            },
        }
    }
    if contains_str(line, "io") {
        let data = split_char(line, ' ');
        match io_bytes(&data) {
            Ok(io) => {
                stats = NfsStats { io_bytes: io, ..stats };
            },
            Err(e) => {
                return Err(e);
            },
        }
    }
    if contains_str(line, "net") {
        let data = split_char(line, ' ');
        match network_usage(&data) {
            Ok(net) => {
                stats = NfsStats { network_usage: net, ..stats };
            },
            Err(e) => {
                return Err(e);
            },
        }
    }
    Ok(stats)
}

/// Everything scraped from `/proc/net/rpc/nfsd`, handed in as `content`
/// (`None` when the file is absent, which yields the all-zero record).
pub fn rpc_nfsd_metrics(content: Option<&str>) -> (r: Result<NfsStats, ScrapeError>)
    ensures
        content is None ==> r == Ok::<NfsStats, ScrapeError>(zero_nfs_stats()),
        content matches Some(c) ==> (r is Ok <==> nfsd_stats_spec(c@) is Some),
        content matches Some(c) ==> (r matches Ok(st) ==> nfsd_stats_spec(c@) == Some(st)),
        r is Err ==> r == Err::<NfsStats, ScrapeError>(ScrapeError::MalformedRecord),
{
    let zero = NfsStats {
        reply_cache: ReplyCache { hits: 0, misses: 0, nocache: 0 },
        io_bytes: IOBytes { read: 0, write: 0 },
        network_usage: NetworkUsage { netcount: 0, UDPcount: 0, TCPcount: 0, TCPconnect: 0 },
    };
    match content {
        None => Ok(zero),
        Some(c) => {
            let lines = split_char(c, '\n');
            let ghost lseq = lines.deep_view();
            let mut stats = zero;
            let mut i: usize = 0;
            proof {
                assert(lseq.skip(0) =~= lseq);
            }
            while i < lines.len()
                invariant
                    content == Some(c),
                    lseq == split_char_spec(c@, '\n'),
                    lseq == lines.deep_view(),
                    i <= lines.len(),
                    scan_nfsd_lines_spec(zero_nfs_stats(), lseq) == scan_nfsd_lines_spec(
                        stats,
                        lseq.skip(i as int),
                    ),
                decreases lines.len() - i,
            {
                let ghost rest = lseq.skip(i as int);
                let line = lines[i].as_str();
                proof {
                    assert(line@ == lseq[i as int]);
                    assert(rest[0] == lseq[i as int]);
                }
                match apply_nfsd_line(stats, line) {
                    Ok(st) => {
                        proof {
                            assert(rest.drop_first() =~= lseq.skip(i + 1));
                        }
                        stats = st;
                    },
                    Err(e) => {
                        proof {
                            assert(apply_nfsd_line_spec(stats, rest[0]) is None);
                            assert(scan_nfsd_lines_spec(stats, rest) is None);
                        }
                        return Err(e);
                    },
                }
                i = i + 1;
            }
            proof {
                assert(lseq.skip(lines.len() as int) =~= Seq::<Seq<char>>::empty());
            }
            Ok(stats)
        },
    }
}

} // verus!

//! One scrape: the raw text read from the kernel files, and the snapshot
//! assembled from it.

use vstd::prelude::*;

use crate::error::ScrapeError;
use crate::nfs_generic::{nfsd_stats_spec, rpc_nfsd_metrics, zero_nfs_stats, NfsStats};
use crate::nfsv4::{client_matches, clients_information, export_count_spec, number_of_clients,
    number_of_exports, ClientEntry, Nfsv4Client};

verus! {

/// Process-wide configuration, set once at startup: whether the expensive
/// per-client operation counters are collected.
#[derive(Debug, Clone, Copy)]
pub struct ExporterOptions {
    pub nfsv4_ops_clients: bool,
}

/// Raw text of one point-in-time read of the kernel files. `None` stands for
/// an absent file or directory.
#[derive(Debug, Clone, PartialEq, Eq)]
pub struct ScrapeInput {
    /// Content of `/proc/net/rpc/nfsd`.
    pub nfsd: Option<String>,
    /// One entry per directory under the clients root; `None` when the root
    /// itself is absent.
    pub clients: Option<Vec<ClientEntry>>,
    /// Content of `/var/lib/nfs/etab`.
    pub etab: Option<String>,
}

/// The immutable result of one scrape.
#[derive(Debug, Clone, PartialEq, Eq)]
pub struct ServerSnapshot {
    pub stats: NfsStats,
    pub client_count: i64,
    pub export_count: i64,
    pub clients: Vec<Nfsv4Client>,
}

/// Machine limits no real kernel file can exceed: the sources fit in `i64`
/// line counts and client counts.
pub open spec fn input_ok(input: ScrapeInput) -> bool {
    &&& (input.etab matches Some(c) ==> c@.len() < i64::MAX)
    &&& (input.clients matches Some(v) ==> v@.len() <= i64::MAX && (forall|k: int|
        0 <= k < v@.len() ==> (#[trigger] v@[k].states matches Some(st) ==> st@.len()
            < i64::MAX)))
}

/// Everything [`assemble`] promises of its result, as one predicate over the
/// input value, so that properties of whole scrapes can be stated and proved.
pub open spec fn assemble_post(
    input: ScrapeInput,
    opts: ExporterOptions,
    r: Result<ServerSnapshot, ScrapeError>,
) -> bool {
    &&& (r is Ok <==> (input.nfsd matches Some(c) ==> nfsd_stats_spec(c@) is Some))
    &&& (r matches Ok(s) ==> {
        &&& s.stats == (match input.nfsd {
            Some(c) => nfsd_stats_spec(c@)->0,
            None => zero_nfs_stats(),
        })
        &&& s.client_count as int == (match input.clients {
            Some(v) => v@.len() as int,
            None => 0int,
        })
        &&& s.export_count == (match input.etab {
            Some(c) => export_count_spec(c@),
            None => 0int,
        })
        &&& (opts.nfsv4_ops_clients ==> (match input.clients {
            Some(v) => s.clients@.len() == v@.len() && (forall|k: int|
                0 <= k < v@.len() ==> client_matches(v@[k], #[trigger] s.clients@[k])),
            None => s.clients@.len() == 0,
        }))
        &&& (!opts.nfsv4_ops_clients ==> s.clients@.len() == 0)
    })
    &&& (r is Err ==> r == Err::<ServerSnapshot, ScrapeError>(ScrapeError::MalformedRecord))
}

/// One scrape: reads nothing itself, but turns one point-in-time read of the
/// kernel files into one snapshot. The reply-cache file is parsed
/// unconditionally, clients and exports are counted unconditionally, and the
/// per-client records are parsed only when `opts` enables them (they cost
/// two file reads per client). A malformed record aborts the whole scrape:
/// no partial snapshot is handed out.
pub fn assemble(input: &ScrapeInput, opts: &ExporterOptions) -> (r: Result<
    ServerSnapshot,
    ScrapeError,
>)
    requires
        input_ok(*input),
    ensures
        assemble_post(*input, *opts, r),
{
    let client_count = number_of_clients(input.clients.as_ref());
    let etab = match &input.etab {
        Some(s) => Some(s.as_str()),
        None => None,
    };
    let export_count = number_of_exports(etab);
    let clients = if opts.nfsv4_ops_clients {
        clients_information(input.clients.as_ref())
    } else {
        Vec::new()
    };
    let nfsd = match &input.nfsd {
        Some(s) => Some(s.as_str()),
        None => None,
    };
    let stats = match rpc_nfsd_metrics(nfsd) {
        Ok(s) => s,
        Err(e) => {
            return Err(e);
        },
    };
    Ok(ServerSnapshot { stats, client_count, export_count, clients })
}

/// `None`/`Some` agree and the carried strings have equal characters.
pub open spec fn opt_str_equiv(a: Option<String>, b: Option<String>) -> bool {
    match (a, b) {
        (Some(x), Some(y)) => x@ == y@,
        (None, None) => true,
        _ => false,
    }
}

/// Two reads of one unchanged client directory entry carry the same text.
pub open spec fn entry_equiv(a: ClientEntry, b: ClientEntry) -> bool {
    opt_str_equiv(a.info, b.info) && opt_str_equiv(a.states, b.states)
}

/// Two reads of one unchanged filesystem carry the same text everywhere.
pub open spec fn input_equiv(a: ScrapeInput, b: ScrapeInput) -> bool {
    &&& opt_str_equiv(a.nfsd, b.nfsd)
    &&& opt_str_equiv(a.etab, b.etab)
    &&& match (a.clients, b.clients) {
        (Some(x), Some(y)) => x@.len() == y@.len() && (forall|k: int|
            0 <= k < x@.len() ==> entry_equiv(#[trigger] x@[k], y@[k])),
        (None, None) => true,
        _ => false,
    }
}

/// Two clients with the same identity and counts.
pub open spec fn client_equiv(a: Nfsv4Client, b: Nfsv4Client) -> bool {
    a.clientid@ == b.clientid@ && a.address@ == b.address@ && a.ops_count == b.ops_count
}

/// Two snapshots that carry the same values throughout.
pub open spec fn snapshot_equiv(a: ServerSnapshot, b: ServerSnapshot) -> bool {
    &&& a.stats == b.stats
    &&& a.client_count == b.client_count
    &&& a.export_count == b.export_count
    &&& a.clients@.len() == b.clients@.len()
    &&& forall|k: int| 0 <= k < a.clients@.len() ==> client_equiv(#[trigger] a.clients@[k], b.clients@[k])
}

/// Scraping is idempotent: two scrapes of an unchanged filesystem, under the
/// same configuration, either both fail the same way or yield snapshots that
/// agree in every value.
pub proof fn lemma_scrape_idempotent(
    i1: ScrapeInput,
    i2: ScrapeInput,
    opts: ExporterOptions,
    r1: Result<ServerSnapshot, ScrapeError>,
    r2: Result<ServerSnapshot, ScrapeError>,
)
    requires
        input_equiv(i1, i2),
        assemble_post(i1, opts, r1),
        assemble_post(i2, opts, r2),
    ensures
        r1 is Ok <==> r2 is Ok,
        r1 is Err ==> r1 == r2,
        (r1 is Ok && r2 is Ok) ==> snapshot_equiv(r1->Ok_0, r2->Ok_0),
{
    if r1 is Ok && r2 is Ok {
        let s1 = r1->Ok_0;
        let s2 = r2->Ok_0;
        if opts.nfsv4_ops_clients && i1.clients is Some {
            let v1 = i1.clients->0;
            let v2 = i2.clients->0;
            assert forall|k: int| 0 <= k < s1.clients@.len() implies client_equiv(
                #[trigger] s1.clients@[k],
                s2.clients@[k],
            ) by {
                assert(entry_equiv(v1@[k], v2@[k]));
                assert(client_matches(v1@[k], s1.clients@[k]));
                assert(client_matches(v2@[k], s2.clients@[k]));
            }
        }
    }
}

} // verus!

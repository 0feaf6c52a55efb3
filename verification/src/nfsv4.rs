//! Per-client NFSv4 records read from `/proc/fs/nfsd/clients/<id>/info` and
//! `/proc/fs/nfsd/clients/<id>/states`, and the export count from
//! `/var/lib/nfs/etab`.

use vstd::prelude::*;

use crate::text::{contains_seq, contains_str, remove_all, remove_all_spec, split_char,
    split_char_spec, trim_spec, trim_str};

verus! {

/// Operation counts derived from one client's `states` file.
#[derive(Debug, Clone, Copy, PartialEq, Eq, Structural)]
pub struct Nfsv4ClientOps {
    pub t_open: i64,
    pub t_lock: i64,
    pub t_deleg: i64,
    pub t_layout: i64,
}

/// One active client: identity from its `info` file, operation counts from
/// its `states` file.
#[derive(Debug, Clone, PartialEq, Eq)]
pub struct Nfsv4Client {
    pub clientid: String,
    pub address: String,
    pub ops_count: Nfsv4ClientOps,
}

/// The two files of one client directory entry; `None` where a file is
/// absent.
#[derive(Debug, Clone, PartialEq, Eq)]
pub struct ClientEntry {
    pub info: Option<String>,
    pub states: Option<String>,
}

/// How many pieces a split can yield: one more than the number of
/// separators, so never more than the input length plus one.
pub proof fn lemma_split_char_len(s: Seq<char>, sep: char)
    ensures
        1 <= split_char_spec(s, sep).len() <= s.len() + 1,
    decreases s.len(),
{
    crate::text::lemma_sep_or_len(s, sep);
    let j = crate::text::sep_or_len(s, sep);
    if j != s.len() {
        lemma_split_char_len(s.skip(j + 1), sep);
    }
}

/// Number of non-empty entries of `lines`.
pub open spec fn count_nonempty(lines: Seq<Seq<char>>) -> int
    decreases lines.len(),
{
    if lines.len() == 0 {
        0
    } else {
        count_nonempty(lines.drop_last()) + if lines.last().len() > 0 {
            1int
        } else {
            0int
        }
    }
}

proof fn lemma_count_nonempty_le(lines: Seq<Seq<char>>)
    ensures
        0 <= count_nonempty(lines) <= lines.len(),
    decreases lines.len(),
{
    if lines.len() > 0 {
        lemma_count_nonempty_le(lines.drop_last());
    }
}

/// Number of non-empty lines of the exports table.
pub open spec fn export_count_spec(content: Seq<char>) -> int {
    count_nonempty(split_char_spec(content, '\n'))
}

/// Number of configured exports: the non-empty lines of `/var/lib/nfs/etab`,
/// handed in as `etab` (`None` when the file is absent, which yields 0).
pub fn number_of_exports(etab: Option<&str>) -> (r: i64)
    requires
        etab matches Some(c) ==> c@.len() < i64::MAX,
    ensures
        etab is None ==> r == 0,
        etab matches Some(c) ==> r == export_count_spec(c@),
        r >= 0,
{
    match etab {
        None => 0,
        Some(c) => {
            let lines = split_char(c, '\n');
            let ghost lseq = lines.deep_view();
            proof {
                lemma_split_char_len(c@, '\n');
            }
            let mut count: i64 = 0;
            let mut i: usize = 0;
            while i < lines.len()
                invariant
                    lseq == lines.deep_view(),
                    lines@.len() <= i64::MAX,
                    i <= lines.len(),
                    count == count_nonempty(lseq.take(i as int)),
                    0 <= count <= i,
                decreases lines.len() - i,
            {
                proof {
                    assert(lseq.take(i + 1).drop_last() =~= lseq.take(i as int));
                    lemma_count_nonempty_le(lseq.take(i as int));
                }
                if !lines[i].as_str().is_empty() {
                    count = count + 1;
                }
                i = i + 1;
            }
            proof {
                assert(lseq.take(lines@.len() as int) =~= lseq);
            }
            count
        },
    }
}

/// Number of active clients: the entries under the clients root directory,
/// `None` standing for an absent root, which yields 0.
pub fn number_of_clients(clients: Option<&Vec<ClientEntry>>) -> (r: i64)
    requires
        clients matches Some(v) ==> v@.len() <= i64::MAX,
    ensures
        clients is None ==> r == 0,
        clients matches Some(v) ==> r == v@.len(),
        r >= 0,
{
    match clients {
        None => 0,
        Some(v) => v.len() as i64,
    }
}

/// A `states` line counted as an open operation.
pub open spec fn counts_open(line: Seq<char>) -> bool {
    contains_seq(line, "type: open"@)
}

/// A `states` line counted as a lock operation (checked after `open`).
pub open spec fn counts_lock(line: Seq<char>) -> bool {
    !counts_open(line) && contains_seq(line, "type: lock"@)
}

/// A `states` line counted as a delegation (checked after `open`, `lock`).
pub open spec fn counts_deleg(line: Seq<char>) -> bool {
    !counts_open(line) && !contains_seq(line, "type: lock"@) && contains_seq(
        line,
        "type: deleg"@,
    )
}

/// A `states` line counted as a layout (checked last).
pub open spec fn counts_layout(line: Seq<char>) -> bool {
    !counts_open(line) && !contains_seq(line, "type: lock"@) && !contains_seq(
        line,
        "type: deleg"@,
    ) && contains_seq(line, "type: layout"@)
}

/// Number of entries of `lines` satisfying `f`.
pub open spec fn count_matching(lines: Seq<Seq<char>>, f: spec_fn(Seq<char>) -> bool) -> int
    decreases lines.len(),
{
    if lines.len() == 0 {
        0
    } else {
        count_matching(lines.drop_last(), f) + if f(lines.last()) {
            1int
        } else {
            0int
        }
    }
}

proof fn lemma_count_matching_le(lines: Seq<Seq<char>>, f: spec_fn(Seq<char>) -> bool)
    ensures
        0 <= count_matching(lines, f) <= lines.len(),
    decreases lines.len(),
{
    if lines.len() > 0 {
        lemma_count_matching_le(lines.drop_last(), f);
    }
}

/// The operation counts a whole `states` file yields.
pub open spec fn states_ops_spec(content: Seq<char>) -> Nfsv4ClientOps {
    let lines = split_char_spec(content, '\n');
    Nfsv4ClientOps {
        t_open: count_matching(lines, |l: Seq<char>| counts_open(l)) as i64,
        t_lock: count_matching(lines, |l: Seq<char>| counts_lock(l)) as i64,
        t_deleg: count_matching(lines, |l: Seq<char>| counts_deleg(l)) as i64,
        t_layout: count_matching(lines, |l: Seq<char>| counts_layout(l)) as i64,
    }
}

pub open spec fn zero_ops() -> Nfsv4ClientOps {
    Nfsv4ClientOps { t_open: 0, t_lock: 0, t_deleg: 0, t_layout: 0 }
}

/// Counts one client's operations from its `states` file, handed in as
/// `states` (`None` when the file is absent, which yields all-zero counts).
/// Lines are classified by substring containment, tags checked in the fixed
/// order open, lock, deleg, layout; the first containment wins. Containment
/// is deliberate (a line `type: open-downgrade` counts as `open`), kept for
/// compatibility with the exposed kernel format.
pub fn clients_ops_information(states: Option<&str>) -> (r: Nfsv4ClientOps)
    requires
        states matches Some(c) ==> c@.len() < i64::MAX,
    ensures
        states is None ==> r == zero_ops(),
        states matches Some(c) ==> r == states_ops_spec(c@),
{
    match states {
        None => Nfsv4ClientOps { t_open: 0, t_lock: 0, t_deleg: 0, t_layout: 0 },
        Some(c) => {
            let lines = split_char(c, '\n');
            let ghost lseq = lines.deep_view();
            proof {
                lemma_split_char_len(c@, '\n');
            }
            let mut t_open: i64 = 0;
            let mut t_lock: i64 = 0;
            let mut t_deleg: i64 = 0;
            let mut t_layout: i64 = 0;
            let mut i: usize = 0;
            while i < lines.len()
                invariant
                    lseq == lines.deep_view(),
                    lines@.len() <= i64::MAX,
                    i <= lines.len(),
                    t_open == count_matching(lseq.take(i as int), |l: Seq<char>| counts_open(l)),
                    t_lock == count_matching(lseq.take(i as int), |l: Seq<char>| counts_lock(l)),
                    t_deleg == count_matching(lseq.take(i as int), |l: Seq<char>| counts_deleg(l)),
                    t_layout == count_matching(
                        lseq.take(i as int),
                        |l: Seq<char>| counts_layout(l),
                    ),
                    0 <= t_open <= i,
                    0 <= t_lock <= i,
                    0 <= t_deleg <= i,
                    0 <= t_layout <= i,
                decreases lines.len() - i,
            {
                proof {
                    assert(lseq.take(i + 1).drop_last() =~= lseq.take(i as int));
                }
                let line = lines[i].as_str();
                if contains_str(line, "type: open") {
                    t_open = t_open + 1;
                } else if contains_str(line, "type: lock") {
                    t_lock = t_lock + 1;
                } else if contains_str(line, "type: deleg") {
                    t_deleg = t_deleg + 1;
                } else if contains_str(line, "type: layout") {
                    t_layout = t_layout + 1;
                }
                i = i + 1;
            }
            proof {
                assert(lseq.take(lines@.len() as int) =~= lseq);
            }
            Nfsv4ClientOps { t_open, t_lock, t_deleg, t_layout }
        },
    }
}

/// An `info` line carrying the client identifier.
pub open spec fn is_clientid_line(line: Seq<char>) -> bool {
    contains_seq(line, "clientid"@)
}

/// The identifier an `info` line carries: the line with the `clientid:` tag
/// deleted and surrounding whitespace stripped.
pub open spec fn clientid_of_line(line: Seq<char>) -> Seq<char> {
    trim_spec(remove_all_spec(line, "clientid:"@))
}

/// An `info` line carrying the client's own address; the callback address
/// line is excluded.
pub open spec fn is_address_line(line: Seq<char>) -> bool {
    contains_seq(line, "address"@) && !contains_seq(line, "callback"@)
}

/// The address an `info` line carries: double quotes deleted, the
/// `address:` tag deleted, surrounding whitespace stripped.
pub open spec fn address_of_line(line: Seq<char>) -> Seq<char> {
    trim_spec(remove_all_spec(remove_all_spec(line, "\""@), "address:"@))
}

/// The client identifier a whole `info` file yields: of the lines carrying
/// one, the last wins; none yields the empty string.
pub open spec fn info_clientid_spec(lines: Seq<Seq<char>>) -> Seq<char>
    decreases lines.len(),
{
    if lines.len() == 0 {
        Seq::empty()
    } else if is_clientid_line(lines.last()) {
        clientid_of_line(lines.last())
    } else {
        info_clientid_spec(lines.drop_last())
    }
}

/// The address a whole `info` file yields, the last carrying line winning.
pub open spec fn info_address_spec(lines: Seq<Seq<char>>) -> Seq<char>
    decreases lines.len(),
{
    if lines.len() == 0 {
        Seq::empty()
    } else if is_address_line(lines.last()) {
        address_of_line(lines.last())
    } else {
        info_address_spec(lines.drop_last())
    }
}

/// What one client directory entry parses to.
pub open spec fn client_matches(e: ClientEntry, c: Nfsv4Client) -> bool {
    &&& c.clientid@ == match e.info {
        Some(s) => info_clientid_spec(split_char_spec(s@, '\n')),
        None => Seq::<char>::empty(),
    }
    &&& c.address@ == match e.info {
        Some(s) => info_address_spec(split_char_spec(s@, '\n')),
        None => Seq::<char>::empty(),
    }
    &&& c.ops_count == match e.states {
        Some(s) => states_ops_spec(s@),
        None => zero_ops(),
    }
}

/// Parses one client directory entry: identity from its `info` file,
/// operation counts from its `states` file; an absent file yields the
/// default (empty strings, zero counts) rather than skipping the client.
pub fn client_information(info: Option<&str>, states: Option<&str>) -> (r: Nfsv4Client)
    requires
        states matches Some(c) ==> c@.len() < i64::MAX,
    ensures
        r.clientid@ == match info {
            Some(s) => info_clientid_spec(split_char_spec(s@, '\n')),
            None => Seq::<char>::empty(),
        },
        r.address@ == match info {
            Some(s) => info_address_spec(split_char_spec(s@, '\n')),
            None => Seq::<char>::empty(),
        },
        r.ops_count == match states {
            Some(s) => states_ops_spec(s@),
            None => zero_ops(),
        },
{
    let mut clientid = String::new();
    let mut address = String::new();
    match info {
        None => {},
        Some(s) => {
            let lines = split_char(s, '\n');
            let ghost lseq = lines.deep_view();
            let mut i: usize = 0;
            while i < lines.len()
                invariant
                    lseq == lines.deep_view(),
                    i <= lines.len(),
                    clientid@ == info_clientid_spec(lseq.take(i as int)),
                    address@ == info_address_spec(lseq.take(i as int)),
                decreases lines.len() - i,
            {
                proof {
                    assert(lseq.take(i + 1).drop_last() =~= lseq.take(i as int));
                }
                proof {
                    reveal_strlit("clientid:");
                    reveal_strlit("address:");
                    reveal_strlit("\"");
                }
                let line = lines[i].as_str();
                if contains_str(line, "clientid") {
                    clientid = trim_str(remove_all(line, "clientid:").as_str());
                }
                if contains_str(line, "address") && !contains_str(line, "callback") {
                    let unquoted = remove_all(line, "\"");
                    address = trim_str(remove_all(unquoted.as_str(), "address:").as_str());
                }
                i = i + 1;
            }
            proof {
                assert(lseq.take(lines@.len() as int) =~= lseq);
            }
        },
    }
    let ops_count = clients_ops_information(states);
    Nfsv4Client { clientid, address, ops_count }
}

/// Parses every client directory entry, in the order the entries were
/// handed in (directory enumeration order; callers must not rely on it).
/// `None` stands for an absent clients root and yields the empty sequence.
pub fn clients_information(clients: Option<&Vec<ClientEntry>>) -> (r: Vec<Nfsv4Client>)
    requires
        clients matches Some(v) ==> forall|k: int|
            0 <= k < v@.len() ==> (#[trigger] v@[k].states matches Some(st) ==> st@.len()
                < i64::MAX),
    ensures
        clients is None ==> r@.len() == 0,
        clients matches Some(v) ==> {
            &&& r@.len() == v@.len()
            &&& forall|k: int| 0 <= k < v@.len() ==> client_matches(v@[k], #[trigger] r@[k])
        },
{
    let mut out: Vec<Nfsv4Client> = Vec::new();
    match clients {
        None => {},
        Some(v) => {
            let mut i: usize = 0;
            while i < v.len()
                invariant
                    forall|k: int|
                        0 <= k < v@.len() ==> (#[trigger] v@[k].states matches Some(st)
                            ==> st@.len() < i64::MAX),
                    i <= v.len(),
                    out@.len() == i,
                    forall|k: int| 0 <= k < i ==> client_matches(v@[k], #[trigger] out@[k]),
                decreases v.len() - i,
            {
                let e = &v[i];
                let info = match &e.info {
                    Some(s) => Some(s.as_str()),
                    None => None,
                };
                let states = match &e.states {
                    Some(s) => Some(s.as_str()),
                    None => None,
                };
                let c = client_information(info, states);
                out.push(c);
                i = i + 1;
            }
        },
    }
    out
}

} // verus!

use vstd::prelude::*;

verus! {

/// One listening TCP socket resolved to its owning process.
pub struct PortInfo {
    /// The local listening port.
    pub port: u16,
    /// The local address the socket is bound to, in display form.
    pub address: String,
    /// Identifier of the owning process.
    pub pid: u32,
    /// Display name of the owning process; `"unknown"` when the process
    /// could not be resolved.
    pub process_name: String,
    /// Path to the executable, when the process could be resolved and the
    /// system reports one.
    pub exe_path: Option<String>,
    /// Working directory of the process, under the same conditions.
    pub cwd: Option<String>,
    /// Invocation arguments of the process; empty when unresolvable.
    pub cmd_args: Vec<String>,
}

/// Mathematical model of a `PortInfo` record.
pub ghost struct PortInfoV {
    pub port: u16,
    pub address: Seq<char>,
    pub pid: u32,
    pub process_name: Seq<char>,
    pub exe_path: Option<Seq<char>>,
    pub cwd: Option<Seq<char>>,
    pub cmd_args: Seq<Seq<char>>,
}

impl View for PortInfo {
    type V = PortInfoV;

    open spec fn view(&self) -> PortInfoV {
        PortInfoV {
            port: self.port,
            address: self.address@,
            pid: self.pid,
            process_name: self.process_name@,
            exe_path: self.exe_path.deep_view(),
            cwd: self.cwd.deep_view(),
            cmd_args: self.cmd_args.deep_view(),
        }
    }
}

impl DeepView for PortInfo {
    type V = PortInfoV;

    open spec fn deep_view(&self) -> PortInfoV {
        self.view()
    }
}

/// Two records share a key when they name the same port and process.
pub open spec fn has_key(s: Seq<PortInfoV>, port: u16, pid: u32) -> bool {
    exists|i: int| 0 <= i < s.len() && s[i].port == port && s[i].pid == pid
}

/// No two records share the same `(port, pid)` pair.
pub open spec fn distinct_keys(s: Seq<PortInfoV>) -> bool {
    forall|i: int, j: int|
        0 <= i < j < s.len() ==> !(s[i].port == s[j].port && s[i].pid == s[j].pid)
}

/// Port values never decrease along the sequence.
pub open spec fn sorted_by_port(s: Seq<PortInfoV>) -> bool {
    forall|i: int, j: int| 0 <= i < j < s.len() ==> s[i].port <= s[j].port
}

/// Keeps, left to right, the first record of each `(port, pid)` key and
/// drops every later one.
pub open spec fn dedup_keys(s: Seq<PortInfoV>) -> Seq<PortInfoV>
    decreases s.len(),
{
    if s.len() == 0 {
        Seq::empty()
    } else {
        let rest = dedup_keys(s.drop_last());
        let x = s.last();
        if has_key(s.drop_last(), x.port, x.pid) {
            rest
        } else {
            rest.push(x)
        }
    }
}

/// Places `x` immediately before the first record whose port exceeds
/// `x.port`; a record inserted later therefore lands after its equals.
pub open spec fn insert_by_port(s: Seq<PortInfoV>, x: PortInfoV) -> Seq<PortInfoV>
    decreases s.len(),
{
    if s.len() == 0 {
        seq![x]
    } else if s[0].port <= x.port {
        seq![s[0]] + insert_by_port(s.drop_first(), x)
    } else {
        seq![x] + s
    }
}

/// Stable insertion sort by ascending port: records with equal ports keep
/// their original relative order.
pub open spec fn sort_by_port(s: Seq<PortInfoV>) -> Seq<PortInfoV>
    decreases s.len(),
{
    if s.len() == 0 {
        Seq::empty()
    } else {
        insert_by_port(sort_by_port(s.drop_last()), s.last())
    }
}

/// States that position `i` of `s` witnesses the key `(port, pid)`.
proof fn lemma_has_key_at(s: Seq<PortInfoV>, i: int)
    requires
        0 <= i < s.len(),
    ensures
        has_key(s, s[i].port, s[i].pid),
{
}

/// Every element of the insertion result is either `x` or an element of `s`.
proof fn lemma_insert_elems(s: Seq<PortInfoV>, x: PortInfoV)
    ensures
        forall|i: int|
            0 <= i < insert_by_port(s, x).len() ==> insert_by_port(s, x)[i] == x || exists|j: int|
                0 <= j < s.len() && insert_by_port(s, x)[i] == s[j],
    decreases s.len(),
{
    if s.len() == 0 {
    } else if s[0].port <= x.port {
        lemma_insert_elems(s.drop_first(), x);
        let inner = insert_by_port(s.drop_first(), x);
        let r = seq![s[0]] + inner;
        assert forall|i: int|
            0 <= i < r.len() implies r[i] == x || exists|j: int|
            0 <= j < s.len() && r[i] == s[j] by {
            if i == 0 {
                assert(r[0] == s[0]);
            } else {
                assert(r[i] == inner[i - 1]);
                if inner[i - 1] != x {
                    let j = choose|j: int|
                        0 <= j < s.drop_first().len() && inner[i - 1] == s.drop_first()[j];
                    assert(r[i] == s[j + 1]);
                }
            }
        }
    }
}

proof fn lemma_insert_sorted(s: Seq<PortInfoV>, x: PortInfoV)
    requires
        sorted_by_port(s),
    ensures
        sorted_by_port(insert_by_port(s, x)),
    decreases s.len(),
{
    if s.len() == 0 {
    } else if s[0].port <= x.port {
        assert(sorted_by_port(s.drop_first()));
        lemma_insert_sorted(s.drop_first(), x);
        let inner = insert_by_port(s.drop_first(), x);
        let r = seq![s[0]] + inner;
        assert forall|i: int, j: int| 0 <= i < j < r.len() implies r[i].port <= r[j].port by {
            if i == 0 {
                lemma_insert_elems(s.drop_first(), x);
                assert(r[j] == inner[j - 1]);
                if inner[j - 1] != x {
                    let k = choose|k: int|
                        0 <= k < s.drop_first().len() && inner[j - 1] == s.drop_first()[k];
                    assert(s.drop_first()[k] == s[k + 1]);
                }
            } else {
                assert(r[i] == inner[i - 1] && r[j] == inner[j - 1]);
            }
        }
    }
}

/// Insertion adds exactly the key of `x` to the keys of `s`.
proof fn lemma_insert_keys(s: Seq<PortInfoV>, x: PortInfoV, po: u16, pi: u32)
    ensures
        has_key(insert_by_port(s, x), po, pi) <==> (has_key(s, po, pi) || (x.port == po && x.pid
            == pi)),
    decreases s.len(),
{
    let r = insert_by_port(s, x);
    if s.len() == 0 {
        if x.port == po && x.pid == pi {
            assert(r[0] == x);
            lemma_has_key_at(r, 0);
        }
        if has_key(r, po, pi) {
            let i = choose|i: int| 0 <= i < r.len() && r[i].port == po && r[i].pid == pi;
            assert(r[i] == x);
        }
    } else if s[0].port <= x.port {
        lemma_insert_keys(s.drop_first(), x, po, pi);
        let inner = insert_by_port(s.drop_first(), x);
        if has_key(r, po, pi) {
            let i = choose|i: int| 0 <= i < r.len() && r[i].port == po && r[i].pid == pi;
            if i == 0 {
                lemma_has_key_at(s, 0);
            } else {
                assert(r[i] == inner[i - 1]);
                lemma_has_key_at(inner, i - 1);
                if has_key(s.drop_first(), po, pi) {
                    let j = choose|j: int|
                        0 <= j < s.drop_first().len() && s.drop_first()[j].port == po
                            && s.drop_first()[j].pid == pi;
                    assert(s[j + 1] == s.drop_first()[j]);
                    lemma_has_key_at(s, j + 1);
                }
            }
        }
        if has_key(s, po, pi) {
            let i = choose|i: int| 0 <= i < s.len() && s[i].port == po && s[i].pid == pi;
            if i == 0 {
                assert(r[0] == s[0]);
                lemma_has_key_at(r, 0);
            } else {
                assert(s.drop_first()[i - 1] == s[i]);
                lemma_has_key_at(s.drop_first(), i - 1);
                let j = choose|j: int|
                    0 <= j < inner.len() && inner[j].port == po && inner[j].pid == pi;
                assert(r[j + 1] == inner[j]);
                lemma_has_key_at(r, j + 1);
            }
        }
        if x.port == po && x.pid == pi {
            let j = choose|j: int|
                0 <= j < inner.len() && inner[j].port == po && inner[j].pid == pi;
            assert(r[j + 1] == inner[j]);
            lemma_has_key_at(r, j + 1);
        }
    } else {
        if has_key(r, po, pi) {
            let i = choose|i: int| 0 <= i < r.len() && r[i].port == po && r[i].pid == pi;
            if i > 0 {
                assert(r[i] == s[i - 1]);
                lemma_has_key_at(s, i - 1);
            }
        }
        if has_key(s, po, pi) {
            let i = choose|i: int| 0 <= i < s.len() && s[i].port == po && s[i].pid == pi;
            assert(r[i + 1] == s[i]);
            lemma_has_key_at(r, i + 1);
        }
        if x.port == po && x.pid == pi {
            assert(r[0] == x);
            lemma_has_key_at(r, 0);
        }
    }
}

proof fn lemma_insert_distinct(s: Seq<PortInfoV>, x: PortInfoV)
    requires
        distinct_keys(s),
        !has_key(s, x.port, x.pid),
    ensures
        distinct_keys(insert_by_port(s, x)),
    decreases s.len(),
{
    if s.len() == 0 {
    } else if s[0].port <= x.port {
        assert(forall|i: int| 0 <= i < s.drop_first().len() ==> s.drop_first()[i] == s[i + 1]);
        assert(!has_key(s.drop_first(), x.port, x.pid)) by {
            if has_key(s.drop_first(), x.port, x.pid) {
                let i = choose|i: int|
                    0 <= i < s.drop_first().len() && s.drop_first()[i].port == x.port
                        && s.drop_first()[i].pid == x.pid;
                lemma_has_key_at(s, i + 1);
            }
        }
        lemma_insert_distinct(s.drop_first(), x);
        let inner = insert_by_port(s.drop_first(), x);
        let r = seq![s[0]] + inner;
        assert forall|i: int, j: int|
            0 <= i < j < r.len() implies !(r[i].port == r[j].port && r[i].pid == r[j].pid) by {
            if i == 0 {
                if r[0].port == r[j].port && r[0].pid == r[j].pid {
                    assert(r[j] == inner[j - 1]);
                    lemma_has_key_at(inner, j - 1);
                    lemma_insert_keys(s.drop_first(), x, s[0].port, s[0].pid);
                    if has_key(s.drop_first(), s[0].port, s[0].pid) {
                        let k = choose|k: int|
                            0 <= k < s.drop_first().len() && s.drop_first()[k].port == s[0].port
                                && s.drop_first()[k].pid == s[0].pid;
                        assert(s.drop_first()[k] == s[k + 1]);
                    } else {
                        lemma_has_key_at(s, 0);
                    }
                }
            } else {
                assert(r[i] == inner[i - 1] && r[j] == inner[j - 1]);
            }
        }
    } else {
        let r = seq![x] + s;
        assert forall|i: int, j: int|
            0 <= i < j < r.len() implies !(r[i].port == r[j].port && r[i].pid == r[j].pid) by {
            if i == 0 {
                if r[0].port == r[j].port && r[0].pid == r[j].pid {
                    assert(r[j] == s[j - 1]);
                    lemma_has_key_at(s, j - 1);
                }
            } else {
                assert(r[i] == s[i - 1] && r[j] == s[j - 1]);
            }
        }
    }
}

proof fn lemma_sort_keys(s: Seq<PortInfoV>, po: u16, pi: u32)
    ensures
        has_key(sort_by_port(s), po, pi) <==> has_key(s, po, pi),
    decreases s.len(),
{
    if s.len() > 0 {
        let pre = s.drop_last();
        lemma_sort_keys(pre, po, pi);
        lemma_insert_keys(sort_by_port(pre), s.last(), po, pi);
        if has_key(s, po, pi) {
            let i = choose|i: int| 0 <= i < s.len() && s[i].port == po && s[i].pid == pi;
            if i < s.len() - 1 {
                assert(pre[i] == s[i]);
                lemma_has_key_at(pre, i);
            }
        }
        if has_key(pre, po, pi) {
            let i = choose|i: int| 0 <= i < pre.len() && pre[i].port == po && pre[i].pid == pi;
            assert(s[i] == pre[i]);
            lemma_has_key_at(s, i);
        }
    }
}

proof fn lemma_sort_sorted_distinct(s: Seq<PortInfoV>)
    requires
        distinct_keys(s),
    ensures
        sorted_by_port(sort_by_port(s)),
        distinct_keys(sort_by_port(s)),
    decreases s.len(),
{
    if s.len() > 0 {
        let pre = s.drop_last();
        let x = s.last();
        assert(distinct_keys(pre)) by {
            assert(forall|i: int| 0 <= i < pre.len() ==> pre[i] == s[i]);
        }
        lemma_sort_sorted_distinct(pre);
        assert(!has_key(pre, x.port, x.pid)) by {
            if has_key(pre, x.port, x.pid) {
                let i = choose|i: int|
                    0 <= i < pre.len() && pre[i].port == x.port && pre[i].pid == x.pid;
                assert(s[i].port == s[s.len() - 1].port && s[i].pid == s[s.len() - 1].pid);
            }
        }
        lemma_sort_keys(pre, x.port, x.pid);
        lemma_insert_sorted(sort_by_port(pre), x);
        lemma_insert_distinct(sort_by_port(pre), x);
    }
}

proof fn lemma_dedup_keys(s: Seq<PortInfoV>, po: u16, pi: u32)
    ensures
        has_key(dedup_keys(s), po, pi) <==> has_key(s, po, pi),
    decreases s.len(),
{
    if s.len() > 0 {
        let pre = s.drop_last();
        let x = s.last();
        lemma_dedup_keys(pre, po, pi);
        assert(has_key(s, po, pi) <==> (has_key(pre, po, pi) || (x.port == po && x.pid == pi)))
            by {
            if has_key(s, po, pi) {
                let i = choose|i: int| 0 <= i < s.len() && s[i].port == po && s[i].pid == pi;
                if i < s.len() - 1 {
                    assert(pre[i] == s[i]);
                    lemma_has_key_at(pre, i);
                }
            }
            if has_key(pre, po, pi) {
                let i = choose|i: int|
                    0 <= i < pre.len() && pre[i].port == po && pre[i].pid == pi;
                assert(s[i] == pre[i]);
                lemma_has_key_at(s, i);
            }
            if x.port == po && x.pid == pi {
                lemma_has_key_at(s, s.len() - 1);
            }
        }
        if has_key(pre, x.port, x.pid) {
            if x.port == po && x.pid == pi {
                assert(has_key(pre, po, pi));
            }
        } else {
            let r = dedup_keys(pre).push(x);
            assert(dedup_keys(s) == r);
            if has_key(r, po, pi) {
                let i = choose|i: int| 0 <= i < r.len() && r[i].port == po && r[i].pid == pi;
                if i < r.len() - 1 {
                    assert(r[i] == dedup_keys(pre)[i]);
                    lemma_has_key_at(dedup_keys(pre), i);
                }
            }
            if has_key(dedup_keys(pre), po, pi) {
                let i = choose|i: int|
                    0 <= i < dedup_keys(pre).len() && dedup_keys(pre)[i].port == po
                        && dedup_keys(pre)[i].pid == pi;
                assert(r[i] == dedup_keys(pre)[i]);
                lemma_has_key_at(r, i);
            }
            if x.port == po && x.pid == pi {
                lemma_has_key_at(r, r.len() - 1);
            }
        }
    }
}

proof fn lemma_dedup_distinct(s: Seq<PortInfoV>)
    ensures
        distinct_keys(dedup_keys(s)),
    decreases s.len(),
{
    if s.len() > 0 {
        let pre = s.drop_last();
        let x = s.last();
        lemma_dedup_distinct(pre);
        if !has_key(pre, x.port, x.pid) {
            let r = dedup_keys(pre).push(x);
            lemma_dedup_keys(pre, x.port, x.pid);
            assert forall|i: int, j: int|
                0 <= i < j < r.len() implies !(r[i].port == r[j].port && r[i].pid == r[j].pid) by {
                if j == r.len() - 1 {
                    if r[i].port == r[j].port && r[i].pid == r[j].pid {
                        assert(r[i] == dedup_keys(pre)[i]);
                        lemma_has_key_at(dedup_keys(pre), i);
                    }
                } else {
                    assert(r[i] == dedup_keys(pre)[i] && r[j] == dedup_keys(pre)[j]);
                }
            }
        }
    }
}

/// The states a TCP socket can be in, mirroring what the operating system
/// reports; only `Listen` sockets enter the registry.
#[derive(Clone, Copy, Debug, PartialEq, Eq, Structural)]
pub enum SocketState {
    Closed,
    Listen,
    SynSent,
    SynReceived,
    Established,
    FinWait1,
    FinWait2,
    CloseWait,
    Closing,
    LastAck,
    TimeWait,
    DeleteTcb,
    Unknown,
}

/// The TCP half of one socket-table row.
pub struct TcpSocket {
    pub port: u16,
    pub address: String,
    pub state: SocketState,
}

/// Mathematical model of a `TcpSocket`.
pub ghost struct TcpSocketV {
    pub port: u16,
    pub address: Seq<char>,
    pub state: SocketState,
}

impl View for TcpSocket {
    type V = TcpSocketV;

    open spec fn view(&self) -> TcpSocketV {
        TcpSocketV { port: self.port, address: self.address@, state: self.state }
    }
}

impl DeepView for TcpSocket {
    type V = TcpSocketV;

    open spec fn deep_view(&self) -> TcpSocketV {
        self.view()
    }
}

/// One row of the socket table: the protocol-specific half (present for TCP
/// sockets, absent for UDP) and the owning process identifiers.
pub struct SocketEntry {
    pub tcp: Option<TcpSocket>,
    pub pids: Vec<u32>,
}

/// Mathematical model of a `SocketEntry`.
pub ghost struct SocketEntryV {
    pub tcp: Option<TcpSocketV>,
    pub pids: Seq<u32>,
}

impl View for SocketEntry {
    type V = SocketEntryV;

    open spec fn view(&self) -> SocketEntryV {
        SocketEntryV { tcp: self.tcp.deep_view(), pids: self.pids@ }
    }
}

impl DeepView for SocketEntry {
    type V = SocketEntryV;

    open spec fn deep_view(&self) -> SocketEntryV {
        self.view()
    }
}

/// One row of the process table.
pub struct ProcessEntry {
    pub pid: u32,
    pub name: String,
    pub exe: Option<String>,
    pub cwd: Option<String>,
    pub cmd: Vec<String>,
}

/// Mathematical model of a `ProcessEntry`.
pub ghost struct ProcessEntryV {
    pub pid: u32,
    pub name: Seq<char>,
    pub exe: Option<Seq<char>>,
    pub cwd: Option<Seq<char>>,
    pub cmd: Seq<Seq<char>>,
}

impl View for ProcessEntry {
    type V = ProcessEntryV;

    open spec fn view(&self) -> ProcessEntryV {
        ProcessEntryV {
            pid: self.pid,
            name: self.name@,
            exe: self.exe.deep_view(),
            cwd: self.cwd.deep_view(),
            cmd: self.cmd.deep_view(),
        }
    }
}

impl DeepView for ProcessEntry {
    type V = ProcessEntryV;

    open spec fn deep_view(&self) -> ProcessEntryV {
        self.view()
    }
}

/// The first process-table row carrying `pid`, if any.
pub open spec fn first_process(procs: Seq<ProcessEntryV>, pid: u32) -> Option<ProcessEntryV>
    decreases procs.len(),
{
    if procs.len() == 0 {
        None
    } else if procs[0].pid == pid {
        Some(procs[0])
    } else {
        first_process(procs.drop_first(), pid)
    }
}

/// The record a listening socket contributes: its port and address joined
/// with the owning process, or placeholder fields when the process is gone.
pub open spec fn record_of(tcp: TcpSocketV, pid: u32, procs: Seq<ProcessEntryV>) -> PortInfoV {
    match first_process(procs, pid) {
        Some(pe) => PortInfoV {
            port: tcp.port,
            address: tcp.address,
            pid: pid,
            process_name: pe.name,
            exe_path: pe.exe,
            cwd: pe.cwd,
            cmd_args: pe.cmd,
        },
        None => PortInfoV {
            port: tcp.port,
            address: tcp.address,
            pid: pid,
            process_name: "unknown"@,
            exe_path: None,
            cwd: None,
            cmd_args: Seq::empty(),
        },
    }
}

/// A socket contributes one record exactly when it is TCP, in the listening
/// state, and has at least one associated process; the first reported
/// process identifier is taken and the rest are discarded.
pub open spec fn listener_record(s: SocketEntryV, procs: Seq<ProcessEntryV>) -> Option<PortInfoV> {
    match s.tcp {
        Some(t) => if t.state == SocketState::Listen && s.pids.len() > 0 {
            Some(record_of(t, s.pids[0], procs))
        } else {
            None
        },
        None => None,
    }
}

/// The records of all listening sockets, in discovery order, before
/// deduplication and sorting.
pub open spec fn raw_records(sockets: Seq<SocketEntryV>, procs: Seq<ProcessEntryV>) -> Seq<
    PortInfoV,
>
    decreases sockets.len(),
{
    if sockets.len() == 0 {
        Seq::empty()
    } else {
        let rest = raw_records(sockets.drop_last(), procs);
        match listener_record(sockets.last(), procs) {
            Some(r) => rest.push(r),
            None => rest,
        }
    }
}

/// What one registry snapshot contains, given the socket and process tables:
/// the listener records, deduplicated by `(port, pid)` keeping the first
/// occurrence, then stably sorted by ascending port.
pub open spec fn registry_spec(sockets: Seq<SocketEntryV>, procs: Seq<ProcessEntryV>) -> Seq<
    PortInfoV,
> {
    sort_by_port(dedup_keys(raw_records(sockets, procs)))
}

/// Every registry snapshot is sorted by ascending port and has no two
/// records sharing the same `(port, pid)` pair, whatever the tables hold.
pub proof fn lemma_registry_well_formed(sockets: Seq<SocketEntryV>, procs: Seq<ProcessEntryV>)
    ensures
        sorted_by_port(registry_spec(sockets, procs)),
        distinct_keys(registry_spec(sockets, procs)),
{
    let raw = raw_records(sockets, procs);
    lemma_dedup_distinct(raw);
    lemma_sort_sorted_distinct(dedup_keys(raw));
}


impl Clone for PortInfo {
    fn clone(&self) -> (r: Self)
        ensures
            r@ == self@,
    {
        let cmd_args = self.cmd_args.clone();
        proof {
            assert(cmd_args.deep_view() =~= self.cmd_args.deep_view());
        }
        PortInfo {
            port: self.port,
            address: self.address.clone(),
            pid: self.pid,
            process_name: self.process_name.clone(),
            exe_path: clone_opt_string(&self.exe_path),
            cwd: clone_opt_string(&self.cwd),
            cmd_args,
        }
    }
}

fn clone_opt_string(o: &Option<String>) -> (r: Option<String>)
    ensures
        r.deep_view() == o.deep_view(),
{
    match o {
        Some(s) => Some(s.clone()),
        None => None,
    }
}

/// The first entry of `procs` carrying `pid`, as `first_process` states.
fn lookup_process<'a>(procs: &'a Vec<ProcessEntry>, pid: u32) -> (r: Option<&'a ProcessEntry>)
    ensures
        match r {
            Some(p) => first_process(procs.deep_view(), pid) == Some(p.view()),
            None => first_process(procs.deep_view(), pid) is None,
        },
{
    let ghost dv = procs.deep_view();
    proof {
        assert(dv.skip(0) =~= dv);
    }
    let mut i: usize = 0;
    while i < procs.len()
        invariant
            0 <= i <= procs.len(),
            dv == procs.deep_view(),
            first_process(dv, pid) == first_process(dv.skip(i as int), pid),
        decreases procs.len() - i,
    {
        proof {
            assert(dv.skip(i as int)[0] == dv[i as int]);
        }
        if procs[i].pid == pid {
            return Some(&procs[i]);
        }
        proof {
            assert(dv.skip(i as int).drop_first() =~= dv.skip(i as int + 1));
        }
        i += 1;
    }
    proof {
        assert(dv.skip(procs.len() as int).len() == 0);
    }
    None
}

/// The record one listening socket contributes, as `record_of` states.
fn make_record(tcp: &TcpSocket, pid: u32, procs: &Vec<ProcessEntry>) -> (r: PortInfo)
    ensures
        r@ == record_of(tcp@, pid, procs.deep_view()),
{
    match lookup_process(procs, pid) {
        Some(pe) => {
            let cmd_args = pe.cmd.clone();
            proof {
                assert(cmd_args.deep_view() =~= pe.cmd.deep_view());
            }
            PortInfo {
                port: tcp.port,
                address: tcp.address.clone(),
                pid,
                process_name: pe.name.clone(),
                exe_path: clone_opt_string(&pe.exe),
                cwd: clone_opt_string(&pe.cwd),
                cmd_args,
            }
        },
        None => {
            let cmd_args: Vec<String> = Vec::new();
            proof {
                assert(cmd_args.deep_view() =~= Seq::<Seq<char>>::empty());
            }
            PortInfo {
                port: tcp.port,
                address: tcp.address.clone(),
                pid,
                process_name: String::from_str("unknown"),
                exe_path: None,
                cwd: None,
                cmd_args,
            }
        },
    }
}

/// The records of all listening sockets in discovery order, as
/// `raw_records` states.
fn collect_listener_records(sockets: &Vec<SocketEntry>, procs: &Vec<ProcessEntry>) -> (r: Vec<
    PortInfo,
>)
    ensures
        r.deep_view() == raw_records(sockets.deep_view(), procs.deep_view()),
{
    let ghost sv = sockets.deep_view();
    let ghost pv = procs.deep_view();
    let mut out: Vec<PortInfo> = Vec::new();
    proof {
        assert(out.deep_view() =~= raw_records(sv.take(0), pv));
    }
    let mut i: usize = 0;
    while i < sockets.len()
        invariant
            0 <= i <= sockets.len(),
            sv == sockets.deep_view(),
            pv == procs.deep_view(),
            out.deep_view() == raw_records(sv.take(i as int), pv),
        decreases sockets.len() - i,
    {
        let ghost out_pre = out.deep_view();
        let s = &sockets[i];
        match &s.tcp {
            Some(t) => {
                if t.state == SocketState::Listen && s.pids.len() > 0 {
                    let rec = make_record(t, s.pids[0], procs);
                    out.push(rec);
                    proof {
                        assert(out.deep_view() =~= out_pre.push(rec@));
                    }
                }
            },
            None => {},
        }
        proof {
            assert(sv.take(i as int + 1).drop_last() =~= sv.take(i as int));
            assert(sv.take(i as int + 1).last() == sv[i as int]);
        }
        i += 1;
    }
    proof {
        assert(sv.take(sockets.len() as int) =~= sv);
    }
    out
}

/// Whether some record of `v` carries the key `(port, pid)`.
fn contains_key(v: &Vec<PortInfo>, port: u16, pid: u32) -> (r: bool)
    ensures
        r == has_key(v.deep_view(), port, pid),
{
    let ghost dv = v.deep_view();
    let mut i: usize = 0;
    while i < v.len()
        invariant
            0 <= i <= v.len(),
            dv == v.deep_view(),
            forall|j: int| 0 <= j < i ==> !(dv[j].port == port && dv[j].pid == pid),
        decreases v.len() - i,
    {
        if v[i].port == port && v[i].pid == pid {
            proof {
                lemma_has_key_at(dv, i as int);
            }
            return true;
        }
        i += 1;
    }
    false
}

/// Drops every record whose `(port, pid)` key appeared earlier, as
/// `dedup_keys` states.
fn dedup_by_key(v: &Vec<PortInfo>) -> (r: Vec<PortInfo>)
    ensures
        r.deep_view() == dedup_keys(v.deep_view()),
{
    let ghost dv = v.deep_view();
    let mut out: Vec<PortInfo> = Vec::new();
    proof {
        assert(out.deep_view() =~= dedup_keys(dv.take(0)));
    }
    let mut i: usize = 0;
    while i < v.len()
        invariant
            0 <= i <= v.len(),
            dv == v.deep_view(),
            out.deep_view() == dedup_keys(dv.take(i as int)),
        decreases v.len() - i,
    {
        let ghost out_pre = out.deep_view();
        let x = &v[i];
        if !contains_key(&out, x.port, x.pid) {
            out.push(x.clone());
            proof {
                assert(out.deep_view() =~= out_pre.push(dv[i as int]));
            }
        }
        proof {
            assert(dv.take(i as int + 1).drop_last() =~= dv.take(i as int));
            assert(dv.take(i as int + 1).last() == dv[i as int]);
            lemma_dedup_keys(dv.take(i as int), dv[i as int].port, dv[i as int].pid);
        }
        i += 1;
    }
    proof {
        assert(dv.take(v.len() as int) =~= dv);
    }
    out
}

proof fn lemma_insert_split(s: Seq<PortInfoV>, x: PortInfoV, pos: int)
    requires
        0 <= pos <= s.len(),
        forall|j: int| 0 <= j < pos ==> s[j].port <= x.port,
        pos < s.len() ==> s[pos].port > x.port,
    ensures
        insert_by_port(s, x) == s.take(pos) + seq![x] + s.skip(pos),
    decreases pos,
{
    if pos == 0 {
        assert(insert_by_port(s, x) =~= s.take(0) + seq![x] + s.skip(0));
    } else {
        assert(s[0].port <= x.port);
        assert(forall|j: int| 0 <= j < pos - 1 ==> s.drop_first()[j] == s[j + 1]);
        lemma_insert_split(s.drop_first(), x, pos - 1);
        assert(seq![s[0]] + (s.drop_first().take(pos - 1) + seq![x] + s.drop_first().skip(pos
            - 1)) =~= s.take(pos) + seq![x] + s.skip(pos));
    }
}

/// Stable insertion sort by ascending port, as `sort_by_port` states.
fn sort_ports(v: &Vec<PortInfo>) -> (r: Vec<PortInfo>)
    ensures
        r.deep_view() == sort_by_port(v.deep_view()),
{
    let ghost dv = v.deep_view();
    let mut out: Vec<PortInfo> = Vec::new();
    proof {
        assert(out.deep_view() =~= sort_by_port(dv.take(0)));
    }
    let mut i: usize = 0;
    while i < v.len()
        invariant
            0 <= i <= v.len(),
            dv == v.deep_view(),
            out.deep_view() == sort_by_port(dv.take(i as int)),
        decreases v.len() - i,
    {
        let ghost out_pre = out.deep_view();
        let x = v[i].clone();
        let mut pos: usize = 0;
        while pos < out.len() && out[pos].port <= x.port
            invariant
                0 <= pos <= out.len(),
                out.deep_view() == out_pre,
                x@ == dv[i as int],
                forall|j: int| 0 <= j < pos ==> out.deep_view()[j].port <= x@.port,
            decreases out.len() - pos,
        {
            pos += 1;
        }
        proof {
            lemma_insert_split(out_pre, dv[i as int], pos as int);
        }
        out.insert(pos, x);
        proof {
            assert(out.deep_view() =~= out_pre.take(pos as int) + seq![dv[i as int]]
                + out_pre.skip(pos as int));
            assert(dv.take(i as int + 1).drop_last() =~= dv.take(i as int));
            assert(dv.take(i as int + 1).last() == dv[i as int]);
        }
        i += 1;
    }
    proof {
        assert(dv.take(v.len() as int) =~= dv);
    }
    out
}

/// Joins the socket table with the process table into the registry
/// snapshot: one record per listening TCP socket with at least one owner,
/// deduplicated by `(port, pid)` and stably sorted by ascending port.
pub fn build_port_list(sockets: &Vec<SocketEntry>, procs: &Vec<ProcessEntry>) -> (r: Vec<PortInfo>)
    ensures
        r.deep_view() == registry_spec(sockets.deep_view(), procs.deep_view()),
        sorted_by_port(r.deep_view()),
        distinct_keys(r.deep_view()),
{
    let raw = collect_listener_records(sockets, procs);
    let deduped = dedup_by_key(&raw);
    let sorted = sort_ports(&deduped);
    proof {
        lemma_registry_well_formed(sockets.deep_view(), procs.deep_view());
    }
    sorted
}


#[verifier::external_type_specification]
#[verifier::external_body]
pub struct ExSocketInfo(netstat2::SocketInfo);

#[verifier::external_type_specification]
#[verifier::external_body]
pub struct ExNetTcpState(netstat2::TcpState);

#[verifier::external_type_specification]
#[verifier::external_body]
pub struct ExNetstatError(netstat2::error::Error);

#[verifier::external_type_specification]
#[verifier::external_body]
pub struct ExSystem(sysinfo::System);

/// Relies on netstat2::get_sockets_info: queries the socket table for TCP
/// sockets over IPv4 and IPv6; what comes back depends on live system state.
#[verifier::external_body]
fn fetch_sockets() -> (r: Result<Vec<netstat2::SocketInfo>, netstat2::error::Error>) {
    netstat2::get_sockets_info(
        netstat2::AddressFamilyFlags::IPV4 | netstat2::AddressFamilyFlags::IPV6,
        netstat2::ProtocolFlags::TCP,
    )
}

/// Relies on the Display impl of netstat2's error type for the message text.
#[verifier::external_body]
fn error_text(e: &netstat2::error::Error) -> (r: String) {
    format!("{e}")
}

/// Relies on the public fields of netstat2::SocketInfo: hands out the port,
/// address (in display form) and state of a TCP socket-table row, or nothing
/// for a UDP row.
#[verifier::external_body]
fn socket_tcp(si: &netstat2::SocketInfo) -> (r: Option<(u16, String, netstat2::TcpState)>) {
    match &si.protocol_socket_info {
        netstat2::ProtocolSocketInfo::Tcp(t) => {
            Some((t.local_port, format!("{}", t.local_addr), t.state))
        },
        netstat2::ProtocolSocketInfo::Udp(_) => None,
    }
}

/// Relies on the associated_pids field of netstat2::SocketInfo: the owning
/// process identifiers in the order the system reported them.
#[verifier::external_body]
fn socket_pids(si: &netstat2::SocketInfo) -> (r: Vec<u32>) {
    si.associated_pids.clone()
}

/// Relies on netstat2::TcpState: maps each of its variants to the library's
/// state of the same name, one arm per variant.
#[verifier::external_body]
fn tcp_state_of(s: &netstat2::TcpState) -> (r: SocketState) {
    match s {
        netstat2::TcpState::Closed => SocketState::Closed,
        netstat2::TcpState::Listen => SocketState::Listen,
        netstat2::TcpState::SynSent => SocketState::SynSent,
        netstat2::TcpState::SynReceived => SocketState::SynReceived,
        netstat2::TcpState::Established => SocketState::Established,
        netstat2::TcpState::FinWait1 => SocketState::FinWait1,
        netstat2::TcpState::FinWait2 => SocketState::FinWait2,
        netstat2::TcpState::CloseWait => SocketState::CloseWait,
        netstat2::TcpState::Closing => SocketState::Closing,
        netstat2::TcpState::LastAck => SocketState::LastAck,
        netstat2::TcpState::TimeWait => SocketState::TimeWait,
        netstat2::TcpState::DeleteTcb => SocketState::DeleteTcb,
        netstat2::TcpState::Unknown => SocketState::Unknown,
    }
}

/// Relies on sysinfo::System::new: a fresh, empty system snapshot.
#[verifier::external_body]
fn new_system() -> (r: sysinfo::System) {
    sysinfo::System::new()
}

/// Relies on sysinfo::System::refresh_processes_specifics: loads every
/// process, with all of its per-process data, into the snapshot.
#[verifier::external_body]
fn refresh_processes(sys: &mut sysinfo::System) {
    sys.refresh_processes_specifics(
        sysinfo::ProcessesToUpdate::All,
        true,
        sysinfo::ProcessRefreshKind::everything(),
    );
}

/// Relies on sysinfo::System::processes and the per-process accessors name,
/// exe, cwd and cmd: hands the process table out as plain values, one entry
/// per process, in no promised order.
#[verifier::external_body]
fn process_entries(sys: &sysinfo::System) -> (r: Vec<ProcessEntry>) {
    sys.processes().iter().map(
        |(pid, p)| ProcessEntry {
            pid: pid.as_u32(),
            name: p.name().to_string_lossy().to_string(),
            exe: p.exe().map(|q| q.to_string_lossy().to_string()),
            cwd: p.cwd().map(|q| q.to_string_lossy().to_string()),
            cmd: p.cmd().iter().map(|c| c.to_string_lossy().to_string()).collect(),
        },
    ).collect()
}

/// Takes one registry snapshot: reads the socket and process tables and
/// joins them with `build_port_list`. Fails exactly when the socket-table
/// query itself fails; a process that cannot be resolved never drops its
/// socket and instead yields a record with placeholder fields.
pub fn get_listening_ports() -> (r: Result<Vec<PortInfo>, String>)
    ensures
        r matches Ok(v) ==> sorted_by_port(v.deep_view()) && distinct_keys(v.deep_view()),
{
    let sockets = match fetch_sockets() {
        Ok(s) => s,
        Err(e) => {
            return Err(error_text(&e));
        },
    };
    let mut sys = new_system();
    refresh_processes(&mut sys);
    let procs = process_entries(&sys);
    let mut entries: Vec<SocketEntry> = Vec::new();
    let mut i: usize = 0;
    while i < sockets.len()
        decreases sockets.len() - i,
    {
        let si = &sockets[i];
        let tcp = match socket_tcp(si) {
            Some((port, address, st)) => {
                let state = tcp_state_of(&st);
                Some(TcpSocket { port, address, state })
            },
            None => None,
        };
        entries.push(SocketEntry { tcp, pids: socket_pids(si) });
        i += 1;
    }
    Ok(build_port_list(&entries, &procs))
}

} // verus!

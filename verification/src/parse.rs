//! Reading the text that system tools print into records: containers,
//! container statistics, services, accounts, file systems, processes and the
//! statistics line of the remote host.
use vstd::prelude::*;
use crate::text::{
    chars_of, chars_trim_end_char, join, join_from, lines, pieces, split_lines, split_pieces,
    split_words, string_of, trim, trim_end_char, u32_or_zero, u64_or_zero, uint_or_zero, words,
    without_suffix, chars_without_suffix, Sep, has_sub, contains_chars, int_error_text, parse_uint,
    parse_uint_chars, trim_chars,
};

verus! {

broadcast use vstd::string::group_string_axioms;

// ─── Rows of fields ─────────────────────────────────────────────────────────

/// The fields of one line: its white-space separated words, or its pieces
/// between separator characters, at most `limit` of them.
pub open spec fn line_fields(l: Seq<char>, sep: Sep, limit: nat) -> Seq<Seq<char>> {
    match sep {
        Sep::Whitespace => words(l),
        Sep::Char(_) => pieces(l, sep, limit),
    }
}

pub open spec fn fields_fn(sep: Sep, limit: nat) -> spec_fn(Seq<char>) -> Seq<Seq<char>> {
    |l: Seq<char>| line_fields(l, sep, limit)
}

pub open spec fn wide(min: nat) -> spec_fn(Seq<Seq<char>>) -> bool {
    |f: Seq<Seq<char>>| f.len() >= min
}

/// The fields of each line of `out` that has at least `min` of them, in
/// order; shorter lines are skipped.
pub open spec fn rows(out: Seq<char>, sep: Sep, limit: nat, min: nat) -> Seq<Seq<Seq<char>>> {
    lines(out).map_values(fields_fn(sep, limit)).filter(wide(min))
}

proof fn lemma_row_wide(out: Seq<char>, sep: Sep, limit: nat, min: nat, i: int)
    requires
        0 <= i < rows(out, sep, limit, min).len(),
    ensures
        rows(out, sep, limit, min)[i].len() >= min,
{
    lines(out).map_values(fields_fn(sep, limit)).lemma_filter_pred(wide(min), i);
}

fn fields_of(l: &Vec<char>, sep: Sep, limit: usize) -> (f: Vec<Vec<char>>)
    requires
        limit >= 1,
    ensures
        f.deep_view() == line_fields(l@, sep, limit as nat),
{
    match sep {
        Sep::Whitespace => split_words(l),
        Sep::Char(_) => split_pieces(l, sep, limit),
    }
}

/// The rows of fields of a tool's output (see `rows`).
pub fn rows_of(out: &str, sep: Sep, limit: usize, min: usize) -> (r: Vec<Vec<Vec<char>>>)
    requires
        limit >= 1,
    ensures
        r.deep_view() == rows(out@, sep, limit as nat, min as nat),
{
    let v = chars_of(out);
    let ls = split_lines(&v);
    let ghost lv = ls.deep_view();
    let ghost all = lv.map_values(fields_fn(sep, limit as nat));
    let mut r: Vec<Vec<Vec<char>>> = Vec::new();
    assert(all.take(0) =~= Seq::<Seq<Seq<char>>>::empty());
    for i in 0..ls.len()
        invariant
            limit >= 1,
            lv == ls.deep_view(),
            all == lv.map_values(fields_fn(sep, limit as nat)),
            r.deep_view() == all.take(i as int).filter(wide(min as nat)),
    {
        reveal_with_fuel(Seq::filter, 1);
        assert(all.take(i + 1).drop_last() =~= all.take(i as int));
        assert(ls[i as int].deep_view() =~= ls[i as int]@);
        let f = fields_of(&ls[i], sep, limit);
        assert(all[i as int] == f.deep_view());
        if f.len() >= min {
            let ghost rv = r.deep_view();
            r.push(f);
            assert(r.deep_view() =~= rv.push(all[i as int]));
        }
    }
    assert(all.take(ls.len() as int) =~= all);
    r
}

fn field_string(f: &Vec<Vec<char>>, i: usize) -> (s: String)
    requires
        i < f.len(),
    ensures
        s@ == f.deep_view()[i as int],
{
    assert(f[i as int].deep_view() =~= f[i as int]@);
    string_of(f[i].as_slice())
}

fn field_u64(f: &Vec<Vec<char>>, i: usize) -> (v: u64)
    requires
        i < f.len(),
    ensures
        v == uint_or_zero(f.deep_view()[i as int], u64::MAX as int),
{
    assert(f[i as int].deep_view() =~= f[i as int]@);
    u64_or_zero(&f[i])
}

fn field_u32(f: &Vec<Vec<char>>, i: usize) -> (v: u32)
    requires
        i < f.len(),
    ensures
        v == uint_or_zero(f.deep_view()[i as int], u32::MAX as int),
{
    assert(f[i as int].deep_view() =~= f[i as int]@);
    u32_or_zero(&f[i])
}

// ─── Containers ─────────────────────────────────────────────────────────────

/// One container as `docker ps` lists it.
pub struct ContainerInfo {
    pub id: String,
    pub name: String,
    pub image: String,
    pub status: String,
    pub state: String,
    pub ports: String,
    pub created: String,
}

pub struct ContainerView {
    pub id: Seq<char>,
    pub name: Seq<char>,
    pub image: Seq<char>,
    pub status: Seq<char>,
    pub state: Seq<char>,
    pub ports: Seq<char>,
    pub created: Seq<char>,
}

impl View for ContainerInfo {
    type V = ContainerView;

    open spec fn view(&self) -> ContainerView {
        ContainerView {
            id: self.id@,
            name: self.name@,
            image: self.image@,
            status: self.status@,
            state: self.state@,
            ports: self.ports@,
            created: self.created@,
        }
    }
}

/// A container from the first seven tab-separated fields of a line.
pub open spec fn container_from(f: Seq<Seq<char>>) -> ContainerView {
    ContainerView {
        id: f[0],
        name: f[1],
        image: f[2],
        status: f[3],
        state: f[4],
        ports: f[5],
        created: f[6],
    }
}

/// The containers in the output of `docker_list`: one per line with at
/// least seven tab-separated fields.
pub open spec fn containers_in(out: Seq<char>) -> Seq<ContainerView> {
    rows(out, Sep::Char('\t'), usize::MAX as nat, 7).map_values(|f| container_from(f))
}

/// Reads the output of `docker_list`.
pub fn parse_container_list(out: &str) -> (r: Vec<ContainerInfo>)
    ensures
        r@.map_values(|c: ContainerInfo| c@) == containers_in(out@),
{
    let rs = rows_of(out, Sep::Char('\t'), usize::MAX, 7);
    let ghost want = containers_in(out@);
    let mut r: Vec<ContainerInfo> = Vec::new();
    for i in 0..rs.len()
        invariant
            rs.deep_view() == rows(out@, Sep::Char('\t'), usize::MAX as nat, 7),
            want == containers_in(out@),
            r@.map_values(|c: ContainerInfo| c@) == want.take(i as int),
    {
        let f = &rs[i];
        assert(rs.deep_view()[i as int] == f.deep_view());
        proof {
            lemma_row_wide(out@, Sep::Char('\t'), usize::MAX as nat, 7, i as int);
        }
        let c = ContainerInfo {
            id: field_string(f, 0),
            name: field_string(f, 1),
            image: field_string(f, 2),
            status: field_string(f, 3),
            state: field_string(f, 4),
            ports: field_string(f, 5),
            created: field_string(f, 6),
        };
        let ghost before = r@;
        assert(c@ == container_from(f.deep_view()));
        assert(want[i as int] == container_from(f.deep_view()));
        r.push(c);
        assert(r@.map_values(|c: ContainerInfo| c@) =~= before.map_values(|c: ContainerInfo| c@).push(c@));
        assert(r@.map_values(|c: ContainerInfo| c@) =~= want.take(i + 1));
    }
    assert(want.take(rs.len() as int) =~= want);
    r
}


// ─── Container statistics ───────────────────────────────────────────────────

/// Resource use of one container as `docker stats` prints it.
pub struct DockerStat {
    pub name: String,
    pub cpu_percent: String,
    pub mem_usage: String,
    pub mem_limit: String,
    pub net_io: String,
    pub block_io: String,
    pub pids: String,
}

pub struct DockerStatView {
    pub name: Seq<char>,
    pub cpu_percent: Seq<char>,
    pub mem_usage: Seq<char>,
    pub mem_limit: Seq<char>,
    pub net_io: Seq<char>,
    pub block_io: Seq<char>,
    pub pids: Seq<char>,
}

impl View for DockerStat {
    type V = DockerStatView;

    open spec fn view(&self) -> DockerStatView {
        DockerStatView {
            name: self.name@,
            cpu_percent: self.cpu_percent@,
            mem_usage: self.mem_usage@,
            mem_limit: self.mem_limit@,
            net_io: self.net_io@,
            block_io: self.block_io@,
            pids: self.pids@,
        }
    }
}

/// Statistics from the first seven tab-separated fields of a line.
pub open spec fn docker_stat_from(f: Seq<Seq<char>>) -> DockerStatView {
    DockerStatView {
        name: f[0],
        cpu_percent: f[1],
        mem_usage: f[2],
        mem_limit: f[3],
        net_io: f[4],
        block_io: f[5],
        pids: f[6],
    }
}

/// The statistics in the output of `docker_stats`: one per line with at least seven tab-separated fields.
pub open spec fn docker_stats_in(out: Seq<char>) -> Seq<DockerStatView> {
    rows(out, Sep::Char('\t'), usize::MAX as nat, 7).map_values(|f| docker_stat_from(f))
}

/// Reads the output of `docker_stats`.
pub fn parse_docker_stats(out: &str) -> (r: Vec<DockerStat>)
    ensures
        r@.map_values(|c: DockerStat| c@) == docker_stats_in(out@),
{
    let rs = rows_of(out, Sep::Char('\t'), usize::MAX, 7);
    let ghost want = docker_stats_in(out@);
    let mut r: Vec<DockerStat> = Vec::new();
    for i in 0..rs.len()
        invariant
            rs.deep_view() == rows(out@, Sep::Char('\t'), usize::MAX as nat, 7),
            want == docker_stats_in(out@),
            r@.map_values(|c: DockerStat| c@) == want.take(i as int),
    {
        let f = &rs[i];
        assert(rs.deep_view()[i as int] == f.deep_view());
        proof {
            lemma_row_wide(out@, Sep::Char('\t'), usize::MAX as nat, 7, i as int);
        }
        let c = DockerStat {
            name: field_string(f, 0),
            cpu_percent: field_string(f, 1),
            mem_usage: field_string(f, 2),
            mem_limit: field_string(f, 3),
            net_io: field_string(f, 4),
            block_io: field_string(f, 5),
            pids: field_string(f, 6),
        };
        let ghost before = r@;
        assert(c@ == docker_stat_from(f.deep_view()));
        assert(want[i as int] == docker_stat_from(f.deep_view()));
        r.push(c);
        assert(r@.map_values(|c: DockerStat| c@) =~= before.map_values(|c: DockerStat| c@).push(c@));
        assert(r@.map_values(|c: DockerStat| c@) =~= want.take(i + 1));
    }
    assert(want.take(rs.len() as int) =~= want);
    r
}

// ─── Services ───────────────────────────────────────────────────────────────

/// One systemd service unit.
pub struct ServiceInfo {
    pub name: String,
    pub status: String,
    pub active: String,
    pub description: String,
}

pub struct ServiceView {
    pub name: Seq<char>,
    pub status: Seq<char>,
    pub active: Seq<char>,
    pub description: Seq<char>,
}

impl View for ServiceInfo {
    type V = ServiceView;

    open spec fn view(&self) -> ServiceView {
        ServiceView {
            name: self.name@,
            status: self.status@,
            active: self.active@,
            description: self.description@,
        }
    }
}

/// A service from the words of a `systemctl list-units` line: the unit name without `.service`, the load state, the active state, and the rest joined by spaces.
pub open spec fn service_from(f: Seq<Seq<char>>) -> ServiceView {
    ServiceView {
        name: without_suffix(f[0], ".service"@),
        status: f[2],
        active: f[1],
        description: join(f.skip(3), seq![' ']),
    }
}

/// The services in the output of `service_list`: one per line with at least four words.
pub open spec fn services_in(out: Seq<char>) -> Seq<ServiceView> {
    rows(out, Sep::Whitespace, usize::MAX as nat, 4).map_values(|f| service_from(f))
}

/// Reads the output of `service_list`.
pub fn parse_service_list(out: &str) -> (r: Vec<ServiceInfo>)
    ensures
        r@.map_values(|c: ServiceInfo| c@) == services_in(out@),
{
    let rs = rows_of(out, Sep::Whitespace, usize::MAX, 4);
    let ghost want = services_in(out@);
    let mut r: Vec<ServiceInfo> = Vec::new();
    for i in 0..rs.len()
        invariant
            rs.deep_view() == rows(out@, Sep::Whitespace, usize::MAX as nat, 4),
            want == services_in(out@),
            r@.map_values(|c: ServiceInfo| c@) == want.take(i as int),
    {
        let f = &rs[i];
        assert(rs.deep_view()[i as int] == f.deep_view());
        proof {
            lemma_row_wide(out@, Sep::Whitespace, usize::MAX as nat, 4, i as int);
        }
        assert(f[0int].deep_view() =~= f[0int]@);
        let suffix = chars_of(".service");
        let name = chars_without_suffix(&f[0], &suffix);
        let description = join_from(f, 3);
        let c = ServiceInfo {
            name: string_of(name.as_slice()),
            status: field_string(f, 2),
            active: field_string(f, 1),
            description: string_of(description.as_slice()),
        };
        let ghost before = r@;
        assert(c@ == service_from(f.deep_view()));
        assert(want[i as int] == service_from(f.deep_view()));
        r.push(c);
        assert(r@.map_values(|c: ServiceInfo| c@) =~= before.map_values(|c: ServiceInfo| c@).push(c@));
        assert(r@.map_values(|c: ServiceInfo| c@) =~= want.take(i + 1));
    }
    assert(want.take(rs.len() as int) =~= want);
    r
}

// ─── File systems ───────────────────────────────────────────────────────────

/// One mounted file system as `df` prints it; the use in percent is kept as the text before `%`.
pub struct MountRow {
    pub filesystem: String,
    pub mount_point: String,
    pub total: u64,
    pub used: u64,
    pub available: u64,
    pub percent: String,
}

pub struct MountRowView {
    pub filesystem: Seq<char>,
    pub mount_point: Seq<char>,
    pub total: u64,
    pub used: u64,
    pub available: u64,
    pub percent: Seq<char>,
}

impl View for MountRow {
    type V = MountRowView;

    open spec fn view(&self) -> MountRowView {
        MountRowView {
            filesystem: self.filesystem@,
            mount_point: self.mount_point@,
            total: self.total,
            used: self.used,
            available: self.available,
            percent: self.percent@,
        }
    }
}

/// A file system from the words of a `df` line; sizes that are no number count as 0.
pub open spec fn mount_from(f: Seq<Seq<char>>) -> MountRowView {
    MountRowView {
        filesystem: f[0],
        mount_point: f[1],
        total: uint_or_zero(f[2], u64::MAX as int) as u64,
        used: uint_or_zero(f[3], u64::MAX as int) as u64,
        available: uint_or_zero(f[4], u64::MAX as int) as u64,
        percent: trim_end_char(f[5], '%'),
    }
}

/// The file systems in the output of `storage_info`: one per line with at least six words.
pub open spec fn mounts_in(out: Seq<char>) -> Seq<MountRowView> {
    rows(out, Sep::Whitespace, usize::MAX as nat, 6).map_values(|f| mount_from(f))
}

/// Reads the output of `storage_info` on the remote host.
pub fn parse_storage_mounts(out: &str) -> (r: Vec<MountRow>)
    ensures
        r@.map_values(|c: MountRow| c@) == mounts_in(out@),
{
    let rs = rows_of(out, Sep::Whitespace, usize::MAX, 6);
    let ghost want = mounts_in(out@);
    let mut r: Vec<MountRow> = Vec::new();
    for i in 0..rs.len()
        invariant
            rs.deep_view() == rows(out@, Sep::Whitespace, usize::MAX as nat, 6),
            want == mounts_in(out@),
            r@.map_values(|c: MountRow| c@) == want.take(i as int),
    {
        let f = &rs[i];
        assert(rs.deep_view()[i as int] == f.deep_view());
        proof {
            lemma_row_wide(out@, Sep::Whitespace, usize::MAX as nat, 6, i as int);
        }
        assert(f[5int].deep_view() =~= f[5int]@);
        let pct = chars_trim_end_char(&f[5], '%');
        let c = MountRow {
            filesystem: field_string(f, 0),
            mount_point: field_string(f, 1),
            total: field_u64(f, 2),
            used: field_u64(f, 3),
            available: field_u64(f, 4),
            percent: string_of(pct.as_slice()),
        };
        let ghost before = r@;
        assert(c@ == mount_from(f.deep_view()));
        assert(want[i as int] == mount_from(f.deep_view()));
        r.push(c);
        assert(r@.map_values(|c: MountRow| c@) =~= before.map_values(|c: MountRow| c@).push(c@));
        assert(r@.map_values(|c: MountRow| c@) =~= want.take(i + 1));
    }
    assert(want.take(rs.len() as int) =~= want);
    r
}

// ─── Processes ──────────────────────────────────────────────────────────────

/// One process as `ps aux` prints it; CPU and memory shares are kept as text.
pub struct ProcessRow {
    pub pid: u32,
    pub user: String,
    pub cpu: String,
    pub mem: String,
    pub command: String,
}

pub struct ProcessRowView {
    pub pid: u32,
    pub user: Seq<char>,
    pub cpu: Seq<char>,
    pub mem: Seq<char>,
    pub command: Seq<char>,
}

impl View for ProcessRow {
    type V = ProcessRowView;

    open spec fn view(&self) -> ProcessRowView {
        ProcessRowView {
            pid: self.pid,
            user: self.user@,
            cpu: self.cpu@,
            mem: self.mem@,
            command: self.command@,
        }
    }
}

/// A process from the words of a `ps aux` line: the command is the eleventh word on, joined by spaces; a pid that is no number counts as 0.
pub open spec fn process_from(f: Seq<Seq<char>>) -> ProcessRowView {
    ProcessRowView {
        pid: uint_or_zero(f[1], u32::MAX as int) as u32,
        user: f[0],
        cpu: f[2],
        mem: f[3],
        command: join(f.skip(10), seq![' ']),
    }
}

/// The processes in the output of `process_list`: one per line with at least eleven words.
pub open spec fn processes_in(out: Seq<char>) -> Seq<ProcessRowView> {
    rows(out, Sep::Whitespace, usize::MAX as nat, 11).map_values(|f| process_from(f))
}

/// Reads the output of `process_list` on the remote host.
pub fn parse_process_list(out: &str) -> (r: Vec<ProcessRow>)
    ensures
        r@.map_values(|c: ProcessRow| c@) == processes_in(out@),
{
    let rs = rows_of(out, Sep::Whitespace, usize::MAX, 11);
    let ghost want = processes_in(out@);
    let mut r: Vec<ProcessRow> = Vec::new();
    for i in 0..rs.len()
        invariant
            rs.deep_view() == rows(out@, Sep::Whitespace, usize::MAX as nat, 11),
            want == processes_in(out@),
            r@.map_values(|c: ProcessRow| c@) == want.take(i as int),
    {
        let f = &rs[i];
        assert(rs.deep_view()[i as int] == f.deep_view());
        proof {
            lemma_row_wide(out@, Sep::Whitespace, usize::MAX as nat, 11, i as int);
        }
        let command = join_from(f, 10);
        let c = ProcessRow {
            pid: field_u32(f, 1),
            user: field_string(f, 0),
            cpu: field_string(f, 2),
            mem: field_string(f, 3),
            command: string_of(command.as_slice()),
        };
        let ghost before = r@;
        assert(c@ == process_from(f.deep_view()));
        assert(want[i as int] == process_from(f.deep_view()));
        r.push(c);
        assert(r@.map_values(|c: ProcessRow| c@) =~= before.map_values(|c: ProcessRow| c@).push(c@));
        assert(r@.map_values(|c: ProcessRow| c@) =~= want.take(i + 1));
    }
    assert(want.take(rs.len() as int) =~= want);
    r
}


// ─── Accounts ───────────────────────────────────────────────────────────────

/// One account of the account database.
pub struct UserEntry {
    pub name: String,
    pub uid: u32,
    pub gid: u32,
    pub home: String,
    pub shell: String,
    pub info: String,
}

pub struct UserView {
    pub name: Seq<char>,
    pub uid: u32,
    pub gid: u32,
    pub home: Seq<char>,
    pub shell: Seq<char>,
    pub info: Seq<char>,
}

impl View for UserEntry {
    type V = UserView;

    open spec fn view(&self) -> UserView {
        UserView {
            name: self.name@,
            uid: self.uid,
            gid: self.gid,
            home: self.home@,
            shell: self.shell@,
            info: self.info@,
        }
    }
}

/// An account from the colon-separated fields of a `/etc/passwd` line; ids
/// that are no number count as 0.
pub open spec fn user_from(f: Seq<Seq<char>>) -> UserView {
    UserView {
        name: f[0],
        uid: uint_or_zero(f[2], u32::MAX as int) as u32,
        gid: uint_or_zero(f[3], u32::MAX as int) as u32,
        home: f[5],
        shell: f[6],
        info: f[4],
    }
}

/// A line the account list shows: its user id is a number, and either 0
/// (root) or at least 1000 (a real user).
pub open spec fn shown_row(f: Seq<Seq<char>>) -> bool {
    match parse_uint(f[2], u32::MAX as int) {
        Ok(uid) => uid == 0 || uid >= 1000,
        Err(_) => false,
    }
}

pub open spec fn shown_row_fn() -> spec_fn(Seq<Seq<char>>) -> bool {
    |f: Seq<Seq<char>>| shown_row(f)
}

/// The lines of the account database with at least seven fields that the
/// list shows, in order.
pub open spec fn shown_rows(out: Seq<char>) -> Seq<Seq<Seq<char>>> {
    rows(out, Sep::Char(':'), usize::MAX as nat, 7).filter(shown_row_fn())
}

/// The accounts shown for the account database `out`.
pub open spec fn users_in(out: Seq<char>) -> Seq<UserView> {
    shown_rows(out).map_values(|f| user_from(f))
}

/// Reads the output of `user_list`, keeping root and the real users.
pub fn parse_user_list(out: &str) -> (r: Vec<UserEntry>)
    ensures
        r@.map_values(|u: UserEntry| u@) == users_in(out@),
{
    let rs = rows_of(out, Sep::Char(':'), usize::MAX, 7);
    let ghost all = rows(out@, Sep::Char(':'), usize::MAX as nat, 7);
    let mut r: Vec<UserEntry> = Vec::new();
    assert(all.take(0) =~= Seq::<Seq<Seq<char>>>::empty());
    for i in 0..rs.len()
        invariant
            rs.deep_view() == all,
            all == rows(out@, Sep::Char(':'), usize::MAX as nat, 7),
            r@.map_values(|u: UserEntry| u@) == all.take(i as int).filter(shown_row_fn()).map_values(
                |f| user_from(f),
            ),
    {
        reveal_with_fuel(Seq::filter, 1);
        let f = &rs[i];
        assert(rs.deep_view()[i as int] == f.deep_view());
        proof {
            lemma_row_wide(out@, Sep::Char(':'), usize::MAX as nat, 7, i as int);
            crate::text::lemma_parse_bounds(f.deep_view()[2], u32::MAX as int);
        }
        assert(all.take(i + 1).drop_last() =~= all.take(i as int));
        assert(f[2int].deep_view() =~= f[2int]@);
        let parsed = parse_uint_chars(&f[2], u32::MAX as u64);
        let shown = match parsed {
            Ok(uid) => uid == 0 || uid >= 1000,
            Err(_) => false,
        };
        assert(shown == shown_row(f.deep_view()));
        if shown {
            let c = UserEntry {
                name: field_string(f, 0),
                uid: field_u32(f, 2),
                gid: field_u32(f, 3),
                home: field_string(f, 5),
                shell: field_string(f, 6),
                info: field_string(f, 4),
            };
            assert(c@ == user_from(f.deep_view()));
            let ghost before = r@;
            r.push(c);
            assert(r@.map_values(|u: UserEntry| u@) =~= before.map_values(|u: UserEntry| u@).push(c@));
            assert(all.take(i + 1).filter(shown_row_fn()) == all.take(i as int).filter(shown_row_fn()).push(all[i as int]));
            assert(r@.map_values(|u: UserEntry| u@) =~= all.take(i + 1).filter(shown_row_fn()).map_values(
                |f| user_from(f),
            ));
        } else {
            assert(all.take(i + 1).filter(shown_row_fn()) == all.take(i as int).filter(shown_row_fn()));
        }
    }
    assert(all.take(rs.len() as int) =~= all);
    r
}

// ─── Directory entries ──────────────────────────────────────────────────────

/// One entry of a directory listing.
pub struct FileEntry {
    pub name: String,
    pub is_dir: bool,
    pub size: u64,
    pub modified: String,
    pub permissions: String,
}

pub struct FileEntryView {
    pub name: Seq<char>,
    pub is_dir: bool,
    pub size: u64,
    pub modified: Seq<char>,
    pub permissions: Seq<char>,
}

impl View for FileEntry {
    type V = FileEntryView;

    open spec fn view(&self) -> FileEntryView {
        FileEntryView {
            name: self.name@,
            is_dir: self.is_dir,
            size: self.size,
            modified: self.modified@,
            permissions: self.permissions@,
        }
    }
}

/// The last `/`-separated piece of a path.
pub open spec fn base_name(p: Seq<char>) -> Seq<char> {
    split_last(p)
}

pub open spec fn split_last(p: Seq<char>) -> Seq<char> {
    pieces(p, Sep::Char('/'), usize::MAX as nat).last()
}

/// An entry from a `stat` line `path|type|size|modified|mode`: the name is
/// the last piece of the path, a type mentioning "directory" makes it a
/// directory, a size that is no number counts as 0, and the mode is the rest
/// of the line.
pub open spec fn entry_from(f: Seq<Seq<char>>) -> FileEntryView {
    FileEntryView {
        name: base_name(f[0]),
        is_dir: has_sub(f[1], "directory"@),
        size: uint_or_zero(f[2], u64::MAX as int) as u64,
        modified: f[3],
        permissions: f[4],
    }
}

/// The entries of a remote listing, in the order of its lines.
pub open spec fn listed_entries(out: Seq<char>) -> Seq<FileEntryView> {
    rows(out, Sep::Char('|'), 5, 5).map_values(|f| entry_from(f))
}

/// Reads the lines of a remote listing, in their order.
pub fn read_listing(out: &str) -> (r: Vec<FileEntry>)
    ensures
        r@.map_values(|e: FileEntry| e@) == listed_entries(out@),
{
    let rs = rows_of(out, Sep::Char('|'), 5, 5);
    let ghost want = listed_entries(out@);
    let mut r: Vec<FileEntry> = Vec::new();
    let dir = chars_of("directory");
    for i in 0..rs.len()
        invariant
            rs.deep_view() == rows(out@, Sep::Char('|'), 5, 5),
            want == listed_entries(out@),
            dir@ == "directory"@,
            r@.map_values(|e: FileEntry| e@) == want.take(i as int),
    {
        let f = &rs[i];
        assert(rs.deep_view()[i as int] == f.deep_view());
        proof {
            lemma_row_wide(out@, Sep::Char('|'), 5, 5, i as int);
        }
        assert(f[0int].deep_view() =~= f[0int]@);
        assert(f[1int].deep_view() =~= f[1int]@);
        let parts = split_pieces(&f[0], Sep::Char('/'), usize::MAX);
        proof {
            crate::text::lemma_pieces_len(f[0int]@, Sep::Char('/'), usize::MAX as nat);
        }
        let last = parts.len() - 1;
        assert(parts[last as int].deep_view() =~= parts[last as int]@);
        let name = string_of(parts[last].as_slice());
        let is_dir = contains_chars(&f[1], &dir);
        let c = FileEntry {
            name,
            is_dir,
            size: field_u64(f, 2),
            modified: field_string(f, 3),
            permissions: field_string(f, 4),
        };
        let ghost before = r@;
        assert(c@ == entry_from(f.deep_view()));
        assert(want[i as int] == entry_from(f.deep_view()));
        r.push(c);
        assert(r@.map_values(|e: FileEntry| e@) =~= before.map_values(|e: FileEntry| e@).push(c@));
        assert(r@.map_values(|e: FileEntry| e@) =~= want.take(i + 1));
    }
    assert(want.take(rs.len() as int) =~= want);
    r
}

// ─── Uptime and the connection probe ────────────────────────────────────────

/// The uptime that the remote host printed, or why it is none.
pub open spec fn uptime_reply(out: Seq<char>) -> Result<u64, Seq<char>> {
    match parse_uint(trim(out), u64::MAX as int) {
        Ok(v) => Ok(v as u64),
        Err(e) => Err("Invalid uptime: "@ + int_error_text(e)),
    }
}

/// Reads the output of `get_uptime`.
pub fn parse_uptime(out: &str) -> (r: Result<u64, String>)
    ensures
        match uptime_reply(out@) {
            Ok(v) => r == Ok::<u64, String>(v),
            Err(e) => r matches Err(x) && x@ == e,
        },
{
    let v = chars_of(out);
    let t = trim_chars(&v);
    proof {
        crate::text::lemma_parse_bounds(t@, u64::MAX as int);
    }
    match parse_uint_chars(&t, u64::MAX) {
        Ok(n) => Ok(n),
        Err(e) => {
            let mut m = String::from_str("Invalid uptime: ");
            let msg = e.message();
            m.append(msg.as_str());
            Err(m)
        },
    }
}

/// Whether the probe answer shows a working connection: it holds "ok".
pub fn ssh_probe_ok(out: &str) -> (b: bool)
    ensures
        b == has_sub(out@, "ok"@),
{
    crate::text::str_contains(out, "ok")
}

// ─── Statistics of the remote host ──────────────────────────────────────────

/// The integer readings and texts of the remote statistics line; the CPU
/// share is kept as text.
pub struct RemoteStats {
    pub cpu: String,
    pub mem_used: u64,
    pub mem_total: u64,
    pub disk_used: u64,
    pub disk_total: u64,
    pub network_rx: u64,
    pub network_tx: u64,
    pub uptime: u64,
    pub hostname: String,
    pub os: String,
}

pub struct RemoteStatsView {
    pub cpu: Seq<char>,
    pub mem_used: u64,
    pub mem_total: u64,
    pub disk_used: u64,
    pub disk_total: u64,
    pub network_rx: u64,
    pub network_tx: u64,
    pub uptime: u64,
    pub hostname: Seq<char>,
    pub os: Seq<char>,
}

impl View for RemoteStats {
    type V = RemoteStatsView;

    open spec fn view(&self) -> RemoteStatsView {
        RemoteStatsView {
            cpu: self.cpu@,
            mem_used: self.mem_used,
            mem_total: self.mem_total,
            disk_used: self.disk_used,
            disk_total: self.disk_total,
            network_rx: self.network_rx,
            network_tx: self.network_tx,
            uptime: self.uptime,
            hostname: self.hostname@,
            os: self.os@,
        }
    }
}

/// The line that carries the statistics: the last line of the output, or
/// the whole output where it has no line.
pub open spec fn stats_line(out: Seq<char>) -> Seq<char> {
    if lines(out).len() > 0 {
        lines(out).last()
    } else {
        out
    }
}

pub open spec fn num(f: Seq<char>) -> u64 {
    uint_or_zero(f, u64::MAX as int) as u64
}

/// Kilobytes to bytes, modulo 2^64 as a release build computes it.
pub open spec fn kib(f: Seq<char>) -> u64 {
    vstd::wrapping::u64_specs::wrapping_mul(num(f), 1024)
}

/// The statistics from the `|`-separated fields of the statistics line;
/// memory comes in kilobytes, readings that are no number count as 0.
pub open spec fn stats_from(p: Seq<Seq<char>>) -> RemoteStatsView {
    RemoteStatsView {
        cpu: p[0],
        mem_used: kib(p[1]),
        mem_total: kib(p[2]),
        disk_used: num(p[3]),
        disk_total: num(p[4]),
        network_rx: num(p[5]),
        network_tx: num(p[6]),
        uptime: num(p[7]),
        hostname: p[8],
        os: p[9],
    }
}

/// The statistics in the output of `remote_system_stats`, or the error where
/// its statistics line has fewer than ten fields.
pub open spec fn remote_stats_reply(out: Seq<char>) -> Result<RemoteStatsView, Seq<char>> {
    let p = pieces(stats_line(out), Sep::Char('|'), usize::MAX as nat);
    if p.len() < 10 {
        Err("Unexpected stats format: "@ + out)
    } else {
        Ok(stats_from(p))
    }
}

/// Reads the output of `remote_system_stats`.
pub fn parse_remote_stats(out: &str) -> (r: Result<RemoteStats, String>)
    ensures
        match remote_stats_reply(out@) {
            Ok(v) => r matches Ok(x) && x@ == v,
            Err(e) => r matches Err(x) && x@ == e,
        },
{
    let v = chars_of(out);
    let ls = split_lines(&v);
    let line = if ls.len() > 0 {
        let k = ls.len() - 1;
        assert(ls[k as int].deep_view() =~= ls[k as int]@);
        crate::text::sub_chars(&ls[k], 0, ls[k].len())
    } else {
        crate::text::sub_chars(&v, 0, v.len())
    };
    assert(line@ =~= stats_line(out@));
    let p = split_pieces(&line, Sep::Char('|'), usize::MAX);
    if p.len() < 10 {
        let mut m = String::from_str("Unexpected stats format: ");
        m.append(out);
        return Err(m);
    }
    let mu = field_u64(&p, 1);
    let mt = field_u64(&p, 2);
    let s = RemoteStats {
        cpu: field_string(&p, 0),
        mem_used: mu.wrapping_mul(1024),
        mem_total: mt.wrapping_mul(1024),
        disk_used: field_u64(&p, 3),
        disk_total: field_u64(&p, 4),
        network_rx: field_u64(&p, 5),
        network_tx: field_u64(&p, 6),
        uptime: field_u64(&p, 7),
        hostname: field_string(&p, 8),
        os: field_string(&p, 9),
    };
    Ok(s)
}


/// The account list shows only root and real users: every account in it
/// comes from a line whose user id is a number, and that number is 0 or at
/// least 1000.
pub proof fn law_users_shown(out: Seq<char>, i: int)
    requires
        0 <= i < users_in(out).len(),
    ensures
        parse_uint(shown_rows(out)[i][2], u32::MAX as int) matches Ok(uid) && (uid == 0 || uid
            >= 1000),
        users_in(out)[i].uid == 0 || users_in(out)[i].uid >= 1000,
{
    rows(out, Sep::Char(':'), usize::MAX as nat, 7).lemma_filter_pred(shown_row_fn(), i);
}

/// Each file system of the storage list is read from one `df` line with at
/// least six words, in the order of the lines: its device is the line's
/// first word and its mount point the second; the total, used and free
/// sizes are the third, fourth and fifth words where they are numbers (0
/// where not); the share is the sixth word without its percent signs.
pub proof fn law_mount_fields(out: Seq<char>, i: int)
    requires
        0 <= i < mounts_in(out).len(),
    ensures
        ({
            let w = rows(out, Sep::Whitespace, usize::MAX as nat, 6)[i];
            let m = mounts_in(out)[i];
            &&& mounts_in(out).len() == rows(out, Sep::Whitespace, usize::MAX as nat, 6).len()
            &&& w.len() >= 6
            &&& m.filesystem == w[0]
            &&& m.mount_point == w[1]
            &&& (parse_uint(w[2], u64::MAX as int) matches Ok(n) ==> m.total == n)
            &&& (parse_uint(w[3], u64::MAX as int) matches Ok(n) ==> m.used == n)
            &&& (parse_uint(w[4], u64::MAX as int) matches Ok(n) ==> m.available == n)
            &&& (parse_uint(w[2], u64::MAX as int) is Err ==> m.total == 0)
            &&& (parse_uint(w[3], u64::MAX as int) is Err ==> m.used == 0)
            &&& (parse_uint(w[4], u64::MAX as int) is Err ==> m.available == 0)
            &&& m.percent == trim_end_char(w[5], '%')
        }),
{
    let w = rows(out, Sep::Whitespace, usize::MAX as nat, 6)[i];
    lemma_row_wide(out, Sep::Whitespace, usize::MAX as nat, 6, i);
    crate::text::lemma_parse_bounds(w[2], u64::MAX as int);
    crate::text::lemma_parse_bounds(w[3], u64::MAX as int);
    crate::text::lemma_parse_bounds(w[4], u64::MAX as int);
}

/// Each container of the list is read from one tab-separated `docker ps`
/// line with at least seven fields, in the order of the lines, field by
/// field in the order of the format: id, name, image, status, state, ports,
/// creation time.
pub proof fn law_container_fields(out: Seq<char>, i: int)
    requires
        0 <= i < containers_in(out).len(),
    ensures
        ({
            let f = rows(out, Sep::Char('\t'), usize::MAX as nat, 7)[i];
            let c = containers_in(out)[i];
            &&& containers_in(out).len() == rows(out, Sep::Char('\t'), usize::MAX as nat, 7).len()
            &&& f.len() >= 7
            &&& c.id == f[0]
            &&& c.name == f[1]
            &&& c.image == f[2]
            &&& c.status == f[3]
            &&& c.state == f[4]
            &&& c.ports == f[5]
            &&& c.created == f[6]
        }),
{
    lemma_row_wide(out, Sep::Char('\t'), usize::MAX as nat, 7, i);
}

/// Each account of the list is read from one shown line of the account
/// database, in the order of the lines: its name is the first
/// colon-separated field, its user and group ids the third and fourth, its
/// info the fifth, its home the sixth and its shell the seventh.
pub proof fn law_user_fields(out: Seq<char>, i: int)
    requires
        0 <= i < users_in(out).len(),
    ensures
        ({
            let f = shown_rows(out)[i];
            let u = users_in(out)[i];
            &&& users_in(out).len() == shown_rows(out).len()
            &&& f.len() >= 7
            &&& u.name == f[0]
            &&& parse_uint(f[2], u32::MAX as int) matches Ok(n) && u.uid == n
            &&& (parse_uint(f[3], u32::MAX as int) matches Ok(n) ==> u.gid == n)
            &&& (parse_uint(f[3], u32::MAX as int) is Err ==> u.gid == 0)
            &&& u.info == f[4]
            &&& u.home == f[5]
            &&& u.shell == f[6]
        }),
{
    let all = rows(out, Sep::Char(':'), usize::MAX as nat, 7);
    let f = shown_rows(out)[i];
    all.lemma_filter_pred(shown_row_fn(), i);
    assert(shown_rows(out).contains(f));
    all.lemma_filter_contains_rev(shown_row_fn(), f);
    let k = choose|k: int| 0 <= k < all.len() && all[k] == f;
    lemma_row_wide(out, Sep::Char(':'), usize::MAX as nat, 7, k);
    crate::text::lemma_parse_bounds(f[2], u32::MAX as int);
    crate::text::lemma_parse_bounds(f[3], u32::MAX as int);
}

/// Each statistics row of `docker stats` is read from one tab-separated
/// line with at least seven fields, in the order of the lines, field by
/// field in the order of the format: name, CPU share, memory used, memory
/// limit, network traffic, disk traffic, process count.
pub proof fn law_docker_stat_fields(out: Seq<char>, i: int)
    requires
        0 <= i < docker_stats_in(out).len(),
    ensures
        ({
            let f = rows(out, Sep::Char('\t'), usize::MAX as nat, 7)[i];
            let d = docker_stats_in(out)[i];
            &&& docker_stats_in(out).len() == rows(out, Sep::Char('\t'), usize::MAX as nat, 7).len()
            &&& f.len() >= 7
            &&& d.name == f[0]
            &&& d.cpu_percent == f[1]
            &&& d.mem_usage == f[2]
            &&& d.mem_limit == f[3]
            &&& d.net_io == f[4]
            &&& d.block_io == f[5]
            &&& d.pids == f[6]
        }),
{
    lemma_row_wide(out, Sep::Char('\t'), usize::MAX as nat, 7, i);
}

/// Each service is read from one `systemctl list-units` line with at least
/// four words, in the order of the lines: its name is the first word
/// without a trailing ".service", its active state (`active`) the second
/// word, its sub state (`status`) the third, and its description the
/// remaining words joined by single spaces.
pub proof fn law_service_fields(out: Seq<char>, i: int)
    requires
        0 <= i < services_in(out).len(),
    ensures
        ({
            let w = rows(out, Sep::Whitespace, usize::MAX as nat, 4)[i];
            let v = services_in(out)[i];
            &&& services_in(out).len() == rows(out, Sep::Whitespace, usize::MAX as nat, 4).len()
            &&& w.len() >= 4
            &&& v.name == without_suffix(w[0], ".service"@)
            &&& v.active == w[1]
            &&& v.status == w[2]
            &&& v.description == join(w.subrange(3, w.len() as int), seq![' '])
        }),
{
    lemma_row_wide(out, Sep::Whitespace, usize::MAX as nat, 4, i);
}

/// Each process is read from one `ps aux` line with at least eleven words,
/// in the order of the lines: its user is the first word, its pid the
/// second where that is a number (0 where not), its CPU and memory shares
/// the third and fourth, and its command the eleventh word on, joined by
/// single spaces.
pub proof fn law_process_fields(out: Seq<char>, i: int)
    requires
        0 <= i < processes_in(out).len(),
    ensures
        ({
            let w = rows(out, Sep::Whitespace, usize::MAX as nat, 11)[i];
            let v = processes_in(out)[i];
            &&& processes_in(out).len() == rows(out, Sep::Whitespace, usize::MAX as nat, 11).len()
            &&& w.len() >= 11
            &&& v.user == w[0]
            &&& (parse_uint(w[1], u32::MAX as int) matches Ok(n) ==> v.pid == n)
            &&& (parse_uint(w[1], u32::MAX as int) is Err ==> v.pid == 0)
            &&& v.cpu == w[2]
            &&& v.mem == w[3]
            &&& v.command == join(w.subrange(10, w.len() as int), seq![' '])
        }),
{
    let w = rows(out, Sep::Whitespace, usize::MAX as nat, 11)[i];
    lemma_row_wide(out, Sep::Whitespace, usize::MAX as nat, 11, i);
    crate::text::lemma_parse_bounds(w[1], u32::MAX as int);
    assert(w.skip(10) =~= w.subrange(10, w.len() as int));
}

/// Each entry of a remote listing is read from one `path|type|size|modified|mode`
/// line, in the order of the lines: its name is the last `/`-piece of the
/// path, it is a directory exactly when the type mentions "directory", its
/// size is the third field where that is a number (0 where not), its time
/// the fourth field and its mode the rest of the line.
pub proof fn law_listing_fields(out: Seq<char>, i: int)
    requires
        0 <= i < listed_entries(out).len(),
    ensures
        ({
            let f = rows(out, Sep::Char('|'), 5, 5)[i];
            let e = listed_entries(out)[i];
            &&& listed_entries(out).len() == rows(out, Sep::Char('|'), 5, 5).len()
            &&& f.len() >= 5
            &&& e.name == pieces(f[0], Sep::Char('/'), usize::MAX as nat).last()
            &&& e.is_dir == has_sub(f[1], "directory"@)
            &&& (parse_uint(f[2], u64::MAX as int) matches Ok(n) ==> e.size == n)
            &&& (parse_uint(f[2], u64::MAX as int) is Err ==> e.size == 0)
            &&& e.modified == f[3]
            &&& e.permissions == f[4]
        }),
{
    let f = rows(out, Sep::Char('|'), 5, 5)[i];
    lemma_row_wide(out, Sep::Char('|'), 5, 5, i);
    crate::text::lemma_parse_bounds(f[2], u64::MAX as int);
}

/// The remote statistics are read from the `|`-separated fields of the last
/// line of the output, in the order the script prints them: CPU share,
/// memory used and total (in kilobytes, given in bytes modulo 2^64), disk
/// used and total, bytes received and sent, uptime, host name, system name.
pub proof fn law_remote_stats_fields(out: Seq<char>)
    ensures
        ({
            let p = pieces(stats_line(out), Sep::Char('|'), usize::MAX as nat);
            &&& (remote_stats_reply(out) is Ok <==> p.len() >= 10)
            &&& (remote_stats_reply(out) matches Ok(v) ==> {
                &&& v.cpu == p[0]
                &&& (parse_uint(p[1], u64::MAX as int) matches Ok(n) ==> v.mem_used == (n * 1024) % 0x1_0000_0000_0000_0000)
                &&& (parse_uint(p[2], u64::MAX as int) matches Ok(n) ==> v.mem_total == (n * 1024) % 0x1_0000_0000_0000_0000)
                &&& (parse_uint(p[3], u64::MAX as int) matches Ok(n) ==> v.disk_used == n)
                &&& (parse_uint(p[4], u64::MAX as int) matches Ok(n) ==> v.disk_total == n)
                &&& (parse_uint(p[5], u64::MAX as int) matches Ok(n) ==> v.network_rx == n)
                &&& (parse_uint(p[6], u64::MAX as int) matches Ok(n) ==> v.network_tx == n)
                &&& (parse_uint(p[7], u64::MAX as int) matches Ok(n) ==> v.uptime == n)
                &&& v.hostname == p[8]
                &&& v.os == p[9]
            })
        }),
{
    let p = pieces(stats_line(out), Sep::Char('|'), usize::MAX as nat);
    if p.len() >= 10 {
        crate::text::lemma_parse_bounds(p[1], u64::MAX as int);
        crate::text::lemma_parse_bounds(p[2], u64::MAX as int);
        crate::text::lemma_parse_bounds(p[3], u64::MAX as int);
        crate::text::lemma_parse_bounds(p[4], u64::MAX as int);
        crate::text::lemma_parse_bounds(p[5], u64::MAX as int);
        crate::text::lemma_parse_bounds(p[6], u64::MAX as int);
        crate::text::lemma_parse_bounds(p[7], u64::MAX as int);
    }
}

} // verus!

//! The broker's statistics monitor: rate-limited aggregate messages, with the
//! coverage count taken from the clients' user statistics.
//!
//! Time enters as plain values: instants are nanoseconds since an origin that
//! the caller fixes, intervals are nanoseconds.
use vstd::prelude::*;
use crate::stats_client::{StatsClient, StatsMessage};

verus! {

/// How far before its creation a monitor's last send is dated, so that the
/// first statistics go out at once (with the default interval).
pub const START_BACKDATE_NANOS: i128 = 10_000_000_000;

/// The default minimum interval between two sends: one second.
pub const DEFAULT_MIN_INTERVAL_NANOS: u128 = 1_000_000_000;

/// A user statistic, as the coverage count reads it.
#[derive(Debug, Clone, Copy, PartialEq, Eq, Structural)]
pub enum UserStat {
    /// A ratio `hit / total`; the count is `hit`.
    Ratio(usize, usize),
    /// A number; the count is the number.
    Number(usize),
    /// A float; the count is its value truncated toward zero (and saturated)
    /// to an unsigned integer.
    Float(usize),
    /// A string or a percentage: no count.
    Other,
}

/// The statistics of one fuzzing client.
#[derive(Debug, Clone)]
pub struct ClientStats {
    /// Whether the client is enabled; disabled clients are not counted.
    pub enabled: bool,
    /// The user statistics by key.
    pub user_stats: Vec<(String, UserStat)>,
}

/// The count of a statistic, when it has one.
pub open spec fn stat_count(v: UserStat) -> Option<int> {
    match v {
        UserStat::Ratio(hit, _) => Some(hit as int),
        UserStat::Number(n) => Some(n as int),
        UserStat::Float(f) => Some(f as int),
        UserStat::Other => None,
    }
}

/// The statistic stored under `key`: the first entry with that key.
pub open spec fn lookup(stats: Seq<(String, UserStat)>, key: Seq<char>) -> Option<UserStat>
    decreases stats.len(),
{
    if stats.len() == 0 {
        None
    } else if stats[0].0@ == key {
        Some(stats[0].1)
    } else {
        lookup(stats.drop_first(), key)
    }
}

/// What the statistic under `key` adds to a client's coverage: its count, or
/// nothing when it is missing or has no count.
pub open spec fn count_under(stats: Seq<(String, UserStat)>, key: Seq<char>) -> int {
    match lookup(stats, key) {
        Some(v) => match stat_count(v) {
            Some(c) => c,
            None => 0,
        },
        None => 0,
    }
}

/// The keys under which coverage of an observer is looked for in a client:
/// its name, then the name with `_cov`, then with `_coverage`.
pub open spec fn client_keys(name: Seq<char>) -> Seq<Seq<char>> {
    seq![name, name + "_cov"@, name + "_coverage"@]
}

/// The coverage a client reports for an observer: the counts under all its
/// keys, added up; nothing when the client is disabled.
pub open spec fn client_coverage(c: ClientStats, name: Seq<char>) -> int {
    if c.enabled {
        count_under(c.user_stats@, name) + count_under(c.user_stats@, name + "_cov"@)
            + count_under(c.user_stats@, name + "_coverage"@)
    } else {
        0
    }
}

/// The coverage all clients report for an observer, added up.
pub open spec fn clients_coverage(cs: Seq<ClientStats>, name: Seq<char>) -> int
    decreases cs.len(),
{
    if cs.len() == 0 {
        0
    } else {
        clients_coverage(cs.drop_last(), name) + client_coverage(cs.last(), name)
    }
}

/// The count of the statistic under `key`, when there is one with a count.
pub open spec fn counted_under(stats: Seq<(String, UserStat)>, key: Seq<char>) -> Option<int> {
    match lookup(stats, key) {
        Some(v) => stat_count(v),
        None => None,
    }
}

/// The coverage of an observer in the aggregated statistics: the count of the
/// first of its name and its name with `_cov` whose statistic has a count;
/// zero when neither has.
pub open spec fn aggregated_coverage(agg: Seq<(String, UserStat)>, name: Seq<char>) -> int {
    match counted_under(agg, name) {
        Some(c) => c,
        None => match counted_under(agg, name + "_cov"@) {
            Some(c) => c,
            None => 0,
        },
    }
}

/// The coverage count of an observer: what the clients report, or, when that
/// is zero, what the aggregated statistics hold.
pub open spec fn coverage_count(
    cs: Seq<ClientStats>,
    agg: Seq<(String, UserStat)>,
    name: Seq<char>,
) -> int {
    let total = clients_coverage(cs, name);
    if total == 0 {
        aggregated_coverage(agg, name)
    } else {
        total
    }
}

/// The statistic under `key`, as [`lookup`] defines it.
fn find_stat(stats: &Vec<(String, UserStat)>, key: &String) -> (r: Option<UserStat>)
    ensures
        r == lookup(stats@, key@),
{
    let mut i: usize = 0;
    assert(stats@.skip(0) =~= stats@);
    while i < stats.len()
        invariant
            0 <= i <= stats@.len(),
            lookup(stats@, key@) == lookup(stats@.skip(i as int), key@),
        decreases stats@.len() - i,
    {
        assert(stats@.skip(i as int).drop_first() =~= stats@.skip(i + 1));
        if stats[i].0 == *key {
            return Some(stats[i].1);
        }
        i = i + 1;
    }
    assert(stats@.skip(i as int).len() == 0);
    None
}

/// The count of a statistic, when it has one.
fn count_of(v: UserStat) -> (r: Option<usize>)
    ensures
        r matches Some(c) ==> stat_count(v) == Some(c as int),
        r is None ==> stat_count(v) is None,
{
    match v {
        UserStat::Ratio(hit, _) => Some(hit),
        UserStat::Number(n) => Some(n),
        UserStat::Float(f) => Some(f),
        UserStat::Other => None,
    }
}

/// `name` followed by `suffix`.
fn suffixed(name: &str, suffix: &str) -> (s: String)
    ensures
        s@ == name@ + suffix@,
{
    let mut s = String::from_str(name);
    s.append(suffix);
    s
}

/// `total` plus the count under `key`, or `None` when the sum does not fit.
fn add_count(total: usize, stats: &Vec<(String, UserStat)>, key: &String) -> (r: Option<usize>)
    ensures
        total + count_under(stats@, key@) <= usize::MAX ==> r == Some(
            (total + count_under(stats@, key@)) as usize,
        ),
        total + count_under(stats@, key@) > usize::MAX ==> r is None,
{
    match find_stat(stats, key) {
        Some(v) => match count_of(v) {
            Some(n) => total.checked_add(n),
            None => Some(total),
        },
        None => Some(total),
    }
}

/// The count under `key`, when the statistic there has one.
fn find_count(stats: &Vec<(String, UserStat)>, key: &String) -> (r: Option<usize>)
    ensures
        r matches Some(n) ==> counted_under(stats@, key@) == Some(n as int),
        r is None ==> counted_under(stats@, key@) is None,
{
    match find_stat(stats, key) {
        Some(v) => count_of(v),
        None => None,
    }
}

/// The coverage count of observer `observer_name` (see [`coverage_count`]),
/// or `None` when the clients' counts add up to more than a `usize` holds.
pub fn extract_coverage_from_stats(
    clients: &Vec<ClientStats>,
    aggregated: &Vec<(String, UserStat)>,
    observer_name: &str,
) -> (r: Option<usize>)
    ensures
        clients_coverage(clients@, observer_name@) > usize::MAX ==> r is None,
        clients_coverage(clients@, observer_name@) <= usize::MAX ==> r == Some(
            coverage_count(clients@, aggregated@, observer_name@) as usize,
        ),
{
    let name = String::from_str(observer_name);
    let name_cov = suffixed(observer_name, "_cov");
    let name_coverage = suffixed(observer_name, "_coverage");
    let ghost nm = observer_name@;
    let mut total: usize = 0;
    let mut i: usize = 0;
    while i < clients.len()
        invariant
            0 <= i <= clients@.len(),
            nm == observer_name@,
            name@ == nm,
            name_cov@ == nm + "_cov"@,
            name_coverage@ == nm + "_coverage"@,
            total == clients_coverage(clients@.take(i as int), nm),
        decreases clients@.len() - i,
    {
        let ghost before = clients_coverage(clients@.take(i as int), nm);
        proof {
            assert(clients@.take(i + 1).drop_last() =~= clients@.take(i as int));
            assert(clients@.take(i + 1).last() == clients@[i as int]);
            assert(clients_coverage(clients@.take(i + 1), nm) == before + client_coverage(
                clients@[i as int],
                nm,
            ));
            lemma_clients_coverage_grows(clients@, i + 1, nm);
            lemma_count_under_nonneg(clients@[i as int].user_stats@, nm);
            lemma_count_under_nonneg(clients@[i as int].user_stats@, nm + "_cov"@);
            lemma_count_under_nonneg(clients@[i as int].user_stats@, nm + "_coverage"@);
        }
        let c = &clients[i];
        if c.enabled {
            let ghost stats = c.user_stats@;
            assert(stats == clients@[i as int].user_stats@);
            assert(client_coverage(clients@[i as int], nm) == count_under(stats, nm) + count_under(
                stats,
                nm + "_cov"@,
            ) + count_under(stats, nm + "_coverage"@));
            assert(count_under(stats, nm) >= 0 && count_under(stats, nm + "_cov"@) >= 0
                && count_under(stats, nm + "_coverage"@) >= 0);
            match add_count(total, &c.user_stats, &name) {
                Some(t) => {
                    total = t;
                },
                None => {
                    return None;
                },
            }
            assert(total == before + count_under(stats, nm));
            match add_count(total, &c.user_stats, &name_cov) {
                Some(t) => {
                    total = t;
                },
                None => {
                    return None;
                },
            }
            assert(total == before + count_under(stats, nm) + count_under(stats, nm + "_cov"@));
            match add_count(total, &c.user_stats, &name_coverage) {
                Some(t) => {
                    total = t;
                },
                None => {
                    return None;
                },
            }
        }
        i = i + 1;
    }
    assert(clients@.take(clients@.len() as int) =~= clients@);
    if total != 0 {
        return Some(total);
    }
    match find_count(aggregated, &name) {
        Some(n) => {
            return Some(n);
        },
        None => {},
    }
    match find_count(aggregated, &name_cov) {
        Some(n) => Some(n),
        None => Some(0),
    }
}

/// The observer's three keys are different keys.
proof fn lemma_keys_differ(name: Seq<char>)
    ensures
        name != name + "_cov"@,
        name != name + "_coverage"@,
        name + "_cov"@ != name + "_coverage"@,
{
    reveal_strlit("_cov");
    reveal_strlit("_coverage");
    assert((name + "_cov"@).len() == name.len() + 4);
    assert((name + "_coverage"@).len() == name.len() + 9);
}

/// The coverage of the clients of `cs1 + cs2` is that of `cs1` plus that
/// of `cs2`: clients add up, in any grouping.
pub proof fn law_clients_add_up(cs1: Seq<ClientStats>, cs2: Seq<ClientStats>, name: Seq<char>)
    ensures
        clients_coverage(cs1 + cs2, name) == clients_coverage(cs1, name) + clients_coverage(cs2, name),
    decreases cs2.len(),
{
    if cs2.len() == 0 {
        assert(cs1 + cs2 =~= cs1);
    } else {
        law_clients_add_up(cs1, cs2.drop_last(), name);
        assert((cs1 + cs2).drop_last() =~= cs1 + cs2.drop_last());
        assert((cs1 + cs2).last() == cs2.last());
    }
}

/// A disabled client adds nothing, whatever statistics it holds.
pub proof fn law_disabled_client_ignored(cs: Seq<ClientStats>, c: ClientStats, name: Seq<char>)
    requires
        !c.enabled,
    ensures
        clients_coverage(cs.push(c), name) == clients_coverage(cs, name),
{
    assert(cs.push(c).drop_last() =~= cs);
}

/// An enabled client is counted under each of the observer's three keys:
/// one whose statistics are the numbers `a` under the observer's name, `b`
/// under the name with `_cov` and `d` under the name with `_coverage`
/// reports `a + b + d`; and when that is not zero it is the coverage count,
/// whatever the aggregated statistics hold.
pub proof fn law_client_counted_under_all_keys(
    c: ClientStats,
    name: Seq<char>,
    a: usize,
    b: usize,
    d: usize,
    agg: Seq<(String, UserStat)>,
)
    requires
        c.enabled,
        c.user_stats@.len() == 3,
        c.user_stats@[0].0@ == name,
        c.user_stats@[0].1 == UserStat::Number(a),
        c.user_stats@[1].0@ == name + "_cov"@,
        c.user_stats@[1].1 == UserStat::Number(b),
        c.user_stats@[2].0@ == name + "_coverage"@,
        c.user_stats@[2].1 == UserStat::Number(d),
    ensures
        clients_coverage(seq![c], name) == a + b + d,
        a + b + d != 0 ==> coverage_count(seq![c], agg, name) == a + b + d,
{
    lemma_keys_differ(name);
    let st = c.user_stats@;
    reveal_with_fuel(lookup, 4);
    assert(st.drop_first().drop_first().drop_first().len() == 0);
    assert(st.drop_first()[0] == st[1]);
    assert(st.drop_first().drop_first()[0] == st[2]);
    assert(lookup(st, name) == Some(UserStat::Number(a)));
    assert(lookup(st, name + "_cov"@) == Some(UserStat::Number(b)));
    assert(lookup(st, name + "_coverage"@) == Some(UserStat::Number(d)));
    assert(seq![c].drop_last() =~= Seq::<ClientStats>::empty());
    assert(seq![c].last() == c);
    assert(clients_coverage(Seq::<ClientStats>::empty(), name) == 0);
    assert(clients_coverage(seq![c], name) == clients_coverage(seq![c].drop_last(), name)
        + client_coverage(c, name));
}

/// A statistic under any other key than the observer's three adds nothing:
/// an enabled client whose only statistic is stored under such a key
/// reports no coverage.
pub proof fn law_other_keys_ignored(c: ClientStats, name: Seq<char>)
    requires
        c.user_stats@.len() == 1,
        c.user_stats@[0].0@ != name,
        c.user_stats@[0].0@ != name + "_cov"@,
        c.user_stats@[0].0@ != name + "_coverage"@,
    ensures
        clients_coverage(seq![c], name) == 0,
{
    let st = c.user_stats@;
    reveal_with_fuel(lookup, 2);
    assert(st.drop_first().len() == 0);
    assert(seq![c].drop_last() =~= Seq::<ClientStats>::empty());
    assert(seq![c].last() == c);
    assert(clients_coverage(Seq::<ClientStats>::empty(), name) == 0);
    assert(clients_coverage(seq![c], name) == clients_coverage(seq![c].drop_last(), name)
        + client_coverage(c, name));
}

/// Adding clients never lowers the total: every prefix's total is at most
/// the whole total.
proof fn lemma_clients_coverage_grows(cs: Seq<ClientStats>, n: int, name: Seq<char>)
    requires
        0 <= n <= cs.len(),
    ensures
        clients_coverage(cs.take(n), name) <= clients_coverage(cs, name),
    decreases cs.len() - n,
{
    if n < cs.len() {
        lemma_clients_coverage_grows(cs, n + 1, name);
        assert(cs.take(n + 1).drop_last() =~= cs.take(n));
        lemma_client_coverage_nonneg(cs.take(n + 1).last(), name);
    } else {
        assert(cs.take(n) =~= cs);
    }
}

/// A count is never negative.
proof fn lemma_count_under_nonneg(stats: Seq<(String, UserStat)>, key: Seq<char>)
    ensures
        count_under(stats, key) >= 0,
{
}

/// A client's coverage is never negative.
proof fn lemma_client_coverage_nonneg(c: ClientStats, name: Seq<char>)
    ensures
        client_coverage(c, name) >= 0,
{
}

/// The time from `last` to `now`; none when `now` is not later.
pub open spec fn elapsed_since(last: int, now: int) -> int {
    if now > last {
        now - last
    } else {
        0
    }
}

/// Whether a monitor whose last send was at `last` may send at `now`: at
/// least `interval` has passed.
pub open spec fn may_send(last: int, interval: int, now: int) -> bool {
    elapsed_since(last, now) >= interval
}

/// The rate limit: after a send at `sent`, the next send may happen exactly
/// from `sent + interval` on; and a monitor created at `now` with an
/// interval of at most the backdating may send at once.
pub proof fn law_rate_limit(sent: int, interval: int, now: int)
    requires
        0 <= interval,
    ensures
        sent <= now ==> (may_send(sent, interval, now) <==> now >= sent + interval),
        interval <= START_BACKDATE_NANOS ==> may_send(now - START_BACKDATE_NANOS, interval, now),
{
}

/// The broker's monitor: the stats client and the rate limit of its sends.
#[derive(Debug, Clone)]
pub struct StatsMonitor {
    client: StatsClient,
    last_send: i128,
    min_interval: u128,
}

impl StatsMonitor {
    /// The client that messages are built for.
    pub closed spec fn client_spec(&self) -> StatsClient {
        self.client
    }

    /// The invariant: the last send lies between the backdated creation
    /// instant of a monitor created at the origin and the last `u64` instant.
    pub closed spec fn wf(&self) -> bool {
        -START_BACKDATE_NANOS <= self.last_send <= u64::MAX
    }

    /// The instant of the last send (nanoseconds; before the origin when
    /// nothing was sent yet).
    pub closed spec fn last_send(&self) -> int {
        self.last_send as int
    }

    /// The minimum interval between two sends, in nanoseconds.
    pub closed spec fn min_interval(&self) -> int {
        self.min_interval as int
    }

    /// A monitor for VM `vm_id` running `target`, sending to `socket_path` at
    /// most once per second; created at instant `now`.
    pub fn new(vm_id: u32, target: &str, socket_path: &str, now: u64) -> (m: Self)
        ensures
            m.wf(),
            m.client_spec().vm_id == vm_id,
            m.client_spec().target@ == target@,
            m.client_spec().socket_path@ == socket_path@,
            m.last_send() == now - START_BACKDATE_NANOS,
            m.min_interval() == DEFAULT_MIN_INTERVAL_NANOS,
    {
        Self::with_interval(vm_id, target, socket_path, DEFAULT_MIN_INTERVAL_NANOS, now)
    }

    /// A monitor that sends at most once per `interval` nanoseconds; created
    /// at instant `now`.
    pub fn with_interval(vm_id: u32, target: &str, socket_path: &str, interval: u128, now: u64) -> (m:
        Self)
        ensures
            m.wf(),
            m.client_spec().vm_id == vm_id,
            m.client_spec().target@ == target@,
            m.client_spec().socket_path@ == socket_path@,
            m.last_send() == now - START_BACKDATE_NANOS,
            m.min_interval() == interval,
    {
        StatsMonitor {
            client: StatsClient::new(vm_id, target, socket_path),
            last_send: now as i128 - START_BACKDATE_NANOS,
            min_interval: interval,
        }
    }

    /// The stats client of this monitor.
    pub fn client(&self) -> (c: &StatsClient)
        ensures
            *c == self.client_spec(),
    {
        &self.client
    }

    /// At instant `now`, with the given statistics: the aggregate message to
    /// send, unless less than the minimum interval has passed since the last
    /// send (time never runs backwards: an earlier `now` counts as no time
    /// passed). Sending moves the last send to `now`.
    pub fn try_send_stats(
        &mut self,
        now: u64,
        coverage_signal: usize,
        corpus_size: usize,
        execs_per_sec: u64,
        total_execs: u64,
    ) -> (m: Option<StatsMessage>)
        requires
            old(self).wf(),
        ensures
            final(self).wf(),
            final(self).client_spec() == old(self).client_spec(),
            final(self).min_interval() == old(self).min_interval(),
            !may_send(old(self).last_send(), old(self).min_interval(), now as int) ==> (m is None
                && final(self).last_send() == old(self).last_send()),
            may_send(old(self).last_send(), old(self).min_interval(), now as int) ==> (
            final(self).last_send() == now && (m matches Some(StatsMessage::Aggregate(a)) && {
                &&& a.vm_id == old(self).client_spec().vm_id
                &&& a.target@ == old(self).client_spec().target@
                &&& a.coverage_signal == coverage_signal
                &&& a.corpus_size == corpus_size
                &&& a.execs_per_sec == execs_per_sec
                &&& a.total_execs == total_execs
            })),
    {
        let now_i = now as i128;
        let elapsed: u128 = if now_i > self.last_send {
            (now_i - self.last_send) as u128
        } else {
            0
        };
        if elapsed < self.min_interval {
            return None;
        }
        self.last_send = now_i;
        Some(self.client.aggregate_message(coverage_signal, corpus_size, execs_per_sec, total_execs))
    }
}

} // verus!

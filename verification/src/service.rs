//! The stats collector: assembles one complete host-health snapshot per call
//! from a point-in-time OS reading, deriving per-interface throughput from
//! the history table it carries across calls.

use crate::identity::{opt_view, seq_views, IdentityResolver};
use crate::model::{
    ComponentReading, CpuReading, DiskInfo, DiskReading, NetReading, NetworkInfo, OsReading,
    SystemInfo,
};
use crate::rates::{rates_from, History, NetSample};
use vstd::prelude::*;
use vstd::string::StrSliceExecFns;

verus! {

/// The process-local stats collector: the per-interface history table and
/// the interface identity capability. One instance serves all requests; the
/// caller must serialize access to it (read of an OS counter, rate
/// computation and history update form one critical section).
pub struct SystemService {
    pub network_stats: History,
    pub resolver: IdentityResolver,
}

/// Sum of the per-core loads, in hundredths of a percent.
pub open spec fn sum_usage(cpus: Seq<CpuReading>) -> int
    decreases cpus.len(),
{
    if cpus.len() == 0 {
        0
    } else {
        sum_usage(cpus.drop_last()) + cpus.last().usage_centi
    }
}

/// Average CPU load in hundredths of a percent: the integer mean of the
/// per-core loads, and `0` when the OS reports no cores.
pub open spec fn spec_avg_usage(cpus: Seq<CpuReading>) -> int {
    if cpus.len() == 0 {
        0
    } else {
        sum_usage(cpus) / (cpus.len() as int)
    }
}

/// Brand string of the first core, or empty when there is none.
pub open spec fn spec_cpu_model(cpus: Seq<CpuReading>) -> Seq<char> {
    if cpus.len() == 0 {
        Seq::empty()
    } else {
        cpus[0].brand@
    }
}

/// Frequency of the first core in MHz, or `0` when there is none.
pub open spec fn spec_cpu_frequency(cpus: Seq<CpuReading>) -> u64 {
    if cpus.len() == 0 {
        0u64
    } else {
        cpus[0].frequency
    }
}

/// The label fragment that marks a sensor as the CPU's.
pub open spec fn cpu_label_pattern() -> Seq<char> {
    seq!['C', 'P', 'U']
}

/// `pat` occurs in `s` starting at position `i`.
pub open spec fn match_at(s: Seq<char>, pat: Seq<char>, i: int) -> bool {
    0 <= i && i + pat.len() <= s.len() && s.subrange(i, i + pat.len()) == pat
}

/// `pat` occurs somewhere in `s`.
pub open spec fn contains_pattern(s: Seq<char>, pat: Seq<char>) -> bool {
    exists|i: int| match_at(s, pat, i)
}

/// Temperature of the first sensor whose label contains the CPU pattern;
/// absent when no such sensor is reported.
pub open spec fn spec_cpu_temperature(components: Seq<ComponentReading>) -> Option<i64>
    decreases components.len(),
{
    if components.len() == 0 {
        None
    } else if contains_pattern(components[0].label@, cpu_label_pattern()) {
        Some(components[0].temperature_centi)
    } else {
        spec_cpu_temperature(components.drop_first())
    }
}

/// The snapshot record `d` renders the volume reading `r`: capacities pass
/// through, used space is computed as total minus available.
pub open spec fn disk_info_matches(r: DiskReading, d: DiskInfo) -> bool {
    &&& d.name@ == r.name@
    &&& d.mount_point@ == r.mount_point@
    &&& d.total_space == r.total_space
    &&& d.available_space == r.available_space
    &&& d.used_space as int == r.total_space as int - r.available_space as int
    &&& d.file_system@ == r.file_system@
}

/// The history after the counter readings `nets` were recorded in order at
/// time `now_ms`, starting from history `h`.
pub open spec fn history_after(
    h: Map<Seq<char>, NetSample>,
    nets: Seq<NetReading>,
    now_ms: u64,
) -> Map<Seq<char>, NetSample>
    decreases nets.len(),
{
    if nets.len() == 0 {
        h
    } else {
        history_after(
            h.insert(
                nets[0].interface@,
                NetSample { t_ms: now_ms, rx: nets[0].received_bytes, tx: nets[0].transmitted_bytes },
            ),
            nets.drop_first(),
            now_ms,
        )
    }
}

/// The rates reported for the `i`-th interface of one refresh: derived from
/// the history as it stands once the preceding interfaces of the same refresh
/// are recorded.
pub open spec fn rates_at(
    h: Map<Seq<char>, NetSample>,
    nets: Seq<NetReading>,
    now_ms: u64,
    i: int,
) -> (u64, u64) {
    rates_from(
        history_after(h, nets.take(i), now_ms),
        nets[i].interface@,
        now_ms,
        nets[i].received_bytes,
        nets[i].transmitted_bytes,
    )
}

/// The snapshot record `n` renders the interface reading `r`: identity and
/// cumulative counters pass through, the speeds are the given derived rates.
pub open spec fn network_info_matches(
    r: NetReading,
    n: NetworkInfo,
    rates: (u64, u64),
    resolver: IdentityResolver,
) -> bool {
    &&& n.interface@ == r.interface@
    &&& seq_views(n.ip_addresses@) == resolver.spec_ips(r.interface@)
    &&& opt_view(n.mac_address) == resolver.spec_mac(r.interface@)
    &&& n.received_bytes == r.received_bytes
    &&& n.transmitted_bytes == r.transmitted_bytes
    &&& n.received_packets == r.received_packets
    &&& n.transmitted_packets == r.transmitted_packets
    &&& n.rx_speed == rates.0
    &&& n.tx_speed == rates.1
}

/// The scalar (non-sequence) fields of snapshot `s` render the reading `r`.
pub open spec fn scalars_match(s: SystemInfo, r: OsReading) -> bool {
    &&& s.hostname@ == r.hostname@
    &&& s.os_type@ == r.os_type@
    &&& s.os_version@ == r.os_version@
    &&& s.kernel_version@ == r.kernel_version@
    &&& s.system_time_ms == r.system_time_ms
    &&& s.uptime == r.uptime
    &&& s.cpu_model@ == spec_cpu_model(r.cpus@)
    &&& s.cpu_cores == r.cpus@.len()
    &&& s.cpu_usage_centi as int == spec_avg_usage(r.cpus@)
    &&& s.cpu_frequency == spec_cpu_frequency(r.cpus@)
    &&& s.cpu_temperature_centi == spec_cpu_temperature(r.components@)
    &&& s.memory_total == r.memory_total
    &&& s.memory_used == r.memory_used
    &&& s.memory_free == r.memory_free
    &&& s.swap_total == r.swap_total
    &&& s.swap_used == r.swap_used
}

proof fn lemma_sum_usage_bound(cpus: Seq<CpuReading>)
    ensures
        0 <= sum_usage(cpus) <= cpus.len() * 0xffff_ffff,
    decreases cpus.len(),
{
    if cpus.len() > 0 {
        lemma_sum_usage_bound(cpus.drop_last());
    }
}

proof fn lemma_history_after_snoc(
    h: Map<Seq<char>, NetSample>,
    nets: Seq<NetReading>,
    e: NetReading,
    now_ms: u64,
)
    ensures
        history_after(h, nets.push(e), now_ms) == history_after(h, nets, now_ms).insert(
            e.interface@,
            NetSample { t_ms: now_ms, rx: e.received_bytes, tx: e.transmitted_bytes },
        ),
    decreases nets.len(),
{
    let sample = NetSample { t_ms: now_ms, rx: e.received_bytes, tx: e.transmitted_bytes };
    if nets.len() == 0 {
        assert(nets.push(e).drop_first() =~= Seq::<NetReading>::empty());
        assert(nets.push(e)[0] == e);
        assert(history_after(h.insert(e.interface@, sample), Seq::<NetReading>::empty(), now_ms)
            == h.insert(e.interface@, sample));
        assert(history_after(h, nets, now_ms) == h);
        assert(history_after(h, nets.push(e), now_ms) == history_after(
            h.insert(e.interface@, sample),
            nets.push(e).drop_first(),
            now_ms,
        ));
    } else {
        assert(nets.push(e).drop_first() =~= nets.drop_first().push(e));
        assert(nets.push(e)[0] == nets[0]);
        lemma_history_after_snoc(
            h.insert(
                nets[0].interface@,
                NetSample { t_ms: now_ms, rx: nets[0].received_bytes, tx: nets[0].transmitted_bytes },
            ),
            nets.drop_first(),
            e,
            now_ms,
        );
    }
}

proof fn lemma_history_after_agree(
    h1: Map<Seq<char>, NetSample>,
    h2: Map<Seq<char>, NetSample>,
    nets: Seq<NetReading>,
    now_ms: u64,
    k: Seq<char>,
)
    requires
        h1.contains_key(k) == h2.contains_key(k),
        h1.contains_key(k) ==> h1[k] == h2[k],
    ensures
        history_after(h1, nets, now_ms).contains_key(k) == history_after(
            h2,
            nets,
            now_ms,
        ).contains_key(k),
        history_after(h1, nets, now_ms).contains_key(k) ==> history_after(h1, nets, now_ms)[k]
            == history_after(h2, nets, now_ms)[k],
    decreases nets.len(),
{
    if nets.len() > 0 {
        let sample = NetSample {
            t_ms: now_ms,
            rx: nets[0].received_bytes,
            tx: nets[0].transmitted_bytes,
        };
        lemma_history_after_agree(
            h1.insert(nets[0].interface@, sample),
            h2.insert(nets[0].interface@, sample),
            nets.drop_first(),
            now_ms,
            k,
        );
    }
}

/// Monotonic independence, refresh form: the rates reported for the `i`-th
/// interface of a refresh are the same under any two starting histories that
/// agree on that interface's own entry — whatever either history holds for
/// any other interface.
pub proof fn lemma_refresh_rate_independence(
    h1: Map<Seq<char>, NetSample>,
    h2: Map<Seq<char>, NetSample>,
    nets: Seq<NetReading>,
    now_ms: u64,
    i: int,
)
    requires
        0 <= i < nets.len(),
        h1.contains_key(nets[i].interface@) == h2.contains_key(nets[i].interface@),
        h1.contains_key(nets[i].interface@) ==> h1[nets[i].interface@] == h2[nets[i].interface@],
    ensures
        rates_at(h1, nets, now_ms, i) == rates_at(h2, nets, now_ms, i),
{
    lemma_history_after_agree(h1, h2, nets.take(i), now_ms, nets[i].interface@);
    crate::rates::lemma_rate_depends_only_on_own_entry(
        history_after(h1, nets.take(i), now_ms),
        history_after(h2, nets.take(i), now_ms),
        nets[i].interface@,
        now_ms,
        nets[i].received_bytes,
        nets[i].transmitted_bytes,
    );
}

/// History entries are never deleted: every interface known before a refresh
/// is still known after it.
pub proof fn lemma_history_never_forgets(
    h: Map<Seq<char>, NetSample>,
    nets: Seq<NetReading>,
    now_ms: u64,
    k: Seq<char>,
)
    requires
        h.contains_key(k),
    ensures
        history_after(h, nets, now_ms).contains_key(k),
    decreases nets.len(),
{
    if nets.len() > 0 {
        lemma_history_never_forgets(
            h.insert(
                nets[0].interface@,
                NetSample { t_ms: now_ms, rx: nets[0].received_bytes, tx: nets[0].transmitted_bytes },
            ),
            nets.drop_first(),
            now_ms,
            k,
        );
    }
}

/// Whether `label` contains the CPU pattern.
fn label_marks_cpu(label: &str) -> (r: bool)
    ensures
        r == contains_pattern(label@, cpu_label_pattern()),
{
    let n = label.unicode_len();
    if n < 3 {
        proof {
            assert forall|j: int| !match_at(label@, cpu_label_pattern(), j) by {
                assert(cpu_label_pattern().len() == 3);
            }
        }
        return false;
    }
    let mut i: usize = 0;
    while i <= n - 3
        invariant
            n == label@.len(),
            3 <= n,
            i <= n - 2,
            forall|j: int| 0 <= j < i ==> !match_at(label@, cpu_label_pattern(), j),
        decreases n - i,
    {
        let c0 = label.get_char(i);
        let c1 = label.get_char(i + 1);
        let c2 = label.get_char(i + 2);
        if c0 == 'C' && c1 == 'P' && c2 == 'U' {
            proof {
                assert(label@.subrange(i as int, i as int + 3) =~= cpu_label_pattern());
                assert(match_at(label@, cpu_label_pattern(), i as int));
            }
            return true;
        }
        proof {
            assert(!match_at(label@, cpu_label_pattern(), i as int)) by {
                let sub = label@.subrange(i as int, i as int + 3);
                assert(sub[0] == label@[i as int]);
                assert(sub[1] == label@[i as int + 1]);
                assert(sub[2] == label@[i as int + 2]);
                assert(cpu_label_pattern()[0] == 'C');
                assert(cpu_label_pattern()[1] == 'P');
                assert(cpu_label_pattern()[2] == 'U');
            }
        }
        i += 1;
    }
    proof {
        assert forall|j: int| !match_at(label@, cpu_label_pattern(), j) by {
            assert(cpu_label_pattern().len() == 3);
            if 0 <= j && j + 3 <= n {
                assert(j < i);
            }
        }
    }
    false
}

impl SystemService {
    /// The history table holds at most one row per interface name.
    pub open spec fn wf(&self) -> bool {
        self.network_stats.wf()
    }

    /// A fresh collector: empty history, identity resolution unimplemented
    /// (the honest stub: every interface resolves to no addresses).
    pub fn new() -> (s: SystemService)
        ensures
            s.wf(),
            s.network_stats@ == Map::<Seq<char>, NetSample>::empty(),
            s.resolver == IdentityResolver::Unimplemented,
    {
        SystemService {
            network_stats: History::new(),
            resolver: IdentityResolver::Unimplemented,
        }
    }

    /// A fresh collector with the given identity capability.
    pub fn with_resolver(resolver: IdentityResolver) -> (s: SystemService)
        ensures
            s.wf(),
            s.network_stats@ == Map::<Seq<char>, NetSample>::empty(),
            s.resolver == resolver,
    {
        SystemService { network_stats: History::new(), resolver }
    }

    /// Average CPU load across cores, in hundredths of a percent.
    pub fn get_cpu_usage(cpus: &Vec<CpuReading>) -> (r: u32)
        ensures
            r as int == spec_avg_usage(cpus@),
    {
        let n = cpus.len();
        if n == 0 {
            return 0;
        }
        let mut acc: u128 = 0;
        let mut i: usize = 0;
        while i < n
            invariant
                i <= n,
                n == cpus@.len(),
                acc as int == sum_usage(cpus@.take(i as int)),
                acc <= i * 0xffff_ffff,
            decreases n - i,
        {
            proof {
                assert(cpus@.take(i as int + 1).drop_last() =~= cpus@.take(i as int));
                assert(cpus@.take(i as int + 1).last() == cpus@[i as int]);
            }
            acc = acc + cpus[i].usage_centi as u128;
            i += 1;
        }
        proof {
            assert(cpus@.take(n as int) =~= cpus@);
            assert(acc as int / (n as int) <= 0xffff_ffff) by (nonlinear_arith)
                requires
                    n > 0,
                    acc as int <= (n as int) * 0xffff_ffff,
            ;
        }
        (acc / (n as u128)) as u32
    }

    /// Temperature of the first sensor labelled as the CPU's, absent when the
    /// OS reports no such sensor.
    pub fn get_cpu_temperature(components: &Vec<ComponentReading>) -> (r: Option<i64>)
        ensures
            r == spec_cpu_temperature(components@),
    {
        let n = components.len();
        let mut i: usize = 0;
        proof {
            assert(components@.skip(0) =~= components@);
        }
        while i < n
            invariant
                i <= n,
                n == components@.len(),
                spec_cpu_temperature(components@) == spec_cpu_temperature(
                    components@.skip(i as int),
                ),
            decreases n - i,
        {
            proof {
                assert(components@.skip(i as int)[0] == components@[i as int]);
            }
            if label_marks_cpu(components[i].label.as_str()) {
                return Some(components[i].temperature_centi);
            }
            proof {
                assert(components@.skip(i as int).drop_first() =~= components@.skip(i as int + 1));
            }
            i += 1;
        }
        None
    }

    /// Per-volume records: names, capacities and filesystem pass through the
    /// reading; used space is computed as total minus available.
    pub fn get_disks_info(disks: &Vec<DiskReading>) -> (r: Vec<DiskInfo>)
        requires
            forall|i: int|
                0 <= i < disks@.len() ==> disks@[i].available_space <= disks@[i].total_space,
        ensures
            r@.len() == disks@.len(),
            forall|i: int| 0 <= i < disks@.len() ==> disk_info_matches(disks@[i], r@[i]),
    {
        let n = disks.len();
        let mut r: Vec<DiskInfo> = Vec::new();
        let mut i: usize = 0;
        while i < n
            invariant
                i <= n,
                n == disks@.len(),
                r@.len() == i,
                forall|k: int|
                    0 <= k < disks@.len() ==> disks@[k].available_space <= disks@[k].total_space,
                forall|j: int| 0 <= j < i ==> disk_info_matches(disks@[j], r@[j]),
            decreases n - i,
        {
            let d = &disks[i];
            r.push(
                DiskInfo {
                    name: d.name.clone(),
                    mount_point: d.mount_point.clone(),
                    total_space: d.total_space,
                    used_space: d.total_space - d.available_space,
                    available_space: d.available_space,
                    file_system: d.file_system.clone(),
                },
            );
            i += 1;
        }
        r
    }

    /// Per-interface records for one refresh taken at monotonic time
    /// `now_ms`: each interface's counters pass through; its speeds are
    /// derived from its own history entry as of the previous call and its
    /// history entry is overwritten with this call's sample.
    pub fn get_networks_info(&mut self, nets: &Vec<NetReading>, now_ms: u64) -> (r: Vec<
        NetworkInfo,
    >)
        requires
            old(self).wf(),
        ensures
            final(self).wf(),
            final(self).resolver == old(self).resolver,
            final(self).network_stats@ == history_after(
                old(self).network_stats@,
                nets@,
                now_ms,
            ),
            r@.len() == nets@.len(),
            forall|i: int|
                0 <= i < nets@.len() ==> network_info_matches(
                    nets@[i],
                    r@[i],
                    rates_at(old(self).network_stats@, nets@, now_ms, i),
                    old(self).resolver,
                ),
    {
        let ghost h0 = self.network_stats@;
        let n = nets.len();
        let mut r: Vec<NetworkInfo> = Vec::new();
        let mut i: usize = 0;
        proof {
            assert(nets@.take(0) =~= Seq::<NetReading>::empty());
        }
        while i < n
            invariant
                i <= n,
                n == nets@.len(),
                self.wf(),
                self.resolver == old(self).resolver,
                h0 == old(self).network_stats@,
                self.network_stats@ == history_after(h0, nets@.take(i as int), now_ms),
                r@.len() == i,
                forall|j: int|
                    0 <= j < i ==> network_info_matches(
                        nets@[j],
                        r@[j],
                        rates_at(h0, nets@, now_ms, j),
                        old(self).resolver,
                    ),
            decreases n - i,
        {
            let net = &nets[i];
            let rates = self.network_stats.observe(
                &net.interface,
                now_ms,
                net.received_bytes,
                net.transmitted_bytes,
            );
            proof {
                assert(nets@.take(i as int + 1) =~= nets@.take(i as int).push(nets@[i as int]));
                lemma_history_after_snoc(h0, nets@.take(i as int), nets@[i as int], now_ms);
            }
            let ips = self.resolver.get_interface_ips(&net.interface);
            let mac = self.resolver.get_mac_address(&net.interface);
            r.push(
                NetworkInfo {
                    interface: net.interface.clone(),
                    ip_addresses: ips,
                    mac_address: mac,
                    received_bytes: net.received_bytes,
                    transmitted_bytes: net.transmitted_bytes,
                    received_packets: net.received_packets,
                    transmitted_packets: net.transmitted_packets,
                    rx_speed: rates.0,
                    tx_speed: rates.1,
                },
            );
            i += 1;
        }
        proof {
            assert(nets@.take(n as int) =~= nets@);
        }
        r
    }

    /// IP addresses of the named interface, through the identity capability.
    pub fn get_interface_ips(&self, interface: &String) -> (r: Vec<String>)
        ensures
            seq_views(r@) == self.resolver.spec_ips(interface@),
    {
        self.resolver.get_interface_ips(interface)
    }

    /// MAC address of the named interface, through the identity capability.
    pub fn get_mac_address(&self, interface: &String) -> (r: Option<String>)
        ensures
            opt_view(r) == self.resolver.spec_mac(interface@),
    {
        self.resolver.get_mac_address(interface)
    }

    /// One complete snapshot from one OS reading: every scalar field passes
    /// through (CPU load averaged, temperature selected by sensor label),
    /// disk records get their computed used space, and network records carry
    /// rates derived from the history table, which is updated in the same
    /// step. Nothing is ever partially populated: an absent sensor yields an
    /// absent temperature, an empty reading yields empty sequences.
    pub fn get_system_info(&mut self, reading: &OsReading) -> (info: SystemInfo)
        requires
            old(self).wf(),
            forall|i: int|
                0 <= i < reading.disks@.len() ==> reading.disks@[i].available_space
                    <= reading.disks@[i].total_space,
        ensures
            final(self).wf(),
            final(self).resolver == old(self).resolver,
            final(self).network_stats@ == history_after(
                old(self).network_stats@,
                reading.networks@,
                reading.monotonic_ms,
            ),
            scalars_match(info, *reading),
            info.disks@.len() == reading.disks@.len(),
            forall|i: int|
                0 <= i < reading.disks@.len() ==> disk_info_matches(
                    reading.disks@[i],
                    info.disks@[i],
                ),
            info.networks@.len() == reading.networks@.len(),
            forall|i: int|
                0 <= i < reading.networks@.len() ==> network_info_matches(
                    reading.networks@[i],
                    info.networks@[i],
                    rates_at(
                        old(self).network_stats@,
                        reading.networks@,
                        reading.monotonic_ms,
                        i,
                    ),
                    old(self).resolver,
                ),
    {
        let cpu_model = if reading.cpus.len() > 0 {
            reading.cpus[0].brand.clone()
        } else {
            String::new()
        };
        let cpu_frequency = if reading.cpus.len() > 0 {
            reading.cpus[0].frequency
        } else {
            0
        };
        SystemInfo {
            hostname: reading.hostname.clone(),
            os_type: reading.os_type.clone(),
            os_version: reading.os_version.clone(),
            kernel_version: reading.kernel_version.clone(),
            system_time_ms: reading.system_time_ms,
            uptime: reading.uptime,
            cpu_model,
            cpu_cores: reading.cpus.len(),
            cpu_usage_centi: Self::get_cpu_usage(&reading.cpus),
            cpu_frequency,
            cpu_temperature_centi: Self::get_cpu_temperature(&reading.components),
            memory_total: reading.memory_total,
            memory_used: reading.memory_used,
            memory_free: reading.memory_free,
            swap_total: reading.swap_total,
            swap_used: reading.swap_used,
            disks: Self::get_disks_info(&reading.disks),
            networks: self.get_networks_info(&reading.networks, reading.monotonic_ms),
        }
    }
}

/// Idempotent scalar fields: two snapshots assembled from equal OS readings
/// carry equal scalar (non-rate) fields, whatever history either collector
/// held and however often the call is repeated.
pub proof fn lemma_scalar_fields_idempotent(s1: SystemInfo, s2: SystemInfo, r: OsReading)
    requires
        scalars_match(s1, r),
        scalars_match(s2, r),
    ensures
        s1.hostname@ == s2.hostname@,
        s1.os_type@ == s2.os_type@,
        s1.os_version@ == s2.os_version@,
        s1.kernel_version@ == s2.kernel_version@,
        s1.system_time_ms == s2.system_time_ms,
        s1.uptime == s2.uptime,
        s1.cpu_model@ == s2.cpu_model@,
        s1.cpu_cores == s2.cpu_cores,
        s1.cpu_usage_centi == s2.cpu_usage_centi,
        s1.cpu_frequency == s2.cpu_frequency,
        s1.cpu_temperature_centi == s2.cpu_temperature_centi,
        s1.memory_total == s2.memory_total,
        s1.memory_used == s2.memory_used,
        s1.memory_free == s2.memory_free,
        s1.swap_total == s2.swap_total,
        s1.swap_used == s2.swap_used,
{
}

/// Disk used-space invariant: every disk record of a snapshot satisfies
/// `used_space == total_space - available_space` exactly.
pub proof fn lemma_disk_used_invariant(rs: Seq<DiskReading>, ds: Seq<DiskInfo>)
    requires
        ds.len() == rs.len(),
        forall|i: int| 0 <= i < rs.len() ==> disk_info_matches(rs[i], ds[i]),
    ensures
        forall|i: int|
            0 <= i < ds.len() ==> ds[i].used_space as int == ds[i].total_space as int
                - ds[i].available_space as int,
{
}

/// Missing-sensor tolerance: when no reported sensor is labelled as the
/// CPU's, the selected temperature is absent — and nothing else of the
/// snapshot is affected, since the other fields are stated independently.
pub proof fn lemma_no_cpu_sensor(components: Seq<ComponentReading>)
    requires
        forall|i: int|
            0 <= i < components.len() ==> !contains_pattern(
                components[i].label@,
                cpu_label_pattern(),
            ),
    ensures
        spec_cpu_temperature(components) is None,
    decreases components.len(),
{
    if components.len() > 0 {
        assert(forall|i: int|
            0 <= i < components.drop_first().len() ==> components.drop_first()[i] == components[
                i + 1
            ]);
        lemma_no_cpu_sensor(components.drop_first());
    }
}

} // verus!

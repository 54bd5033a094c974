//! Assembling the integer parts of a metric snapshot, and what the history
//! writer and the alert checker take from one.
use vstd::prelude::*;
use crate::m_series::{pressure_from_level, spec_pressure};
use crate::types::{DiskDevice, DiskMetrics, MemoryMetrics, NetworkInterface, NetworkMetrics};

verus! {

/// Memory metrics from the sizes the system reports and the kernel's memory
/// pressure level (see `pressure_from_level`).
pub fn build_memory_metrics(
    used_bytes: u64,
    total_bytes: u64,
    swap_used_bytes: u64,
    swap_total_bytes: u64,
    pressure_level: Option<u32>,
) -> (r: MemoryMetrics)
    ensures
        r.used_bytes == used_bytes,
        r.total_bytes == total_bytes,
        r.swap_used_bytes == swap_used_bytes,
        r.swap_total_bytes == swap_total_bytes,
        r.pressure == spec_pressure(pressure_level),
{
    MemoryMetrics {
        used_bytes,
        total_bytes,
        swap_used_bytes,
        swap_total_bytes,
        pressure: pressure_from_level(pressure_level),
    }
}

/// A disk device from its throughput and the capacity the file system reports;
/// the used space is the total less the available space.
pub fn build_disk_device(
    name: String,
    read_bytes_per_sec: u64,
    write_bytes_per_sec: u64,
    total_bytes: u64,
    available_bytes: u64,
) -> (r: DiskDevice)
    requires
        available_bytes <= total_bytes,
    ensures
        r.name@ == name@,
        r.read_bytes_per_sec == read_bytes_per_sec,
        r.write_bytes_per_sec == write_bytes_per_sec,
        r.total_bytes == total_bytes,
        r.used_bytes == total_bytes - available_bytes,
        r.used_bytes <= r.total_bytes,
{
    DiskDevice {
        name,
        read_bytes_per_sec,
        write_bytes_per_sec,
        total_bytes,
        used_bytes: total_bytes - available_bytes,
    }
}

/// The largest value of `s`, starting from 0: 0 for an empty sequence.
pub open spec fn seq_max(s: Seq<u64>) -> u64
    decreases s.len(),
{
    if s.len() == 0 {
        0
    } else {
        let m = seq_max(s.drop_last());
        if s.last() > m {
            s.last()
        } else {
            m
        }
    }
}

/// The maximum of a list of values, or 0 if the list is empty.
pub fn max_of(values: &Vec<u64>) -> (r: u64)
    ensures
        r == seq_max(values@),
{
    let mut m: u64 = 0;
    let mut i: usize = 0;
    while i < values.len()
        invariant
            i <= values@.len(),
            m == seq_max(values@.take(i as int)),
        decreases values.len() - i,
    {
        assert(values@.take(i + 1).drop_last() =~= values@.take(i as int));
        if values[i] > m {
            m = values[i];
        }
        i = i + 1;
    }
    assert(values@.take(values@.len() as int) =~= values@);
    m
}

/// The maximum is at least every value, and it is 0 or one of the values.
pub proof fn law_max_of_bounds(s: Seq<u64>)
    ensures
        forall|i: int| 0 <= i < s.len() ==> s[i] <= seq_max(s),
        seq_max(s) == 0 || s.contains(seq_max(s)),
    decreases s.len(),
{
    if s.len() > 0 {
        law_max_of_bounds(s.drop_last());
        let m = seq_max(s.drop_last());
        assert forall|i: int| 0 <= i < s.len() implies s[i] <= seq_max(s) by {
            if i < s.len() - 1 {
                assert(s.drop_last()[i] == s[i]);
            }
        }
        if seq_max(s) != 0 {
            if s.last() > m {
                assert(s[s.len() - 1] == seq_max(s));
            } else {
                let j = choose|j: int| 0 <= j < s.drop_last().len() && s.drop_last()[j] == m;
                assert(s[j] == m);
            }
        }
    }
}

/// The write rates of the devices, in order.
pub open spec fn write_rates(devices: Seq<DiskDevice>) -> Seq<u64> {
    devices.map_values(|d: DiskDevice| d.write_bytes_per_sec)
}

/// The receive rates of the interfaces, in order.
pub open spec fn receive_rates(interfaces: Seq<NetworkInterface>) -> Seq<u64> {
    interfaces.map_values(|n: NetworkInterface| n.rx_bytes_per_sec)
}

/// The highest disk write rate of a snapshot, in bytes per second (0 without devices).
pub fn max_disk_write(disk: &DiskMetrics) -> (r: u64)
    ensures
        r == seq_max(write_rates(disk.devices@)),
{
    let mut rates: Vec<u64> = Vec::new();
    let mut i: usize = 0;
    while i < disk.devices.len()
        invariant
            i <= disk.devices@.len(),
            rates@ == write_rates(disk.devices@.take(i as int)),
        decreases disk.devices.len() - i,
    {
        rates.push(disk.devices[i].write_bytes_per_sec);
        i = i + 1;
        assert(rates@ =~= write_rates(disk.devices@.take(i as int)));
    }
    assert(disk.devices@.take(disk.devices@.len() as int) =~= disk.devices@);
    max_of(&rates)
}

/// The highest network receive rate of a snapshot, in bytes per second (0 without interfaces).
pub fn max_net_in(network: &NetworkMetrics) -> (r: u64)
    ensures
        r == seq_max(receive_rates(network.interfaces@)),
{
    let mut rates: Vec<u64> = Vec::new();
    let mut i: usize = 0;
    while i < network.interfaces.len()
        invariant
            i <= network.interfaces@.len(),
            rates@ == receive_rates(network.interfaces@.take(i as int)),
        decreases network.interfaces.len() - i,
    {
        rates.push(network.interfaces[i].rx_bytes_per_sec);
        i = i + 1;
        assert(rates@ =~= receive_rates(network.interfaces@.take(i as int)));
    }
    assert(network.interfaces@.take(network.interfaces@.len() as int) =~= network.interfaces@);
    max_of(&rates)
}

/// The kinds of metric kept in the history, as stored in its `metric_type` column.
#[derive(Clone, Copy, Debug, PartialEq, Eq, Structural)]
pub enum HistoryMetric {
    Cpu,
    Memory,
    DiskRead,
    DiskWrite,
    NetIn,
    NetOut,
}

/// The column text of a history metric.
pub open spec fn spec_metric_name(m: HistoryMetric) -> Seq<char> {
    match m {
        HistoryMetric::Cpu => seq!['c', 'p', 'u'],
        HistoryMetric::Memory => seq!['m', 'e', 'm', 'o', 'r', 'y'],
        HistoryMetric::DiskRead => seq!['d', 'i', 's', 'k', '_', 'r', 'e', 'a', 'd'],
        HistoryMetric::DiskWrite => seq!['d', 'i', 's', 'k', '_', 'w', 'r', 'i', 't', 'e'],
        HistoryMetric::NetIn => seq!['n', 'e', 't', '_', 'i', 'n'],
        HistoryMetric::NetOut => seq!['n', 'e', 't', '_', 'o', 'u', 't'],
    }
}

impl HistoryMetric {
    /// The text stored in the `metric_type` column for this metric.
    pub fn name(&self) -> (r: &'static str)
        ensures
            r@ == spec_metric_name(*self),
    {
        proof {
            reveal_strlit("cpu");
            reveal_strlit("memory");
            reveal_strlit("disk_read");
            reveal_strlit("disk_write");
            reveal_strlit("net_in");
            reveal_strlit("net_out");
        }
        let r = match self {
            HistoryMetric::Cpu => "cpu",
            HistoryMetric::Memory => "memory",
            HistoryMetric::DiskRead => "disk_read",
            HistoryMetric::DiskWrite => "disk_write",
            HistoryMetric::NetIn => "net_in",
            HistoryMetric::NetOut => "net_out",
        };
        assert(r@ =~= spec_metric_name(*self));
        r
    }
}

/// A byte rate that the history records for one device or interface.
#[derive(Clone, Debug)]
pub struct RateSample {
    pub metric: HistoryMetric,
    pub interface: String,
    pub bytes_per_sec: u64,
}

/// A sample as a triple of metric, interface name and rate.
pub open spec fn sample_view(s: RateSample) -> (HistoryMetric, Seq<char>, u64) {
    (s.metric, s.interface@, s.bytes_per_sec)
}

/// Two samples per device, in device order: its read rate, then its write rate.
pub open spec fn disk_samples(devices: Seq<DiskDevice>) -> Seq<(HistoryMetric, Seq<char>, u64)>
    decreases devices.len(),
{
    if devices.len() == 0 {
        seq![]
    } else {
        let d = devices.last();
        disk_samples(devices.drop_last()) + seq![
            (HistoryMetric::DiskRead, d.name@, d.read_bytes_per_sec),
            (HistoryMetric::DiskWrite, d.name@, d.write_bytes_per_sec),
        ]
    }
}

/// Two samples per interface, in interface order: its receive rate, then its send rate.
pub open spec fn network_samples(interfaces: Seq<NetworkInterface>) -> Seq<
    (HistoryMetric, Seq<char>, u64),
>
    decreases interfaces.len(),
{
    if interfaces.len() == 0 {
        seq![]
    } else {
        let n = interfaces.last();
        network_samples(interfaces.drop_last()) + seq![
            (HistoryMetric::NetIn, n.name@, n.rx_bytes_per_sec),
            (HistoryMetric::NetOut, n.name@, n.tx_bytes_per_sec),
        ]
    }
}

/// The per-device and per-interface byte rates that one snapshot adds to the
/// history: the disk samples followed by the network samples.
pub fn rate_samples(disk: &DiskMetrics, network: &NetworkMetrics) -> (r: Vec<RateSample>)
    ensures
        r@.map_values(|s: RateSample| sample_view(s)) == disk_samples(disk.devices@)
            + network_samples(network.interfaces@),
{
    let mut out: Vec<RateSample> = Vec::new();
    let mut i: usize = 0;
    while i < disk.devices.len()
        invariant
            i <= disk.devices@.len(),
            out@.map_values(|s: RateSample| sample_view(s)) == disk_samples(
                disk.devices@.take(i as int),
            ),
        decreases disk.devices.len() - i,
    {
        let d = &disk.devices[i];
        out.push(
            RateSample {
                metric: HistoryMetric::DiskRead,
                interface: d.name.clone(),
                bytes_per_sec: d.read_bytes_per_sec,
            },
        );
        out.push(
            RateSample {
                metric: HistoryMetric::DiskWrite,
                interface: d.name.clone(),
                bytes_per_sec: d.write_bytes_per_sec,
            },
        );
        assert(disk.devices@.take(i + 1).drop_last() =~= disk.devices@.take(i as int));
        i = i + 1;
        assert(out@.map_values(|s: RateSample| sample_view(s)) =~= disk_samples(
            disk.devices@.take(i as int),
        ));
    }
    assert(disk.devices@.take(disk.devices@.len() as int) =~= disk.devices@);
    let ghost disk_part = disk_samples(disk.devices@);
    let mut j: usize = 0;
    while j < network.interfaces.len()
        invariant
            j <= network.interfaces@.len(),
            out@.map_values(|s: RateSample| sample_view(s)) == disk_part + network_samples(
                network.interfaces@.take(j as int),
            ),
        decreases network.interfaces.len() - j,
    {
        let n = &network.interfaces[j];
        out.push(
            RateSample {
                metric: HistoryMetric::NetIn,
                interface: n.name.clone(),
                bytes_per_sec: n.rx_bytes_per_sec,
            },
        );
        out.push(
            RateSample {
                metric: HistoryMetric::NetOut,
                interface: n.name.clone(),
                bytes_per_sec: n.tx_bytes_per_sec,
            },
        );
        let ghost prefix = network.interfaces@.take(j as int);
        assert(network.interfaces@.take(j + 1).drop_last() =~= prefix);
        assert(network_samples(network.interfaces@.take(j + 1)) == network_samples(prefix) + seq![
            (HistoryMetric::NetIn, n.name@, n.rx_bytes_per_sec),
            (HistoryMetric::NetOut, n.name@, n.tx_bytes_per_sec),
        ]);
        assert(disk_part + network_samples(network.interfaces@.take(j + 1)) =~= (disk_part
            + network_samples(prefix)) + seq![
            (HistoryMetric::NetIn, n.name@, n.rx_bytes_per_sec),
            (HistoryMetric::NetOut, n.name@, n.tx_bytes_per_sec),
        ]);
        j = j + 1;
        assert(out@.map_values(|s: RateSample| sample_view(s)) =~= disk_part + network_samples(
            network.interfaces@.take(j as int),
        ));
    }
    assert(network.interfaces@.take(network.interfaces@.len() as int) =~= network.interfaces@);
    out
}

/// The disk samples hold two entries per device, in device order: at `2i`
/// the read rate and at `2i + 1` the write rate of device `i`, each under
/// the device's name.
pub proof fn law_disk_samples_per_device(devices: Seq<DiskDevice>)
    ensures
        disk_samples(devices).len() == 2 * devices.len(),
        forall|i: int|
            0 <= i < devices.len() ==> #[trigger] disk_samples(devices)[2 * i] == (
                HistoryMetric::DiskRead,
                devices[i].name@,
                devices[i].read_bytes_per_sec,
            ) && disk_samples(devices)[2 * i + 1] == (
                HistoryMetric::DiskWrite,
                devices[i].name@,
                devices[i].write_bytes_per_sec,
            ),
    decreases devices.len(),
{
    if devices.len() > 0 {
        let rest = devices.drop_last();
        law_disk_samples_per_device(rest);
        assert forall|i: int| 0 <= i < devices.len() implies #[trigger] disk_samples(devices)[2
            * i] == (HistoryMetric::DiskRead, devices[i].name@, devices[i].read_bytes_per_sec)
            && disk_samples(devices)[2 * i + 1] == (
            HistoryMetric::DiskWrite,
            devices[i].name@,
            devices[i].write_bytes_per_sec,
        ) by {
            if i < rest.len() {
                assert(rest[i] == devices[i]);
                assert(disk_samples(rest)[2 * i] == (HistoryMetric::DiskRead, rest[i].name@, rest[i].read_bytes_per_sec));
            }
        }
    }
}

/// The network samples hold two entries per interface, in interface order:
/// at `2i` the receive rate and at `2i + 1` the send rate of interface `i`,
/// each under the interface's name.
pub proof fn law_network_samples_per_interface(interfaces: Seq<NetworkInterface>)
    ensures
        network_samples(interfaces).len() == 2 * interfaces.len(),
        forall|i: int|
            0 <= i < interfaces.len() ==> #[trigger] network_samples(interfaces)[2 * i] == (
                HistoryMetric::NetIn,
                interfaces[i].name@,
                interfaces[i].rx_bytes_per_sec,
            ) && network_samples(interfaces)[2 * i + 1] == (
                HistoryMetric::NetOut,
                interfaces[i].name@,
                interfaces[i].tx_bytes_per_sec,
            ),
    decreases interfaces.len(),
{
    if interfaces.len() > 0 {
        let rest = interfaces.drop_last();
        law_network_samples_per_interface(rest);
        assert forall|i: int| 0 <= i < interfaces.len() implies #[trigger] network_samples(
            interfaces,
        )[2 * i] == (HistoryMetric::NetIn, interfaces[i].name@, interfaces[i].rx_bytes_per_sec)
            && network_samples(interfaces)[2 * i + 1] == (
            HistoryMetric::NetOut,
            interfaces[i].name@,
            interfaces[i].tx_bytes_per_sec,
        ) by {
            if i < rest.len() {
                assert(rest[i] == interfaces[i]);
                assert(network_samples(rest)[2 * i] == (HistoryMetric::NetIn, rest[i].name@, rest[i].rx_bytes_per_sec));
            }
        }
    }
}

/// The highest disk write rate is at least the write rate of every device,
/// and it is the write rate of one of them when there is any device (0
/// otherwise).
pub proof fn law_max_disk_write(devices: Seq<DiskDevice>)
    ensures
        forall|i: int|
            0 <= i < devices.len() ==> devices[i].write_bytes_per_sec <= seq_max(
                write_rates(devices),
            ),
        devices.len() > 0 ==> exists|i: int|
            0 <= i < devices.len() && seq_max(write_rates(devices))
                == #[trigger] devices[i].write_bytes_per_sec,
        devices.len() == 0 ==> seq_max(write_rates(devices)) == 0,
{
    let rates = write_rates(devices);
    law_max_of_bounds(rates);
    assert forall|i: int| 0 <= i < devices.len() implies devices[i].write_bytes_per_sec <= seq_max(
        rates,
    ) by {
        assert(rates[i] == devices[i].write_bytes_per_sec);
    }
    if devices.len() > 0 {
        let m = seq_max(rates);
        if m == 0 {
            assert(rates[0] <= m);
            assert(devices[0].write_bytes_per_sec == m);
        } else {
            let j = choose|j: int| 0 <= j < rates.len() && rates[j] == m;
            assert(devices[j].write_bytes_per_sec == m);
        }
    } else {
        assert(rates.len() == 0);
    }
}

/// The highest network receive rate is at least the receive rate of every
/// interface, and it is the receive rate of one of them when there is any
/// interface (0 otherwise).
pub proof fn law_max_net_in(interfaces: Seq<NetworkInterface>)
    ensures
        forall|i: int|
            0 <= i < interfaces.len() ==> interfaces[i].rx_bytes_per_sec <= seq_max(
                receive_rates(interfaces),
            ),
        interfaces.len() > 0 ==> exists|i: int|
            0 <= i < interfaces.len() && seq_max(receive_rates(interfaces))
                == #[trigger] interfaces[i].rx_bytes_per_sec,
        interfaces.len() == 0 ==> seq_max(receive_rates(interfaces)) == 0,
{
    let rates = receive_rates(interfaces);
    law_max_of_bounds(rates);
    assert forall|i: int| 0 <= i < interfaces.len() implies interfaces[i].rx_bytes_per_sec
        <= seq_max(rates) by {
        assert(rates[i] == interfaces[i].rx_bytes_per_sec);
    }
    if interfaces.len() > 0 {
        let m = seq_max(rates);
        if m == 0 {
            assert(rates[0] <= m);
            assert(interfaces[0].rx_bytes_per_sec == m);
        } else {
            let j = choose|j: int| 0 <= j < rates.len() && rates[j] == m;
            assert(interfaces[j].rx_bytes_per_sec == m);
        }
    } else {
        assert(rates.len() == 0);
    }
}

/// The history's metric names are `cpu`, `memory`, `disk_read`,
/// `disk_write`, `net_in` and `net_out`, one per metric and all different.
pub proof fn law_metric_names(a: HistoryMetric, b: HistoryMetric)
    ensures
        spec_metric_name(HistoryMetric::Cpu) == "cpu"@,
        spec_metric_name(HistoryMetric::Memory) == "memory"@,
        spec_metric_name(HistoryMetric::DiskRead) == "disk_read"@,
        spec_metric_name(HistoryMetric::DiskWrite) == "disk_write"@,
        spec_metric_name(HistoryMetric::NetIn) == "net_in"@,
        spec_metric_name(HistoryMetric::NetOut) == "net_out"@,
        a != b ==> spec_metric_name(a) != spec_metric_name(b),
{
    reveal_strlit("cpu");
    reveal_strlit("memory");
    reveal_strlit("disk_read");
    reveal_strlit("disk_write");
    reveal_strlit("net_in");
    reveal_strlit("net_out");
    assert(spec_metric_name(HistoryMetric::Cpu) =~= "cpu"@);
    assert(spec_metric_name(HistoryMetric::Memory) =~= "memory"@);
    assert(spec_metric_name(HistoryMetric::DiskRead) =~= "disk_read"@);
    assert(spec_metric_name(HistoryMetric::DiskWrite) =~= "disk_write"@);
    assert(spec_metric_name(HistoryMetric::NetIn) =~= "net_in"@);
    assert(spec_metric_name(HistoryMetric::NetOut) =~= "net_out"@);
    if a != b {
        let sa = spec_metric_name(a);
        let sb = spec_metric_name(b);
        if sa.len() == sb.len() {
            assert(sa[0] != sb[0] || sa[4] != sb[4]);
        }
    }
}

} // verus!

//! The integer part of a stats sample: how much CPU time and system time
//! passed, the memory in use net of the page cache, and the network totals.
//! Turning these into percentages and megabytes is floating point and is done
//! beside the library.
use vstd::prelude::*;

verus! {

/// The counters a stats sample reports, as far as they are present.
#[derive(Debug, Clone, Default)]
pub struct StatsCounters {
    pub cpu_total: Option<u64>,
    pub precpu_total: Option<u64>,
    pub system_cpu: Option<u64>,
    pub presystem_cpu: Option<u64>,
    pub online_cpus: Option<u32>,
    pub num_procs: Option<u32>,
    pub memory_usage: Option<u64>,
    /// The page-cache counters, in the order they are preferred.
    pub total_inactive_file: Option<u64>,
    pub inactive_file: Option<u64>,
    pub cache: Option<u64>,
    pub memory_limit: Option<u64>,
    /// The byte counters of each network interface.
    pub networks: Option<Vec<NetCounters>>,
}

/// Received and sent bytes of a network interface.
#[derive(Debug, Clone, Copy, Default)]
pub struct NetCounters {
    pub rx_bytes: Option<u64>,
    pub tx_bytes: Option<u64>,
}

/// What a sample amounts to.
#[derive(Debug, Clone, Copy, PartialEq, Eq, Structural)]
pub struct StatsTotals {
    pub cpu_delta: u64,
    pub system_delta: u64,
    pub cpus: u64,
    pub memory_bytes: u64,
    pub memory_limit: u64,
    pub net_rx: u64,
    pub net_tx: u64,
}

/// `x`, or `d` where it is absent.
pub open spec fn or_default(x: Option<u64>, d: u64) -> u64 {
    match x {
        Some(v) => v,
        None => d,
    }
}

/// `a - b`, or 0 where `b` is larger.
pub open spec fn sat_minus(a: u64, b: u64) -> u64 {
    if a >= b { (a - b) as u64 } else { 0 }
}

/// `a + b`, or `u64::MAX` where the sum does not fit.
pub open spec fn sat_plus(a: u64, b: u64) -> u64 {
    if a + b <= u64::MAX { (a + b) as u64 } else { u64::MAX }
}

/// The received and the sent totals over the interfaces, each added up
/// without overflowing.
pub open spec fn net_totals(nets: Seq<NetCounters>) -> (u64, u64)
    decreases nets.len(),
{
    if nets.len() == 0 {
        (0, 0)
    } else {
        let prev = net_totals(nets.drop_last());
        (sat_plus(prev.0, or_default(nets.last().rx_bytes, 0)), sat_plus(prev.1, or_default(nets.last().tx_bytes, 0)))
    }
}

/// The page cache: the first of the candidates that is present, else 0.
pub open spec fn spec_cache(s: StatsCounters) -> u64 {
    match s.total_inactive_file {
        Some(v) => v,
        None => match s.inactive_file {
            Some(v) => v,
            None => or_default(s.cache, 0),
        },
    }
}

/// What a sample amounts to.
pub open spec fn spec_totals(s: StatsCounters) -> StatsTotals {
    let nets = match s.networks {
        Some(n) => net_totals(n@),
        None => (0, 0),
    };
    StatsTotals {
        cpu_delta: sat_minus(or_default(s.cpu_total, 0), or_default(s.precpu_total, 0)),
        system_delta: sat_minus(or_default(s.system_cpu, 0), or_default(s.presystem_cpu, 0)),
        cpus: match s.online_cpus {
            Some(n) => n as u64,
            None => match s.num_procs {
                Some(n) => n as u64,
                None => 1,
            },
        },
        memory_bytes: sat_minus(or_default(s.memory_usage, 0), spec_cache(s)),
        memory_limit: or_default(s.memory_limit, 1),
        net_rx: nets.0,
        net_tx: nets.1,
    }
}

fn get_or(x: Option<u64>, d: u64) -> (r: u64)
    ensures
        r == or_default(x, d),
{
    match x {
        Some(v) => v,
        None => d,
    }
}

/// What a sample amounts to: the CPU and system time that passed since the
/// previous sample, the CPUs online (else the process count, else one), the
/// memory in use less the page cache, the memory limit (one where none is
/// reported), and the network totals.
pub fn stats_totals(s: &StatsCounters) -> (r: StatsTotals)
    ensures
        r == spec_totals(*s),
{
    let mut rx: u64 = 0;
    let mut tx: u64 = 0;
    match &s.networks {
        Some(nets) => {
            let mut i: usize = 0;
            assert(nets@.take(0) =~= Seq::<NetCounters>::empty());
            while i < nets.len()
                invariant
                    i <= nets@.len(),
                    (rx, tx) == net_totals(nets@.take(i as int)),
                decreases nets@.len() - i,
            {
                assert(nets@.take(i + 1).drop_last() =~= nets@.take(i as int));
                assert(nets@.take(i + 1).last() == nets@[i as int]);
                let n = nets[i];
                rx = rx.saturating_add(get_or(n.rx_bytes, 0));
                tx = tx.saturating_add(get_or(n.tx_bytes, 0));
                i = i + 1;
            }
            assert(nets@.take(i as int) =~= nets@);
        },
        None => {},
    }
    let cache = match s.total_inactive_file {
        Some(v) => v,
        None => match s.inactive_file {
            Some(v) => v,
            None => get_or(s.cache, 0),
        },
    };
    let cpus: u64 = match s.online_cpus {
        Some(n) => n as u64,
        None => match s.num_procs {
            Some(n) => n as u64,
            None => 1,
        },
    };
    StatsTotals {
        cpu_delta: get_or(s.cpu_total, 0).saturating_sub(get_or(s.precpu_total, 0)),
        system_delta: get_or(s.system_cpu, 0).saturating_sub(get_or(s.presystem_cpu, 0)),
        cpus,
        memory_bytes: get_or(s.memory_usage, 0).saturating_sub(cache),
        memory_limit: get_or(s.memory_limit, 1),
        net_rx: rx,
        net_tx: tx,
    }
}

} // verus!

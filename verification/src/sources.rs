//! The platform inventory: the hardware profile, the frequency tables of the
//! power manager, and the memory in use.

use crate::error::{Failure, WithError};
use crate::json::{
    as_str, from_str, get_element, get_member, parsed, strings, PathStep, Strings,
};
use crate::text::{
    ends_with, has_prefix, has_suffix, number, parse_u64, pieces, same_text, split, starts_with,
    string_from_utf8,
};
use vstd::prelude::*;
use vstd::string::StringSliceAdditionalSpecFns;
use vstd::utf8::*;

verus! {

/// The tool that prints the hardware profile.
pub const PROFILER: &'static str = "system_profiler";

/// The arguments that make the tool print the three sections as JSON.
pub const PROFILER_ARGS: [&'static str; 4] = [
    "SPHardwareDataType",
    "SPDisplaysDataType",
    "SPSoftwareDataType",
    "-json",
];

/// The service class under which the power manager is registered.
pub const POWER_SERVICE_CLASS: &'static str = "AppleARMIODevice";

/// The registry name of the power manager.
pub const POWER_MANAGER: &'static str = "pmgr";

/// The property that holds the efficiency cores' operating points.
pub const ECPU_STATES: &'static str = "voltage-states1-sram";

/// The property that holds the performance cores' operating points.
pub const PCPU_STATES: &'static str = "voltage-states5-sram";

/// The property that holds the GPU's operating points.
pub const GPU_STATES: &'static str = "voltage-states9";

/// The little-endian word that stands at `at` in `blob`.
pub open spec fn le32(blob: Seq<u8>, at: int) -> int {
    blob[at] as int + blob[at + 1] as int * 0x100 + blob[at + 2] as int * 0x1_0000 + blob[at
        + 3] as int * 0x100_0000
}

/// The voltages of a table of operating points: the second word of each
/// 8-byte record.
pub open spec fn dvfs_volts(blob: Seq<u8>) -> Seq<u32> {
    Seq::new((blob.len() / 8) as nat, |i: int| le32(blob, 8 * i + 4) as u32)
}

/// The frequencies of a table of operating points, in MHz: the first word of
/// each 8-byte record is the frequency in Hz.
pub open spec fn dvfs_freqs(blob: Seq<u8>) -> Seq<u32> {
    Seq::new((blob.len() / 8) as nat, |i: int| (le32(blob, 8 * i) / 1_000_000) as u32)
}

fn read_le32(blob: &[u8], at: usize) -> (v: u32)
    requires
        at + 4 <= blob@.len(),
    ensures
        v == le32(blob@, at as int),
{
    let b0: u32 = blob[at] as u32;
    let b1: u32 = blob[at + 1] as u32;
    let b2: u32 = blob[at + 2] as u32;
    let b3: u32 = blob[at + 3] as u32;
    b0 + b1 * 0x100 + b2 * 0x1_0000 + b3 * 0x100_0000
}

/// Decodes a table of operating points into its voltages and its frequencies
/// in MHz. Bytes after the last whole record are ignored.
pub fn get_dvfs_mhz(blob: &[u8]) -> (r: (Vec<u32>, Vec<u32>))
    ensures
        r.0@ == dvfs_volts(blob@),
        r.1@ == dvfs_freqs(blob@),
{
    let count: usize = blob.len() / 8;
    let mut volts: Vec<u32> = Vec::new();
    let mut freqs: Vec<u32> = Vec::new();
    let mut i: usize = 0;
    while i < count
        invariant
            i <= count,
            count == blob@.len() / 8,
            blob@.len() <= usize::MAX,
            volts@ == dvfs_volts(blob@).take(i as int),
            freqs@ == dvfs_freqs(blob@).take(i as int),
        decreases count - i,
    {
        let hz = read_le32(blob, 8 * i);
        let volt = read_le32(blob, 8 * i + 4);
        volts.push(volt);
        freqs.push(hz / 1000 / 1000);
        proof {
            assert(hz as int / 1000 / 1000 == hz as int / 1_000_000) by (nonlinear_arith);
            assert(volts@ =~= dvfs_volts(blob@).take(i + 1));
            assert(freqs@ =~= dvfs_freqs(blob@).take(i + 1));
        }
        i += 1;
    }
    assert(volts@ =~= dvfs_volts(blob@));
    assert(freqs@ =~= dvfs_freqs(blob@));
    (volts, freqs)
}

/// The text that came out of the profiler, as a JSON document.
///
/// Fails where the tool did not end well, printed something that is not
/// UTF-8, or printed something that is not JSON.
pub fn run_system_profiler(success: bool, stdout: Vec<u8>) -> (r: WithError<serde_json::Value>)
    ensures
        match r {
            Ok(doc) => success && valid_utf8(stdout@) && parsed(decode_utf8(stdout@)) == Some(
                strings(doc),
            ),
            Err(e) => e == Failure::SystemProfilerFailed && !(success && valid_utf8(stdout@)
                && parsed(decode_utf8(stdout@)) is Some),
        },
{
    if !success {
        return Err(Failure::SystemProfilerFailed);
    }
    match string_from_utf8(stdout) {
        None => Err(Failure::SystemProfilerFailed),
        Some(report) => match from_str(report.as_str()) {
            Ok(doc) => Ok(doc),
            Err(_) => Err(Failure::SystemProfilerFailed),
        },
    }
}

/// The way to the string at `name` in the first entry of `section`.
pub open spec fn way(section: Seq<char>, name: Seq<char>) -> Seq<PathStep> {
    seq![PathStep::Key(section), PathStep::At(0), PathStep::Key(name)]
}

/// The string at `name` in the first entry of `section`, if there is one.
pub open spec fn field(all: Strings, section: Seq<char>, name: Seq<char>) -> Option<Seq<char>> {
    if all.contains_key(way(section, name)) {
        Some(all[way(section, name)])
    } else {
        None
    }
}

fn lookup(doc: &serde_json::Value, section: &str, name: &str) -> (r: Option<String>)
    ensures
        match r {
            Some(s) => field(strings(*doc), section@, name@) == Some(s@),
            None => field(strings(*doc), section@, name@) is None,
        },
{
    let entries = get_member(doc, section);
    let first = get_element(entries, 0);
    let leaf = get_member(first, name);
    proof {
        let by_section = seq![PathStep::Key(section@)];
        let by_first = seq![PathStep::At(0)];
        let by_name = seq![PathStep::Key(name@)];
        assert(by_name + Seq::<PathStep>::empty() =~= by_name);
        assert(by_first + by_name =~= seq![PathStep::At(0), PathStep::Key(name@)]);
        assert(by_section + (by_first + by_name) =~= way(section@, name@));
    }
    match as_str(leaf) {
        Some(s) => Some(s.to_owned()),
        None => None,
    }
}

/// The bytes of ` GB`.
pub open spec fn gb_suffix() -> Seq<u8> {
    seq![0x20u8, 0x47u8, 0x42u8]
}

/// The bytes of `proc `.
pub open spec fn proc_prefix() -> Seq<u8> {
    seq![0x70u8, 0x72u8, 0x6Fu8, 0x63u8, 0x20u8]
}

/// A count as it is kept: its low eight bits.
pub open spec fn low_byte(n: u64) -> u8 {
    (n % 256) as u8
}

/// The memory size that `N GB` states, if the text has that form.
pub open spec fn memory_gb(t: Seq<u8>) -> Option<u8> {
    if has_suffix(t, gb_suffix()) {
        match number(t.take(t.len() - 3)) {
            Some(n) => Some(low_byte(n)),
            None => None,
        }
    } else {
        None
    }
}

/// The efficiency and performance core counts that `proc T:P:E` states, in
/// that order, if the text has that form.
pub open spec fn cpu_cores(t: Seq<u8>) -> Option<(u8, u8)> {
    let parts = pieces(t.skip(5), 0x3A);
    if has_prefix(t, proc_prefix()) && parts.len() == 3 && number(parts[0]) is Some && number(
        parts[1],
    ) is Some && number(parts[2]) is Some {
        Some((low_byte(number(parts[2])->0), low_byte(number(parts[1])->0)))
    } else {
        None
    }
}

/// The GPU core count that an optional number states: none where the text
/// is absent, and no count at all where the text is no number of eight bits.
pub open spec fn gpu_cores(t: Option<Seq<u8>>) -> Option<u8> {
    match t {
        None => Some(0u8),
        Some(t) => match number(t) {
            Some(n) => if n <= u8::MAX {
                Some(n as u8)
            } else {
                None
            },
            None => None,
        },
    }
}

fn truncate(n: u64) -> (b: u8)
    ensures
        b == low_byte(n),
{
    (n % 256) as u8
}

/// Reads a memory size of the form `N GB`.
pub fn parse_memory_gb(t: &str) -> (r: Option<u8>)
    ensures
        r == memory_gb(t.spec_bytes()),
{
    let bytes = t.as_bytes();
    let suffix: [u8; 3] = [0x20, 0x47, 0x42];
    assert(suffix@ =~= gb_suffix());
    if !ends_with(bytes, suffix.as_slice()) {
        return None;
    }
    let digits = vstd::slice::slice_subrange(bytes, 0, bytes.len() - 3);
    assert(digits@ =~= bytes@.take(bytes@.len() - 3));
    match parse_u64(digits) {
        Some(n) => Some(truncate(n)),
        None => None,
    }
}

/// Reads core counts of the form `proc T:P:E`: the efficiency cores, then
/// the performance cores.
pub fn parse_cpu_cores(t: &str) -> (r: Option<(u8, u8)>)
    ensures
        r == cpu_cores(t.spec_bytes()),
{
    let bytes = t.as_bytes();
    let prefix: [u8; 5] = [0x70, 0x72, 0x6F, 0x63, 0x20];
    assert(prefix@ =~= proc_prefix());
    if !starts_with(bytes, prefix.as_slice()) {
        return None;
    }
    let rest = vstd::slice::slice_subrange(bytes, 5, bytes.len());
    assert(rest@ =~= bytes@.skip(5));
    let parts = split(rest, 0x3A);
    let ghost cut = pieces(bytes@.skip(5), 0x3A);
    assert(parts@.len() == cut.len());
    if parts.len() != 3 {
        return None;
    }
    assert(parts@[0]@ == cut[0] && parts@[1]@ == cut[1] && parts@[2]@ == cut[2]) by {
        let views = parts@.map_values(|p: Vec<u8>| p@);
        assert(views[0] == parts@[0]@ && views[1] == parts@[1]@ && views[2] == parts@[2]@);
    }
    let total = parse_u64(parts[0].as_slice());
    let pcpu = parse_u64(parts[1].as_slice());
    let ecpu = parse_u64(parts[2].as_slice());
    match (total, pcpu, ecpu) {
        (Some(_), Some(p), Some(e)) => Some((truncate(e), truncate(p))),
        _ => None,
    }
}

/// Reads an optional GPU core count, as `u8::from_str` reads a number.
pub fn parse_gpu_cores(t: Option<&str>) -> (r: Option<u8>)
    ensures
        r == gpu_cores(
            match t {
                Some(t) => Some(t.spec_bytes()),
                None => None,
            },
        ),
{
    match t {
        None => Some(0),
        Some(t) => match parse_u64(t.as_bytes()) {
            Some(n) => if n <= 255 {
                Some(n as u8)
            } else {
                None
            },
            None => None,
        },
    }
}

/// What the profile says of the machine.
#[derive(Debug, Clone)]
pub struct HardwareProfile {
    pub chip_name: String,
    pub mac_model: String,
    pub memory_gb: u8,
    pub ecpu_cores: u8,
    pub pcpu_cores: u8,
    pub gpu_cores: u8,
}

/// A [`HardwareProfile`] as a mathematical value.
pub struct HardwareProfileView {
    pub chip_name: Seq<char>,
    pub mac_model: Seq<char>,
    pub memory_gb: u8,
    pub ecpu_cores: u8,
    pub pcpu_cores: u8,
    pub gpu_cores: u8,
}

impl View for HardwareProfile {
    type V = HardwareProfileView;

    open spec fn view(&self) -> HardwareProfileView {
        HardwareProfileView {
            chip_name: self.chip_name@,
            mac_model: self.mac_model@,
            memory_gb: self.memory_gb,
            ecpu_cores: self.ecpu_cores,
            pcpu_cores: self.pcpu_cores,
            gpu_cores: self.gpu_cores,
        }
    }
}

/// The bytes of an optional text.
pub open spec fn bytes_of(t: Option<Seq<char>>) -> Option<Seq<u8>> {
    match t {
        Some(t) => Some(encode_utf8(t)),
        None => None,
    }
}

/// What the strings of a report say of the machine, where they give the
/// chip, the model, the memory size and the processor counts in their forms,
/// and a GPU core count that is a number of eight bits or absent.
pub open spec fn profile_of(all: Strings) -> Option<HardwareProfileView> {
    let chip = field(all, "SPHardwareDataType"@, "chip_type"@);
    let model = field(all, "SPHardwareDataType"@, "machine_model"@);
    let memory = field(all, "SPHardwareDataType"@, "physical_memory"@);
    let procs = field(all, "SPHardwareDataType"@, "number_processors"@);
    let gpu = field(all, "SPDisplaysDataType"@, "sppci_cores"@);
    let cores = cpu_cores(encode_utf8(procs->0))->Some_0;
    if chip is Some && model is Some && memory is Some && procs is Some && memory_gb(
        encode_utf8(memory->0),
    ) is Some && cpu_cores(encode_utf8(procs->0)) is Some && gpu_cores(bytes_of(gpu)) is Some {
        Some(
            HardwareProfileView {
                chip_name: chip->0,
                mac_model: model->0,
                memory_gb: memory_gb(encode_utf8(memory->0))->0,
                ecpu_cores: cores.0,
                pcpu_cores: cores.1,
                gpu_cores: gpu_cores(bytes_of(gpu))->0,
            },
        )
    } else {
        None
    }
}

impl HardwareProfile {
    /// Picks the machine's description out of a report; nothing where the
    /// report lacks a field or a field does not have its form.
    pub fn read(doc: &serde_json::Value) -> (r: Option<HardwareProfile>)
        ensures
            match r {
                Some(p) => profile_of(strings(*doc)) == Some(p@),
                None => profile_of(strings(*doc)) is None,
            },
    {
        let chip = lookup(doc, "SPHardwareDataType", "chip_type");
        let model = lookup(doc, "SPHardwareDataType", "machine_model");
        let memory = lookup(doc, "SPHardwareDataType", "physical_memory");
        let procs = lookup(doc, "SPHardwareDataType", "number_processors");
        let gpu = lookup(doc, "SPDisplaysDataType", "sppci_cores");
        let (chip_name, mac_model, memory, procs) = match (chip, model, memory, procs) {
            (Some(c), Some(m), Some(g), Some(p)) => (c, m, g, p),
            _ => { return None; },
        };
        let memory_gb = match parse_memory_gb(memory.as_str()) {
            Some(n) => n,
            None => { return None; },
        };
        let (ecpu_cores, pcpu_cores) = match parse_cpu_cores(procs.as_str()) {
            Some(c) => c,
            None => { return None; },
        };
        let gpu_cores = match &gpu {
            Some(g) => parse_gpu_cores(Some(g.as_str())),
            None => parse_gpu_cores(None),
        };
        match gpu_cores {
            Some(gpu_cores) => Some(
                HardwareProfile {
                    chip_name,
                    mac_model,
                    memory_gb,
                    ecpu_cores,
                    pcpu_cores,
                    gpu_cores,
                },
            ),
            None => None,
        }
    }
}

/// The three tables of operating points that one power-manager entry holds,
/// as the registry gives them.
#[derive(Debug, Clone)]
pub struct DvfsTables {
    /// The blob under [`ECPU_STATES`].
    pub ecpu: Vec<u8>,
    /// The blob under [`PCPU_STATES`].
    pub pcpu: Vec<u8>,
    /// The blob under [`GPU_STATES`].
    pub gpu: Vec<u8>,
}

/// The inventory of the machine.
#[derive(Debug, Clone)]
pub struct SocInfo {
    pub mac_model: String,
    pub chip_name: String,
    pub memory_gb: u8,
    pub ecpu_cores: u8,
    pub pcpu_cores: u8,
    pub ecpu_freqs: Vec<u32>,
    pub pcpu_freqs: Vec<u32>,
    pub gpu_cores: u8,
    pub gpu_freqs: Vec<u32>,
}

/// A [`SocInfo`] as a mathematical value.
pub struct SocInfoView {
    pub mac_model: Seq<char>,
    pub chip_name: Seq<char>,
    pub memory_gb: u8,
    pub ecpu_cores: u8,
    pub pcpu_cores: u8,
    pub ecpu_freqs: Seq<u32>,
    pub pcpu_freqs: Seq<u32>,
    pub gpu_cores: u8,
    pub gpu_freqs: Seq<u32>,
}

impl View for SocInfo {
    type V = SocInfoView;

    open spec fn view(&self) -> SocInfoView {
        SocInfoView {
            mac_model: self.mac_model@,
            chip_name: self.chip_name@,
            memory_gb: self.memory_gb,
            ecpu_cores: self.ecpu_cores,
            pcpu_cores: self.pcpu_cores,
            ecpu_freqs: self.ecpu_freqs@,
            pcpu_freqs: self.pcpu_freqs@,
            gpu_cores: self.gpu_cores,
            gpu_freqs: self.gpu_freqs@,
        }
    }
}

/// The frequencies that the power-manager entries give for one kind of core:
/// those of the last entry, none where there is no entry.
pub open spec fn last_freqs(blobs: Seq<Seq<u8>>) -> Seq<u32> {
    if blobs.len() == 0 {
        Seq::empty()
    } else {
        dvfs_freqs(blobs.last())
    }
}

/// The inventory that a profile and the power-manager entries make.
pub open spec fn inventory(profile: HardwareProfileView, tables: Seq<DvfsTables>) -> SocInfoView {
    SocInfoView {
        mac_model: profile.mac_model,
        chip_name: profile.chip_name,
        memory_gb: profile.memory_gb,
        ecpu_cores: profile.ecpu_cores,
        pcpu_cores: profile.pcpu_cores,
        ecpu_freqs: last_freqs(tables.map_values(|t: DvfsTables| t.ecpu@)),
        pcpu_freqs: last_freqs(tables.map_values(|t: DvfsTables| t.pcpu@)),
        gpu_cores: profile.gpu_cores,
        gpu_freqs: last_freqs(tables.map_values(|t: DvfsTables| t.gpu@)),
    }
}

/// Whether a registry entry of this name is the power manager.
pub fn is_power_manager(name: &str) -> (yes: bool)
    ensures
        yes == (name@ == POWER_MANAGER@),
{
    same_text(name, POWER_MANAGER)
}

/// Puts the inventory together from the profile and the tables of every
/// power-manager entry, in the order in which the registry listed them.
///
/// Fails where the efficiency or the performance cores end up without
/// frequencies.
pub fn get_soc_info(profile: HardwareProfile, tables: &Vec<DvfsTables>) -> (r: WithError<SocInfo>)
    ensures
        match r {
            Ok(info) => info@ == inventory(profile@, tables@) && info@.ecpu_freqs.len() > 0
                && info@.pcpu_freqs.len() > 0,
            Err(e) => e == Failure::SocInfoIncomplete && (inventory(
                profile@,
                tables@,
            ).ecpu_freqs.len() == 0 || inventory(profile@, tables@).pcpu_freqs.len() == 0),
        },
{
    let mut info = SocInfo {
        mac_model: profile.mac_model,
        chip_name: profile.chip_name,
        memory_gb: profile.memory_gb,
        ecpu_cores: profile.ecpu_cores,
        pcpu_cores: profile.pcpu_cores,
        ecpu_freqs: Vec::new(),
        pcpu_freqs: Vec::new(),
        gpu_cores: profile.gpu_cores,
        gpu_freqs: Vec::new(),
    };
    let mut i: usize = 0;
    while i < tables.len()
        invariant
            i <= tables@.len(),
            info@ == inventory(profile@, tables@.take(i as int)),
        decreases tables@.len() - i,
    {
        info.ecpu_freqs = get_dvfs_mhz(tables[i].ecpu.as_slice()).1;
        info.pcpu_freqs = get_dvfs_mhz(tables[i].pcpu.as_slice()).1;
        info.gpu_freqs = get_dvfs_mhz(tables[i].gpu.as_slice()).1;
        proof {
            let seen = tables@.take(i + 1);
            assert(seen.last() == tables@[i as int]);
            assert(seen.map_values(|t: DvfsTables| t.ecpu@).last() == tables@[i as int].ecpu@);
            assert(seen.map_values(|t: DvfsTables| t.pcpu@).last() == tables@[i as int].pcpu@);
            assert(seen.map_values(|t: DvfsTables| t.gpu@).last() == tables@[i as int].gpu@);
        }
        i += 1;
    }
    assert(tables@.take(i as int) =~= tables@);
    if info.ecpu_freqs.len() == 0 || info.pcpu_freqs.len() == 0 {
        return Err(Failure::SocInfoIncomplete);
    }
    Ok(info)
}

impl SocInfo {
    /// The inventory of the machine: see [`get_soc_info`].
    pub fn new(profile: HardwareProfile, tables: &Vec<DvfsTables>) -> (r: WithError<SocInfo>)
        ensures
            match r {
                Ok(info) => info@ == inventory(profile@, tables@) && info@.ecpu_freqs.len() > 0
                    && info@.pcpu_freqs.len() > 0,
                Err(e) => e == Failure::SocInfoIncomplete && (inventory(
                    profile@,
                    tables@,
                ).ecpu_freqs.len() == 0 || inventory(profile@, tables@).pcpu_freqs.len() == 0),
            },
    {
        get_soc_info(profile, tables)
    }
}

/// The page counts of the kernel's memory statistics that the memory in use
/// is made of.
#[derive(Debug, Clone, Copy, PartialEq, Eq, Structural)]
pub struct VmStatistics {
    pub active_count: u32,
    pub inactive_count: u32,
    pub wire_count: u32,
    pub speculative_count: u32,
    pub compressor_page_count: u32,
    pub purgeable_count: u32,
    pub external_page_count: u32,
}

/// The pages in use: active, inactive, wired, speculative and compressor
/// pages, without the purgeable and the file-backed ones.
pub open spec fn used_pages(stats: VmStatistics) -> int {
    stats.active_count + stats.inactive_count + stats.wire_count + stats.speculative_count
        + stats.compressor_page_count - stats.purgeable_count - stats.external_page_count
}

/// The memory in use and the memory installed, both in bytes.
///
/// `page_size` is the size of a page in bytes, as `sysconf` gives it, so the
/// usage is a number of bytes.
pub fn libc_ram(total: u64, stats: &VmStatistics, page_size: u64) -> (r: (u64, u64))
    requires
        0 <= used_pages(*stats),
        used_pages(*stats) * page_size <= u64::MAX,
    ensures
        r.0 == used_pages(*stats) * page_size,
        r.1 == total,
{
    let pages: u64 = stats.active_count as u64 + stats.inactive_count as u64
        + stats.wire_count as u64 + stats.speculative_count as u64
        + stats.compressor_page_count as u64 - stats.purgeable_count as u64
        - stats.external_page_count as u64;
    (pages * page_size, total)
}

/// Whether [`libc_ram`] can work on these numbers: the pages in use are not
/// fewer than none, and their size in bytes fits 64 bits.
pub fn ram_is_countable(stats: &VmStatistics, page_size: u64) -> (yes: bool)
    ensures
        yes == (0 <= used_pages(*stats) && used_pages(*stats) * page_size <= u64::MAX),
{
    let plus: u64 = stats.active_count as u64 + stats.inactive_count as u64
        + stats.wire_count as u64 + stats.speculative_count as u64
        + stats.compressor_page_count as u64;
    let minus: u64 = stats.purgeable_count as u64 + stats.external_page_count as u64;
    if plus < minus {
        return false;
    }
    (plus - minus).checked_mul(page_size).is_some()
}

} // verus!

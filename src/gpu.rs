//! Graphics usage: which vendor's tools to use, and reading each vendor's
//! kernel attributes and tool output. Usage is kept in hundredths of a
//! percent.

use vstd::prelude::*;
use crate::text::{
    chars_of, contains, contains_str, find, find_str, lines, lines_of,
    parse_scaled, parse_scaled_spec, starts_with, starts_with_str, string_texts, substring, trim,
    trim_str, words, words_of,
};

verus! {

/// Graphics vendors whose usage can be read.
#[derive(Clone, Copy, Debug, PartialEq, Eq, Structural)]
pub enum GpuVendor {
    /// Read with `nvidia-smi`.
    Nvidia,
    /// Read from `gpu_busy_percent`, or with `radeontop`.
    Amd,
    /// Read from the frequency attributes, or with `intel_gpu_top`.
    Intel,
    /// No supported graphics device.
    Unsupported,
}

/// Which vendor tools are installed.
#[derive(Clone, Copy, Debug, PartialEq, Eq, Structural)]
pub struct ToolProbe {
    pub nvidia_smi: bool,
    pub radeontop: bool,
    pub rocm_smi: bool,
    pub intel_gpu_top: bool,
}

/// An entry of the graphics device directory with one attribute read from
/// it (a driver link target, or the contents of a file), where it could be
/// read.
pub struct DrmNode {
    pub name: String,
    pub data: Option<String>,
}

/// An entry of the graphics device directory with its current and maximum
/// frequency attributes, where they could be read.
pub struct DrmFreqNode {
    pub name: String,
    pub cur_freq: Option<String>,
    pub max_freq: Option<String>,
}

pub open spec fn opt_text(s: Option<String>) -> Option<Seq<char>> {
    match s {
        Some(x) => Some(x@),
        None => None,
    }
}

/// A card's device node (`card0`), not one of its connectors (`card0-DP-1`).
pub open spec fn card_node(name: Seq<char>) -> bool {
    starts_with(name, "card"@) && !contains(name, "-"@)
}

/// A card's device node (`card0`), not one of its connectors (`card0-DP-1`).
pub fn is_card_node(name: &str) -> (r: bool)
    ensures
        r == card_node(name@),
{
    starts_with_str(name, "card") && !contains_str(name, "-")
}

// ---------------------------------------------------------------------------
// Vendor detection
// ---------------------------------------------------------------------------

/// The vendor named by a card's driver link target, if any.
pub open spec fn driver_vendor(link: Seq<char>) -> Option<GpuVendor> {
    if contains(link, "amdgpu"@) {
        Some(GpuVendor::Amd)
    } else if contains(link, "i915"@) {
        Some(GpuVendor::Intel)
    } else {
        None
    }
}

/// The vendor that a node's driver link names, for a card node.
pub open spec fn node_vendor(n: DrmNode) -> Option<GpuVendor> {
    if card_node(n.name@) {
        match opt_text(n.data) {
            Some(link) => driver_vendor(link),
            None => None,
        }
    } else {
        None
    }
}

/// The vendor of the first card node, from index `i` on, whose driver link
/// names one.
pub open spec fn vendor_from_nodes(nodes: Seq<DrmNode>, i: int) -> GpuVendor
    decreases nodes.len() - i,
{
    if i < 0 || i >= nodes.len() {
        GpuVendor::Unsupported
    } else if node_vendor(nodes[i]) is Some {
        node_vendor(nodes[i])->0
    } else {
        vendor_from_nodes(nodes, i + 1)
    }
}

/// The vendor chosen from the installed tools, in the order NVIDIA, AMD,
/// Intel, and otherwise from the card nodes' driver links.
pub open spec fn detected_vendor(tools: ToolProbe, nodes: Seq<DrmNode>) -> GpuVendor {
    if tools.nvidia_smi {
        GpuVendor::Nvidia
    } else if tools.radeontop || tools.rocm_smi {
        GpuVendor::Amd
    } else if tools.intel_gpu_top {
        GpuVendor::Intel
    } else {
        vendor_from_nodes(nodes, 0)
    }
}

fn driver_vendor_exec(link: &str) -> (r: Option<GpuVendor>)
    ensures
        r == driver_vendor(link@),
{
    if contains_str(link, "amdgpu") {
        Some(GpuVendor::Amd)
    } else if contains_str(link, "i915") {
        Some(GpuVendor::Intel)
    } else {
        None
    }
}

/// Picks the vendor whose usage will be read; `nodes` are the entries of the
/// graphics device directory, in directory order, with their driver link
/// targets.
pub fn detect_gpu_vendor(tools: ToolProbe, nodes: &Vec<DrmNode>) -> (r: GpuVendor)
    ensures
        r == detected_vendor(tools, nodes@),
{
    if tools.nvidia_smi {
        return GpuVendor::Nvidia;
    }
    if tools.radeontop || tools.rocm_smi {
        return GpuVendor::Amd;
    }
    if tools.intel_gpu_top {
        return GpuVendor::Intel;
    }
    let mut i: usize = 0;
    while i < nodes.len()
        invariant
            i <= nodes@.len(),
            !tools.nvidia_smi && !tools.radeontop && !tools.rocm_smi && !tools.intel_gpu_top,
            vendor_from_nodes(nodes@, 0) == vendor_from_nodes(nodes@, i as int),
        decreases nodes@.len() - i,
    {
        if is_card_node(nodes[i].name.as_str()) {
            if let Some(link) = &nodes[i].data {
                if let Some(v) = driver_vendor_exec(link.as_str()) {
                    return v;
                }
            }
        }
        i = i + 1;
    }
    GpuVendor::Unsupported
}

// ---------------------------------------------------------------------------
// Usage readings
// ---------------------------------------------------------------------------

/// A percentage written as a decimal number, with surrounding white space,
/// in hundredths.
pub open spec fn percent_text(t: Seq<char>) -> Option<u64> {
    parse_scaled_spec(trim(t), 2)
}

fn percent_exec(t: &str) -> (r: Option<u64>)
    ensures
        r == percent_text(t@),
{
    let tt = trim_str(t);
    parse_scaled(tt.as_str(), 2)
}

/// NVIDIA: the percentage that `nvidia-smi` printed, where it succeeded.
pub fn nvidia_usage(success: bool, stdout: &str) -> (r: Option<u64>)
    ensures
        r == if success {
            percent_text(stdout@)
        } else {
            None
        },
{
    if success {
        percent_exec(stdout)
    } else {
        None
    }
}

/// The busy percentage that a card node's attribute holds.
pub open spec fn node_busy(n: DrmNode) -> Option<u64> {
    if card_node(n.name@) {
        match opt_text(n.data) {
            Some(t) => percent_text(t),
            None => None,
        }
    } else {
        None
    }
}

/// The busy percentage of the first card node, from index `i` on, whose
/// attribute was read and holds a number.
pub open spec fn busy_from_nodes(nodes: Seq<DrmNode>, i: int) -> Option<u64>
    decreases nodes.len() - i,
{
    if i < 0 || i >= nodes.len() {
        None
    } else if node_busy(nodes[i]) is Some {
        node_busy(nodes[i])
    } else {
        busy_from_nodes(nodes, i + 1)
    }
}

/// AMD: the busy percentage of the first card node whose `gpu_busy_percent`
/// attribute was read and holds a number.
pub fn amd_sysfs_usage(nodes: &Vec<DrmNode>) -> (r: Option<u64>)
    ensures
        r == busy_from_nodes(nodes@, 0),
{
    let mut i: usize = 0;
    while i < nodes.len()
        invariant
            i <= nodes@.len(),
            busy_from_nodes(nodes@, 0) == busy_from_nodes(nodes@, i as int),
        decreases nodes@.len() - i,
    {
        if is_card_node(nodes[i].name.as_str()) {
            if let Some(t) = &nodes[i].data {
                let p = percent_exec(t.as_str());
                if p.is_some() {
                    return p;
                }
            }
        }
        i = i + 1;
    }
    None
}

/// The percentage on a `radeontop` line: its second word, ending in `%`.
pub open spec fn radeontop_line(line: Seq<char>) -> Option<u64> {
    let w = words(line);
    if contains(line, "gpu"@) && w.len() > 1 && w[1].len() > 0 && w[1].last() == '%' {
        parse_scaled_spec(w[1].drop_last(), 2)
    } else {
        None
    }
}

/// The first percentage that a line, from index `i` on, gives.
pub open spec fn radeontop_from(ls: Seq<Seq<char>>, i: int) -> Option<u64>
    decreases ls.len() - i,
{
    if i < 0 || i >= ls.len() {
        None
    } else if radeontop_line(ls[i]) is Some {
        radeontop_line(ls[i])
    } else {
        radeontop_from(ls, i + 1)
    }
}

fn radeontop_line_exec(line: &str) -> (r: Option<u64>)
    ensures
        r == radeontop_line(line@),
{
    if !contains_str(line, "gpu") {
        return None;
    }
    let w = words_of(line);
    if w.len() <= 1 {
        return None;
    }
    assert(string_texts(w@)[1] == w@[1]@);
    let second = w[1].as_str();
    let sv = chars_of(second);
    if sv.len() == 0 || sv[sv.len() - 1] != '%' {
        return None;
    }
    let number = substring(second, 0, sv.len() - 1);
    assert(number@ =~= second@.drop_last());
    parse_scaled(number.as_str(), 2)
}

/// AMD, from `radeontop`'s output where it succeeded: the percentage of the
/// first line that mentions `gpu` and gives one.
pub fn radeontop_usage(success: bool, stdout: &str) -> (r: Option<u64>)
    ensures
        r == if success {
            radeontop_from(lines(stdout@), 0)
        } else {
            None
        },
{
    if !success {
        return None;
    }
    let ls = lines_of(stdout);
    let ghost texts = string_texts(ls@);
    let mut i: usize = 0;
    while i < ls.len()
        invariant
            i <= ls@.len(),
            texts == string_texts(ls@),
            texts == lines(stdout@),
            success,
            radeontop_from(texts, 0) == radeontop_from(texts, i as int),
        decreases ls@.len() - i,
    {
        assert(texts[i as int] == ls@[i as int]@);
        let p = radeontop_line_exec(ls[i].as_str());
        if p.is_some() {
            return p;
        }
        i = i + 1;
    }
    None
}

/// Usage as the current frequency's share of the maximum, in hundredths of a
/// percent, where both read as numbers and the maximum is not zero; capped
/// at `u64::MAX`.
pub open spec fn freq_usage(cur: Seq<char>, max: Seq<char>) -> Option<u64> {
    match (percent_text(cur), percent_text(max)) {
        (Some(c), Some(m)) => if m > 0 {
            let u = c * 10000 / (m as int);
            Some(if u > u64::MAX {
                u64::MAX
            } else {
                u as u64
            })
        } else {
            None
        },
        _ => None,
    }
}

/// The usage that a card node's frequencies give.
pub open spec fn node_freq(n: DrmFreqNode) -> Option<u64> {
    if card_node(n.name@) {
        match (opt_text(n.cur_freq), opt_text(n.max_freq)) {
            (Some(c), Some(m)) => freq_usage(c, m),
            _ => None,
        }
    } else {
        None
    }
}

/// The usage of the first card node, from index `i` on, whose frequencies
/// were read and give one.
pub open spec fn freq_from_nodes(nodes: Seq<DrmFreqNode>, i: int) -> Option<u64>
    decreases nodes.len() - i,
{
    if i < 0 || i >= nodes.len() {
        None
    } else if node_freq(nodes[i]) is Some {
        node_freq(nodes[i])
    } else {
        freq_from_nodes(nodes, i + 1)
    }
}

fn freq_usage_exec(cur: &str, max: &str) -> (r: Option<u64>)
    ensures
        r == freq_usage(cur@, max@),
{
    let c = match percent_exec(cur) {
        Some(c) => c,
        None => return None,
    };
    let m = match percent_exec(max) {
        Some(m) => m,
        None => return None,
    };
    if m == 0 {
        return None;
    }
    let u = (c as u128 * 10000) / m as u128;
    if u > u64::MAX as u128 {
        Some(u64::MAX)
    } else {
        Some(u as u64)
    }
}

/// Intel: the usage of the first card node whose frequency attributes were
/// read and give one.
pub fn intel_sysfs_usage(nodes: &Vec<DrmFreqNode>) -> (r: Option<u64>)
    ensures
        r == freq_from_nodes(nodes@, 0),
{
    let mut i: usize = 0;
    while i < nodes.len()
        invariant
            i <= nodes@.len(),
            freq_from_nodes(nodes@, 0) == freq_from_nodes(nodes@, i as int),
        decreases nodes@.len() - i,
    {
        if is_card_node(nodes[i].name.as_str()) {
            if let (Some(c), Some(m)) = (&nodes[i].cur_freq, &nodes[i].max_freq) {
                let u = freq_usage_exec(c.as_str(), m.as_str());
                if u.is_some() {
                    return u;
                }
            }
        }
        i = i + 1;
    }
    None
}

/// What `char::is_numeric` says of a character.
pub uninterp spec fn numeric_char(c: char) -> bool;

/// Relies on `char::is_numeric`: whether `c` is in a Unicode numeric
/// category.
#[verifier::external_body]
fn is_numeric(c: char) -> (r: bool)
    ensures
        r == numeric_char(c),
{
    c.is_numeric()
}

/// The first index at or after `i` of a character that is neither numeric
/// nor `.`.
pub open spec fn number_end_from(s: Seq<char>, i: int) -> Option<int>
    decreases s.len() - i,
{
    if i < 0 || i >= s.len() {
        None
    } else if !numeric_char(s[i]) && s[i] != '.' {
        Some(i)
    } else {
        number_end_from(s, i + 1)
    }
}

/// Intel, from `intel_gpu_top`'s JSON output where it succeeded: the number
/// that starts one character after the first `"busy":` key, up to the first
/// character that is neither numeric nor `.` (there must be one).
pub open spec fn intel_busy(out: Seq<char>) -> Option<u64> {
    match find(out, "\"busy\":"@) {
        Some(k) => if k + 8 <= out.len() {
            match number_end_from(out, k + 8) {
                Some(e) => parse_scaled_spec(out.subrange(k + 8, e), 2),
                None => None,
            }
        } else {
            None
        },
        None => None,
    }
}

/// Intel, from `intel_gpu_top`'s output where it succeeded (see
/// `intel_busy`).
pub fn intel_gpu_top_usage(success: bool, stdout: &str) -> (r: Option<u64>)
    ensures
        r == if success {
            intel_busy(stdout@)
        } else {
            None
        },
{
    if !success {
        return None;
    }
    let k = match find_str(stdout, "\"busy\":") {
        Some(k) => k,
        None => return None,
    };
    let v = chars_of(stdout);
    if k > v.len() || v.len() - k < 8 {
        return None;
    }
    let from = k + 8;
    let mut e = from;
    while e < v.len()
        invariant
            from <= e <= v@.len(),
            v@ == stdout@,
            success,
            find(stdout@, "\"busy\":"@) == Some(k as int),
            from == k + 8,
            number_end_from(v@, from as int) == number_end_from(v@, e as int),
        decreases v@.len() - e,
    {
        if !is_numeric(v[e]) && v[e] != '.' {
            let number = substring(stdout, from, e);
            return parse_scaled(number.as_str(), 2);
        }
        e = e + 1;
    }
    None
}

} // verus!

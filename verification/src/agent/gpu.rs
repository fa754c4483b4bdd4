//! NVIDIA GPU discovery: reading what `nvidia-smi` prints.
use vstd::prelude::*;
use crate::agent::types::{devices_view, opt_text, GpuDevice, GpuDeviceView, GpuInfo, GpuInfoView};
use crate::numbers::{parse_unsigned, parse_u32, parse_u64};
use crate::text::{
    chars_of, contains_seq, copy_str, find_from, find_in, first_word, first_word_bounds, occurs_at,
    span_views, split_on, split_spans, string_of, trim, trim_bounds,
};

verus! {

/// The field list that the query asks `nvidia-smi` for, in the order in
/// which the rows of its answer hold them.
pub const GPU_QUERY_FIELDS: &'static str =
    "--query-gpu=name,memory.total,memory.used,memory.free,utilization.gpu,temperature.gpu,power.draw,power.limit,driver_version";

/// The output format asked for: bare comma-separated values.
pub const GPU_QUERY_FORMAT: &'static str = "--format=csv,noheader,nounits";

/// Arguments of the `nvidia-smi` query whose answer `gpu_rows` reads.
pub fn gpu_query_args() -> (r: Vec<String>)
    ensures
        r@.len() == 2,
        r@[0]@ == GPU_QUERY_FIELDS@,
        r@[1]@ == GPU_QUERY_FORMAT@,
{
    let mut r: Vec<String> = Vec::new();
    r.push(copy_str(GPU_QUERY_FIELDS));
    r.push(copy_str(GPU_QUERY_FORMAT));
    r
}

/// The lines of a command's output.
pub open spec fn lines_of(s: Seq<char>) -> Seq<Seq<char>> {
    split_on(s, '\n')
}

/// The trimmed comma-separated fields of a line.
pub open spec fn row_fields(line: Seq<char>) -> Seq<Seq<char>> {
    split_on(trim(line), ',').map_values(|f: Seq<char>| trim(f))
}

/// A line that describes one GPU: not blank, with at least nine fields.
pub open spec fn is_gpu_row(line: Seq<char>) -> bool {
    trim(line).len() > 0 && row_fields(line).len() >= 9
}

/// A field read as an unsigned number no larger than `max`, or zero.
pub open spec fn number_or_zero(f: Seq<char>, max: nat) -> nat {
    match parse_unsigned(f, max) {
        Some(n) => n,
        None => 0,
    }
}

/// The device that the fields of a GPU row describe: name, memory total,
/// used and free, utilization, temperature (when it reads as a number), and
/// the power draw and limit as reported.
pub open spec fn device_from_fields(p: Seq<Seq<char>>) -> GpuDeviceView {
    GpuDeviceView {
        name: p[0],
        memory_total_mib: number_or_zero(p[1], u64::MAX as nat) as u64,
        memory_used_mib: number_or_zero(p[2], u64::MAX as nat) as u64,
        memory_free_mib: number_or_zero(p[3], u64::MAX as nat) as u64,
        utilization_gpu_pct: number_or_zero(p[4], u32::MAX as nat) as u32,
        temperature_c: match parse_unsigned(p[5], u32::MAX as nat) {
            Some(n) => Some(n as u32),
            None => None,
        },
        power_draw_w: Some(p[6]),
        power_limit_w: Some(p[7]),
    }
}

/// The devices that the GPU rows among `lines` describe, in order.
pub open spec fn gpu_devices(lines: Seq<Seq<char>>) -> Seq<GpuDeviceView>
    decreases lines.len(),
{
    if lines.len() == 0 {
        Seq::empty()
    } else {
        let d = gpu_devices(lines.drop_last());
        if is_gpu_row(lines.last()) {
            d.push(device_from_fields(row_fields(lines.last())))
        } else {
            d
        }
    }
}

/// The driver version: the ninth field of the first GPU row where it is
/// not empty.
pub open spec fn driver_version(lines: Seq<Seq<char>>) -> Option<Seq<char>>
    decreases lines.len(),
{
    if lines.len() == 0 {
        None
    } else {
        let prev = driver_version(lines.drop_last());
        if prev is Some {
            prev
        } else if is_gpu_row(lines.last()) && row_fields(lines.last())[8].len() > 0 {
            Some(row_fields(lines.last())[8])
        } else {
            None
        }
    }
}

/// One GPU row read from `v[a..b]`: the device and its driver version field.
fn device_of_row(v: &Vec<char>, a: usize, b: usize) -> (r: Option<(GpuDevice, String)>)
    requires
        a <= b <= v.len(),
    ensures
        r is Some <==> is_gpu_row(v@.subrange(a as int, b as int)),
        r matches Some(x) ==> x.0@ == device_from_fields(row_fields(v@.subrange(a as int, b as int)))
            && x.1@ == row_fields(v@.subrange(a as int, b as int))[8],
{
    let ghost line = v@.subrange(a as int, b as int);
    let (ta, tb) = trim_bounds(v, a, b);
    if ta == tb {
        return None;
    }
    let spans = split_spans(v, ta, tb, ',');
    if spans.len() < 9 {
        return None;
    }
    let ghost fields = row_fields(line);
    let mut texts: Vec<String> = Vec::new();
    let mut k: usize = 0;
    while k < 9
        invariant
            k <= 9 <= spans.len(),
            a <= b <= v.len(),
            line == v@.subrange(a as int, b as int),
            v@.subrange(ta as int, tb as int) == trim(line),
            ta <= tb <= v.len(),
            forall|i: int| 0 <= i < spans.len() ==> ta <= #[trigger] spans@[i].start <= spans@[i].end <= tb,
            span_views(v@, spans@) == split_on(v@.subrange(ta as int, tb as int), ','),
            fields == row_fields(line),
            texts.len() == k,
            forall|i: int| 0 <= i < k ==> (#[trigger] texts@[i])@ == fields[i],
        decreases 9 - k,
    {
        let sp = &spans[k];
        let (fa, fb) = trim_bounds(v, sp.start, sp.end);
        proof {
            assert(span_views(v@, spans@)[k as int] == v@.subrange(sp.start as int, sp.end as int));
        }
        texts.push(string_of(v, fa, fb));
        k = k + 1;
    }
    let device = GpuDevice {
        name: texts[0].clone(),
        memory_total_mib: match parse_u64(texts[1].as_str()) {
            Some(n) => n,
            None => 0,
        },
        memory_used_mib: match parse_u64(texts[2].as_str()) {
            Some(n) => n,
            None => 0,
        },
        memory_free_mib: match parse_u64(texts[3].as_str()) {
            Some(n) => n,
            None => 0,
        },
        utilization_gpu_pct: match parse_u32(texts[4].as_str()) {
            Some(n) => n,
            None => 0,
        },
        temperature_c: parse_u32(texts[5].as_str()),
        power_draw_w: Some(texts[6].clone()),
        power_limit_w: Some(texts[7].clone()),
    };
    let driver = texts[8].clone();
    Some((device, driver))
}

/// The GPUs described by the answer to the `gpu_query_args` query, and the
/// driver version it reports.
pub fn gpu_rows(out: &str) -> (r: (Vec<GpuDevice>, Option<String>))
    ensures
        devices_view(r.0@) == gpu_devices(lines_of(out@)),
        opt_text(r.1) == driver_version(lines_of(out@)),
{
    let v = chars_of(out);
    assert(v@.subrange(0, v@.len() as int) =~= out@);
    let lines = split_spans(&v, 0, v.len(), '\n');
    let ghost ls = lines_of(out@);
    let mut devices: Vec<GpuDevice> = Vec::new();
    let mut driver: Option<String> = None;
    let mut i: usize = 0;
    while i < lines.len()
        invariant
            i <= lines.len(),
            v@ == out@,
            forall|j: int| 0 <= j < lines.len() ==> 0 <= #[trigger] lines@[j].start <= lines@[j].end <= v.len(),
            span_views(v@, lines@) == ls,
            devices_view(devices@) == gpu_devices(ls.take(i as int)),
            opt_text(driver) == driver_version(ls.take(i as int)),
        decreases lines.len() - i,
    {
        let sp = &lines[i];
        let ghost line = v@.subrange(sp.start as int, sp.end as int);
        proof {
            assert(ls[i as int] == line);
            assert(ls.take(i + 1).drop_last() =~= ls.take(i as int));
            assert(ls.take(i + 1).last() == line);
        }
        match device_of_row(&v, sp.start, sp.end) {
            Some((d, drv)) => {
                let ghost before = devices_view(devices@);
                devices.push(d);
                assert(devices_view(devices@) =~= before.push(device_from_fields(row_fields(line))));
                if driver.is_none() && !drv.as_str().is_empty() {
                    driver = Some(drv);
                }
            },
            None => {},
        }
        i = i + 1;
    }
    assert(ls.take(lines.len() as int) =~= ls);
    (devices, driver)
}

/// The text that precedes the CUDA version in `nvidia-smi`'s banner.
pub const CUDA_MARKER: &'static str = "CUDA Version";

/// The same text followed by a colon.
pub const CUDA_LABEL: &'static str = "CUDA Version:";

/// The index of the first of `lines[i..]` in which `p` occurs.
pub open spec fn first_line_with(lines: Seq<Seq<char>>, p: Seq<char>, i: int) -> Option<int>
    decreases lines.len() - i,
{
    if i < 0 || i >= lines.len() {
        None
    } else if contains_seq(lines[i], p) {
        Some(i)
    } else {
        first_line_with(lines, p, i + 1)
    }
}

/// What follows the first occurrence of `label` in `line`, up to its next
/// occurrence (the second piece of `line.split(label)`).
pub open spec fn piece_after(line: Seq<char>, label: Seq<char>) -> Option<Seq<char>> {
    match find_from(line, label, 0) {
        None => None,
        Some(i) => {
            let rest = line.subrange(i + label.len(), line.len() as int);
            match find_from(rest, label, 0) {
                Some(j) => Some(rest.take(j)),
                None => Some(rest),
            }
        },
    }
}

/// The CUDA version in `nvidia-smi`'s banner: the first word after
/// `CUDA Version:` on the first line that mentions `CUDA Version`.
pub open spec fn cuda_version(out: Seq<char>) -> Option<Seq<char>> {
    match first_line_with(lines_of(out), CUDA_MARKER@, 0) {
        None => None,
        Some(l) => match piece_after(lines_of(out)[l], CUDA_LABEL@) {
            None => None,
            Some(piece) => if first_word(piece).len() > 0 {
                Some(first_word(piece))
            } else {
                None
            },
        },
    }
}

/// Reads the CUDA version from `nvidia-smi`'s banner.
pub fn cuda_version_of(out: &str) -> (r: Option<String>)
    ensures
        opt_text(r) == cuda_version(out@),
{
    let v = chars_of(out);
    assert(v@.subrange(0, v@.len() as int) =~= out@);
    let lines = split_spans(&v, 0, v.len(), '\n');
    let ghost ls = lines_of(out@);
    let marker = chars_of(CUDA_MARKER);
    let label = chars_of(CUDA_LABEL);
    let mut i: usize = 0;
    while i < lines.len()
        invariant
            i <= lines.len(),
            v@ == out@,
            marker@ == CUDA_MARKER@,
            label@ == CUDA_LABEL@,
            ls == lines_of(out@),
            forall|j: int| 0 <= j < lines.len() ==> 0 <= #[trigger] lines@[j].start <= lines@[j].end <= v.len(),
            span_views(v@, lines@) == ls,
            first_line_with(ls, CUDA_MARKER@, 0) == first_line_with(ls, CUDA_MARKER@, i as int),
        decreases lines.len() - i,
    {
        let sp = &lines[i];
        proof {
            assert(ls[i as int] == v@.subrange(sp.start as int, sp.end as int));
        }
        match find_in(&v, sp.start, sp.end, &marker) {
            Some(_) => {
                let ghost line = v@.subrange(sp.start as int, sp.end as int);
                assert(first_line_with(ls, CUDA_MARKER@, i as int) == Some(i as int));
                let first = find_in(&v, sp.start, sp.end, &label);
                match first {
                    None => {
                        assert(piece_after(line, CUDA_LABEL@) is None);
                        assert(lines_of(out@)[i as int] == line);
                        assert(cuda_version(out@) is None);
                        return None;
                    },
                    Some(k) => {
                        proof {
                            lemma_find_from_found(line, label@, 0);
                        }
                        let from = sp.start + k + label.len();
                        proof {
                            let rest = line.subrange(k + label@.len(), line.len() as int);
                            assert(rest =~= v@.subrange(from as int, sp.end as int));
                        }
                        let second = find_in(&v, from, sp.end, &label);
                        proof {
                            if let Some(j) = second {
                                lemma_find_from_found(v@.subrange(from as int, sp.end as int), label@, 0);
                            }
                        }
                        let to = match second {
                            Some(j) => from + j,
                            None => sp.end,
                        };
                        proof {
                            let rest = v@.subrange(from as int, sp.end as int);
                            if let Some(j) = second {
                                lemma_find_from_found(rest, label@, 0);
                                assert(rest.take(j as int) =~= v@.subrange(from as int, to as int));
                            }
                        }
                        let (wa, wb) = first_word_bounds(&v, from, to);
                        if wa == wb {
                            return None;
                        }
                        return Some(string_of(&v, wa, wb));
                    },
                }
            },
            None => {
                assert(first_line_with(ls, CUDA_MARKER@, i as int) == first_line_with(
                    ls,
                    CUDA_MARKER@,
                    i + 1,
                ));
            },
        }
        i = i + 1;
    }
    None
}

/// A position that `find_from` finds is an occurrence at or after the start.
pub proof fn lemma_find_from_found(s: Seq<char>, p: Seq<char>, i: int)
    requires
        find_from(s, p, i) is Some,
    ensures
        occurs_at(s, p, find_from(s, p, i)->0),
        find_from(s, p, i)->0 >= i,
        find_from(s, p, i)->0 + p.len() <= s.len(),
    decreases s.len() + 1 - i,
{
    if !(i < 0 || i + p.len() > s.len()) && !occurs_at(s, p, i) {
        lemma_find_from_found(s, p, i + 1);
    }
}

/// The GPUs of the machine, from the answer to the `gpu_query_args` query
/// (`None` when the command could not run or failed) and from the banner
/// that `nvidia-smi` prints without arguments (`None` likewise). There is no
/// GPU information when the query lists no GPU.
pub fn detect_nvidia_gpu(query_output: Option<&str>, banner_output: Option<&str>) -> (r: Option<
    GpuInfo,
>)
    ensures
        match query_output {
            None => r is None,
            Some(q) => {
                let devs = gpu_devices(lines_of(q@));
                if devs.len() == 0 {
                    r is None
                } else {
                    r is Some && r->0@ == (GpuInfoView {
                        kind: "nvidia"@,
                        count: devs.len() as u32,
                        driver_version: driver_version(lines_of(q@)),
                        cuda_version: match banner_output {
                            Some(b) => cuda_version(b@),
                            None => None,
                        },
                        gpus: devs,
                    })
                }
            },
        },
{
    let q = match query_output {
        Some(q) => q,
        None => {
            return None;
        },
    };
    let (gpus, driver_version) = gpu_rows(q);
    if gpus.len() == 0 {
        return None;
    }
    let cuda_version = match banner_output {
        Some(b) => cuda_version_of(b),
        None => None,
    };
    let count = gpus.len() as u32;
    Some(GpuInfo { kind: copy_str("nvidia"), count, driver_version, cuda_version, gpus })
}

/// Whether the banner is needed: only when the query ran and listed a GPU,
/// since without one there is no GPU information to complete.
pub fn wants_cuda_banner(query_output: Option<&str>) -> (b: bool)
    ensures
        b == match query_output {
            Some(q) => gpu_devices(lines_of(q@)).len() > 0,
            None => false,
        },
{
    match query_output {
        Some(q) => {
            let (gpus, _) = gpu_rows(q);
            gpus.len() > 0
        },
        None => false,
    }
}

} // verus!

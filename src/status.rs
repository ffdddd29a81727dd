//! One status line from one sample of the telemetry: each metric becomes a
//! segment whose severity comes from comparing it with its thresholds.
use vstd::prelude::*;
use crate::color::color_code;
use crate::format::{
    decimal, hundredths_text, push_decimal, push_hundredths, round_div, round_div_nearest,
    round_div_u128,
};
use crate::line::{header_text, segment_text, Line};
use crate::options::AppOptions;
use crate::probe::{fs_view, CoreTemp, FileSysteUsage, SystemInfo};

verus! {

/// Bytes in a MiB.
pub open spec fn mib() -> nat {
    1048576
}

/// Scale of the kernel's fixed-point load averages: 2^16.
pub open spec fn load_scale() -> nat {
    65536
}

pub open spec fn ram_data(memory_free: u64) -> Seq<char> {
    "RAM Free: "@ + decimal(memory_free as nat / mib()) + " M"@
}

/// Free memory is below a threshold given in thousandths of a MiB.
pub open spec fn ram_below(memory_free: u64, t: u64) -> bool {
    memory_free as nat * 1000 < t as nat * mib()
}

/// A load average, in hundredths, rounded to the nearest.
pub open spec fn load_hundredths(v: u64) -> nat {
    round_div(v as nat * 100, load_scale())
}

pub open spec fn load_data(l1: u64, l5: u64) -> Seq<char> {
    "LoadAvg: "@ + hundredths_text(load_hundredths(l1)) + ", "@ + hundredths_text(
        load_hundredths(l5),
    )
}

/// A raw load value `v` is shown as `v / 2^16`: the hundredths shown are
/// within half a hundredth of `100 * v / 2^16`.
pub proof fn load_shown_scaled(v: u64)
    ensures
        2 * load_hundredths(v) * load_scale() <= 200 * v + load_scale(),
        200 * v <= 2 * load_hundredths(v) * load_scale() + load_scale(),
{
    round_div_nearest(v as nat * 100, load_scale());
}

/// A load average exceeds a threshold given in thousandths.
pub open spec fn load_above(v: u64, t: u64) -> bool {
    v as nat * 1000 > t as nat * load_scale()
}

/// The hottest reading, in millidegrees; zero where there is none.
pub open spec fn max_temp(s: Seq<i64>) -> i64
    decreases s.len(),
{
    if s.len() == 0 {
        0
    } else if s.len() == 1 {
        s[0]
    } else {
        let m = max_temp(s.drop_last());
        if s.last() > m {
            s.last()
        } else {
            m
        }
    }
}

/// Millidegrees as whole degrees, rounded to the nearest (ties to even),
/// with a minus sign for a reading below zero.
pub open spec fn degrees_text(m: i64) -> Seq<char> {
    if m < 0 {
        seq!['-'] + decimal(round_div((-m) as nat, 1000))
    } else {
        decimal(round_div(m as nat, 1000))
    }
}

pub open spec fn temp_data(m: i64) -> Seq<char> {
    "Core Temp.: "@ + degrees_text(m) + " ºC"@
}

/// A temperature reaches a threshold given in millidegrees.
pub open spec fn temp_reaches(m: i64, t: u64) -> bool {
    m as int >= t as int
}

/// Free share of a filesystem in percent, rounded to the nearest; an empty
/// filesystem counts as 0 % free.
pub open spec fn disk_percent(blocks: u64, free: u64) -> nat {
    if blocks == 0 {
        0
    } else {
        round_div(100 * free as nat, blocks as nat)
    }
}

/// The free share is below a threshold given in thousandths of a percent.
pub open spec fn disk_below(blocks: u64, free: u64, t: u64) -> bool {
    if blocks == 0 {
        0 < t
    } else {
        100000 * (free as nat) < (t as nat) * (blocks as nat)
    }
}

pub open spec fn disk_data(path: Seq<char>, blocks: u64, free: u64) -> Seq<char> {
    path + " = "@ + decimal(disk_percent(blocks, free)) + "% free"@
}

/// The segments of the filesystems, in order.
pub open spec fn disks_text(o: AppOptions, fss: Seq<(Seq<char>, u64, u64)>) -> Seq<char>
    decreases fss.len(),
{
    if fss.len() == 0 {
        Seq::empty()
    } else {
        let f = fss.last();
        disks_text(o, fss.drop_last()) + segment_text(
            disk_data(f.0, f.1, f.2),
            disk_below(f.1, f.2, o.disk_usage_warn_threshold),
            disk_below(f.1, f.2, o.disk_usage_alert_threshold),
            color_code(o.color_warn@),
            color_code(o.color_alert@),
        )
    }
}

/// The whole line for one sample: header, memory, load, temperature, then
/// one segment per filesystem, and three trailing spaces.
pub open spec fn status_text(
    o: AppOptions,
    info: SystemInfo,
    temps: Seq<i64>,
    fss: Seq<(Seq<char>, u64, u64)>,
) -> Seq<char> {
    let cw = color_code(o.color_warn@);
    let ca = color_code(o.color_alert@);
    let m = max_temp(temps);
    header_text(o.screen, o.align) + segment_text(
        ram_data(info.memory_free),
        ram_below(info.memory_free, o.memory_free_warn_threshold),
        ram_below(info.memory_free, o.memory_free_alert_threshold),
        cw,
        ca,
    ) + segment_text(
        load_data(info.load_1m, info.load_5m),
        load_above(info.load_1m, o.loadavg_warn_threshold) || load_above(
            info.load_5m,
            o.loadavg_warn_threshold,
        ),
        load_above(info.load_1m, o.loadavg_alert_threshold) || load_above(
            info.load_5m,
            o.loadavg_alert_threshold,
        ),
        cw,
        ca,
    ) + segment_text(
        temp_data(m),
        temp_reaches(m, o.cpu_temp_warn_threshold),
        temp_reaches(m, o.cpu_temp_alert_threshold),
        cw,
        ca,
    ) + disks_text(o, fss) + seq![' ', ' ', ' ']
}

/// The hottest of the readings, in millidegrees; zero for none.
pub fn hottest(temps: &Vec<CoreTemp>) -> (r: i64)
    ensures
        r == max_temp(temps@.map_values(|t: CoreTemp| t.input)),
{
    let ghost s = temps@.map_values(|t: CoreTemp| t.input);
    if temps.len() == 0 {
        return 0;
    }
    let mut m: i64 = temps[0].input;
    let mut i: usize = 1;
    assert(s.subrange(0, 1).len() == 1);
    while i < temps.len()
        invariant
            s == temps@.map_values(|t: CoreTemp| t.input),
            1 <= i <= temps@.len(),
            m == max_temp(s.subrange(0, i as int)),
        decreases temps@.len() - i,
    {
        assert(s.subrange(0, i + 1).drop_last() =~= s.subrange(0, i as int));
        if temps[i].input > m {
            m = temps[i].input;
        }
        i = i + 1;
    }
    assert(s.subrange(0, i as int) =~= s);
    m
}

fn ram_segment(memory_free: u64) -> (r: String)
    ensures
        r@ == ram_data(memory_free),
{
    proof {
        reveal_strlit("RAM Free: ");
        reveal_strlit(" M");
    }
    let mut r = String::from_str("RAM Free: ");
    push_decimal(&mut r, (memory_free / 1048576) as u128);
    r.append(" M");
    r
}

fn below_mib(memory_free: u64, t: u64) -> (r: bool)
    ensures
        r == ram_below(memory_free, t),
{
    (memory_free as u128) * 1000 < (t as u128) * 1048576
}

fn hundredths_of_load(v: u64) -> (r: u128)
    ensures
        r == load_hundredths(v),
{
    round_div_u128((v as u128) * 100, 65536)
}

fn load_segment(l1: u64, l5: u64) -> (r: String)
    ensures
        r@ == load_data(l1, l5),
{
    proof {
        reveal_strlit("LoadAvg: ");
        reveal_strlit(", ");
    }
    let mut r = String::from_str("LoadAvg: ");
    push_hundredths(&mut r, hundredths_of_load(l1));
    r.append(", ");
    push_hundredths(&mut r, hundredths_of_load(l5));
    r
}

fn above_load(v: u64, t: u64) -> (r: bool)
    ensures
        r == load_above(v, t),
{
    (v as u128) * 1000 > (t as u128) * 65536
}

fn temp_segment(m: i64) -> (r: String)
    ensures
        r@ == temp_data(m),
{
    proof {
        reveal_strlit("Core Temp.: ");
        reveal_strlit(" ºC");
        reveal_strlit("-");
    }
    let mut r = String::from_str("Core Temp.: ");
    if m < 0 {
        r.append("-");
        push_decimal(&mut r, round_div_u128((0 - (m as i128)) as u128, 1000));
    } else {
        push_decimal(&mut r, round_div_u128(m as u128, 1000));
    }
    r.append(" ºC");
    assert(r@ =~= temp_data(m));
    r
}

fn reaches(m: i64, t: u64) -> (r: bool)
    ensures
        r == temp_reaches(m, t),
{
    m >= 0 && m as u64 >= t
}

fn percent_free(blocks: u64, free: u64) -> (r: u128)
    ensures
        r == disk_percent(blocks, free),
{
    if blocks == 0 {
        0
    } else {
        round_div_u128(100 * (free as u128), blocks as u128)
    }
}

fn below_percent(blocks: u64, free: u64, t: u64) -> (r: bool)
    ensures
        r == disk_below(blocks, free, t),
{
    if blocks == 0 {
        0 < t
    } else {
        proof {
            assert(t as nat * blocks as nat <= u64::MAX as nat * u64::MAX as nat) by (
            nonlinear_arith);
        }
        100000 * (free as u128) < (t as u128) * (blocks as u128)
    }
}

fn disk_segment(path: &str, blocks: u64, free: u64) -> (r: String)
    ensures
        r@ == disk_data(path@, blocks, free),
{
    proof {
        reveal_strlit(" = ");
        reveal_strlit("% free");
    }
    let mut r = String::from_str(path);
    r.append(" = ");
    push_decimal(&mut r, percent_free(blocks, free));
    r.append("% free");
    r
}

/// The status line for one sample of the telemetry.
pub fn status_line(
    options: &AppOptions,
    info: &SystemInfo,
    temps: &Vec<CoreTemp>,
    filesystems: &Vec<FileSysteUsage>,
) -> (r: String)
    ensures
        r@ == status_text(
            *options,
            *info,
            temps@.map_values(|t: CoreTemp| t.input),
            filesystems@.map_values(|f: FileSysteUsage| fs_view(f)),
        ),
{
    let mut line = Line::from_options(options);
    line.reset();
    let mem = info.memory_free;
    line.append(
        ram_segment(mem).as_str(),
        below_mib(mem, options.memory_free_warn_threshold),
        below_mib(mem, options.memory_free_alert_threshold),
    );
    line.append(
        load_segment(info.load_1m, info.load_5m).as_str(),
        above_load(info.load_1m, options.loadavg_warn_threshold) || above_load(
            info.load_5m,
            options.loadavg_warn_threshold,
        ),
        above_load(info.load_1m, options.loadavg_alert_threshold) || above_load(
            info.load_5m,
            options.loadavg_alert_threshold,
        ),
    );
    let m = hottest(temps);
    line.append(
        temp_segment(m).as_str(),
        reaches(m, options.cpu_temp_warn_threshold),
        reaches(m, options.cpu_temp_alert_threshold),
    );
    let ghost before = line.buffer_line@;
    let ghost fss = filesystems@.map_values(|f: FileSysteUsage| fs_view(f));
    let mut i: usize = 0;
    while i < filesystems.len()
        invariant
            i <= filesystems@.len(),
            fss == filesystems@.map_values(|f: FileSysteUsage| fs_view(f)),
            line.code_warn@ == color_code(options.color_warn@),
            line.code_alert@ == color_code(options.color_alert@),
            line.buffer_line@ == before + disks_text(*options, fss.subrange(0, i as int)),
        decreases filesystems@.len() - i,
    {
        assert(fss.subrange(0, i + 1).drop_last() =~= fss.subrange(0, i as int));
        let f = &filesystems[i];
        line.append(
            disk_segment(f.path.as_str(), f.block_size, f.block_free).as_str(),
            below_percent(f.block_size, f.block_free, options.disk_usage_warn_threshold),
            below_percent(f.block_size, f.block_free, options.disk_usage_alert_threshold),
        );
        assert(line.buffer_line@ =~= before + disks_text(*options, fss.subrange(0, i + 1)));
        i = i + 1;
    }
    assert(fss.subrange(0, i as int) =~= fss);
    let r = line.text();
    assert(r@ =~= status_text(
        *options,
        *info,
        temps@.map_values(|t: CoreTemp| t.input),
        fss,
    ));
    r
}

} // verus!

//! Telemetry values as the kernel reports them, and the decisions taken
//! while reading them: which monitors hold core temperatures, where a
//! monitor's readings end, which filesystems answered.
use vstd::prelude::*;

verus! {

/// What `str::trim` leaves of a text.
pub uninterp spec fn trimmed(s: Seq<char>) -> Seq<char>;

/// Relies on `str::trim`: the text without leading and trailing white space.
#[verifier::external_body]
fn trim_text(s: &str) -> (r: &str)
    ensures
        r@ == trimmed(s@),
{
    s.trim()
}

/// Kernel counters of one instant.
///
/// Load averages are fixed-point values scaled by 2^16, as the kernel keeps
/// them; memory sizes are bytes.
#[derive(Debug)]
pub struct SystemInfo {
    pub uptime: u64,
    pub load_1m: u64,
    pub load_5m: u64,
    pub memory_total: u64,
    pub memory_free: u64,
    pub memory_available: u64,
    pub swap_total: u64,
    pub swap_free: u64,
    pub num_procs: u64,
}

impl Default for SystemInfo {
    /// All counters zero: what a line shows when the kernel gave nothing.
    fn default() -> (r: SystemInfo)
        ensures
            r.uptime == 0 && r.load_1m == 0 && r.load_5m == 0,
            r.memory_total == 0 && r.memory_free == 0 && r.memory_available == 0,
            r.swap_total == 0 && r.swap_free == 0 && r.num_procs == 0,
    {
        SystemInfo {
            uptime: 0,
            load_1m: 0,
            load_5m: 0,
            memory_total: 0,
            memory_free: 0,
            memory_available: 0,
            swap_total: 0,
            swap_free: 0,
            num_procs: 0,
        }
    }
}

/// One temperature sensor of a monitor.
#[derive(Debug)]
pub struct CoreTemp {
    /// Millidegrees Celsius.
    pub input: i64,
    pub label: String,
}

/// Block counts of one mounted filesystem.
#[derive(Debug)]
pub struct FileSysteUsage {
    pub path: String,
    /// Total blocks.
    pub block_size: u64,
    /// Blocks available to unprivileged users.
    pub block_free: u64,
}

pub open spec fn is_digit(c: char) -> bool {
    '0' <= c <= '9'
}

/// Value of a text made of decimal digits.
pub open spec fn digits_value(s: Seq<char>) -> nat
    decreases s.len(),
{
    if s.len() == 0 {
        0
    } else {
        digits_value(s.drop_last()) * 10 + (s.last() as u32 - '0' as u32) as nat
    }
}

/// A non-negative integer in decimal notation, fitting in 64 bits.
pub open spec fn decimal_u64(s: Seq<char>) -> Option<u64> {
    if s.len() > 0 && (forall|i: int| 0 <= i < s.len() ==> is_digit(s[i])) && digits_value(s)
        <= u64::MAX {
        Some(digits_value(s) as u64)
    } else {
        None
    }
}

/// Reads a non-negative decimal integer; `None` for anything else, or for
/// a value beyond 64 bits.
pub fn parse_u64(s: &str) -> (r: Option<u64>)
    ensures
        r == decimal_u64(s@),
{
    let n = s.unicode_len();
    if n == 0 {
        return None;
    }
    let mut v: u64 = 0;
    let mut i: usize = 0;
    while i < n
        invariant
            n == s@.len(),
            i <= n,
            forall|j: int| 0 <= j < i ==> is_digit(s@[j]),
            v as nat == digits_value(s@.subrange(0, i as int)),
        decreases n - i,
    {
        let c = s.get_char(i);
        assert(s@.subrange(0, i + 1).drop_last() =~= s@.subrange(0, i as int));
        if !('0' <= c && c <= '9') {
            return None;
        }
        let d = (c as u32 - '0' as u32) as u64;
        if v > (u64::MAX - d) / 10 {
            proof {
                lemma_digits_grow(s@, i as int + 1, n as int);
            }
            return None;
        }
        v = v * 10 + d;
        i = i + 1;
    }
    assert(s@.subrange(0, n as int) =~= s@);
    Some(v)
}

proof fn lemma_digits_grow(s: Seq<char>, i: int, n: int)
    requires
        0 < i <= n == s.len(),
        digits_value(s.subrange(0, i)) > u64::MAX,
        forall|j: int| 0 <= j < i ==> is_digit(s[j]),
    ensures
        decimal_u64(s) is None,
    decreases n - i,
{
    if i < n {
        if is_digit(s[i]) {
            assert(s.subrange(0, i + 1).drop_last() =~= s.subrange(0, i));
            lemma_digits_grow(s, i + 1, n);
        }
    } else {
        assert(s.subrange(0, n) =~= s);
    }
}

/// An integer in decimal notation with an optional sign, fitting in a
/// signed 64-bit value.
pub open spec fn decimal_i64(s: Seq<char>) -> Option<i64> {
    if s.len() > 0 && s[0] == '-' {
        match decimal_u64(s.drop_first()) {
            Some(v) => if v <= 0x8000_0000_0000_0000u64 {
                Some((-(v as int)) as i64)
            } else {
                None
            },
            None => None,
        }
    } else {
        let body = if s.len() > 0 && s[0] == '+' {
            s.drop_first()
        } else {
            s
        };
        match decimal_u64(body) {
            Some(v) => if v <= i64::MAX {
                Some(v as i64)
            } else {
                None
            },
            None => None,
        }
    }
}

/// Reads a decimal integer with an optional `+` or `-` sign; `None` for
/// anything else, or for a value beyond signed 64 bits.
pub fn parse_i64(s: &str) -> (r: Option<i64>)
    ensures
        r == decimal_i64(s@),
{
    let n = s.unicode_len();
    if n > 0 && s.get_char(0) == '-' {
        assert(s@.subrange(1, n as int) =~= s@.drop_first());
        match parse_u64(s.substring_char(1, n)) {
            Some(v) => if v < 0x8000_0000_0000_0000u64 {
                Some(0 - (v as i64))
            } else if v == 0x8000_0000_0000_0000u64 {
                Some(i64::MIN)
            } else {
                None
            },
            None => None,
        }
    } else {
        let body = if n > 0 && s.get_char(0) == '+' {
            assert(s@.subrange(1, n as int) =~= s@.drop_first());
            s.substring_char(1, n)
        } else {
            s
        };
        match parse_u64(body) {
            Some(v) => if v <= i64::MAX as u64 {
                Some(v as i64)
            } else {
                None
            },
            None => None,
        }
    }
}

/// The text equals `t`.
fn same_text(a: &str, t: &str) -> (r: bool)
    ensures
        r == (a@ == t@),
{
    let n = a.unicode_len();
    if n != t.unicode_len() {
        return false;
    }
    let mut i: usize = 0;
    while i < n
        invariant
            n == a@.len(),
            n == t@.len(),
            i <= n,
            forall|j: int| 0 <= j < i ==> a@[j] == t@[j],
        decreases n - i,
    {
        if a.get_char(i) != t.get_char(i) {
            return false;
        }
        i = i + 1;
    }
    assert(a@ =~= t@);
    true
}

/// The name that marks a monitor of core temperatures.
pub fn names_coretemp(name: &str) -> (r: bool)
    ensures
        r == (name@ == "coretemp"@),
{
    same_text(name, "coretemp")
}

/// A monitor whose `name` file holds `coretemp` gives core temperatures.
pub fn is_coretemp(name: &str) -> (r: bool)
    ensures
        r == (trimmed(name@) == "coretemp"@),
{
    names_coretemp(trim_text(name))
}

/// One sensor from the trimmed contents of its input and label files: the
/// input must be a signed millidegree count.
pub fn sensor(input: &str, label: &str) -> (r: Option<CoreTemp>)
    ensures
        match r {
            Some(t) => decimal_i64(input@) == Some(t.input) && t.label@ == label@,
            None => decimal_i64(input@) is None,
        },
{
    match parse_i64(input) {
        Some(v) => Some(CoreTemp { input: v, label: String::from_str(label) }),
        None => None,
    }
}

/// One sensor from the text of its input and label files (`None` where a
/// file could not be read): present when both were read and the input,
/// trimmed, is a signed millidegree count.
pub fn load_temp(input: Option<&str>, label: Option<&str>) -> (r: Option<CoreTemp>)
    ensures
        match r {
            Some(t) => input is Some && label is Some && decimal_i64(trimmed(input->0@)) == Some(
                t.input,
            ) && t.label@ == trimmed(label->0@),
            None => input is None || label is None || decimal_i64(trimmed(input->0@)) is None,
        },
{
    match (input, label) {
        (Some(i), Some(l)) => sensor(trim_text(i), trim_text(l)),
        _ => None,
    }
}

/// The readings before the first miss, in order: a monitor's sensors are
/// numbered from one and end at the first that cannot be read.
pub fn leading_temps(readings: Vec<Option<CoreTemp>>) -> (r: Vec<CoreTemp>)
    ensures
        r@.len() <= readings@.len(),
        forall|j: int| 0 <= j < r@.len() ==> readings@[j] == Some(#[trigger] r@[j]),
        r@.len() < readings@.len() ==> readings@[r@.len() as int] is None,
{
    let ghost orig = readings@;
    let mut work = readings;
    let mut rest: Vec<Option<CoreTemp>> = Vec::new();
    // reverse so that the first reading can be popped
    while work.len() > 0
        invariant
            orig == readings@,
            rest@.len() + work@.len() == orig.len(),
            work@ == orig.subrange(0, work@.len() as int),
            forall|j: int| 0 <= j < rest@.len() ==> rest@[j] == orig[orig.len() - 1 - j],
        decreases work@.len(),
    {
        let x = work.pop().unwrap();
        rest.push(x);
    }
    let mut r: Vec<CoreTemp> = Vec::new();
    loop
        invariant
            orig == readings@,
            r@.len() + rest@.len() == orig.len(),
            forall|j: int| 0 <= j < rest@.len() ==> rest@[j] == orig[orig.len() - 1 - j],
            forall|j: int| 0 <= j < r@.len() ==> orig[j] == Some(#[trigger] r@[j]),
        decreases rest@.len(),
    {
        match rest.pop() {
            Some(Some(t)) => {
                r.push(t);
            },
            _ => {
                return r;
            },
        }
    }
}

/// What is shown of a filesystem: its path and block counts.
pub open spec fn fs_view(f: FileSysteUsage) -> (Seq<char>, u64, u64) {
    (f.path@, f.block_size, f.block_free)
}

/// The filesystems whose block counts were read, in the order of `paths`.
pub open spec fn answered(paths: Seq<Seq<char>>, stats: Seq<Option<(u64, u64)>>) -> Seq<
    (Seq<char>, u64, u64),
>
    decreases stats.len(),
{
    if stats.len() == 0 || paths.len() == 0 {
        Seq::empty()
    } else {
        let head = answered(paths.drop_last(), stats.drop_last());
        match stats.last() {
            Some(st) => head.push((paths.last(), st.0, st.1)),
            None => head,
        }
    }
}

/// Pairs each mountpoint with its block counts (`None` where they could
/// not be read) and keeps those that were read, in the given order.
pub fn get_info(paths: &Vec<String>, stats: &Vec<Option<(u64, u64)>>) -> (r: Vec<FileSysteUsage>)
    requires
        paths@.len() == stats@.len(),
    ensures
        r@.map_values(|f: FileSysteUsage| fs_view(f)) == answered(
            paths@.map_values(|p: String| p@),
            stats@,
        ),
{
    let mut r: Vec<FileSysteUsage> = Vec::new();
    let mut i: usize = 0;
    while i < paths.len()
        invariant
            paths@.len() == stats@.len(),
            i <= paths@.len(),
            r@.map_values(|f: FileSysteUsage| fs_view(f)) == answered(
                paths@.map_values(|p: String| p@).subrange(0, i as int),
                stats@.subrange(0, i as int),
            ),
        decreases paths@.len() - i,
    {
        let ghost ps = paths@.map_values(|p: String| p@);
        assert(ps.subrange(0, i + 1).drop_last() =~= ps.subrange(0, i as int));
        assert(stats@.subrange(0, i + 1).drop_last() =~= stats@.subrange(0, i as int));
        match stats[i] {
            Some(st) => {
                r.push(
                    FileSysteUsage { path: paths[i].clone(), block_size: st.0, block_free: st.1 },
                );
            },
            None => {},
        }
        assert(r@.map_values(|f: FileSysteUsage| fs_view(f)) =~= answered(
            ps.subrange(0, i + 1),
            stats@.subrange(0, i + 1),
        ));
        i = i + 1;
    }
    assert(paths@.map_values(|p: String| p@).subrange(0, i as int) =~= paths@.map_values(
        |p: String| p@,
    ));
    assert(stats@.subrange(0, i as int) =~= stats@);
    r
}

/// ASCII white space: space, tab, line feed, form feed, carriage return.
pub open spec fn is_ws(c: char) -> bool {
    c == ' ' || c == '\t' || c == '\n' || c == '\r' || c as u32 == 12
}

fn char_is_ws(c: char) -> (r: bool)
    ensures
        r == is_ws(c),
{
    c == ' ' || c == '\t' || c == '\n' || c == '\r' || c as u32 == 12
}

/// The text after leading white space.
pub open spec fn skip_ws(s: Seq<char>) -> Seq<char>
    decreases s.len(),
{
    if s.len() > 0 && is_ws(s[0]) {
        skip_ws(s.drop_first())
    } else {
        s
    }
}

/// Length of the leading run of characters that are not white space.
pub open spec fn word_len(s: Seq<char>) -> nat
    decreases s.len(),
{
    if s.len() > 0 && !is_ws(s[0]) {
        1 + word_len(s.drop_first())
    } else {
        0
    }
}

/// Label of the available-memory line of the kernel's memory report.
pub open spec fn mem_available_label() -> Seq<char> {
    "MemAvailable:"@
}

/// The second white-space separated field of a line.
pub open spec fn second_field(line: Seq<char>) -> Seq<char> {
    let t = skip_ws(line.subrange(word_len(line) as int, line.len() as int));
    t.subrange(0, word_len(t) as int)
}

/// What a line of the kernel's memory report says of available memory:
/// `None` for a line that does not start with `MemAvailable:` or has no
/// second field; else the second field, a count of KiB, in bytes; zero
/// where that field is no such count.
pub open spec fn available_of(line: Seq<char>) -> Option<u64> {
    let n = mem_available_label().len();
    let f = second_field(line);
    if line.len() < n || line.subrange(0, n as int) != mem_available_label() || f.len() == 0 {
        None
    } else {
        match decimal_u64(f) {
            Some(v) => if v * 1024 <= u64::MAX {
                Some((v * 1024) as u64)
            } else {
                Some(0)
            },
            None => Some(0),
        }
    }
}

/// Reads available memory from one line of the kernel's memory report.
pub fn mem_available(line: &str) -> (r: Option<u64>)
    ensures
        r == available_of(line@),
{
    proof {
        reveal_strlit("MemAvailable:");
    }
    let label = "MemAvailable:";
    let n = line.unicode_len();
    let k = label.unicode_len();
    if n < k || !same_text(line.substring_char(0, k), label) {
        return None;
    }
    let ghost s = line@;
    assert(s.subrange(0, n as int) =~= s);
    let mut i: usize = 0;
    while i < n && !char_is_ws(line.get_char(i))
        invariant
            i <= n,
            n == s.len(),
            s == line@,
            word_len(s) == i + word_len(s.subrange(i as int, n as int)),
        decreases n - i,
    {
        assert(s.subrange(i as int, n as int).drop_first() =~= s.subrange(i + 1, n as int));
        i = i + 1;
    }
    assert(word_len(s.subrange(i as int, n as int)) == 0);
    let ghost a = i;
    while i < n && char_is_ws(line.get_char(i))
        invariant
            a <= i <= n,
            n == s.len(),
            s == line@,
            a == word_len(s),
            skip_ws(s.subrange(a as int, n as int)) == skip_ws(s.subrange(i as int, n as int)),
        decreases n - i,
    {
        assert(s.subrange(i as int, n as int).drop_first() =~= s.subrange(i + 1, n as int));
        i = i + 1;
    }
    let ghost t = s.subrange(i as int, n as int);
    assert(skip_ws(t) == t);
    let start = i;
    while i < n && !char_is_ws(line.get_char(i))
        invariant
            start <= i <= n,
            n == s.len(),
            s == line@,
            t == s.subrange(start as int, n as int),
            word_len(t) == (i - start) + word_len(s.subrange(i as int, n as int)),
        decreases n - i,
    {
        assert(s.subrange(i as int, n as int).drop_first() =~= s.subrange(i + 1, n as int));
        i = i + 1;
    }
    assert(word_len(s.subrange(i as int, n as int)) == 0);
    assert(second_field(s) =~= s.subrange(start as int, i as int));
    if i == start {
        return None;
    }
    match parse_u64(line.substring_char(start, i)) {
        Some(v) => {
            if v <= u64::MAX / 1024 {
                Some(v * 1024)
            } else {
                Some(0)
            }
        },
        None => Some(0),
    }
}

proof fn lemma_word_len_concat(a: Seq<char>, b: Seq<char>)
    requires
        forall|i: int| 0 <= i < a.len() ==> !is_ws(#[trigger] a[i]),
    ensures
        word_len(a + b) == a.len() + word_len(b),
    decreases a.len(),
{
    if a.len() > 0 {
        assert((a + b)[0] == a[0]);
        assert((a + b).drop_first() =~= a.drop_first() + b);
        lemma_word_len_concat(a.drop_first(), b);
    } else {
        assert(a + b =~= b);
    }
}

proof fn lemma_skip_ws_concat(p: Seq<char>, x: Seq<char>)
    requires
        forall|i: int| 0 <= i < p.len() ==> is_ws(#[trigger] p[i]),
    ensures
        skip_ws(p + x) == skip_ws(x),
    decreases p.len(),
{
    if p.len() > 0 {
        assert((p + x)[0] == p[0]);
        assert((p + x).drop_first() =~= p.drop_first() + x);
        lemma_skip_ws_concat(p.drop_first(), x);
    } else {
        assert(p + x =~= x);
    }
}

/// A `MemAvailable:` line whose second field is a KiB count gives that
/// count times 1024, as bytes.
pub proof fn mem_available_in_bytes(pad: Seq<char>, digits: Seq<char>, rest: Seq<char>)
    requires
        pad.len() > 0,
        forall|i: int| 0 <= i < pad.len() ==> is_ws(#[trigger] pad[i]),
        digits.len() > 0,
        forall|i: int| 0 <= i < digits.len() ==> is_digit(#[trigger] digits[i]),
        rest.len() == 0 || is_ws(rest[0]),
        digits_value(digits) * 1024 <= u64::MAX,
    ensures
        available_of(mem_available_label() + pad + digits + rest) == Some(
            (digits_value(digits) * 1024) as u64,
        ),
{
    reveal_strlit("MemAvailable:");
    let label = mem_available_label();
    assert(label =~= seq!['M', 'e', 'm', 'A', 'v', 'a', 'i', 'l', 'a', 'b', 'l', 'e', ':']);
    let tail = pad + digits + rest;
    let line = label + pad + digits + rest;
    assert(line =~= label + tail);
    assert(forall|i: int| 0 <= i < digits.len() ==> !is_ws(#[trigger] digits[i]));
    lemma_word_len_concat(label, tail);
    assert(tail[0] == pad[0]);
    assert(word_len(tail) == 0);
    assert(line.subrange(0, 13) =~= label);
    assert(line.subrange(13, line.len() as int) =~= pad + (digits + rest));
    lemma_skip_ws_concat(pad, digits + rest);
    assert((digits + rest)[0] == digits[0]);
    assert(skip_ws(digits + rest) == digits + rest);
    lemma_word_len_concat(digits, rest);
    assert(word_len(rest) == 0);
    assert((digits + rest).subrange(0, digits.len() as int) =~= digits);
    assert(second_field(line) == digits);
}

} // verus!

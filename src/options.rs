//! Tunables of the status line: alignment, screen, thresholds, colors and
//! the filesystems to watch.
use vstd::prelude::*;

verus! {

/// Horizontal placement of the line on the bar.
#[derive(Clone, Copy, Debug, PartialEq, Eq, Structural)]
pub enum Align {
    Left,
    Center,
    Right,
}

/// The one-letter renderer code of an alignment.
pub open spec fn align_code(a: Align) -> Seq<char> {
    match a {
        Align::Left => seq!['l'],
        Align::Center => seq!['c'],
        Align::Right => seq!['r'],
    }
}

/// Two characters are equal once ASCII upper case letters are lowered.
pub open spec fn ascii_eq_fold(x: char, y: char) -> bool {
    x == y || ('A' <= x <= 'Z' && x as u32 + 32 == y as u32) || ('A' <= y <= 'Z' && y as u32 + 32
        == x as u32)
}

/// Two texts are equal up to the case of ASCII letters.
pub open spec fn eq_ignore_ascii_case(a: Seq<char>, b: Seq<char>) -> bool {
    a.len() == b.len() && forall|i: int| 0 <= i < a.len() ==> ascii_eq_fold(a[i], b[i])
}

/// The alignment that a text names, ignoring ASCII case.
pub open spec fn align_named(v: Seq<char>) -> Option<Align> {
    if eq_ignore_ascii_case(v, seq!['l', 'e', 'f', 't']) {
        Some(Align::Left)
    } else if eq_ignore_ascii_case(v, seq!['c', 'e', 'n', 't', 'e', 'r']) {
        Some(Align::Center)
    } else if eq_ignore_ascii_case(v, seq!['r', 'i', 'g', 'h', 't']) {
        Some(Align::Right)
    } else {
        None
    }
}

fn chars_eq_fold(x: char, y: char) -> (r: bool)
    ensures
        r == ascii_eq_fold(x, y),
{
    x == y || ('A' <= x && x <= 'Z' && x as u32 + 32 == y as u32) || ('A' <= y && y <= 'Z'
        && y as u32 + 32 == x as u32)
}

/// Compares two texts, ignoring the case of ASCII letters.
pub fn str_eq_ignore_ascii_case(a: &str, b: &str) -> (r: bool)
    ensures
        r == eq_ignore_ascii_case(a@, b@),
{
    let n = a.unicode_len();
    if n != b.unicode_len() {
        return false;
    }
    let mut i: usize = 0;
    while i < n
        invariant
            n == a@.len(),
            n == b@.len(),
            i <= n,
            forall|j: int| 0 <= j < i ==> ascii_eq_fold(a@[j], b@[j]),
        decreases n - i,
    {
        if !chars_eq_fold(a.get_char(i), b.get_char(i)) {
            return false;
        }
        i = i + 1;
    }
    true
}

/// An alignment name that is none of `left`, `center`, `right`.
#[derive(Debug)]
pub struct AlignParseError(pub String);

impl AlignParseError {
    /// The diagnostic shown to the user.
    pub fn message(&self) -> (r: String)
        ensures
            r@ == seq!['I', 'n', 'v', 'a', 'l', 'i', 'd', ' ', 'a', 'l', 'i', 'g', 'n', ' ', '\'']
                + self.0@ + "'. Should be one of 'left', 'center', or 'right'"@,
    {
        proof {
            reveal_strlit("Invalid align '");
            reveal_strlit("'. Should be one of 'left', 'center', or 'right'");
        }
        let mut r = String::from_str("Invalid align '");
        r.append(self.0.as_str());
        r.append("'. Should be one of 'left', 'center', or 'right'");
        assert(r@ =~= seq!['I', 'n', 'v', 'a', 'l', 'i', 'd', ' ', 'a', 'l', 'i', 'g', 'n', ' ', '\'']
            + self.0@ + "'. Should be one of 'left', 'center', or 'right'"@);
        r
    }
}

impl Align {
    /// The renderer code: `l`, `c` or `r`.
    pub fn code(&self) -> (r: &'static str)
        ensures
            r@ == align_code(*self),
    {
        proof {
            reveal_strlit("l");
            reveal_strlit("c");
            reveal_strlit("r");
        }
        match *self {
            Align::Left => "l",
            Align::Center => "c",
            Align::Right => "r",
        }
    }

    /// Reads an alignment name, ignoring ASCII case.
    pub fn parse_name(value: &str) -> (r: Result<Align, AlignParseError>)
        ensures
            match r {
                Ok(a) => align_named(value@) == Some(a),
                Err(e) => align_named(value@) is None && e.0@ == value@,
            },
    {
        proof {
            reveal_strlit("left");
            reveal_strlit("center");
            reveal_strlit("right");
        }
        assert("left"@ =~= seq!['l', 'e', 'f', 't']);
        assert("center"@ =~= seq!['c', 'e', 'n', 't', 'e', 'r']);
        assert("right"@ =~= seq!['r', 'i', 'g', 'h', 't']);
        if str_eq_ignore_ascii_case(value, "left") {
            Ok(Align::Left)
        } else if str_eq_ignore_ascii_case(value, "center") {
            Ok(Align::Center)
        } else if str_eq_ignore_ascii_case(value, "right") {
            Ok(Align::Right)
        } else {
            Err(AlignParseError(String::from_str(value)))
        }
    }
}

impl core::str::FromStr for Align {
    type Err = AlignParseError;

    fn from_str(value: &str) -> (r: Result<Align, AlignParseError>)
        ensures
            match r {
                Ok(a) => align_named(value@) == Some(a),
                Err(e) => align_named(value@) is None && e.0@ == value@,
            },
    {
        Align::parse_name(value)
    }
}

/// Each alignment has its own code, and each code is one letter.
pub proof fn align_code_bijective(a: Align, b: Align)
    ensures
        align_code(a).len() == 1,
        align_code(a) == align_code(b) <==> a == b,
{
    if align_code(a) == align_code(b) {
        assert(align_code(a)[0] == align_code(b)[0]);
    }
}

/// A name that parses has the alignment's code as its first letter, up to
/// ASCII case.
pub proof fn parsed_name_code(v: Seq<char>, a: Align)
    requires
        align_named(v) == Some(a),
    ensures
        v.len() > 0,
        ascii_eq_fold(v[0], align_code(a)[0]),
{
}

/// Names are read without regard to ASCII case: a name that matches one
/// of `left`, `center`, `right` so selects that alignment.
pub proof fn align_name_case_insensitive(v: Seq<char>)
    ensures
        eq_ignore_ascii_case(v, "left"@) ==> align_named(v) == Some(Align::Left),
        eq_ignore_ascii_case(v, "center"@) ==> align_named(v) == Some(Align::Center),
        eq_ignore_ascii_case(v, "right"@) ==> align_named(v) == Some(Align::Right),
{
    reveal_strlit("left");
    reveal_strlit("center");
    reveal_strlit("right");
    assert("left"@ =~= seq!['l', 'e', 'f', 't']);
    assert("center"@ =~= seq!['c', 'e', 'n', 't', 'e', 'r']);
    assert("right"@ =~= seq!['r', 'i', 'g', 'h', 't']);
    if eq_ignore_ascii_case(v, "center"@) {
        assert(v[0] == 'c' || v[0] == 'C');
        assert(!eq_ignore_ascii_case(v, seq!['l', 'e', 'f', 't']));
    }
    if eq_ignore_ascii_case(v, "right"@) {
        assert(v[0] == 'r' || v[0] == 'R');
        assert(!eq_ignore_ascii_case(v, seq!['l', 'e', 'f', 't']));
        assert(!eq_ignore_ascii_case(v, seq!['c', 'e', 'n', 't', 'e', 'r']));
    }
}

/// Settings of the status line, fixed at start-up.
///
/// Thresholds are fixed-point numbers counted in thousandths of their
/// unit: `10_000` in `disk_usage_warn_threshold` is 10 %.
#[derive(Debug)]
pub struct AppOptions {
    pub help: bool,
    /// Renderer screen that shows the line.
    pub screen: Option<usize>,
    pub align: Align,
    /// Seconds between two lines.
    pub update_interval: u64,
    /// Filesystems whose free space is shown, in display order.
    pub mountpoints: Vec<String>,
    /// Free disk space, in thousandths of a percent.
    pub disk_usage_warn_threshold: u64,
    pub disk_usage_alert_threshold: u64,
    /// CPU temperature, in thousandths of a degree Celsius.
    pub cpu_temp_warn_threshold: u64,
    pub cpu_temp_alert_threshold: u64,
    /// Free memory, in thousandths of a MiB.
    pub memory_free_warn_threshold: u64,
    pub memory_free_alert_threshold: u64,
    /// Load average, in thousandths.
    pub loadavg_warn_threshold: u64,
    pub loadavg_alert_threshold: u64,
    /// Color specification (`FG`, `/BG` or `FG/BG`) of the warn state.
    pub color_warn: String,
    /// Color specification of the alert state.
    pub color_alert: String,
}

impl Default for AppOptions {
    fn default() -> (r: AppOptions)
        ensures
            !r.help,
            r.screen is None,
            r.align == Align::Right,
            r.update_interval == 5,
            r.mountpoints@.len() == 0,
            r.disk_usage_warn_threshold == 10_000,
            r.disk_usage_alert_threshold == 5_000,
            r.cpu_temp_warn_threshold == 60_000,
            r.cpu_temp_alert_threshold == 70_000,
            r.memory_free_warn_threshold == 512_000,
            r.memory_free_alert_threshold == 128_000,
            r.loadavg_warn_threshold == 1_000,
            r.loadavg_alert_threshold == 2_000,
            r.color_warn@ == "#000/#fa7"@,
            r.color_alert@ == "#fff/#700"@,
    {
        AppOptions {
            help: false,
            screen: None,
            align: Align::Right,
            update_interval: 5,
            mountpoints: Vec::new(),
            disk_usage_warn_threshold: 10_000,
            disk_usage_alert_threshold: 5_000,
            cpu_temp_warn_threshold: 60_000,
            cpu_temp_alert_threshold: 70_000,
            memory_free_warn_threshold: 512_000,
            memory_free_alert_threshold: 128_000,
            loadavg_warn_threshold: 1_000,
            loadavg_alert_threshold: 2_000,
            color_warn: String::from_str("#000/#fa7"),
            color_alert: String::from_str("#fff/#700"),
        }
    }
}

} // verus!

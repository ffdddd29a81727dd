//! The markup line: a header that places it on the bar, then one segment
//! per metric, each colored by its severity.
use vstd::prelude::*;
use crate::color::{color_code, parse_color};
use crate::format::{decimal, push_decimal};
use crate::options::{align_code, Align, AppOptions};

verus! {

/// Text between two segments: five spaces, a pipe, five spaces.
pub open spec fn sep_text() -> Seq<char> {
    seq![' ', ' ', ' ', ' ', ' ', '|', ' ', ' ', ' ', ' ', ' ']
}

/// Markup that restores the default colors.
pub open spec fn color_reset() -> Seq<char> {
    seq!['%', '{', 'F', '-', '}', '%', '{', 'B', '-', '}']
}

/// Start of a line: screen selection if any, alignment, separator.
pub open spec fn header_text(screen: Option<usize>, align: Align) -> Seq<char> {
    let scr = match screen {
        Some(n) => seq!['%', '{', 'S'] + decimal(n as nat) + seq!['}'],
        None => Seq::<char>::empty(),
    };
    scr + seq!['%', '{'] + align_code(align) + seq!['}'] + sep_text()
}

/// The color markup that opens a segment: alert wins over warn.
pub open spec fn severity_code(
    warn: bool,
    alert: bool,
    code_warn: Seq<char>,
    code_alert: Seq<char>,
) -> Seq<char> {
    if alert {
        code_alert
    } else if warn {
        code_warn
    } else {
        Seq::empty()
    }
}

/// One segment: color, the padded text, color reset when colored, separator.
pub open spec fn segment_text(
    data: Seq<char>,
    warn: bool,
    alert: bool,
    code_warn: Seq<char>,
    code_alert: Seq<char>,
) -> Seq<char> {
    severity_code(warn, alert, code_warn, code_alert) + seq![' ', ' '] + data + seq![' ', ' '] + (
    if warn || alert {
        color_reset()
    } else {
        Seq::empty()
    }) + sep_text()
}

/// A line under construction, with the color markup of the two
/// severities worked out once.
pub struct Line {
    pub screen: Option<usize>,
    pub align: Align,
    pub buffer_line: String,
    pub code_warn: String,
    pub code_alert: String,
}

fn sep() -> (r: &'static str)
    ensures
        r@ == sep_text(),
{
    proof {
        reveal_strlit("     |     ");
    }
    let r = "     |     ";
    assert(r@ =~= sep_text());
    r
}

impl Line {
    pub fn from_options(options: &AppOptions) -> (r: Line)
        ensures
            r.screen == options.screen,
            r.align == options.align,
            r.buffer_line@.len() == 0,
            r.code_warn@ == color_code(options.color_warn@),
            r.code_alert@ == color_code(options.color_alert@),
    {
        Line {
            screen: options.screen,
            align: options.align,
            buffer_line: String::new(),
            code_warn: parse_color(options.color_warn.as_str()),
            code_alert: parse_color(options.color_alert.as_str()),
        }
    }

    /// Starts a new line.
    pub fn reset(&mut self)
        ensures
            final(self).buffer_line@ == header_text(old(self).screen, old(self).align),
            final(self).screen == old(self).screen,
            final(self).align == old(self).align,
            final(self).code_warn == old(self).code_warn,
            final(self).code_alert == old(self).code_alert,
    {
        proof {
            reveal_strlit("%{S");
            reveal_strlit("}");
            reveal_strlit("%{");
        }
        let mut b = String::new();
        match self.screen {
            Some(n) => {
                b.append("%{S");
                push_decimal(&mut b, n as u128);
                b.append("}");
            },
            None => {},
        }
        b.append("%{");
        b.append(self.align.code());
        b.append("}");
        b.append(sep());
        assert(b@ =~= header_text(self.screen, self.align));
        self.buffer_line = b;
    }

    /// Adds one segment, colored as its severity asks.
    pub fn append(&mut self, data: &str, show_warn: bool, show_alert: bool)
        ensures
            final(self).buffer_line@ == old(self).buffer_line@ + segment_text(
                data@,
                show_warn,
                show_alert,
                old(self).code_warn@,
                old(self).code_alert@,
            ),
            final(self).screen == old(self).screen,
            final(self).align == old(self).align,
            final(self).code_warn == old(self).code_warn,
            final(self).code_alert == old(self).code_alert,
    {
        proof {
            reveal_strlit("  ");
            reveal_strlit("%{F-}%{B-}");
        }
        let ghost before = self.buffer_line@;
        if show_alert {
            self.buffer_line.append(self.code_alert.as_str());
        } else if show_warn {
            self.buffer_line.append(self.code_warn.as_str());
        }
        self.buffer_line.append("  ");
        self.buffer_line.append(data);
        self.buffer_line.append("  ");
        if show_warn || show_alert {
            self.buffer_line.append("%{F-}%{B-}");
        }
        self.buffer_line.append(sep());
        assert(self.buffer_line@ =~= before + segment_text(
            data@,
            show_warn,
            show_alert,
            self.code_warn@,
            self.code_alert@,
        ));
    }

    /// The text that is printed for the line: the buffer and three spaces.
    pub fn text(&self) -> (r: String)
        ensures
            r@ == self.buffer_line@ + seq![' ', ' ', ' '],
    {
        proof {
            reveal_strlit("   ");
        }
        let mut r = self.buffer_line.clone();
        r.append("   ");
        assert(r@ =~= self.buffer_line@ + seq![' ', ' ', ' ']);
        r
    }
}

/// Alert dominates warn: with the alert flag set a segment opens with the
/// alert markup, whatever the warn flag says.
pub proof fn alert_dominates_warn(
    data: Seq<char>,
    warn: bool,
    code_warn: Seq<char>,
    code_alert: Seq<char>,
)
    ensures
        segment_text(data, warn, true, code_warn, code_alert) == segment_text(
            data,
            false,
            true,
            code_warn,
            code_alert,
        ),
        segment_text(data, warn, true, code_warn, code_alert).subrange(0, code_alert.len() as int)
            == code_alert,
{
    let s = segment_text(data, warn, true, code_warn, code_alert);
    assert(s.subrange(0, code_alert.len() as int) =~= code_alert);
}

/// A segment without either flag is the padded text and the separator
/// alone: no color markup and no color reset.
pub proof fn uncolored_segment(data: Seq<char>, code_warn: Seq<char>, code_alert: Seq<char>)
    ensures
        segment_text(data, false, false, code_warn, code_alert) == seq![' ', ' '] + data + seq![
            ' ',
            ' ',
        ] + sep_text(),
{
    assert(segment_text(data, false, false, code_warn, code_alert) =~= seq![' ', ' '] + data
        + seq![' ', ' '] + sep_text());
}

/// The ten characters before a segment's closing separator are the color
/// reset exactly when the segment was colored.
pub proof fn reset_iff_colored(
    data: Seq<char>,
    warn: bool,
    alert: bool,
    code_warn: Seq<char>,
    code_alert: Seq<char>,
)
    ensures
        ({
            let s = segment_text(data, warn, alert, code_warn, code_alert);
            (s.len() >= 21 && s.subrange(s.len() - 21, s.len() - 11) == color_reset()) <==> (warn
                || alert)
        }),
{
    let s = segment_text(data, warn, alert, code_warn, code_alert);
    let c = severity_code(warn, alert, code_warn, code_alert);
    if warn || alert {
        assert(s =~= (c + seq![' ', ' '] + data + seq![' ', ' ']) + color_reset() + sep_text());
        assert(s.subrange(s.len() - 21, s.len() - 11) =~= color_reset());
    } else {
        assert(s =~= (c + seq![' ', ' '] + data) + seq![' ', ' '] + sep_text());
        if s.len() >= 21 {
            assert(s[s.len() - 12] == ' ');
            assert(color_reset()[9] == '}');
            assert(s.subrange(s.len() - 21, s.len() - 11)[9] == s[s.len() - 12]);
        }
    }
}

} // verus!

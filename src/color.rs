//! Color specifications (`FG`, `/BG`, `FG/BG`) and the renderer markup
//! that selects them.
use vstd::prelude::*;

verus! {

/// `i` is the position of the first `/` in `c`.
pub open spec fn is_first_slash(c: Seq<char>, i: int) -> bool {
    0 <= i < c.len() && c[i] == '/' && forall|j: int| 0 <= j < i ==> c[j] != '/'
}

pub open spec fn has_slash(c: Seq<char>) -> bool {
    exists|i: int| 0 <= i < c.len() && c[i] == '/'
}

/// Markup that sets the foreground to `fg`.
pub open spec fn fg_code(fg: Seq<char>) -> Seq<char> {
    seq!['%', '{', 'F'] + fg + seq!['}']
}

/// Markup that sets the background to `bg`.
pub open spec fn bg_code(bg: Seq<char>) -> Seq<char> {
    seq!['%', '{', 'B'] + bg + seq!['}']
}

/// The markup for a color specification: text before the first `/` is the
/// foreground, text after it the background; either may be absent
/// (no `/` at all, or `/` in front). A background alone gives `%{B<bg>}`
/// and nothing after it: no stray `)` follows the markup.
pub open spec fn color_code(c: Seq<char>) -> Seq<char> {
    if !has_slash(c) {
        fg_code(c)
    } else {
        let i = choose|i: int| is_first_slash(c, i);
        if i == 0 {
            bg_code(c.subrange(1, c.len() as int))
        } else {
            fg_code(c.subrange(0, i)) + bg_code(c.subrange(i + 1, c.len() as int))
        }
    }
}

/// Position of the first `/` in `color`, if any.
fn find_slash(color: &str) -> (r: Option<usize>)
    ensures
        match r {
            Some(i) => is_first_slash(color@, i as int),
            None => !has_slash(color@),
        },
{
    let n = color.unicode_len();
    let mut i: usize = 0;
    while i < n
        invariant
            n == color@.len(),
            i <= n,
            forall|j: int| 0 <= j < i ==> color@[j] != '/',
        decreases n - i,
    {
        if color.get_char(i) == '/' {
            return Some(i);
        }
        i = i + 1;
    }
    None
}

/// Translates a color specification into renderer markup: `#abc` gives
/// `%{F#abc}`, `/#abc` gives `%{B#abc}` (with no trailing `)`), and
/// `#fff/#700` gives `%{F#fff}%{B#700}`.
pub fn parse_color(color: &str) -> (r: String)
    ensures
        r@ == color_code(color@),
{
    proof {
        reveal_strlit("%{F");
        reveal_strlit("%{B");
        reveal_strlit("}");
        reveal_strlit("}%{B");
    }
    let ghost c = color@;
    match find_slash(color) {
        None => {
            let mut r = String::from_str("%{F");
            r.append(color);
            r.append("}");
            assert(r@ =~= fg_code(c));
            r
        },
        Some(i) => {
            proof {
                let k = choose|k: int| is_first_slash(c, k);
                assert(is_first_slash(c, k));
                assert(k == i as int) by {
                    if k < i as int {
                        assert(c[k] != '/');
                    } else if k > i as int {
                        assert(c[i as int] != '/');
                    }
                }
            }
            let n = color.unicode_len();
            if i == 0 {
                let mut r = String::from_str("%{B");
                r.append(color.substring_char(1, n));
                r.append("}");
                assert(r@ =~= bg_code(c.subrange(1, c.len() as int)));
                r
            } else {
                let mut r = String::from_str("%{F");
                r.append(color.substring_char(0, i));
                r.append("}%{B");
                r.append(color.substring_char(i + 1, n));
                r.append("}");
                assert(r@ =~= fg_code(c.subrange(0, i as int)) + bg_code(
                    c.subrange(i + 1, c.len() as int),
                ));
                r
            }
        },
    }
}

} // verus!

//! Display-column arithmetic and the box-drawing glyphs used where window
//! separators meet.

use vstd::prelude::*;
use vstd::string::StrSliceExecFns;

use crate::strutil::push_char;

verus! {

/// Display width of one character as the width tables give it; a function
/// of the character alone.
pub uninterp spec fn display_width_of(c: char) -> usize;

/// Relies on `unicode_width::UnicodeWidthChar::width`: the character's
/// displayed width in columns, `None` for a control character.
#[verifier::external_body]
fn char_display_width(c: char) -> (w: usize)
    ensures
        w == display_width_of(c),
{
    unicode_width::UnicodeWidthChar::width(c).unwrap_or(0)
}

/// Width of one character cell as the editor draws it: a tab spans four
/// columns, anything else takes its table width.
pub open spec fn cell_width(c: char) -> int {
    if c == '\t' {
        4
    } else {
        display_width_of(c) as int
    }
}

/// Total display width of the first `k` characters.
pub open spec fn prefix_cells(s: Seq<char>, k: int) -> int
    decreases k,
{
    if k <= 0 || s.len() == 0 {
        0
    } else if k > s.len() {
        prefix_cells(s, s.len() as int)
    } else {
        prefix_cells(s, k - 1) + cell_width(s[k - 1])
    }
}

pub proof fn lemma_prefix_cells_nonneg(s: Seq<char>, k: int)
    ensures
        prefix_cells(s, k) >= 0,
    decreases k,
{
    if !(k <= 0 || s.len() == 0) {
        if k > s.len() {
            lemma_prefix_cells_nonneg(s, s.len() as int);
        } else {
            lemma_prefix_cells_nonneg(s, k - 1);
        }
    }
}

/// Display width of the first `char_count` characters of the line, with
/// tabs counted as four columns.
pub fn display_width_of_char_prefix(line: &str, char_count: usize) -> (r: usize)
    ensures
        r == if prefix_cells(line@, char_count as int) <= usize::MAX {
            prefix_cells(line@, char_count as int)
        } else {
            usize::MAX as int
        },
{
    let n = line.unicode_len();
    let k = if char_count < n {
        char_count
    } else {
        n
    };
    proof {
        lemma_prefix_cells_eq_clamp(line@, char_count as int);
    }
    let mut total: usize = 0;
    let mut i: usize = 0;
    while i < k
        invariant
            n == line@.len(),
            0 <= i <= k <= n,
            total == if prefix_cells(line@, i as int) <= usize::MAX {
                prefix_cells(line@, i as int)
            } else {
                usize::MAX as int
            },
        decreases k - i,
    {
        let c = line.get_char(i);
        let w = if c == '\t' {
            4
        } else {
            char_display_width(c)
        };
        proof {
            lemma_prefix_cells_nonneg(line@, i as int);
            assert(prefix_cells(line@, i + 1) == prefix_cells(line@, i as int) + cell_width(
                line@[i as int],
            ));
        }
        total = total.saturating_add(w);
        i = i + 1;
    }
    total
}

proof fn lemma_prefix_cells_eq_clamp(s: Seq<char>, k: int)
    ensures
        prefix_cells(s, k) == prefix_cells(
            s,
            if k <= s.len() {
                k
            } else {
                s.len() as int
            },
        ),
{
}

/// The characters of `line` that fall inside the window after skipping
/// `skip_cols` display columns, cut off at `max_cols` columns. A character
/// half outside the left edge is dropped whole; zero-width characters
/// travel with the character before them.
pub fn visible_slice_by_display_width(line: &str, skip_cols: usize, max_cols: usize) -> (r: String)
{
    let n = line.unicode_len();
    let mut out = String::new();
    if max_cols == 0 || n == 0 {
        return out;
    }
    let mut consumed: usize = 0;
    let mut start: usize = n;
    let mut i: usize = 0;
    while i < n
        invariant
            n == line@.len(),
            0 <= i <= n,
            start <= n,
        decreases n - i,
    {
        let c = line.get_char(i);
        let width = if c == '\t' {
            4
        } else {
            char_display_width(c)
        };
        if consumed.saturating_add(width) <= skip_cols {
            consumed = consumed.saturating_add(width);
            i = i + 1;
            continue ;
        }
        start = if consumed < skip_cols {
            i + 1
        } else {
            i
        };
        break ;
    }
    if i == n {
        start = n;
    }
    let mut used: usize = 0;
    let mut j: usize = start;
    while j < n
        invariant
            n == line@.len(),
            start <= n,
            start <= j <= n,
        decreases n - j,
    {
        let c = line.get_char(j);
        let width = if c == '\t' {
            4
        } else {
            char_display_width(c)
        };
        if width == 0 {
            if out.as_str().unicode_len() > 0 {
                push_char(&mut out, c);
            }
            j = j + 1;
            continue ;
        }
        if used.saturating_add(width) > max_cols {
            break ;
        }
        if c == '\t' {
            push_char(&mut out, ' ');
            push_char(&mut out, ' ');
            push_char(&mut out, ' ');
            push_char(&mut out, ' ');
        } else {
            push_char(&mut out, c);
        }
        used = used.saturating_add(width);
        j = j + 1;
    }
    out
}

/// A line with each tab expanded to four spaces.
pub open spec fn expand_tabs(s: Seq<char>) -> Seq<char>
    decreases s.len(),
{
    if s.len() == 0 {
        Seq::empty()
    } else if s[0] == '\t' {
        seq![' ', ' ', ' ', ' '] + expand_tabs(s.drop_first())
    } else {
        seq![s[0]] + expand_tabs(s.drop_first())
    }
}

/// The line as the window shows it: tabs become four spaces; with
/// `show_caret_slot` an extra trailing space is kept for the cursor to rest
/// on.
pub fn render_line_for_display(line: &str, show_caret_slot: bool) -> (r: String)
    ensures
        !show_caret_slot ==> r@ == expand_tabs(line@),
        show_caret_slot ==> r@ == expand_tabs(line@).push(' '),
{
    let n = line.unicode_len();
    let mut out = String::new();
    let mut i: usize = 0;
    while i < n
        invariant
            n == line@.len(),
            0 <= i <= n,
            out@ == expand_tabs(line@.take(i as int)),
        decreases n - i,
    {
        let c = line.get_char(i);
        proof {
            lemma_expand_tabs_push(line@.take(i as int), line@[i as int]);
            assert(line@.take(i as int).push(line@[i as int]) =~= line@.take(i + 1));
        }
        if c == '\t' {
            push_char(&mut out, ' ');
            push_char(&mut out, ' ');
            push_char(&mut out, ' ');
            push_char(&mut out, ' ');
            proof {
                assert(out@ =~= expand_tabs(line@.take(i + 1)));
            }
        } else {
            push_char(&mut out, c);
            proof {
                assert(out@ =~= expand_tabs(line@.take(i + 1)));
            }
        }
        i = i + 1;
    }
    proof {
        assert(line@.take(n as int) =~= line@);
    }
    if show_caret_slot {
        push_char(&mut out, ' ');
    }
    out
}

proof fn lemma_expand_tabs_push(s: Seq<char>, c: char)
    ensures
        c == '\t' ==> expand_tabs(s.push(c)) == expand_tabs(s) + seq![' ', ' ', ' ', ' '],
        c != '\t' ==> expand_tabs(s.push(c)) == expand_tabs(s).push(c),
    decreases s.len(),
{
    if s.len() == 0 {
        assert(s.push(c)[0] == c);
        assert(s.push(c).drop_first() =~= Seq::<char>::empty());
        assert(expand_tabs(Seq::<char>::empty()) =~= Seq::<char>::empty());
        assert(expand_tabs(s) =~= Seq::<char>::empty());
        if c == '\t' {
            assert(expand_tabs(s.push(c)) =~= expand_tabs(s) + seq![' ', ' ', ' ', ' ']);
        } else {
            assert(expand_tabs(s.push(c)) =~= expand_tabs(s).push(c));
        }
    } else {
        lemma_expand_tabs_push(s.drop_first(), c);
        assert(s.push(c)[0] == s[0]);
        assert(s.push(c).drop_first() =~= s.drop_first().push(c));
        let head: Seq<char> = if s[0] == '\t' {
            seq![' ', ' ', ' ', ' ']
        } else {
            seq![s[0]]
        };
        assert(expand_tabs(s) == head + expand_tabs(s.drop_first()));
        assert(expand_tabs(s.push(c)) == head + expand_tabs(s.drop_first().push(c)));
        if c == '\t' {
            assert(expand_tabs(s.drop_first().push(c)) == expand_tabs(s.drop_first()) + seq![
                ' ',
                ' ',
                ' ',
                ' ',
            ]);
            assert(expand_tabs(s.push(c)) =~= expand_tabs(s) + seq![' ', ' ', ' ', ' ']);
        } else {
            assert(expand_tabs(s.drop_first().push(c)) == expand_tabs(s.drop_first()).push(c));
            assert(expand_tabs(s.push(c)) =~= expand_tabs(s).push(c));
        }
    }
}

/// Connector arms on a separator glyph, one bit each.
pub const DIR_UP: u8 = 1;

pub const DIR_DOWN: u8 = 2;

pub const DIR_LEFT: u8 = 4;

pub const DIR_RIGHT: u8 = 8;

/// The arms a box-drawing glyph carries; zero for anything else.
pub open spec fn spec_dirs_from_symbol(s: Seq<char>) -> u8 {
    if s.len() != 1 {
        0u8
    } else if s[0] == '│' {
        3u8
    } else if s[0] == '─' {
        12u8
    } else if s[0] == '├' {
        11u8
    } else if s[0] == '┤' {
        7u8
    } else if s[0] == '┬' {
        14u8
    } else if s[0] == '┴' {
        13u8
    } else if s[0] == '┼' {
        15u8
    } else if s[0] == '┌' {
        10u8
    } else if s[0] == '┐' {
        6u8
    } else if s[0] == '└' {
        9u8
    } else if s[0] == '┘' {
        5u8
    } else {
        0u8
    }
}

/// The glyph drawn for a set of connector arms.
pub open spec fn spec_symbol_from_dirs(dirs: u8) -> Seq<char> {
    if dirs == 15u8 {
        seq!['┼']
    } else if dirs == 11u8 {
        seq!['├']
    } else if dirs == 7u8 {
        seq!['┤']
    } else if dirs == 14u8 {
        seq!['┬']
    } else if dirs == 13u8 {
        seq!['┴']
    } else if dirs == 3u8 {
        seq!['│']
    } else if dirs == 12u8 {
        seq!['─']
    } else if dirs == 10u8 {
        seq!['┌']
    } else if dirs == 6u8 {
        seq!['┐']
    } else if dirs == 9u8 {
        seq!['└']
    } else if dirs == 5u8 {
        seq!['┘']
    } else if dirs == 1u8 || dirs == 2u8 {
        seq!['│']
    } else if dirs == 4u8 || dirs == 8u8 {
        seq!['─']
    } else {
        seq![' ']
    }
}

/// The connector arms a separator glyph carries.
pub fn dirs_from_symbol(symbol: &str) -> (r: u8)
    ensures
        r == spec_dirs_from_symbol(symbol@),
{
    if symbol.unicode_len() != 1 {
        return 0;
    }
    let c = symbol.get_char(0);
    proof {
        assert(symbol@ =~= seq![symbol@[0]]);
    }
    if c == '│' {
        3
    } else if c == '─' {
        12
    } else if c == '├' {
        11
    } else if c == '┤' {
        7
    } else if c == '┬' {
        14
    } else if c == '┴' {
        13
    } else if c == '┼' {
        15
    } else if c == '┌' {
        10
    } else if c == '┐' {
        6
    } else if c == '└' {
        9
    } else if c == '┘' {
        5
    } else {
        0
    }
}

/// The separator glyph for a set of connector arms.
pub fn symbol_from_dirs(dirs: u8) -> (r: &'static str)
    ensures
        r@ == spec_symbol_from_dirs(dirs),
{
    proof {
        reveal_strlit("┼");
        reveal_strlit("├");
        reveal_strlit("┤");
        reveal_strlit("┬");
        reveal_strlit("┴");
        reveal_strlit("│");
        reveal_strlit("─");
        reveal_strlit("┌");
        reveal_strlit("┐");
        reveal_strlit("└");
        reveal_strlit("┘");
        reveal_strlit(" ");
    }
    if dirs == 15 {
        "┼"
    } else if dirs == 11 {
        "├"
    } else if dirs == 7 {
        "┤"
    } else if dirs == 14 {
        "┬"
    } else if dirs == 13 {
        "┴"
    } else if dirs == 3 {
        "│"
    } else if dirs == 12 {
        "─"
    } else if dirs == 10 {
        "┌"
    } else if dirs == 6 {
        "┐"
    } else if dirs == 9 {
        "└"
    } else if dirs == 5 {
        "┘"
    } else if dirs == 1 || dirs == 2 {
        "│"
    } else if dirs == 4 || dirs == 8 {
        "─"
    } else {
        " "
    }
}

/// The glyph standing after new connector arms are merged into an existing
/// separator glyph.
pub fn merged_symbol(existing: &str, add_dirs: u8) -> (r: &'static str)
    ensures
        r@ == spec_symbol_from_dirs(spec_dirs_from_symbol(existing@) | add_dirs),
{
    symbol_from_dirs(dirs_from_symbol(existing) | add_dirs)
}

} // verus!

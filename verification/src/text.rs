//! Line- and byte-addressing primitives over buffer text.
//!
//! Buffer text is a `String`; rows are the fragments between `'\n'`
//! separators (an empty text has exactly one empty row). Byte positions are
//! positions in the UTF-8 encoding of the text, as `str::len` counts them.

use vstd::prelude::*;
use vstd::string::StrSliceExecFns;
use vstd::string::StringSliceAdditionalSpecFns;
use vstd::utf8::encode_utf8;

verus! {

/// The UTF-8 encoding of a character sequence.
pub open spec fn bytes_of(s: Seq<char>) -> Seq<u8> {
    encode_utf8(s)
}

/// Number of bytes in the UTF-8 encoding of a character sequence.
pub open spec fn byte_len(s: Seq<char>) -> nat {
    bytes_of(s).len()
}

/// The rows of a text: fragments between `'\n'` separators, in order.
/// Always has at least one element; a trailing `'\n'` yields a final empty row.
pub open spec fn lines_of(s: Seq<char>) -> Seq<Seq<char>>
    decreases s.len(),
{
    if s.len() == 0 {
        seq![Seq::<char>::empty()]
    } else if s[0] == '\n' {
        seq![Seq::<char>::empty()] + lines_of(s.drop_first())
    } else {
        let rest = lines_of(s.drop_first());
        seq![seq![s[0]] + rest[0]] + rest.drop_first()
    }
}

/// Joining rows with `'\n'` separators.
pub open spec fn join_lines(ls: Seq<Seq<char>>) -> Seq<char>
    decreases ls.len(),
{
    if ls.len() == 0 {
        Seq::empty()
    } else if ls.len() == 1 {
        ls[0]
    } else {
        ls[0] + seq!['\n'] + join_lines(ls.drop_first())
    }
}

pub broadcast proof fn lemma_lines_of_nonempty(s: Seq<char>)
    ensures
        (#[trigger] lines_of(s)).len() >= 1,
    decreases s.len(),
{
    if s.len() != 0 {
        lemma_lines_of_nonempty(s.drop_first());
    }
}

/// Splitting and joining are inverse: joining the rows of a text gives the text back.
pub proof fn lemma_join_lines_of(s: Seq<char>)
    ensures
        join_lines(lines_of(s)) == s,
    decreases s.len(),
{
    broadcast use lemma_lines_of_nonempty;

    if s.len() == 0 {
        assert(join_lines(lines_of(s)) =~= s);
    } else if s[0] == '\n' {
        lemma_join_lines_of(s.drop_first());
        let ls = lines_of(s);
        assert(ls.drop_first() =~= lines_of(s.drop_first()));
        assert(join_lines(ls) =~= s);
    } else {
        lemma_join_lines_of(s.drop_first());
        let rest = lines_of(s.drop_first());
        let ls = lines_of(s);
        if rest.len() == 1 {
            assert(ls.len() == 1);
            assert(ls[0] =~= seq![s[0]] + rest[0]);
            assert(join_lines(ls) == ls[0]);
            assert(join_lines(rest) == rest[0]);
            assert(join_lines(ls) =~= s);
        } else {
            assert(ls.len() == rest.len());
            assert(ls[0] =~= seq![s[0]] + rest[0]);
            assert(ls.drop_first() =~= rest.drop_first());
            assert(join_lines(ls) == ls[0] + seq!['\n'] + join_lines(ls.drop_first()));
            assert(join_lines(rest) == rest[0] + seq!['\n'] + join_lines(rest.drop_first()));
            assert(join_lines(ls) =~= seq![s[0]] + join_lines(rest));
            assert(join_lines(ls) =~= s);
        }
    }
}

/// Appending one character to a text extends its last row, or starts a new
/// empty row when the character is the separator.
pub proof fn lemma_lines_of_push(s: Seq<char>, c: char)
    ensures
        c == '\n' ==> lines_of(s.push(c)) == lines_of(s) + seq![Seq::<char>::empty()],
        c != '\n' ==> lines_of(s.push(c)) == lines_of(s).update(
            lines_of(s).len() - 1,
            lines_of(s).last().push(c),
        ),
    decreases s.len(),
{
    broadcast use lemma_lines_of_nonempty;

    if s.len() == 0 {
        if c == '\n' {
            assert(s.push(c)[0] == '\n');
            assert(s.push(c).drop_first() =~= Seq::<char>::empty());
            assert(lines_of(Seq::<char>::empty()) =~= seq![Seq::<char>::empty()]);
            assert(lines_of(s.push(c)) =~= seq![Seq::<char>::empty()] + lines_of(
                s.push(c).drop_first(),
            ));
            assert(lines_of(s.push(c)) =~= lines_of(s) + seq![Seq::<char>::empty()]);
        } else {
            assert(s.push(c)[0] == c);
            assert(s.push(c).drop_first() =~= Seq::<char>::empty());
            let rest = lines_of(Seq::<char>::empty());
            assert(lines_of(s.push(c)) =~= seq![seq![c] + rest[0]] + rest.drop_first());
            assert(lines_of(s.push(c)) =~= lines_of(s).update(
                lines_of(s).len() - 1,
                lines_of(s).last().push(c),
            ));
        }
    } else {
        lemma_lines_of_push(s.drop_first(), c);
        assert(s.push(c)[0] == s[0]);
        assert(s.push(c).drop_first() =~= s.drop_first().push(c));
        let tail_old = lines_of(s.drop_first());
        let tail_new = lines_of(s.drop_first().push(c));
        if s[0] == '\n' {
            if c == '\n' {
                assert(tail_new =~= tail_old + seq![Seq::<char>::empty()]);
                assert(lines_of(s.push(c)) =~= seq![Seq::<char>::empty()] + tail_new);
                assert(lines_of(s) =~= seq![Seq::<char>::empty()] + tail_old);
                assert(lines_of(s.push(c)) =~= lines_of(s) + seq![Seq::<char>::empty()]);
            } else {
                assert(tail_new =~= tail_old.update(tail_old.len() - 1, tail_old.last().push(c)));
                assert(lines_of(s.push(c)) =~= seq![Seq::<char>::empty()] + tail_new);
                assert(lines_of(s) =~= seq![Seq::<char>::empty()] + tail_old);
                assert(lines_of(s.push(c)) =~= lines_of(s).update(
                    lines_of(s).len() - 1,
                    lines_of(s).last().push(c),
                ));
            }
        } else {
            if c == '\n' {
                assert(tail_new =~= tail_old + seq![Seq::<char>::empty()]);
                assert(tail_new[0] == tail_old[0]);
                assert(lines_of(s.push(c)) =~= lines_of(s) + seq![Seq::<char>::empty()]);
            } else {
                assert(tail_new =~= tail_old.update(tail_old.len() - 1, tail_old.last().push(c)));
                if tail_old.len() == 1 {
                    assert(lines_of(s.push(c)) =~= lines_of(s).update(
                        lines_of(s).len() - 1,
                        lines_of(s).last().push(c),
                    ));
                } else {
                    assert(tail_new[0] == tail_old[0]);
                    assert(lines_of(s.push(c)) =~= lines_of(s).update(
                        lines_of(s).len() - 1,
                        lines_of(s).last().push(c),
                    ));
                }
            }
        }
    }
}

/// UTF-8 encoding distributes over concatenation.
pub proof fn lemma_bytes_of_concat(a: Seq<char>, b: Seq<char>)
    ensures
        bytes_of(a + b) == bytes_of(a) + bytes_of(b),
    decreases a.len(),
{
    if a.len() == 0 {
        assert(a + b =~= b);
        assert(bytes_of(a) =~= Seq::<u8>::empty());
        assert(bytes_of(a + b) =~= bytes_of(a) + bytes_of(b));
    } else {
        lemma_bytes_of_concat(a.drop_first(), b);
        assert((a + b)[0] == a[0]);
        assert((a + b).drop_first() =~= a.drop_first() + b);
        assert(bytes_of(a + b) =~= bytes_of(a) + bytes_of(b));
    }
}

/// Character index where row `row` starts, counting each earlier row plus
/// its `'\n'` separator.
pub open spec fn row_start_char(ls: Seq<Seq<char>>, row: int) -> int
    decreases row,
{
    if row <= 0 {
        0
    } else {
        row_start_char(ls, row - 1) + ls[row - 1].len() + 1
    }
}

pub proof fn lemma_row_start_char_shift(ls: Seq<Seq<char>>, row: int)
    requires
        1 <= row <= ls.len(),
    ensures
        row_start_char(ls, row) == ls[0].len() + 1 + row_start_char(ls.drop_first(), row - 1),
    decreases row,
{
    if row == 1 {
        assert(row_start_char(ls, 1) == row_start_char(ls, 0) + ls[0].len() + 1);
        assert(row_start_char(ls, 0) == 0);
        assert(row_start_char(ls.drop_first(), 0) == 0);
    } else {
        lemma_row_start_char_shift(ls, row - 1);
        assert(ls.drop_first()[row - 2] == ls[row - 1]);
        assert(row_start_char(ls, row) == row_start_char(ls, row - 1) + ls[row - 1].len() + 1);
        assert(row_start_char(ls.drop_first(), row - 1) == row_start_char(ls.drop_first(), row - 2)
            + ls.drop_first()[row - 2].len() + 1);
    }
}

/// Dropping the first row: the text after the first separator splits into the
/// remaining rows.
pub proof fn lemma_lines_of_skip_first(s: Seq<char>)
    requires
        lines_of(s).len() > 1,
    ensures
        lines_of(s)[0].len() < s.len(),
        s.subrange(0, lines_of(s)[0].len() as int) == lines_of(s)[0],
        s[lines_of(s)[0].len() as int] == '\n',
        lines_of(s.skip(lines_of(s)[0].len() as int + 1)) == lines_of(s).drop_first(),
    decreases s.len(),
{
    broadcast use lemma_lines_of_nonempty;

    let ls = lines_of(s);
    if s[0] == '\n' {
        assert(ls =~= seq![Seq::<char>::empty()] + lines_of(s.drop_first()));
        assert(ls[0].len() == 0);
        assert(s.subrange(0, 0) =~= ls[0]);
        assert(s.skip(1) =~= s.drop_first());
        assert(lines_of(s.skip(ls[0].len() as int + 1)) =~= ls.drop_first());
    } else {
        let rest = lines_of(s.drop_first());
        assert(ls =~= seq![seq![s[0]] + rest[0]] + rest.drop_first());
        assert(rest.len() == ls.len());
        lemma_lines_of_skip_first(s.drop_first());
        assert(ls[0].len() == rest[0].len() + 1);
        assert(s[ls[0].len() as int] == s.drop_first()[rest[0].len() as int]);
        assert(s.subrange(0, ls[0].len() as int) =~= seq![s[0]] + s.drop_first().subrange(
            0,
            rest[0].len() as int,
        ));
        assert(s.subrange(0, ls[0].len() as int) == ls[0]);
        assert(s.skip(ls[0].len() as int + 1) =~= s.drop_first().skip(rest[0].len() as int + 1));
        assert(lines_of(s.skip(ls[0].len() as int + 1)) =~= ls.drop_first());
    }
}

/// Where each row sits inside the joined text: its characters are a
/// contiguous slice, each non-final row is followed by the separator, and the
/// final row ends the text.
pub proof fn lemma_row_slice(s: Seq<char>, row: int)
    requires
        0 <= row < lines_of(s).len(),
    ensures
        row_start_char(lines_of(s), row) + lines_of(s)[row].len() <= s.len(),
        0 <= row_start_char(lines_of(s), row),
        s.subrange(
            row_start_char(lines_of(s), row),
            row_start_char(lines_of(s), row) + lines_of(s)[row].len(),
        ) == lines_of(s)[row],
        row < lines_of(s).len() - 1 ==> row_start_char(lines_of(s), row) + lines_of(
            s,
        )[row].len() < s.len(),
        row < lines_of(s).len() - 1 ==> s[row_start_char(lines_of(s), row) + lines_of(
            s,
        )[row].len()] == '\n',
        row == lines_of(s).len() - 1 ==> row_start_char(lines_of(s), row) + lines_of(s)[row].len()
            == s.len(),
    decreases row,
{
    broadcast use lemma_lines_of_nonempty;

    let ls = lines_of(s);
    if row == 0 {
        if ls.len() == 1 {
            lemma_join_lines_of(s);
            assert(join_lines(ls) == ls[0]);
            assert(s.subrange(0, ls[0].len() as int) =~= ls[0]);
        } else {
            lemma_lines_of_skip_first(s);
        }
    } else {
        lemma_lines_of_skip_first(s);
        let s2 = s.skip(ls[0].len() as int + 1);
        lemma_row_slice(s2, row - 1);
        lemma_row_start_char_shift(ls, row);
        assert(lines_of(s2) == ls.drop_first());
        assert(ls.drop_first()[row - 1] == ls[row]);
        let st2 = row_start_char(ls.drop_first(), row - 1);
        let l0: int = ls[0].len() as int;
        assert(row_start_char(ls, row) == l0 + 1 + st2);
        assert(s2.subrange(st2, st2 + ls[row].len()) =~= s.subrange(
            row_start_char(ls, row),
            row_start_char(ls, row) + ls[row].len(),
        ));
        if row < ls.len() - 1 {
            assert(st2 + ls[row].len() < s2.len());
            assert(s2[st2 + ls[row].len()] == s[l0 + 1 + st2 + ls[row].len()]);
            assert(s[row_start_char(ls, row) + ls[row].len()] == '\n');
        }
    }
}

/// The rows of a text, as owned strings: the fragments between `'\n'`
/// separators, in order; always at least one element.
pub fn split_lines_owned(text: &str) -> (r: Vec<String>)
    ensures
        r@.map_values(|l: String| l@) == lines_of(text@),
        r@.len() >= 1,
{
    broadcast use lemma_lines_of_nonempty;

    let n = text.unicode_len();
    let mut out: Vec<String> = Vec::new();
    let mut cur_start: usize = 0;
    let mut i: usize = 0;
    proof {
        assert(out@.map_values(|l: String| l@).push(text@.subrange(0, 0)) =~~= lines_of(
            text@.take(0),
        ));
    }
    while i < n
        invariant
            n == text@.len(),
            0 <= cur_start <= i <= n,
            out@.map_values(|l: String| l@).push(text@.subrange(cur_start as int, i as int))
                =~~= lines_of(text@.take(i as int)),
        decreases n - i,
    {
        let ghost pre = text@.take(i as int);
        proof {
            lemma_lines_of_push(pre, text@[i as int]);
            assert(pre.push(text@[i as int]) =~= text@.take(i + 1));
        }
        let c = text.get_char(i);
        if c == '\n' {
            let line = string_from_str(text.substring_char(cur_start, i));
            proof {
                let m = out@.map_values(|l: String| l@);
                assert(line@ == text@.subrange(cur_start as int, i as int));
                assert(m.push(line@) =~~= lines_of(pre));
                assert(lines_of(text@.take(i + 1)) =~~= lines_of(pre) + seq![
                    Seq::<char>::empty(),
                ]);
                assert(out@.push(line).map_values(|l: String| l@) =~~= m.push(line@));
            }
            out.push(line);
            cur_start = i + 1;
            i = i + 1;
            proof {
                assert(text@.subrange(cur_start as int, i as int) =~= Seq::<char>::empty());
                assert(out@.map_values(|l: String| l@).push(
                    text@.subrange(cur_start as int, i as int),
                ) =~~= lines_of(text@.take(i as int)));
            }
        } else {
            i = i + 1;
            proof {
                let m = out@.map_values(|l: String| l@);
                let old_part = text@.subrange(cur_start as int, i - 1);
                let new_part = text@.subrange(cur_start as int, i as int);
                assert(new_part =~= old_part.push(text@[i - 1]));
                assert(m.push(old_part) =~~= lines_of(pre));
                assert(lines_of(pre).last() == old_part);
                assert(lines_of(text@.take(i as int)) =~~= lines_of(pre).update(
                    lines_of(pre).len() - 1,
                    old_part.push(text@[i - 1]),
                ));
                assert(m.push(new_part) =~~= lines_of(text@.take(i as int)));
            }
        }
    }
    let last = string_from_str(text.substring_char(cur_start, n));
    proof {
        assert(text@.take(n as int) =~= text@);
        let m = out@.map_values(|l: String| l@);
        assert(last@ == text@.subrange(cur_start as int, n as int));
        assert(m.push(last@) =~~= lines_of(text@));
        assert(out@.push(last).map_values(|l: String| l@) =~~= m.push(last@));
    }
    out.push(last);
    out
}

/// Joining rows with `'\n'`: the inverse of `split_lines_owned`.
pub fn join_all_lines(lines: &Vec<String>) -> (r: String)
    ensures
        r@ == join_lines(lines@.map_values(|l: String| l@)),
{
    let ghost ls = lines@.map_values(|l: String| l@);
    let mut r = String::new();
    let mut i: usize = 0;
    while i < lines.len()
        invariant
            ls == lines@.map_values(|l: String| l@),
            0 <= i <= lines@.len(),
            r@ == join_lines(ls.take(i as int)),
        decreases lines@.len() - i,
    {
        proof {
            reveal_strlit("\n");
        }
        if i > 0 {
            r.append("\n");
        }
        r.append(lines[i].as_str());
        i = i + 1;
        proof {
            lemma_join_lines_push(ls.take(i - 1), ls[i - 1]);
            assert(ls.take(i - 1).push(ls[i - 1]) =~= ls.take(i as int));
            if i - 1 == 0 {
                assert(join_lines(ls.take(0)).len() == 0);
                assert(r@ =~= join_lines(ls.take(i as int)));
            } else {
                assert(r@ =~= join_lines(ls.take(i - 1)) + seq!['\n'] + ls[i - 1]);
            }
        }
    }
    proof {
        assert(ls.take(ls.len() as int) =~= ls);
    }
    r
}

pub proof fn lemma_join_lines_push(ls: Seq<Seq<char>>, l: Seq<char>)
    ensures
        ls.len() == 0 ==> join_lines(ls.push(l)) == l,
        ls.len() > 0 ==> join_lines(ls.push(l)) == join_lines(ls) + seq!['\n'] + l,
    decreases ls.len(),
{
    if ls.len() == 0 {
        assert(ls.push(l).len() == 1);
        assert(join_lines(ls.push(l)) == ls.push(l)[0]);
        assert(ls.push(l)[0] == l);
    } else {
        lemma_join_lines_push(ls.drop_first(), l);
        assert(ls.push(l).drop_first() =~= ls.drop_first().push(l));
        assert(ls.push(l)[0] == ls[0]);
        if ls.len() == 1 {
            assert(join_lines(ls) == ls[0]);
            assert(join_lines(ls.push(l)) =~= join_lines(ls) + seq!['\n'] + l);
        } else {
            assert(join_lines(ls.push(l)) =~= join_lines(ls) + seq!['\n'] + l);
        }
    }
}

/// Copies a string slice into an owned string.
fn string_from_str(s: &str) -> (r: String)
    ensures
        r@ == s@,
{
    String::from_str(s)
}

/// Byte index of the character at position `char_idx` in `s`, or the total
/// byte length when `char_idx` is past the end.
pub fn char_to_byte_idx(s: &str, char_idx: usize) -> (r: usize)
    ensures
        r == byte_len(s@.take(if char_idx <= s@.len() {
            char_idx as int
        } else {
            s@.len() as int
        })),
{
    let n = s.unicode_len();
    let k = if char_idx < n {
        char_idx
    } else {
        n
    };
    let prefix = s.substring_char(0, k);
    let b = prefix.as_bytes();
    let r = b.len();
    proof {
        broadcast use vstd::slice::axiom_spec_len;

        assert(prefix@ =~= s@.take(k as int));
        assert(prefix.spec_bytes() == bytes_of(prefix@));
        assert(bytes_of(prefix@) == bytes_of(s@.take(k as int)));
        assert(r == byte_len(s@.take(k as int)));
        assert(k as int == if char_idx <= s@.len() {
            char_idx as int
        } else {
            s@.len() as int
        });
    }
    r
}


/// Byte positions split additively at any character index.
pub proof fn lemma_byte_len_take_split(s: Seq<char>, a: int, b: int)
    requires
        0 <= a <= b <= s.len(),
    ensures
        byte_len(s.take(b)) == byte_len(s.take(a)) + byte_len(s.subrange(a, b)),
{
    assert(s.take(b) =~= s.take(a) + s.subrange(a, b));
    lemma_bytes_of_concat(s.take(a), s.subrange(a, b));
}

/// Removing one character from a row removes exactly that character of
/// the joined text: the shortened rows join to the text without the
/// character standing at the row's position.
pub proof fn lemma_remove_char_in_row(t: Seq<char>, row: int, col: int)
    requires
        0 <= row < lines_of(t).len(),
        0 <= col < lines_of(t)[row].len(),
    ensures
        ({
            let ls = lines_of(t);
            let sci = row_start_char(ls, row) + col;
            &&& 0 <= sci < t.len()
            &&& t[sci] == ls[row][col]
            &&& join_lines(ls.update(row, ls[row].take(col) + ls[row].skip(col + 1))) == t.take(
                sci,
            ) + t.skip(sci + 1)
        }),
    decreases row,
{
    broadcast use lemma_lines_of_nonempty;

    let ls = lines_of(t);
    let l = ls[row];
    let lcut = l.take(col) + l.skip(col + 1);
    let sci = row_start_char(ls, row) + col;
    lemma_row_slice(t, row);
    assert(t[sci] == ls[row][col]);
    if row == 0 {
        assert(row_start_char(ls, 0) == 0);
        if ls.len() == 1 {
            lemma_join_lines_of(t);
            assert(join_lines(ls) == l);
            assert(t == l);
            assert(ls.update(0, lcut).len() == 1);
            assert(join_lines(ls.update(0, lcut)) == lcut);
            assert(lcut =~= t.take(col as int) + t.skip(col + 1));
        } else {
            lemma_lines_of_skip_first(t);
            let rest = t.skip(l.len() as int + 1);
            assert(lines_of(rest) =~= ls.drop_first());
            assert(ls.update(0, lcut)[0] == lcut);
            assert(ls.update(0, lcut).drop_first() =~= ls.drop_first());
            assert(join_lines(ls.update(0, lcut)) == lcut + seq!['\n'] + join_lines(
                ls.drop_first(),
            ));
            lemma_join_lines_of(rest);
            assert(join_lines(ls.drop_first()) == rest);
            assert(t.take(l.len() as int) =~= l);
            assert(t[l.len() as int] == '\n');
            assert(lcut + seq!['\n'] + rest =~= t.take(col as int) + t.skip(col + 1));
        }
    } else {
        lemma_lines_of_skip_first(t);
        let rest = t.skip(ls[0].len() as int + 1);
        assert(lines_of(rest) =~= ls.drop_first());
        lemma_remove_char_in_row(rest, row - 1, col);
        lemma_row_start_char_shift(ls, row);
        let sci2 = row_start_char(ls.drop_first(), row - 1) + col;
        assert(sci == ls[0].len() + 1 + sci2);
        lemma_row_slice(t, 0);
        assert(t.take(ls[0].len() as int) =~= ls[0]);
        assert(t[ls[0].len() as int] == '\n');
        assert(ls.drop_first()[row - 1] == ls[row]);
        let ls2cut = ls.drop_first().update(row - 1, lcut);
        assert(ls.update(row, lcut)[0] == ls[0]);
        assert(ls.update(row, lcut).drop_first() =~= ls2cut);
        assert(join_lines(ls.update(row, lcut)) == ls[0] + seq!['\n'] + join_lines(ls2cut));
        assert(join_lines(ls2cut) == rest.take(sci2) + rest.skip(sci2 + 1));
        assert(ls[0] + seq!['\n'] + (rest.take(sci2) + rest.skip(sci2 + 1)) =~= t.take(sci)
            + t.skip(sci + 1));
    }
}

/// Character index of the slot `col_idx` characters into row `row_idx`,
/// clamped to the row's end.
pub open spec fn slot_char_idx(s: Seq<char>, row_idx: int, col_idx: int) -> int {
    let ls = lines_of(s);
    row_start_char(ls, row_idx) + (if col_idx <= ls[row_idx].len() {
        col_idx
    } else {
        ls[row_idx].len() as int
    })
}

/// Row `row_idx` of the text as an owned string, if the text has that many
/// rows.
pub fn line_text_at(text: &str, row_idx: usize) -> (r: Option<String>)
    ensures
        r is Some <==> row_idx < lines_of(text@).len(),
        r is Some ==> r.unwrap()@ == lines_of(text@)[row_idx as int],
{
    let ls = split_lines_owned(text);
    if row_idx < ls.len() {
        proof {
            assert(lines_of(text@)[row_idx as int] == ls@.map_values(|l: String| l@)[
                row_idx as int
            ]);
        }
        Some(ls[row_idx].clone())
    } else {
        None
    }
}

/// Byte position where row `row_idx` starts, if the text has that many rows.
pub fn line_start_byte_idx(text: &str, row_idx: usize) -> (r: Option<usize>)
    ensures
        r is Some <==> row_idx < lines_of(text@).len(),
        r is Some ==> r.unwrap() == byte_len(
            text@.take(row_start_char(lines_of(text@), row_idx as int)),
        ),
{
    let ghost lsg = lines_of(text@);
    let n = text.unicode_len();
    let ls = split_lines_owned(text);
    if row_idx >= ls.len() {
        return None;
    }
    let mut cs: usize = 0;
    let mut j: usize = 0;
    while j < row_idx
        invariant
            lsg == lines_of(text@),
            n == text@.len(),
            ls@.map_values(|l: String| l@) == lsg,
            0 <= j <= row_idx < ls@.len(),
            cs == row_start_char(lsg, j as int),
            cs <= n,
        decreases row_idx - j,
    {
        proof {
            lemma_row_slice(text@, j as int);
            assert(lsg[j as int] == ls@.map_values(|l: String| l@)[j as int]);
            if j + 1 < lsg.len() {
                lemma_row_slice(text@, j + 1);
            }
        }
        let rl = ls[j].as_str().unicode_len();
        cs = cs + rl + 1;
        j = j + 1;
        proof {
            if (j as int) < lsg.len() - 1 {
            } else {
                lemma_row_slice(text@, lsg.len() - 1);
            }
        }
    }
    Some(char_to_byte_idx(text, cs))
}

/// Byte position of the cursor slot at 1-based `row` and `col`, clamping the
/// column to the row's end; `None` when the text has no such row.
pub fn cursor_slot_to_byte_idx(text: &str, row: u16, col: u16) -> (r: Option<usize>)
    ensures
        r is Some <==> row as int - 1 < lines_of(text@).len(),
        r is Some ==> r.unwrap() == byte_len(
            text@.take(
                slot_char_idx(
                    text@,
                    if row >= 1 {
                        row - 1
                    } else {
                        0
                    },
                    if col >= 1 {
                        col - 1
                    } else {
                        0
                    },
                ),
            ),
        ),
{
    let row_idx = if row >= 1 {
        (row - 1) as usize
    } else {
        0
    };
    let col_idx = if col >= 1 {
        (col - 1) as usize
    } else {
        0
    };
    let ghost lsg = lines_of(text@);
    let n = text.unicode_len();
    let ls = split_lines_owned(text);
    if row_idx >= ls.len() {
        return None;
    }
    let mut cs: usize = 0;
    let mut j: usize = 0;
    while j < row_idx
        invariant
            lsg == lines_of(text@),
            n == text@.len(),
            ls@.map_values(|l: String| l@) == lsg,
            0 <= j <= row_idx < ls@.len(),
            cs == row_start_char(lsg, j as int),
            cs <= n,
        decreases row_idx - j,
    {
        proof {
            lemma_row_slice(text@, j as int);
            assert(lsg[j as int] == ls@.map_values(|l: String| l@)[j as int]);
        }
        let rl = ls[j].as_str().unicode_len();
        cs = cs + rl + 1;
        j = j + 1;
    }
    proof {
        lemma_row_slice(text@, row_idx as int);
        assert(lsg[row_idx as int] == ls@.map_values(|l: String| l@)[row_idx as int]);
    }
    let rl = ls[row_idx].as_str().unicode_len();
    let inside = if col_idx <= rl {
        col_idx
    } else {
        rl
    };
    Some(char_to_byte_idx(text, cs + inside))
}

/// Number of rows as the display logic counts them: a trailing separator
/// does not open a further row, and an empty text still shows one row.
pub open spec fn rendered_rows(s: Seq<char>) -> int {
    if s.len() == 0 {
        1
    } else if s.last() == '\n' {
        lines_of(s).len() - 1
    } else {
        lines_of(s).len() as int
    }
}

/// Rows of the text as the display counts them; at least 1.
pub fn rendered_line_count(text: &str) -> (r: usize)
    ensures
        r == rendered_rows(text@),
        r >= 1,
{
    broadcast use lemma_lines_of_nonempty;

    let n = text.unicode_len();
    if n == 0 {
        proof {
            assert(text@.len() == 0);
        }
        return 1;
    }
    let ls = split_lines_owned(text);
    let last = text.get_char(n - 1);
    proof {
        assert(text@.last() == text@[n - 1]);
        if text@.last() == '\n' {
            lemma_lines_of_push(text@.take(n - 1), '\n');
            assert(text@.take(n - 1).push('\n') =~= text@);
            lemma_lines_of_nonempty(text@.take(n - 1));
        }
    }
    if last == '\n' {
        ls.len() - 1
    } else {
        ls.len()
    }
}

/// Whether the byte range replacement described by `start`/`removed_len`
/// falls on character boundaries of the text.
pub open spec fn replace_applies(t: Seq<char>, start: int, removed_len: int) -> bool {
    &&& 0 <= start
    &&& 0 <= removed_len
    &&& start + removed_len <= byte_len(t)
    &&& vstd::utf8::is_char_boundary(bytes_of(t), start)
    &&& vstd::utf8::is_char_boundary(bytes_of(t), start + removed_len)
}

/// The bytes of the text after replacing `removed_len` bytes at `start` with
/// `new_part`.
pub open spec fn spec_replace_bytes(
    t: Seq<char>,
    start: int,
    removed_len: int,
    new_part: Seq<char>,
) -> Seq<u8> {
    bytes_of(t).take(start) + bytes_of(new_part) + bytes_of(t).skip(start + removed_len)
}

/// Outcome of `replace_byte_range`: on success the bytes are spliced, on
/// failure the text is untouched.
pub open spec fn replace_post(
    t0: Seq<char>,
    start: int,
    removed_len: int,
    repl: Seq<char>,
    t1: Seq<char>,
    ok: bool,
) -> bool {
    &&& (ok ==> bytes_of(t1) == spec_replace_bytes(t0, start, removed_len, repl))
    &&& (!ok ==> t1 == t0)
}

/// Replaces `removed_len` bytes at byte position `start` of `text` with
/// `replacement`. Leaves the text unchanged and reports `false` when the
/// range does not fall on character boundaries.
pub fn replace_byte_range(text: &mut String, start: usize, removed_len: usize, replacement: &str) -> (ok: bool)
    ensures
        ok == replace_applies(old(text)@, start as int, removed_len as int),
        replace_post(old(text)@, start as int, removed_len as int, replacement@, final(text)@, ok),
{
    proof {
        broadcast use vstd::slice::axiom_spec_len;
    }
    let n = text.as_str().as_bytes().len();
    proof {
        assert(n == byte_len(text@));
    }
    if start > n || removed_len > n - start {
        return false;
    }
    let end = start + removed_len;
    if !text.as_str().is_char_boundary(start) || !text.as_str().is_char_boundary(end) {
        return false;
    }
    let ghost t0 = text@;
    let ghost b0 = bytes_of(t0);
    let (pre, rest) = text.as_str().split_at(start);
    proof {
        broadcast use vstd::utf8::encode_utf8_valid_utf8;
        broadcast use vstd::utf8::is_char_boundary_start_end_of_seq;

        assert(rest.spec_bytes() =~= b0.skip(start as int));
        assert(vstd::utf8::valid_utf8(rest.spec_bytes()));
        if removed_len < rest.spec_bytes().len() {
            assert(rest.spec_bytes()[removed_len as int] == b0[end as int]);
            vstd::utf8::is_char_boundary_iff_not_is_continuation_byte(b0, end as int);
            vstd::utf8::is_char_boundary_iff_not_is_continuation_byte(
                rest.spec_bytes(),
                removed_len as int,
            );
        } else {
            assert(removed_len == rest.spec_bytes().len());
        }
        assert(vstd::utf8::is_char_boundary(rest.spec_bytes(), removed_len as int));
    }
    let (_mid, suf) = rest.split_at(removed_len);
    let mut out = String::from_str(pre);
    out.append(replacement);
    out.append(suf);
    proof {
        assert(out@ =~= pre@ + replacement@ + suf@);
        lemma_bytes_of_concat(pre@ + replacement@, suf@);
        lemma_bytes_of_concat(pre@, replacement@);
        assert(bytes_of(pre@ + replacement@ + suf@) =~= bytes_of(pre@) + bytes_of(replacement@)
            + bytes_of(suf@));
        assert((pre@ + replacement@ + suf@) =~= (pre@ + replacement@) + suf@);
        assert(pre.spec_bytes() =~= b0.take(start as int));
        assert(suf.spec_bytes() =~= b0.skip(start as int).skip(removed_len as int));
        assert(b0.skip(start as int).skip(removed_len as int) =~= b0.skip(end as int));
        assert(bytes_of(out@) =~= spec_replace_bytes(t0, start as int, removed_len as int,
            replacement@));
    }
    *text = out;
    true
}


/// A non-empty character sequence encodes to at least one byte.
pub proof fn lemma_byte_len_pos(s: Seq<char>)
    requires
        s.len() > 0,
    ensures
        byte_len(s) >= 1,
{
    assert(bytes_of(s) == vstd::utf8::encode_scalar(s[0] as u32) + encode_utf8(s.drop_first()));
    assert(vstd::utf8::encode_scalar(s[0] as u32).len() >= 1);
}

/// Every earlier row pushes the start of a later row at least one
/// character in.
pub proof fn lemma_row_start_char_pos(ls: Seq<Seq<char>>, k: int)
    requires
        0 <= k,
    ensures
        row_start_char(ls, k) >= k,
    decreases k,
{
    if k > 0 {
        lemma_row_start_char_pos(ls, k - 1);
    }
}

} // verus!

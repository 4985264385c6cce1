//! Normalization of compiler output for comparison against expected
//! diagnostics: trailing whitespace is trimmed, Windows line endings are
//! unified, location and boilerplate lines are dropped, and runs of blank
//! lines collapse.

use vstd::prelude::*;

verus! {

use vstd::string::StringExecFns;
use vstd::string::StrSliceExecFns;

/// The whitespace characters trimmed from line ends: ASCII blanks.
pub open spec fn is_ws(c: char) -> bool {
    c == ' ' || c == '\t' || c == '\n' || c == '\r' || c == '\u{b}' || c == '\u{c}'
}

/// `s` with its trailing whitespace removed.
pub open spec fn strip_trailing_ws(s: Seq<char>) -> Seq<char>
    decreases s.len(),
{
    if s.len() == 0 {
        s
    } else if is_ws(s.last()) {
        strip_trailing_ws(s.drop_last())
    } else {
        s
    }
}

/// The trimmed form of `s`: trailing whitespace gone, and one final
/// newline exactly when anything is left.
pub open spec fn spec_trim(s: Seq<char>) -> Seq<char> {
    let t = strip_trailing_ws(s);
    if t.len() == 0 {
        t
    } else {
        t.push('\n')
    }
}

/// `s` with every `\r\n` pair replaced by `\n`, left to right.
pub open spec fn spec_replace_crlf(s: Seq<char>) -> Seq<char>
    decreases s.len(),
{
    if s.len() >= 2 && s[0] == '\r' && s[1] == '\n' {
        seq!['\n'] + spec_replace_crlf(s.skip(2))
    } else if s.len() >= 1 {
        seq![s[0]] + spec_replace_crlf(s.skip(1))
    } else {
        s
    }
}

/// The index of the first newline in `s`, or its length when none occurs.
pub open spec fn first_newline(s: Seq<char>) -> nat
    decreases s.len(),
{
    if s.len() == 0 {
        0
    } else if s[0] == '\n' {
        0
    } else {
        1 + first_newline(s.skip(1))
    }
}

/// The lines of `s`: split at each newline, one trailing `\r` stripped from
/// a terminated line, and no empty line after a final newline.
pub open spec fn spec_lines(s: Seq<char>) -> Seq<Seq<char>>
    decreases s.len(),
{
    if s.len() == 0 {
        Seq::empty()
    } else {
        let k = first_newline(s) as int;
        let seg = s.take(k);
        let line = if k < s.len() && seg.len() > 0 && seg.last() == '\r' {
            seg.drop_last()
        } else {
            seg
        };
        if k < s.len() {
            seq![line] + spec_lines(s.skip(k + 1))
        } else {
            seq![line]
        }
    }
}

/// `s` with its leading whitespace removed.
pub open spec fn strip_leading_ws(s: Seq<char>) -> Seq<char>
    decreases s.len(),
{
    if s.len() == 0 {
        s
    } else if is_ws(s[0]) {
        strip_leading_ws(s.skip(1))
    } else {
        s
    }
}

/// Whether a diagnostic line is kept: location arrows and two pieces of
/// boilerplate are dropped, everything else stays.
pub open spec fn spec_keep(line: Seq<char>) -> bool {
    &&& !(strip_leading_ws(line).len() >= 4 && strip_leading_ws(line).take(4) == "--> "@)
    &&& line != "error: aborting due to previous error"@
    &&& line != "To learn more, run the command again with --verbose."@
}

/// Whether `w` ends in a blank line: its last two characters are newlines.
pub open spec fn ends_blank(w: Seq<char>) -> bool {
    w.len() >= 2 && w[w.len() - 1] == '\n' && w[w.len() - 2] == '\n'
}

/// One step of reassembly: a kept line is appended, followed by a newline
/// unless the output already ends in a blank line.
pub open spec fn keep_step(acc: Seq<char>, line: Seq<char>) -> Seq<char> {
    if spec_keep(line) {
        let w = acc + line;
        if ends_blank(w) {
            w
        } else {
            w.push('\n')
        }
    } else {
        acc
    }
}

/// Reassembles the kept lines, left to right.
pub open spec fn filter_lines(lines: Seq<Seq<char>>, acc: Seq<char>) -> Seq<char>
    decreases lines.len(),
{
    if lines.len() == 0 {
        acc
    } else {
        filter_lines(lines.drop_first(), keep_step(acc, lines[0]))
    }
}

/// The fully normalized diagnostics of `s`.
pub open spec fn spec_diagnostics(s: Seq<char>) -> Seq<char> {
    spec_trim(filter_lines(spec_lines(spec_replace_crlf(s)), Seq::empty()))
}

/// Whether `c` is trimmed as whitespace.
fn is_ws_char(c: char) -> (r: bool)
    ensures
        r == is_ws(c),
{
    c == ' ' || c == '\t' || c == '\n' || c == '\r' || c == '\u{b}' || c == '\u{c}'
}

/// Trims trailing whitespace and, when anything remains, terminates the
/// output with exactly one newline.
pub fn trim(output: &str) -> (r: String)
    ensures
        r@ == spec_trim(output@),
{
    let len = output.unicode_len();
    let mut end = len;
    proof {
        assert(output@.take(len as int) =~= output@);
    }
    while end > 0 && is_ws_char(output.get_char(end - 1))
        invariant
            end <= len,
            len == output@.len(),
            strip_trailing_ws(output@) == strip_trailing_ws(output@.take(end as int)),
        decreases end,
    {
        proof {
            assert(output@.take(end as int).drop_last() =~= output@.take(end - 1));
        }
        end = end - 1;
    }
    proof {
        assert(strip_trailing_ws(output@.take(end as int)) == output@.take(end as int));
    }
    let mut r = output.substring_char(0, end).to_owned();
    if end > 0 {
        r.append("\n");
        proof {
            reveal_strlit("\n");
            assert(r@ =~= spec_trim(output@));
        }
    } else {
        proof {
            assert(r@ =~= spec_trim(output@));
        }
    }
    r
}

/// Replaces every `\r\n` pair by `\n`, left to right.
pub fn replace_crlf(s: &str) -> (r: String)
    ensures
        r@ == spec_replace_crlf(s@),
{
    let len = s.unicode_len();
    let mut out = String::new();
    let mut i: usize = 0;
    proof {
        assert(s@.skip(0) =~= s@);
        assert(out@ + spec_replace_crlf(s@) =~= spec_replace_crlf(s@));
    }
    while i < len
        invariant
            i <= len,
            len == s@.len(),
            out@ + spec_replace_crlf(s@.skip(i as int)) == spec_replace_crlf(s@),
        decreases len - i,
    {
        let c = s.get_char(i);
        if c == '\r' && i + 1 < len && s.get_char(i + 1) == '\n' {
            out.append("\n");
            proof {
                reveal_strlit("\n");
                assert(s@.skip(i as int).skip(2) =~= s@.skip(i + 2));
            }
            i = i + 2;
        } else {
            let piece = s.substring_char(i, i + 1);
            out.append(piece);
            proof {
                assert(piece@ =~= seq![s@.skip(i as int)[0]]);
                assert(s@.skip(i as int).skip(1) =~= s@.skip(i + 1));
            }
            i = i + 1;
        }
    }
    proof {
        assert(s@.skip(len as int) =~= Seq::<char>::empty());
        assert(out@ =~= spec_replace_crlf(s@));
    }
    out
}

/// The first newline of a suffix is where the scan finds it.
proof fn lemma_first_newline_at(s: Seq<char>, m: int)
    requires
        0 <= m <= s.len(),
        forall|t: int| 0 <= t < m ==> s[t] != '\n',
        m < s.len() ==> s[m] == '\n',
    ensures
        first_newline(s) == m,
    decreases m,
{
    if s.len() == 0 {
    } else if m == 0 {
    } else {
        assert forall|t: int| 0 <= t < m - 1 implies s.skip(1)[t] != '\n' by {
            assert(s.skip(1)[t] == s[t + 1]);
        }
        assert(m - 1 < s.skip(1).len() ==> s.skip(1)[m - 1] == s[m]);
        lemma_first_newline_at(s.skip(1), m - 1);
    }
}

/// Splits into lines as [`spec_lines`] does.
pub fn split_lines(s: &str) -> (r: Vec<String>)
    ensures
        r@.len() == spec_lines(s@).len(),
        forall|i: int| 0 <= i < r@.len() ==> (#[trigger] r@[i])@ == spec_lines(s@)[i],
{
    let len = s.unicode_len();
    let mut r: Vec<String> = Vec::new();
    let mut pos: usize = 0;
    proof {
        assert(s@.skip(0) =~= s@);
    }
    while pos < len
        invariant
            pos <= len,
            len == s@.len(),
            r@.len() + spec_lines(s@.skip(pos as int)).len() == spec_lines(s@).len(),
            forall|i: int|
                0 <= i < r@.len() ==> (#[trigger] r@[i])@ == spec_lines(s@)[i],
            forall|i: int|
                0 <= i < spec_lines(s@.skip(pos as int)).len() ==> #[trigger] spec_lines(
                    s@.skip(pos as int),
                )[i] == spec_lines(s@)[r@.len() + i],
        decreases len - pos,
    {
        let ghost suffix = s@.skip(pos as int);
        // Find the next newline.
        let mut j = pos;
        while j < len && s.get_char(j) != '\n'
            invariant
                pos <= j <= len,
                len == s@.len(),
                forall|t: int| pos <= t < j ==> s@[t] != '\n',
            decreases len - j,
        {
            j = j + 1;
        }
        proof {
            assert forall|t: int| 0 <= t < j - pos implies suffix[t] != '\n' by {
                assert(suffix[t] == s@[pos + t]);
            }
            lemma_first_newline_at(suffix, j - pos);
        }
        // Strip one carriage return from a terminated line.
        let seg_end = if j < len && j > pos && s.get_char(j - 1) == '\r' {
            j - 1
        } else {
            j
        };
        let line = s.substring_char(pos, seg_end).to_owned();
        let next = if j < len {
            j + 1
        } else {
            j
        };
        let ghost old_count = r@.len() as int;
        proof {
            let k = first_newline(suffix) as int;
            let seg = suffix.take(k);
            assert(seg =~= s@.subrange(pos as int, j as int));
            if j < len && j > pos && s@[j - 1] == '\r' {
                assert(seg.len() > 0 && seg.last() == '\r');
                assert(seg.drop_last() =~= s@.subrange(pos as int, j - 1));
            }
            if j < len {
                assert(suffix.skip(k + 1) =~= s@.skip(next as int));
                assert(spec_lines(suffix) == seq![line@] + spec_lines(s@.skip(next as int)));
            } else {
                assert(spec_lines(suffix) == seq![line@]);
                assert(s@.skip(next as int) =~= Seq::<char>::empty());
            }
            assert(spec_lines(suffix)[0] == line@);
        }
        r.push(line);
        proof {
            assert(r@[old_count]@ == spec_lines(s@)[old_count]);
            assert forall|i2: int|
                0 <= i2 < spec_lines(s@.skip(next as int)).len() implies #[trigger] spec_lines(
                s@.skip(next as int),
            )[i2] == spec_lines(s@)[r@.len() + i2] by {
                assert(spec_lines(suffix)[i2 + 1] == spec_lines(s@.skip(next as int))[i2]);
            }
        }
        pos = next;
    }
    proof {
        assert(s@.skip(len as int) =~= Seq::<char>::empty());
    }
    r
}

/// Compares two strings character for character.
fn str_eq(a: &str, b: &str) -> (r: bool)
    ensures
        r == (a@ == b@),
{
    let la = a.unicode_len();
    let lb = b.unicode_len();
    if la != lb {
        return false;
    }
    let mut i: usize = 0;
    while i < la
        invariant
            i <= la,
            la == a@.len(),
            la == b@.len(),
            forall|t: int| 0 <= t < i ==> a@[t] == b@[t],
        decreases la - i,
    {
        if a.get_char(i) != b.get_char(i) {
            return false;
        }
        i = i + 1;
    }
    proof {
        assert(a@ =~= b@);
    }
    true
}

/// Whether a diagnostic line survives normalization.
pub fn keep(line: &str) -> (r: bool)
    ensures
        r == spec_keep(line@),
{
    let len = line.unicode_len();
    let mut j: usize = 0;
    proof {
        assert(line@.skip(0) =~= line@);
    }
    while j < len && is_ws_char(line.get_char(j))
        invariant
            j <= len,
            len == line@.len(),
            strip_leading_ws(line@) == strip_leading_ws(line@.skip(j as int)),
        decreases len - j,
    {
        proof {
            assert(line@.skip(j as int).skip(1) =~= line@.skip(j + 1));
        }
        j = j + 1;
    }
    proof {
        assert(strip_leading_ws(line@.skip(j as int)) == line@.skip(j as int));
    }
    let arrow = if len - j >= 4 {
        let head = line.substring_char(j, j + 4);
        let is_arrow = str_eq(head, "--> ");
        proof {
            assert(head@ =~= strip_leading_ws(line@).take(4));
        }
        is_arrow
    } else {
        false
    };
    if arrow {
        return false;
    }
    if str_eq(line, "error: aborting due to previous error") {
        return false;
    }
    if str_eq(line, "To learn more, run the command again with --verbose.") {
        return false;
    }
    true
}

/// Whether the accumulated output currently ends in a blank line.
fn ends_blank_str(w: &String) -> (r: bool)
    ensures
        r == ends_blank(w@),
{
    let len = w.as_str().unicode_len();
    len >= 2 && w.as_str().get_char(len - 1) == '\n' && w.as_str().get_char(len - 2) == '\n'
}

/// Normalizes compiler diagnostics: line endings unified, location arrows
/// and boilerplate dropped, blank-line runs collapsed, and the whole
/// output trimmed.
pub fn diagnostics(output: &str) -> (r: String)
    ensures
        r@ == spec_diagnostics(output@),
{
    let replaced = replace_crlf(output);
    let lines = split_lines(replaced.as_str());
    let ghost all = spec_lines(replaced@);
    let mut acc = String::new();
    let mut t: usize = 0;
    proof {
        assert(all.skip(0) =~= all);
        assert(acc@ =~= Seq::<char>::empty());
    }
    while t < lines.len()
        invariant
            t <= lines@.len(),
            lines@.len() == all.len(),
            forall|i: int| 0 <= i < lines@.len() ==> (#[trigger] lines@[i])@ == all[i],
            filter_lines(all.skip(t as int), acc@) == filter_lines(all, Seq::<char>::empty()),
        decreases lines@.len() - t,
    {
        let ghost acc0 = acc@;
        if keep(lines[t].as_str()) {
            acc.append(lines[t].as_str());
            if !ends_blank_str(&acc) {
                acc.append("\n");
                proof {
                    reveal_strlit("\n");
                    assert(acc@ =~= keep_step(acc0, all[t as int]));
                }
            } else {
                proof {
                    assert(acc@ =~= keep_step(acc0, all[t as int]));
                }
            }
        } else {
            proof {
                assert(acc@ == keep_step(acc0, all[t as int]));
            }
        }
        proof {
            assert(all.skip(t as int).drop_first() =~= all.skip(t + 1));
            assert(all.skip(t as int)[0] == all[t as int]);
        }
        t = t + 1;
    }
    proof {
        assert(all.skip(lines@.len() as int) =~= Seq::<Seq<char>>::empty());
    }
    trim(acc.as_str())
}

} // verus!

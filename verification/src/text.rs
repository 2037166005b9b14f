//! JSX text handling: whitespace normalization of text children and the
//! escaping of string-literal attribute values.

use vstd::prelude::*;

verus! {

// ---------------------------------------------------------------------------
// Normalization of JSX text children.
//
// Tabs become spaces; the text is split into lines; every line but the
// first loses leading spaces, every line but the last loses trailing
// spaces; empty lines vanish; the remaining lines are joined by single
// spaces.
// ---------------------------------------------------------------------------

pub open spec fn map_tabs(s: Seq<char>) -> Seq<char> {
    s.map_values(|c: char| if c == '\t' { ' ' } else { c })
}

/// One trailing carriage return is dropped from a line that a newline
/// terminated.
pub open spec fn strip_cr(line: Seq<char>) -> Seq<char> {
    if line.len() > 0 && line.last() == '\r' {
        line.drop_last()
    } else {
        line
    }
}

/// Splitting into lines, accumulator style: `cur` is the line being read,
/// `out` the lines read so far. A last line is kept only if it is nonempty,
/// as `str::lines` does.
pub open spec fn lines_acc(s: Seq<char>, i: int, cur: Seq<char>, out: Seq<Seq<char>>) -> Seq<
    Seq<char>,
>
    decreases s.len() - i,
{
    if i < 0 || i >= s.len() {
        if cur.len() > 0 {
            out.push(cur)
        } else {
            out
        }
    } else if s[i] == '\n' {
        lines_acc(s, i + 1, Seq::empty(), out.push(strip_cr(cur)))
    } else {
        lines_acc(s, i + 1, cur.push(s[i]), out)
    }
}

pub open spec fn lines_of(s: Seq<char>) -> Seq<Seq<char>> {
    lines_acc(s, 0, Seq::empty(), Seq::empty())
}

pub open spec fn trim_start(s: Seq<char>) -> Seq<char>
    decreases s.len(),
{
    if s.len() > 0 && s[0] == ' ' {
        trim_start(s.drop_first())
    } else {
        s
    }
}

pub open spec fn trim_end(s: Seq<char>) -> Seq<char>
    decreases s.len(),
{
    if s.len() > 0 && s.last() == ' ' {
        trim_end(s.drop_last())
    } else {
        s
    }
}

/// Joining the lines: line `k` of `lines`, trimmed as its position asks,
/// is appended to `buf` behind a single space.
pub open spec fn norm_lines(lines: Seq<Seq<char>>, k: int, buf: Seq<char>) -> Seq<char>
    decreases lines.len() - k,
{
    if k < 0 || k >= lines.len() {
        buf
    } else {
        let line = lines[k];
        let line1 = if k != 0 {
            trim_start(line)
        } else {
            line
        };
        let line2 = if k != lines.len() - 1 {
            trim_end(line1)
        } else {
            line1
        };
        if line.len() == 0 || line2.len() == 0 {
            norm_lines(lines, k + 1, buf)
        } else {
            let buf2 = if k != 0 && buf.len() > 0 {
                buf.push(' ')
            } else {
                buf
            };
            norm_lines(lines, k + 1, buf2 + line2)
        }
    }
}

/// The normalized form of a JSX text child.
pub open spec fn text_norm_v(t: Seq<char>) -> Seq<char> {
    norm_lines(lines_of(map_tabs(t)), 0, Seq::empty())
}

// ---------------------------------------------------------------------------
// Lemmas.
// ---------------------------------------------------------------------------

pub open spec fn strings_v(l: Seq<String>) -> Seq<Seq<char>>
    decreases l,
{
    if l.len() == 0 {
        Seq::empty()
    } else {
        strings_v(l.drop_last()).push(l.last()@)
    }
}

pub proof fn lemma_strings_v(l: Seq<String>)
    ensures
        strings_v(l).len() == l.len(),
        forall|j: int| 0 <= j < l.len() ==> strings_v(l)[j] == #[trigger] l[j]@,
    decreases l,
{
    if l.len() > 0 {
        lemma_strings_v(l.drop_last());
        assert forall|j: int| 0 <= j < l.len() implies strings_v(l)[j] == #[trigger] l[j]@ by {
            if j < l.len() - 1 {
                assert(strings_v(l)[j] == strings_v(l.drop_last())[j]);
                assert(l.drop_last()[j] == l[j]);
            }
        }
    }
}

proof fn lemma_trim_start_skip(s: Seq<char>, i: int)
    requires
        0 <= i <= s.len(),
        forall|j: int| 0 <= j < i ==> s[j] == ' ',
        i == s.len() || s[i] != ' ',
    ensures
        trim_start(s) == s.skip(i),
    decreases i,
{
    if i == 0 {
        assert(trim_start(s) =~= s.skip(0));
    } else {
        lemma_trim_start_skip(s.drop_first(), i - 1);
        assert(s.drop_first().skip(i - 1) =~= s.skip(i));
    }
}

proof fn lemma_trim_end_take(s: Seq<char>, b: int)
    requires
        0 <= b <= s.len(),
        forall|j: int| b <= j < s.len() ==> s[j] == ' ',
        b == 0 || s[b - 1] != ' ',
    ensures
        trim_end(s) == s.take(b),
    decreases s.len(),
{
    if b == s.len() {
        assert(trim_end(s) =~= s.take(b));
    } else {
        lemma_trim_end_take(s.drop_last(), b);
        assert(s.drop_last().take(b) =~= s.take(b));
    }
}

// ---------------------------------------------------------------------------
// Executable normalization.
// ---------------------------------------------------------------------------

fn strip_cr_exec(cur: String) -> (r: String)
    ensures
        r@ == strip_cr(cur@),
{
    let len = cur.as_str().unicode_len();
    if len > 0 && cur.as_str().get_char(len - 1) == '\r' {
        let r = cur.as_str().substring_char(0, len - 1).to_owned();
        proof {
            assert(r@ =~= cur@.drop_last());
        }
        r
    } else {
        cur
    }
}

/// Normalizes the whitespace of one JSX text child.
pub fn jsx_text_to_str(t: &str) -> (r: String)
    ensures
        r@ == text_norm_v(t@),
{
    let ghost mt = map_tabs(t@);
    let n = t.unicode_len();
    let mut lines: Vec<String> = Vec::new();
    let mut cur = String::new();
    let mut i: usize = 0;
    proof {
        assert(strings_v(lines@) =~= Seq::<Seq<char>>::empty());
        assert(mt.len() == t@.len());
    }
    while i < n
        invariant
            i <= n,
            n == t@.len(),
            mt == map_tabs(t@),
            mt.len() == n,
            lines_acc(mt, i as int, cur@, strings_v(lines@)) == lines_of(mt),
        decreases n - i,
    {
        let ghost prev_lines = lines@;
        let ghost prev_cur = cur@;
        let c0 = t.get_char(i);
        let c: char = if c0 == '\t' {
            ' '
        } else {
            c0
        };
        proof {
            assert(mt[i as int] == c);
        }
        if c == '\n' {
            let stripped = strip_cr_exec(cur);
            lines.push(stripped);
            cur = String::new();
            proof {
                assert(lines@.drop_last() =~= prev_lines);
                assert(strings_v(lines@) == strings_v(prev_lines).push(strip_cr(prev_cur)));
                assert(cur@ =~= Seq::<char>::empty());
            }
        } else {
            cur.push(c);
        }
        i += 1;
    }
    // the last line, if any
    let mut line_vals = lines;
    let ghost whole_lines = line_vals@;
    if cur.as_str().unicode_len() > 0 {
        line_vals.push(cur);
        proof {
            assert(line_vals@.drop_last() =~= whole_lines);
        }
    }
    let ghost lv = strings_v(line_vals@);
    proof {
        lemma_strings_v(line_vals@);
        assert(lv == lines_of(mt));
    }
    // join the lines
    let m = line_vals.len();
    let mut buf = String::new();
    let mut k: usize = 0;
    while k < m
        invariant
            k <= m,
            m == line_vals@.len(),
            lv == strings_v(line_vals@),
            lv.len() == m,
            forall|j: int| 0 <= j < m ==> lv[j] == #[trigger] line_vals@[j]@,
            norm_lines(lv, k as int, buf@) == norm_lines(lv, 0, Seq::empty()),
        decreases m - k,
    {
        let ghost prev_buf = buf@;
        let line = &line_vals[k];
        let len = line.as_str().unicode_len();
        if len == 0 {
            // an empty line vanishes
        } else {
            // leading spaces to drop, for every line but the first
            let mut a: usize = 0;
            if k != 0 {
                while a < len && line.as_str().get_char(a) == ' '
                    invariant
                        a <= len,
                        len == line@.len(),
                        forall|j: int| 0 <= j < a ==> line@[j] == ' ',
                    decreases len - a,
                {
                    a += 1;
                }
            }
            // trailing spaces to drop, for every line but the last
            let mut b: usize = len;
            if k != m - 1 {
                while b > a && line.as_str().get_char(b - 1) == ' '
                    invariant
                        a <= b <= len,
                        len == line@.len(),
                        forall|j: int| b <= j < len ==> line@[j] == ' ',
                    decreases b,
                {
                    b -= 1;
                }
            }
            proof {
                let linev = line@;
                if k != 0 {
                    lemma_trim_start_skip(linev, a as int);
                }
                if k != (m - 1) as int {
                    if k != 0 {
                        lemma_trim_end_take(linev.skip(a as int), b - a);
                        assert(linev.skip(a as int).take(b - a) =~= linev.subrange(
                            a as int,
                            b as int,
                        ));
                    } else {
                        lemma_trim_end_take(linev, b as int);
                        assert(linev.take(b as int) =~= linev.subrange(0, b as int));
                    }
                } else {
                    if k != 0 {
                        assert(linev.skip(a as int) =~= linev.subrange(a as int, len as int));
                    } else {
                        assert(linev =~= linev.subrange(0, len as int));
                    }
                }
            }
            let piece = line.as_str().substring_char(a, b);
            if piece.unicode_len() > 0 {
                if k != 0 && buf.as_str().unicode_len() > 0 {
                    buf.push(' ');
                    proof {
                        assert(buf@ =~= prev_buf.push(' '));
                    }
                }
                buf.append(piece);
            }
        }
        proof {
            assert(norm_lines(lv, k + 1, buf@) == norm_lines(lv, k as int, prev_buf));
        }
        k += 1;
    }
    buf
}

// ---------------------------------------------------------------------------
// Escaping of string-literal attribute values.
//
// A few control characters become escape sequences; a newline, carriage
// return or tab becomes one space and swallows the spaces after it;
// everything else is kept.
// ---------------------------------------------------------------------------

/// The transform, one character at a time; `skipping` says whether spaces
/// are being swallowed after a collapsed whitespace run.
pub open spec fn attr_str_v(s: Seq<char>, i: int, skipping: bool) -> Seq<char>
    decreases s.len() - i,
{
    if i < 0 || i >= s.len() {
        Seq::empty()
    } else if skipping && s[i] == ' ' {
        attr_str_v(s, i + 1, true)
    } else {
        let c = s[i];
        if c == '\u{0008}' {
            "\\b"@ + attr_str_v(s, i + 1, false)
        } else if c == '\u{000c}' {
            "\\f"@ + attr_str_v(s, i + 1, false)
        } else if c == '\n' || c == '\r' || c == '\t' {
            seq![' '] + attr_str_v(s, i + 1, true)
        } else if c == '\u{000b}' {
            "\\v"@ + attr_str_v(s, i + 1, false)
        } else if c == '\0' {
            "\\x00"@ + attr_str_v(s, i + 1, false)
        } else {
            seq![c] + attr_str_v(s, i + 1, false)
        }
    }
}

/// Escapes a string-literal attribute value.
pub fn transform_jsx_attr_str(v: &str) -> (r: String)
    ensures
        r@ == attr_str_v(v@, 0, false),
{
    proof {
        reveal_strlit("\\b");
        reveal_strlit("\\f");
        reveal_strlit("\\v");
        reveal_strlit("\\x00");
    }
    let n = v.unicode_len();
    let mut buf = String::new();
    let mut skipping = false;
    let mut i: usize = 0;
    while i < n
        invariant
            i <= n,
            n == v@.len(),
            "\\b"@ == seq!['\\', 'b'],
            "\\f"@ == seq!['\\', 'f'],
            "\\v"@ == seq!['\\', 'v'],
            "\\x00"@ == seq!['\\', 'x', '0', '0'],
            buf@ + attr_str_v(v@, i as int, skipping) == attr_str_v(v@, 0, false),
        decreases n - i,
    {
        let ghost prev_buf = buf@;
        let ghost prev_skip = skipping;
        let c = v.get_char(i);
        if skipping && c == ' ' {
            // swallowed
        } else if c == '\u{0008}' {
            buf.push('\\');
            buf.push('b');
            skipping = false;
        } else if c == '\u{000c}' {
            buf.push('\\');
            buf.push('f');
            skipping = false;
        } else if c == '\n' || c == '\r' || c == '\t' {
            buf.push(' ');
            skipping = true;
        } else if c == '\u{000b}' {
            buf.push('\\');
            buf.push('v');
            skipping = false;
        } else if c == '\0' {
            buf.push('\\');
            buf.push('x');
            buf.push('0');
            buf.push('0');
            skipping = false;
        } else {
            buf.push(c);
            skipping = false;
        }
        proof {
            assert(buf@ + attr_str_v(v@, i + 1, skipping) =~= prev_buf + attr_str_v(
                v@,
                i as int,
                prev_skip,
            ));
        }
        i += 1;
    }
    buf
}

} // verus!

//! Character-level primitives: white space, blank lines, fence markers and
//! line splitting, each with its mathematical definition.

use vstd::prelude::*;
use vstd::string::*;
use vstd::utf8::*;

verus! {

/// The marker that opens and closes a fenced code block.
pub const FENCE: &'static str = "```";

/// The code points that Unicode marks as `White_Space`.
pub open spec fn whitespace(c: char) -> bool {
    let u = c as u32;
    ||| 0x09 <= u <= 0x0D
    ||| u == 0x20
    ||| u == 0x85
    ||| u == 0xA0
    ||| u == 0x1680
    ||| 0x2000 <= u <= 0x200A
    ||| u == 0x2028
    ||| u == 0x2029
    ||| u == 0x202F
    ||| u == 0x205F
    ||| u == 0x3000
}

/// `s` without its leading white space.
pub open spec fn trim_start(s: Seq<char>) -> Seq<char>
    decreases s.len(),
{
    if s.len() > 0 && whitespace(s[0]) {
        trim_start(s.drop_first())
    } else {
        s
    }
}

/// `s` without its trailing white space.
pub open spec fn trim_end(s: Seq<char>) -> Seq<char>
    decreases s.len(),
{
    if s.len() > 0 && whitespace(s.last()) {
        trim_end(s.drop_last())
    } else {
        s
    }
}

/// `s` without the white space at either end.
pub open spec fn trimmed(s: Seq<char>) -> Seq<char> {
    trim_end(trim_start(s))
}

/// Whether nothing is left of `s` once it is trimmed.
pub open spec fn blank(s: Seq<char>) -> bool {
    trimmed(s).len() == 0
}

/// Whether `s`, once trimmed, begins with the fence marker.
pub open spec fn fenced(s: Seq<char>) -> bool {
    FENCE@.is_prefix_of(trimmed(s))
}

/// Whether every element of `s` is white space.
pub open spec fn all_whitespace(s: Seq<char>) -> bool {
    forall|i: int| 0 <= i < s.len() ==> whitespace(#[trigger] s[i])
}

/// Whether `c` is white space.
pub fn is_whitespace(c: char) -> (r: bool)
    ensures
        r == whitespace(c),
{
    let u: u32 = c as u32;
    (0x09 <= u && u <= 0x0D) || u == 0x20 || u == 0x85 || u == 0xA0 || u == 0x1680 || (0x2000 <= u
        && u <= 0x200A) || u == 0x2028 || u == 0x2029 || u == 0x202F || u == 0x205F || u == 0x3000
}

/// Trimming at the start drops a prefix made of white space, and what is
/// left does not begin with white space.
pub proof fn lemma_trim_start(s: Seq<char>)
    ensures
        trim_start(s).len() <= s.len(),
        trim_start(s) == s.skip(s.len() - trim_start(s).len()),
        all_whitespace(s.take(s.len() - trim_start(s).len())),
        trim_start(s).len() > 0 ==> !whitespace(trim_start(s)[0]),
    decreases s.len(),
{
    if s.len() > 0 && whitespace(s[0]) {
        let t = s.drop_first();
        lemma_trim_start(t);
        let k = t.len() - trim_start(t).len();
        assert(t.skip(k) =~= s.skip(k + 1));
        assert forall|i: int| 0 <= i < k + 1 implies whitespace(#[trigger] s.take(k + 1)[i]) by {
            if i > 0 {
                assert(s.take(k + 1)[i] == t.take(k)[i - 1]);
            }
        }
    } else {
        assert(s.skip(0) =~= s);
    }
}

/// Trimming at the end drops a suffix made of white space, and what is left
/// does not end with white space.
pub proof fn lemma_trim_end(s: Seq<char>)
    ensures
        trim_end(s).len() <= s.len(),
        trim_end(s) == s.take(trim_end(s).len() as int),
        all_whitespace(s.skip(trim_end(s).len() as int)),
        trim_end(s).len() > 0 ==> !whitespace(trim_end(s).last()),
    decreases s.len(),
{
    if s.len() > 0 && whitespace(s.last()) {
        let t = s.drop_last();
        lemma_trim_end(t);
        let m = trim_end(t).len() as int;
        assert(t.take(m) =~= s.take(m));
        assert forall|i: int| 0 <= i < s.len() - m implies whitespace(#[trigger] s.skip(m)[i]) by {
            if i < t.len() - m {
                assert(s.skip(m)[i] == t.skip(m)[i]);
            }
        }
    } else {
        assert(s.take(s.len() as int) =~= s);
    }
}

/// A sequence is blank exactly when it holds nothing but white space.
pub proof fn lemma_blank_iff_all_whitespace(s: Seq<char>)
    ensures
        blank(s) <==> all_whitespace(s),
{
    lemma_trim_start(s);
    let t = trim_start(s);
    let k = s.len() - t.len();
    lemma_trim_end(t);
    let m = trim_end(t).len() as int;
    if all_whitespace(s) {
        if t.len() > 0 {
            assert(t[0] == s[k]);
        }
    }
    if blank(s) {
        assert forall|i: int| 0 <= i < s.len() implies whitespace(#[trigger] s[i]) by {
            if i < k {
                assert(s.take(k)[i] == s[i]);
            } else {
                assert(t.skip(0)[i - k] == s[i]);
            }
        }
    }
}

/// The fence marker is three backticks.
pub proof fn lemma_fence_marker()
    ensures
        FENCE@ == seq!['`', '`', '`'],
{
    reveal_strlit("```");
    assert(FENCE@ =~= seq!['`', '`', '`']);
}

/// Where the first character that is not white space stands at `k`, the
/// sequence is fenced exactly when three backticks stand from `k` on.
pub proof fn lemma_fenced_at(s: Seq<char>, k: int)
    requires
        0 <= k < s.len(),
        all_whitespace(s.take(k)),
        !whitespace(s[k]),
    ensures
        fenced(s) <==> (k + 3 <= s.len() && s[k] == '`' && s[k + 1] == '`' && s[k + 2] == '`'),
{
    lemma_fence_marker();
    lemma_trim_start(s);
    let t = trim_start(s);
    let start = s.len() - t.len();
    if k < start {
        assert(s.take(start)[k] == s[k]);
    }
    if start < k {
        assert(t[0] == s[start]);
        assert(s.take(k)[start] == s[start]);
    }
    assert(start == k);
    lemma_trim_end(t);
    let m = trim_end(t).len() as int;
    let kept = trim_end(t);
    if k + 3 <= s.len() && s[k] == '`' && s[k + 1] == '`' && s[k + 2] == '`' {
        if m < 3 {
            assert(t.skip(m)[2 - m] == s[k + 2]);
        }
        assert(kept.subrange(0, 3) =~= FENCE@) by {
            assert(kept[0] == t[0] && kept[1] == t[1] && kept[2] == t[2]);
        }
    }
    if fenced(s) {
        assert(kept.subrange(0, 3) == FENCE@);
        assert(kept.subrange(0, 3)[0] == kept[0]);
        assert(kept.subrange(0, 3)[1] == kept[1]);
        assert(kept.subrange(0, 3)[2] == kept[2]);
        assert(kept[0] == t[0] && kept[1] == t[1] && kept[2] == t[2]);
    }
}

/// A blank sequence is not fenced.
pub proof fn lemma_blank_not_fenced(s: Seq<char>)
    requires
        blank(s),
    ensures
        !fenced(s),
{
    lemma_fence_marker();
}

/// Whether `s` is empty once it is trimmed.
pub fn is_blank(s: &str) -> (r: bool)
    ensures
        r == blank(s@),
{
    let it = s.chars();
    for c in iter: it
        invariant
            iter.seq() == s@,
            all_whitespace(s@.take(iter.index())),
    {
        if !is_whitespace(c) {
            proof {
                lemma_blank_iff_all_whitespace(s@);
            }
            return false;
        }
        proof {
            let i = iter.index();
            assert forall|j: int| 0 <= j < i + 1 implies whitespace(#[trigger] s@.take(i + 1)[j]) by {
                if j < i {
                    assert(s@.take(i)[j] == s@[j]);
                }
            }
        }
    }
    proof {
        assert(s@.take(s@.len() as int) =~= s@);
        lemma_blank_iff_all_whitespace(s@);
    }
    true
}

/// Whether `s`, once trimmed, begins with the fence marker.
pub fn opens_fence(s: &str) -> (r: bool)
    ensures
        r == fenced(s@),
{
    let mut skipping = true;
    let mut ticks: usize = 0;
    let ghost mut start: int = 0;
    let it = s.chars();
    for c in iter: it
        invariant
            iter.seq() == s@,
            skipping ==> ticks == 0 && all_whitespace(s@.take(iter.index())),
            !skipping ==> {
                &&& 0 <= start < iter.index()
                &&& all_whitespace(s@.take(start))
                &&& !whitespace(s@[start])
                &&& 1 <= ticks < 3
                &&& iter.index() == start + ticks
                &&& forall|j: int| start <= j < iter.index() ==> s@[j] == '`'
            },
    {
        let ghost i = iter.index();
        if skipping {
            if is_whitespace(c) {
                proof {
                    assert forall|j: int| 0 <= j < i + 1 implies whitespace(
                        #[trigger] s@.take(i + 1)[j],
                    ) by {
                        if j < i {
                            assert(s@.take(i)[j] == s@[j]);
                        }
                    }
                }
            } else if c == '`' {
                skipping = false;
                ticks = 1;
                proof {
                    start = i;
                }
            } else {
                proof {
                    lemma_fenced_at(s@, i);
                }
                return false;
            }
        } else if c == '`' {
            ticks = ticks + 1;
            if ticks == 3 {
                proof {
                    lemma_fenced_at(s@, start);
                }
                return true;
            }
        } else {
            proof {
                lemma_fenced_at(s@, start);
            }
            return false;
        }
    }
    proof {
        if skipping {
            assert(s@.take(s@.len() as int) =~= s@);
            lemma_blank_iff_all_whitespace(s@);
            lemma_blank_not_fenced(s@);
        } else {
            lemma_fenced_at(s@, start);
        }
    }
    false
}

/// The characters of `s` that follow its last line feed.
pub open spec fn open_line(s: Seq<char>) -> Seq<char>
    decreases s.len(),
{
    if s.len() == 0 || s.last() == '\n' {
        Seq::empty()
    } else {
        open_line(s.drop_last()).push(s.last())
    }
}

/// `line` without the carriage return that may end it.
pub open spec fn strip_cr(line: Seq<char>) -> Seq<char> {
    if line.len() > 0 && line.last() == '\r' {
        line.drop_last()
    } else {
        line
    }
}

/// The lines of `s` that a line feed ends, in order. The line feed is not
/// part of its line, nor is a carriage return that stands directly before it.
pub open spec fn closed_lines(s: Seq<char>) -> Seq<Seq<char>>
    decreases s.len(),
{
    if s.len() == 0 {
        Seq::empty()
    } else if s.last() == '\n' {
        closed_lines(s.drop_last()).push(strip_cr(open_line(s.drop_last())))
    } else {
        closed_lines(s.drop_last())
    }
}

/// The lines of `s`: those that a line feed ends, then what follows the last
/// line feed if anything does. A carriage return counts as an ending only
/// together with the line feed behind it.
pub open spec fn lines_of(s: Seq<char>) -> Seq<Seq<char>> {
    if open_line(s).len() > 0 {
        closed_lines(s).push(open_line(s))
    } else {
        closed_lines(s)
    }
}

/// `String::push` of the standard library: `c` is appended to `s`.
#[verifier::external_body]
pub(crate) fn push_char(s: &mut String, c: char)
    ensures
        final(s)@ == old(s)@.push(c),
{
    s.push(c);
}

/// `core::str::from_utf8` of the standard library: the text whose encoding
/// `bytes` is, where `bytes` is valid UTF-8, and nothing otherwise.
#[verifier::external_body]
pub(crate) fn utf8_text(bytes: &[u8]) -> (text: Option<&str>)
    ensures
        text is Some <==> valid_utf8(bytes@),
        text matches Some(t) ==> t.spec_bytes() == bytes@,
{
    core::str::from_utf8(bytes).ok()
}

/// The lines of `text`, without their endings.
pub fn split_lines(text: &str) -> (lines: Vec<String>)
    ensures
        lines.deep_view() == lines_of(text@),
{
    let mut lines: Vec<String> = Vec::new();
    let mut current = String::new();
    let mut held_cr = false;
    let it = text.chars();
    for c in iter: it
        invariant
            iter.seq() == text@,
            lines.deep_view() == closed_lines(text@.take(iter.index())),
            open_line(text@.take(iter.index())) == if held_cr {
                current@.push('\r')
            } else {
                current@
            },
            !held_cr ==> current@.len() == 0 || current@.last() != '\r',
    {
        let ghost i = iter.index();
        let ghost before = text@.take(i);
        let ghost after = text@.take(i + 1);
        proof {
            assert(after.drop_last() =~= before);
            assert(after.last() == c);
        }
        if c == '\n' {
            let ghost done = lines.deep_view();
            let ghost line = current@;
            lines.push(current);
            current = String::new();
            held_cr = false;
            proof {
                assert(lines.deep_view() =~= done.push(line));
                assert(strip_cr(open_line(before)) =~= line);
            }
        } else {
            if held_cr {
                push_char(&mut current, '\r');
            }
            if c == '\r' {
                held_cr = true;
            } else {
                push_char(&mut current, c);
                held_cr = false;
            }
        }
    }
    proof {
        assert(text@.take(text@.len() as int) =~= text@);
    }
    if held_cr {
        push_char(&mut current, '\r');
    }
    if current.as_str().is_empty() {
        lines
    } else {
        let ghost done = lines.deep_view();
        let ghost line = current@;
        lines.push(current);
        proof {
            assert(lines.deep_view() =~= done.push(line));
        }
        lines
    }
}

} // verus!

//! Cutting a document into sections.
//!
//! Lines are gathered in an accumulator. A blank line outside a fenced code
//! block closes the section once the accumulator is longer than the soft
//! minimum; an accumulator that has reached the soft limit takes no further
//! line. What is still in the accumulator when the lines end is not a
//! section.

use crate::text::{blank, fenced, is_blank, lines_of, opens_fence, split_lines};
use vstd::prelude::*;
use vstd::string::*;
use vstd::utf8::*;

verus! {

/// Length from which the accumulator takes no further line.
pub const CHAR_SOFT_LIMIT: usize = 20000;

/// Length that the accumulator has to exceed before a blank line closes it.
pub const CHAR_SOFT_MINIMUM: usize = 100;

/// The two thresholds of the sectionizer, both in bytes of UTF-8.
#[derive(Clone, Copy, Debug, PartialEq, Eq, Structural)]
pub struct Limits {
    pub soft_limit: usize,
    pub soft_minimum: usize,
}

impl Default for Limits {
    fn default() -> (limits: Limits)
        ensures
            limits.soft_limit == CHAR_SOFT_LIMIT,
            limits.soft_minimum == CHAR_SOFT_MINIMUM,
    {
        Limits { soft_limit: CHAR_SOFT_LIMIT, soft_minimum: CHAR_SOFT_MINIMUM }
    }
}

/// Number of bytes that `s` takes in UTF-8.
pub open spec fn byte_len(s: Seq<char>) -> nat {
    encode_utf8(s).len()
}

/// What the sectionizer carries from one line to the next.
pub struct SectionState {
    /// The lines gathered since the last boundary, each with its line feed.
    pub buffer: Seq<char>,
    /// Whether a code fence is open.
    pub in_fence: bool,
}

impl SectionState {
    /// The state before the first line.
    pub open spec fn start() -> SectionState {
        SectionState { buffer: Seq::empty(), in_fence: false }
    }

    /// The accumulator once `line` was offered to it: the line and a line
    /// feed are appended unless the soft limit is reached already.
    pub open spec fn absorb(self, line: Seq<char>, limits: Limits) -> Seq<char> {
        if byte_len(self.buffer) < limits.soft_limit {
            self.buffer + line + seq!['\n']
        } else {
            self.buffer
        }
    }

    /// Whether a fence is open after `line`: a fenced line toggles.
    pub open spec fn fence_after(self, line: Seq<char>) -> bool {
        if fenced(line) {
            !self.in_fence
        } else {
            self.in_fence
        }
    }

    /// Whether `line` closes the accumulator: it is blank, no fence is open
    /// after it, and the accumulator exceeds the soft minimum.
    pub open spec fn at_boundary(self, line: Seq<char>, limits: Limits) -> bool {
        &&& blank(line)
        &&& !self.fence_after(line)
        &&& byte_len(self.absorb(line, limits)) > limits.soft_minimum
    }

    /// The section that `line` completes, if any: the whole accumulator at
    /// a boundary, unless it is blank.
    pub open spec fn emits(self, line: Seq<char>, limits: Limits) -> Option<Seq<char>> {
        if self.at_boundary(line, limits) && !blank(self.absorb(line, limits)) {
            Some(self.absorb(line, limits))
        } else {
            None
        }
    }

    /// The state after `line`: a boundary empties the accumulator.
    pub open spec fn next(self, line: Seq<char>, limits: Limits) -> SectionState {
        SectionState {
            buffer: if self.at_boundary(line, limits) {
                Seq::empty()
            } else {
                self.absorb(line, limits)
            },
            in_fence: self.fence_after(line),
        }
    }
}

/// The state after all of `lines`.
pub open spec fn state_after(lines: Seq<Seq<char>>, limits: Limits) -> SectionState
    decreases lines.len(),
{
    if lines.len() == 0 {
        SectionState::start()
    } else {
        state_after(lines.drop_last(), limits).next(lines.last(), limits)
    }
}

/// The sections that `lines` yield, in the order of the lines that
/// complete them.
pub open spec fn sections_of(lines: Seq<Seq<char>>, limits: Limits) -> Seq<Seq<char>>
    decreases lines.len(),
{
    if lines.len() == 0 {
        Seq::empty()
    } else {
        let before = sections_of(lines.drop_last(), limits);
        match state_after(lines.drop_last(), limits).emits(lines.last(), limits) {
            Some(section) => before.push(section),
            None => before,
        }
    }
}

/// The sections of a whole document.
pub open spec fn document_sections(text: Seq<char>, limits: Limits) -> Seq<Seq<char>> {
    sections_of(lines_of(text), limits)
}

/// A sectionizer that is fed line by line.
pub struct Sectionizer {
    limits: Limits,
    buffer: String,
    in_fence: bool,
}

impl View for Sectionizer {
    type V = SectionState;

    closed spec fn view(&self) -> SectionState {
        SectionState { buffer: self.buffer@, in_fence: self.in_fence }
    }
}

impl Sectionizer {
    /// The thresholds that this sectionizer was made with.
    pub closed spec fn bounds(&self) -> Limits {
        self.limits
    }

    /// A sectionizer that has seen no line.
    pub fn new(limits: Limits) -> (fresh: Sectionizer)
        ensures
            fresh@ == SectionState::start(),
            fresh.bounds() == limits,
    {
        Sectionizer { limits, buffer: String::new(), in_fence: false }
    }

    /// The thresholds that this sectionizer was made with.
    pub fn limits(&self) -> (limits: Limits)
        ensures
            limits == self.bounds(),
    {
        self.limits
    }

    /// What has been gathered since the last boundary.
    pub fn pending(&self) -> (buffer: &str)
        ensures
            buffer@ == self@.buffer,
    {
        self.buffer.as_str()
    }

    /// Whether a code fence is open.
    pub fn in_fence(&self) -> (open: bool)
        ensures
            open == self@.in_fence,
    {
        self.in_fence
    }

    /// Feeds one line, without its line ending, and hands out the section
    /// that it completes.
    pub fn push_line(&mut self, line: &str) -> (section: Option<String>)
        ensures
            final(self)@ == old(self)@.next(line@, old(self).bounds()),
            final(self).bounds() == old(self).bounds(),
            match section {
                Some(text) => old(self)@.emits(line@, old(self).bounds()) == Some(text@),
                None => old(self)@.emits(line@, old(self).bounds()) is None,
            },
    {
        if self.buffer.as_str().as_bytes().len() < self.limits.soft_limit {
            self.buffer.append(line);
            self.buffer.append("\n");
            proof {
                reveal_strlit("\n");
                assert("\n"@ =~= seq!['\n']);
            }
        }
        if opens_fence(line) {
            self.in_fence = !self.in_fence;
        }
        if is_blank(line) && !self.in_fence && self.buffer.as_str().as_bytes().len()
            > self.limits.soft_minimum {
            let mut section = String::new();
            std::mem::swap(&mut self.buffer, &mut section);
            if is_blank(section.as_str()) {
                None
            } else {
                Some(section)
            }
        } else {
            None
        }
    }
}

/// Cuts `text` into its sections.
pub fn split_sections(text: &str, limits: Limits) -> (sections: Vec<String>)
    ensures
        sections.deep_view() == document_sections(text@, limits),
{
    let lines = split_lines(text);
    let mut sectionizer = Sectionizer::new(limits);
    let mut sections: Vec<String> = Vec::new();
    for i in 0..lines.len()
        invariant
            lines.deep_view() == lines_of(text@),
            sectionizer.bounds() == limits,
            sectionizer@ == state_after(lines.deep_view().take(i as int), limits),
            sections.deep_view() == sections_of(lines.deep_view().take(i as int), limits),
    {
        proof {
            let all = lines.deep_view();
            assert(all.take(i + 1).drop_last() =~= all.take(i as int));
            assert(all.take(i + 1).last() == lines[i as int]@);
        }
        let ghost done = sections.deep_view();
        match sectionizer.push_line(lines[i].as_str()) {
            Some(section) => {
                let ghost added = section@;
                sections.push(section);
                proof {
                    assert(sections.deep_view() =~= done.push(added));
                }
            },
            None => {},
        }
    }
    proof {
        let all = lines.deep_view();
        assert(all.take(all.len() as int) =~= all);
    }
    sections
}

/// The encoding of a concatenation is the concatenation of the encodings.
pub proof fn lemma_byte_len_concat(a: Seq<char>, b: Seq<char>)
    ensures
        byte_len(a + b) == byte_len(a) + byte_len(b),
    decreases a.len(),
{
    if a.len() == 0 {
        assert(a + b =~= b);
    } else {
        assert((a + b).drop_first() =~= a.drop_first() + b);
        lemma_byte_len_concat(a.drop_first(), b);
    }
}

/// A line feed takes one byte.
pub proof fn lemma_byte_len_line_feed()
    ensures
        byte_len(seq!['\n']) == 1,
{
    let s = seq!['\n'];
    assert(s.drop_first() =~= Seq::<char>::empty());
    assert(encode_utf8(s) == encode_scalar('\n' as u32) + encode_utf8(s.drop_first()));
    assert(has_width_1_encoding('\n' as u32));
}

/// No section is blank: each holds a character that is not white space.
pub proof fn law_sections_not_blank(lines: Seq<Seq<char>>, limits: Limits)
    ensures
        forall|i: int|
            0 <= i < sections_of(lines, limits).len() ==> !blank(
                #[trigger] sections_of(lines, limits)[i],
            ),
    decreases lines.len(),
{
    if lines.len() > 0 {
        law_sections_not_blank(lines.drop_last(), limits);
        let before = sections_of(lines.drop_last(), limits);
        assert forall|i: int| 0 <= i < sections_of(lines, limits).len() implies !blank(
            #[trigger] sections_of(lines, limits)[i],
        ) by {
            if i < before.len() {
                assert(sections_of(lines, limits)[i] == before[i]);
            }
        }
    }
}

/// Every section is longer than the soft minimum.
pub proof fn law_sections_exceed_minimum(lines: Seq<Seq<char>>, limits: Limits)
    ensures
        forall|i: int|
            0 <= i < sections_of(lines, limits).len() ==> byte_len(
                #[trigger] sections_of(lines, limits)[i],
            ) > limits.soft_minimum,
    decreases lines.len(),
{
    if lines.len() > 0 {
        law_sections_exceed_minimum(lines.drop_last(), limits);
        let before = sections_of(lines.drop_last(), limits);
        assert forall|i: int| 0 <= i < sections_of(lines, limits).len() implies byte_len(
            #[trigger] sections_of(lines, limits)[i],
        ) > limits.soft_minimum by {
            if i < before.len() {
                assert(sections_of(lines, limits)[i] == before[i]);
            }
        }
    }
}

/// A blank line that comes while a fence is open completes no section,
/// however long the accumulator is: it joins the accumulator like any other
/// line, and the fence stays open.
pub proof fn law_blank_line_in_fence_is_no_boundary(
    lines: Seq<Seq<char>>,
    line: Seq<char>,
    limits: Limits,
)
    requires
        state_after(lines, limits).in_fence,
        blank(line),
    ensures
        sections_of(lines.push(line), limits) == sections_of(lines, limits),
        state_after(lines.push(line), limits).in_fence,
        state_after(lines.push(line), limits).buffer == state_after(lines, limits).absorb(
            line,
            limits,
        ),
{
    crate::text::lemma_blank_not_fenced(line);
    assert(lines.push(line).drop_last() =~= lines);
}

/// While the accumulator does not exceed the soft minimum no line
/// completes a section, even a blank one outside a fence, and the
/// accumulator is kept.
pub proof fn law_short_accumulator_is_kept(lines: Seq<Seq<char>>, line: Seq<char>, limits: Limits)
    requires
        byte_len(state_after(lines, limits).absorb(line, limits)) <= limits.soft_minimum,
    ensures
        sections_of(lines.push(line), limits) == sections_of(lines, limits),
        state_after(lines.push(line), limits).buffer == state_after(lines, limits).absorb(
            line,
            limits,
        ),
{
    assert(lines.push(line).drop_last() =~= lines);
}

/// The sections of a longer run of lines begin with the sections of the
/// shorter one: a line adds at most one section and changes none.
pub proof fn law_sections_grow(lines: Seq<Seq<char>>, line: Seq<char>, limits: Limits)
    ensures
        sections_of(lines, limits).is_prefix_of(sections_of(lines.push(line), limits)),
        sections_of(lines.push(line), limits).len() <= sections_of(lines, limits).len() + 1,
{
    assert(lines.push(line).drop_last() =~= lines);
}

/// The accumulator stays below the soft limit plus one line: where no line
/// is longer than `longest` bytes, it never holds more than
/// `soft_limit + longest` bytes.
pub proof fn lemma_accumulator_bounded(lines: Seq<Seq<char>>, limits: Limits, longest: nat)
    requires
        forall|i: int| 0 <= i < lines.len() ==> byte_len(#[trigger] lines[i]) <= longest,
    ensures
        byte_len(state_after(lines, limits).buffer) <= limits.soft_limit + longest,
    decreases lines.len(),
{
    if lines.len() > 0 {
        let rest = lines.drop_last();
        let line = lines.last();
        assert forall|i: int| 0 <= i < rest.len() implies byte_len(#[trigger] rest[i])
            <= longest by {
            assert(rest[i] == lines[i]);
        }
        lemma_accumulator_bounded(rest, limits, longest);
        let before = state_after(rest, limits);
        lemma_byte_len_concat(before.buffer, line);
        lemma_byte_len_concat(before.buffer + line, seq!['\n']);
        lemma_byte_len_line_feed();
    }
}

/// The soft limit bounds a section up to one line: where no line is longer
/// than `longest` bytes, no section is longer than `soft_limit + longest`.
pub proof fn law_section_length_bounded(lines: Seq<Seq<char>>, limits: Limits, longest: nat)
    requires
        forall|i: int| 0 <= i < lines.len() ==> byte_len(#[trigger] lines[i]) <= longest,
    ensures
        forall|i: int|
            0 <= i < sections_of(lines, limits).len() ==> byte_len(
                #[trigger] sections_of(lines, limits)[i],
            ) <= limits.soft_limit + longest,
    decreases lines.len(),
{
    if lines.len() > 0 {
        let rest = lines.drop_last();
        let line = lines.last();
        assert forall|i: int| 0 <= i < rest.len() implies byte_len(#[trigger] rest[i])
            <= longest by {
            assert(rest[i] == lines[i]);
        }
        law_section_length_bounded(rest, limits, longest);
        lemma_accumulator_bounded(rest, limits, longest);
        let before = state_after(rest, limits);
        lemma_byte_len_concat(before.buffer, line);
        lemma_byte_len_concat(before.buffer + line, seq!['\n']);
        lemma_byte_len_line_feed();
        let earlier = sections_of(rest, limits);
        assert forall|i: int| 0 <= i < sections_of(lines, limits).len() implies byte_len(
            #[trigger] sections_of(lines, limits)[i],
        ) <= limits.soft_limit + longest by {
            if i < earlier.len() {
                assert(sections_of(lines, limits)[i] == earlier[i]);
            }
        }
    }
}

} // verus!

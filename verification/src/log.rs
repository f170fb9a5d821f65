//! A bounded ring of lines: one unit's captured output, shown by `status`.

use std::collections::VecDeque;

use vstd::prelude::*;
use vstd::std_specs::vecdeque::*;

use crate::text::{
    cat2, cat3, chars, chr, dec, decimal, find, find_char, find_unique, lacks, string_of, texts,
    Text,
};

verus! {

/// Bounded, in-memory log of one unit's output.
#[derive(Debug)]
pub struct LogRing {
    max_lines: usize,
    lines: VecDeque<String>,
}

/// The last `max` lines.
pub open spec fn kept(max: nat, s: Seq<Text>) -> Seq<Text> {
    if s.len() <= max {
        s
    } else {
        s.skip(s.len() - max)
    }
}

/// The lines of a chunk of output: the parts that line feeds end, and what
/// follows the last one unless it is empty.
pub open spec fn chunk_lines(s: Text) -> Seq<Text>
    decreases s.len(),
{
    let k = find(s, chr('\n')) as int;
    if 0 <= k < s.len() {
        seq![s.take(k)] + chunk_lines(s.skip(k + 1))
    } else if s.len() > 0 {
        seq![s]
    } else {
        seq![]
    }
}

impl Default for LogRing {
    fn default() -> (r: LogRing)
        ensures
            r.max() == 0,
            r@ == Seq::<Text>::empty(),
    {
        LogRing::new(0)
    }
}

impl View for LogRing {
    type V = Seq<Text>;

    closed spec fn view(&self) -> Seq<Text> {
        texts(self.lines@)
    }
}

impl LogRing {
    /// How many lines are kept.
    pub closed spec fn max(self) -> nat {
        self.max_lines as nat
    }

    #[verifier::type_invariant]
    spec fn well_formed(self) -> bool {
        self.lines@.len() <= self.max_lines
    }

    /// An empty ring for so many lines.
    pub fn new(max_lines: usize) -> (r: LogRing)
        ensures
            r.max() == max_lines,
            r@ == Seq::<Text>::empty(),
    {
        let r = LogRing { max_lines, lines: VecDeque::new() };
        assert(r@ =~= Seq::<Text>::empty());
        r
    }

    /// Append a line; where the ring is full, the oldest line goes.
    pub fn push(&mut self, line: String)
        ensures
            final(self).max() == old(self).max(),
            final(self)@ == kept(old(self).max(), old(self)@.push(line@)),
            final(self)@.len() <= final(self).max(),
    {
        proof {
            use_type_invariant(&*self);
        }
        let ghost was = self.lines@;
        if self.max_lines == 0 {
            assert(kept(0, self@.push(line@)) =~= seq![]);
            assert(self@ =~= seq![]);
            return;
        }
        let mut lines: VecDeque<String> = VecDeque::new();
        core::mem::swap(&mut lines, &mut self.lines);
        let full = lines.len() >= self.max_lines;
        if full {
            let _ = lines.pop_front();
        }
        lines.push_back(line);
        proof {
            if full {
                assert(texts(lines@) =~= texts(was).push(line@).skip(1));
            } else {
                assert(texts(lines@) =~= texts(was).push(line@));
            }
        }
        self.lines = lines;
    }

    /// Append a chunk of output, line by line.
    pub fn push_chunk(&mut self, chunk: &str)
        ensures
            final(self).max() == old(self).max(),
            final(self)@ == kept(old(self).max(), old(self)@ + chunk_lines(chunk@)),
    {
        let v = chars(chunk);
        let mut i: usize = 0;
        let ghost was = self@;
        let ghost mut done: Seq<Text> = seq![];
        proof {
            use_type_invariant(&*self);
            assert(v@.skip(0) =~= v@);
            assert(was + done =~= was);
            assert(done + chunk_lines(v@) =~= chunk_lines(v@));
        }
        while i < v.len()
            invariant
                v@ == chunk@,
                i <= v.len(),
                self.max() == old(self).max(),
                self@ == kept(self.max(), was + done),
                was == old(self)@,
                done + chunk_lines(v@.skip(i as int)) == chunk_lines(chunk@),
            decreases v.len() - i,
        {
            let ghost rest = v@.skip(i as int);
            let ghost before = done;
            let k = find_char(&v, i, '\n');
            let line = string_of(&v, i, k);
            let ghost text = line@;
            self.push(line);
            proof {
                done = done.push(text);
                assert(was + done =~= (was + before).push(text));
                keeping_again(self.max(), was + before, seq![text]);
                assert((was + before) + seq![text] =~= (was + before).push(text));
                assert(kept(self.max(), was + before) + seq![text] =~= kept(
                    self.max(),
                    was + before,
                ).push(text));
                assert(text =~= rest.take(k - i));
            }
            if k < v.len() {
                proof {
                    assert(rest.skip(k - i + 1) =~= v@.skip(k + 1));
                    assert(done + chunk_lines(v@.skip(k + 1)) =~= before + chunk_lines(rest));
                }
                i = k + 1;
            } else {
                proof {
                    assert(text =~= rest);
                    assert(v@.skip(v.len() as int) =~= seq![]);
                    assert(chunk_lines(v@.skip(v.len() as int)) =~= seq![]);
                    assert(done + chunk_lines(v@.skip(v.len() as int)) =~= before + chunk_lines(
                        rest,
                    ));
                }
                i = v.len();
            }
        }
        proof {
            assert(v@.skip(i as int) =~= seq![]);
            assert(chunk_lines(v@.skip(i as int)) =~= seq![]);
            assert(done =~= done + chunk_lines(v@.skip(i as int)));
        }
    }

    /// The lines, the oldest first.
    pub fn lines(&self) -> (r: Vec<&str>)
        ensures
            r.len() == self@.len(),
            forall|i: int| 0 <= i < r.len() ==> (#[trigger] r@[i])@ == self@[i],
    {
        let mut out: Vec<&str> = Vec::new();
        let mut i: usize = 0;
        while i < self.lines.len()
            invariant
                i <= self.lines.len(),
                out.len() == i,
                forall|j: int| 0 <= j < i ==> (#[trigger] out@[j])@ == self.lines@[j]@,
            decreases self.lines.len() - i,
        {
            out.push(self.lines[i].as_str());
            i = i + 1;
        }
        out
    }

    /// A copy of the lines.
    pub fn snapshot(&self) -> (r: Vec<String>)
        ensures
            texts(r@) == self@,
    {
        let mut out: Vec<String> = Vec::new();
        let mut i: usize = 0;
        while i < self.lines.len()
            invariant
                i <= self.lines.len(),
                out.len() == i,
                forall|j: int| 0 <= j < i ==> (#[trigger] out@[j])@ == self.lines@[j]@,
            decreases self.lines.len() - i,
        {
            out.push(self.lines[i].clone());
            i = i + 1;
        }
        assert(texts(out@) =~= self@);
        out
    }
}

/// Keeping the last lines of what was kept before is keeping the last lines of
/// all: the ring holds the newest lines, however they came.
pub proof fn keeping_again(max: nat, a: Seq<Text>, b: Seq<Text>)
    ensures
        kept(max, kept(max, a) + b) == kept(max, a + b),
        kept(max, a).len() <= max,
{
    assert(kept(max, kept(max, a) + b) =~= kept(max, a + b));
}

/// A line of the manager's own log: the time, and the message.
pub fn mgr_log(now: u64, msg: &str) -> (r: String)
    ensures
        r@ == "["@ + decimal(now as nat) + "] "@ + msg@,
{
    cat2(cat3("[", dec(now).as_str(), "] ").as_str(), msg)
}

/// Of too many lines the last ones are kept, in order.
pub proof fn last_lines_are_kept(max: nat, s: Seq<Text>, i: int)
    ensures
        s.len() <= max ==> kept(max, s) == s,
        s.len() > max ==> kept(max, s).len() == max,
        0 <= i < kept(max, s).len() ==> kept(max, s)[i] == s[s.len() - kept(max, s).len() + i],
{
}

/// A chunk is split at its line ends, which belong to no line; a last line without one
/// counts too.
pub proof fn chunks_are_split_at_line_ends(line: Text, rest: Text)
    requires
        lacks(line, '\n'),
    ensures
        chunk_lines(line + seq!['\n'] + rest) == seq![line] + chunk_lines(rest),
        line.len() > 0 ==> chunk_lines(line) == seq![line],
        chunk_lines(seq![]).len() == 0,
{
    let s = line + seq!['\n'] + rest;
    let k = line.len() as int;
    assert forall|i: int| 0 <= i < k implies !chr('\n')(#[trigger] s[i]) by {
        assert(s[i] == line[i]);
    }
    assert(s[k] == '\n');
    find_unique(s, chr('\n'), k);
    assert(s.take(k) =~= line);
    assert(s.skip(k + 1) =~= rest);
    assert forall|i: int| 0 <= i < k implies !chr('\n')(#[trigger] line[i]) by {}
    find_unique(line, chr('\n'), k);
    let e = Seq::<char>::empty();
    find_unique(e, chr('\n'), 0);
}

} // verus!

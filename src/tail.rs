use vstd::prelude::*;

use crate::text::{trim_of, trim_text};

verus! {

/// How many recent lines of a tool's error stream are kept.
pub const TAIL_CAPACITY: usize = 64;

/// How many of the kept lines a failure message shows.
pub const TAIL_SHOWN: usize = 8;

/// The last `n` items of `s` (all of them where there are fewer).
pub open spec fn last_n<A>(s: Seq<A>, n: int) -> Seq<A> {
    if s.len() > n {
        s.subrange(s.len() - n, s.len() as int)
    } else {
        s
    }
}

/// Lines joined with a newline between each two.
pub open spec fn join_lines(s: Seq<Seq<char>>) -> Seq<char>
    decreases s.len(),
{
    if s.len() == 0 {
        Seq::empty()
    } else if s.len() == 1 {
        s[0]
    } else {
        join_lines(s.drop_last()) + seq!['\n'] + s.last()
    }
}

/// The most recent lines of a tool's error stream: at most `TAIL_CAPACITY`,
/// trimmed and never blank, the oldest dropped first.
pub struct StderrTail {
    lines: Vec<String>,
}

impl View for StderrTail {
    type V = Seq<Seq<char>>;

    closed spec fn view(&self) -> Seq<Seq<char>> {
        self.lines@.map_values(|s: String| s@)
    }
}

impl StderrTail {
    pub open spec fn wf(&self) -> bool {
        &&& self@.len() <= TAIL_CAPACITY
        &&& forall|i: int| 0 <= i < self@.len() ==> (#[trigger] self@[i]).len() > 0
    }

    pub fn new() -> (r: StderrTail)
        ensures
            r@ == Seq::<Seq<char>>::empty(),
            r.wf(),
    {
        let r = StderrTail { lines: Vec::new() };
        assert(r@ =~= Seq::<Seq<char>>::empty());
        r
    }

    /// Records one line of the stream; a blank line is passed over.
    pub fn push(&mut self, line: &str)
        requires
            old(self).wf(),
        ensures
            final(self).wf(),
            trim_of(line@).len() == 0 ==> final(self)@ == old(self)@,
            trim_of(line@).len() > 0 ==> final(self)@ == last_n(
                old(self)@.push(trim_of(line@)),
                TAIL_CAPACITY as int,
            ),
    {
        let t = trim_text(line);
        if t.as_str().unicode_len() == 0 {
            return;
        }
        let ghost before = self@;
        self.lines.push(t);
        assert(self@ =~= before.push(trim_of(line@)));
        if self.lines.len() > TAIL_CAPACITY {
            let ghost full = self@;
            self.lines.remove(0);
            assert(self@ =~= last_n(full, TAIL_CAPACITY as int));
        }
    }

    /// The kept lines, oldest first.
    pub fn lines(&self) -> (r: Vec<String>)
        ensures
            r@.map_values(|s: String| s@) == self@,
    {
        let r = self.lines.clone();
        assert(r@.map_values(|s: String| s@) =~= self@);
        r
    }

    /// The last `TAIL_SHOWN` kept lines, one per line.
    pub fn message(&self) -> (r: String)
        requires
            self.wf(),
        ensures
            r@ == join_lines(last_n(self@, TAIL_SHOWN as int)),
            self@.len() > 0 ==> r@.len() > 0,
    {
        let n = self.lines.len();
        let start: usize = if n > TAIL_SHOWN {
            n - TAIL_SHOWN
        } else {
            0
        };
        let ghost shown = last_n(self@, TAIL_SHOWN as int);
        assert(shown =~= self@.subrange(start as int, n as int));
        let mut r = String::new();
        let mut i: usize = start;
        while i < n
            invariant
                start <= i <= n,
                n == self@.len(),
                shown == self@.subrange(start as int, n as int),
                r@ == join_lines(shown.subrange(0, i - start)),
            decreases n - i,
        {
            let ghost prev = shown.subrange(0, i - start);
            let ghost next = shown.subrange(0, i - start + 1);
            assert(next.drop_last() =~= prev);
            assert(next.last() == self.lines@[i as int]@);
            if i > start {
                r.append("\n");
                proof {
                    reveal_strlit("\n");
                }
            } else {
                assert(prev.len() == 0);
            }
            r.append(self.lines[i].as_str());
            i = i + 1;
        }
        assert(shown.subrange(0, n - start) =~= shown);
        if n > 0 {
            assert(shown.last() == self@[n - 1]);
            assert(self@[n - 1].len() > 0);
        }
        r
    }
}

/// A failure message: the captured error lines where there are any, else the
/// stage's own message.
pub open spec fn failure_text(tail: Seq<char>, fallback: Seq<char>) -> Seq<char> {
    if tail.len() == 0 {
        fallback
    } else {
        tail
    }
}

/// Chooses between the captured error lines and the stage's own message.
pub fn failure_message(tail: &str, fallback: &str) -> (r: String)
    ensures
        r@ == failure_text(tail@, fallback@),
{
    if tail.unicode_len() == 0 {
        String::from_str(fallback)
    } else {
        String::from_str(tail)
    }
}

} // verus!

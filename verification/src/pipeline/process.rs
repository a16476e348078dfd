//! Bounded handling of what subprocesses print.
//!
//! Output is kept only up to a limit, error output only in its last lines, so
//! that no subprocess can fill the memory.

use crate::text::{lossy_text, utf8_lossy};
use vstd::prelude::*;

verus! {

/// Longest error line that is kept.
pub const MAX_STDERR_LINE_BYTES: usize = 4096;

/// Output read so far, cut at a limit.
#[derive(Debug)]
pub struct BoundedRead {
    pub data: Vec<u8>,
    pub exceeded: bool,
}

/// What is kept of some output.
pub open spec fn kept_prefix(output: Seq<u8>, limit: nat) -> Seq<u8> {
    if output.len() <= limit {
        output
    } else {
        output.take(limit as int)
    }
}

impl BoundedRead {
    /// This is what is left of `output` under `limit`.
    pub open spec fn holds(&self, output: Seq<u8>, limit: nat) -> bool {
        &&& self.data@ == kept_prefix(output, limit)
        &&& self.exceeded == (output.len() > limit)
    }

    /// Nothing has been read.
    pub fn new() -> (r: Self)
        ensures
            r.data@ == Seq::<u8>::empty(),
            !r.exceeded,
            forall|limit: nat| #[trigger] r.holds(Seq::empty(), limit),
    {
        let r = BoundedRead { data: Vec::new(), exceeded: false };
        assert forall|limit: nat| #[trigger] r.holds(Seq::empty(), limit) by {
            assert(r.data@ =~= kept_prefix(Seq::empty(), limit));
        }
        r
    }

    /// Take in the next bytes. The result says whether the limit was passed
    /// just now, so that the process can be stopped.
    pub fn feed(&mut self, chunk: &[u8], limit: usize) -> (passed: bool)
        requires
            old(self).data@.len() <= limit,
        ensures
            final(self).data@.len() <= limit,
            forall|output: Seq<u8>| #[trigger]
                old(self).holds(output, limit as nat) ==> final(self).holds(
                    output + chunk@,
                    limit as nat,
                ),
            passed == (!old(self).exceeded && old(self).data@.len() + chunk@.len() > limit),
            old(self).exceeded ==> *final(self) == *old(self),
    {
        if self.exceeded {
            assert forall|output: Seq<u8>| #[trigger]
                old(self).holds(output, limit as nat) implies self.holds(
                output + chunk@,
                limit as nat,
            ) by {
                assert((output + chunk@).take(limit as int) =~= output.take(limit as int));
            }
            return false;
        }
        let remaining: usize = limit - self.data.len();
        let fits = chunk.len() <= remaining;
        let count: usize = if fits {
            chunk.len()
        } else {
            remaining
        };
        let ghost before = self.data@;
        let mut i: usize = 0;
        while i < count
            invariant
                i <= count <= chunk@.len(),
                before.len() + count <= limit,
                self.data@ == before + chunk@.take(i as int),
                self.exceeded == old(self).exceeded,
            decreases count - i,
        {
            self.data.push(chunk[i]);
            i = i + 1;
            assert(before + chunk@.take(i as int) =~= self.data@);
        }
        if !fits {
            self.exceeded = true;
        }
        assert forall|output: Seq<u8>| #[trigger]
            old(self).holds(output, limit as nat) implies self.holds(
            output + chunk@,
            limit as nat,
        ) by {
            assert(output == before);
            if fits {
                assert(chunk@.take(count as int) =~= chunk@);
            } else {
                assert((output + chunk@).take(limit as int) =~= before + chunk@.take(
                    count as int,
                ));
            }
        }
        !fits
    }
}

// ---------------------------------------------------------------------------
// The tail of error output
// ---------------------------------------------------------------------------
/// The last `n` items of a sequence.
pub open spec fn last_n<A>(s: Seq<A>, n: nat) -> Seq<A> {
    if s.len() <= n {
        s
    } else {
        s.skip(s.len() - n)
    }
}

/// A ring of the last lines.
#[derive(Debug)]
pub struct StderrTailBuffer {
    pub lines: Vec<Vec<u8>>,
    pub next: usize,
    pub len: usize,
}

impl StderrTailBuffer {
    pub open spec fn wf(&self) -> bool {
        &&& self.len <= self.lines@.len()
        &&& self.lines@.len() == 0 ==> self.next == 0
        &&& self.lines@.len() > 0 ==> self.next < self.lines@.len()
        &&& self.len < self.lines@.len() ==> self.next == self.len
    }

    /// The kept lines, oldest first.
    pub open spec fn view(&self) -> Seq<Seq<u8>> {
        Seq::new(
            self.len as nat,
            |i: int|
                if self.len < self.lines@.len() || self.next + i < self.lines@.len() {
                    self.lines@[if self.len < self.lines@.len() {
                        i
                    } else {
                        self.next + i
                    }]@
                } else {
                    self.lines@[self.next + i - self.lines@.len()]@
                },
        )
    }

    pub fn new(capacity: usize) -> (r: Self)
        ensures
            r.wf(),
            r.lines@.len() == capacity,
            r.view() == Seq::<Seq<u8>>::empty(),
    {
        let mut lines: Vec<Vec<u8>> = Vec::new();
        let mut i: usize = 0;
        while i < capacity
            invariant
                i <= capacity,
                lines@.len() == i,
            decreases capacity - i,
        {
            lines.push(Vec::new());
            i = i + 1;
        }
        let r = StderrTailBuffer { lines, next: 0, len: 0 };
        assert(r.view() =~= Seq::<Seq<u8>>::empty());
        r
    }

    /// Keep a line; the oldest one leaves a full ring. The buffer that is no
    /// longer used is handed back, to be filled again.
    pub fn push(&mut self, line: Vec<u8>) -> (spare: Vec<u8>)
        requires
            old(self).wf(),
        ensures
            final(self).wf(),
            final(self).lines@.len() == old(self).lines@.len(),
            final(self).view() == last_n(old(self).view().push(line@), old(self).lines@.len()),
            old(self).lines@.len() == 0 ==> spare@.len() == 0,
            old(self).lines@.len() > 0 ==> spare == old(self).lines@[old(self).next as int],
    {
        let capacity: usize = self.lines.len();
        if capacity == 0 {
            let mut line = line;
            line.clear();
            assert(self.view() =~= last_n(old(self).view().push(line@), 0));
            return line;
        }
        let ghost text = line@;
        let mut spare = line;
        let slot: usize = self.next;
        std::mem::swap(&mut self.lines[slot], &mut spare);
        self.next = self.next + 1;
        if self.next == capacity {
            self.next = 0;
        }
        if self.len < capacity {
            self.len = self.len + 1;
        }
        proof {
            let before = old(self).view().push(text);
            assert(self.lines@ =~= old(self).lines@.update(slot as int, self.lines@[slot as int]));
            assert(self.lines@[slot as int]@ == text);
            assert(self.view() =~= last_n(before, capacity as nat));
        }
        spare
    }

    /// The kept line at a place, oldest first.
    fn line_at(&self, i: usize) -> (line: &Vec<u8>)
        requires
            self.wf(),
            i < self.len,
        ensures
            line@ == self.view()[i as int],
    {
        let capacity: usize = self.lines.len();
        if self.len < capacity {
            &self.lines[i]
        } else if i < capacity - self.next {
            &self.lines[self.next + i]
        } else {
            &self.lines[i - (capacity - self.next)]
        }
    }

    /// The kept lines as one text.
    pub fn into_text(self) -> (s: String)
        requires
            self.wf(),
        ensures
            s@ == lossy_text(feed_joined(self.view())),
    {
        let mut tail: Vec<u8> = Vec::new();
        let mut i: usize = 0;
        let ghost all = self.view();
        assert(all.take(0) =~= Seq::<Seq<u8>>::empty());
        while i < self.len
            invariant
                self.wf(),
                all == self.view(),
                i <= self.len,
                tail@ == feed_joined(all.take(i as int)),
            decreases self.len - i,
        {
            if i > 0 {
                tail.push(10);
            }
            let ghost before = tail@;
            let line = self.line_at(i);
            let mut j: usize = 0;
            while j < line.len()
                invariant
                    j <= line@.len(),
                    tail@ == before + line@.take(j as int),
                decreases line@.len() - j,
            {
                tail.push(line[j]);
                j = j + 1;
                assert(before + line@.take(j as int) =~= tail@);
            }
            assert(line@.take(j as int) =~= line@);
            assert(all.take(i + 1).drop_last() =~= all.take(i as int));
            assert(all.take(i + 1).last() == line@);
            assert(tail@ =~= feed_joined(all.take(i + 1)));
            i = i + 1;
        }
        assert(all.take(i as int) =~= all);
        utf8_lossy(&tail)
    }
}

/// Lines with a line feed between each two.
pub open spec fn feed_joined(lines: Seq<Seq<u8>>) -> Seq<u8>
    decreases lines.len(),
{
    if lines.len() == 0 {
        Seq::empty()
    } else if lines.len() == 1 {
        lines[0]
    } else {
        feed_joined(lines.drop_last()) + seq![10u8] + lines.last()
    }
}

/// What is kept of one raw line: at most the longest length, without the line
/// feed at its end.
pub open spec fn clipped(raw: Seq<u8>) -> Seq<u8> {
    let cut = if raw.len() > 4096 {
        raw.take(4096)
    } else {
        raw
    };
    if cut.len() > 0 && cut.last() == 10 {
        cut.drop_last()
    } else {
        cut
    }
}

/// Prepare one raw line for the ring.
pub fn clip_line(line: Vec<u8>) -> (r: Vec<u8>)
    ensures
        r@ == clipped(line@),
{
    let mut line = line;
    let ghost raw = line@;
    if line.len() > MAX_STDERR_LINE_BYTES {
        line.truncate(MAX_STDERR_LINE_BYTES);
        assert(line@ =~= raw.take(4096));
    }
    if line.len() > 0 && line[line.len() - 1] == 10 {
        let ghost before = line@;
        let _ = line.pop();
        assert(line@ =~= before.drop_last());
    }
    line
}

pub open spec fn clipped_all(raw: Seq<Seq<u8>>) -> Seq<Seq<u8>> {
    raw.map_values(|l: Seq<u8>| clipped(l))
}

/// The tail of a list of raw lines, read one after the other.
pub fn stderr_tail(raw: &Vec<Vec<u8>>, max_lines: usize) -> (s: String)
    ensures
        s@ == lossy_text(
            feed_joined(
                last_n(clipped_all(raw@.map_values(|l: Vec<u8>| l@)), max_lines as nat),
            ),
        ),
{
    let mut ring = StderrTailBuffer::new(max_lines);
    let ghost all = clipped_all(raw@.map_values(|l: Vec<u8>| l@));
    let mut i: usize = 0;
    assert(last_n(all.take(0), max_lines as nat) =~= Seq::<Seq<u8>>::empty());
    while i < raw.len()
        invariant
            i <= raw@.len(),
            all == clipped_all(raw@.map_values(|l: Vec<u8>| l@)),
            ring.wf(),
            ring.lines@.len() == max_lines,
            ring.view() == last_n(all.take(i as int), max_lines as nat),
        decreases raw@.len() - i,
    {
        let line = clip_line(raw[i].clone());
        assert(line@ == all[i as int]);
        let ghost before = all.take(i as int);
        let _ = ring.push(line);
        assert(all.take(i + 1) =~= before.push(all[i as int]));
        assert(last_n(last_n(before, max_lines as nat).push(all[i as int]), max_lines as nat)
            =~= last_n(before.push(all[i as int]), max_lines as nat));
        i = i + 1;
    }
    assert(all.take(i as int) =~= all);
    ring.into_text()
}

// ---------------------------------------------------------------------------
// Supervision
// ---------------------------------------------------------------------------
/// What a supervised process can come to.
#[derive(Debug, Clone, Copy, PartialEq, Eq, Structural)]
pub enum ProcessEvent {
    /// The process ended on its own.
    Exited,
    /// Its time ran out.
    DeadlinePassed,
    /// Its output passed the limit.
    LimitPassed,
    /// Its output ended within the limit.
    OutputClosed,
}

/// What the supervisor does about it.
#[derive(Debug, Clone, Copy, PartialEq, Eq, Structural)]
pub enum ProcessAction {
    /// Hand the exit status on.
    ReturnStatus,
    /// Kill the process group, wait, and report a timeout.
    KillThenTimeout,
    /// Kill the process group, wait, and hand no status on.
    KillThenNoStatus,
    /// Wait for the process to end.
    WaitForExit,
}

/// The supervisor's decision.
pub fn supervise(event: ProcessEvent) -> (action: ProcessAction)
    ensures
        action == ProcessAction::ReturnStatus <==> event == ProcessEvent::Exited,
        action == ProcessAction::KillThenTimeout <==> event == ProcessEvent::DeadlinePassed,
        action == ProcessAction::KillThenNoStatus <==> event == ProcessEvent::LimitPassed,
        action == ProcessAction::WaitForExit <==> event == ProcessEvent::OutputClosed,
{
    match event {
        ProcessEvent::Exited => ProcessAction::ReturnStatus,
        ProcessEvent::DeadlinePassed => ProcessAction::KillThenTimeout,
        ProcessEvent::LimitPassed => ProcessAction::KillThenNoStatus,
        ProcessEvent::OutputClosed => ProcessAction::WaitForExit,
    }
}

/// Output of a finished process: success and exit code, bytes and error tail.
#[derive(Debug)]
pub struct JsonSubprocessOutput {
    pub success: bool,
    pub exit_code: Option<i32>,
    pub stdout: Vec<u8>,
    pub stderr_tail: String,
}

/// How running a process can fail.
#[derive(Debug)]
pub enum JsonSubprocessError {
    Io(std::io::Error),
    Timeout,
    OutputLimit { stderr_tail: String },
}

/// Put the result of a supervised process together. Without a status, or with
/// output that was cut, the output is of no use.
pub fn subprocess_result(
    status: Option<(bool, Option<i32>)>,
    stdout: BoundedRead,
    stderr_tail: String,
) -> (r: Result<JsonSubprocessOutput, JsonSubprocessError>)
    ensures
        r is Ok <==> status is Some && !stdout.exceeded,
        r matches Ok(out) ==> status == Some((out.success, out.exit_code)) && out.stdout
            == stdout.data && out.stderr_tail == stderr_tail,
        r matches Err(e) ==> e == (JsonSubprocessError::OutputLimit { stderr_tail }),
{
    match status {
        Some((success, exit_code)) if !stdout.exceeded => Ok(
            JsonSubprocessOutput { success, exit_code, stdout: stdout.data, stderr_tail },
        ),
        _ => Err(JsonSubprocessError::OutputLimit { stderr_tail }),
    }
}

// ---------------------------------------------------------------------------
// What is kept of output
// ---------------------------------------------------------------------------
/// The first bytes are kept, as many as the limit lets in.
pub proof fn lemma_output_keeps_its_beginning(output: Seq<u8>, limit: nat)
    ensures
        kept_prefix(output, limit).is_prefix_of(output),
        kept_prefix(output, limit).len() <= limit,
        kept_prefix(output, limit).len() < limit ==> kept_prefix(output, limit) == output,
{
}

/// The last items are kept, as many as are asked for.
pub proof fn lemma_last_items_are_kept<A>(s: Seq<A>, n: nat)
    ensures
        last_n(s, n).is_suffix_of(s),
        last_n(s, n).len() <= n,
        last_n(s, n).len() < n ==> last_n(s, n) == s,
{
}

/// A short line is kept whole, without the line feed at its end; of a long one
/// the first 4096 bytes are.
pub proof fn lemma_lines_are_clipped(raw: Seq<u8>)
    ensures
        clipped(raw).is_prefix_of(raw),
        clipped(raw).len() <= 4096,
        raw.len() < 4096 ==> clipped(raw.push(10u8)) == raw,
        raw.len() <= 4096 && (raw.len() == 0 || raw.last() != 10) ==> clipped(raw) == raw,
        raw.len() > 4096 ==> clipped(raw).len() >= 4095,
{
    assert(raw.push(10u8).drop_last() =~= raw);
}

/// Joining two runs of lines one after the other is joining all of them.
pub proof fn lemma_joined_runs_are_joined_lines(a: Seq<Seq<u8>>, b: Seq<Seq<u8>>)
    requires
        a.len() > 0,
        b.len() > 0,
    ensures
        feed_joined(a + b) == feed_joined(a) + seq![10u8] + feed_joined(b),
        a.len() == 1 ==> feed_joined(a) == a[0],
    decreases b.len(),
{
    assert((a + b).drop_last() =~= a + b.drop_last());
    assert((a + b).last() == b.last());
    if b.len() > 1 {
        lemma_joined_runs_are_joined_lines(a, b.drop_last());
        assert(feed_joined(a + b) =~= feed_joined(a) + seq![10u8] + feed_joined(b));
    } else {
        assert(a + b.drop_last() =~= a);
    }
}

/// What is held of output is its beginning, and it is known whether there was
/// more.
pub proof fn lemma_held_output_knows_whether_it_was_cut(read: BoundedRead, output: Seq<u8>, limit: nat)
    requires
        read.holds(output, limit),
    ensures
        read.data@.is_prefix_of(output),
        read.exceeded <==> read.data@.len() < output.len(),
        !read.exceeded ==> read.data@ == output,
        read.exceeded ==> read.data@.len() == limit,
{
}

} // verus!

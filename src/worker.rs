//! The worker's decisions: outcome codes, shutdown requests, line framing of
//! a subprocess's output, and the choice of tests to run.
use vstd::prelude::*;
use vstd::string::StringExecFns;
use crate::text::split_on;

verus! {

broadcast use vstd::string::group_string_axioms;

/// How a task or a test ended, as the worker reports it.
#[derive(Debug, Clone, Copy, PartialEq, Eq, Structural)]
pub enum FinishStatus {
    Success,
    Failed(i64),
    Timeout,
    Skipped,
}

impl FinishStatus {
    /// The outcome of an exit code: 0 is success, 124 (the timeout wrapper's
    /// code) a timeout, anything else a failure carrying the code.
    pub fn from_i32(ret_code: i32) -> (r: FinishStatus)
        ensures
            ret_code == 0 ==> r == FinishStatus::Success,
            ret_code == 124 ==> r == FinishStatus::Timeout,
            ret_code != 0 && ret_code != 124 ==> r == FinishStatus::Failed(ret_code as i64),
    {
        if ret_code == 0 {
            FinishStatus::Success
        } else if ret_code == 124 {
            FinishStatus::Timeout
        } else {
            FinishStatus::Failed(ret_code as i64)
        }
    }

    /// The status name that a report carries.
    pub fn as_str(&self) -> (r: &'static str)
        ensures
            r@ == match *self {
                FinishStatus::Success => "Success"@,
                FinishStatus::Failed(_) => "Failed"@,
                FinishStatus::Timeout => "Timeout"@,
                FinishStatus::Skipped => "Skipped"@,
            },
    {
        match self {
            FinishStatus::Success => "Success",
            FinishStatus::Failed(_) => "Failed",
            FinishStatus::Timeout => "Timeout",
            FinishStatus::Skipped => "Skipped",
        }
    }

    /// The return code that a task report carries.
    pub fn ret_code(&self) -> (r: i64)
        ensures
            r == match *self {
                FinishStatus::Success => 0,
                FinishStatus::Skipped => 0,
                FinishStatus::Failed(e) => e,
                FinishStatus::Timeout => 124,
            },
    {
        match self {
            FinishStatus::Success => 0,
            FinishStatus::Skipped => 0,
            FinishStatus::Failed(e) => *e,
            FinishStatus::Timeout => 124,
        }
    }
}

/// Shutdown has been asked for: the first signal asks to finish the current task.
pub fn is_exit_requested(counter: u8) -> (r: bool)
    ensures
        r == (counter >= 1),
{
    counter > 0
}

/// Immediate shutdown has been asked for: a second signal asks to stop now.
pub fn is_immediate_exit_requested(counter: u8) -> (r: bool)
    ensures
        r == (counter >= 2),
{
    counter > 1
}

/// One line of a subprocess's output, by the stream it came from.
#[derive(Debug)]
pub enum Message {
    Stdout(String),
    Stderr(String),
}

/// The text a line of output is reported as: its stream's label, the line,
/// and a line break.
pub open spec fn labelled_line(m: Message) -> Seq<char> {
    match m {
        Message::Stdout(s) => "stdout: "@ + s@ + "\n"@,
        Message::Stderr(s) => "stderr: "@ + s@ + "\n"@,
    }
}

pub fn prepend_channel(msg: Message) -> (r: String)
    ensures
        r@ == labelled_line(msg),
{
    let mut out = String::new();
    let (label, s) = match msg {
        Message::Stdout(s) => ("stdout: ", s),
        Message::Stderr(s) => ("stderr: ", s),
    };
    out.append(label);
    out.append(s.as_str());
    out.append("\n");
    assert(out@ =~= labelled_line(msg));
    out
}

/// Splits a byte stream into lines as the bytes arrive: what follows the
/// last line feed waits for more bytes.
#[derive(Debug)]
pub struct LineFramer {
    pub leftover: Vec<u8>,
}

pub open spec fn byte_lines(v: Seq<Vec<u8>>) -> Seq<Seq<u8>> {
    v.map_values(|l: Vec<u8>| l@)
}

impl LineFramer {
    pub fn new() -> (r: LineFramer)
        ensures
            r.leftover@.len() == 0,
    {
        LineFramer { leftover: Vec::new() }
    }

    /// Takes more bytes; returns every line that is now complete, without its
    /// line feed, and keeps the unfinished rest.
    pub fn push_bytes(&mut self, bytes: &Vec<u8>) -> (r: Vec<Vec<u8>>)
        requires
            old(self).leftover@.len() + bytes@.len() <= usize::MAX,
        ensures
            byte_lines(r@) == split_on(old(self).leftover@ + bytes@, 10u8).drop_last(),
            final(self).leftover@ == split_on(old(self).leftover@ + bytes@, 10u8).last(),
    {
        let ghost all = self.leftover@ + bytes@;
        let mut current: Vec<u8> = Vec::new();
        let mut done: Vec<Vec<u8>> = Vec::new();
        let mut i: usize = 0;
        let n = self.leftover.len();
        let total = n + bytes.len();
        proof {
            assert(all.take(0) =~= Seq::<u8>::empty());
        }
        while i < total
            invariant
                total == all.len(),
                n == self.leftover@.len(),
                all == self.leftover@ + bytes@,
                i <= total,
                split_on(all.take(i as int), 10u8) == byte_lines(done@).push(current@),
            decreases total - i,
        {
            let b = if i < n {
                self.leftover[i]
            } else {
                bytes[i - n]
            };
            assert(b == all[i as int]);
            assert(all.take(i as int + 1).drop_last() =~= all.take(i as int));
            assert(all.take(i as int + 1).last() == b);
            if b == 10u8 {
                let ghost before = done@;
                done.push(current);
                current = Vec::new();
                assert(byte_lines(done@) =~= byte_lines(before).push(
                    split_on(all.take(i as int), 10u8).last(),
                ));
                assert(byte_lines(done@).push(current@) =~= split_on(all.take(i as int), 10u8).push(
                    Seq::<u8>::empty(),
                ));
            } else {
                let ghost prev = current@;
                current.push(b);
                assert(byte_lines(done@).push(current@) =~= byte_lines(done@).push(prev).update(
                    byte_lines(done@).len() as int,
                    prev.push(b),
                ));
            }
            i = i + 1;
        }
        assert(all.take(i as int) =~= all);
        assert(byte_lines(done@) =~= byte_lines(done@).push(current@).drop_last());
        self.leftover = current;
        done
    }

    /// Ends the stream: the unfinished rest, when there is one, is a last line.
    pub fn finish(self) -> (r: Option<Vec<u8>>)
        ensures
            self.leftover@.len() == 0 ==> r is None,
            self.leftover@.len() > 0 ==> r is Some && r->0@ == self.leftover@,
    {
        if self.leftover.len() == 0 {
            None
        } else {
            Some(self.leftover)
        }
    }
}

} // verus!

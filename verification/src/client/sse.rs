//! Server-sent events: bytes in, payloads out.

use vstd::prelude::*;
use vstd::utf8::{decode_utf8, valid_utf8};

use crate::text::affix::{after_prefix, strip_prefix, trim, trimmed};
use crate::text::{opt, same};

verus! {

/// The text of bytes that may not be UTF-8.
pub uninterp spec fn lossy(bytes: Seq<u8>) -> Seq<char>;

/// `String::from_utf8_lossy`: bytes that are UTF-8 give their text; what is not
/// is replaced by a mark. The result depends on the bytes alone.
#[verifier::external_body]
fn text_of(bytes: &Vec<u8>) -> (r: String)
    ensures
        r@ == lossy(bytes@),
        valid_utf8(bytes@) ==> r@ == decode_utf8(bytes@),
{
    String::from_utf8_lossy(bytes).into_owned()
}

/// The position of the first line feed, or the length.
pub open spec fn line_end(b: Seq<u8>) -> nat
    decreases b.len(),
{
    if b.len() == 0 || b[0] == 10u8 {
        0
    } else {
        1 + line_end(b.drop_first())
    }
}

/// The complete lines in the bytes, without their line feeds.
pub open spec fn complete_lines(b: Seq<u8>) -> Seq<Seq<u8>>
    decreases b.len(),
{
    let n = line_end(b) as int;
    if n < b.len() {
        Seq::empty().push(b.take(n)) + complete_lines(b.skip(n + 1))
    } else {
        Seq::empty()
    }
}

/// What follows the last line feed.
pub open spec fn partial_line(b: Seq<u8>) -> Seq<u8>
    decreases b.len(),
{
    let n = line_end(b) as int;
    if n < b.len() {
        partial_line(b.skip(n + 1))
    } else {
        b
    }
}

proof fn lemma_line_end(b: Seq<u8>, n: int)
    requires
        0 <= n <= b.len(),
        forall|k: int| 0 <= k < n ==> #[trigger] b[k] != 10u8,
        n == b.len() || b[n] == 10u8,
    ensures
        line_end(b) == n,
    decreases n,
{
    if n > 0 {
        assert(b[0] != 10u8);
        assert forall|k: int| 0 <= k < n - 1 implies #[trigger] b.drop_first()[k] != 10u8 by {
            assert(b.drop_first()[k] == b[k + 1]);
        }
        lemma_line_end(b.drop_first(), n - 1);
    }
}

proof fn lemma_line_end_meaning(b: Seq<u8>)
    ensures
        line_end(b) <= b.len(),
        line_end(b) < b.len() ==> b[line_end(b) as int] == 10u8,
        forall|k: int| 0 <= k < line_end(b) ==> #[trigger] b[k] != 10u8,
    decreases b.len(),
{
    if b.len() > 0 && b[0] != 10u8 {
        lemma_line_end_meaning(b.drop_first());
        assert forall|k: int| 0 <= k < line_end(b) implies #[trigger] b[k] != 10u8 by {
            if k > 0 {
                assert(b.drop_first()[k - 1] == b[k]);
            }
        }
    }
}

/// However the bytes are cut into chunks, the lines are the same: the lines of
/// the first chunk, then those of what it left over and the second.
pub proof fn chunks_do_not_matter(a: Seq<u8>, b: Seq<u8>)
    ensures
        complete_lines(a + b) == complete_lines(a) + complete_lines(partial_line(a) + b),
        partial_line(a + b) == partial_line(partial_line(a) + b),
    decreases a.len(),
{
    let n = line_end(a) as int;
    lemma_line_end_meaning(a);
    if n < a.len() {
        let rest = a.skip(n + 1);
        chunks_do_not_matter(rest, b);
        lemma_line_end(a + b, n);
        assert((a + b).take(n) =~= a.take(n));
        assert((a + b).skip(n + 1) =~= rest + b);
        let line = Seq::empty().push(a.take(n));
        assert(complete_lines(a + b) =~= line + complete_lines(rest + b));
        assert(complete_lines(a) =~= line + complete_lines(rest));
        assert(line + (complete_lines(rest) + complete_lines(partial_line(rest) + b)) =~= (line
            + complete_lines(rest)) + complete_lines(partial_line(rest) + b));
    } else {
        assert(Seq::<Seq<u8>>::empty() + complete_lines(a + b) =~= complete_lines(a + b));
    }
}

/// Bytes that have arrived and not been read as lines yet.
pub struct SseBuffer {
    buf: Vec<u8>,
}

impl View for SseBuffer {
    type V = Seq<u8>;

    closed spec fn view(&self) -> Seq<u8> {
        self.buf@
    }
}

impl SseBuffer {
    /// Nothing has arrived.
    pub fn new() -> (r: SseBuffer)
        ensures
            r@ == Seq::<u8>::empty(),
    {
        SseBuffer { buf: Vec::new() }
    }

    /// Take a chunk in.
    pub fn push(&mut self, chunk: &Vec<u8>)
        ensures
            final(self)@ == old(self)@ + chunk@,
    {
        let mut i: usize = 0;
        let ghost start = self.buf@;
        assert(start + chunk@.take(0) =~= start);
        while i < chunk.len()
            invariant
                i <= chunk@.len(),
                self.buf@ == start + chunk@.take(i as int),
            decreases chunk.len() - i,
        {
            self.buf.push(chunk[i]);
            i += 1;
            assert(self.buf@ =~= start + chunk@.take(i as int));
        }
        assert(chunk@.take(chunk@.len() as int) =~= chunk@);
    }

    /// Take the next complete line out, if there is one.
    pub fn next_line(&mut self) -> (r: Option<Vec<u8>>)
        ensures
            match r {
                Some(line) => complete_lines(old(self)@) == Seq::empty().push(line@)
                    + complete_lines(final(self)@) && partial_line(final(self)@) == partial_line(
                    old(self)@,
                ),
                None => complete_lines(old(self)@) == Seq::<Seq<u8>>::empty() && final(self)@
                    == old(self)@ && partial_line(old(self)@) == old(self)@,
            },
            r is Some ==> final(self)@.len() < old(self)@.len(),
    {
        let mut n: usize = 0;
        while n < self.buf.len() && self.buf[n] != 10u8
            invariant
                n <= self.buf@.len(),
                self.buf@ == old(self).buf@,
                forall|k: int| 0 <= k < n ==> #[trigger] self.buf@[k] != 10u8,
            decreases self.buf.len() - n,
        {
            n += 1;
        }
        proof {
            lemma_line_end(self.buf@, n as int);
        }
        if n == self.buf.len() {
            return None;
        }
        let ghost all = self.buf@;
        let mut line: Vec<u8> = Vec::new();
        let mut rest: Vec<u8> = Vec::new();
        let mut i: usize = 0;
        while i < n
            invariant
                i <= n < self.buf@.len(),
                self.buf@ == all,
                line@ == all.take(i as int),
            decreases n - i,
        {
            line.push(self.buf[i]);
            i += 1;
            assert(line@ =~= all.take(i as int));
        }
        i = n + 1;
        while i < self.buf.len()
            invariant
                n < i <= self.buf@.len(),
                self.buf@ == all,
                rest@ == all.subrange(n + 1, i as int),
            decreases self.buf.len() - i,
        {
            rest.push(self.buf[i]);
            i += 1;
            assert(rest@ =~= all.subrange(n + 1, i as int));
        }
        assert(rest@ =~= all.skip(n + 1));
        self.buf = rest;
        Some(line)
    }
}

/// The payload of a line: what follows `data:`, trimmed; none for another line,
/// an empty payload and the end mark.
pub open spec fn payload(line: Seq<char>) -> Option<Seq<char>> {
    match after_prefix(trimmed(line), "data:"@) {
        Some(rest) => if trimmed(rest).len() == 0 || trimmed(rest) == "[DONE]"@ {
            None
        } else {
            Some(trimmed(rest))
        },
        None => None,
    }
}

/// The payload of a line of text.
pub fn line_payload(line: &str) -> (r: Option<String>)
    ensures
        opt(r) == payload(line@),
{
    match strip_prefix(trim(line).as_str(), "data:") {
        Some(rest) => {
            let data = trim(rest.as_str());
            if data.as_str().is_empty() || same(data.as_str(), "[DONE]") {
                None
            } else {
                Some(data)
            }
        },
        None => None,
    }
}

/// The payload of a line of bytes.
pub fn read_sse(line: &Vec<u8>) -> (r: Option<String>)
    ensures
        opt(r) == payload(lossy(line@)),
        valid_utf8(line@) ==> opt(r) == payload(decode_utf8(line@)),
{
    line_payload(text_of(line).as_str())
}

} // verus!

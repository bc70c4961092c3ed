//! Stream framing: reassembles a stream of byte chunks into the sequence of
//! complete commands delimited by a fixed, non-empty terminator. Bytes after
//! the last terminator stay buffered for the next read, so how the stream is
//! chunked never changes which commands come out.

use vstd::prelude::*;

verus! {

/// The terminator occurs in `buf` at position `k`.
pub open spec fn is_term_at(buf: Seq<u8>, term: Seq<u8>, k: int) -> bool {
    0 <= k && k + term.len() <= buf.len() && buf.subrange(k, k + term.len() as int) == term
}

/// Position of the first terminator occurrence in `buf`, or -1 if none.
pub open spec fn first_ix(buf: Seq<u8>, term: Seq<u8>) -> int
    decreases buf.len(),
{
    if term.len() == 0 {
        0
    } else if buf.len() < term.len() {
        -1
    } else if buf.take(term.len() as int) == term {
        0
    } else {
        let r = first_ix(buf.skip(1), term);
        if r < 0 {
            -1
        } else {
            r + 1
        }
    }
}

/// Splits `buf` into the complete frames before each terminator and the
/// remainder after the last one.
pub open spec fn extract(buf: Seq<u8>, term: Seq<u8>) -> (Seq<Seq<u8>>, Seq<u8>)
    decreases buf.len(),
{
    let j = first_ix(buf, term);
    if term.len() > 0 && 0 <= j && j + term.len() <= buf.len() {
        let rec = extract(buf.skip(j + term.len() as int), term);
        (seq![buf.take(j)] + rec.0, rec.1)
    } else {
        (Seq::empty(), buf)
    }
}

/// `first_ix` finds exactly the first occurrence: a negative result means no
/// occurrence at all, and a non-negative one is an occurrence preceded by none.
pub proof fn lemma_first_ix_bounds(buf: Seq<u8>, term: Seq<u8>)
    requires
        term.len() > 0,
    ensures
        first_ix(buf, term) == -1 ==> forall|k: int| !is_term_at(buf, term, k),
        first_ix(buf, term) >= 0 ==> is_term_at(buf, term, first_ix(buf, term)),
        first_ix(buf, term) >= 0 ==> forall|k: int|
            0 <= k < first_ix(buf, term) ==> !is_term_at(buf, term, k),
    decreases buf.len(),
{
    if buf.len() < term.len() {
        assert(forall|k: int| !is_term_at(buf, term, k));
    } else if buf.take(term.len() as int) == term {
        assert(buf.subrange(0, term.len() as int) =~= buf.take(term.len() as int));
        assert(is_term_at(buf, term, 0));
    } else {
        let tail = buf.skip(1);
        lemma_first_ix_bounds(tail, term);
        assert(buf.subrange(0, term.len() as int) =~= buf.take(term.len() as int));
        assert(!is_term_at(buf, term, 0));
        assert forall|k: int| 1 <= k implies is_term_at(buf, term, k) == is_term_at(
            tail,
            term,
            k - 1,
        ) by {
            if 0 <= k - 1 && k - 1 + term.len() <= tail.len() {
                assert(buf.subrange(k, k + term.len() as int) =~= tail.subrange(
                    k - 1,
                    k - 1 + term.len() as int,
                ));
            }
        }
        let r = first_ix(tail, term);
        if r < 0 {
            assert forall|k: int| !is_term_at(buf, term, k) by {
                if k >= 1 {
                    assert(!is_term_at(tail, term, k - 1));
                }
            }
        } else {
            assert(is_term_at(buf, term, r + 1));
            assert forall|k: int| 0 <= k < r + 1 implies !is_term_at(buf, term, k) by {
                if k >= 1 {
                    assert(!is_term_at(tail, term, k - 1));
                }
            }
        }
    }
}

/// An occurrence with none before it is what `first_ix` returns.
pub proof fn lemma_first_ix_of_match(buf: Seq<u8>, term: Seq<u8>, j: int)
    requires
        term.len() > 0,
        is_term_at(buf, term, j),
        forall|k: int| 0 <= k < j ==> !is_term_at(buf, term, k),
    ensures
        first_ix(buf, term) == j,
{
    lemma_first_ix_bounds(buf, term);
    let f = first_ix(buf, term);
    if f == -1 {
        assert(!is_term_at(buf, term, j));
    } else if f < j {
        assert(!is_term_at(buf, term, f));
    } else if f > j {
        assert(!is_term_at(buf, term, j));
    }
}

/// The first occurrence inside `a` is still the first after appending more
/// bytes: later data never changes an already-found frame boundary.
pub proof fn lemma_first_ix_append(a: Seq<u8>, b: Seq<u8>, term: Seq<u8>)
    requires
        term.len() > 0,
        first_ix(a, term) >= 0,
    ensures
        first_ix(a + b, term) == first_ix(a, term),
    decreases a.len(),
{
    let j = first_ix(a, term);
    if a.take(term.len() as int) == term {
        assert((a + b).len() >= term.len());
        assert((a + b).take(term.len() as int) =~= a.take(term.len() as int));
    } else {
        assert(a.len() >= term.len());
        assert((a + b).take(term.len() as int) =~= a.take(term.len() as int));
        assert(first_ix(a.skip(1), term) == j - 1);
        lemma_first_ix_append(a.skip(1), b, term);
        assert((a + b).skip(1) =~= a.skip(1) + b);
    }
}

/// Reassembly is insensitive to chunk boundaries: extracting from `a + b` is
/// the same as extracting from `a` and then from its remainder joined with
/// `b`. This is why feeding a stream in any chunks emits the same commands.
pub proof fn lemma_extract_append(a: Seq<u8>, b: Seq<u8>, term: Seq<u8>)
    requires
        term.len() > 0,
    ensures
        extract(a + b, term).0 =~= extract(a, term).0 + extract(extract(a, term).1 + b, term).0,
        extract(a + b, term).1 == extract(extract(a, term).1 + b, term).1,
    decreases a.len(),
{
    let j = first_ix(a, term);
    lemma_first_ix_bounds(a, term);
    if j < 0 {
        assert(extract(a, term).0 =~= Seq::<Seq<u8>>::empty());
        assert(extract(a, term).1 == a);
        assert(extract(a, term).1 + b == a + b);
    } else {
        assert(is_term_at(a, term, j));
        lemma_first_ix_append(a, b, term);
        let rest = a.skip(j + term.len() as int);
        assert((a + b).take(j) =~= a.take(j));
        assert((a + b).skip(j + term.len() as int) =~= rest + b);
        lemma_extract_append(rest, b, term);
        assert(extract(a + b, term).0 =~= seq![(a + b).take(j)] + extract(rest + b, term).0);
        assert(extract(a, term).0 + extract(extract(a, term).1 + b, term).0 =~= seq![a.take(j)] + (
        extract(rest, term).0 + extract(extract(rest, term).1 + b, term).0));
    }
}

/// A payload followed by the terminator, with no earlier occurrence, comes out
/// as exactly one frame equal to the payload, leaving an empty buffer.
pub proof fn lemma_whole_command(payload: Seq<u8>, term: Seq<u8>)
    requires
        term.len() > 0,
        forall|k: int| 0 <= k < payload.len() ==> !is_term_at(payload + term, term, k),
    ensures
        extract(payload + term, term).0 =~= seq![payload],
        extract(payload + term, term).1 =~= Seq::<u8>::empty(),
{
    let s = payload + term;
    assert(s.subrange(payload.len() as int, payload.len() + term.len() as int) =~= term);
    assert(is_term_at(s, term, payload.len() as int));
    lemma_first_ix_of_match(s, term, payload.len() as int);
    let rest = s.skip(payload.len() + term.len() as int);
    assert(rest =~= Seq::<u8>::empty());
    assert(first_ix(rest, term) == -1);
    assert(extract(rest, term).0 =~= Seq::<Seq<u8>>::empty());
    assert(extract(rest, term).1 == rest);
    assert(extract(s, term).0 =~= seq![s.take(payload.len() as int)] + extract(rest, term).0);
    assert(s.take(payload.len() as int) =~= payload);
}

/// Emitted commands are free of the terminator by construction (each frame
/// stops at the first occurrence), and so is the buffered remainder.
pub proof fn lemma_frames_free_of_terminator(buf: Seq<u8>, term: Seq<u8>)
    requires
        term.len() > 0,
    ensures
        forall|i: int, k: int|
            0 <= i < extract(buf, term).0.len() ==> !(#[trigger] is_term_at(
                extract(buf, term).0[i],
                term,
                k,
            )),
        forall|k: int| !is_term_at(extract(buf, term).1, term, k),
    decreases buf.len(),
{
    let j = first_ix(buf, term);
    lemma_first_ix_bounds(buf, term);
    if j < 0 {
        assert(extract(buf, term).1 == buf);
    } else {
        let head = buf.take(j);
        let rest = buf.skip(j + term.len() as int);
        lemma_frames_free_of_terminator(rest, term);
        assert(extract(buf, term).1 == extract(rest, term).1);
        assert forall|k: int| !is_term_at(head, term, k) by {
            if 0 <= k && k + term.len() <= head.len() {
                assert(head.subrange(k, k + term.len() as int) =~= buf.subrange(
                    k,
                    k + term.len() as int,
                ));
                assert(!is_term_at(buf, term, k));
            }
        }
        assert forall|i: int, k: int|
            0 <= i < extract(buf, term).0.len() implies !(#[trigger] is_term_at(
            extract(buf, term).0[i],
            term,
            k,
        )) by {
            if i == 0 {
                assert(extract(buf, term).0[0] == head);
            } else {
                assert(extract(buf, term).0[i] == extract(rest, term).0[i - 1]);
            }
        }
    }
}

/// Splitting a stream at any byte offset and feeding the two parts in turn
/// yields the frames of the whole stream: chunking is transparent.
pub proof fn lemma_chunking_transparent(s: Seq<u8>, term: Seq<u8>, i: int)
    requires
        term.len() > 0,
        0 <= i <= s.len(),
    ensures
        extract(s.take(i), term).0 + extract(extract(s.take(i), term).1 + s.skip(i), term).0
            =~= extract(s, term).0,
        extract(extract(s.take(i), term).1 + s.skip(i), term).1 == extract(s, term).1,
{
    assert(s.take(i) + s.skip(i) =~= s);
    lemma_extract_append(s.take(i), s.skip(i), term);
}

/// Copies `v[from..to]` into a fresh vector.
fn subvec(v: &Vec<u8>, from: usize, to: usize) -> (out: Vec<u8>)
    requires
        from <= to <= v@.len(),
    ensures
        out@ =~= v@.subrange(from as int, to as int),
{
    let mut out: Vec<u8> = Vec::new();
    let mut i: usize = from;
    while i < to
        invariant
            from <= i <= to <= v@.len(),
            out@ =~= v@.subrange(from as int, i as int),
        decreases to - i,
    {
        out.push(v[i]);
        assert(out@ =~= v@.subrange(from as int, i + 1));
        i = i + 1;
    }
    out
}

/// Whether the terminator occurs in `buf` at position `at`.
fn term_matches_at(buf: &Vec<u8>, term: &Vec<u8>, at: usize) -> (r: bool)
    requires
        at + term@.len() <= buf@.len(),
    ensures
        r == is_term_at(buf@, term@, at as int),
{
    let n = buf.len();
    let mut k: usize = 0;
    while k < term.len()
        invariant
            k <= term@.len(),
            at + term@.len() <= buf@.len(),
            n == buf@.len(),
            forall|m: int| 0 <= m < k ==> buf@[at + m] == term@[m],
        decreases term@.len() - k,
    {
        if buf[at + k] != term[k] {
            assert(buf@.subrange(at as int, at + term@.len() as int)[k as int] != term@[k as int]);
            return false;
        }
        k = k + 1;
    }
    assert(buf@.subrange(at as int, at + term@.len() as int) =~= term@);
    true
}

/// Position of the first terminator occurrence in `buf`, if any.
fn find_first(buf: &Vec<u8>, term: &Vec<u8>) -> (r: Option<usize>)
    requires
        term@.len() > 0,
    ensures
        match r {
            Some(j) => first_ix(buf@, term@) == j as int,
            None => first_ix(buf@, term@) == -1,
        },
{
    proof {
        lemma_first_ix_bounds(buf@, term@);
    }
    if buf.len() < term.len() {
        return None;
    }
    let n = buf.len();
    let last_start = n - term.len();
    let mut i: usize = 0;
    while i <= last_start
        invariant
            term@.len() > 0,
            last_start + term@.len() == buf@.len(),
            n == buf@.len(),
            i <= last_start + 1,
            forall|k: int| 0 <= k < i ==> !is_term_at(buf@, term@, k),
        decreases last_start + 1 - i,
    {
        if term_matches_at(buf, term, i) {
            proof {
                lemma_first_ix_of_match(buf@, term@, i as int);
            }
            return Some(i);
        }
        i = i + 1;
    }
    proof {
        assert forall|k: int| !is_term_at(buf@, term@, k) by {
            if 0 <= k <= last_start {
                assert(!is_term_at(buf@, term@, k));
            }
        }
        if first_ix(buf@, term@) >= 0 {
            assert(is_term_at(buf@, term@, first_ix(buf@, term@)));
        }
    }
    None
}

/// Turns a stream of byte chunks into the commands delimited by a fixed
/// terminator, holding partial input across reads.
pub struct FrameReassembler {
    terminator: Vec<u8>,
    buffer: Vec<u8>,
}

impl FrameReassembler {
    /// The reassembler's terminator is fixed and non-empty.
    pub closed spec fn wf(&self) -> bool {
        self.terminator@.len() > 0
    }

    pub closed spec fn term(&self) -> Seq<u8> {
        self.terminator@
    }

    /// Bytes received but not yet emitted as part of a complete frame.
    pub closed spec fn pending(&self) -> Seq<u8> {
        self.buffer@
    }

    pub fn new(terminator: Vec<u8>) -> (r: Self)
        requires
            terminator@.len() > 0,
        ensures
            r.wf(),
            r.term() == terminator@,
            r.pending() =~= Seq::<u8>::empty(),
    {
        FrameReassembler { terminator, buffer: Vec::new() }
    }

    /// Number of bytes currently buffered; the orchestrator caps this.
    pub fn pending_len(&self) -> (n: usize)
        ensures
            n == self.pending().len(),
    {
        self.buffer.len()
    }

    /// Appends `chunk` to the buffer and emits every complete frame now
    /// present, in order, leaving the remainder buffered. Reassembly never
    /// fails; a chunk without a terminator only grows the buffer.
    pub fn feed(&mut self, chunk: &[u8]) -> (frames: Vec<Vec<u8>>)
        requires
            old(self).wf(),
        ensures
            final(self).wf(),
            final(self).term() == old(self).term(),
            frames.deep_view() =~~= extract(old(self).pending() + chunk@, old(self).term()).0,
            final(self).pending() == extract(old(self).pending() + chunk@, old(self).term()).1,
    {
        let ghost orig = self.buffer@ + chunk@;
        let mut c: usize = 0;
        while c < chunk.len()
            invariant
                c <= chunk@.len(),
                self.buffer@ =~= old(self).buffer@ + chunk@.take(c as int),
                self.terminator == old(self).terminator,
            decreases chunk@.len() - c,
        {
            self.buffer.push(chunk[c]);
            c = c + 1;
        }
        assert(self.buffer@ =~= orig);
        let mut frames: Vec<Vec<u8>> = Vec::new();
        let mut done = false;
        while !done
            invariant
                self.wf(),
                self.terminator == old(self).terminator,
                extract(orig, self.terminator@).0 =~~= frames.deep_view() + extract(
                    self.buffer@,
                    self.terminator@,
                ).0,
                extract(orig, self.terminator@).1 == extract(self.buffer@, self.terminator@).1,
                done ==> first_ix(self.buffer@, self.terminator@) == -1,
            decreases self.buffer@.len() + (if done {
                0int
            } else {
                1int
            }),
        {
            match find_first(&self.buffer, &self.terminator) {
                None => {
                    done = true;
                },
                Some(j) => {
                    let ghost before = self.buffer@;
                    let blen = self.buffer.len();
                    proof {
                        lemma_first_ix_bounds(before, self.terminator@);
                        assert(is_term_at(before, self.terminator@, j as int));
                    }
                    let frame = subvec(&self.buffer, 0, j);
                    let rest = subvec(&self.buffer, j + self.terminator.len(), blen);
                    self.buffer = rest;
                    let ghost prev_frames = frames.deep_view();
                    frames.push(frame);
                    proof {
                        assert(before.take(j as int) =~= frame@);
                        assert(before.skip(j + self.terminator@.len() as int) =~= self.buffer@);
                        assert(extract(before, self.terminator@).0 =~= seq![frame@] + extract(
                            self.buffer@,
                            self.terminator@,
                        ).0);
                        assert(frames.deep_view() =~~= prev_frames.push(frame@));
                    }
                },
            }
        }
        assert(extract(self.buffer@, self.terminator@).0 =~= Seq::<Seq<u8>>::empty());
        frames
    }
}

} // verus!

use vstd::prelude::*;

verus! {

/// What lossy UTF-8 decoding makes of a run of bytes.
pub uninterp spec fn lossy_utf8(b: Seq<u8>) -> Seq<char>;

/// Relies on `String::from_utf8_lossy`: the text of `b`, with every ill-formed sequence
/// replaced by U+FFFD; ASCII bytes, being valid UTF-8, come back as the same characters.
#[verifier::external_body]
fn decode_lossy(b: &[u8]) -> (r: Vec<char>)
    ensures
        r@ == lossy_utf8(b@),
        (forall|i: int| 0 <= i < b@.len() ==> b@[i] < 128) ==> r@ == b@.map_values(
            |x: u8| x as char,
        ),
{
    String::from_utf8_lossy(b).chars().collect()
}

/// Relies on `String`'s `FromIterator<char>`: the string of these characters in order.
#[verifier::external_body]
pub(crate) fn text_of(v: &[char]) -> (r: String)
    ensures
        r@ == v@,
{
    v.iter().collect()
}

/// One step of cutting text at newlines: a newline opens a new segment, any other
/// character extends the last one.
pub open spec fn cut_step(segs: Seq<Seq<char>>, c: char) -> Seq<Seq<char>> {
    if c == '\n' {
        segs.push(Seq::<char>::empty())
    } else {
        segs.update(segs.len() - 1, segs.last().push(c))
    }
}

/// `s` cut at every newline: the complete lines, then the unterminated rest.
pub open spec fn segments(s: Seq<char>) -> Seq<Seq<char>>
    decreases s.len(),
{
    if s.len() == 0 {
        seq![Seq::<char>::empty()]
    } else {
        cut_step(segments(s.drop_last()), s.last())
    }
}

pub open spec fn no_newline(s: Seq<char>) -> bool {
    forall|i: int| 0 <= i < s.len() ==> s[i] != '\n'
}

/// `i` is the position of the first newline of `s`.
pub open spec fn first_newline(s: Seq<char>, i: int) -> bool {
    0 <= i < s.len() && s[i] == '\n' && no_newline(s.take(i))
}

proof fn lemma_segments_nonempty(s: Seq<char>)
    ensures
        segments(s).len() >= 1,
    decreases s.len(),
{
    if s.len() > 0 {
        lemma_segments_nonempty(s.drop_last());
    }
}

proof fn lemma_segments_plain(s: Seq<char>)
    requires
        no_newline(s),
    ensures
        segments(s) == seq![s],
    decreases s.len(),
{
    if s.len() > 0 {
        let d = s.drop_last();
        assert(no_newline(d));
        lemma_segments_plain(d);
        assert(s.last() != '\n');
        assert(d.push(s.last()) =~= s);
        assert(segments(s) =~= seq![s]);
    } else {
        assert(s =~= Seq::<char>::empty());
    }
}

/// Cutting `x + c` is cutting `x`, then cutting its last segment extended by `c`.
proof fn lemma_segments_append(x: Seq<char>, c: Seq<char>)
    ensures
        segments(x + c) == segments(x).drop_last() + segments(segments(x).last() + c),
    decreases c.len(),
{
    lemma_segments_nonempty(x);
    let d = segments(x).drop_last();
    let l = segments(x).last();
    if c.len() == 0 {
        assert(x + c =~= x);
        assert(l + c =~= l);
        assert forall|i: int| 0 <= i < l.len() implies l[i] != '\n' by {
            lemma_segment_plain(x);
        }
        lemma_segments_plain(l);
        assert(segments(x) =~= d + seq![l]);
    } else {
        let c0 = c.drop_last();
        lemma_segments_append(x, c0);
        assert((x + c).drop_last() =~= x + c0);
        assert((l + c).drop_last() =~= l + c0);
        assert((x + c).last() == c.last());
        assert((l + c).last() == c.last());
        let s = segments(l + c0);
        lemma_segments_nonempty(l + c0);
        assert(cut_step(d + s, c.last()) =~= d + cut_step(s, c.last()));
    }
}

/// The last segment holds no newline.
proof fn lemma_segment_plain(s: Seq<char>)
    ensures
        no_newline(segments(s).last()),
        segments(s).len() >= 1,
    decreases s.len(),
{
    if s.len() > 0 {
        lemma_segment_plain(s.drop_last());
    }
}

/// A text whose first newline is at `i` cuts into the text before it, then the cuts of
/// what follows it.
proof fn lemma_segments_first_line(s: Seq<char>, i: int)
    requires
        first_newline(s, i),
    ensures
        segments(s) == seq![s.take(i)] + segments(s.skip(i + 1)),
{
    let head = s.take(i + 1);
    lemma_segments_plain(s.take(i));
    assert(head.drop_last() =~= s.take(i));
    assert(segments(head) =~= seq![s.take(i), Seq::<char>::empty()]);
    lemma_segments_append(head, s.skip(i + 1));
    assert(head + s.skip(i + 1) =~= s);
    assert(Seq::<char>::empty() + s.skip(i + 1) =~= s.skip(i + 1));
    assert(segments(head).drop_last() =~= seq![s.take(i)]);
}

/// Cuts an inbound byte stream into newline-terminated records.
pub struct FrameDecoder {
    buffer: Vec<char>,
    /// All text received so far.
    text: Ghost<Seq<char>>,
    /// The records handed out so far, without their newlines.
    emitted: Ghost<Seq<Seq<char>>>,
}

impl FrameDecoder {
    pub closed spec fn buffered(&self) -> Seq<char> {
        self.buffer@
    }

    pub closed spec fn received(&self) -> Seq<char> {
        self.text@
    }

    pub closed spec fn records(&self) -> Seq<Seq<char>> {
        self.emitted@
    }

    /// The records handed out, followed by the cuts of what is buffered, are the cuts of
    /// everything received.
    pub open spec fn wf(&self) -> bool {
        self.records() + segments(self.buffered()) == segments(self.received())
    }

    pub fn new() -> (r: FrameDecoder)
        ensures
            r.wf(),
            r.buffered() == Seq::<char>::empty(),
            r.received() == Seq::<char>::empty(),
            r.records() == Seq::<Seq<char>>::empty(),
    {
        let r = FrameDecoder { buffer: Vec::new(), text: Ghost(Seq::empty()), emitted: Ghost(Seq::empty()) };
        assert(r.records() + segments(r.buffered()) =~= segments(r.received()));
        r
    }

    /// Hands out the first buffered line, without its newline, if a newline is buffered.
    pub fn next_record(&mut self) -> (r: Option<String>)
        requires
            old(self).wf(),
        ensures
            final(self).wf(),
            final(self).received() == old(self).received(),
            no_newline(old(self).buffered()) ==> r.is_none() && *final(self) == *old(self),
            !no_newline(old(self).buffered()) ==> exists|i: int|
                first_newline(old(self).buffered(), i) && r.is_some() && r.unwrap()@ == old(
                    self,
                ).buffered().take(i) && final(self).buffered() == old(self).buffered().skip(i + 1)
                    && final(self).records() == old(self).records().push(r.unwrap()@),
    {
        let mut i: usize = 0;
        while i < self.buffer.len()
            invariant
                *self == *old(self),
                self.wf(),
                i <= self.buffer@.len(),
                no_newline(self.buffer@.take(i as int)),
            decreases self.buffer@.len() - i,
        {
            if self.buffer[i] == '\n' {
                let ghost old_buf = self.buffer@;
                let mut head: Vec<char> = Vec::new();
                let mut j: usize = 0;
                while j < i
                    invariant
                        j <= i < self.buffer@.len(),
                        self.buffer@ == old_buf,
                        head@ == old_buf.subrange(0, j as int),
                    decreases i - j,
                {
                    head.push(self.buffer[j]);
                    j += 1;
                }
                let line = text_of(head.as_slice());
                let mut rest: Vec<char> = Vec::new();
                let mut k: usize = i + 1;
                while k < self.buffer.len()
                    invariant
                        i < k <= self.buffer@.len(),
                        self.buffer@ == old_buf,
                        rest@ == old_buf.subrange(i + 1, k as int),
                    decreases self.buffer@.len() - k,
                {
                    rest.push(self.buffer[k]);
                    k += 1;
                }
                proof {
                    assert(first_newline(old_buf, i as int));
                    lemma_segments_first_line(old_buf, i as int);
                    assert(rest@ =~= old_buf.skip(i + 1));
                    assert(line@ =~= old_buf.take(i as int));
                    assert(self.emitted@.push(line@) + segments(rest@) =~= self.emitted@ + segments(old_buf));
                }
                self.buffer = rest;
                self.emitted = Ghost(self.emitted@.push(line@));
                return Some(line);
            }
            assert(self.buffer@.take(i + 1) =~= self.buffer@.take(i as int).push(self.buffer@[i as int]));
            i += 1;
        }
        assert(self.buffer@.take(i as int) =~= self.buffer@);
        None
    }

    /// Appends `text`, then hands out at most one record.
    pub fn push_text(&mut self, text: &[char]) -> (r: Option<String>)
        requires
            old(self).wf(),
        ensures
            final(self).wf(),
            final(self).received() == old(self).received() + text@,
            ({
                let buf = old(self).buffered() + text@;
                &&& no_newline(buf) ==> r.is_none() && final(self).buffered() == buf
                    && final(self).records() == old(self).records()
                &&& !no_newline(buf) ==> exists|i: int|
                    first_newline(buf, i) && r.is_some() && r.unwrap()@ == buf.take(i)
                        && final(self).buffered() == buf.skip(i + 1) && final(self).records()
                        == old(self).records().push(r.unwrap()@)
            }),
    {
        let ghost c = text@;
        let mut k: usize = 0;
        let ghost buf0 = self.buffer@;
        while k < text.len()
            invariant
                k <= text@.len(),
                text@ == c,
                self.buffer@ == buf0 + c.take(k as int),
                self.text == old(self).text,
                self.emitted == old(self).emitted,
            decreases text@.len() - k,
        {
            self.buffer.push(text[k]);
            assert(buf0 + c.take(k + 1) =~= (buf0 + c.take(k as int)).push(c[k as int]));
            k += 1;
        }
        proof {
            assert(c.take(k as int) =~= c);
            let t = self.text@;
            lemma_segments_append(t, c);
            lemma_segments_append(buf0, c);
            lemma_segments_nonempty(buf0);
            let e = self.emitted@;
            let sb = segments(buf0);
            assert(segments(t) == e + sb);
            assert((e + sb).drop_last() =~= e + sb.drop_last());
            assert((e + sb).last() == sb.last());
            assert(e + (sb.drop_last() + segments(sb.last() + c)) =~= (e + sb.drop_last()) + segments(sb.last() + c));
            self.text = Ghost(t + c);
        }
        self.next_record()
    }

    /// Appends the lossy UTF-8 text of `chunk`, then hands out at most one record. An
    /// all-ASCII chunk is appended character for byte.
    pub fn push(&mut self, chunk: &[u8]) -> (r: Option<String>)
        requires
            old(self).wf(),
        ensures
            final(self).wf(),
            final(self).received() == old(self).received() + lossy_utf8(chunk@),
            (forall|i: int| 0 <= i < chunk@.len() ==> chunk@[i] < 128) ==> final(self).received()
                == old(self).received() + chunk@.map_values(|x: u8| x as char),
            ({
                let buf = old(self).buffered() + lossy_utf8(chunk@);
                &&& no_newline(buf) ==> r.is_none() && final(self).buffered() == buf
                    && final(self).records() == old(self).records()
                &&& !no_newline(buf) ==> exists|i: int|
                    first_newline(buf, i) && r.is_some() && r.unwrap()@ == buf.take(i)
                        && final(self).buffered() == buf.skip(i + 1) && final(self).records()
                        == old(self).records().push(r.unwrap()@)
            }),
    {
        let text = decode_lossy(chunk);
        self.push_text(text.as_slice())
    }
}

/// Chunking does not matter: two decoders that received the same text and hold no complete
/// line have handed out the same records, namely every complete line of that text.
pub proof fn lemma_framing_chunk_independent(a: FrameDecoder, b: FrameDecoder)
    requires
        a.wf(),
        b.wf(),
        a.received() == b.received(),
        no_newline(a.buffered()),
        no_newline(b.buffered()),
    ensures
        a.records() == b.records(),
        a.records() == segments(a.received()).drop_last(),
{
    lemma_segments_plain(a.buffered());
    lemma_segments_plain(b.buffered());
    assert((a.records() + seq![a.buffered()]).drop_last() =~= a.records());
    assert((b.records() + seq![b.buffered()]).drop_last() =~= b.records());
}

} // verus!

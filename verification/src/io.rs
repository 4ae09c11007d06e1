//! Bounded text buffers for composing what is drawn or sent.
//!
//! The device composes every string into a caller-sized buffer; running out
//! of room is a reported error, never a crash.  `BufWriter` is that bounded
//! buffer, and `easy_format_str` joins a row of text pieces into one,
//! refusing the whole row when it would not fit and leaving the buffer
//! untouched in that case.

use vstd::prelude::*;
use vstd::string::StringExecFns;

verus! {

/// Why a write into a bounded buffer was refused.
#[derive(Clone, Copy, Debug, PartialEq, Eq, Structural)]
pub enum FormatError {
    /// The text would not fit in the buffer's remaining room.
    BufferOverflow,
}

/// A text buffer of fixed capacity.  Writes that fit are appended; one
/// that would not fit is refused whole.
#[derive(Debug)]
pub struct BufWriter {
    buf: String,
    pos: usize,
    cap: usize,
}

impl BufWriter {
    /// The text written so far.
    pub closed spec fn contents(self) -> Seq<char> {
        self.buf@
    }

    /// The buffer's fixed capacity, in characters.
    pub closed spec fn capacity(self) -> nat {
        self.cap as nat
    }

    /// The write position always names the end of the written text, which
    /// never exceeds the capacity.
    pub closed spec fn wf(self) -> bool {
        self.pos == self.buf@.len() && self.pos <= self.cap
    }

    /// An empty buffer able to hold `capacity` characters.
    pub fn new(capacity: usize) -> (r: BufWriter)
        ensures
            r.wf(),
            r.contents() == Seq::<char>::empty(),
            r.capacity() == capacity,
    {
        let r = BufWriter { buf: String::new(), pos: 0, cap: capacity };
        proof {
            assert(r.contents() =~= Seq::<char>::empty());
        }
        r
    }

    /// How many characters have been written.
    pub fn len(&self) -> (r: usize)
        requires
            self.wf(),
        ensures
            r == self.contents().len(),
    {
        self.pos
    }

    /// The buffer's fixed capacity, in characters.
    pub fn cap_value(&self) -> (r: usize)
        ensures
            r == self.capacity(),
    {
        self.cap
    }

    /// The written text, for handing on.
    pub fn as_str(&self) -> (r: &str)
        ensures
            r@ == self.contents(),
    {
        self.buf.as_str()
    }

    /// Appends `s` if it fits in the remaining room; refuses it whole and
    /// changes nothing otherwise.
    pub fn write_str(&mut self, s: &str) -> (r: Result<(), FormatError>)
        requires
            old(self).wf(),
        ensures
            final(self).wf(),
            final(self).capacity() == old(self).capacity(),
            r is Ok <==> old(self).contents().len() + s@.len() <= old(self).capacity(),
            r is Ok ==> final(self).contents() == old(self).contents() + s@,
            r is Err ==> *final(self) == *old(self) && r == Err::<(), FormatError>(
                FormatError::BufferOverflow,
            ),
    {
        let n = s.unicode_len();
        if n > self.cap - self.pos {
            return Err(FormatError::BufferOverflow);
        }
        self.buf.append(s);
        self.pos = self.pos + n;
        Ok(())
    }
}

/// The texts a row of string slices holds.
pub open spec fn spec_str_views(v: Seq<&str>) -> Seq<Seq<char>> {
    v.map_values(|s: &str| s@)
}

/// The concatenation of a row of texts, in order.
pub open spec fn spec_concat_texts(v: Seq<Seq<char>>) -> Seq<char>
    decreases v.len(),
{
    if v.len() == 0 {
        Seq::empty()
    } else {
        spec_concat_texts(v.drop_last()) + v.last()
    }
}

proof fn lemma_concat_take_succ(v: Seq<Seq<char>>, k: int)
    requires
        0 <= k < v.len(),
    ensures
        spec_concat_texts(v.take(k + 1)) == spec_concat_texts(v.take(k)) + v[k],
{
    assert(v.take(k + 1).drop_last() =~= v.take(k));
    assert(v.take(k + 1).last() == v[k]);
}

proof fn lemma_concat_take_le(v: Seq<Seq<char>>, k: int)
    requires
        0 <= k <= v.len(),
    ensures
        spec_concat_texts(v.take(k)).len() <= spec_concat_texts(v).len(),
    decreases v.len() - k,
{
    if k == v.len() {
        assert(v.take(k) =~= v);
    } else {
        lemma_concat_take_succ(v, k);
        lemma_concat_take_le(v, k + 1);
    }
}

/// Joins a row of text pieces into the buffer as one write: everything is
/// appended when the whole row fits, and nothing changes when it does not.
pub fn easy_format_str(parts: &Vec<&str>, buffer: &mut BufWriter) -> (r: Result<
    (),
    FormatError,
>)
    requires
        old(buffer).wf(),
    ensures
        final(buffer).wf(),
        final(buffer).capacity() == old(buffer).capacity(),
        r is Ok <==> old(buffer).contents().len() + spec_concat_texts(
            spec_str_views(parts@),
        ).len() <= old(buffer).capacity(),
        r is Ok ==> final(buffer).contents() == old(buffer).contents() + spec_concat_texts(
            spec_str_views(parts@),
        ),
        r is Err ==> *final(buffer) == *old(buffer) && r == Err::<(), FormatError>(
            FormatError::BufferOverflow,
        ),
{
    let ghost views = spec_str_views(parts@);
    let n = parts.len();
    proof {
        assert(views.len() == n);
    }

    let mut total: u128 = 0;
    let mut i: usize = 0;
    while i < n
        invariant
            0 <= i <= n == parts@.len(),
            views == spec_str_views(parts@),
            total == spec_concat_texts(views.take(i as int)).len(),
            total <= usize::MAX as u128,
            *buffer == *old(buffer),
            buffer.wf(),
        decreases n - i,
    {
        let ghost prev = total;
        let piece_len = parts[i].unicode_len();
        proof {
            lemma_concat_take_succ(views, i as int);
            assert(views[i as int] == parts@[i as int]@);
        }
        let next: u128 = total + piece_len as u128;
        if next > usize::MAX as u128 {
            proof {
                lemma_concat_take_le(views, i + 1);
                assert(old(buffer).contents().len() + spec_concat_texts(views).len()
                    > old(buffer).capacity());
            }
            return Err(FormatError::BufferOverflow);
        }
        total = next;
        i = i + 1;
    }
    proof {
        assert(views.take(n as int) =~= views);
    }

    if buffer.len() as u128 + total > buffer.cap_value() as u128 {
        return Err(FormatError::BufferOverflow);
    }

    let ghost start = buffer.contents();
    let mut j: usize = 0;
    while j < n
        invariant
            0 <= j <= n == parts@.len(),
            views == spec_str_views(parts@),
            buffer.wf(),
            buffer.capacity() == old(buffer).capacity(),
            start == old(buffer).contents(),
            buffer.contents() == start + spec_concat_texts(views.take(j as int)),
            start.len() + spec_concat_texts(views).len() <= buffer.capacity(),
        decreases n - j,
    {
        proof {
            lemma_concat_take_succ(views, j as int);
            lemma_concat_take_le(views, j + 1);
            assert(views[j as int] == parts@[j as int]@);
        }
        let write_result = buffer.write_str(parts[j]);
        proof {
            assert(write_result is Ok);
        }
        match write_result {
            Ok(()) => {},
            Err(e) => {
                proof {
                    assert(false);
                }
                return Err(e);
            },
        }
        proof {
            assert(buffer.contents() =~= start + spec_concat_texts(views.take(j + 1)));
        }
        j = j + 1;
    }
    proof {
        assert(views.take(n as int) =~= views);
    }
    Ok(())
}

} // verus!

use vstd::prelude::*;
use vstd::string::StringSliceAdditionalSpecFns;
use vstd::utf8::valid_utf8;
use vstd::slice::slice_subrange;

verus! {

/// The first `n` bytes of `bytes`, cut off or filled with zeros to exactly `n`.
pub open spec fn padded(bytes: Seq<u8>, n: nat) -> Seq<u8> {
    Seq::new(n, |i: int| if i < bytes.len() { bytes[i] } else { 0u8 })
}

/// Whether `len` is the length of the NUL-terminated text at the start of `bytes`:
/// no NUL before it, and a NUL at it unless it is the end.
pub open spec fn is_text_len(bytes: Seq<u8>, len: int) -> bool {
    &&& 0 <= len <= bytes.len()
    &&& forall|i: int| 0 <= i < len ==> bytes[i] != 0u8
    &&& len < bytes.len() ==> bytes[len] == 0u8
}

/// The length of the NUL-terminated text at the start of `bytes` (see `is_text_len`).
pub open spec fn text_len(bytes: Seq<u8>) -> int {
    choose|l: int| is_text_len(bytes, l)
}

/// A fixed-capacity byte string of `N` bytes, NUL-terminated when shorter.
#[derive(Clone, Copy, PartialEq, Eq, Debug)]
pub struct Str<const N: usize>(pub [u8; N]);

impl<const N: usize> Str<N> {
    /// The string of `N` zero bytes.
    pub fn empty() -> (r: Self)
        ensures
            r.0@ == padded(Seq::empty(), N as nat),
    {
        let r = Self([0u8; N]);
        assert(r.0@ =~= padded(Seq::empty(), N as nat));
        r
    }

    /// The first `N` bytes of `bytes`, filled up with zeros when there are fewer.
    pub fn from_bytes(bytes: &[u8]) -> (r: Self)
        ensures
            r.0@ == padded(bytes@, N as nat),
    {
        let mut buf = [0u8; N];
        let len = if bytes.len() < N { bytes.len() } else { N };
        let mut i: usize = 0;
        while i < len
            invariant
                len <= N,
                len <= bytes@.len(),
                i <= len,
                forall|j: int| 0 <= j < i ==> buf@[j] == bytes@[j],
                forall|j: int| i <= j < N ==> buf@[j] == 0u8,
            decreases len - i,
        {
            buf[i] = bytes[i];
            i += 1;
        }
        let r = Self(buf);
        assert(r.0@ =~= padded(bytes@, N as nat));
        r
    }

    /// The UTF-8 bytes of `s`, cut off or filled with zeros to `N`.
    pub fn from_str(s: &str) -> (r: Self)
        ensures
            r.0@ == padded(s.spec_bytes(), N as nat),
    {
        Self::from_bytes(s.as_bytes())
    }

    /// The number of bytes before the first NUL, or `N` when there is none.
    pub fn len(&self) -> (r: usize)
        ensures
            is_text_len(self.0@, r as int),
            r == text_len(self.0@),
    {
        let mut i: usize = 0;
        while i < N
            invariant
                i <= N,
                forall|j: int| 0 <= j < i ==> self.0@[j] != 0u8,
            decreases N - i,
        {
            if self.0[i] == 0 {
                proof { lemma_text_len_unique(self.0@, i as int); }
                return i;
            }
            i += 1;
        }
        proof { lemma_text_len_unique(self.0@, N as int); }
        N
    }

    /// Whether the first byte is NUL.
    pub fn is_empty(&self) -> (r: bool)
        requires
            N > 0,
        ensures
            r == (self.0@[0] == 0u8),
    {
        self.0[0] == 0
    }

    /// Copies as much of `s` as fits after the current text, leaving the bytes after
    /// the copy as they were.
    pub fn push_str(&mut self, s: &str) -> (r: &mut Self)
        ensures
            ({
                let text = text_len(old(self).0@);
                let bytes = s.spec_bytes();
                let room = N - text;
                let copied = if bytes.len() < room { bytes.len() as int } else { room };
                &&& r.0@ == old(self).0@.subrange(0, text) + bytes.subrange(0, copied)
                    + old(self).0@.subrange(text + copied, N as int)
            }),
            *final(self) == *final(r),
    {
        let self_len = self.len();
        let bytes = s.as_bytes();
        let copy_len = if bytes.len() < N - self_len { bytes.len() } else { N - self_len };
        let mut i: usize = 0;
        while i < copy_len
            invariant
                self_len + copy_len <= N,
                copy_len <= bytes@.len(),
                i <= copy_len,
                forall|j: int| 0 <= j < self_len ==> self.0@[j] == old(self).0@[j],
                forall|j: int| 0 <= j < i ==> self.0@[self_len + j] == bytes@[j],
                forall|j: int| self_len + i <= j < N ==> self.0@[j] == old(self).0@[j],
            decreases copy_len - i,
        {
            self.0[self_len + i] = bytes[i];
            i += 1;
        }
        assert(self.0@ =~= old(self).0@.subrange(0, self_len as int) + bytes@.subrange(0, copy_len as int)
            + old(self).0@.subrange(self_len + copy_len, N as int));
        self
    }

    /// The text before the first NUL as a string slice, when it is valid UTF-8.
    pub fn as_str(&self) -> (r: &str)
        requires
            valid_utf8(self.0@.subrange(0, text_len(self.0@))),
        ensures
            r.spec_bytes() == self.0@.subrange(0, text_len(self.0@)),
    {
        let len = self.len();
        let text = slice_subrange(self.0.as_slice(), 0, len);
        match str_from_utf8(text) {
            Some(s) => s,
            None => {
                assert(false);
                ""
            }
        }
    }
}

impl<const N: usize> Default for Str<N> {
    fn default() -> (r: Self)
        ensures
            r.0@ == padded(Seq::empty(), N as nat),
    {
        Self::empty()
    }
}

/// A value that can be stored into a place of type `T`, as the field setters of a
/// page record do.
pub trait KyaaaAssign<T>: Sized {
    /// Whether `result` is what the place holds after `self` was stored into it.
    spec fn assigns(&self, result: T) -> bool;

    fn assign_to(self, dest: &mut T)
        ensures
            self.assigns(*final(dest)),
    ;
}

impl<T> KyaaaAssign<T> for T {
    open spec fn assigns(&self, result: T) -> bool {
        result == *self
    }

    fn assign_to(self, dest: &mut T) {
        *dest = self;
    }
}

impl<const N: usize> KyaaaAssign<Str<N>> for &'static str {
    open spec fn assigns(&self, result: Str<N>) -> bool {
        result.0@ == padded(self.spec_bytes(), N as nat)
    }

    fn assign_to(self, dest: &mut Str<N>) {
        *dest = Str::from_bytes(self.as_bytes());
    }
}

impl<'b, const N: usize> KyaaaAssign<Str<N>> for &'b [u8] {
    open spec fn assigns(&self, result: Str<N>) -> bool {
        result.0@ == padded(self@, N as nat)
    }

    fn assign_to(self, dest: &mut Str<N>) {
        *dest = Str::from_bytes(self);
    }
}

impl<'b, const N: usize, const M: usize> KyaaaAssign<Str<N>> for &'b [u8; M] {
    open spec fn assigns(&self, result: Str<N>) -> bool {
        result.0@ == padded(self@, N as nat)
    }

    fn assign_to(self, dest: &mut Str<N>) {
        *dest = Str::from_bytes(self.as_slice());
    }
}

/// `core::str::from_utf8`: its documentation promises success exactly when the bytes
/// are valid UTF-8, with the string made of those bytes; the error's contents are
/// dropped here.
#[verifier::external_body]
fn str_from_utf8(bytes: &[u8]) -> (r: Option<&str>)
    ensures
        r is Some <==> valid_utf8(bytes@),
        r matches Some(s) ==> s.spec_bytes() == bytes@,
{
    core::str::from_utf8(bytes).ok()
}

/// There is one text length for given bytes.
pub proof fn lemma_text_len_unique(bytes: Seq<u8>, len: int)
    requires
        is_text_len(bytes, len),
    ensures
        forall|l: int| is_text_len(bytes, l) ==> l == len,
        text_len(bytes) == len,
{
    assert forall|l: int| is_text_len(bytes, l) implies l == len by {
        if l < len {
            assert(bytes[l] != 0u8);
        } else if l > len {
            assert(bytes[len] != 0u8);
        }
    }
}

/// Bytes without a NUL that fit into a string of `n` bytes come back as its text:
/// the text length of `padded(bytes, n)` is the number of bytes.
pub proof fn lemma_padded_text_len(bytes: Seq<u8>, n: nat)
    requires
        bytes.len() <= n,
        forall|i: int| 0 <= i < bytes.len() ==> bytes[i] != 0u8,
    ensures
        is_text_len(padded(bytes, n), bytes.len() as int),
{
}

/// Padding the bytes of a string of `n` bytes to `n` gives them back unchanged.
pub proof fn lemma_padded_full(bytes: Seq<u8>, n: nat)
    requires
        bytes.len() == n,
    ensures
        padded(bytes, n) == bytes,
{
    assert(padded(bytes, n) =~= bytes);
}

} // verus!

use vstd::prelude::*;
use vstd::slice::slice_subrange;
use crate::types::{KyaaaAssign, Str, padded};

verus! {

/// The byte a `bool` field is stored as.
pub open spec fn bool_byte(b: bool) -> u8 {
    if b { 1u8 } else { 0u8 }
}

/// A page record with a 32-byte name and a favorite flag, laid out as the name's
/// bytes followed by one byte for the flag.
#[derive(Clone, Copy, PartialEq, Eq, Debug)]
pub struct Game {
    pub name: Str<32>,
    pub favorite: bool,
}

/// A page record with a 32-byte name, laid out as the name's bytes.
#[derive(Clone, Copy, PartialEq, Eq, Debug)]
pub struct User {
    pub name: Str<32>,
}

impl Default for Game {
    fn default() -> (r: Self)
        ensures
            r.name.0@ == padded(Seq::empty(), 32),
            !r.favorite,
    {
        Game { name: Str::empty(), favorite: false }
    }
}

impl Default for User {
    fn default() -> (r: Self)
        ensures
            r.name.0@ == padded(Seq::empty(), 32),
    {
        User { name: Str::empty() }
    }
}

impl Game {
    pub const FIELDS: &'static [&'static str; 2] = &["name", "favorite"];

    pub const SIZE: usize = 33;

    /// The record's bytes.
    pub open spec fn layout(&self) -> Seq<u8> {
        self.name.0@.push(bool_byte(self.favorite))
    }

    pub fn to_bytes(&self) -> (r: [u8; 33])
        ensures
            r@ == self.layout(),
    {
        let mut out = [0u8; 33];
        let mut i: usize = 0;
        while i < 32
            invariant
                i <= 32,
                forall|j: int| 0 <= j < i ==> out@[j] == self.name.0@[j],
            decreases 32 - i,
        {
            out[i] = self.name.0[i];
            i += 1;
        }
        out[32] = if self.favorite { 1 } else { 0 };
        assert(out@ =~= self.layout());
        out
    }

    /// Reads a record from the front of `input` and returns it with the bytes after it;
    /// nothing when `input` is too short or its flag byte is neither 0 nor 1.
    pub fn from_bytes(input: &[u8]) -> (r: Option<(Self, &[u8])>)
        ensures
            input@.len() < 33 ==> r is None,
            input@.len() >= 33 && input@[32] > 1 ==> r is None,
            input@.len() >= 33 && input@[32] <= 1 ==> (r matches Some((g, rest)) && g.layout()
                == input@.subrange(0, 33) && rest@ == input@.subrange(33, input@.len() as int)),
    {
        if input.len() < Self::SIZE {
            return None;
        }
        let flag = input[32];
        if flag > 1 {
            return None;
        }
        let name = Str::<32>::from_bytes(slice_subrange(input, 0, 32));
        let rest = slice_subrange(input, Self::SIZE, input.len());
        let g = Game { name, favorite: flag == 1 };
        assert(g.layout() =~= input@.subrange(0, 33));
        Some((g, rest))
    }

    pub fn name<V: KyaaaAssign<Str<32>>>(&mut self, new: V) -> (r: &mut Self)
        ensures
            new.assigns(r.name),
            r.favorite == old(self).favorite,
            *final(self) == *final(r),
    {
        new.assign_to(&mut self.name);
        self
    }

    pub fn favorite<V: KyaaaAssign<bool>>(&mut self, new: V) -> (r: &mut Self)
        ensures
            new.assigns(r.favorite),
            r.name == old(self).name,
            *final(self) == *final(r),
    {
        new.assign_to(&mut self.favorite);
        self
    }
}

impl User {
    pub const FIELDS: &'static [&'static str; 1] = &["name"];

    pub const SIZE: usize = 32;

    /// The record's bytes.
    pub open spec fn layout(&self) -> Seq<u8> {
        self.name.0@
    }

    pub fn to_bytes(&self) -> (r: [u8; 32])
        ensures
            r@ == self.layout(),
    {
        self.name.0
    }

    /// Reads a record from the front of `input` and returns it with the bytes after it;
    /// nothing when `input` is too short.
    pub fn from_bytes(input: &[u8]) -> (r: Option<(Self, &[u8])>)
        ensures
            input@.len() < 32 ==> r is None,
            input@.len() >= 32 ==> (r matches Some((u, rest)) && u.layout() == input@.subrange(0, 32)
                && rest@ == input@.subrange(32, input@.len() as int)),
    {
        if input.len() < Self::SIZE {
            return None;
        }
        let name = Str::<32>::from_bytes(slice_subrange(input, 0, 32));
        let rest = slice_subrange(input, Self::SIZE, input.len());
        let u = User { name };
        assert(u.layout() =~= input@.subrange(0, 32));
        Some((u, rest))
    }

    pub fn name<V: KyaaaAssign<Str<32>>>(&mut self, new: V) -> (r: &mut Self)
        ensures
            new.assigns(r.name),
            *final(self) == *final(r),
    {
        new.assign_to(&mut self.name);
        self
    }
}

/// A game record is determined by its bytes: its bytes are 33 long with a flag byte of
/// 0 or 1, and a record read back from them equals the one written, so
/// `Game::from_bytes(&g.to_bytes())` gives `g` back with nothing left over.
pub proof fn lemma_game_bytes_roundtrip(g: Game, h: Game)
    requires
        h.layout() == g.layout(),
    ensures
        g.layout().len() == 33,
        g.layout()[32] <= 1,
        h == g,
{
    assert(h.name.0@ =~= g.layout().subrange(0, 32));
    assert(g.name.0@ =~= g.layout().subrange(0, 32));
    assert(h.name.0 =~= g.name.0);
}

/// A user record is determined by its bytes, so `User::from_bytes(&u.to_bytes())`
/// gives `u` back with nothing left over.
pub proof fn lemma_user_bytes_roundtrip(u: User, v: User)
    requires
        v.layout() == u.layout(),
    ensures
        u.layout().len() == 32,
        v == u,
{
    assert(v.name.0 =~= u.name.0);
}

} // verus!

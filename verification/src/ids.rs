//! Sequential `ID{n}` minting. The counter starts at 0 and pre-increments, so
//! the first minted id is `ID1`; ids are minted in the build's canonical order
//! so streamed and buffered output agree.
use vstd::prelude::*;

use crate::text::{dec, push_dec};

verus! {

/// `ID{n}` for the given number.
pub open spec fn id_text(n: nat) -> Seq<char> {
    "ID"@ + dec(n)
}

/// Monotonic allocator of `ID{n}` strings.
#[derive(Debug, Default)]
pub struct IdCounter {
    counter: u64,
}

impl IdCounter {
    /// How many ids have been minted so far.
    pub closed spec fn minted(&self) -> nat {
        self.counter as nat
    }

    pub fn new() -> (c: Self)
        ensures
            c.minted() == 0,
    {
        IdCounter { counter: 0 }
    }

    /// Mint the next `ID{n}`.
    pub fn next_id(&mut self) -> (id: String)
        requires
            old(self).minted() < u64::MAX,
        ensures
            final(self).minted() == old(self).minted() + 1,
            id@ == id_text(final(self).minted()),
    {
        self.counter = self.counter + 1;
        let mut s = String::new();
        s.append("ID");
        push_dec(&mut s, self.counter);
        s
    }

    /// How many ids have been minted so far.
    pub fn count(&self) -> (n: u64)
        ensures
            n == self.minted(),
    {
        self.counter
    }
}

/// Distinct counts give distinct ids: `dec` is injective.
pub proof fn dec_injective(a: nat, b: nat)
    requires
        dec(a) == dec(b),
    ensures
        a == b,
    decreases a + b,
{
    if a < 10 && b < 10 {
        assert(dec(a) == seq![crate::text::digit_char(a)]);
        assert(dec(b) == seq![crate::text::digit_char(b)]);
        assert(dec(a)[0] == dec(b)[0]);
        assert(seq![crate::text::digit_char(a)][0] == crate::text::digit_char(a));
        assert(seq![crate::text::digit_char(b)][0] == crate::text::digit_char(b));
        lemma_digit_char_injective(a, b);
    } else if a < 10 {
        lemma_dec_len_pos(b / 10);
        assert(dec(b).len() >= 2);
    } else if b < 10 {
        lemma_dec_len_pos(a / 10);
        assert(dec(a).len() >= 2);
    } else {
        let da = dec(a);
        let db = dec(b);
        assert(da.drop_last() == dec(a / 10));
        assert(db.drop_last() == dec(b / 10));
        dec_injective(a / 10, b / 10);
        assert(da.last() == db.last());
        lemma_digit_char_injective(a % 10, b % 10);
        assert(a == (a / 10) * 10 + a % 10);
        assert(b == (b / 10) * 10 + b % 10);
    }
}

proof fn lemma_dec_len_pos(n: nat)
    ensures
        dec(n).len() >= 1,
    decreases n,
{
    if n >= 10 {
        lemma_dec_len_pos(n / 10);
    }
}

proof fn lemma_digit_char_injective(x: nat, y: nat)
    requires
        x < 10,
        y < 10,
        crate::text::digit_char(x) == crate::text::digit_char(y),
    ensures
        x == y,
{
}

/// Ids minted by one counter never repeat: after two mints, the ids differ.
pub proof fn minted_ids_are_distinct(m: nat, n: nat)
    requires
        m != n,
    ensures
        id_text(m) != id_text(n),
{
    reveal_strlit("ID");
    if id_text(m) == id_text(n) {
        assert(dec(m) =~= id_text(m).skip(2));
        assert(dec(n) =~= id_text(n).skip(2));
        dec_injective(m, n);
    }
}

} // verus!

//! The rank icons the web page shows, keyed by rank. A rank sprite is named
//! `..._<n>` and stands for rank `n + 1`.
use vstd::prelude::*;
use std::collections::HashMap;
use crate::decimal::{
    UNDERSCORE, decimal, is_digit, last_segment, last_segment_of, law_parse_decimal_roundtrip,
    lemma_decimal, parse_i32, signed_decimal, spec_parse_i32,
};

verus! {

broadcast use vstd::std_specs::hash::group_hash_axioms;

/// The rank that a sprite of this name stands for: one more than the number
/// after the name's last `_`, where that parses and the sum fits.
pub open spec fn sprite_rank(sprite_name: Seq<u8>) -> Option<i32> {
    match spec_parse_i32(last_segment(sprite_name, UNDERSCORE)) {
        Some(n) => if n < i32::MAX {
            Some((n + 1) as i32)
        } else {
            None
        },
        None => None,
    }
}

/// The rank that a sprite of this name stands for.
pub fn rank_icon_index(sprite_name: &[u8]) -> (r: Option<i32>)
    ensures
        r == sprite_rank(sprite_name@),
{
    let segment = last_segment_of(sprite_name, UNDERSCORE);
    match parse_i32(segment) {
        Some(n) => if n < i32::MAX {
            Some(n + 1)
        } else {
            None
        },
        None => None,
    }
}

/// What follows the last separator of a name is the part after the final
/// separator written, whatever comes before it.
pub proof fn lemma_last_segment_after(prefix: Seq<u8>, sep: u8, s: Seq<u8>)
    requires
        forall|i: int| 0 <= i < s.len() ==> s[i] != sep,
    ensures
        last_segment(prefix + seq![sep] + s, sep) =~= s,
    decreases s.len(),
{
    let t = prefix + seq![sep] + s;
    if s.len() == 0 {
        assert(t.last() == sep);
    } else {
        assert(t.last() == s.last());
        assert(t.drop_last() =~= prefix + seq![sep] + s.drop_last());
        lemma_last_segment_after(prefix, sep, s.drop_last());
        assert(s.drop_last().push(s.last()) =~= s);
    }
}

/// A sprite named anything, then `_`, then the decimal number `n` stands for
/// rank `n + 1`; more generally, whatever a name's text after its last `_`
/// parses to, the rank is one more, where that fits in an `i32`.
pub proof fn law_sprite_rank(prefix: Seq<u8>, n: i32, name: Seq<u8>)
    ensures
        n < i32::MAX ==> sprite_rank(prefix + seq![UNDERSCORE] + signed_decimal(n as int)) == Some(
            (n + 1) as i32,
        ),
        spec_parse_i32(last_segment(name, UNDERSCORE)) == Some(n) && n < i32::MAX ==> sprite_rank(
            name,
        ) == Some((n + 1) as i32),
        spec_parse_i32(last_segment(name, UNDERSCORE)) is None ==> sprite_rank(name) is None,
{
    let text = signed_decimal(n as int);
    law_parse_decimal_roundtrip(n);
    if n < 0 {
        let m = (-n) as nat;
        lemma_decimal(m);
        assert forall|i: int| 0 <= i < text.len() implies text[i] != UNDERSCORE by {
            if i > 0 {
                assert(text[i] == decimal(m)[i - 1]);
                assert(is_digit(decimal(m)[i - 1]));
            }
        }
    } else {
        lemma_decimal(n as nat);
        assert forall|i: int| 0 <= i < text.len() implies text[i] != UNDERSCORE by {
            assert(is_digit(text[i]));
        }
    }
    lemma_last_segment_after(prefix, UNDERSCORE, text);
}

/// The PNG of each rank's icon.
pub struct RankIcons {
    icons: HashMap<i32, Vec<u8>>,
}

impl View for RankIcons {
    type V = Map<i32, Vec<u8>>;

    closed spec fn view(&self) -> Map<i32, Vec<u8>> {
        self.icons@
    }
}

impl RankIcons {
    /// No icons yet.
    pub fn new() -> (r: RankIcons)
        ensures
            r@ == Map::<i32, Vec<u8>>::empty(),
    {
        RankIcons { icons: HashMap::new() }
    }

    /// Files the PNG of the sprite of this name under its rank; a sprite
    /// whose name names no rank is not filed, and `false` says so.
    pub fn add_sprite(&mut self, sprite_name: &[u8], png: Vec<u8>) -> (added: bool)
        ensures
            added == sprite_rank(sprite_name@) is Some,
            final(self)@ == (match sprite_rank(sprite_name@) {
                Some(rank) => old(self)@.insert(rank, png),
                None => old(self)@,
            }),
    {
        match rank_icon_index(sprite_name) {
            Some(rank) => {
                self.icons.insert(rank, png);
                true
            },
            None => false,
        }
    }

    /// A copy of the icon filed under `rank`, if there is one.
    pub fn icon_for_rank(&self, rank: i32) -> (icon: Option<Vec<u8>>)
        ensures
            match icon {
                Some(png) => self@.contains_key(rank) && png@ == self@[rank]@,
                None => !self@.contains_key(rank),
            },
    {
        match self.icons.get(&rank) {
            Some(png) => {
                let copy = png.clone();
                assert(copy@ =~= png@);
                Some(copy)
            },
            None => None,
        }
    }
}

/// An icon filed under a sprite's rank is the one a lookup of that rank
/// finds, and filing it leaves every other rank's icon as it was.
pub proof fn law_lookup_after_add(
    before: Map<i32, Vec<u8>>,
    sprite_name: Seq<u8>,
    png: Vec<u8>,
    rank: i32,
)
    requires
        sprite_rank(sprite_name) is Some,
    ensures
        ({
            let after = before.insert(sprite_rank(sprite_name).unwrap(), png);
            &&& after.contains_key(sprite_rank(sprite_name).unwrap())
            &&& after[sprite_rank(sprite_name).unwrap()] == png
            &&& rank != sprite_rank(sprite_name).unwrap() ==> (after.contains_key(rank)
                == before.contains_key(rank) && (before.contains_key(rank) ==> after[rank]
                == before[rank]))
        }),
{
}

} // verus!

//! The factory's configuration and the pair types it can create.
use vstd::prelude::*;
use vstd::utf8::encode_utf8;

use crate::lex::{
    bytes_equal, lemma_insert_sorted, lemma_lex_total, lemma_lex_transitive, lemma_sorted_distinct,
    lex_less, lex_lt, strictly_sorted,
};

verus! {

/// Largest number of basis points that the fees of a pair type may add up to.
pub const MAX_FEE_BPS: u16 = 10000;

/// The kind of pool a pair is; `Custom` names a kind of its own.
pub enum PairType {
    Xyk,
    Stable,
    Custom(String),
}

/// The bytes of `custom-`, which start the text form of a custom type.
pub open spec fn custom_prefix() -> Seq<u8> {
    seq![99u8, 117u8, 115u8, 116u8, 111u8, 109u8, 45u8]
}

impl PairType {
    /// The text form of the type, as bytes: `xyk`, `stable`, or `custom-`
    /// followed by the name. Pair types are stored, told apart and listed by it.
    pub open spec fn key(&self) -> Seq<u8> {
        match self {
            PairType::Xyk => seq![120u8, 121u8, 107u8],
            PairType::Stable => seq![115u8, 116u8, 97u8, 98u8, 108u8, 101u8],
            PairType::Custom(n) => custom_prefix() + encode_utf8(n@),
        }
    }

    /// Two pair types are the same when their text forms are (case matters).
    pub open spec fn same(&self, o: &PairType) -> bool {
        self.key() == o.key()
    }

    /// The text form of the type, as bytes.
    pub fn key_bytes(&self) -> (r: Vec<u8>)
        ensures
            r@ == self.key(),
    {
        match self {
            PairType::Xyk => {
                let r = vec![120u8, 121u8, 107u8];
                assert(r@ =~= self.key());
                r
            },
            PairType::Stable => {
                let r = vec![115u8, 116u8, 97u8, 98u8, 108u8, 101u8];
                assert(r@ =~= self.key());
                r
            },
            PairType::Custom(n) => {
                let mut r = vec![99u8, 117u8, 115u8, 116u8, 111u8, 109u8, 45u8];
                assert(r@ =~= custom_prefix());
                let b = n.as_str().as_bytes();
                let mut j: usize = 0;
                while j < b.len()
                    invariant
                        j <= b@.len(),
                        b@ == encode_utf8(n@),
                        r@ == custom_prefix() + b@.take(j as int),
                    decreases b@.len() - j,
                {
                    r.push(b[j]);
                    assert(b@.take(j + 1) =~= b@.take(j as int).push(b@[j as int]));
                    assert(r@ =~= custom_prefix() + b@.take(j + 1));
                    j = j + 1;
                }
                assert(b@.take(j as int) =~= b@);
                r
            },
        }
    }

    pub fn same_as(&self, o: &PairType) -> (r: bool)
        ensures
            r == self.same(o),
    {
        let a = self.key_bytes();
        let b = o.key_bytes();
        bytes_equal(a.as_slice(), b.as_slice())
    }

    pub fn copy(&self) -> (r: PairType)
        ensures
            r == *self,
    {
        match self {
            PairType::Xyk => PairType::Xyk,
            PairType::Stable => PairType::Stable,
            PairType::Custom(n) => PairType::Custom(n.clone()),
        }
    }
}
/// The settings that every pair of one type is created with.
pub struct PairConfig {
    /// Code of the contract that pairs of this type are instantiated from.
    pub code_id: u64,
    pub pair_type: PairType,
    /// Fee charged by a pair of this type, in basis points.
    pub total_fee_bps: u16,
    /// Share of the fee that goes to the fee collector, in basis points.
    pub maker_fee_bps: u16,
    /// No new pairs of this type may be created.
    pub is_disabled: bool,
    /// Pairs of this type get no rewards.
    pub is_generator_disabled: bool,
    /// Only the owner may create pairs of this type.
    pub permissioned: bool,
}

impl PairConfig {
    /// The fees add up to at most the whole, and the maker's share is part of the total.
    pub open spec fn fees_valid(&self) -> bool {
        &&& self.total_fee_bps + self.maker_fee_bps <= MAX_FEE_BPS
        &&& self.maker_fee_bps <= self.total_fee_bps
    }

    pub fn valid_fee_bps(&self) -> (r: bool)
        ensures
            r == self.fees_valid(),
    {
        (self.total_fee_bps as u32) + (self.maker_fee_bps as u32) <= MAX_FEE_BPS as u32
            && self.maker_fee_bps <= self.total_fee_bps
    }

    pub fn copy(&self) -> (r: PairConfig)
        ensures
            r == *self,
    {
        PairConfig {
            code_id: self.code_id,
            pair_type: self.pair_type.copy(),
            total_fee_bps: self.total_fee_bps,
            maker_fee_bps: self.maker_fee_bps,
            is_disabled: self.is_disabled,
            is_generator_disabled: self.is_generator_disabled,
            permissioned: self.permissioned,
        }
    }
}

/// Whether some entry of `s` is of type `t`.
pub open spec fn has_type(s: Seq<PairConfig>, t: PairType) -> bool {
    exists|i: int| 0 <= i < s.len() && (#[trigger] s[i]).pair_type.same(&t)
}

/// The position of the entry of type `t` in `s`.
pub open spec fn type_index(s: Seq<PairConfig>, t: PairType) -> int {
    choose|i: int| 0 <= i < s.len() && (#[trigger] s[i]).pair_type.same(&t)
}

/// No two entries of `s` are of the same type.
pub open spec fn unique_types(s: Seq<PairConfig>) -> bool {
    forall|i: int, j: int|
        0 <= i < s.len() && 0 <= j < s.len() && i != j ==> !(#[trigger] s[i]).pair_type.same(
            &(#[trigger] s[j]).pair_type,
        )
}

/// The text forms of the types of the entries, in order.
pub open spec fn type_keys(s: Seq<PairConfig>) -> Seq<Seq<u8>> {
    s.map_values(|c: PairConfig| c.pair_type.key())
}

/// The entries are in strictly ascending order of their types' text forms.
pub open spec fn sorted_types(s: Seq<PairConfig>) -> bool {
    strictly_sorted(type_keys(s))
}

/// Where an entry of type `t` belongs in the sorted `s`: after every entry
/// whose type comes before `t`, before every other.
pub open spec fn type_slot(s: Seq<PairConfig>, t: PairType) -> int {
    choose|p: int| #[trigger] is_type_slot(s, t, p)
}

pub open spec fn is_type_slot(s: Seq<PairConfig>, t: PairType, p: int) -> bool {
    &&& 0 <= p <= s.len()
    &&& forall|j: int| 0 <= j < p ==> lex_lt(#[trigger] type_keys(s)[j], t.key())
    &&& forall|j: int| p <= j < s.len() ==> !lex_lt(#[trigger] type_keys(s)[j], t.key())
}

/// `s` with `c` in place of the entry of its type, or with `c` added where
/// its type belongs.
pub open spec fn upserted(s: Seq<PairConfig>, c: PairConfig) -> Seq<PairConfig> {
    if has_type(s, c.pair_type) {
        s.update(type_index(s, c.pair_type), c)
    } else {
        s.insert(type_slot(s, c.pair_type), c)
    }
}

/// The entries of `list` put one after the other into an empty store.
pub open spec fn upsert_all(list: Seq<PairConfig>) -> Seq<PairConfig>
    decreases list.len(),
{
    if list.len() == 0 {
        Seq::empty()
    } else {
        upserted(upsert_all(list.drop_last()), list.last())
    }
}

/// Every entry of `s` has valid fees.
pub open spec fn all_fees_valid(s: Seq<PairConfig>) -> bool {
    forall|i: int| 0 <= i < s.len() ==> (#[trigger] s[i]).fees_valid()
}

/// A store sorted by type holds each type once.
pub proof fn lemma_sorted_types_unique(s: Seq<PairConfig>)
    requires
        sorted_types(s),
    ensures
        unique_types(s),
{
    assert forall|i: int, j: int|
        0 <= i < s.len() && 0 <= j < s.len() && i != j implies !(#[trigger] s[i]).pair_type.same(
        &(#[trigger] s[j]).pair_type,
    ) by {
        lemma_sorted_distinct(type_keys(s), i, j);
    }
}

/// Where the entry of type `t` stands in `s`, if there is one.
pub fn find_type(s: &Vec<PairConfig>, t: &PairType) -> (r: Option<usize>)
    requires
        unique_types(s@),
    ensures
        r is None <==> !has_type(s@, *t),
        r matches Some(i) ==> i == type_index(s@, *t) && i < s@.len(),
{
    let mut i: usize = 0;
    while i < s.len()
        invariant
            i <= s@.len(),
            unique_types(s@),
            forall|j: int| 0 <= j < i ==> !(#[trigger] s@[j]).pair_type.same(t),
        decreases s@.len() - i,
    {
        if s[i].pair_type.same_as(t) {
            proof {
                assert(s@[i as int].pair_type.same(t));
                assert(has_type(s@, *t));
                let k = type_index(s@, *t);
                assert(s@[k].pair_type.same(t));
            }
            return Some(i);
        }
        i = i + 1;
    }
    None
}

/// Puts `c` in place of the entry of its type, or adds it where its type belongs.
pub fn upsert_type(s: &mut Vec<PairConfig>, c: PairConfig)
    requires
        sorted_types(old(s)@),
    ensures
        sorted_types(final(s)@),
        unique_types(final(s)@),
        final(s)@ == upserted(old(s)@, c),
        all_fees_valid(old(s)@) && c.fees_valid() ==> all_fees_valid(final(s)@),
{
    proof {
        lemma_sorted_types_unique(s@);
    }
    let ghost g = c;
    let ghost ks = type_keys(s@);
    match find_type(s, &c.pair_type) {
        Some(i) => {
            s.set(i, c);
            assert(type_keys(s@) =~= ks);
        },
        None => {
            let k = c.pair_type.key_bytes();
            let mut p: usize = 0;
            while p < s.len() && lex_less(s[p].pair_type.key_bytes().as_slice(), k.as_slice())
                invariant
                    p <= s@.len(),
                    ks == type_keys(s@),
                    k@ == g.pair_type.key(),
                    forall|j: int| 0 <= j < p ==> lex_lt(#[trigger] ks[j], k@),
                decreases s@.len() - p,
            {
                p = p + 1;
            }
            proof {
                let x = k@;
                assert forall|j: int| p <= j < ks.len() implies lex_lt(x, #[trigger] ks[j]) by {
                    assert(!s@[j].pair_type.same(&g.pair_type));
                    assert(ks[p as int] == s@[p as int].pair_type.key());
                    assert(!s@[p as int].pair_type.same(&g.pair_type));
                    lemma_lex_total(ks[p as int], x);
                    if j > p {
                        lemma_lex_transitive(x, ks[p as int], ks[j]);
                    }
                }
                lemma_insert_sorted(ks, p as int, x);
                let q = type_slot(s@, g.pair_type);
                assert forall|j: int| p <= j < ks.len() implies !lex_lt(#[trigger] ks[j], x) by {
                    if lex_lt(ks[j], x) {
                        lemma_lex_transitive(x, ks[j], x);
                        crate::lex::lemma_lex_irreflexive(x);
                    }
                }
                assert(is_type_slot(s@, g.pair_type, p as int));
                if q < p {
                    assert(lex_lt(ks[q], x));
                } else if q > p {
                    assert(lex_lt(ks[p as int], x));
                }
                assert(q == p);
            }
            let ghost before = s@;
            s.insert(p, c);
            assert(type_keys(s@) =~= ks.insert(p as int, g.pair_type.key()));
            assert forall|i: int|
                0 <= i < s@.len() && all_fees_valid(before) && g.fees_valid() implies (
            #[trigger] s@[i]).fees_valid() by {
                if i < p {
                    assert(s@[i] == before[i]);
                } else if i > p {
                    assert(s@[i] == before[i - 1]);
                }
            }
        },
    }
    proof {
        lemma_sorted_types_unique(s@);
    }
}

/// The factory's general settings.
pub struct Config {
    /// The only account that may change settings, pair types, and the registry.
    pub owner: String,
    /// Code of the token contract that new pairs use.
    pub token_code_id: u64,
    /// Where the maker's share of fees goes.
    pub fee_address: Option<String>,
    /// The contract that pays out rewards per pool.
    pub incentives_address: Option<String>,
    pub coin_registry_address: String,
}

impl Config {
    pub fn copy(&self) -> (r: Config)
        ensures
            r == *self,
    {
        Config {
            owner: self.owner.clone(),
            token_code_id: self.token_code_id,
            fee_address: match &self.fee_address {
                Some(a) => Some(a.clone()),
                None => None,
            },
            incentives_address: match &self.incentives_address {
                Some(a) => Some(a.clone()),
                None => None,
            },
            coin_registry_address: self.coin_registry_address.clone(),
        }
    }
}

/// A partial change of the general settings: each field that is present replaces the current one.
pub struct UpdateConfig {
    pub token_code_id: Option<u64>,
    pub fee_address: Option<String>,
    pub incentives_address: Option<String>,
    pub coin_registry_address: Option<String>,
}

/// `c` with the fields that `p` holds put in.
pub open spec fn updated_config(c: Config, p: UpdateConfig) -> Config {
    Config {
        owner: c.owner,
        token_code_id: match p.token_code_id {
            Some(v) => v,
            None => c.token_code_id,
        },
        fee_address: match p.fee_address {
            Some(a) => Some(a),
            None => c.fee_address,
        },
        incentives_address: match p.incentives_address {
            Some(a) => Some(a),
            None => c.incentives_address,
        },
        coin_registry_address: match p.coin_registry_address {
            Some(a) => a,
            None => c.coin_registry_address,
        },
    }
}

} // verus!

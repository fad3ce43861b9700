//! Assets, asset sets and the canonical key of a pair.
use vstd::prelude::*;
use vstd::utf8::encode_utf8;

use crate::lex::{bytes_equal, find_slot, lemma_lex_total, lemma_lex_transitive, lemma_sorted_unique, lex_lt, strictly_sorted};

verus! {

/// Largest length of a native denomination.
pub const DENOM_MAX_LENGTH: usize = 128;

/// One asset of a pair: a token contract or a native denomination.
pub enum AssetInfo {
    Token { contract_addr: String },
    NativeToken { denom: String },
}

impl AssetInfo {
    /// The identifier of the asset: its contract address or its denomination.
    pub open spec fn id(&self) -> Seq<char> {
        match self {
            AssetInfo::Token { contract_addr } => contract_addr@,
            AssetInfo::NativeToken { denom } => denom@,
        }
    }

    /// The bytes of the identifier.
    pub open spec fn id_bytes(&self) -> Seq<u8> {
        encode_utf8(self.id())
    }

    pub fn token(contract_addr: String) -> (r: AssetInfo)
        ensures
            r == (AssetInfo::Token { contract_addr }),
    {
        AssetInfo::Token { contract_addr }
    }

    pub fn native(denom: String) -> (r: AssetInfo)
        ensures
            r == (AssetInfo::NativeToken { denom }),
    {
        AssetInfo::NativeToken { denom }
    }

    /// The identifier as text.
    pub fn id_str(&self) -> (r: &str)
        ensures
            r@ == self.id(),
    {
        match self {
            AssetInfo::Token { contract_addr } => contract_addr.as_str(),
            AssetInfo::NativeToken { denom } => denom.as_str(),
        }
    }

    /// The identifier as bytes.
    pub fn as_bytes(&self) -> (r: &[u8])
        ensures
            r@ == self.id_bytes(),
    {
        self.id_str().as_bytes()
    }
}

/// The identifiers, as bytes, of a list of assets.
pub open spec fn ids(a: Seq<AssetInfo>) -> Seq<Seq<u8>> {
    a.map_values(|x: AssetInfo| x.id_bytes())
}

/// No two assets of the list share an identifier.
pub open spec fn distinct_ids(a: Seq<AssetInfo>) -> bool {
    forall|i: int, j: int|
        0 <= i < a.len() && 0 <= j < a.len() && i != j ==> #[trigger] a[i].id_bytes()
            != #[trigger] a[j].id_bytes()
}

/// The identifiers of the list, each once, in ascending order.
pub open spec fn canonical_ids(a: Seq<AssetInfo>) -> Seq<Seq<u8>> {
    choose|s: Seq<Seq<u8>>| strictly_sorted(s) && s.to_set() == ids(a).to_set()
}

/// The key of a pair: its asset identifiers in ascending order, concatenated.
/// It depends on the set of identifiers alone, not on the order they come in.
pub open spec fn pair_key_of(a: Seq<AssetInfo>) -> Seq<u8> {
    canonical_ids(a).flatten()
}

/// What a denomination must look like: 3 to 128 characters, a letter first,
/// then letters, digits or one of `/ : . _ -`.
pub open spec fn valid_denom(d: Seq<char>) -> bool {
    &&& 3 <= d.len() <= DENOM_MAX_LENGTH
    &&& is_ascii_letter(d[0])
    &&& forall|i: int| 1 <= i < d.len() ==> denom_char(#[trigger] d[i])
}

pub open spec fn is_ascii_letter(c: char) -> bool {
    ('a' <= c && c <= 'z') || ('A' <= c && c <= 'Z')
}

pub open spec fn denom_char(c: char) -> bool {
    is_ascii_letter(c) || ('0' <= c && c <= '9') || c == '/' || c == ':' || c == '.' || c == '_'
        || c == '-'
}

/// An asset is well formed when its denomination is; a token contract's
/// address is checked by the host before it reaches the library.
pub open spec fn well_formed(x: AssetInfo) -> bool {
    match x {
        AssetInfo::Token { .. } => true,
        AssetInfo::NativeToken { denom } => valid_denom(denom@),
    }
}

/// A list of assets that may make a pair: at least two, with distinct
/// identifiers, each well formed.
pub open spec fn valid_asset_set(a: Seq<AssetInfo>) -> bool {
    &&& a.len() >= 2
    &&& distinct_ids(a)
    &&& forall|i: int| 0 <= i < a.len() ==> well_formed(#[trigger] a[i])
}

/// Relies on astroport::asset::validate_native_denom, which accepts exactly
/// the denominations described by `valid_denom`.
#[verifier::external_body]
fn check_denom(denom: &str) -> (r: bool)
    ensures
        r == valid_denom(denom@),
{
    astroport::asset::validate_native_denom(denom).is_ok()
}

/// Whether no two assets of the list share an identifier.
pub fn has_distinct_ids(assets: &Vec<AssetInfo>) -> (r: bool)
    ensures
        r == distinct_ids(assets@),
{
    let mut i: usize = 0;
    while i < assets.len()
        invariant
            i <= assets@.len(),
            forall|a: int, b: int|
                0 <= a < i && 0 <= b < assets@.len() && a != b ==> #[trigger] assets@[a].id_bytes()
                    != #[trigger] assets@[b].id_bytes(),
        decreases assets@.len() - i,
    {
        let mut j: usize = 0;
        while j < assets.len()
            invariant
                i < assets@.len(),
                j <= assets@.len(),
                forall|b: int|
                    0 <= b < j && b != i ==> #[trigger] assets@[b].id_bytes()
                        != assets@[i as int].id_bytes(),
            decreases assets@.len() - j,
        {
            if j != i && bytes_equal(assets[j].as_bytes(), assets[i].as_bytes()) {
                return false;
            }
            j = j + 1;
        }
        i = i + 1;
    }
    true
}

/// Whether the list of assets may make a pair.
pub fn check_asset_infos(assets: &Vec<AssetInfo>) -> (r: bool)
    ensures
        r == valid_asset_set(assets@),
{
    if assets.len() < 2 || !has_distinct_ids(assets) {
        return false;
    }
    let mut i: usize = 0;
    while i < assets.len()
        invariant
            i <= assets@.len(),
            forall|a: int| 0 <= a < i ==> well_formed(#[trigger] assets@[a]),
        decreases assets@.len() - i,
    {
        match &assets[i] {
            AssetInfo::NativeToken { denom } => {
                if !check_denom(denom.as_str()) {
                    return false;
                }
            },
            AssetInfo::Token { .. } => {},
        }
        i = i + 1;
    }
    true
}

/// The identifiers of `assets`, each once, in ascending order.
pub fn sorted_ids(assets: &Vec<AssetInfo>) -> (r: Vec<Vec<u8>>)
    ensures
        r@.map_values(|v: Vec<u8>| v@) == canonical_ids(assets@),
{
    let mut out: Vec<Vec<u8>> = Vec::new();
    let mut i: usize = 0;
    while i < assets.len()
        invariant
            i <= assets@.len(),
            strictly_sorted(out@.map_values(|v: Vec<u8>| v@)),
            out@.map_values(|v: Vec<u8>| v@).to_set() == ids(assets@.take(i as int)).to_set(),
        decreases assets@.len() - i,
    {
        let ghost before = out@.map_values(|v: Vec<u8>| v@);
        let k = assets[i].as_bytes();
        let p = find_slot(&out, k);
        let present = p < out.len() && bytes_equal(out[p].as_slice(), k);
        let ghost x = assets@[i as int].id_bytes();
        proof {
            assert(ids(assets@.take(i + 1)) =~= ids(assets@.take(i as int)).push(x));
            ids(assets@.take(i as int)).lemma_push_to_set_commute(x);
            assert forall|j: int| 0 <= j < p implies lex_lt(#[trigger] before[j], x) by {
                assert(before[j] == out@[j]@);
            }
            if !present {
                assert forall|j: int| p <= j < before.len() implies lex_lt(x, #[trigger] before[j]) by {
                    assert(before[p as int] == out@[p as int]@);
                    assert(!lex_lt(before[p as int], x));
                    lemma_lex_total(before[p as int], x);
                    if j > p {
                        lemma_lex_transitive(x, before[p as int], before[j]);
                    }
                }
            } else {
                assert(before[p as int] == x);
                assert(before.to_set().contains(x));
                assert(before.to_set().insert(x) =~= before.to_set());
            }
        }
        if !present {
            out.insert(p, vstd::slice::slice_to_vec(k));
            let ghost after = out@.map_values(|v: Vec<u8>| v@);
            assert(after =~= before.insert(p as int, x));
            assert forall|a: int, b: int| 0 <= a < b < after.len() implies lex_lt(
                #[trigger] after[a],
                #[trigger] after[b],
            ) by {
                if b < p {
                    assert(after[a] == before[a] && after[b] == before[b]);
                } else if b == p {
                    assert(after[a] == before[a]);
                } else if a == p {
                    assert(after[b] == before[b - 1]);
                } else if a < p {
                    assert(after[a] == before[a] && after[b] == before[b - 1]);
                    lemma_lex_transitive(before[a], x, before[b - 1]);
                } else {
                    assert(after[a] == before[a - 1] && after[b] == before[b - 1]);
                }
            }
            assert(after.to_set() =~= before.to_set().insert(x)) by {
                assert forall|y: Seq<u8>| after.to_set().contains(y) implies before.to_set().insert(
                    x,
                ).contains(y) by {
                    let a = choose|a: int| 0 <= a < after.len() && after[a] == y;
                    if a < p {
                        assert(after[a] == before[a]);
                    } else if a > p {
                        assert(after[a] == before[a - 1]);
                    }
                }
                assert forall|y: Seq<u8>| before.to_set().insert(x).contains(y) implies after.to_set().contains(
                    y,
                ) by {
                    if y == x {
                        assert(after[p as int] == x);
                    } else {
                        let a = choose|a: int| 0 <= a < before.len() && before[a] == y;
                        if a < p {
                            assert(after[a] == before[a]);
                        } else {
                            assert(after[a + 1] == before[a]);
                        }
                    }
                }
            }
        }
        i = i + 1;
    }
    proof {
        let s = out@.map_values(|v: Vec<u8>| v@);
        assert(assets@.take(assets@.len() as int) =~= assets@);
        let c = canonical_ids(assets@);
        assert(strictly_sorted(c) && c.to_set() == ids(assets@).to_set());
        lemma_sorted_unique(s, c);
    }
    out
}

/// The key of the pair made of `assets`.
pub fn pair_key(assets: &Vec<AssetInfo>) -> (r: Vec<u8>)
    ensures
        r@ == pair_key_of(assets@),
{
    let parts = sorted_ids(assets);
    let ghost s = parts@.map_values(|v: Vec<u8>| v@);
    let mut out: Vec<u8> = Vec::new();
    let mut i: usize = 0;
    while i < parts.len()
        invariant
            i <= parts@.len(),
            s == parts@.map_values(|v: Vec<u8>| v@),
            out@ == s.take(i as int).flatten(),
        decreases parts@.len() - i,
    {
        let part = &parts[i];
        let mut j: usize = 0;
        while j < part.len()
            invariant
                i < parts@.len(),
                part@ == s[i as int],
                j <= part@.len(),
                out@ == s.take(i as int).flatten() + part@.take(j as int),
            decreases part@.len() - j,
        {
            out.push(part[j]);
            assert(part@.take(j + 1) =~= part@.take(j as int).push(part@[j as int]));
            j = j + 1;
        }
        proof {
            assert(part@.take(j as int) =~= part@);
            s.take(i as int).lemma_flatten_push(s[i as int]);
            assert(s.take(i + 1) =~= s.take(i as int).push(s[i as int]));
        }
        i = i + 1;
    }
    assert(s.take(i as int) =~= s);
    out
}

} // verus!

//! Virtual shards: a route key is mapped to one of a fixed number of shards.
use vstd::prelude::*;

use crate::encode::{be_bytes, push_all, push_be};
use crate::hashing::{xxh3_64, xxh3_64_with_seed};
use crate::records::{RouteKey, VirtualShardId};

verus! {

/// The seed of every shard hash.
pub const XXH3_V1_SEED: u64 = 0x4c41_5454_4943_4531;

/// The bytes that stand for a route key when it is hashed: a byte for its kind, then the value, a
/// number from its highest byte down and a signed one shifted so that the bytes keep its order.
///
/// The layout is this library's own choice, and so is the hash that goes over it: the 64-bit XXH3
/// with `XXH3_V1_SEED`. Shards agree only between parties that map route keys in this very way.
pub open spec fn route_key_bytes(key: RouteKey<Seq<char>, Seq<u8>>) -> Seq<u8> {
    match key {
        RouteKey::Str(value) => seq![0u8] + vstd::utf8::encode_utf8(value),
        RouteKey::U64(value) => seq![1u8] + be_bytes(value as nat, 8),
        RouteKey::I64(value) => seq![2u8] + be_bytes((value + 0x8000_0000_0000_0000) as nat, 8),
        RouteKey::Bytes(value) => seq![3u8] + value,
    }
}

/// Maps route keys to a fixed number of virtual shards.
#[derive(Debug, Clone, Copy, PartialEq, Eq, Structural)]
pub struct VirtualShardMapper {
    shard_count: u32,
}

impl VirtualShardMapper {
    /// The number of shards, at least one for a mapper that `new` made.
    pub closed spec fn count(self) -> u32 {
        self.shard_count
    }

    /// The shard of a route key.
    pub open spec fn shard_of(self, key: RouteKey<Seq<char>, Seq<u8>>) -> VirtualShardId {
        VirtualShardId((xxh3_64(route_key_bytes(key), XXH3_V1_SEED) % self.count() as u64) as u32)
    }

    #[verifier::type_invariant]
    spec fn has_a_shard(self) -> bool {
        self.shard_count > 0
    }

    pub fn new(shard_count: u32) -> (mapper: Option<Self>)
        ensures
            match mapper {
                Some(m) => shard_count > 0 && m.count() == shard_count,
                None => shard_count == 0,
            },
    {
        if shard_count == 0 {
            None
        } else {
            Some(VirtualShardMapper { shard_count })
        }
    }

    pub fn shard_for_route_key(&self, route_key: &RouteKey) -> (shard: VirtualShardId)
        ensures
            shard == self.shard_of(route_key@),
    {
        proof {
            use_type_invariant(&*self);
        }
        let mut bytes: Vec<u8> = Vec::new();
        match route_key {
            RouteKey::Str(value) => {
                bytes.push(0);
                push_all(&mut bytes, value.as_str().as_bytes());
            },
            RouteKey::U64(value) => {
                bytes.push(1);
                push_be(&mut bytes, *value as u128, 8);
            },
            RouteKey::I64(value) => {
                bytes.push(2);
                push_be(&mut bytes, (*value as i128 + 0x8000_0000_0000_0000) as u128, 8);
            },
            RouteKey::Bytes(value) => {
                bytes.push(3);
                push_all(&mut bytes, value.as_slice());
            },
        }
        assert(bytes@ =~= route_key_bytes(route_key@));
        let hash = xxh3_64_with_seed(bytes.as_slice(), XXH3_V1_SEED);
        VirtualShardId((hash % self.shard_count as u64) as u32)
    }
}

/// The number of the shard of a route key is below the number of shards, and congruent to the seeded
/// XXH3 hash of the bytes of the key modulo that number; so two keys share a shard exactly when their
/// hashes are congruent.
pub proof fn law_shards_are_congruent_to_the_hash(
    mapper: VirtualShardMapper,
    key: RouteKey<Seq<char>, Seq<u8>>,
    other: RouteKey<Seq<char>, Seq<u8>>,
)
    requires
        mapper.count() > 0,
    ensures
        mapper.shard_of(key).0 < mapper.count(),
        (xxh3_64(route_key_bytes(key), 0x4c41_5454_4943_4531) - mapper.shard_of(key).0)
            % mapper.count() as int == 0,
        mapper.shard_of(key) == mapper.shard_of(other) <==> (xxh3_64(
            route_key_bytes(key),
            0x4c41_5454_4943_4531,
        ) - xxh3_64(route_key_bytes(other), 0x4c41_5454_4943_4531)) % mapper.count() as int == 0,
{
    lemma_congruent(
        xxh3_64(route_key_bytes(key), 0x4c41_5454_4943_4531) as int,
        xxh3_64(route_key_bytes(other), 0x4c41_5454_4943_4531) as int,
        mapper.count() as int,
    );
}

/// A remainder is congruent to what it is the remainder of, and numbers with the same remainder are
/// congruent.
pub proof fn lemma_congruent(one: int, other: int, modulus: int)
    requires
        modulus > 0,
    ensures
        (one - one % modulus) % modulus == 0,
        one % modulus == other % modulus <==> (one - other) % modulus == 0,
{
    vstd::arithmetic::div_mod::lemma_fundamental_div_mod(one, modulus);
    vstd::arithmetic::div_mod::lemma_mod_multiples_basic(one / modulus, modulus);
    assert(modulus * (one / modulus) == (one / modulus) * modulus) by (nonlinear_arith);
    vstd::arithmetic::div_mod::lemma_mod_equivalence(one, other, modulus);
}

/// The bytes that are hashed for a route key tell its kind and then its value, so that different
/// keys have different bytes.
pub proof fn law_route_keys_have_their_own_bytes(
    key: RouteKey<Seq<char>, Seq<u8>>,
    other: RouteKey<Seq<char>, Seq<u8>>,
)
    ensures
        route_key_bytes(key) == route_key_bytes(other) <==> key == other,
        match key {
            RouteKey::Str(value) => route_key_bytes(key)[0] == 0 && route_key_bytes(
                key,
            ).drop_first() == vstd::utf8::encode_utf8(value),
            RouteKey::U64(value) => route_key_bytes(key)[0] == 1 && route_key_bytes(key).len() == 9
                && crate::encode::be_value(route_key_bytes(key).drop_first()) == value,
            RouteKey::I64(value) => route_key_bytes(key)[0] == 2 && route_key_bytes(key).len() == 9
                && crate::encode::be_value(route_key_bytes(key).drop_first()) == value
                + 0x8000_0000_0000_0000,
            RouteKey::Bytes(value) => route_key_bytes(key)[0] == 3 && route_key_bytes(
                key,
            ).drop_first() == value,
        },
{
    lemma_route_key_value(key);
    lemma_route_key_value(other);
    if route_key_bytes(key) == route_key_bytes(other) {
        assert(route_key_bytes(key).drop_first() == route_key_bytes(other).drop_first());
        match (key, other) {
            (RouteKey::Str(one), RouteKey::Str(another)) => {
                vstd::utf8::encode_utf8_decode_utf8(one);
                vstd::utf8::encode_utf8_decode_utf8(another);
            },
            _ => {},
        }
    }
}

proof fn lemma_route_key_value(key: RouteKey<Seq<char>, Seq<u8>>)
    ensures
        match key {
            RouteKey::Str(value) => route_key_bytes(key)[0] == 0 && route_key_bytes(
                key,
            ).drop_first() == vstd::utf8::encode_utf8(value),
            RouteKey::U64(value) => route_key_bytes(key)[0] == 1 && route_key_bytes(key).len() == 9
                && crate::encode::be_value(route_key_bytes(key).drop_first()) == value,
            RouteKey::I64(value) => route_key_bytes(key)[0] == 2 && route_key_bytes(key).len() == 9
                && crate::encode::be_value(route_key_bytes(key).drop_first()) == value
                + 0x8000_0000_0000_0000,
            RouteKey::Bytes(value) => route_key_bytes(key)[0] == 3 && route_key_bytes(
                key,
            ).drop_first() == value,
        },
{
    let bytes = route_key_bytes(key);
    assert(vstd::arithmetic::power::pow(256, 8) == 0x1_0000_0000_0000_0000) by {
        reveal_with_fuel(vstd::arithmetic::power::pow, 9);
    }
    match key {
        RouteKey::Str(value) => {
            assert(bytes.drop_first() =~= vstd::utf8::encode_utf8(value));
        },
        RouteKey::U64(value) => {
            assert(bytes.drop_first() =~= be_bytes(value as nat, 8));
            crate::encode::lemma_be_bytes_len(value as nat, 8);
            crate::encode::law_bytes_stand_for_their_number(value as nat, 8, 0, Seq::empty());
        },
        RouteKey::I64(value) => {
            let shifted = (value + 0x8000_0000_0000_0000) as nat;
            assert(bytes.drop_first() =~= be_bytes(shifted, 8));
            crate::encode::lemma_be_bytes_len(shifted, 8);
            crate::encode::law_bytes_stand_for_their_number(shifted, 8, 0, Seq::empty());
        },
        RouteKey::Bytes(value) => {
            assert(bytes.drop_first() =~= value);
        },
    }
}

} // verus!

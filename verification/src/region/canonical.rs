//! What the fingerprint of a configuration commits to.
use vstd::prelude::*;
use vstd::utf8::encode_utf8;

use crate::encode::{be_bytes, lemma_be_bytes_injective, lemma_be_bytes_len, span};
use crate::hashing::blake3_digest;
use crate::order::{law_sorting_is_canonical, lemma_sorting_exists, strictly_sorted};
use crate::region::{
    in_order, text_field, text_fields, EntityConfigModel, RegionError, XXH3_V1_HASH_VERSION,
    XXH3_V1_SEED,
};

verus! {

/// Whether the length of a text fits the four bytes in front of it.
pub open spec fn has_length(text: Seq<char>) -> bool {
    encode_utf8(text).len() <= u32::MAX
}

proof fn lemma_prefix(one: Seq<u8>, rest: Seq<u8>, other: Seq<u8>, remainder: Seq<u8>)
    requires
        one.len() == other.len(),
        one + rest == other + remainder,
    ensures
        one == other,
        rest == remainder,
{
    let whole = one + rest;
    assert(one =~= whole.subrange(0, one.len() as int));
    assert(other =~= whole.subrange(0, one.len() as int));
    assert(rest =~= whole.subrange(one.len() as int, whole.len() as int));
    assert(remainder =~= whole.subrange(one.len() as int, whole.len() as int));
}

proof fn lemma_number(a: nat, rest: Seq<u8>, b: nat, remainder: Seq<u8>, width: nat)
    requires
        a < span(width),
        b < span(width),
        be_bytes(a, width) + rest == be_bytes(b, width) + remainder,
    ensures
        a == b,
        rest == remainder,
{
    lemma_be_bytes_len(a, width);
    lemma_be_bytes_len(b, width);
    lemma_prefix(be_bytes(a, width), rest, be_bytes(b, width), remainder);
    lemma_be_bytes_injective(a, b, width);
}

proof fn lemma_spans()
    ensures
        span(4) == 0x1_0000_0000,
        span(8) == 0x1_0000_0000_0000_0000,
{
    reveal_with_fuel(span, 9);
}

proof fn lemma_text(a: Seq<char>, rest: Seq<u8>, b: Seq<char>, remainder: Seq<u8>)
    requires
        has_length(a),
        has_length(b),
        text_field(a) + rest == text_field(b) + remainder,
    ensures
        a == b,
        rest == remainder,
{
    let (x, y) = (encode_utf8(a), encode_utf8(b));
    assert(text_field(a) + rest =~= be_bytes(x.len(), 4) + (x + rest));
    assert(text_field(b) + remainder =~= be_bytes(y.len(), 4) + (y + remainder));
    lemma_spans();
    lemma_number(x.len(), x + rest, y.len(), y + remainder, 4);
    lemma_prefix(x, rest, y, remainder);
    vstd::utf8::encode_utf8_decode_utf8(a);
    vstd::utf8::encode_utf8_decode_utf8(b);
}

proof fn lemma_first_text(texts: Seq<Seq<char>>)
    requires
        texts.len() > 0,
    ensures
        text_fields(texts) == text_field(texts[0]) + text_fields(texts.drop_first()),
    decreases texts.len(),
{
    if texts.len() == 1 {
        assert(texts.drop_last() =~= Seq::empty());
        assert(texts.drop_first() =~= Seq::empty());
        assert(text_fields(texts) =~= text_field(texts[0]) + text_fields(texts.drop_first()));
    } else {
        let shorter = texts.drop_last();
        lemma_first_text(shorter);
        assert(shorter.drop_first() =~= texts.drop_first().drop_last());
        assert(text_fields(texts) =~= text_field(texts[0]) + text_fields(texts.drop_first()));
    }
}

proof fn lemma_texts(left: Seq<Seq<char>>, right: Seq<Seq<char>>)
    requires
        left.len() == right.len(),
        forall|i: int| 0 <= i < left.len() ==> has_length(#[trigger] left[i]),
        forall|i: int| 0 <= i < right.len() ==> has_length(#[trigger] right[i]),
        text_fields(left) == text_fields(right),
    ensures
        left == right,
    decreases left.len(),
{
    if left.len() == 0 {
        assert(left =~= right);
    } else {
        lemma_first_text(left);
        lemma_first_text(right);
        let (l, r) = (left.drop_first(), right.drop_first());
        lemma_text(left[0], text_fields(l), right[0], text_fields(r));
        assert forall|i: int| 0 <= i < l.len() implies has_length(#[trigger] l[i]) by {
            assert(l[i] == left[i + 1]);
        }
        assert forall|i: int| 0 <= i < r.len() implies has_length(#[trigger] r[i]) by {
            assert(r[i] == right[i + 1]);
        }
        lemma_texts(l, r);
        assert(left =~= seq![left[0]] + l);
        assert(right =~= seq![right[0]] + r);
    }
}

impl EntityConfigModel {
    /// The lengths of the names of the domain and of the entity type fit their fields, as those
    /// of the other texts do in every configuration that is not refused.
    pub open spec fn has_lengths(self) -> bool {
        has_length(self.domain) && has_length(self.entity_type)
    }

    /// Whether two configurations state the same: all but their hash versions and fingerprints,
    /// and the constraints in any order.
    pub open spec fn states_what(self, other: EntityConfigModel) -> bool {
        &&& self.domain == other.domain
        &&& self.entity_type == other.entity_type
        &&& self.protocol_id == other.protocol_id
        &&& self.shard_count == other.shard_count
        &&& self.allocation_policy_id == other.allocation_policy_id
        &&& self.allocation_policy_version == other.allocation_policy_version
        &&& self.hard_constraints.to_set() == other.hard_constraints.to_set()
    }

    /// The bytes that the fingerprint of the configuration is to digest.
    pub open spec fn committed(self) -> Seq<u8> {
        (EntityConfigModel { hard_constraints: in_order(self.hard_constraints), ..self }).canonical()
    }
}

/// The part of the canonical bytes behind the texts at the front.
spec fn behind_names(config: EntityConfigModel) -> Seq<u8> {
    be_bytes(config.protocol_id.0 as nat, 8) + (be_bytes(config.shard_count as nat, 4) + (be_bytes(
        XXH3_V1_HASH_VERSION as nat,
        4,
    ) + (be_bytes(XXH3_V1_SEED as nat, 8) + (text_field(config.allocation_policy_id)
        + behind_policy(config)))))
}

spec fn behind_policy(config: EntityConfigModel) -> Seq<u8> {
    be_bytes(config.allocation_policy_version as nat, 4) + (be_bytes(
        config.hard_constraints.len(),
        4,
    ) + text_fields(config.hard_constraints))
}

proof fn lemma_parts(config: EntityConfigModel)
    ensures
        config.canonical() == text_field(config.domain) + (text_field(config.entity_type)
            + behind_names(config)),
{
    assert(config.canonical() =~= text_field(config.domain) + (text_field(config.entity_type)
        + behind_names(config)));
}

proof fn lemma_policy_parts(a: EntityConfigModel, b: EntityConfigModel)
    requires
        a.hard_constraints.len() <= u32::MAX,
        b.hard_constraints.len() <= u32::MAX,
        forall|i: int|
            0 <= i < a.hard_constraints.len() ==> has_length(#[trigger] a.hard_constraints[i]),
        forall|i: int|
            0 <= i < b.hard_constraints.len() ==> has_length(#[trigger] b.hard_constraints[i]),
        behind_policy(a) == behind_policy(b),
    ensures
        a.allocation_policy_version == b.allocation_policy_version,
        a.hard_constraints == b.hard_constraints,
{
    lemma_spans();
    let (x, y) = (a.hard_constraints, b.hard_constraints);
    lemma_number(
        a.allocation_policy_version as nat,
        be_bytes(x.len(), 4) + text_fields(x),
        b.allocation_policy_version as nat,
        be_bytes(y.len(), 4) + text_fields(y),
        4,
    );
    lemma_number(x.len(), text_fields(x), y.len(), text_fields(y), 4);
    lemma_texts(x, y);
}

proof fn lemma_name_parts(a: EntityConfigModel, b: EntityConfigModel)
    requires
        has_length(a.allocation_policy_id),
        has_length(b.allocation_policy_id),
        behind_names(a) == behind_names(b),
    ensures
        a.protocol_id == b.protocol_id,
        a.shard_count == b.shard_count,
        a.allocation_policy_id == b.allocation_policy_id,
        behind_policy(a) == behind_policy(b),
{
    lemma_spans();
    let last_a = text_field(a.allocation_policy_id) + behind_policy(a);
    let last_b = text_field(b.allocation_policy_id) + behind_policy(b);
    let seed = be_bytes(XXH3_V1_SEED as nat, 8);
    let version = be_bytes(XXH3_V1_HASH_VERSION as nat, 4);
    lemma_number(
        a.protocol_id.0 as nat,
        be_bytes(a.shard_count as nat, 4) + (version + (seed + last_a)),
        b.protocol_id.0 as nat,
        be_bytes(b.shard_count as nat, 4) + (version + (seed + last_b)),
        8,
    );
    lemma_number(
        a.shard_count as nat,
        version + (seed + last_a),
        b.shard_count as nat,
        version + (seed + last_b),
        4,
    );
    lemma_prefix(version, seed + last_a, version, seed + last_b);
    lemma_prefix(seed, last_a, seed, last_b);
    lemma_text(a.allocation_policy_id, behind_policy(a), b.allocation_policy_id, behind_policy(b));
}

/// The canonical bytes of a configuration whose texts are short enough say all that it states.
proof fn lemma_canonical(a: EntityConfigModel, b: EntityConfigModel)
    requires
        a.has_lengths(),
        b.has_lengths(),
        has_length(a.allocation_policy_id),
        has_length(b.allocation_policy_id),
        a.hard_constraints.len() <= u32::MAX,
        b.hard_constraints.len() <= u32::MAX,
        forall|i: int|
            0 <= i < a.hard_constraints.len() ==> has_length(#[trigger] a.hard_constraints[i]),
        forall|i: int|
            0 <= i < b.hard_constraints.len() ==> has_length(#[trigger] b.hard_constraints[i]),
        a.canonical() == b.canonical(),
    ensures
        a.domain == b.domain,
        a.entity_type == b.entity_type,
        a.protocol_id == b.protocol_id,
        a.shard_count == b.shard_count,
        a.allocation_policy_id == b.allocation_policy_id,
        a.allocation_policy_version == b.allocation_policy_version,
        a.hard_constraints == b.hard_constraints,
{
    lemma_parts(a);
    lemma_parts(b);
    lemma_text(
        a.domain,
        text_field(a.entity_type) + behind_names(a),
        b.domain,
        text_field(b.entity_type) + behind_names(b),
    );
    lemma_text(a.entity_type, behind_names(a), b.entity_type, behind_names(b));
    lemma_name_parts(a, b);
    lemma_policy_parts(a, b);
}

/// The constraints of a configuration that is not refused, in order.
proof fn lemma_ordered(config: EntityConfigModel)
    requires
        config.fault() is None,
    ensures
        strictly_sorted(in_order(config.hard_constraints)),
        in_order(config.hard_constraints).to_set() == config.hard_constraints.to_set(),
        in_order(config.hard_constraints).len() <= 64,
        forall|i: int|
            0 <= i < in_order(config.hard_constraints).len() ==> has_length(
                #[trigger] in_order(config.hard_constraints)[i],
            ),
{
    let texts = config.hard_constraints;
    let sorted = lemma_sorting_exists(texts);
    law_sorting_is_canonical(in_order(texts), sorted);
    assert forall|i: int| 0 <= i < sorted.len() implies has_length(#[trigger] sorted[i]) by {
        assert(sorted.to_set().contains(sorted[i]));
        assert(texts.to_set().contains(sorted[i]));
        let j = choose|j: int| 0 <= j < texts.len() && texts[j] == sorted[i];
        assert(encode_utf8(texts[j]).len() <= 256);
    }
}

/// The bytes that a fingerprint digests commit to what a configuration states: those of two
/// configurations that are not refused are the same only if the configurations state the same.
pub proof fn law_canonical_bytes_commit(a: EntityConfigModel, b: EntityConfigModel)
    requires
        a.fault() is None,
        b.fault() is None,
        a.has_lengths(),
        b.has_lengths(),
    ensures
        a.committed() == b.committed() <==> a.states_what(b),
{
    lemma_ordered(a);
    lemma_ordered(b);
    let x = EntityConfigModel { hard_constraints: in_order(a.hard_constraints), ..a };
    let y = EntityConfigModel { hard_constraints: in_order(b.hard_constraints), ..b };
    if a.committed() == b.committed() {
        lemma_canonical(x, y);
    }
    if a.states_what(b) {
        law_sorting_is_canonical(x.hard_constraints, y.hard_constraints);
    }
}

/// A configuration that `new` returned passes its own check.
pub proof fn law_sealed_config_is_valid(requested: EntityConfigModel)
    requires
        requested.fault() is None,
    ensures
        requested.sealed().rejection() is None,
        requested.sealed().sealed() == requested.sealed(),
{
    let sealed = requested.sealed();
    lemma_ordered(requested);
    law_sorting_is_canonical(in_order(sealed.hard_constraints), sealed.hard_constraints);
    assert(sealed.fault() is None) by {
        assert forall|i: int| 0 <= i < sealed.hard_constraints.len() implies encode_utf8(
            #[trigger] sealed.hard_constraints[i],
        ).len() <= 256 by {
            assert(sealed.hard_constraints.to_set().contains(sealed.hard_constraints[i]));
            assert(requested.hard_constraints.to_set().contains(sealed.hard_constraints[i]));
            let j = choose|j: int|
                0 <= j < requested.hard_constraints.len() && requested.hard_constraints[j]
                    == sealed.hard_constraints[i];
            assert(encode_utf8(requested.hard_constraints[j]).len() <= 256);
        }
    }
    lemma_same_bytes(requested);
    lemma_same_bytes(sealed);
    assert(sealed.committed() =~= requested.committed());
    assert(sealed.sealed() =~= sealed);
}

/// A configuration that `new` returned passes its check, and a changed one does not, as long as
/// the digests of different bytes differ: whatever it states otherwise, and any other hash
/// version, is refused.
pub proof fn law_changed_configs_are_refused(
    requested: EntityConfigModel,
    changed: EntityConfigModel,
)
    requires
        requested.fault() is None,
        requested.has_lengths(),
        changed.has_lengths(),
        changed.fingerprint == requested.sealed().fingerprint,
        requested.committed() != changed.committed() ==> blake3_digest(requested.committed())
            != blake3_digest(changed.committed()),
    ensures
        requested.sealed().rejection() is None,
        changed.fault() is Some ==> changed.rejection() == changed.fault(),
        changed.shard_count == 0 ==> changed.rejection() == Some(RegionError::InvalidShardCount),
        changed.fault() is None ==> changed.rejection() == if changed.shard_hash_version
            == XXH3_V1_HASH_VERSION && changed.states_what(requested) {
            None
        } else {
            Some(RegionError::InvalidConfig)
        },
{
    let sealed = requested.sealed();
    law_sealed_config_is_valid(requested);
    lemma_same_bytes(requested);
    lemma_same_bytes(changed);
    if changed.fault() is None {
        law_canonical_bytes_commit(requested, changed);
        if changed.states_what(requested) {
            assert(requested.states_what(changed));
        }
    }
}

proof fn lemma_same_bytes(config: EntityConfigModel)
    ensures
        config.sealed().fingerprint == blake3_digest(config.committed()),
{
    let ordered = EntityConfigModel {
        hard_constraints: in_order(config.hard_constraints),
        shard_hash_version: XXH3_V1_HASH_VERSION,
        ..config
    };
    assert(ordered.canonical() =~= config.committed());
}

} // verus!

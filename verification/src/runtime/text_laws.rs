//! What the texts by which slots and operations are known tell of them.
use vstd::arithmetic::power::pow;
use vstd::prelude::*;

use crate::render::{decimal_text, digit_char, hex_text};
use crate::runtime::admin::{
    automatic_text, cancel_text, force_remove_text, relocation_text, ForceRemoveModel,
    RelocationModel,
};
use crate::runtime::snapshot::{slot_domain, slot_path};
use crate::types::{ShardId, SlotKeyModel};

verus! {

/// The number that some decimal digits stand for.
pub open spec fn decimal_value(text: Seq<char>) -> int
    decreases text.len(),
{
    if text.len() == 0 {
        0
    } else {
        decimal_value(text.drop_last()) * 10 + (text.last() as int - '0' as int)
    }
}

/// What a hexadecimal digit stands for.
pub open spec fn hex_digit(digit: char) -> int {
    if '0' as int <= digit as int <= '9' as int {
        digit as int - '0' as int
    } else {
        digit as int - 'a' as int + 10
    }
}

/// The number that some hexadecimal digits stand for.
pub open spec fn hex_value(text: Seq<char>) -> int
    decreases text.len(),
{
    if text.len() == 0 {
        0
    } else {
        hex_value(text.drop_last()) * 16 + hex_digit(text.last())
    }
}

/// A number in decimal is written in digits that stand for it, and begins with a zero only if it is
/// zero; so different numbers are written differently.
pub proof fn law_decimals_stand_for_their_number(value: nat, other: nat)
    ensures
        decimal_value(decimal_text(value)) == value,
        decimal_text(value).len() > 0,
        forall|i: int|
            0 <= i < decimal_text(value).len() ==> '0' as int <= (
            #[trigger] decimal_text(value)[i]) as int <= '9' as int,
        value > 0 ==> decimal_text(value)[0] != '0',
        decimal_text(value) == decimal_text(other) <==> value == other,
{
    lemma_decimal(value);
    lemma_decimal(other);
}

proof fn lemma_decimal(value: nat)
    ensures
        decimal_value(decimal_text(value)) == value,
        decimal_text(value).len() > 0,
        forall|i: int|
            0 <= i < decimal_text(value).len() ==> '0' as int <= (
            #[trigger] decimal_text(value)[i]) as int <= '9' as int,
        value > 0 ==> decimal_text(value)[0] != '0',
    decreases value,
{
    let text = decimal_text(value);
    if value < 10 {
        assert(text.drop_last() =~= Seq::<char>::empty());
        assert(decimal_value(text.drop_last()) == 0);
        assert(text.last() == digit_char(value));
    } else {
        lemma_decimal(value / 10);
        assert(text.drop_last() =~= decimal_text(value / 10));
        assert(text.last() == digit_char(value % 10));
    }
}

/// The hexadecimal digits of a number that fits stand for it; so different numbers that fit are
/// written differently.
pub proof fn law_hexadecimals_stand_for_their_number(value: nat, other: nat, width: nat)
    requires
        value < pow(16, width),
        other < pow(16, width),
    ensures
        hex_text(value, width).len() == width,
        hex_value(hex_text(value, width)) == value,
        hex_text(value, width) == hex_text(other, width) <==> value == other,
{
    lemma_hex(value, width);
    lemma_hex(other, width);
}

proof fn lemma_hex(value: nat, width: nat)
    requires
        value < pow(16, width),
    ensures
        hex_text(value, width).len() == width,
        hex_value(hex_text(value, width)) == value,
    decreases width,
{
    reveal(pow);
    if width > 0 {
        lemma_hex(value / 16, (width - 1) as nat);
        let text = hex_text(value, width);
        assert(text.drop_last() =~= hex_text(value / 16, (width - 1) as nat));
        assert(text.last() == digit_char(value % 16));
    }
}

proof fn lemma_after(front: Seq<char>, one: Seq<char>, other: Seq<char>)
    requires
        front + one == front + other,
    ensures
        one == other,
{
    let whole = front + one;
    assert(one =~= whole.subrange(front.len() as int, whole.len() as int));
    assert(other =~= whole.subrange(front.len() as int, whole.len() as int));
}

proof fn lemma_up_to(one: Seq<char>, other: Seq<char>, rest: Seq<char>, remainder: Seq<char>)
    requires
        one + rest == other + remainder,
        rest.len() == remainder.len(),
    ensures
        one == other,
        rest == remainder,
{
    let whole = one + rest;
    assert(whole.len() == (other + remainder).len());
    assert(one =~= whole.subrange(0, one.len() as int));
    assert(other =~= whole.subrange(0, one.len() as int));
    assert(rest =~= whole.subrange(one.len() as int, whole.len() as int));
    assert(remainder =~= whole.subrange(one.len() as int, whole.len() as int));
}

/// Whether a text does not hold a mark.
pub open spec fn is_free_of(text: Seq<char>, mark: char) -> bool {
    forall|i: int| 0 <= i < text.len() ==> #[trigger] text[i] != mark
}

proof fn lemma_last_mark(
    one: Seq<char>,
    tail: Seq<char>,
    other: Seq<char>,
    end: Seq<char>,
    mark: char,
)
    requires
        one + seq![mark] + tail == other + seq![mark] + end,
        is_free_of(tail, mark),
        is_free_of(end, mark),
    ensures
        one == other,
        tail == end,
{
    let whole = one + seq![mark] + tail;
    assert(whole.len() == one.len() + 1 + tail.len());
    assert((other + seq![mark] + end).len() == other.len() + 1 + end.len());
    assert(whole[one.len() as int] == mark);
    assert((other + seq![mark] + end)[other.len() as int] == mark);
    if one.len() < other.len() {
        assert(whole[other.len() as int] == tail[other.len() - one.len() - 1]);
    }
    if other.len() < one.len() {
        assert((other + seq![mark] + end)[one.len() as int] == end[one.len() - other.len() - 1]);
    }
    assert(tail =~= whole.subrange((one.len() + 1) as int, whole.len() as int));
    assert(end =~= whole.subrange((one.len() + 1) as int, whole.len() as int));
    assert(one =~= whole.subrange(0, one.len() as int));
    assert(other =~= whole.subrange(0, one.len() as int));
}

proof fn lemma_first_mark(
    one: Seq<char>,
    tail: Seq<char>,
    other: Seq<char>,
    end: Seq<char>,
    mark: char,
)
    requires
        one + seq![mark] + tail == other + seq![mark] + end,
        is_free_of(one, mark),
        is_free_of(other, mark),
    ensures
        one == other,
        tail == end,
{
    let whole = one + seq![mark] + tail;
    assert(whole.len() == one.len() + 1 + tail.len());
    assert((other + seq![mark] + end).len() == other.len() + 1 + end.len());
    assert(whole[one.len() as int] == mark);
    assert((other + seq![mark] + end)[other.len() as int] == mark);
    if one.len() < other.len() {
        assert((other + seq![mark] + end)[one.len() as int] == other[one.len() as int]);
    }
    if other.len() < one.len() {
        assert(whole[other.len() as int] == one[other.len() as int]);
    }
    assert(tail =~= whole.subrange((one.len() + 1) as int, whole.len() as int));
    assert(end =~= whole.subrange((one.len() + 1) as int, whole.len() as int));
    assert(one =~= whole.subrange(0, one.len() as int));
    assert(other =~= whole.subrange(0, one.len() as int));
}

proof fn lemma_decimal_is_free(value: nat, mark: char)
    requires
        mark == ':' || mark == '/',
    ensures
        is_free_of(decimal_text(value), mark),
{
    lemma_decimal(value);
    assert forall|i: int| 0 <= i < decimal_text(value).len() implies #[trigger] decimal_text(
        value,
    )[i] != mark by {
        assert('0' as int <= decimal_text(value)[i] as int);
    }
}

/// Slots of one domain are stored under different paths: shards by their type and number, singletons
/// by their kind.
pub proof fn law_slots_have_their_own_paths(one: SlotKeyModel, other: SlotKeyModel)
    ensures
        slot_path(one) == slot_path(other) && slot_domain(one) == slot_domain(other) <==> one
            == other,
        one matches SlotKeyModel::Shard { domain, .. } ==> slot_domain(one) == domain,
        one matches SlotKeyModel::Singleton { domain, .. } ==> slot_domain(one) == domain,
{
    reveal_strlit("shard/");
    reveal_strlit("singleton/");
    reveal_strlit("/");
    if slot_path(one) == slot_path(other) {
        match (one, other) {
            (
                SlotKeyModel::Shard { entity_type: a, shard_id: x, .. },
                SlotKeyModel::Shard { entity_type: b, shard_id: y, .. },
            ) => {
                let (m, n) = (decimal_text(x.0 as nat), decimal_text(y.0 as nat));
                assert("/"@ =~= seq!['/']);
                assert(slot_path(one) =~= "shard/"@ + (a + seq!['/'] + m));
                assert(slot_path(other) =~= "shard/"@ + (b + seq!['/'] + n));
                lemma_after("shard/"@, a + seq!['/'] + m, b + seq!['/'] + n);
                lemma_decimal_is_free(x.0 as nat, '/');
                lemma_decimal_is_free(y.0 as nat, '/');
                lemma_last_mark(a, m, b, n, '/');
                law_decimals_stand_for_their_number(x.0 as nat, y.0 as nat);
            },
            (SlotKeyModel::Singleton { kind: a, .. }, SlotKeyModel::Singleton { kind: b, .. }) => {
                lemma_after("singleton/"@, a, b);
            },
            (SlotKeyModel::Shard { .. }, SlotKeyModel::Singleton { .. }) => {
                assert(slot_path(one)[1] == 'h');
                assert(slot_path(other)[1] == 'i');
            },
            (SlotKeyModel::Singleton { .. }, SlotKeyModel::Shard { .. }) => {
                assert(slot_path(one)[1] == 'i');
                assert(slot_path(other)[1] == 'h');
            },
        }
    }
}

proof fn lemma_wide_enough()
    ensures
        pow(16, 32) == u128::MAX + 1,
{
    reveal_with_fuel(pow, 33);
}

/// Cancellations of different moves are told apart.
pub proof fn law_cancellations_are_told_apart(
    plan_id: u128,
    shard_id: ShardId,
    other_plan: u128,
    other_shard: ShardId,
)
    ensures
        cancel_text(plan_id, shard_id) == cancel_text(other_plan, other_shard) <==> plan_id
            == other_plan && shard_id == other_shard,
{
    if cancel_text(plan_id, shard_id) == cancel_text(other_plan, other_shard) {
        let (h, k) = (hex_text(plan_id as nat, 32), hex_text(other_plan as nat, 32));
        let (m, n) = (decimal_text(shard_id.0 as nat), decimal_text(other_shard.0 as nat));
        reveal_strlit(":");
        assert(":"@ =~= seq![':']);
        assert(cancel_text(plan_id, shard_id) =~= "cancel:"@ + (h + seq![':'] + m));
        assert(cancel_text(other_plan, other_shard) =~= "cancel:"@ + (k + seq![':'] + n));
        lemma_after("cancel:"@, h + seq![':'] + m, k + seq![':'] + n);
        lemma_decimal_is_free(shard_id.0 as nat, ':');
        lemma_decimal_is_free(other_shard.0 as nat, ':');
        lemma_last_mark(h, m, k, n, ':');
        law_decimals_stand_for_their_number(shard_id.0 as nat, other_shard.0 as nat);
        lemma_wide_enough();
        law_hexadecimals_stand_for_their_number(plan_id as nat, other_plan as nat, 32);
    }
}

/// Removals of different members are told apart, by name and incarnation.
pub proof fn law_removals_are_told_apart(one: ForceRemoveModel, other: ForceRemoveModel)
    ensures
        force_remove_text(one) == force_remove_text(other) <==> one.node_id == other.node_id
            && one.expected_incarnation == other.expected_incarnation,
{
    if force_remove_text(one) == force_remove_text(other) {
        let h = hex_text(one.expected_incarnation.0 as nat, 32);
        let k = hex_text(other.expected_incarnation.0 as nat, 32);
        lemma_wide_enough();
        law_hexadecimals_stand_for_their_number(
            one.expected_incarnation.0 as nat,
            other.expected_incarnation.0 as nat,
            32,
        );
        law_hexadecimals_stand_for_their_number(
            other.expected_incarnation.0 as nat,
            one.expected_incarnation.0 as nat,
            32,
        );
        assert(force_remove_text(one) =~= "force-remove:"@ + (one.node_id + (":"@ + h)));
        assert(force_remove_text(other) =~= "force-remove:"@ + (other.node_id + (":"@ + k)));
        lemma_after("force-remove:"@, one.node_id + (":"@ + h), other.node_id + (":"@ + k));
        lemma_up_to(one.node_id, other.node_id, ":"@ + h, ":"@ + k);
        lemma_after(":"@, h, k);
    }
}

/// Switches are told apart by what they switch, all types being written as a star, and by whether they
/// switch it off.
pub proof fn law_switches_are_told_apart(
    entity_type: Option<Seq<char>>,
    paused: bool,
    other: Option<Seq<char>>,
    stopped: bool,
)
    ensures
        automatic_text(entity_type, paused) == automatic_text(other, stopped) <==> paused == stopped
            && (if entity_type is Some {
            entity_type->0
        } else {
            "*"@
        }) == (if other is Some {
            other->0
        } else {
            "*"@
        }),
{
    let a = if entity_type is Some {
        entity_type->0
    } else {
        "*"@
    };
    let b = if other is Some {
        other->0
    } else {
        "*"@
    };
    let (x, y) = (automatic_text(entity_type, paused), automatic_text(other, stopped));
    reveal_strlit("true");
    reveal_strlit("false");
    if x == y {
        let m = if paused {
            "true"@
        } else {
            "false"@
        };
        let n = if stopped {
            "true"@
        } else {
            "false"@
        };
        assert(x == "automatic:"@ + a + ":"@ + m);
        assert(y == "automatic:"@ + b + ":"@ + n);
        assert(x[x.len() - 2] == m[m.len() - 2]);
        assert(y[y.len() - 2] == n[n.len() - 2]);
        assert(paused == stopped);
        assert(x =~= "automatic:"@ + (a + (":"@ + m)));
        assert(y =~= "automatic:"@ + (b + (":"@ + n)));
        lemma_after("automatic:"@, a + (":"@ + m), b + (":"@ + n));
        lemma_up_to(a, b, ":"@ + m, ":"@ + n);
    }
}

/// Relocations within an entity type are told apart by shard, generation and target.
pub proof fn law_relocations_are_told_apart(one: RelocationModel, other: RelocationModel)
    requires
        one.entity_type == other.entity_type,
    ensures
        relocation_text(one) == relocation_text(other) <==> one.shard_id == other.shard_id
            && one.expected_generation == other.expected_generation && one.target_node_id
            == other.target_node_id,
{
    if relocation_text(one) == relocation_text(other) {
        let (a, b) = (decimal_text(one.shard_id.0 as nat), decimal_text(other.shard_id.0 as nat));
        let (g, h) = (
            decimal_text(one.expected_generation.0 as nat),
            decimal_text(other.expected_generation.0 as nat),
        );
        let (s, t) = (one.target_node_id, other.target_node_id);
        let front = "relocate:"@ + one.entity_type + ":"@;
        reveal_strlit(":");
        assert(":"@ =~= seq![':']);
        assert(relocation_text(one) =~= front + (a + seq![':'] + (g + seq![':'] + s)));
        assert(relocation_text(other) =~= front + (b + seq![':'] + (h + seq![':'] + t)));
        lemma_after(
            front,
            a + seq![':'] + (g + seq![':'] + s),
            b + seq![':'] + (h + seq![':'] + t),
        );
        lemma_decimal_is_free(one.shard_id.0 as nat, ':');
        lemma_decimal_is_free(other.shard_id.0 as nat, ':');
        lemma_decimal_is_free(one.expected_generation.0 as nat, ':');
        lemma_decimal_is_free(other.expected_generation.0 as nat, ':');
        lemma_first_mark(a, g + seq![':'] + s, b, h + seq![':'] + t, ':');
        lemma_first_mark(g, s, h, t, ':');
        law_decimals_stand_for_their_number(one.shard_id.0 as nat, other.shard_id.0 as nat);
        law_decimals_stand_for_their_number(
            one.expected_generation.0 as nat,
            other.expected_generation.0 as nat,
        );
    }
}

} // verus!

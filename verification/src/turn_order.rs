//! The order of combat turns: which turns a list of participants gives, and
//! in which order they act.
//!
//! Every filled roll slot is one turn. The turns act from the highest roll
//! down; turns of the same roll act in the order in which they were entered.

use vstd::prelude::*;
use crate::app::{CombatTurnView, ParticipantView};

verus! {

/// The turn that a roll of `roll` gives the participant called `name`:
/// conscious and alive.
pub open spec fn fresh_turn(name: Seq<char>, roll: u8) -> CombatTurnView {
    CombatTurnView { name, initiative_roll_value: roll, unconscious: false, dead: false }
}

/// One turn for each filled slot of `rolls`, in the order of the slots.
pub open spec fn turns_of_rolls(name: Seq<char>, rolls: Seq<Option<u8>>) -> Seq<CombatTurnView>
    decreases rolls.len(),
{
    if rolls.len() == 0 {
        Seq::empty()
    } else {
        let earlier = turns_of_rolls(name, rolls.drop_last());
        match rolls.last() {
            Some(roll) => earlier.push(fresh_turn(name, roll)),
            None => earlier,
        }
    }
}

/// The turns of one participant.
pub open spec fn turns_of(participant: ParticipantView) -> Seq<CombatTurnView> {
    turns_of_rolls(participant.name, participant.initiative_rolls)
}

/// The turns of all participants, in the order in which they were entered.
pub open spec fn all_turns(participants: Seq<ParticipantView>) -> Seq<CombatTurnView>
    decreases participants.len(),
{
    if participants.len() == 0 {
        Seq::empty()
    } else {
        all_turns(participants.drop_last()) + turns_of(participants.last())
    }
}

/// Whether a slot holds a roll.
pub open spec fn is_filled() -> spec_fn(Option<u8>) -> bool {
    |slot: Option<u8>| slot is Some
}

/// How many slots of `rolls` hold a roll.
pub open spec fn filled_slots(rolls: Seq<Option<u8>>) -> nat {
    rolls.filter(is_filled()).len()
}

/// How many slots hold a roll, over all participants.
pub open spec fn total_filled_slots(participants: Seq<ParticipantView>) -> nat
    decreases participants.len(),
{
    if participants.len() == 0 {
        0
    } else {
        total_filled_slots(participants.drop_last()) + filled_slots(
            participants.last().initiative_rolls,
        )
    }
}

/// No turn acts before one with a higher roll.
pub open spec fn sorted_descending(turns: Seq<CombatTurnView>) -> bool {
    forall|i: int, j: int|
        0 <= i <= j < turns.len() ==> turns[i].initiative_roll_value
            >= turns[j].initiative_roll_value
}

/// Whether a turn was rolled as `roll`.
pub open spec fn has_roll(roll: int) -> spec_fn(CombatTurnView) -> bool {
    |turn: CombatTurnView| turn.initiative_roll_value == roll
}

/// Whether a turn was rolled as `lowest` or higher.
pub open spec fn has_at_least(lowest: int) -> spec_fn(CombatTurnView) -> bool {
    |turn: CombatTurnView| turn.initiative_roll_value >= lowest
}

/// The turns of `turns` that were rolled as `roll`, in the order in which
/// they stand there.
pub open spec fn with_roll(turns: Seq<CombatTurnView>, roll: int) -> Seq<CombatTurnView> {
    turns.filter(has_roll(roll))
}

/// The turns of `turns` that were rolled as `lowest` or higher, in the order
/// in which they stand there.
pub open spec fn rolled_at_least(turns: Seq<CombatTurnView>, lowest: int) -> Seq<CombatTurnView> {
    turns.filter(has_at_least(lowest))
}

/// For every roll, `a` and `b` hold the same turns of that roll in the same
/// order: one is the other with ties left as they were.
pub open spec fn same_ties(a: Seq<CombatTurnView>, b: Seq<CombatTurnView>) -> bool {
    forall|roll: int| #[trigger] with_roll(a, roll) == with_roll(b, roll)
}

/// The turns of `turns` that were rolled as `lowest` or higher, in the order
/// in which they act: the highest roll first, and the turns of one roll in
/// the order in which they stand in `turns`.
pub open spec fn ordered_from(turns: Seq<CombatTurnView>, lowest: int) -> Seq<CombatTurnView>
    decreases 256 - lowest,
{
    if lowest >= 256 {
        Seq::empty()
    } else {
        ordered_from(turns, lowest + 1) + with_roll(turns, lowest)
    }
}

/// The order in which `turns` act.
pub open spec fn ordered_turns(turns: Seq<CombatTurnView>) -> Seq<CombatTurnView> {
    ordered_from(turns, 0)
}

/// A participant gives as many turns as it has filled slots.
pub proof fn lemma_turns_of_rolls_len(name: Seq<char>, rolls: Seq<Option<u8>>)
    ensures
        turns_of_rolls(name, rolls).len() == filled_slots(rolls),
    decreases rolls.len(),
{
    reveal(Seq::filter);
    if rolls.len() > 0 {
        lemma_turns_of_rolls_len(name, rolls.drop_last());
    }
}

/// The participants give as many turns as they have filled slots together.
pub proof fn lemma_all_turns_len(participants: Seq<ParticipantView>)
    ensures
        all_turns(participants).len() == total_filled_slots(participants),
    decreases participants.len(),
{
    if participants.len() > 0 {
        lemma_all_turns_len(participants.drop_last());
        lemma_turns_of_rolls_len(participants.last().name, participants.last().initiative_rolls);
    }
}

/// A participant whose slots are all empty gives no turn.
pub proof fn lemma_no_rolls_no_turns(name: Seq<char>, rolls: Seq<Option<u8>>)
    requires
        forall|i: int| 0 <= i < rolls.len() ==> rolls[i] is None,
    ensures
        turns_of_rolls(name, rolls) == Seq::<CombatTurnView>::empty(),
    decreases rolls.len(),
{
    if rolls.len() > 0 {
        lemma_no_rolls_no_turns(name, rolls.drop_last());
    }
}

/// The turns of two lists of participants, one entered after the other, are
/// the turns of the first followed by the turns of the second.
pub proof fn lemma_all_turns_concat(first: Seq<ParticipantView>, second: Seq<ParticipantView>)
    ensures
        all_turns(first + second) == all_turns(first) + all_turns(second),
    decreases second.len(),
{
    if second.len() == 0 {
        assert(first + second =~= first);
        assert(all_turns(first) + all_turns(second) =~= all_turns(first));
    } else {
        lemma_all_turns_concat(first, second.drop_last());
        assert((first + second).drop_last() =~= first + second.drop_last());
        assert((first + second).last() == second.last());
        assert(all_turns(first + second) =~= all_turns(first) + all_turns(second));
    }
}

/// A participant whose slots are all empty is dropped without trace: the
/// turns are those of the list without that participant.
pub proof fn lemma_unrolled_participant_is_dropped(participants: Seq<ParticipantView>, at: int)
    requires
        0 <= at < participants.len(),
        forall|i: int|
            0 <= i < participants[at].initiative_rolls.len()
                ==> participants[at].initiative_rolls[i] is None,
    ensures
        all_turns(participants) == all_turns(participants.remove(at)),
{
    let before = participants.take(at);
    let after = participants.skip(at + 1);
    let with_it = before.push(participants[at]);
    assert(participants =~= with_it + after);
    assert(participants.remove(at) =~= before + after);
    lemma_all_turns_concat(with_it, after);
    lemma_all_turns_concat(before, after);
    lemma_no_rolls_no_turns(participants[at].name, participants[at].initiative_rolls);
    assert(with_it.drop_last() =~= before);
    assert(all_turns(with_it) =~= all_turns(before));
}

/// Adding a turn at the end adds it to the turns of its roll and to no
/// others.
proof fn lemma_with_roll_push(turns: Seq<CombatTurnView>, turn: CombatTurnView, roll: int)
    ensures
        with_roll(turns.push(turn), roll) == if turn.initiative_roll_value == roll {
            with_roll(turns, roll).push(turn)
        } else {
            with_roll(turns, roll)
        },
{
    reveal(Seq::filter);
    assert(turns.push(turn).drop_last() =~= turns);
}

/// Where no turn has the roll, there are no turns of that roll.
proof fn lemma_with_roll_absent(turns: Seq<CombatTurnView>, roll: int)
    requires
        forall|i: int| 0 <= i < turns.len() ==> turns[i].initiative_roll_value != roll,
    ensures
        with_roll(turns, roll) == Seq::<CombatTurnView>::empty(),
    decreases turns.len(),
{
    reveal(Seq::filter);
    if turns.len() > 0 {
        lemma_with_roll_absent(turns.drop_last(), roll);
    }
}

/// Where every turn has the roll, the turns of that roll are all of them.
proof fn lemma_with_roll_all(turns: Seq<CombatTurnView>, roll: int)
    requires
        forall|i: int| 0 <= i < turns.len() ==> turns[i].initiative_roll_value == roll,
    ensures
        with_roll(turns, roll) == turns,
    decreases turns.len(),
{
    reveal(Seq::filter);
    if turns.len() > 0 {
        lemma_with_roll_all(turns.drop_last(), roll);
        assert(turns.drop_last().push(turns.last()) =~= turns);
    }
}

/// The turns of a roll all have that roll.
proof fn lemma_with_roll_members(turns: Seq<CombatTurnView>, roll: int)
    ensures
        forall|i: int|
            0 <= i < with_roll(turns, roll).len() ==> (#[trigger] with_roll(
                turns,
                roll,
            )[i]).initiative_roll_value == roll,
    decreases turns.len(),
{
    reveal(Seq::filter);
    if turns.len() > 0 {
        lemma_with_roll_members(turns.drop_last(), roll);
    }
}

/// The turns of a roll among `a` followed by `b` are those among `a`
/// followed by those among `b`.
proof fn lemma_with_roll_concat(a: Seq<CombatTurnView>, b: Seq<CombatTurnView>, roll: int)
    ensures
        with_roll(a + b, roll) == with_roll(a, roll) + with_roll(b, roll),
{
    Seq::filter_distributes_over_add(a, b, has_roll(roll));
}

/// What `ordered_from` holds: turns of `lowest` or more only, no turn before
/// one with a higher roll.
proof fn lemma_ordered_from_sorted(turns: Seq<CombatTurnView>, lowest: int)
    requires
        0 <= lowest <= 256,
    ensures
        sorted_descending(ordered_from(turns, lowest)),
        forall|i: int|
            0 <= i < ordered_from(turns, lowest).len() ==> (#[trigger] ordered_from(
                turns,
                lowest,
            )[i]).initiative_roll_value >= lowest,
    decreases 256 - lowest,
{
    if lowest < 256 {
        lemma_ordered_from_sorted(turns, lowest + 1);
        lemma_with_roll_members(turns, lowest);
        let higher = ordered_from(turns, lowest + 1);
        let ties = with_roll(turns, lowest);
        let ordered = ordered_from(turns, lowest);
        assert(ordered == higher + ties);
        assert forall|i: int| 0 <= i < ordered.len() implies (#[trigger] ordered[i]).initiative_roll_value
            >= lowest by {
            if i < higher.len() {
                assert(ordered[i] == higher[i]);
            } else {
                assert(ordered[i] == ties[i - higher.len()]);
            }
        }
        assert forall|i: int, j: int| 0 <= i <= j < ordered.len() implies ordered[i].initiative_roll_value
            >= ordered[j].initiative_roll_value by {
            if j < higher.len() {
                assert(ordered[i] == higher[i]);
                assert(ordered[j] == higher[j]);
            } else if i < higher.len() {
                assert(ordered[i] == higher[i]);
                assert(ordered[j] == ties[j - higher.len()]);
            } else {
                assert(ordered[i] == ties[i - higher.len()]);
                assert(ordered[j] == ties[j - higher.len()]);
            }
        }
    }
}

/// Among the turns that `ordered_from` holds, those of one roll are the
/// turns of that roll in `turns`, in their order there.
proof fn lemma_ordered_from_ties(turns: Seq<CombatTurnView>, lowest: int, roll: int)
    requires
        0 <= lowest <= 256,
    ensures
        with_roll(ordered_from(turns, lowest), roll) == if lowest <= roll {
            with_roll(turns, roll)
        } else {
            Seq::<CombatTurnView>::empty()
        },
    decreases 256 - lowest,
{
    reveal(Seq::filter);
    if lowest < 256 {
        let higher = ordered_from(turns, lowest + 1);
        let ties = with_roll(turns, lowest);
        lemma_ordered_from_ties(turns, lowest + 1, roll);
        lemma_with_roll_concat(higher, ties, roll);
        lemma_with_roll_members(turns, lowest);
        if roll == lowest {
            lemma_with_roll_all(ties, roll);
        } else {
            lemma_with_roll_absent(ties, roll);
        }
        assert(with_roll(higher, roll) + with_roll(ties, roll) =~= if lowest <= roll {
            with_roll(turns, roll)
        } else {
            Seq::<CombatTurnView>::empty()
        });
    } else {
        if lowest <= roll {
            lemma_with_roll_absent(turns, roll);
        }
    }
}

/// Turns with the same ties act in the same order.
proof fn lemma_same_ties_same_order(
    a: Seq<CombatTurnView>,
    b: Seq<CombatTurnView>,
    lowest: int,
)
    requires
        same_ties(a, b),
    ensures
        ordered_from(a, lowest) == ordered_from(b, lowest),
    decreases 256 - lowest,
{
    if lowest < 256 {
        lemma_same_ties_same_order(a, b, lowest + 1);
        assert(with_roll(a, lowest) == with_roll(b, lowest));
    }
}

/// In turns that are sorted already, those of `lowest` or more are those of
/// more than `lowest` followed by those of `lowest`.
proof fn lemma_sorted_split(turns: Seq<CombatTurnView>, lowest: int)
    requires
        sorted_descending(turns),
    ensures
        rolled_at_least(turns, lowest) == rolled_at_least(turns, lowest + 1) + with_roll(
            turns,
            lowest,
        ),
    decreases turns.len(),
{
    reveal(Seq::filter);
    if turns.len() > 0 {
        let earlier = turns.drop_last();
        let last = turns.last();
        assert(sorted_descending(earlier));
        lemma_sorted_split(earlier, lowest);
        if last.initiative_roll_value > lowest {
            assert forall|i: int| 0 <= i < earlier.len() implies earlier[i].initiative_roll_value
                != lowest by {
                assert(earlier[i] == turns[i]);
            }
            lemma_with_roll_absent(earlier, lowest);
        }
        assert(rolled_at_least(turns, lowest) =~= rolled_at_least(turns, lowest + 1) + with_roll(
            turns,
            lowest,
        ));
    } else {
        assert(rolled_at_least(turns, lowest) =~= rolled_at_least(turns, lowest + 1) + with_roll(
            turns,
            lowest,
        ));
    }
}

/// Whatever the order of the turns, those of `lowest` or more are as many as
/// those of more than `lowest` and those of `lowest` together.
proof fn lemma_split_len(turns: Seq<CombatTurnView>, lowest: int)
    ensures
        rolled_at_least(turns, lowest).len() == rolled_at_least(turns, lowest + 1).len()
            + with_roll(turns, lowest).len(),
    decreases turns.len(),
{
    reveal(Seq::filter);
    if turns.len() > 0 {
        lemma_split_len(turns.drop_last(), lowest);
    }
}

/// Every turn was rolled as 0 or more, and none as 256 or more.
proof fn lemma_rolled_at_least_ends(turns: Seq<CombatTurnView>)
    ensures
        rolled_at_least(turns, 0) == turns,
        rolled_at_least(turns, 256) == Seq::<CombatTurnView>::empty(),
    decreases turns.len(),
{
    reveal(Seq::filter);
    if turns.len() > 0 {
        lemma_rolled_at_least_ends(turns.drop_last());
        assert(turns.drop_last().push(turns.last()) =~= turns);
    }
}

/// Sorted turns, from `lowest` up, act in the order in which they stand.
proof fn lemma_sorted_ordered_from(turns: Seq<CombatTurnView>, lowest: int)
    requires
        sorted_descending(turns),
        0 <= lowest <= 256,
    ensures
        ordered_from(turns, lowest) == rolled_at_least(turns, lowest),
    decreases 256 - lowest,
{
    if lowest < 256 {
        lemma_sorted_ordered_from(turns, lowest + 1);
        lemma_sorted_split(turns, lowest);
    } else {
        lemma_rolled_at_least_ends(turns);
    }
}

/// As many turns act from `lowest` up as were rolled that high.
proof fn lemma_ordered_from_len(turns: Seq<CombatTurnView>, lowest: int)
    requires
        0 <= lowest <= 256,
    ensures
        ordered_from(turns, lowest).len() == rolled_at_least(turns, lowest).len(),
    decreases 256 - lowest,
{
    if lowest < 256 {
        lemma_ordered_from_len(turns, lowest + 1);
        lemma_split_len(turns, lowest);
    } else {
        lemma_rolled_at_least_ends(turns);
    }
}

/// No turn is added and none is dropped: as many turns act as there are.
pub proof fn lemma_ordered_turns_len(turns: Seq<CombatTurnView>)
    ensures
        ordered_turns(turns).len() == turns.len(),
{
    lemma_ordered_from_len(turns, 0);
    lemma_rolled_at_least_ends(turns);
}

/// Without participants there are no turns.
pub proof fn lemma_no_participants_no_turns()
    ensures
        ordered_turns(all_turns(Seq::empty())) == Seq::<CombatTurnView>::empty(),
{
    lemma_ordered_turns_len(all_turns(Seq::empty()));
    assert(ordered_turns(all_turns(Seq::empty())) =~= Seq::<CombatTurnView>::empty());
}

/// The turns act from the highest roll down.
pub proof fn lemma_ordered_turns_sorted(turns: Seq<CombatTurnView>)
    ensures
        sorted_descending(ordered_turns(turns)),
{
    lemma_ordered_from_sorted(turns, 0);
}

/// The order is stable: the turns of one roll act in the order in which they
/// were entered.
pub proof fn lemma_ordered_turns_stable(turns: Seq<CombatTurnView>)
    ensures
        same_ties(ordered_turns(turns), turns),
{
    assert forall|roll: int| #[trigger]
        with_roll(ordered_turns(turns), roll) == with_roll(turns, roll) by {
        lemma_ordered_from_ties(turns, 0, roll);
        if roll < 0 {
            lemma_with_roll_absent(turns, roll);
        }
    }
}

/// Turns that are sorted already act in the order in which they stand.
pub proof fn lemma_sorted_is_ordered(turns: Seq<CombatTurnView>)
    requires
        sorted_descending(turns),
    ensures
        ordered_turns(turns) == turns,
{
    lemma_sorted_ordered_from(turns, 0);
    lemma_rolled_at_least_ends(turns);
}

/// There is one way only to sort turns from the highest roll down and leave
/// ties as they were: the order in which they act.
pub proof fn lemma_turn_order_unique(ordered: Seq<CombatTurnView>, turns: Seq<CombatTurnView>)
    requires
        sorted_descending(ordered),
        same_ties(ordered, turns),
    ensures
        ordered == ordered_turns(turns),
{
    lemma_sorted_is_ordered(ordered);
    lemma_same_ties_same_order(ordered, turns, 0);
}

/// Putting a turn into sorted turns behind every turn of its roll or more,
/// and before every turn of less, keeps them sorted and has the same ties as
/// adding the turn at the end of what was entered.
pub proof fn lemma_insert_turn(
    sorted: Seq<CombatTurnView>,
    entered: Seq<CombatTurnView>,
    at: int,
    turn: CombatTurnView,
)
    requires
        sorted_descending(sorted),
        same_ties(sorted, entered),
        0 <= at <= sorted.len(),
        forall|i: int| 0 <= i < at ==> sorted[i].initiative_roll_value >= turn.initiative_roll_value,
        forall|i: int|
            at <= i < sorted.len() ==> sorted[i].initiative_roll_value < turn.initiative_roll_value,
    ensures
        sorted_descending(sorted.insert(at, turn)),
        same_ties(sorted.insert(at, turn), entered.push(turn)),
{
    let before = sorted.take(at);
    let after = sorted.skip(at);
    let grown = sorted.insert(at, turn);
    assert(sorted =~= before + after);
    assert(grown =~= before.push(turn) + after);
    assert forall|roll: int| #[trigger] with_roll(grown, roll) == with_roll(entered.push(turn), roll) by {
        lemma_with_roll_concat(before, after, roll);
        lemma_with_roll_concat(before.push(turn), after, roll);
        lemma_with_roll_push(before, turn, roll);
        lemma_with_roll_push(entered, turn, roll);
        assert(with_roll(sorted, roll) == with_roll(entered, roll));
        if turn.initiative_roll_value == roll {
            lemma_with_roll_absent(after, roll);
            assert(with_roll(before, roll).push(turn) + Seq::<CombatTurnView>::empty()
                =~= (with_roll(before, roll) + Seq::<CombatTurnView>::empty()).push(turn));
        }
    }
}

} // verus!

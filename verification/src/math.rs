//! A player's stats under a series of skills, applied one after another.
use vstd::prelude::*;

use crate::component::{Block, Damage, Heal, Health, MaxHealth};
use crate::eval::fits_i32;

verus! {

/// The total block of a series of defensive skills.
pub open spec fn block_sum(skills: Seq<Block>) -> int
    decreases skills.len(),
{
    if skills.len() == 0 {
        0
    } else {
        block_sum(skills.drop_last()) + skills.last().0
    }
}

/// Adds the block of each defensive skill to the player's block.
pub fn calc_block(player_block: &mut Block, skills: &Vec<Block>)
    requires
        forall|i: int| 0 <= i <= skills@.len() ==> fits_i32(old(player_block).0 + #[trigger] block_sum(skills@.take(i))),
    ensures
        final(player_block).0 == old(player_block).0 + block_sum(skills@),
{
    let ghost start = player_block.0;
    let mut i: usize = 0;
    assert(skills@.take(0) =~= Seq::<Block>::empty());
    while i < skills.len()
        invariant
            i <= skills@.len(),
            player_block.0 == start + block_sum(skills@.take(i as int)),
            forall|j: int| 0 <= j <= skills@.len() ==> fits_i32(start + #[trigger] block_sum(skills@.take(j))),
        decreases skills@.len() - i,
    {
        assert(skills@.take(i + 1).drop_last() =~= skills@.take(i as int));
        assert(fits_i32(start + block_sum(skills@.take(i + 1))));
        player_block.0 = player_block.0 + skills[i].0;
        i = i + 1;
    }
    assert(skills@.take(i as int) =~= skills@);
}

/// One offensive skill as this calculation applies it: health loses the
/// damage minus the block (and gains if block exceeds damage), and block drops
/// to zero when damage exceeds it, or by the damage otherwise.
pub open spec fn hit(health: int, block: int, damage: int) -> (int, int) {
    (health - (damage - block), if damage > block {
        0
    } else {
        block - damage
    })
}

/// Health and block after a series of offensive skills.
pub open spec fn hits(health: int, block: int, skills: Seq<Damage>) -> (int, int)
    decreases skills.len(),
{
    if skills.len() == 0 {
        (health, block)
    } else {
        let before = hits(health, block, skills.drop_last());
        hit(before.0, before.1, skills.last().0 as int)
    }
}

/// Every step of the series stays in the `i32` range.
pub open spec fn hits_fit(health: int, block: int, skills: Seq<Damage>) -> bool
    decreases skills.len(),
{
    if skills.len() == 0 {
        true
    } else {
        let before = hits(health, block, skills.drop_last());
        let d = skills.last().0 as int;
        &&& hits_fit(health, block, skills.drop_last())
        &&& fits_i32(d - before.1)
        &&& fits_i32(before.0 - (d - before.1))
        &&& fits_i32(before.1 - d)
    }
}

proof fn lemma_hits_fit_prefix(health: int, block: int, skills: Seq<Damage>, i: int)
    requires
        hits_fit(health, block, skills),
        0 <= i <= skills.len(),
    ensures
        hits_fit(health, block, skills.take(i)),
    decreases skills.len(),
{
    if i < skills.len() {
        assert(skills.drop_last().take(i) =~= skills.take(i));
        lemma_hits_fit_prefix(health, block, skills.drop_last(), i);
    } else {
        assert(skills.take(i) =~= skills);
    }
}

/// Applies each offensive skill to the player's health and block.
pub fn calc_damage(player_block: &mut Block, player_health: &mut Health, skills: &Vec<Damage>)
    requires
        hits_fit(old(player_health).0 as int, old(player_block).0 as int, skills@),
    ensures
        (final(player_health).0 as int, final(player_block).0 as int) == hits(
            old(player_health).0 as int,
            old(player_block).0 as int,
            skills@,
        ),
{
    let ghost h0 = player_health.0 as int;
    let ghost b0 = player_block.0 as int;
    let mut i: usize = 0;
    assert(skills@.take(0) =~= Seq::<Damage>::empty());
    while i < skills.len()
        invariant
            i <= skills@.len(),
            hits_fit(h0, b0, skills@),
            (player_health.0 as int, player_block.0 as int) == hits(h0, b0, skills@.take(i as int)),
        decreases skills@.len() - i,
    {
        proof {
            lemma_hits_fit_prefix(h0, b0, skills@, i + 1);
            assert(skills@.take(i + 1).drop_last() =~= skills@.take(i as int));
        }
        let damage = skills[i].0;
        player_health.0 = player_health.0 - (damage - player_block.0);
        if damage > player_block.0 {
            player_block.0 = 0;
        } else {
            player_block.0 = player_block.0 - damage;
        }
        i = i + 1;
    }
    assert(skills@.take(i as int) =~= skills@);
}

/// One healing skill: a living player (above 0 health) is healed, up to its
/// maximal health; a player at 0 health or below cannot be healed.
pub open spec fn heal_step(health: int, max_health: int, heal: int) -> int {
    if health > 0 {
        if health + heal > max_health {
            max_health
        } else {
            health + heal
        }
    } else {
        health
    }
}

/// Health after a series of healing skills.
pub open spec fn heals(health: int, max_health: int, skills: Seq<Heal>) -> int
    decreases skills.len(),
{
    if skills.len() == 0 {
        health
    } else {
        heal_step(heals(health, max_health, skills.drop_last()), max_health, skills.last().0 as int)
    }
}

/// Every sum of health and heal that the series computes fits in an `i32`.
pub open spec fn heals_fit(health: int, max_health: int, skills: Seq<Heal>) -> bool
    decreases skills.len(),
{
    if skills.len() == 0 {
        true
    } else {
        let before = heals(health, max_health, skills.drop_last());
        &&& heals_fit(health, max_health, skills.drop_last())
        &&& (before > 0 ==> fits_i32(before + skills.last().0))
    }
}

proof fn lemma_heals_fit_prefix(health: int, max_health: int, skills: Seq<Heal>, i: int)
    requires
        heals_fit(health, max_health, skills),
        0 <= i <= skills.len(),
    ensures
        heals_fit(health, max_health, skills.take(i)),
    decreases skills.len(),
{
    if i < skills.len() {
        assert(skills.drop_last().take(i) =~= skills.take(i));
        lemma_heals_fit_prefix(health, max_health, skills.drop_last(), i);
    } else {
        assert(skills.take(i) =~= skills);
    }
}

/// Applies each healing skill to the player's health.
pub fn calc_heal(player_health: &mut Health, player_max_health: &MaxHealth, skills: &Vec<Heal>)
    requires
        heals_fit(old(player_health).0 as int, player_max_health.0 as int, skills@),
    ensures
        final(player_health).0 == heals(old(player_health).0 as int, player_max_health.0 as int, skills@),
{
    let ghost h0 = player_health.0 as int;
    let max = player_max_health.0;
    let mut i: usize = 0;
    assert(skills@.take(0) =~= Seq::<Heal>::empty());
    while i < skills.len()
        invariant
            i <= skills@.len(),
            max == player_max_health.0,
            heals_fit(h0, max as int, skills@),
            player_health.0 == heals(h0, max as int, skills@.take(i as int)),
        decreases skills@.len() - i,
    {
        proof {
            lemma_heals_fit_prefix(h0, max as int, skills@, i + 1);
            assert(skills@.take(i + 1).drop_last() =~= skills@.take(i as int));
        }
        let heal = skills[i].0;
        if player_health.0 > 0 {
            player_health.0 = if player_health.0 + heal > max {
                max
            } else {
                player_health.0 + heal
            };
        }
        i = i + 1;
    }
    assert(skills@.take(i as int) =~= skills@);
}

/// Healing never lifts a player above its maximal health, and never changes
/// a player at 0 health or below. A living player gains the whole heal when
/// it fits under the maximum, and is set to the maximum otherwise.
pub proof fn lemma_heal_capped(health: int, max_health: int, heal: int)
    ensures
        health <= max_health ==> heal_step(health, max_health, heal) <= max_health,
        health <= 0 ==> heal_step(health, max_health, heal) == health,
        health > 0 && health + heal <= max_health ==> heal_step(health, max_health, heal) == health
            + heal,
        health > 0 && health + heal > max_health ==> heal_step(health, max_health, heal)
            == max_health,
{
}

/// One offensive skill: health changes by the block minus the damage; the
/// block is used up when the damage exceeds it, and otherwise loses the
/// damage.
pub proof fn lemma_hit(health: int, block: int, damage: int)
    ensures
        hit(health, block, damage).0 == health + block - damage,
        damage > block ==> hit(health, block, damage).1 == 0,
        damage <= block ==> hit(health, block, damage).1 == block - damage,
{
}

/// The block of a series is the block of its first part plus the block of
/// the rest; a single skill gives its own block, no skill none.
pub proof fn lemma_block_sum_split(a: Seq<Block>, b: Seq<Block>)
    ensures
        block_sum(a + b) == block_sum(a) + block_sum(b),
        block_sum(Seq::<Block>::empty()) == 0,
        a.len() == 1 ==> block_sum(a) == a[0].0,
    decreases b.len(),
{
    if b.len() > 0 {
        assert((a + b).drop_last() =~= a + b.drop_last());
        lemma_block_sum_split(a, b.drop_last());
    } else {
        assert(a + b =~= a);
    }
    if a.len() == 1 {
        assert(a.drop_last() =~= Seq::<Block>::empty());
    }
}

/// Offensive skills apply one after another: a series applied in two parts,
/// the second to what the first left, ends where the whole series does; a
/// single skill is one hit.
pub proof fn lemma_hits_split(health: int, block: int, a: Seq<Damage>, b: Seq<Damage>)
    ensures
        ({
            let mid = hits(health, block, a);
            hits(health, block, a + b) == hits(mid.0, mid.1, b)
        }),
        a.len() == 1 ==> hits(health, block, a) == hit(health, block, a[0].0 as int),
    decreases b.len(),
{
    if b.len() > 0 {
        assert((a + b).drop_last() =~= a + b.drop_last());
        assert((a + b).last() == b.last());
        lemma_hits_split(health, block, a, b.drop_last());
    } else {
        assert(a + b =~= a);
    }
    if a.len() == 1 {
        assert(a.drop_last() =~= Seq::<Damage>::empty());
        assert(hits(health, block, a.drop_last()) == (health, block));
        assert(a.last() == a[0]);
    }
}

/// Healing skills apply one after another: a series applied in two parts,
/// the second to what the first left, ends where the whole series does; a
/// single skill is one healing step.
pub proof fn lemma_heals_split(health: int, max_health: int, a: Seq<Heal>, b: Seq<Heal>)
    ensures
        heals(health, max_health, a + b) == heals(heals(health, max_health, a), max_health, b),
        a.len() == 1 ==> heals(health, max_health, a) == heal_step(health, max_health, a[0].0 as int),
    decreases b.len(),
{
    if b.len() > 0 {
        assert((a + b).drop_last() =~= a + b.drop_last());
        assert((a + b).last() == b.last());
        lemma_heals_split(health, max_health, a, b.drop_last());
    } else {
        assert(a + b =~= a);
    }
    if a.len() == 1 {
        assert(a.drop_last() =~= Seq::<Heal>::empty());
        assert(heals(health, max_health, a.drop_last()) == health);
        assert(a.last() == a[0]);
    }
}

} // verus!

//! Skill progression: experience accumulation and leveling arithmetic.
//!
//! The threshold for the next level is the exact value of
//! `level * 100 * (6/5) ^ level`, rounded down. Beyond the highest level
//! whose threshold the machine can evaluate exactly, the threshold
//! saturates, so leveling stops there.

use vstd::prelude::*;
use crate::errors::GameError;
use crate::ids::{GameTime, Identity};
use crate::state::{has_player, has_skill, skill_match, PlayerSkill, WorldState};

verus! {

/// Integer exponentiation.
pub open spec fn pow_int(b: int, e: nat) -> int
    decreases e,
{
    if e == 0 {
        1
    } else {
        b * pow_int(b, (e - 1) as nat)
    }
}

/// The highest level whose experience threshold is evaluated exactly;
/// thresholds beyond it saturate.
pub const MAX_EXACT_SKILL_LEVEL: u32 = 44;

/// The exact experience threshold as a mathematical value:
/// `floor(level * 100 * 6^level / 5^level)`.
pub open spec fn required_exp_exact(level: int) -> int {
    (level * 100 * pow_int(6, level as nat)) / pow_int(5, level as nat)
}

/// The experience required to advance past a level. Exact up to
/// `MAX_EXACT_SKILL_LEVEL`; saturated beyond it, which stops leveling
/// there.
pub open spec fn required_experience_spec(level: u32) -> u64 {
    if level <= MAX_EXACT_SKILL_LEVEL && required_exp_exact(level as int) <= u64::MAX {
        required_exp_exact(level as int) as u64
    } else {
        u64::MAX
    }
}

/// A power of six is positive and grows with its exponent.
proof fn lemma_pow6_mono(a: nat, b: nat)
    requires
        a <= b,
    ensures
        1 <= pow_int(6, a) <= pow_int(6, b),
    decreases b,
{
    if b == 0 {
    } else if a == b {
        lemma_pow6_mono((b - 1) as nat, (b - 1) as nat);
        assert(pow_int(6, b) == 6 * pow_int(6, (b - 1) as nat));
    } else {
        lemma_pow6_mono(a, (b - 1) as nat);
        assert(pow_int(6, b) == 6 * pow_int(6, (b - 1) as nat));
    }
}

/// A power of five is positive and at most the same power of six.
proof fn lemma_pow5_le_pow6(e: nat)
    ensures
        1 <= pow_int(5, e) <= pow_int(6, e),
    decreases e,
{
    if e > 0 {
        lemma_pow5_le_pow6((e - 1) as nat);
        let p5 = pow_int(5, (e - 1) as nat);
        let p6 = pow_int(6, (e - 1) as nat);
        assert(5 * p5 <= 6 * p6) by (nonlinear_arith)
            requires 1 <= p5, p5 <= p6,
        {}
    }
}

/// The numeric value of the largest exactly-evaluated power of six.
proof fn lemma_pow6_44()
    ensures
        pow_int(6, 44) == 17324272922341479351919144385642496,
{
    assert(pow_int(6, 0) == 1);
    assert(pow_int(6, 1) == 6);
    assert(pow_int(6, 2) == 36);
    assert(pow_int(6, 3) == 216);
    assert(pow_int(6, 4) == 1296);
    assert(pow_int(6, 5) == 7776);
    assert(pow_int(6, 6) == 46656);
    assert(pow_int(6, 7) == 279936);
    assert(pow_int(6, 8) == 1679616);
    assert(pow_int(6, 9) == 10077696);
    assert(pow_int(6, 10) == 60466176);
    assert(pow_int(6, 11) == 362797056);
    assert(pow_int(6, 12) == 2176782336);
    assert(pow_int(6, 13) == 13060694016);
    assert(pow_int(6, 14) == 78364164096);
    assert(pow_int(6, 15) == 470184984576);
    assert(pow_int(6, 16) == 2821109907456);
    assert(pow_int(6, 17) == 16926659444736);
    assert(pow_int(6, 18) == 101559956668416);
    assert(pow_int(6, 19) == 609359740010496);
    assert(pow_int(6, 20) == 3656158440062976);
    assert(pow_int(6, 21) == 21936950640377856);
    assert(pow_int(6, 22) == 131621703842267136);
    assert(pow_int(6, 23) == 789730223053602816);
    assert(pow_int(6, 24) == 4738381338321616896);
    assert(pow_int(6, 25) == 28430288029929701376);
    assert(pow_int(6, 26) == 170581728179578208256);
    assert(pow_int(6, 27) == 1023490369077469249536);
    assert(pow_int(6, 28) == 6140942214464815497216);
    assert(pow_int(6, 29) == 36845653286788892983296);
    assert(pow_int(6, 30) == 221073919720733357899776);
    assert(pow_int(6, 31) == 1326443518324400147398656);
    assert(pow_int(6, 32) == 7958661109946400884391936);
    assert(pow_int(6, 33) == 47751966659678405306351616);
    assert(pow_int(6, 34) == 286511799958070431838109696);
    assert(pow_int(6, 35) == 1719070799748422591028658176);
    assert(pow_int(6, 36) == 10314424798490535546171949056);
    assert(pow_int(6, 37) == 61886548790943213277031694336);
    assert(pow_int(6, 38) == 371319292745659279662190166016);
    assert(pow_int(6, 39) == 2227915756473955677973140996096);
    assert(pow_int(6, 40) == 13367494538843734067838845976576);
    assert(pow_int(6, 41) == 80204967233062404407033075859456);
    assert(pow_int(6, 42) == 481229803398374426442198455156736);
    assert(pow_int(6, 43) == 2887378820390246558653190730940416);
    assert(pow_int(6, 44) == 17324272922341479351919144385642496);
}

/// Computes the experience required to advance past a level: the exact
/// value of `floor(level * 100 * (6/5) ^ level)`, saturated beyond the
/// highest exactly-evaluated level.
pub fn calculate_required_experience(level: u32) -> (r: u64)
    ensures
        r == required_experience_spec(level),
{
    if level > MAX_EXACT_SKILL_LEVEL {
        return u64::MAX;
    }
    proof {
        lemma_pow6_44();
    }
    let mut p6: u128 = 1;
    let mut p5: u128 = 1;
    let mut i: u32 = 0;
    while i < level
        invariant
            0 <= i <= level <= 44,
            p6 == pow_int(6, i as nat),
            p5 == pow_int(5, i as nat),
            pow_int(6, 44) == 17324272922341479351919144385642496,
        decreases level - i,
    {
        proof {
            lemma_pow6_mono((i + 1) as nat, 44);
            lemma_pow5_le_pow6((i + 1) as nat);
            assert(pow_int(6, (i + 1) as nat) == 6 * pow_int(6, i as nat));
            assert(pow_int(5, (i + 1) as nat) == 5 * pow_int(5, i as nat));
        }
        p6 = p6 * 6;
        p5 = p5 * 5;
        i = i + 1;
    }
    proof {
        lemma_pow6_mono(level as nat, 44);
        lemma_pow5_le_pow6(level as nat);
        assert(level * 100 * p6 <= 4400 * 17324272922341479351919144385642496) by (nonlinear_arith)
            requires level <= 44, 0 <= p6 <= 17324272922341479351919144385642496int,
        {}
    }
    let num: u128 = (level as u128) * 100 * p6;
    let v: u128 = num / p5;
    proof {
        assert(v == required_exp_exact(level as int));
    }
    if v > u64::MAX as u128 {
        u64::MAX
    } else {
        v as u64
    }
}

/// What one experience gain does to a skill record: the amount is added
/// with saturation; when the total reaches the level's threshold, the
/// level rises by one and the threshold is deducted, once per gain; the
/// update timestamp is refreshed.
pub open spec fn gained_skill(sk: PlayerSkill, amount: u64, now: GameTime) -> PlayerSkill {
    let exp = if sk.experience + amount <= u64::MAX {
        (sk.experience + amount) as u64
    } else {
        u64::MAX
    };
    let req = required_experience_spec(sk.skill_level);
    if exp >= req && sk.skill_level < u32::MAX {
        PlayerSkill {
            skill_level: (sk.skill_level + 1) as u32,
            experience: (exp - req) as u64,
            last_updated: now,
            ..sk
        }
    } else {
        PlayerSkill { experience: exp, last_updated: now, ..sk }
    }
}

/// Grants skill experience to the caller. A first gain creates the skill
/// record at level one holding the gained amount; a later gain adds the
/// amount and advances the level once if the total reaches the level's
/// threshold, carrying the excess over.
pub fn gain_skill_experience(
    state: &mut WorldState,
    caller: &Identity,
    skill_name: String,
    experience_gained: u64,
    now: GameTime,
) -> (r: Result<(), GameError>)
    requires
        old(state).wf(),
    ensures
        final(state).wf(),
        match r {
            Ok(_) => has_player(old(state).players@, *caller) && {
                ||| exists|si: int|
                    {
                        &&& 0 <= si < old(state).skills@.len()
                        &&& skill_match(#[trigger] old(state).skills@[si], *caller, skill_name@)
                        &&& final(state).skills@ =~= old(state).skills@.update(
                            si,
                            gained_skill(old(state).skills@[si], experience_gained, now),
                        )
                        &&& final(state).next_id == old(state).next_id
                    }
                ||| {
                    &&& !has_skill(old(state).skills@, *caller, skill_name@)
                    &&& old(state).next_id < u64::MAX
                    &&& final(state).skills@.len() == old(state).skills@.len() + 1
                    &&& final(state).skills@.drop_last() == old(state).skills@
                    &&& {
                        let sk = final(state).skills@.last();
                        &&& sk.skill_id == old(state).next_id
                        &&& sk.player_identity == *caller
                        &&& sk.skill_name@ == skill_name@
                        &&& sk.skill_level == 1
                        &&& sk.experience == experience_gained
                        &&& sk.last_updated == now
                    }
                    &&& final(state).next_id == old(state).next_id + 1
                }
            } && final(state).users@ == old(state).users@ && final(state).sessions@
                == old(state).sessions@ && final(state).players@ == old(state).players@
                && final(state).npcs@ == old(state).npcs@ && final(state).items@
                == old(state).items@ && final(state).inventory@ == old(state).inventory@
                && final(state).messages@ == old(state).messages@,
            Err(GameError::NotFound) => !has_player(old(state).players@, *caller) && *final(state)
                == *old(state),
            Err(GameError::Capacity) => has_player(old(state).players@, *caller) && !has_skill(
                old(state).skills@,
                *caller,
                skill_name@,
            ) && old(state).next_id == u64::MAX && *final(state) == *old(state),
            Err(_) => false,
        },
{
    if state.find_player_index(caller).is_none() {
        return Err(GameError::NotFound);
    }
    match state.find_skill_index(caller, skill_name.as_str()) {
        Some(si) => {
            let mut row = state.skills.remove(si);
            let exp: u64 = if experience_gained > u64::MAX - row.experience {
                u64::MAX
            } else {
                row.experience + experience_gained
            };
            let req = calculate_required_experience(row.skill_level);
            if exp >= req && row.skill_level < u32::MAX {
                row.skill_level = row.skill_level + 1;
                row.experience = exp - req;
            } else {
                row.experience = exp;
            }
            row.last_updated = now;
            proof {
                assert(row == gained_skill(old(state).skills@[si as int], experience_gained, now));
            }
            state.skills.insert(si, row);
            proof {
                assert(state.skills@ =~= old(state).skills@.update(
                    si as int,
                    gained_skill(old(state).skills@[si as int], experience_gained, now),
                ));
            }
            Ok(())
        },
        None => {
            if state.next_id == u64::MAX {
                return Err(GameError::Capacity);
            }
            let skill_id = state.next_id;
            state.next_id = state.next_id + 1;
            let row = PlayerSkill {
                skill_id,
                player_identity: *caller,
                skill_name,
                skill_level: 1,
                experience: experience_gained,
                last_updated: now,
            };
            state.skills.push(row);
            proof {
                assert(state.skills@.drop_last() =~= old(state).skills@);
            }
            Ok(())
        },
    }
}


} // verus!

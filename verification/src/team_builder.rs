//! The composition generator: draws a valid five-role multiset for a
//! starting game.

use crate::draws::draw_bool;
use crate::draws::draw_in_range;
use crate::roles::Role;
use vstd::prelude::*;

verus! {

/// How many slots of the composition carry the role.
pub open spec fn count_role(s: Seq<Role>, r: Role) -> nat
    decreases s.len(),
{
    if s.len() == 0 {
        0
    } else {
        count_role(s.drop_last(), r) + if s.last() == r {
            1nat
        } else {
            0nat
        }
    }
}

/// A valid composition: five slots, exactly one super hero, exactly one
/// droid, exactly one two-face, at most one impostor, at most one crook, and
/// one or two of the impostor/crook pair.
pub open spec fn valid_composition(s: Seq<Role>) -> bool {
    &&& s.len() == 5
    &&& count_role(s, Role::SuperHero) == 1
    &&& count_role(s, Role::Droid) == 1
    &&& count_role(s, Role::TwoFace) == 1
    &&& count_role(s, Role::Impostor) <= 1
    &&& count_role(s, Role::Crook) <= 1
    &&& 1 <= count_role(s, Role::Impostor) + count_role(s, Role::Crook) <= 2
}

/// Evaluates the role counts of a five-slot composition slot by slot.
proof fn lemma_count_five(s: Seq<Role>, a: Role, b: Role, c: Role, d: Role, e: Role)
    requires
        s =~= seq![a, b, c, d, e],
    ensures
        forall|r: Role|
            #[trigger] count_role(s, r) == (if a == r {
                1nat
            } else {
                0nat
            }) + (if b == r {
                1nat
            } else {
                0nat
            }) + (if c == r {
                1nat
            } else {
                0nat
            }) + (if d == r {
                1nat
            } else {
                0nat
            }) + (if e == r {
                1nat
            } else {
                0nat
            }),
{
    assert forall|r: Role|
        #[trigger] count_role(s, r) == (if a == r {
            1nat
        } else {
            0nat
        }) + (if b == r {
            1nat
        } else {
            0nat
        }) + (if c == r {
            1nat
        } else {
            0nat
        }) + (if d == r {
            1nat
        } else {
            0nat
        }) + (if e == r {
            1nat
        } else {
            0nat
        }) by {
        let s5 = s;
        let s4 = seq![a, b, c, d];
        let s3 = seq![a, b, c];
        let s2 = seq![a, b];
        let s1 = seq![a];
        let s0 = Seq::<Role>::empty();
        assert(s5.drop_last() =~= s4);
        assert(s4.drop_last() =~= s3);
        assert(s3.drop_last() =~= s2);
        assert(s2.drop_last() =~= s1);
        assert(s1.drop_last() =~= s0);
        assert(count_role(s0, r) == 0);
        assert(count_role(s1, r) == count_role(s0, r) + if a == r {
            1nat
        } else {
            0nat
        });
        assert(count_role(s2, r) == count_role(s1, r) + if b == r {
            1nat
        } else {
            0nat
        });
        assert(count_role(s3, r) == count_role(s2, r) + if c == r {
            1nat
        } else {
            0nat
        });
        assert(count_role(s4, r) == count_role(s3, r) + if d == r {
            1nat
        } else {
            0nat
        });
        assert(count_role(s5, r) == count_role(s4, r) + if e == r {
            1nat
        } else {
            0nat
        });
    }
}

/// Draws a composition for a starting game: the seed `[SuperHero, Droid,
/// TwoFace]`, then the impostor, the crook, or both, by a uniform draw, then
/// enough of the pool `{Kamikaze, Romeo}`, without replacement, to reach five
/// slots. Every outcome is a valid composition.
pub fn generate_composition() -> (r: Vec<Role>)
    ensures
        valid_composition(r@),
{
    let mut roles: Vec<Role> = Vec::new();
    roles.push(Role::SuperHero);
    roles.push(Role::Droid);
    roles.push(Role::TwoFace);
    let alignment = draw_in_range(0, 2);
    if alignment == 0 {
        roles.push(Role::Impostor);
    } else if alignment == 1 {
        roles.push(Role::Crook);
    } else {
        roles.push(Role::Impostor);
        roles.push(Role::Crook);
        proof {
            assert(roles@ =~= seq![Role::SuperHero, Role::Droid, Role::TwoFace, Role::Impostor, Role::Crook]);
            lemma_count_five(roles@, Role::SuperHero, Role::Droid, Role::TwoFace, Role::Impostor, Role::Crook);
        }
        return roles;
    }
    let fourth = if alignment == 0 {
        Role::Impostor
    } else {
        Role::Crook
    };
    assert(roles@ =~= seq![Role::SuperHero, Role::Droid, Role::TwoFace, fourth]);
    if draw_bool() {
        roles.push(Role::Kamikaze);
        proof {
            assert(roles@ =~= seq![Role::SuperHero, Role::Droid, Role::TwoFace, fourth, Role::Kamikaze]);
            lemma_count_five(roles@, Role::SuperHero, Role::Droid, Role::TwoFace, fourth, Role::Kamikaze);
        }
    } else {
        roles.push(Role::Romeo);
        proof {
            assert(roles@ =~= seq![Role::SuperHero, Role::Droid, Role::TwoFace, fourth, Role::Romeo]);
            lemma_count_five(roles@, Role::SuperHero, Role::Droid, Role::TwoFace, fourth, Role::Romeo);
        }
    }
    roles
}

} // verus!

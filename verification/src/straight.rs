//! Straight detection: a payment of consecutive gem ranks, ascending,
//! with no gaps or repeats, entirely inside the `Two`..`Seven` range.

use vstd::prelude::*;

use crate::cards::face_next;
use crate::cards::face_rank;
use crate::cards::Face;

verus! {

/// The sequence of faces forms a straight: every face is followed by its
/// immediate successor rank. Empty and single-face sequences qualify.
pub open spec fn straight(s: Seq<Face>) -> bool {
    forall|i: int| 0 <= i < s.len() - 1 ==> face_next(s[i]) == Some(#[trigger] s[i + 1])
}

/// Whether an ascending sequence of faces is a straight. The caller is
/// expected to hand the faces over in sorted order; the detector does
/// not sort.
pub fn is_straight(faces: &Vec<Face>) -> (r: bool)
    ensures
        r == straight(faces@),
{
    let mut i: usize = 1;
    while i < faces.len()
        invariant
            1 <= i,
            forall|j: int| 0 <= j < i - 1 ==> face_next(faces@[j]) == Some(#[trigger] faces@[j + 1]),
        decreases faces.len() - i,
    {
        let matches_next = match faces[i - 1].next() {
            Some(f) => f == faces[i],
            None => false,
        };
        if !matches_next {
            proof {
                let vi = i as int;
                assert(face_next(faces@[vi - 1]) != Some(faces@[(vi - 1) + 1]));
            }
            return false;
        }
        i += 1;
    }
    true
}

/// Characterization of straights: a sequence of at most one face is
/// always a straight, and a longer sequence is a straight exactly when
/// each face sits in the gem range below `Seven` and the next face is
/// one rank higher. A repeated rank, a skipped rank, or any face from
/// `Seven` upward standing before another face therefore rules a
/// straight out.
pub proof fn lemma_straight_characterization(s: Seq<Face>)
    ensures
        s.len() <= 1 ==> straight(s),
        straight(s) <==> forall|i: int|
            0 <= i < s.len() - 1 ==> face_rank(#[trigger] s[i]) < 5 && face_rank(s[i + 1])
                == face_rank(s[i]) + 1,
{
    if straight(s) {
        assert forall|i: int| 0 <= i < s.len() - 1 implies face_rank(#[trigger] s[i]) < 5
            && face_rank(s[i + 1]) == face_rank(s[i]) + 1 by {
            assert(face_next(s[i]) == Some(s[i + 1]));
            lemma_face_next_rank(s[i], s[i + 1]);
        }
    }
    if forall|i: int|
        0 <= i < s.len() - 1 ==> face_rank(#[trigger] s[i]) < 5 && face_rank(s[i + 1])
            == face_rank(s[i]) + 1 {
        assert forall|i: int| 0 <= i < s.len() - 1 implies face_next(s[i]) == Some(
            #[trigger] s[i + 1],
        ) by {
            assert(face_rank(s[i]) < 5 && face_rank(s[i + 1]) == face_rank(s[i]) + 1);
            lemma_face_next_rank(s[i], s[i + 1]);
        }
    }
}

/// `face_next` steps exactly one rank up, and only below `Seven`.
proof fn lemma_face_next_rank(f: Face, g: Face)
    ensures
        (face_next(f) == Some(g)) == (face_rank(f) < 5 && face_rank(g) == face_rank(f) + 1),
{
    match f {
        Face::Two => assert(face_rank(g) == 1 ==> g == Face::Three),
        Face::Three => assert(face_rank(g) == 2 ==> g == Face::Four),
        Face::Four => assert(face_rank(g) == 3 ==> g == Face::Five),
        Face::Five => assert(face_rank(g) == 4 ==> g == Face::Six),
        Face::Six => assert(face_rank(g) == 5 ==> g == Face::Seven),
        _ => (),
    }
}

} // verus!

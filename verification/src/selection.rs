//! The gem-selection payment protocol: pick exactly `cost` untapped gems
//! of a required color, toggling freely, then cancel — leaving every gem
//! untouched — or confirm, which taps exactly the chosen gems and
//! classifies the payment as a straight or a plain payment.

use vstd::prelude::*;
use vstd::pervasive::VecAdditionalExecFns;

use crate::cards::card_color;
use crate::cards::Color;
use crate::cards::Face;
use crate::player::Gem;
use crate::straight::is_straight;
use crate::straight::straight;

verus! {

/// Result of one run of the selection protocol.
#[derive(Clone, Copy, Debug, PartialEq, Eq, Structural)]
pub enum PickedGems {
    /// The player cancelled; nothing was tapped.
    No,
    /// Payment made with a plain set of gems.
    Yes,
    /// Payment made with a straight of consecutive ranks.
    Straight,
}

/// One answer of the player inside the protocol loop.
#[derive(Clone, Copy, Debug, PartialEq, Eq, Structural)]
pub enum SelectionEvent {
    /// Abandon the payment.
    Cancel,
    /// Finish the payment; only offered when exactly `cost` gems are
    /// selected.
    Confirm,
    /// Flip the selected state of the n-th selectable gem (1-based).
    Toggle(usize),
}

/// A gem can take part in the selection: untapped and of the asked color.
pub open spec fn selectable(g: Gem, color: Color) -> bool {
    !g.tapped && card_color(g.card) == color
}

/// Number of selectable slots in a choice row.
pub open spec fn count_some(s: Seq<Option<bool>>) -> int
    decreases s.len(),
{
    if s.len() == 0 {
        0
    } else {
        count_some(s.drop_last()) + if s.last() is Some {
            1int
        } else {
            0int
        }
    }
}

/// Number of currently selected slots in a choice row.
pub open spec fn count_selected(s: Seq<Option<bool>>) -> int
    decreases s.len(),
{
    if s.len() == 0 {
        0
    } else {
        count_selected(s.drop_last()) + if s.last() == Some(true) {
            1int
        } else {
            0int
        }
    }
}

/// A toggled slot: selected becomes unselected and back; an
/// unselectable slot stays unselectable.
pub open spec fn flip(o: Option<bool>) -> Option<bool> {
    match o {
        Some(b) => Some(!b),
        None => None,
    }
}

/// `idx` is the slot of the n-th selectable entry (0-based among the
/// selectable subsequence): a selectable slot with exactly `n`
/// selectable slots before it.
pub open spec fn nth_selectable_ok(s: Seq<Option<bool>>, n: int, idx: int) -> bool {
    &&& 0 <= idx < s.len()
    &&& s[idx] is Some
    &&& count_some(s.take(idx)) == n
}

/// The new gem row is the old one with exactly the selected gems tapped
/// and every other gem untouched.
pub open spec fn taps_selected(
    choices: Seq<Option<bool>>,
    prev: Seq<Gem>,
    new: Seq<Gem>,
) -> bool {
    &&& new.len() == prev.len()
    &&& forall|i: int|
        0 <= i < prev.len() ==> #[trigger] new[i] == (if choices[i] == Some(true) {
            Gem { card: prev[i].card, tapped: true }
        } else {
            prev[i]
        })
}

/// The faces of the selected gems, in their order in the gem row.
pub open spec fn selected_faces(gems: Seq<Gem>, choices: Seq<Option<bool>>) -> Seq<Face>
    decreases gems.len(),
{
    if gems.len() == 0 || choices.len() != gems.len() {
        Seq::empty()
    } else if choices.last() == Some(true) {
        selected_faces(gems.drop_last(), choices.drop_last()).push(gems.last().card.face)
    } else {
        selected_faces(gems.drop_last(), choices.drop_last())
    }
}

/// In-progress selection of gems to pay a cost: a tri-state per gem slot
/// (unselectable, selectable-unselected, selectable-selected) plus
/// running counters.
#[derive(Debug)]
pub struct GemSelection {
    pub cost: u32,
    pub color: Color,
    pub choices: Vec<Option<bool>>,
    pub num_selected: usize,
    pub num_choices: usize,
}

impl GemSelection {
    /// The counters agree with the choice row.
    pub open spec fn counts_ok(self) -> bool {
        &&& self.num_choices as int == count_some(self.choices@)
        &&& self.num_selected as int == count_selected(self.choices@)
    }

    /// The selection matches a gem row: one choice per gem, selectable
    /// exactly for the untapped gems of the asked color, counters
    /// consistent.
    pub open spec fn wf(self, gems: Seq<Gem>) -> bool {
        &&& self.choices@.len() == gems.len()
        &&& forall|i: int|
            0 <= i < gems.len() ==> ((#[trigger] self.choices@[i]) is Some <==> selectable(
                gems[i],
                self.color,
            ))
        &&& self.counts_ok()
    }

    /// Open a selection over a gem row: every untapped gem of the asked
    /// color becomes a selectable, initially unselected slot; every
    /// other gem is excluded. Nothing is selected yet and no gem is
    /// touched.
    pub fn new(gems: &Vec<Gem>, cost: u32, color: Color) -> (s: GemSelection)
        ensures
            s.wf(gems@),
            s.cost == cost,
            s.color == color,
            s.num_selected == 0,
            forall|i: int|
                0 <= i < gems@.len() ==> #[trigger] s.choices@[i] == (if selectable(
                    gems@[i],
                    color,
                ) {
                    Some(false)
                } else {
                    None::<bool>
                }),
    {
        let mut choices: Vec<Option<bool>> = Vec::new();
        let mut num_choices: usize = 0;
        let mut i: usize = 0;
        while i < gems.len()
            invariant
                i <= gems@.len(),
                choices@.len() == i,
                num_choices <= i,
                num_choices as int == count_some(choices@),
                count_selected(choices@) == 0,
                forall|j: int|
                    0 <= j < i ==> #[trigger] choices@[j] == (if selectable(gems@[j], color) {
                        Some(false)
                    } else {
                        None::<bool>
                    }),
            decreases gems@.len() - i,
        {
            let ghost prev = choices@;
            let g = gems[i];
            if !g.tapped && g.card.color() == color {
                choices.push(Some(false));
                num_choices += 1;
            } else {
                choices.push(None);
            }
            proof {
                assert(choices@.drop_last() =~= prev);
            }
            i += 1;
        }
        GemSelection { cost, color, choices, num_selected: 0, num_choices }
    }

    /// Whether confirming is offered: exactly `cost` gems are selected.
    pub fn can_confirm(&self) -> (r: bool)
        ensures
            r == (self.num_selected as int == self.cost as int),
    {
        self.num_selected == self.cost as usize
    }

    /// Flip the selected state of the n-th selectable slot (1-based, as
    /// shown to the player), adjusting the selected counter. No gem is
    /// touched.
    pub fn toggle(&mut self, choice: usize)
        requires
            old(self).counts_ok(),
            1 <= choice <= old(self).num_choices,
        ensures
            final(self).counts_ok(),
            final(self).cost == old(self).cost,
            final(self).color == old(self).color,
            final(self).num_choices == old(self).num_choices,
            final(self).choices@.len() == old(self).choices@.len(),
            exists|idx: int|
                {
                    &&& nth_selectable_ok(old(self).choices@, choice - 1, idx)
                    &&& final(self).choices@ == old(self).choices@.update(
                        idx,
                        flip(old(self).choices@[idx]),
                    )
                    &&& final(self).num_selected as int == old(self).num_selected as int + (
                    if old(self).choices@[idx] == Some(true) {
                        -1int
                    } else {
                        1int
                    })
                },
    {
        let n = choice - 1;
        let mut i: usize = 0;
        let mut seen: usize = 0;
        proof {
            assert(self.choices@.take(0) =~= Seq::<Option<bool>>::empty());
        }
        while i < self.choices.len()
            invariant
                self.cost == old(self).cost,
                self.color == old(self).color,
                self.num_choices == old(self).num_choices,
                self.num_selected == old(self).num_selected,
                self.choices@ == old(self).choices@,
                old(self).counts_ok(),
                n == choice - 1,
                1 <= choice <= old(self).num_choices,
                i <= self.choices@.len(),
                seen <= n,
                seen as int == count_some(self.choices@.take(i as int)),
            decreases self.choices@.len() - i,
        {
            proof {
                assert(self.choices@.take(i as int + 1).drop_last() =~= self.choices@.take(
                    i as int,
                ));
                assert(self.choices@.take(i as int + 1).last() == self.choices@[i as int]);
            }
            let slot = self.choices[i];
            match slot {
                Some(b) => {
                    if seen == n {
                        let ghost prev = self.choices@;
                        self.choices.set(i, Some(!b));
                        proof {
                            lemma_count_update(prev, i as int, Some(!b));
                            lemma_count_bounds(self.choices@);
                            if prev[i as int] == Some(true) {
                                lemma_selected_positive(prev, i as int);
                            }
                            assert(nth_selectable_ok(prev, choice - 1, i as int));
                        }
                        if b {
                            self.num_selected -= 1;
                        } else {
                            self.num_selected += 1;
                        }
                        return ;
                    }
                    seen += 1;
                },
                None => {},
            }
            i += 1;
        }
        proof {
            assert(self.choices@.take(self.choices@.len() as int) =~= self.choices@);
            assert(false);
        }
    }

    /// Finish the payment: tap exactly the selected gems, leave every
    /// other gem untouched, and classify the payment — a straight of
    /// consecutive ranks earns the bonus. Only legal when exactly
    /// `cost` gems are selected.
    pub fn confirm(&self, gems: &mut Vec<Gem>) -> (r: PickedGems)
        requires
            self.wf(old(gems)@),
            self.num_selected as int == self.cost as int,
        ensures
            taps_selected(self.choices@, old(gems)@, final(gems)@),
            r == (if straight(selected_faces(old(gems)@, self.choices@)) {
                PickedGems::Straight
            } else {
                PickedGems::Yes
            }),
    {
        // Gather the selected faces in row order before tapping.
        let mut faces: Vec<Face> = Vec::new();
        let mut i: usize = 0;
        proof {
            assert(gems@.take(0) =~= Seq::<Gem>::empty());
            assert(self.choices@.take(0) =~= Seq::<Option<bool>>::empty());
        }
        while i < gems.len()
            invariant
                i <= gems@.len(),
                gems@ == old(gems)@,
                self.choices@.len() == gems@.len(),
                faces@ == selected_faces(gems@.take(i as int), self.choices@.take(i as int)),
            decreases gems@.len() - i,
        {
            proof {
                assert(gems@.take(i as int + 1).drop_last() =~= gems@.take(i as int));
                assert(self.choices@.take(i as int + 1).drop_last() =~= self.choices@.take(
                    i as int,
                ));
            }
            let selected = match self.choices[i] {
                Some(true) => true,
                _ => false,
            };
            if selected {
                faces.push(gems[i].card.face);
            }
            i += 1;
        }
        proof {
            assert(gems@.take(gems@.len() as int) =~= gems@);
            assert(self.choices@.take(self.choices@.len() as int) =~= self.choices@);
        }
        let straight_payment = is_straight(&faces);
        // Tap the selected gems.
        let mut j: usize = 0;
        while j < gems.len()
            invariant
                j <= gems@.len(),
                gems@.len() == old(gems)@.len(),
                self.choices@.len() == gems@.len(),
                forall|m: int|
                    0 <= m < j ==> #[trigger] gems@[m] == (if self.choices@[m] == Some(true) {
                        Gem { card: old(gems)@[m].card, tapped: true }
                    } else {
                        old(gems)@[m]
                    }),
                forall|m: int| j <= m < gems@.len() ==> gems@[m] == old(gems)@[m],
            decreases gems@.len() - j,
        {
            let selected = match self.choices[j] {
                Some(true) => true,
                _ => false,
            };
            if selected {
                let card = gems[j].card;
                gems.set(j, Gem { card, tapped: true });
            }
            j += 1;
        }
        if straight_payment {
            PickedGems::Straight
        } else {
            PickedGems::Yes
        }
    }

    /// One protocol step, from the player's answer to the protocol's
    /// action: cancelling returns `No` and touches nothing; confirming
    /// taps exactly the selected gems and classifies the payment;
    /// toggling flips one selectable slot, touches no gem, and keeps
    /// the protocol running.
    pub fn step(&mut self, gems: &mut Vec<Gem>, event: SelectionEvent) -> (r: Option<PickedGems>)
        requires
            old(self).wf(old(gems)@),
            event matches SelectionEvent::Toggle(choice) ==> 1 <= choice <= old(self).num_choices,
            event is Confirm ==> old(self).num_selected as int == old(self).cost as int,
        ensures
            event is Cancel ==> {
                &&& r == Some(PickedGems::No)
                &&& final(gems)@ == old(gems)@
                &&& *final(self) == *old(self)
            },
            event is Confirm ==> {
                &&& taps_selected(old(self).choices@, old(gems)@, final(gems)@)
                &&& r == Some(
                    if straight(selected_faces(old(gems)@, old(self).choices@)) {
                        PickedGems::Straight
                    } else {
                        PickedGems::Yes
                    },
                )
                &&& *final(self) == *old(self)
            },
            event matches SelectionEvent::Toggle(choice) ==> {
                &&& r is None
                &&& final(gems)@ == old(gems)@
                &&& final(self).wf(final(gems)@)
                &&& final(self).cost == old(self).cost
                &&& final(self).color == old(self).color
                &&& final(self).num_choices == old(self).num_choices
                &&& exists|idx: int|
                    {
                        &&& nth_selectable_ok(old(self).choices@, choice - 1, idx)
                        &&& final(self).choices@ == old(self).choices@.update(
                            idx,
                            flip(old(self).choices@[idx]),
                        )
                    }
            },
    {
        match event {
            SelectionEvent::Cancel => Some(PickedGems::No),
            SelectionEvent::Confirm => Some(self.confirm(gems)),
            SelectionEvent::Toggle(choice) => {
                let ghost prev = self.choices@;
                self.toggle(choice);
                proof {
                    let idx = choose|idx: int|
                        {
                            &&& nth_selectable_ok(prev, choice - 1, idx)
                            &&& self.choices@ == prev.update(idx, flip(prev[idx]))
                        };
                    assert forall|i: int| 0 <= i < gems@.len() implies ((
                    #[trigger] self.choices@[i]) is Some <==> selectable(
                        gems@[i],
                        old(self).color,
                    )) by {
                        assert(prev[i] is Some <==> selectable(gems@[i], old(self).color));
                        if i == idx {
                            assert(self.choices@[i] == flip(prev[i]));
                        }
                    }
                }
                None
            },
        }
    }
}

/// How the two counters move when one slot of the row changes.
proof fn lemma_count_update(s: Seq<Option<bool>>, i: int, v: Option<bool>)
    requires
        0 <= i < s.len(),
    ensures
        count_some(s.update(i, v)) == count_some(s) - (if s[i] is Some {
            1int
        } else {
            0int
        }) + (if v is Some {
            1int
        } else {
            0int
        }),
        count_selected(s.update(i, v)) == count_selected(s) - (if s[i] == Some(true) {
            1int
        } else {
            0int
        }) + (if v == Some(true) {
            1int
        } else {
            0int
        }),
    decreases s.len(),
{
    if i == s.len() - 1 {
        assert(s.update(i, v).drop_last() =~= s.drop_last());
        assert(s.update(i, v).last() == v);
    } else {
        assert(s.update(i, v).drop_last() =~= s.drop_last().update(i, v));
        assert(s.update(i, v).last() == s.last());
        lemma_count_update(s.drop_last(), i, v);
    }
}

/// Both counters stay between zero and the row's length, and no more
/// slots are selected than are selectable.
proof fn lemma_count_bounds(s: Seq<Option<bool>>)
    ensures
        0 <= count_selected(s) <= count_some(s) <= s.len(),
    decreases s.len(),
{
    if s.len() > 0 {
        lemma_count_bounds(s.drop_last());
    }
}

/// A row with a selected slot has a positive selected count.
proof fn lemma_selected_positive(s: Seq<Option<bool>>, i: int)
    requires
        0 <= i < s.len(),
        s[i] == Some(true),
    ensures
        count_selected(s) >= 1,
    decreases s.len(),
{
    lemma_count_bounds(s.drop_last());
    if i < s.len() - 1 {
        lemma_selected_positive(s.drop_last(), i);
    }
}

} // verus!

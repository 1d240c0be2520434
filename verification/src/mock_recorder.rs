//! The recorder of a mock: the interactions it received, in order, the
//! behavior that answered each, and the expectations it is verified
//! against.

use vstd::prelude::*;
use crate::chars::{decimal, decimal_string};
use crate::environment::{join_strings, joined};
use crate::kv::eq_str;
use crate::model::TestHarnessError;
use crate::recorder::{opt_chars, Interaction, InteractionMatcher, InteractionView};
use crate::text::views;

verus! {

/// An interaction as a recorder keeps it.
#[derive(Debug)]
pub struct RecordedInteraction {
    pub interaction: Interaction,
    /// The name of the behavior that answered it, if one did.
    pub behavior: Option<String>,
    pub verified: bool,
}

/// A recorded interaction, by its interaction, the behavior's name and
/// whether it was verified.
pub struct RecordedView {
    pub interaction: InteractionView,
    pub behavior: Option<Seq<char>>,
    pub verified: bool,
}

impl View for RecordedInteraction {
    type V = RecordedView;

    open spec fn view(&self) -> RecordedView {
        RecordedView { interaction: self.interaction@, behavior: opt_chars(self.behavior), verified: self.verified }
    }
}

/// The views of a list of recorded interactions.
pub open spec fn recorded_views(v: Seq<RecordedInteraction>) -> Seq<RecordedView> {
    v.map_values(|r: RecordedInteraction| r@)
}

impl RecordedInteraction {
    /// An interaction recorded without a behavior, not verified.
    pub fn new(interaction: Interaction) -> (r: RecordedInteraction)
        ensures
            r@ == (RecordedView { interaction: interaction@, behavior: None, verified: false }),
    {
        RecordedInteraction { interaction, behavior: None, verified: false }
    }

    /// Sets the behavior that answered it.
    pub fn with_behavior(self, behavior: String) -> (r: RecordedInteraction)
        ensures
            r@ == (RecordedView { behavior: Some(behavior@), ..self@ }),
    {
        RecordedInteraction { behavior: Some(behavior), ..self }
    }

    /// Marks it verified.
    pub fn verify(&mut self)
        ensures
            final(self)@ == (RecordedView { verified: true, ..old(self)@ }),
    {
        self.verified = true;
    }

    /// Has it been verified?
    pub fn is_verified(&self) -> (b: bool)
        ensures
            b == self@.verified,
    {
        self.verified
    }

    /// A copy of it.
    pub fn copy(&self) -> (r: RecordedInteraction)
        ensures
            r@ == self@,
    {
        RecordedInteraction {
            interaction: self.interaction.copy(),
            behavior: match &self.behavior {
                Some(b) => Some(b.clone()),
                None => None,
            },
            verified: self.verified,
        }
    }
}

/// The recorded interactions answered by the behavior of this name, in
/// order.
pub open spec fn by_behavior(rs: Seq<RecordedView>, behavior: Seq<char>) -> Seq<RecordedView>
    decreases rs.len(),
{
    if rs.len() == 0 {
        Seq::empty()
    } else {
        let rest = by_behavior(rs.drop_last(), behavior);
        if rs.last().behavior == Some(behavior) {
            rest.push(rs.last())
        } else {
            rest
        }
    }
}

/// The recorded interactions a matcher accepts, in order.
pub open spec fn accepted_by<M: InteractionMatcher>(rs: Seq<RecordedView>, m: M) -> Seq<RecordedView>
    decreases rs.len(),
{
    if rs.len() == 0 {
        Seq::empty()
    } else {
        let rest = accepted_by(rs.drop_last(), m);
        if m.accepts(rs.last().interaction) {
            rest.push(rs.last())
        } else {
            rest
        }
    }
}

/// How many of the recorded interactions are verified, or not.
pub open spec fn count_verified(rs: Seq<RecordedView>, verified: bool) -> nat
    decreases rs.len(),
{
    if rs.len() == 0 {
        0
    } else {
        count_verified(rs.drop_last(), verified) + if rs.last().verified == verified {
            1nat
        } else {
            0nat
        }
    }
}

/// The complaint about an expectation that was not met.
pub open spec fn mismatch_text(expected: nat, actual: nat) -> Seq<char> {
    "Expected "@ + decimal(expected) + " interactions, but got "@ + decimal(actual)
}

/// The complaints about the expectations not met, in order.
pub open spec fn mismatches<M: InteractionMatcher>(exps: Seq<(M, usize)>, rs: Seq<RecordedView>) -> Seq<Seq<char>>
    decreases exps.len(),
{
    if exps.len() == 0 {
        Seq::empty()
    } else {
        let rest = mismatches(exps.drop_last(), rs);
        let (m, want) = exps.last();
        let got = accepted_by(rs, m).len();
        if got != want {
            rest.push(mismatch_text(want as nat, got))
        } else {
            rest
        }
    }
}

/// The views with every interaction marked verified.
pub open spec fn all_verified(rs: Seq<RecordedView>) -> Seq<RecordedView> {
    rs.map_values(|r: RecordedView| RecordedView { verified: true, ..r })
}

proof fn lemma_accepted_len<M: InteractionMatcher>(rs: Seq<RecordedView>, m: M)
    ensures
        accepted_by(rs, m).len() <= rs.len(),
    decreases rs.len(),
{
    if rs.len() > 0 {
        lemma_accepted_len(rs.drop_last(), m);
    }
}

proof fn lemma_verified_len(rs: Seq<RecordedView>, verified: bool)
    ensures
        count_verified(rs, verified) <= rs.len(),
        count_verified(rs, verified) + count_verified(rs, !verified) == rs.len(),
    decreases rs.len(),
{
    if rs.len() > 0 {
        lemma_verified_len(rs.drop_last(), verified);
    }
}

/// Records the interactions a mock receives and checks them against
/// expectations, each a matcher and how many interactions it should
/// accept.
pub struct MockRecorder<M> {
    interactions: Vec<RecordedInteraction>,
    expected: Vec<(M, usize)>,
}

impl<M: InteractionMatcher> MockRecorder<M> {
    /// The recorded interactions, in order.
    pub closed spec fn recorded(&self) -> Seq<RecordedView> {
        recorded_views(self.interactions@)
    }

    /// The expectations, in order.
    pub closed spec fn expectations(&self) -> Seq<(M, usize)> {
        self.expected@
    }

    /// Nothing recorded and nothing expected.
    pub fn new() -> (r: MockRecorder<M>)
        ensures
            r.recorded().len() == 0,
            r.expectations().len() == 0,
    {
        MockRecorder { interactions: Vec::new(), expected: Vec::new() }
    }

    fn push(&mut self, recorded: RecordedInteraction) -> (r: RecordedInteraction)
        ensures
            final(self).recorded() == old(self).recorded().push(recorded@),
            final(self).expectations() == old(self).expectations(),
            r@ == recorded@,
    {
        let copy = recorded.copy();
        let ghost before = self.interactions@;
        self.interactions.push(recorded);
        assert(recorded_views(self.interactions@) =~= recorded_views(before).push(copy@));
        copy
    }

    /// Records an interaction no behavior answered; gives back what was
    /// recorded.
    pub fn record(&mut self, interaction: Interaction) -> (r: RecordedInteraction)
        ensures
            r@ == (RecordedView { interaction: interaction@, behavior: None, verified: false }),
            final(self).recorded() == old(self).recorded().push(r@),
            final(self).expectations() == old(self).expectations(),
    {
        self.push(RecordedInteraction::new(interaction))
    }

    /// Records an interaction answered by the behavior of this name; gives
    /// back what was recorded.
    pub fn record_with_behavior(&mut self, interaction: Interaction, behavior: String) -> (r: RecordedInteraction)
        ensures
            r@ == (RecordedView { interaction: interaction@, behavior: Some(behavior@), verified: false }),
            final(self).recorded() == old(self).recorded().push(r@),
            final(self).expectations() == old(self).expectations(),
    {
        self.push(RecordedInteraction::new(interaction).with_behavior(behavior))
    }

    /// Copies of the recorded interactions, in order.
    pub fn get_interactions(&self) -> (r: Vec<RecordedInteraction>)
        ensures
            recorded_views(r@) == self.recorded(),
    {
        let mut r: Vec<RecordedInteraction> = Vec::new();
        let mut i: usize = 0;
        while i < self.interactions.len()
            invariant
                i <= self.interactions.len(),
                recorded_views(r@) == recorded_views(self.interactions@).subrange(0, i as int),
            decreases self.interactions.len() - i,
        {
            let ghost before = recorded_views(r@);
            let c = self.interactions[i].copy();
            r.push(c);
            assert(recorded_views(r@) =~= before.push(self.interactions@[i as int]@));
            assert(recorded_views(self.interactions@).subrange(0, i + 1) =~= before.push(
                self.interactions@[i as int]@,
            ));
            i += 1;
        }
        assert(recorded_views(self.interactions@).subrange(0, i as int) =~= recorded_views(self.interactions@));
        r
    }

    /// Copies of the interactions answered by the behavior of this name,
    /// in order.
    pub fn get_interactions_by_behavior(&self, behavior: &str) -> (r: Vec<RecordedInteraction>)
        ensures
            recorded_views(r@) == by_behavior(self.recorded(), behavior@),
    {
        let ghost all = recorded_views(self.interactions@);
        let mut r: Vec<RecordedInteraction> = Vec::new();
        let mut i: usize = 0;
        while i < self.interactions.len()
            invariant
                i <= self.interactions.len(),
                all == recorded_views(self.interactions@),
                recorded_views(r@) == by_behavior(all.subrange(0, i as int), behavior@),
            decreases self.interactions.len() - i,
        {
            assert(all.subrange(0, i + 1).drop_last() =~= all.subrange(0, i as int));
            let keep = match &self.interactions[i].behavior {
                Some(b) => eq_str(b.as_str(), behavior),
                None => false,
            };
            if keep {
                let ghost before = recorded_views(r@);
                r.push(self.interactions[i].copy());
                assert(recorded_views(r@) =~= before.push(all[i as int]));
            }
            i += 1;
        }
        assert(all.subrange(0, i as int) =~= all);
        r
    }

    /// Copies of the interactions a matcher accepts, in order.
    pub fn get_interactions_by_matcher<N: InteractionMatcher>(&self, matcher: &N) -> (r: Vec<RecordedInteraction>)
        ensures
            recorded_views(r@) == accepted_by(self.recorded(), *matcher),
    {
        let ghost all = recorded_views(self.interactions@);
        let mut r: Vec<RecordedInteraction> = Vec::new();
        let mut i: usize = 0;
        while i < self.interactions.len()
            invariant
                i <= self.interactions.len(),
                all == recorded_views(self.interactions@),
                recorded_views(r@) == accepted_by(all.subrange(0, i as int), *matcher),
            decreases self.interactions.len() - i,
        {
            assert(all.subrange(0, i + 1).drop_last() =~= all.subrange(0, i as int));
            if matcher.matches(&self.interactions[i].interaction) {
                let ghost before = recorded_views(r@);
                r.push(self.interactions[i].copy());
                assert(recorded_views(r@) =~= before.push(all[i as int]));
            }
            i += 1;
        }
        assert(all.subrange(0, i as int) =~= all);
        r
    }

    /// Forgets the recorded interactions.
    pub fn clear(&mut self)
        ensures
            final(self).recorded().len() == 0,
            final(self).expectations() == old(self).expectations(),
    {
        self.interactions = Vec::new();
        assert(recorded_views(self.interactions@) =~= Seq::<RecordedView>::empty());
    }

    /// Expects `count` recorded interactions that the matcher accepts.
    pub fn expect(&mut self, matcher: M, count: usize)
        ensures
            final(self).expectations() == old(self).expectations().push((matcher, count)),
            final(self).recorded() == old(self).recorded(),
    {
        self.expected.push((matcher, count));
    }

    /// Forgets the expectations.
    pub fn clear_expectations(&mut self)
        ensures
            final(self).expectations().len() == 0,
            final(self).recorded() == old(self).recorded(),
    {
        self.expected = Vec::new();
    }

    fn accepted_count(&self, m: &M) -> (n: usize)
        ensures
            n == accepted_by(self.recorded(), *m).len(),
    {
        let ghost all = recorded_views(self.interactions@);
        let mut n: usize = 0;
        let mut i: usize = 0;
        while i < self.interactions.len()
            invariant
                i <= self.interactions.len(),
                all == recorded_views(self.interactions@),
                n == accepted_by(all.subrange(0, i as int), *m).len(),
                n <= i,
            decreases self.interactions.len() - i,
        {
            assert(all.subrange(0, i + 1).drop_last() =~= all.subrange(0, i as int));
            assert(all[i as int].interaction == self.interactions@[i as int].interaction@);
            if m.matches(&self.interactions[i].interaction) {
                n += 1;
            }
            i += 1;
        }
        assert(all.subrange(0, i as int) =~= all);
        n
    }

    /// Checks each expectation against the recorded interactions: with a
    /// count that differs, a mock error lists the complaints in the order
    /// of the expectations, joined by `, ` after `Verification failed: `.
    pub fn verify(&self) -> (r: Result<(), TestHarnessError>)
        ensures
            mismatches(self.expectations(), self.recorded()).len() == 0 ==> r is Ok,
            mismatches(self.expectations(), self.recorded()).len() > 0 ==> (r matches Err(
                TestHarnessError::MockError(m),
            ) && m@ == "Verification failed: "@ + joined(mismatches(self.expectations(), self.recorded()), ", "@)),
    {
        let ghost rs = self.recorded();
        let mut errors: Vec<String> = Vec::new();
        let mut i: usize = 0;
        while i < self.expected.len()
            invariant
                i <= self.expected.len(),
                rs == self.recorded(),
                views(errors@) == mismatches(self.expected@.subrange(0, i as int), rs),
            decreases self.expected.len() - i,
        {
            assert(self.expected@.subrange(0, i + 1).drop_last() =~= self.expected@.subrange(0, i as int));
            let want = self.expected[i].1;
            let got = self.accepted_count(&self.expected[i].0);
            if got != want {
                let mut e = "Expected ".to_owned();
                let w = decimal_string(want as u64);
                e.append(w.as_str());
                e.append(" interactions, but got ");
                let g = decimal_string(got as u64);
                e.append(g.as_str());
                let ghost before = views(errors@);
                errors.push(e);
                assert(views(errors@) =~= before.push(mismatch_text(want as nat, got as nat)));
            }
            i += 1;
        }
        assert(self.expected@.subrange(0, i as int) =~= self.expected@);
        if errors.len() == 0 {
            Ok(())
        } else {
            let mut m = "Verification failed: ".to_owned();
            let j = join_strings(&errors, ", ");
            m.append(j.as_str());
            Err(TestHarnessError::MockError(m))
        }
    }

    /// Marks every recorded interaction verified.
    pub fn mark_all_verified(&mut self)
        ensures
            final(self).recorded() == all_verified(old(self).recorded()),
            final(self).expectations() == old(self).expectations(),
    {
        let ghost start = recorded_views(self.interactions@);
        let mut out: Vec<RecordedInteraction> = Vec::new();
        let mut i: usize = 0;
        while i < self.interactions.len()
            invariant
                i <= self.interactions.len(),
                start == recorded_views(self.interactions@),
                recorded_views(out@) == all_verified(start).subrange(0, i as int),
            decreases self.interactions.len() - i,
        {
            let mut c = self.interactions[i].copy();
            c.verify();
            let ghost before = recorded_views(out@);
            out.push(c);
            assert(recorded_views(out@) =~= before.push(all_verified(start)[i as int]));
            assert(all_verified(start).subrange(0, i + 1) =~= before.push(all_verified(start)[i as int]));
            i += 1;
        }
        assert(all_verified(start).subrange(0, i as int) =~= all_verified(start));
        self.interactions = out;
    }

    /// How many interactions were recorded.
    pub fn count(&self) -> (n: usize)
        ensures
            n == self.recorded().len(),
    {
        self.interactions.len()
    }

    fn count_by(&self, verified: bool) -> (n: usize)
        ensures
            n == count_verified(self.recorded(), verified),
    {
        let ghost all = recorded_views(self.interactions@);
        let mut n: usize = 0;
        let mut i: usize = 0;
        while i < self.interactions.len()
            invariant
                i <= self.interactions.len(),
                all == recorded_views(self.interactions@),
                n == count_verified(all.subrange(0, i as int), verified),
                n <= i,
            decreases self.interactions.len() - i,
        {
            assert(all.subrange(0, i + 1).drop_last() =~= all.subrange(0, i as int));
            if self.interactions[i].verified == verified {
                n += 1;
            }
            i += 1;
        }
        assert(all.subrange(0, i as int) =~= all);
        n
    }

    /// How many recorded interactions are verified.
    pub fn verified_count(&self) -> (n: usize)
        ensures
            n == count_verified(self.recorded(), true),
    {
        self.count_by(true)
    }

    /// How many recorded interactions are not verified.
    pub fn unverified_count(&self) -> (n: usize)
        ensures
            n == count_verified(self.recorded(), false),
            n + count_verified(self.recorded(), true) == self.recorded().len(),
    {
        proof {
            lemma_verified_len(self.recorded(), false);
        }
        self.count_by(false)
    }
}

/// Law: once every interaction is marked verified, none is left
/// unverified and all are counted verified.
pub proof fn lemma_all_verified_counts(rs: Seq<RecordedView>)
    ensures
        count_verified(all_verified(rs), true) == rs.len(),
        count_verified(all_verified(rs), false) == 0,
    decreases rs.len(),
{
    if rs.len() > 0 {
        lemma_all_verified_counts(rs.drop_last());
        assert(all_verified(rs).drop_last() =~= all_verified(rs.drop_last()));
    }
}

/// Law: a recorder whose expectations are all met verifies, and one with
/// an expectation not met does not.
pub proof fn lemma_verify_iff_expectations_met<M: InteractionMatcher>(exps: Seq<(M, usize)>, rs: Seq<RecordedView>)
    ensures
        mismatches(exps, rs).len() == 0 <==> forall|i: int| 0 <= i < exps.len() ==> accepted_by(rs, #[trigger] exps[i].0).len()
            == exps[i].1,
    decreases exps.len(),
{
    if exps.len() > 0 {
        lemma_verify_iff_expectations_met(exps.drop_last(), rs);
        let d = exps.drop_last();
        if mismatches(exps, rs).len() == 0 {
            assert forall|i: int| 0 <= i < exps.len() implies accepted_by(rs, #[trigger] exps[i].0).len() == exps[i].1 by {
                if i < d.len() {
                    assert(d[i] == exps[i]);
                }
            }
        } else {
            if mismatches(d, rs).len() > 0 {
                let i = choose|i: int| 0 <= i < d.len() && accepted_by(rs, #[trigger] d[i].0).len() != d[i].1;
                assert(d[i] == exps[i]);
            }
        }
    }
}

} // verus!

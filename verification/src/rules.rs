//! Grammar rules matched against the nodes that a walker passes: a token, an optional
//! rule, a rule whose failure puts the walker back, two rules in sequence, a choice of two
//! rules, a rule repeated while it matches, and the check that the walk is over.

use crate::language::Language;
use crate::syntax::context::Context;
use crate::syntax::node::{SyntaxError, SyntaxErrors};
use crate::syntax::walker::{
    at, current, done_after_next, is_chain, lemma_next_steps, lemma_put_back_steps, next, step_outcome,
    steps_left, NodeWalker,
    Position,
};
use core::marker::PhantomData;
use vstd::prelude::*;

verus! {

/// What a rule sees of a walker: where it stands and whether its walk is over.
pub struct WalkView {
    pub position: Position,
    pub done: bool,
}

/// What a rule sees of `walker`.
pub open spec fn view_of<'tree, C: Context<'tree>>(walker: &NodeWalker<'tree, C>) -> WalkView {
    WalkView { position: walker.position(), done: walker.is_done() }
}

/// The outcome of a rule as a sequence of errors.
pub open spec fn errors_view(res: Result<(), SyntaxErrors>) -> Result<(), Seq<SyntaxError>> {
    match res {
        Ok(()) => Ok(()),
        Err(errors) => Err(errors@),
    }
}

/// `view` with the walker put back at `node`, as its base; the walk's state is kept.
pub open spec fn put_back(view: WalkView, before: WalkView) -> WalkView {
    WalkView { position: at(current(before.position)), done: view.done }
}

/// A rule of a grammar, matched against the nodes that follow a walker's position.
pub trait Rule<'tree, C: Context<'tree>> {
    /// Whether matching the rule may take a walker over `language` from `before` to
    /// `after` with outcome `res`.
    spec fn matches(&self, language: Language, before: WalkView, after: WalkView, res: Result<(), Seq<SyntaxError>>) -> bool;

    /// Matches the rule from the walker's position.
    fn apply(&self, walker: &mut NodeWalker<'tree, C>) -> (res: Result<(), SyntaxErrors>)
        requires
            old(walker).wf(),
        ensures
            final(walker).wf(),
            final(walker).keeps(old(walker)),
            self.matches(old(walker).language(), view_of(old(walker)), view_of(final(walker)), errors_view(res)),
    ;
}

/// The next node, which should be of kind `kind`: one step of the walker.
pub struct Token {
    pub kind: u16,
}

impl<'tree, C: Context<'tree>> Rule<'tree, C> for Token {
    open spec fn matches(&self, language: Language, before: WalkView, after: WalkView, res: Result<(), Seq<SyntaxError>>) -> bool {
        &&& after.done == done_after_next(before.position, before.done)
        &&& match res {
            Ok(()) => step_outcome(before.position, self.kind, language, after.position, Ok(())),
            Err(errors) => errors.len() == 1 && step_outcome(
                before.position,
                self.kind,
                language,
                after.position,
                Err(errors[0]),
            ),
        }
    }

    fn apply(&self, walker: &mut NodeWalker<'tree, C>) -> (res: Result<(), SyntaxErrors>) {
        match walker.step(self.kind) {
            Ok(()) => Ok(()),
            Err(error) => Err(SyntaxErrors::from_error(error)),
        }
    }
}

/// `rule`, or nothing: where `rule` fails, the walker is put back at the node it started
/// from and the match still succeeds.
pub struct Optional<R> {
    pub rule: R,
}

impl<'tree, C: Context<'tree>, R: Rule<'tree, C>> Rule<'tree, C> for Optional<R> {
    open spec fn matches(&self, language: Language, before: WalkView, after: WalkView, res: Result<(), Seq<SyntaxError>>) -> bool {
        &&& res is Ok
        &&& exists|mid: WalkView, r: Result<(), Seq<SyntaxError>>|
            #[trigger] self.rule.matches(language, before, mid, r) && if r is Ok {
                after == mid
            } else {
                after == put_back(mid, before)
            }
    }

    fn apply(&self, walker: &mut NodeWalker<'tree, C>) -> (res: Result<(), SyntaxErrors>) {
        let prev = walker.node();
        let ghost before = view_of(walker);
        let r = self.rule.apply(walker);
        let ghost mid = view_of(walker);
        if r.is_err() {
            walker.reset(prev);
        }
        assert(self.rule.matches(walker.language(), before, mid, errors_view(r)));
        Ok(())
    }
}

/// `rule`, with the walker put back at the node it started from where `rule` fails.
pub struct Restore<R> {
    pub rule: R,
}

impl<'tree, C: Context<'tree>, R: Rule<'tree, C>> Rule<'tree, C> for Restore<R> {
    open spec fn matches(&self, language: Language, before: WalkView, after: WalkView, res: Result<(), Seq<SyntaxError>>) -> bool {
        exists|mid: WalkView|
            #[trigger] self.rule.matches(language, before, mid, res) && if res is Ok {
                after == mid
            } else {
                after == put_back(mid, before)
            }
    }

    fn apply(&self, walker: &mut NodeWalker<'tree, C>) -> (res: Result<(), SyntaxErrors>) {
        let prev = walker.node();
        let ghost before = view_of(walker);
        let r = self.rule.apply(walker);
        let ghost mid = view_of(walker);
        match r {
            Ok(()) => {
                assert(self.rule.matches(walker.language(), before, mid, errors_view(Ok(()))));
                Ok(())
            },
            Err(mut errs) => {
                walker.reset(prev);
                let mut errors = SyntaxErrors::new();
                errors.append(&mut errs);
                assert(errors@ =~= errors_view(r)->Err_0);
                assert(self.rule.matches(walker.language(), before, mid, errors_view(Err(errors))));
                Err(errors)
            },
        }
    }
}

/// `first`, then `second`: the first failure ends the match.
pub struct Sequence<A, B> {
    pub first: A,
    pub second: B,
}

impl<'tree, C: Context<'tree>, A: Rule<'tree, C>, B: Rule<'tree, C>> Rule<'tree, C> for Sequence<A, B> {
    open spec fn matches(&self, language: Language, before: WalkView, after: WalkView, res: Result<(), Seq<SyntaxError>>) -> bool {
        exists|mid: WalkView, r: Result<(), Seq<SyntaxError>>|
            #[trigger] self.first.matches(language, before, mid, r) && if r is Ok {
                self.second.matches(language, mid, after, res)
            } else {
                after == mid && res == r
            }
    }

    fn apply(&self, walker: &mut NodeWalker<'tree, C>) -> (res: Result<(), SyntaxErrors>) {
        let ghost before = view_of(walker);
        let r = self.first.apply(walker);
        let ghost mid = view_of(walker);
        assert(self.first.matches(walker.language(), before, mid, errors_view(r)));
        match r {
            Ok(()) => self.second.apply(walker),
            Err(errors) => Err(errors),
        }
    }
}

/// How a choice ends once its first rule took the walker from `before` to `mid` with
/// `r`: there on a match; else as its second rule ends from the node it started at.
pub open spec fn after_first<'tree, C: Context<'tree>, B: Rule<'tree, C>>(
    second: B,
    language: Language,
    before: WalkView,
    mid: WalkView,
    r: Result<(), Seq<SyntaxError>>,
    after: WalkView,
    res: Result<(), Seq<SyntaxError>>,
) -> bool {
    match r {
        Ok(()) => after == mid && res is Ok,
        Err(first_errors) => exists|end: WalkView, s: Result<(), Seq<SyntaxError>>|
            #[trigger] second.matches(language, put_back(mid, before), end, s) && after_second(
                before,
                first_errors,
                end,
                s,
                after,
                res,
            ),
    }
}

/// How a choice ends once its second rule, after the first failed with `first_errors`,
/// took the walker to `end` with `s`: there on a match; else put back where the choice
/// started, with the errors of both rules.
pub open spec fn after_second(
    before: WalkView,
    first_errors: Seq<SyntaxError>,
    end: WalkView,
    s: Result<(), Seq<SyntaxError>>,
    after: WalkView,
    res: Result<(), Seq<SyntaxError>>,
) -> bool {
    match s {
        Ok(()) => after == end && res is Ok,
        Err(second_errors) => after == put_back(end, before) && res == Err::<(), Seq<SyntaxError>>(
            first_errors + second_errors,
        ),
    }
}

/// `first`, or else `second` from the same node: where both fail, the walker is put back
/// at the node it started from and the errors of both are reported, those of `first`
/// first.
pub struct Choice<A, B> {
    pub first: A,
    pub second: B,
}

impl<'tree, C: Context<'tree>, A: Rule<'tree, C>, B: Rule<'tree, C>> Rule<'tree, C> for Choice<A, B> {
    open spec fn matches(&self, language: Language, before: WalkView, after: WalkView, res: Result<(), Seq<SyntaxError>>) -> bool {
        exists|mid: WalkView, r: Result<(), Seq<SyntaxError>>|
            #[trigger] self.first.matches(language, before, mid, r) && after_first::<'tree, C, B>(
                self.second,
                language,
                before,
                mid,
                r,
                after,
                res,
            )
    }

    fn apply(&self, walker: &mut NodeWalker<'tree, C>) -> (res: Result<(), SyntaxErrors>) {
        let prev = walker.node();
        let ghost before = view_of(walker);
        let r = self.first.apply(walker);
        let ghost mid = view_of(walker);
        assert(self.first.matches(walker.language(), before, mid, errors_view(r)));
        match r {
            Ok(()) => Ok(()),
            Err(mut errors) => {
                walker.reset(prev);
                let ghost restart = view_of(walker);
                assert(restart == put_back(mid, before));
                let s = self.second.apply(walker);
                let ghost end = view_of(walker);
                assert(self.second.matches(walker.language(), restart, end, errors_view(s)));
                match s {
                    Ok(()) => Ok(()),
                    Err(mut second) => {
                        walker.reset(prev);
                        errors.append(&mut second);
                        Err(errors)
                    },
                }
            },
        }
    }
}

/// Whether each match of `rule` from a walk that is not over passes a node or ends the
/// walk: then repeating it comes to an end.
pub open spec fn advances<'tree, C: Context<'tree>, R: Rule<'tree, C>>(rule: R) -> bool {
    forall|language: Language, before: WalkView, after: WalkView, res: Result<(), Seq<SyntaxError>>|
        #[trigger] rule.matches(language, before, after, res) && res is Ok && is_chain(before.position)
            ==> after.done || steps_left(after.position) < steps_left(before.position)
}

/// A token passes a node each time it matches, or ends the walk.
pub proof fn lemma_token_advances<'tree, C: Context<'tree>>(token: Token)
    ensures
        advances::<'tree, C, Token>(token),
{
    assert forall|language: Language, before: WalkView, after: WalkView, res: Result<(), Seq<SyntaxError>>|
        #[trigger] <Token as Rule<'tree, C>>::matches(&token, language, before, after, res) && res is Ok && is_chain(
            before.position,
        ) implies after.done || steps_left(after.position) < steps_left(before.position) by {
        if next(before.position) is Some {
            lemma_next_steps(before.position);
        }
    }
}

/// A choice of two rules that each pass a node at every match, or end the walk, does so
/// too.
pub proof fn lemma_choice_advances<'tree, C: Context<'tree>, A: Rule<'tree, C>, B: Rule<'tree, C>>(choice: Choice<A, B>)
    requires
        advances::<'tree, C, A>(choice.first),
        advances::<'tree, C, B>(choice.second),
    ensures
        advances::<'tree, C, Choice<A, B>>(choice),
{
    assert forall|language: Language, before: WalkView, after: WalkView, res: Result<(), Seq<SyntaxError>>|
        #[trigger] choice.matches(language, before, after, res) && res is Ok && is_chain(before.position)
        implies after.done || steps_left(after.position) < steps_left(before.position) by {
        assert(exists|mid: WalkView, r: Result<(), Seq<SyntaxError>>|
            #[trigger] choice.first.matches(language, before, mid, r) && after_first::<'tree, C, B>(
                choice.second,
                language,
                before,
                mid,
                r,
                after,
                res,
            ));
        let (mid, r) = choose|mid: WalkView, r: Result<(), Seq<SyntaxError>>|
            #[trigger] choice.first.matches(language, before, mid, r) && after_first::<'tree, C, B>(
                choice.second,
                language,
                before,
                mid,
                r,
                after,
                res,
            );
        if r is Ok {
            assert(choice.first.matches(language, before, after, r));
        } else {
            let (end, s) = choose|end: WalkView, s: Result<(), Seq<SyntaxError>>|
                #[trigger] choice.second.matches(language, put_back(mid, before), end, s) && after_second(
                    before,
                    r->Err_0,
                    end,
                    s,
                    after,
                    res,
                );
            lemma_put_back_steps(before.position);
            assert(is_chain(put_back(mid, before).position));
            assert(s is Ok);
            assert(choice.second.matches(language, put_back(mid, before), after, s));
        }
    }
}

/// `rule`, as many times as it matches while the walk is not over; where a match fails,
/// the walker is put back at the node that match started from. The match itself never
/// fails. The rule must pass a node at each match, or end the walk.
pub struct Repeat<'tree, C: Context<'tree>, R: Rule<'tree, C>> {
    rule: R,
    kind: PhantomData<&'tree C>,
}

impl<'tree, C: Context<'tree>, R: Rule<'tree, C>> Repeat<'tree, C, R> {
    /// The rule that repeating matches over and over comes to an end with.
    #[verifier::type_invariant]
    spec fn ends(self) -> bool {
        advances::<'tree, C, R>(self.rule)
    }

    /// The rule repeated.
    pub closed spec fn rule(self) -> R {
        self.rule
    }

    /// Whether `trace` is the walk of successive matches of the rule over `language`:
    /// each from a walk that was not over to the next view of the trace.
    pub open spec fn repeats(self, language: Language, trace: Seq<WalkView>) -> bool {
        &&& trace.len() > 0
        &&& forall|i: int| 0 <= i < trace.len() - 1 ==> !(#[trigger] trace[i]).done
        &&& forall|i: int|
            0 <= i < trace.len() - 1 ==> #[trigger] self.rule().matches(language, trace[i], trace[i + 1], Ok(()))
    }

    /// Repeats `rule`, which passes a node at each match or ends the walk.
    pub fn new(rule: R) -> (res: Self)
        requires
            advances::<'tree, C, R>(rule),
        ensures
            res.rule() == rule,
    {
        Repeat { rule, kind: PhantomData }
    }
}

impl<'tree, C: Context<'tree>, R: Rule<'tree, C>> Rule<'tree, C> for Repeat<'tree, C, R> {
    open spec fn matches(&self, language: Language, before: WalkView, after: WalkView, res: Result<(), Seq<SyntaxError>>) -> bool {
        &&& res is Ok
        &&& exists|trace: Seq<WalkView>|
            #[trigger] self.repeats(language, trace) && trace[0] == before && if trace.last().done {
                after == trace.last()
            } else {
                exists|mid: WalkView, r: Result<(), Seq<SyntaxError>>|
                    #[trigger] self.rule().matches(language, trace.last(), mid, r) && r is Err && after == put_back(
                        mid,
                        trace.last(),
                    )
            }
    }

    fn apply(&self, walker: &mut NodeWalker<'tree, C>) -> (res: Result<(), SyntaxErrors>) {
        proof {
            use_type_invariant(self);
        }
        let ghost start = view_of(walker);
        let ghost language = walker.language();
        let ghost mut trace: Seq<WalkView> = seq![start];
        loop
            invariant
                walker.wf(),
                walker.keeps(old(walker)),
                start == view_of(old(walker)),
                language == old(walker).language(),
                language == walker.language(),
                advances::<'tree, C, R>(self.rule),
                self.repeats(language, trace),
                trace[0] == start,
                trace.last() == view_of(walker),
            decreases (if walker.is_done() { 0nat } else { 1nat }), steps_left(walker.position()),
        {
            let prev = walker.node();
            if walker.done() {
                assert(self.repeats(language, trace));
                return Ok(());
            }
            let ghost last = view_of(walker);
            proof {
                walker.lemma_wf_chain();
            }
            let r = self.rule.apply(walker);
            let ghost mid = view_of(walker);
            if r.is_err() {
                walker.reset(prev);
                assert(self.rule.matches(language, last, mid, errors_view(r)));
                assert(view_of(walker) == put_back(mid, last));
                assert(trace.last() == last);
                assert(self.rule() == self.rule);
                assert(errors_view(r) is Err);
                assert(self.rule().matches(language, trace.last(), mid, errors_view(r)));
                assert(self.repeats(language, trace));
                assert(exists|m: WalkView, e: Result<(), Seq<SyntaxError>>|
                    #[trigger] self.rule().matches(language, trace.last(), m, e) && e is Err && view_of(walker)
                        == put_back(m, trace.last()));
                return Ok(());
            }
            proof {
                assert(self.rule.matches(language, last, mid, Ok(())));
                let next_trace = trace.push(mid);
                assert forall|i: int| 0 <= i < next_trace.len() - 1 implies !(#[trigger] next_trace[i]).done
                    && self.rule().matches(language, next_trace[i], next_trace[i + 1], Ok(())) by {
                    if i < trace.len() - 1 {
                        assert(next_trace[i] == trace[i] && next_trace[i + 1] == trace[i + 1]);
                        assert(self.rule().matches(language, trace[i], trace[i + 1], Ok(())));
                        assert(!trace[i].done);
                    } else {
                        assert(next_trace[i] == last && next_trace[i + 1] == mid);
                        assert(!last.done);
                    }
                }
                assert(self.repeats(language, next_trace));
                assert(next_trace.last() == mid);
                assert(next_trace[0] == start);
                trace = next_trace;
            }
        }
    }
}

/// The end of the walk: matches, moving nothing, when the walk is over; else fails with
/// `MoreNodes`.
pub struct End;

impl<'tree, C: Context<'tree>> Rule<'tree, C> for End {
    open spec fn matches(&self, language: Language, before: WalkView, after: WalkView, res: Result<(), Seq<SyntaxError>>) -> bool {
        &&& after == before
        &&& if before.done {
            res is Ok
        } else {
            res == Err::<(), Seq<SyntaxError>>(seq![SyntaxError::MoreNodes])
        }
    }

    fn apply(&self, walker: &mut NodeWalker<'tree, C>) -> (res: Result<(), SyntaxErrors>) {
        done(walker)
    }
}

/// Succeeds when the walk is over, every node having been matched; else fails with
/// `MoreNodes`.
pub fn done<'tree, C: Context<'tree>>(walker: &NodeWalker<'tree, C>) -> (res: Result<(), SyntaxErrors>)
    ensures
        res is Ok <==> walker.is_done(),
        res matches Err(errors) ==> errors@ == seq![SyntaxError::MoreNodes],
{
    if walker.done() {
        Ok(())
    } else {
        let mut errors = SyntaxErrors::new();
        errors.push(SyntaxError::MoreNodes);
        Err(errors)
    }
}

} // verus!

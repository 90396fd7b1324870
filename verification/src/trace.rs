//! What was said between an operation and its driver.
use crate::laws_login::follows;
use crate::model::Error;
use crate::query::QueryView;
use crate::tape::{Reply, Run, StopView, TapeView};
use vstd::prelude::*;

verus! {

/// A question and its answer.
pub struct Said<'a> {
    pub q: QueryView<'a>,
    pub r: Reply,
}

/// A question and its answer.
pub open spec fn qa<'a>(q: QueryView<'a>, r: Reply) -> Said<'a> {
    Said { q, r }
}

/// The questions that were asked and answered between `t` and `u`, each with its answer.
pub open spec fn said<'a>(t: TapeView<'a>, u: TapeView<'a>) -> Seq<Said<'a>> {
    Seq::new(
        (u.at - t.at) as nat,
        |k: int| qa(u.asked[t.asked.len() + k], t.log[t.at + k]),
    )
}

/// Was this said between `t` and `u`, and nothing else?
pub open spec fn hears<'a>(t: TapeView<'a>, u: TapeView<'a>, ss: Seq<Said<'a>>) -> bool {
    follows(t, u) && said(t, u) == ss
}

/// Are these the next answers on the tape?
pub open spec fn answers<'a>(t: TapeView<'a>, rs: Seq<Reply>) -> bool {
    t.at + rs.len() <= t.log.len() && forall|k: int|
        0 <= k < rs.len() ==> #[trigger] t.log[t.at + k] == rs[k]
}

/// What comes next on a tape.
pub proof fn look_ahead<'a>(t: TapeView<'a>, rs: Seq<Reply>)
    requires
        rs.len() >= 1,
    ensures
        answers(t, rs) ==> t.log[t.at as int] == rs[0],
        answers(t, rs) && rs.len() > 1 ==> t.log[t.at + 1int] == rs[1],
        answers(t, rs) && rs.len() > 2 ==> t.log[t.at + 2int] == rs[2],
        answers(t, rs) && rs.len() > 3 ==> t.log[t.at + 3int] == rs[3],
{
    if answers(t, rs) {
        assert(t.log[t.at + 0int] == rs[0]);
        if rs.len() > 1 {
            assert(t.log[t.at + 1int] == rs[1]);
        }
        if rs.len() > 2 {
            assert(t.log[t.at + 2int] == rs[2]);
        }
        if rs.len() > 3 {
            assert(t.log[t.at + 3int] == rs[3]);
        }
    }
}

/// Does a run ask one question, and is its result the value that this answer to it carries? A
/// failure that comes instead is passed on. If the next answer on the tape is another one, nothing
/// is said of the result.
pub open spec fn is_answer<'a, T>(
    t: TapeView<'a>,
    r: Run<'a, T>,
    q: QueryView<'a>,
    a: Reply,
    v: T,
) -> bool {
    &&& r.tape.asked == t.asked.push(q)
    &&& t.at < t.log.len() && t.log[t.at as int] == a ==> r.tape.at == t.at + 1 && r.out == Ok::<
        T,
        StopView<'a>,
    >(v)
    &&& t.at < t.log.len() ==> (t.log[t.at as int] matches Reply::Failed(f) ==> r.out == Err::<
        T,
        StopView<'a>,
    >(StopView::Fail(Error::Failed(&f))))
    &&& t.at >= t.log.len() ==> r.out == Err::<T, StopView<'a>>(StopView::Ask(q))
}

/// Did a run end where a part of it ended without a result, and in the same way?
pub open spec fn ends_as<'a, T, U>(r: Run<'a, T>, part: Run<'a, U>) -> bool {
    part.out matches Err(s) && r.tape == part.tape && r.out == Err::<T, StopView<'a>>(s)
}

/// What was said in two parts is what was said in the first and then in the second.
pub proof fn said_in_parts<'a>(t: TapeView<'a>, x: TapeView<'a>, u: TapeView<'a>)
    requires
        follows(t, x),
        follows(x, u),
    ensures
        follows(t, u),
        said(t, u) == said(t, x) + said(x, u),
{
    assert forall|i: int| 0 <= i < t.asked.len() implies #[trigger] u.asked[i] == t.asked[i] by {
        assert(x.asked[i] == t.asked[i]);
    }
    assert(said(t, u) =~= said(t, x) + said(x, u)) by {
        assert forall|k: int| 0 <= k < x.at - t.at implies #[trigger] u.asked[t.asked.len() + k]
            == x.asked[t.asked.len() + k] by {}
    }
}

/// What is picked out of what was said, in order.
pub open spec fn picked<'a, T>(ss: Seq<Said<'a>>, f: spec_fn(Said<'a>) -> Option<T>) -> Seq<T>
    decreases ss.len(),
{
    if ss.len() == 0 {
        Seq::empty()
    } else {
        let before = picked(ss.drop_last(), f);
        match f(ss.last()) {
            Some(x) => before.push(x),
            None => before,
        }
    }
}

/// What is picked out of two parts is what is picked out of the first and then out of the second.
pub proof fn picked_in_parts<'a, T>(
    ss: Seq<Said<'a>>,
    more: Seq<Said<'a>>,
    f: spec_fn(Said<'a>) -> Option<T>,
)
    ensures
        picked(ss + more, f) == picked(ss, f) + picked(more, f),
    decreases more.len(),
{
    if more.len() == 0 {
        assert(ss + more =~= ss);
        assert(picked(ss, f) + picked(more, f) =~= picked(ss, f));
    } else {
        picked_in_parts(ss, more.drop_last(), f);
        assert((ss + more).drop_last() =~= ss + more.drop_last());
        assert((ss + more).last() == more.last());
        if let Some(x) = f(more.last()) {
            assert((picked(ss, f) + picked(more.drop_last(), f)).push(x) =~= picked(ss, f) + picked(
                more.drop_last(),
                f,
            ).push(x));
        }
    }
}

/// What is picked out of a single question and its answer.
pub proof fn picked_from_one<'a, T>(x: Said<'a>, f: spec_fn(Said<'a>) -> Option<T>)
    ensures
        picked(seq![x], f) == match f(x) {
            Some(v) => seq![v],
            None => Seq::<T>::empty(),
        },
        picked(Seq::<Said<'a>>::empty(), f) == Seq::<T>::empty(),
{
    reveal_with_fuel(picked, 2);
    assert(seq![x].drop_last() =~= Seq::empty());
    assert(seq![x].last() == x);
    if let Some(v) = f(x) {
        assert(Seq::<T>::empty().push(v) =~= seq![v]);
    }
}

/// Nothing is picked out where there is nothing to pick.
pub proof fn nothing_is_picked<'a, T>(ss: Seq<Said<'a>>, f: spec_fn(Said<'a>) -> Option<T>)
    requires
        forall|k: int| 0 <= k < ss.len() ==> f(#[trigger] ss[k]) is None,
    ensures
        picked(ss, f) == Seq::<T>::empty(),
    decreases ss.len(),
{
    if ss.len() > 0 {
        assert(f(ss[ss.len() - 1]) is None);
        nothing_is_picked(ss.drop_last(), f);
    }
}

/// The same, between two tapes.
pub proof fn nothing_is_picked_between<'a, T>(
    t: TapeView<'a>,
    u: TapeView<'a>,
    f: spec_fn(Said<'a>) -> Option<T>,
)
    requires
        follows(t, u),
        forall|i: int, r: Reply|
            t.asked.len() <= i < u.asked.len() ==> f(#[trigger] qa(u.asked[i], r)) is None,
    ensures
        picked(said(t, u), f) == Seq::<T>::empty(),
{
    assert forall|k: int| 0 <= k < said(t, u).len() implies f(#[trigger] said(t, u)[k]) is None by {
        assert(said(t, u)[k] == qa(u.asked[t.asked.len() + k], t.log[t.at + k]));
    }
    nothing_is_picked(said(t, u), f);
}

} // verus!

//! The cooperative view stack: passive views redraw every frame while
//! one active view consumes input and may end the loop with a result.
//! Each frame first redraws every suspended passive view, outermost
//! first, then the yielding caller, then the active view's own
//! background; the active view then handles the frame's events and
//! either continues or finishes.
use vstd::prelude::*;

pub mod prefab;

verus! {

use crate::gfx::UiCmd;

/// The keys the prefab views react to.
#[derive(Debug, Clone, PartialEq, Eq)]
pub enum KeyCode {
    Return,
    Backspace,
    Escape,
    Other,
}

/// One input event handed to the active view.
#[derive(Debug, Clone, PartialEq, Eq)]
pub enum GuiEvent {
    /// A key went down.
    KeyDown(KeyCode),
    /// The platform's text-input mode produced text.
    TextInput(String),
    /// Any event the views do not react to.
    Other,
}

/// Everything one frame feeds the loop: the sampled time and the
/// events drained from the platform queue, in arrival order.
#[derive(Debug)]
pub struct FrameInput {
    pub time: u64,
    pub events: Vec<GuiEvent>,
}

/// A view that only redraws: it can never consume input nor end the
/// loop. Its behaviour is stated over a mathematical model of its
/// state.
pub trait PassiveView: Sized {
    /// The mathematical model of the view's state.
    type Model;

    /// The model of this state.
    spec fn model(self) -> Self::Model;

    /// The model and the commands after one passive redraw at `time`.
    spec fn spec_passive(m: Self::Model, time: u64) -> (Self::Model, Seq<UiCmd>);

    /// Redraw for one frame.
    fn passive_update(&mut self, time: u64) -> (cmds: Vec<UiCmd>)
        ensures
            final(self).model() == Self::spec_passive(old(self).model(), time).0,
            cmds@ == Self::spec_passive(old(self).model(), time).1,
    ;
}

/// A view that may own the frame loop: it also redraws passively, and
/// each frame it handles the drained events and may finish with a
/// result.
pub trait ActiveView: PassiveView {
    /// What the view hands back when it finishes.
    type Output;

    /// The mathematical model of a finished result.
    type OutputModel;

    /// The model of a result value.
    spec fn output_model(o: Self::Output) -> Self::OutputModel;

    /// Whether the view can handle these events in this state.
    spec fn spec_accepts(m: Self::Model, events: Seq<GuiEvent>) -> bool;

    /// The model, the commands and the optional result model of
    /// handling `events` at `time`.
    spec fn spec_active(m: Self::Model, events: Seq<GuiEvent>, time: u64) -> (
        Self::Model,
        Seq<UiCmd>,
        Option<Self::OutputModel>,
    );

    /// Handle one frame's events; a `Some` result ends the loop.
    fn active_update(&mut self, events: &Vec<GuiEvent>, time: u64) -> (r: (
        Vec<UiCmd>,
        Option<Self::Output>,
    ))
        requires
            Self::spec_accepts(old(self).model(), events@),
        ensures
            final(self).model() == Self::spec_active(old(self).model(), events@, time).0,
            r.0@ == Self::spec_active(old(self).model(), events@, time).1,
            r.1 is Some <==> Self::spec_active(old(self).model(), events@, time).2 is Some,
            r.1 matches Some(v) ==> Self::spec_active(old(self).model(), events@, time).2
                == Some(Self::output_model(v)),
    ;
}

/// The models of a stack of passive views, in stack order.
pub open spec fn spec_models<P: PassiveView>(ps: Seq<P>) -> Seq<P::Model> {
    ps.map_values(|p: P| p.model())
}

/// Every passive view stepped once at `time`, in place.
pub open spec fn spec_step_passives<P: PassiveView>(ms: Seq<P::Model>, time: u64) -> Seq<
    P::Model,
> {
    ms.map_values(|m: P::Model| P::spec_passive(m, time).0)
}

/// The redraw commands of the passive stack, outermost first.
pub open spec fn spec_passives_cmds<P: PassiveView>(ms: Seq<P::Model>, time: u64) -> Seq<UiCmd>
    decreases ms.len(),
{
    if ms.len() == 0 {
        Seq::empty()
    } else {
        P::spec_passive(ms[0], time).1 + spec_passives_cmds::<P>(ms.drop_first(), time)
    }
}

/// The redraw half of one frame: the suspended passive views redraw
/// outermost first, then the yielding caller, then the active view's
/// own background, commands composited in exactly that order. Events
/// drained after this redraw go to the active view's `active_update`,
/// which is how `frame_step` composes a whole frame.
pub fn frame_redraw<C: PassiveView, A: PassiveView, P: PassiveView>(
    caller: &mut C,
    active: &mut A,
    passives: &mut Vec<P>,
    time: u64,
) -> (cmds: Vec<UiCmd>)
    ensures
        spec_models(final(passives)@) == spec_step_passives::<P>(
            spec_models(old(passives)@),
            time,
        ),
        final(caller).model() == C::spec_passive(old(caller).model(), time).0,
        final(active).model() == A::spec_passive(old(active).model(), time).0,
        cmds@ == spec_passives_cmds::<P>(spec_models(old(passives)@), time) + C::spec_passive(
            old(caller).model(),
            time,
        ).1 + A::spec_passive(old(active).model(), time).1,
{
    let mut cmds: Vec<UiCmd> = Vec::new();
    let n: usize = passives.len();
    let mut i: usize = 0;
    proof {
        assert(spec_models(old(passives)@).skip(0) =~= spec_models(old(passives)@));
        assert(cmds@ + spec_passives_cmds::<P>(spec_models(old(passives)@), time)
            =~= spec_passives_cmds::<P>(spec_models(old(passives)@), time));
    }
    while i < n
        invariant
            n == old(passives)@.len(),
            passives@.len() == n,
            0 <= i <= n,
            forall|j: int| i <= j < n ==> passives@[j] == old(passives)@[j],
            forall|j: int|
                0 <= j < i ==> (#[trigger] passives@[j]).model() == P::spec_passive(
                    old(passives)@[j].model(),
                    time,
                ).0,
            cmds@ + spec_passives_cmds::<P>(spec_models(old(passives)@).skip(i as int), time)
                == spec_passives_cmds::<P>(spec_models(old(passives)@), time),
        decreases n - i,
    {
        proof {
            assert(spec_models(old(passives)@).skip(i as int)[0] == old(
                passives,
            )@[i as int].model());
            assert(spec_models(old(passives)@).skip(i as int).drop_first() =~= spec_models(
                old(passives)@,
            ).skip(i as int + 1));
        }
        let mut view_cmds = passives[i].passive_update(time);
        cmds.append(&mut view_cmds);
        i = i + 1;
        proof {
            assert(cmds@ + spec_passives_cmds::<P>(
                spec_models(old(passives)@).skip(i as int),
                time,
            ) =~= spec_passives_cmds::<P>(spec_models(old(passives)@), time));
        }
    }
    proof {
        assert(spec_models(old(passives)@).skip(n as int) =~= Seq::<P::Model>::empty());
        assert(cmds@ =~= spec_passives_cmds::<P>(spec_models(old(passives)@), time));
        assert(spec_models(passives@) =~= spec_step_passives::<P>(
            spec_models(old(passives)@),
            time,
        ));
    }
    let mut caller_cmds = caller.passive_update(time);
    cmds.append(&mut caller_cmds);
    let mut active_bg_cmds = active.passive_update(time);
    cmds.append(&mut active_bg_cmds);
    cmds
}

/// One frame of the cooperative loop: the suspended passive views
/// redraw outermost first, then the yielding caller, then the active
/// view's own background; the active view then handles the events and
/// may finish. The returned commands composite in exactly that order,
/// and only the active view may produce a result.
pub fn frame_step<C: PassiveView, A: ActiveView, P: PassiveView>(
    caller: &mut C,
    active: &mut A,
    passives: &mut Vec<P>,
    events: &Vec<GuiEvent>,
    time: u64,
) -> (r: (Vec<UiCmd>, Option<A::Output>))
    requires
        A::spec_accepts(A::spec_passive(old(active).model(), time).0, events@),
    ensures
        spec_models(final(passives)@) == spec_step_passives::<P>(
            spec_models(old(passives)@),
            time,
        ),
        final(caller).model() == C::spec_passive(old(caller).model(), time).0,
        final(active).model() == A::spec_active(
            A::spec_passive(old(active).model(), time).0,
            events@,
            time,
        ).0,
        r.0@ == spec_passives_cmds::<P>(spec_models(old(passives)@), time) + C::spec_passive(
            old(caller).model(),
            time,
        ).1 + A::spec_passive(old(active).model(), time).1 + A::spec_active(
            A::spec_passive(old(active).model(), time).0,
            events@,
            time,
        ).1,
        r.1 is Some <==> A::spec_active(
            A::spec_passive(old(active).model(), time).0,
            events@,
            time,
        ).2 is Some,
        r.1 matches Some(v) ==> A::spec_active(
            A::spec_passive(old(active).model(), time).0,
            events@,
            time,
        ).2 == Some(A::output_model(v)),
{
    let mut cmds = frame_redraw(caller, active, passives, time);
    let step = active.active_update(events, time);
    let (mut active_cmds, out) = step;
    cmds.append(&mut active_cmds);
    proof {
        assert(cmds@ =~= spec_passives_cmds::<P>(spec_models(old(passives)@), time)
            + C::spec_passive(old(caller).model(), time).1 + A::spec_passive(
            old(active).model(),
            time,
        ).1 + A::spec_active(
            A::spec_passive(old(active).model(), time).0,
            events@,
            time,
        ).1);
    }
    (cmds, out)
}

/// The final models and result of running the loop over `frames`:
/// each frame steps every view passively, then lets the active view
/// handle the events; the first `Some` the active view returns ends
/// the session.
pub open spec fn spec_yield<C: PassiveView, A: ActiveView, P: PassiveView>(
    caller: C::Model,
    active: A::Model,
    passives: Seq<P::Model>,
    frames: Seq<FrameInput>,
) -> (C::Model, A::Model, Seq<P::Model>, Option<A::OutputModel>)
    decreases frames.len(),
{
    if frames.len() == 0 {
        (caller, active, passives, None)
    } else {
        let f = frames[0];
        let c1 = C::spec_passive(caller, f.time).0;
        let ps1 = spec_step_passives::<P>(passives, f.time);
        let act = A::spec_active(A::spec_passive(active, f.time).0, f.events@, f.time);
        if act.2 is Some {
            (c1, act.0, ps1, act.2)
        } else {
            spec_yield::<C, A, P>(c1, act.0, ps1, frames.drop_first())
        }
    }
}

/// How many frames the session consumes: every frame up to and
/// including the one whose active update finishes.
pub open spec fn spec_yield_used<C: PassiveView, A: ActiveView, P: PassiveView>(
    caller: C::Model,
    active: A::Model,
    passives: Seq<P::Model>,
    frames: Seq<FrameInput>,
) -> int
    decreases frames.len(),
{
    if frames.len() == 0 {
        0
    } else {
        let f = frames[0];
        let c1 = C::spec_passive(caller, f.time).0;
        let ps1 = spec_step_passives::<P>(passives, f.time);
        let act = A::spec_active(A::spec_passive(active, f.time).0, f.events@, f.time);
        if act.2 is Some {
            1
        } else {
            1 + spec_yield_used::<C, A, P>(c1, act.0, ps1, frames.drop_first())
        }
    }
}

/// The commands composited for each consumed frame, in frame order.
pub open spec fn spec_yield_cmds<C: PassiveView, A: ActiveView, P: PassiveView>(
    caller: C::Model,
    active: A::Model,
    passives: Seq<P::Model>,
    frames: Seq<FrameInput>,
) -> Seq<Seq<UiCmd>>
    decreases frames.len(),
{
    if frames.len() == 0 {
        Seq::empty()
    } else {
        let f = frames[0];
        let c1 = C::spec_passive(caller, f.time).0;
        let ps1 = spec_step_passives::<P>(passives, f.time);
        let act = A::spec_active(A::spec_passive(active, f.time).0, f.events@, f.time);
        let frame_cmds = spec_passives_cmds::<P>(passives, f.time) + C::spec_passive(
            caller,
            f.time,
        ).1 + A::spec_passive(active, f.time).1 + act.1;
        if act.2 is Some {
            seq![frame_cmds]
        } else {
            seq![frame_cmds] + spec_yield_cmds::<C, A, P>(c1, act.0, ps1, frames.drop_first())
        }
    }
}

/// Whether the active view accepts each frame's events at the state
/// it will be in when that frame reaches it.
pub open spec fn spec_session_ok<C: PassiveView, A: ActiveView, P: PassiveView>(
    caller: C::Model,
    active: A::Model,
    passives: Seq<P::Model>,
    frames: Seq<FrameInput>,
) -> bool
    decreases frames.len(),
{
    if frames.len() == 0 {
        true
    } else {
        let f = frames[0];
        let a1 = A::spec_passive(active, f.time).0;
        let act = A::spec_active(a1, f.events@, f.time);
        A::spec_accepts(a1, f.events@) && (act.2 is Some || spec_session_ok::<C, A, P>(
            C::spec_passive(caller, f.time).0,
            act.0,
            spec_step_passives::<P>(passives, f.time),
            frames.drop_first(),
        ))
    }
}

/// Run the cooperative loop over the recorded frames until the active
/// view finishes or the frames run out. Hands back the result, how
/// many frames were consumed, and each consumed frame's composited
/// commands.
pub fn yield_to<C: PassiveView, A: ActiveView, P: PassiveView>(
    caller: &mut C,
    active: &mut A,
    passives: &mut Vec<P>,
    frames: &Vec<FrameInput>,
) -> (r: (Option<A::Output>, usize, Vec<Vec<UiCmd>>))
    requires
        spec_session_ok::<C, A, P>(
            old(caller).model(),
            old(active).model(),
            spec_models(old(passives)@),
            frames@,
        ),
    ensures
        final(caller).model() == spec_yield::<C, A, P>(
            old(caller).model(),
            old(active).model(),
            spec_models(old(passives)@),
            frames@,
        ).0,
        final(active).model() == spec_yield::<C, A, P>(
            old(caller).model(),
            old(active).model(),
            spec_models(old(passives)@),
            frames@,
        ).1,
        spec_models(final(passives)@) == spec_yield::<C, A, P>(
            old(caller).model(),
            old(active).model(),
            spec_models(old(passives)@),
            frames@,
        ).2,
        r.0 is Some <==> spec_yield::<C, A, P>(
            old(caller).model(),
            old(active).model(),
            spec_models(old(passives)@),
            frames@,
        ).3 is Some,
        r.0 matches Some(v) ==> spec_yield::<C, A, P>(
            old(caller).model(),
            old(active).model(),
            spec_models(old(passives)@),
            frames@,
        ).3 == Some(A::output_model(v)),
        r.1 == spec_yield_used::<C, A, P>(
            old(caller).model(),
            old(active).model(),
            spec_models(old(passives)@),
            frames@,
        ),
        r.2@.len() == r.1,
        forall|k: int|
            0 <= k < r.1 ==> (#[trigger] r.2@[k])@ == spec_yield_cmds::<C, A, P>(
                old(caller).model(),
                old(active).model(),
                spec_models(old(passives)@),
                frames@,
            )[k],
{
    let ghost om_c = old(caller).model();
    let ghost om_a = old(active).model();
    let ghost om_p = spec_models(old(passives)@);
    let n: usize = frames.len();
    let mut i: usize = 0;
    let mut result: Option<A::Output> = None;
    let mut all_cmds: Vec<Vec<UiCmd>> = Vec::new();
    proof {
        assert(frames@.skip(0) =~= frames@);
        assert(frames@.skip(frames@.len() as int) =~= Seq::<FrameInput>::empty());
    }
    while i < n
        invariant_except_break
            frames@.skip(n as int) == Seq::<FrameInput>::empty(),
            n == frames@.len(),
            0 <= i <= n,
            result is None,
            all_cmds@.len() == i,
            spec_session_ok::<C, A, P>(
                caller.model(),
                active.model(),
                spec_models(passives@),
                frames@.skip(i as int),
            ),
            spec_yield::<C, A, P>(om_c, om_a, om_p, frames@) == spec_yield::<C, A, P>(
                caller.model(),
                active.model(),
                spec_models(passives@),
                frames@.skip(i as int),
            ),
            spec_yield_used::<C, A, P>(om_c, om_a, om_p, frames@) == i + spec_yield_used::<
                C,
                A,
                P,
            >(caller.model(), active.model(), spec_models(passives@), frames@.skip(i as int)),
            spec_yield_cmds::<C, A, P>(om_c, om_a, om_p, frames@) == Seq::new(
                all_cmds@.len(),
                |k: int| all_cmds@[k]@,
            ) + spec_yield_cmds::<C, A, P>(
                caller.model(),
                active.model(),
                spec_models(passives@),
                frames@.skip(i as int),
            ),
        ensures
            i <= n,
            all_cmds@.len() == i,
            caller.model() == spec_yield::<C, A, P>(om_c, om_a, om_p, frames@).0,
            active.model() == spec_yield::<C, A, P>(om_c, om_a, om_p, frames@).1,
            spec_models(passives@) == spec_yield::<C, A, P>(om_c, om_a, om_p, frames@).2,
            result is Some <==> spec_yield::<C, A, P>(om_c, om_a, om_p, frames@).3 is Some,
            result matches Some(v) ==> spec_yield::<C, A, P>(om_c, om_a, om_p, frames@).3 == Some(
                A::output_model(v),
            ),
            i == spec_yield_used::<C, A, P>(om_c, om_a, om_p, frames@),
            spec_yield_cmds::<C, A, P>(om_c, om_a, om_p, frames@) == Seq::new(
                all_cmds@.len(),
                |k: int| all_cmds@[k]@,
            ),
        decreases n - i,
    {
        proof {
            assert(frames@.skip(i as int)[0] == frames@[i as int]);
            assert(frames@.skip(i as int).drop_first() =~= frames@.skip(i as int + 1));
        }
        let f = &frames[i];
        let step = frame_step(caller, active, passives, &f.events, f.time);
        let (frame_cmds, out) = step;
        all_cmds.push(frame_cmds);
        i = i + 1;
        proof {
            assert(Seq::new(all_cmds@.len(), |k: int| all_cmds@[k]@) =~= Seq::new(
                (all_cmds@.len() - 1) as nat,
                |k: int| all_cmds@[k]@,
            ).push(all_cmds@[all_cmds@.len() - 1]@));
        }
        if out.is_some() {
            result = out;
            break ;
        }
        proof {
            assert(spec_yield_cmds::<C, A, P>(om_c, om_a, om_p, frames@) =~= Seq::new(
                all_cmds@.len(),
                |k: int| all_cmds@[k]@,
            ) + spec_yield_cmds::<C, A, P>(
                caller.model(),
                active.model(),
                spec_models(passives@),
                frames@.skip(i as int),
            ));
        }
    }
    proof {
        if i == n && result is None {
            assert(frames@.skip(n as int) =~= Seq::<FrameInput>::empty());
        }
    }
    (result, i, all_cmds)
}

} // verus!

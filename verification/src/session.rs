//! Editor-session decisions: which one-shots are armed for a scene,
//! what happens to running ambients after a re-evaluation, when the
//! live-coding loop re-evaluates, how a failing script is reported, and
//! the confirmation flow around replacing a project with unsaved work.
//! The host performs the actions these functions decide.

use vstd::prelude::*;

use crate::patches::PatchRole;
use crate::text::{push_decimal, decimal, str_eq};

verus! {

/// Source location of an evaluation error, for the error banner.
#[derive(Debug, Clone)]
pub struct ErrorContext {
    pub filename: String,
    pub line: usize,
    pub column: usize,
    pub source_line: String,
}

/// The error currently shown for a script that does not evaluate.
#[derive(Debug, Clone)]
pub struct LiveError {
    pub message: String,
    pub started_at: std::time::Instant,
    /// `true` once the error has been written to the log pane.
    pub logged: bool,
    pub context: Option<ErrorContext>,
}

/// Live-evaluation bookkeeping.
#[derive(Debug)]
pub struct LiveEvalState {
    /// When the buffer was last edited, if an edit awaits the debounce.
    pub last_change: Option<std::time::Instant>,
    /// The source at the last evaluation.
    pub last_eval_source: String,
    /// The current failure, if the script does not evaluate cleanly.
    pub error: Option<LiveError>,
}

impl Default for LiveEvalState {
    fn default() -> (s: LiveEvalState)
        ensures
            s.last_change is None,
            s.last_eval_source@.len() == 0,
            s.error is None,
    {
        LiveEvalState { last_change: None, last_eval_source: String::new(), error: None }
    }
}

/// What to perform once the user has agreed to discard unsaved changes.
#[derive(Debug, Clone, Copy, PartialEq, Eq, Structural)]
pub enum PendingAction {
    /// Start a fresh untitled project.
    NewProject,
    /// Open a project from a directory the user picks.
    OpenProject,
}

/// A dialog drawn on top of the normal interface.
#[allow(inconsistent_fields)]
#[derive(Debug, Clone)]
pub enum Modal {
    /// Confirm discarding unsaved changes before `action`.
    ConfirmDiscard { action: PendingAction },
    /// Edit a script's filename (`index` is `None` for a new script).
    EditFilename { index: Option<usize>, input: String },
    /// Confirm deleting a script.
    ConfirmDelete { index: usize },
}

/// Outcome of asking to replace the current project.
#[derive(Debug, Clone)]
pub enum ReplaceDecision {
    /// Ask first: show this dialog.
    Confirm(Modal),
    /// Go ahead with the action now.
    Proceed(PendingAction),
}

/// Replacing the project asks for confirmation exactly when it has
/// unsaved changes.
pub fn decide_replace(dirty: bool, action: PendingAction) -> (d: ReplaceDecision)
    ensures
        dirty ==> (d matches ReplaceDecision::Confirm(Modal::ConfirmDiscard { action: a }) && a
            == action),
        !dirty ==> d == ReplaceDecision::Proceed(action),
{
    if dirty {
        ReplaceDecision::Confirm(Modal::ConfirmDiscard { action })
    } else {
        ReplaceDecision::Proceed(action)
    }
}

/// Views of a list of strings.
pub open spec fn views(v: Seq<String>) -> Seq<Seq<char>> {
    v.map_values(|s: String| s@)
}

fn contains_str(v: &[String], name: &str) -> (b: bool)
    ensures
        b == views(v@).contains(name@),
{
    let n = v.len();
    for i in 0..n
        invariant
            n == v@.len(),
            forall|j: int| 0 <= j < i ==> #[trigger] v@[j]@ != name@,
    {
        if str_eq(v[i].as_str(), name) {
            assert(views(v@)[i as int] == name@);
            return true;
        }
    }
    assert forall|j: int| 0 <= j < views(v@).len() implies views(v@)[j] != name@ by {
        assert(v@[j]@ != name@);
    }
    false
}

/// One-shot patches armed for the scene-fire button: a set of names.
#[derive(Debug, Clone)]
pub struct ArmedSet {
    names: Vec<String>,
}

impl ArmedSet {
    /// The armed names, in the order they were armed.
    pub closed spec fn view(&self) -> Seq<Seq<char>> {
        views(self.names@)
    }

    pub open spec fn wf(&self) -> bool {
        self.view().no_duplicates()
    }

    /// Nothing armed.
    pub fn new() -> (a: ArmedSet)
        ensures
            a.wf(),
            a.view().len() == 0,
    {
        ArmedSet { names: Vec::new() }
    }

    pub fn contains(&self, name: &str) -> (b: bool)
        ensures
            b == self.view().contains(name@),
    {
        contains_str(self.names.as_slice(), name)
    }

    pub fn is_empty(&self) -> (b: bool)
        ensures
            b == (self.view().len() == 0),
    {
        self.names.len() == 0
    }

    pub fn len(&self) -> (n: usize)
        ensures
            n == self.view().len(),
    {
        self.names.len()
    }

    fn position(&self, name: &str) -> (r: Option<usize>)
        ensures
            r is None ==> !self.view().contains(name@),
            r matches Some(i) ==> i < self.view().len() && self.view()[i as int] == name@,
    {
        let n = self.names.len();
        for i in 0..n
            invariant
                n == self.names@.len(),
                forall|j: int| 0 <= j < i ==> #[trigger] self.names@[j]@ != name@,
        {
            if str_eq(self.names[i].as_str(), name) {
                return Some(i);
            }
        }
        assert(!self.view().contains(name@)) by {
            if self.view().contains(name@) {
                let k = self.view().index_of(name@);
                assert(self.names@[k]@ == name@);
            }
        }
        None
    }

    /// Arm `name` if it is not armed, disarm it if it is.
    pub fn toggle(&mut self, name: &str)
        requires
            old(self).wf(),
        ensures
            final(self).wf(),
            final(self).view().contains(name@) == !old(self).view().contains(name@),
            forall|n: Seq<char>|
                n != name@ ==> (#[trigger] final(self).view().contains(n) == old(self).view().contains(
                    n,
                )),
    {
        let ghost before = self.view();
        match self.position(name) {
            Some(i) => {
                self.names.remove(i);
                let ghost after = self.view();
                proof {
                    assert(after =~= before.remove(i as int));
                    assert(before.contains(name@));
                    assert forall|a: int, b: int|
                        0 <= a < after.len() && 0 <= b < after.len() && a != b implies after[a]
                        != after[b] by {
                        let a2 = if a < i { a } else { a + 1 };
                        let b2 = if b < i { b } else { b + 1 };
                        assert(before[a2] != before[b2]);
                    }
                    if after.contains(name@) {
                        let k = after.index_of(name@);
                        let k2 = if k < i { k } else { k + 1 };
                        assert(before[k2] == name@);
                        assert(k2 != i);
                        assert(before[k2] != before[i as int]);
                    }
                    assert forall|x: Seq<char>| x != name@ implies #[trigger] after.contains(x)
                        == before.contains(x) by {
                        if before.contains(x) {
                            let k = before.index_of(x);
                            assert(k != i);
                            let k2 = if k < i { k } else { k - 1 };
                            assert(after[k2] == x);
                        }
                        if after.contains(x) {
                            let k = after.index_of(x);
                            let k2 = if k < i { k } else { k + 1 };
                            assert(before[k2] == x);
                        }
                    }
                }
            },
            None => {
                self.names.push(String::from_str(name));
                let ghost after = self.view();
                proof {
                    assert(after =~= before.push(name@));
                    assert(after[before.len() as int] == name@);
                    assert forall|a: int, b: int|
                        0 <= a < after.len() && 0 <= b < after.len() && a != b implies after[a]
                        != after[b] by {
                        if a < before.len() && b < before.len() {
                        } else if a < before.len() {
                            assert(before[a] != name@) by {
                                assert(before.contains(before[a]));
                            }
                        } else {
                            assert(before[b] != name@) by {
                                assert(before.contains(before[b]));
                            }
                        }
                    }
                    assert forall|x: Seq<char>| x != name@ implies #[trigger] after.contains(x)
                        == before.contains(x) by {
                        if after.contains(x) {
                            let k = after.index_of(x);
                            assert(k < before.len());
                            assert(before[k] == x);
                        }
                        if before.contains(x) {
                            let k = before.index_of(x);
                            assert(after[k] == x);
                        }
                    }
                }
            },
        }
    }

    /// Disarm every name that is not in `known` (used after evaluation,
    /// when patches may have disappeared).
    pub fn retain_known(&mut self, known: &[String])
        requires
            old(self).wf(),
        ensures
            final(self).wf(),
            final(self).view() == old(self).view().filter(|n: Seq<char>| views(known@).contains(n)),
    {
        let ghost before = self.view();
        let ghost keep = |n: Seq<char>| views(known@).contains(n);
        let mut kept: Vec<String> = Vec::new();
        let n = self.names.len();
        for i in 0..n
            invariant
                n == self.names@.len(),
                before == views(self.names@),
                before.no_duplicates(),
                keep == (|n: Seq<char>| views(known@).contains(n)),
                views(kept@) == before.take(i as int).filter(keep),
                views(kept@).no_duplicates(),
                forall|x: Seq<char>| #[trigger] views(kept@).contains(x) ==> before.take(i as int).contains(x),
        {
            assert(self.names@[i as int]@ == before[i as int]);
            assert(before.take(i + 1).filter(keep) == if keep(before[i as int]) {
                before.take(i as int).filter(keep).push(before[i as int])
            } else {
                before.take(i as int).filter(keep)
            }) by {
                reveal_with_fuel(Seq::<_>::filter, 1);
                assert(before.take(i + 1).drop_last() =~= before.take(i as int));
                assert(before.take(i + 1).last() == before[i as int]);
            }
            let found = contains_str(known, self.names[i].as_str());
            assert(self.names@[i as int]@ == before[i as int]);
            assert(found == views(known@).contains(before[i as int]));
            assert(found == keep(before[i as int]));
            if found {
                let ghost old_kept = views(kept@);
                kept.push(self.names[i].clone());
                assert(views(kept@) =~= old_kept.push(before[i as int]));
                proof {
                    assert(!before.take(i as int).contains(before[i as int])) by {
                        if before.take(i as int).contains(before[i as int]) {
                            let k = before.take(i as int).index_of(before[i as int]);
                            assert(before[k] == before[i as int]);
                        }
                    }
                    assert(!old_kept.contains(before[i as int]));
                    assert forall|a: int, b: int|
                        0 <= a < views(kept@).len() && 0 <= b < views(kept@).len() && a != b implies views(kept@)[a]
                        != views(kept@)[b] by {
                        if a < old_kept.len() && b < old_kept.len() {
                        } else if a < old_kept.len() {
                            assert(old_kept.contains(old_kept[a]));
                        } else {
                            assert(old_kept.contains(old_kept[b]));
                        }
                    }
                    assert forall|x: Seq<char>| #[trigger] views(kept@).contains(x) implies before.take(i + 1).contains(x) by {
                        if x == before[i as int] {
                            assert(before.take(i + 1)[i as int] == x);
                        } else {
                            let k = views(kept@).index_of(x);
                            assert(old_kept[k] == x);
                            assert(old_kept.contains(x));
                            let k2 = before.take(i as int).index_of(x);
                            assert(before.take(i + 1)[k2] == x);
                        }
                    }
                }
            } else {
                assert(views(kept@) =~= before.take(i as int).filter(keep));
                proof {
                    assert forall|x: Seq<char>| #[trigger] views(kept@).contains(x) implies before.take(i + 1).contains(x) by {
                        let k2 = before.take(i as int).index_of(x);
                        assert(before.take(i + 1)[k2] == x);
                    }
                }
            }
        }
        assert(before.take(n as int) =~= before);
        self.names = kept;
    }

    /// The armed names, in the order they were armed.
    pub fn names(&self) -> (v: Vec<String>)
        ensures
            views(v@) == self.view(),
    {
        let v = self.names.clone();
        assert(views(v@) =~= views(self.names@)) by {
            assert(v@.len() == self.names@.len());
            assert forall|i: int| 0 <= i < v@.len() implies v@[i]@ == self.names@[i]@ by {
                assert(vstd::pervasive::cloned(self.names@[i], v@[i]));
            }
        }
        v
    }
}

/// Law: arming toggles are their own inverse; toggling a name twice
/// leaves the armed set's membership as it was.
pub proof fn law_toggle_twice(before: Seq<Seq<char>>, mid: Seq<Seq<char>>, after: Seq<Seq<char>>, name: Seq<char>)
    requires
        mid.contains(name) == !before.contains(name),
        forall|n: Seq<char>| n != name ==> (#[trigger] mid.contains(n) == before.contains(n)),
        after.contains(name) == !mid.contains(name),
        forall|n: Seq<char>| n != name ==> (#[trigger] after.contains(n) == mid.contains(n)),
    ensures
        forall|n: Seq<char>| #[trigger] after.contains(n) == before.contains(n),
{
    assert forall|n: Seq<char>| #[trigger] after.contains(n) == before.contains(n) by {
        if n != name {
            assert(mid.contains(n) == before.contains(n));
        }
    }
}

/// What to do with one running ambient after a re-evaluation.
#[derive(Debug, Clone, Copy, PartialEq, Eq, Structural)]
pub enum ReconcileKind {
    /// Its patch no longer exists: fade it out.
    FadeOut,
    /// Its patch still exists and live mode is on: crossfade into the
    /// new rendering.
    Crossfade,
}

/// One planned action on a running ambient.
#[derive(Debug, Clone)]
pub struct AmbientAction {
    pub kind: ReconcileKind,
    pub name: String,
}

/// The actions planned for running ambients `playing`, in order: fade
/// out those whose patch is gone; crossfade the rest when live mode is
/// on; leave them alone otherwise.
pub open spec fn reconcile_plan(playing: Seq<Seq<char>>, known: Seq<Seq<char>>, live: bool) -> Seq<(ReconcileKind, Seq<char>)>
    decreases playing.len(),
{
    if playing.len() == 0 {
        Seq::empty()
    } else {
        let rest = reconcile_plan(playing.drop_last(), known, live);
        let n = playing.last();
        if !known.contains(n) {
            rest.push((ReconcileKind::FadeOut, n))
        } else if live {
            rest.push((ReconcileKind::Crossfade, n))
        } else {
            rest
        }
    }
}

/// Law: after an evaluation every running ambient whose patch is gone is
/// faded out, never crossfaded, whatever the live flag; crossfades go
/// only to ambients whose patch still exists, and only in live mode;
/// every planned action names a running ambient; and in live mode every
/// ambient whose patch still exists is crossfaded.
pub proof fn law_reconcile_fades_out_vanished(playing: Seq<Seq<char>>, known: Seq<Seq<char>>, live: bool)
    ensures
        forall|i: int|
            0 <= i < reconcile_plan(playing, known, live).len() ==> {
                let (kind, name) = #[trigger] reconcile_plan(playing, known, live)[i];
                &&& playing.contains(name)
                &&& kind == ReconcileKind::FadeOut <==> !known.contains(name)
                &&& kind == ReconcileKind::Crossfade ==> live
            },
        forall|j: int|
            0 <= j < playing.len() && !known.contains(#[trigger] playing[j]) ==> reconcile_plan(
                playing,
                known,
                live,
            ).contains((ReconcileKind::FadeOut, playing[j])),
        forall|j: int|
            0 <= j < playing.len() && live && known.contains(#[trigger] playing[j]) ==> reconcile_plan(
                playing,
                known,
                live,
            ).contains((ReconcileKind::Crossfade, playing[j])),
    decreases playing.len(),
{
    if playing.len() > 0 {
        let p0 = playing.drop_last();
        law_reconcile_fades_out_vanished(p0, known, live);
        let rest = reconcile_plan(p0, known, live);
        let plan = reconcile_plan(playing, known, live);
        let n = playing.last();
        assert forall|i: int| 0 <= i < plan.len() implies {
            let (kind, name) = #[trigger] plan[i];
            &&& playing.contains(name)
            &&& kind == ReconcileKind::FadeOut <==> !known.contains(name)
            &&& kind == ReconcileKind::Crossfade ==> live
        } by {
            if i < rest.len() {
                assert(plan[i] == rest[i]);
                let name = rest[i].1;
                assert(p0.contains(name));
                let k = choose|k: int| 0 <= k < p0.len() && p0[k] == name;
                assert(playing[k] == name);
            } else {
                assert(playing[playing.len() - 1] == n);
            }
        }
        assert forall|j: int|
            0 <= j < playing.len() && !known.contains(#[trigger] playing[j]) implies plan.contains(
            (ReconcileKind::FadeOut, playing[j]),
        ) by {
            if j < p0.len() {
                assert(p0[j] == playing[j]);
                let k = choose|k: int|
                    0 <= k < rest.len() && rest[k] == (ReconcileKind::FadeOut, p0[j]);
                assert(plan[k] == rest[k]);
            } else {
                assert(plan[plan.len() - 1] == (ReconcileKind::FadeOut, n));
            }
        }
        assert forall|j: int|
            0 <= j < playing.len() && live && known.contains(#[trigger] playing[j]) implies plan.contains(
            (ReconcileKind::Crossfade, playing[j]),
        ) by {
            if j < p0.len() {
                assert(p0[j] == playing[j]);
                let k = choose|k: int|
                    0 <= k < rest.len() && rest[k] == (ReconcileKind::Crossfade, p0[j]);
                assert(plan[k] == rest[k]);
            } else {
                assert(plan[plan.len() - 1] == (ReconcileKind::Crossfade, n));
            }
        }
    }
}

pub open spec fn action_views(v: Seq<AmbientAction>) -> Seq<(ReconcileKind, Seq<char>)> {
    v.map_values(|a: AmbientAction| (a.kind, a.name@))
}

/// Plan what happens to running ambients after a successful evaluation
/// that registered the patches `known`.
pub fn plan_reconcile(playing: &Vec<String>, known: &[String], live_ambient: bool) -> (plan: Vec<AmbientAction>)
    ensures
        action_views(plan@) == reconcile_plan(views(playing@), views(known@), live_ambient),
{
    let mut plan: Vec<AmbientAction> = Vec::new();
    let n = playing.len();
    for i in 0..n
        invariant
            n == playing@.len(),
            action_views(plan@) == reconcile_plan(
                views(playing@).take(i as int),
                views(known@),
                live_ambient,
            ),
    {
        let ghost p = views(playing@);
        assert(p.take(i + 1).drop_last() =~= p.take(i as int));
        assert(p.take(i + 1).last() == playing@[i as int]@);
        let ghost before = action_views(plan@);
        let name = &playing[i];
        if !contains_str(known, name.as_str()) {
            plan.push(AmbientAction { kind: ReconcileKind::FadeOut, name: name.clone() });
            assert(action_views(plan@) =~= before.push((ReconcileKind::FadeOut, name@)));
        } else if live_ambient {
            plan.push(AmbientAction { kind: ReconcileKind::Crossfade, name: name.clone() });
            assert(action_views(plan@) =~= before.push((ReconcileKind::Crossfade, name@)));
        }
    }
    assert(views(playing@).take(n as int) =~= views(playing@));
    plan
}

/// Index of the first one-shot among patches with the given roles (the
/// patch a manual evaluation plays).
pub fn first_one_shot(roles: &[PatchRole]) -> (r: Option<usize>)
    ensures
        r is None ==> forall|i: int| 0 <= i < roles@.len() ==> #[trigger] roles@[i] != PatchRole::OneShot,
        r matches Some(i) ==> i < roles@.len() && roles@[i as int] == PatchRole::OneShot && forall|j: int|
            0 <= j < i ==> #[trigger] roles@[j] != PatchRole::OneShot,
{
    let n = roles.len();
    for i in 0..n
        invariant
            n == roles@.len(),
            forall|j: int| 0 <= j < i ==> #[trigger] roles@[j] != PatchRole::OneShot,
    {
        if roles[i] == PatchRole::OneShot {
            return Some(i);
        }
    }
    None
}

/// What a successful evaluation does once the tables are updated.
#[derive(Debug, Clone)]
pub enum AfterEval {
    /// Play the registered patch at this index.
    Play(usize),
    /// Warn in the log with this line.
    Warn(String),
    /// Nothing more.
    Nothing,
}

/// The warning given when a manual evaluation registered no patches.
pub open spec fn no_patches_warning() -> Seq<char> {
    "no patches registered — script ran but didn't call patch(...)"@
}

/// After a successful evaluation that registered patches with `roles`:
/// a manual evaluation plays the first one-shot, or warns when nothing
/// was registered; an automatic one does nothing more.
pub fn after_eval(roles: &[PatchRole], manual: bool) -> (a: AfterEval)
    ensures
        !manual ==> a is Nothing,
        (manual && exists|j: int| 0 <= j < roles@.len() && #[trigger] roles@[j] == PatchRole::OneShot)
            ==> (a matches AfterEval::Play(i) && i < roles@.len() && roles@[i as int] == PatchRole::OneShot
            && forall|j: int| 0 <= j < i ==> #[trigger] roles@[j] != PatchRole::OneShot),
        (manual && roles@.len() == 0) ==> (a matches AfterEval::Warn(line) && line@
            == no_patches_warning()),
        (manual && roles@.len() > 0 && forall|j: int|
            0 <= j < roles@.len() ==> #[trigger] roles@[j] != PatchRole::OneShot) ==> a is Nothing,
{
    if !manual {
        return AfterEval::Nothing;
    }
    match first_one_shot(roles) {
        Some(i) => AfterEval::Play(i),
        None => {
            if roles.len() == 0 {
                AfterEval::Warn(
                    String::from_str("no patches registered — script ran but didn't call patch(...)"),
                )
            } else {
                AfterEval::Nothing
            }
        },
    }
}

/// Names joined with `", "`.
pub open spec fn join_names(names: Seq<Seq<char>>) -> Seq<char>
    decreases names.len(),
{
    if names.len() == 0 {
        Seq::empty()
    } else if names.len() == 1 {
        names[0]
    } else {
        join_names(names.drop_last()) + ", "@ + names.last()
    }
}

/// The log line of a successful manual evaluation that registered the
/// patches `names`: `eval ok — <count> patch(es): [<names>]`.
pub fn eval_ok_line(names: &[String]) -> (line: String)
    ensures
        line@ == "eval ok — "@ + decimal(names@.len()) + " patch(es): ["@ + join_names(views(names@))
            + "]"@,
{
    let mut line = String::from_str("eval ok — ");
    push_decimal(&mut line, names.len());
    line.append(" patch(es): [");
    let ghost prefix = line@;
    let n = names.len();
    for i in 0..n
        invariant
            n == names@.len(),
            line@ == prefix + join_names(views(names@).take(i as int)),
    {
        let ghost v = views(names@);
        assert(v.take(i + 1).drop_last() =~= v.take(i as int));
        assert(v.take(i + 1).last() == names@[i as int]@);
        if i > 0 {
            line.append(", ");
        } else {
            assert(v.take(1) =~= seq![names@[0]@]);
            assert(join_names(v.take(0)) =~= Seq::<char>::empty());
        }
        line.append(names[i].as_str());
        proof {
            if i > 0 {
                assert(line@ =~= prefix + join_names(v.take(i + 1)));
            } else {
                assert(line@ =~= prefix + join_names(v.take(1)));
            }
        }
    }
    assert(views(names@).take(n as int) =~= views(names@));
    line.append("]");
    line
}

/// A successful evaluation clears the shown error.
pub fn record_eval_success(state: &mut LiveEvalState)
    ensures
        final(state).error is None,
        final(state).last_change == old(state).last_change,
        final(state).last_eval_source == old(state).last_eval_source,
{
    state.error = None;
}

/// Quiet period after the last edit before live mode re-evaluates.
pub const DEBOUNCE_MS: u128 = 400;

/// How long an error must persist before it is written to the log.
pub const ERROR_LOG_DELAY_MS: u128 = 3000;

/// What the live-evaluation loop does this frame.
#[derive(Debug, Clone, Copy, PartialEq, Eq, Structural)]
pub enum LiveEvalStep {
    /// Nothing: live mode is off, no edit is pending, or the edit is too
    /// recent.
    Wait,
    /// Re-evaluate, then clear the pending edit.
    Evaluate,
    /// The source is unchanged since the last evaluation: just clear the
    /// pending edit.
    Settle,
}

/// Decide the live-evaluation step. `pending_for_ms` is how long ago
/// the pending edit was made (whole milliseconds), if one is pending.
pub fn decide_live_eval(
    live_ambient: bool,
    pending_for_ms: Option<u128>,
    current_source: &str,
    last_eval_source: &str,
) -> (step: LiveEvalStep)
    ensures
        (!live_ambient || pending_for_ms is None || (pending_for_ms matches Some(ms) && ms < DEBOUNCE_MS))
            ==> step == LiveEvalStep::Wait,
        (live_ambient && (pending_for_ms matches Some(ms) && ms >= DEBOUNCE_MS)) ==> step == (if current_source@
            == last_eval_source@ {
            LiveEvalStep::Settle
        } else {
            LiveEvalStep::Evaluate
        }),
{
    if !live_ambient {
        return LiveEvalStep::Wait;
    }
    match pending_for_ms {
        None => LiveEvalStep::Wait,
        Some(ms) => {
            if ms < DEBOUNCE_MS {
                LiveEvalStep::Wait
            } else if str_eq(current_source, last_eval_source) {
                LiveEvalStep::Settle
            } else {
                LiveEvalStep::Evaluate
            }
        },
    }
}

/// If `error` has persisted for `elapsed_ms` past the logging delay and
/// has not been logged yet, mark it logged and return the log line.
pub fn promote_live_error(error: &mut LiveError, elapsed_ms: u128) -> (line: Option<String>)
    ensures
        (!old(error).logged && elapsed_ms >= ERROR_LOG_DELAY_MS) ==> (final(error).logged && (line matches Some(l)
            && l@ == "script still failing: "@ + old(error).message@)),
        !(!old(error).logged && elapsed_ms >= ERROR_LOG_DELAY_MS) ==> (line is None && final(error).logged
            == old(error).logged),
        final(error).message == old(error).message,
        final(error).started_at == old(error).started_at,
        final(error).context == old(error).context,
{
    if !error.logged && elapsed_ms >= ERROR_LOG_DELAY_MS {
        error.logged = true;
        Some(String::from_str("script still failing: ").concat(error.message.as_str()))
    } else {
        None
    }
}

/// Record a failed evaluation. A new message replaces the shown error
/// (restarting its clock); the same message keeps the existing error
/// and its clock. A manual evaluation logs the error itself, so the
/// error is then marked as already logged.
pub fn record_eval_failure(
    state: &mut LiveEvalState,
    message: String,
    context: Option<ErrorContext>,
    manual: bool,
)
    ensures
        final(state).last_change == old(state).last_change,
        final(state).last_eval_source == old(state).last_eval_source,
        final(state).error matches Some(e) && e.message@ == message@,
        (old(state).error matches Some(e) && e.message@ == message@) ==> (final(state).error matches Some(
            e2,
        ) && e2.started_at == old(state).error->0.started_at && e2.context == old(state).error->0.context
            && e2.logged == (old(state).error->0.logged || manual)),
        !(old(state).error matches Some(e) && e.message@ == message@) ==> (final(state).error matches Some(
            e2,
        ) && e2.context == context && e2.logged == manual),
{
    let same = match &state.error {
        Some(existing) => str_eq(existing.message.as_str(), message.as_str()),
        None => false,
    };
    if !same {
        state.error = Some(
            LiveError {
                message,
                started_at: crate::externals::instant_now(),
                logged: false,
                context,
            },
        );
    }
    if manual {
        match &mut state.error {
            Some(e) => {
                e.logged = true;
            },
            None => {},
        }
    }
}

/// A candidate name for a new script: `untitled-<n>.rhai`.
pub open spec fn numbered_name(n: nat) -> Seq<char> {
    "untitled-"@ + decimal(n) + ".rhai"@
}

/// A filename for a new script that does not collide with `existing`:
/// `untitled.rhai`, else the first free `untitled-<n>.rhai` for
/// `n` in `2..1000`, else `untitled-many.rhai`.
pub fn default_new_filename(existing: &[String]) -> (name: String)
    ensures
        !views(existing@).contains("untitled.rhai"@) ==> name@ == "untitled.rhai"@,
        views(existing@).contains("untitled.rhai"@) ==> ((exists|n: nat|
            2 <= n < 1000 && !views(existing@).contains(#[trigger] numbered_name(n))) ==> (exists|n: nat|
            2 <= n < 1000 && name@ == #[trigger] numbered_name(n) && !views(existing@).contains(
                numbered_name(n),
            ) && forall|m: nat| 2 <= m < n ==> views(existing@).contains(#[trigger] numbered_name(m)))),
        views(existing@).contains("untitled.rhai"@) && (forall|n: nat|
            2 <= n < 1000 ==> views(existing@).contains(#[trigger] numbered_name(n))) ==> name@
            == "untitled-many.rhai"@,
{
    if !contains_str(existing, "untitled.rhai") {
        return String::from_str("untitled.rhai");
    }
    let mut n: usize = 2;
    while n < 1000
        invariant
            2 <= n <= 1000,
            views(existing@).contains("untitled.rhai"@),
            forall|m: nat| 2 <= m < n ==> views(existing@).contains(#[trigger] numbered_name(m)),
        decreases 1000 - n,
    {
        let mut candidate = String::from_str("untitled-");
        push_decimal(&mut candidate, n);
        candidate.append(".rhai");
        assert(candidate@ == numbered_name(n as nat));
        if !contains_str(existing, candidate.as_str()) {
            return candidate;
        }
        n = n + 1;
    }
    String::from_str("untitled-many.rhai")
}

} // verus!

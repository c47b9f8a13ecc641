//! The goals of a counter as the service keeps and reports them, and how
//! they are made from the goals the Metrika API lists.

use vstd::prelude::*;
use crate::error::MetrikaError;
use crate::goals::GoalCounter;
use crate::goals::Goal as MetrikaGoal;

verus! {

/// The goals of one counter as the service keeps them.
#[derive(Debug, Clone)]
pub struct GoalClient {
    pub counter_id: i64,
    pub goals: Vec<Goal>,
}

/// One goal as the service keeps it: its Metrika id, its name, and whether
/// it is selected for statistics.
#[derive(Debug, Clone)]
pub struct Goal {
    pub goal_id: i64,
    pub name: String,
    pub status: bool,
}

impl View for Goal {
    /// The id, the name's text and the selection flag.
    type V = (i64, Seq<char>, bool);

    open spec fn view(&self) -> (i64, Seq<char>, bool) {
        (self.goal_id, self.name@, self.status)
    }
}

/// The views of a sequence of goals.
pub open spec fn goal_views(goals: Seq<Goal>) -> Seq<(i64, Seq<char>, bool)> {
    goals.map_values(|g: Goal| g@)
}

/// The kinds of Metrika goals that the service keeps as one goal each:
/// actions, forms, messengers, phones, social networks and calls.
pub open spec fn is_single_kind(kind: Seq<char>) -> bool {
    ||| kind == "action"@
    ||| kind == "form"@
    ||| kind == "messenger"@
    ||| kind == "phone"@
    ||| kind == "social"@
    ||| kind == "call"@
}

/// The kind of a composite goal, made of steps.
pub open spec fn is_step_kind(kind: Seq<char>) -> bool {
    kind == "step"@
}

/// The name under which a step of a composite goal is kept: the goal's name,
/// an arrow, and the step's name.
pub open spec fn step_goal_name(goal_name: Seq<char>, step_name: Seq<char>) -> Seq<char> {
    goal_name + " -> "@ + step_name
}

/// The goals that one Metrika goal becomes, none of them selected: itself
/// when it is of a single kind; itself and then each of its steps, in order,
/// when it is composite; nothing for any other kind.
pub open spec fn kept_goals_of(g: MetrikaGoal) -> Seq<(i64, Seq<char>, bool)> {
    if is_single_kind(g.type_field@) {
        seq![(g.id, g.name@, false)]
    } else if is_step_kind(g.type_field@) {
        seq![(g.id, g.name@, false)] + Seq::new(
            g.steps@.len(),
            |j: int| (g.steps@[j].id, step_goal_name(g.name@, g.steps@[j].name@), false),
        )
    } else {
        seq![]
    }
}

/// The goals that a list of Metrika goals becomes: those of each goal, in
/// the order of the list.
pub open spec fn kept_goals(goals: Seq<MetrikaGoal>) -> Seq<(i64, Seq<char>, bool)>
    decreases goals.len(),
{
    if goals.len() == 0 {
        seq![]
    } else {
        kept_goals(goals.drop_last()) + kept_goals_of(goals.last())
    }
}

/// Whether a text equals a literal.
fn text_is(s: &String, lit: &str) -> (r: bool)
    ensures
        r == (s@ == lit@),
{
    let l = String::from_str(lit);
    *s == l
}

/// Whether a Metrika goal kind is one that is kept as one goal.
fn single_kind(kind: &String) -> (r: bool)
    ensures
        r == is_single_kind(kind@),
{
    text_is(kind, "action") || text_is(kind, "form") || text_is(kind, "messenger")
        || text_is(kind, "phone") || text_is(kind, "social") || text_is(kind, "call")
}

impl Goal {
    /// A copy of the goal.
    pub fn duplicate(&self) -> (g: Goal)
        ensures
            g == *self,
    {
        Goal { goal_id: self.goal_id, name: self.name.clone(), status: self.status }
    }
}

impl GoalClient {
    /// A copy of the counter's goals.
    pub fn clone_goals(&self) -> (c: GoalClient)
        ensures
            c.counter_id == self.counter_id,
            c.goals@ == self.goals@,
    {
        let mut goals: Vec<Goal> = Vec::new();
        for i in 0..self.goals.len()
            invariant
                goals@ == self.goals@.take(i as int),
        {
            goals.push(self.goals[i].duplicate());
            assert(goals@ =~= self.goals@.take(i + 1));
        }
        assert(self.goals@.take(self.goals@.len() as int) =~= self.goals@);
        GoalClient { counter_id: self.counter_id, goals }
    }

    /// Makes the goals that the service keeps for counter `id` from the
    /// goals that the Metrika API lists for it: each goal of a single kind
    /// as one goal, each composite goal as itself followed by its steps,
    /// none of them selected; goals of other kinds are left out.
    pub fn transform_goals(goals: GoalCounter, id: i64) -> (r: Result<GoalClient, MetrikaError>)
        ensures
            r matches Ok(c) && c.counter_id == id && goal_views(c.goals@) == kept_goals(goals.goals@),
    {
        let mut data: Vec<Goal> = Vec::new();
        let n = goals.goals.len();
        for i in 0..n
            invariant
                n == goals.goals@.len(),
                goal_views(data@) == kept_goals(goals.goals@.take(i as int)),
        {
            let g = &goals.goals[i];
            let ghost before = data@;
            assert(goals.goals@.take(i + 1).drop_last() =~= goals.goals@.take(i as int));
            assert(goals.goals@.take(i + 1).last() == *g);
            if single_kind(&g.type_field) {
                data.push(Goal { goal_id: g.id, name: g.name.clone(), status: false });
                assert(goal_views(data@) =~= goal_views(before) + kept_goals_of(*g));
            } else if text_is(&g.type_field, "step") {
                data.push(Goal { goal_id: g.id, name: g.name.clone(), status: false });
                let m = g.steps.len();
                for j in 0..m
                    invariant
                        m == g.steps@.len(),
                        goal_views(data@) =~= goal_views(before) + seq![(g.id, g.name@, false)]
                            + Seq::new(
                            j as nat,
                            |k: int| (g.steps@[k].id, step_goal_name(g.name@, g.steps@[k].name@), false),
                        ),
                {
                    let st = &g.steps[j];
                    let name = g.name.clone().concat(" -> ").concat(st.name.as_str());
                    let ghost mid = data@;
                    data.push(Goal { goal_id: st.id, name, status: false });
                    assert(goal_views(data@) =~= goal_views(mid).push(data@.last()@));
                }
                assert(goal_views(data@) =~= goal_views(before) + kept_goals_of(*g));
            } else {
                assert(goal_views(data@) =~= goal_views(before) + kept_goals_of(*g));
            }
        }
        assert(goals.goals@.take(n as int) =~= goals.goals@);
        Ok(GoalClient { counter_id: id, goals: data })
    }
}

/// What one Metrika goal becomes, by its kind: a goal of kind `action`,
/// `form`, `messenger`, `phone`, `social` or `call` is kept as one unselected
/// goal with its id and name; a goal of kind `step` is kept as itself
/// followed by each of its steps, in order, each named after the goal, an
/// arrow and the step; a goal of any other kind is left out.
pub proof fn lemma_kept_goals_by_kind(g: MetrikaGoal)
    ensures
        ({
            let t = g.type_field@;
            t == "action"@ || t == "form"@ || t == "messenger"@ || t == "phone"@ || t == "social"@ || t == "call"@
        }) ==> kept_goals(seq![g]) == seq![(g.id, g.name@, false)],
        g.type_field@ == "step"@ ==> {
            let k = kept_goals(seq![g]);
            &&& k.len() == g.steps@.len() + 1
            &&& k[0] == (g.id, g.name@, false)
            &&& forall|j: int|
                0 <= j < g.steps@.len() ==> #[trigger] k[j + 1] == (
                    g.steps@[j].id,
                    g.name@ + " -> "@ + g.steps@[j].name@,
                    false,
                )
        },
        ({
            let t = g.type_field@;
            t != "action"@ && t != "form"@ && t != "messenger"@ && t != "phone"@ && t != "social"@ && t != "call"@
                && t != "step"@
        }) ==> kept_goals(seq![g]) == Seq::<(i64, Seq<char>, bool)>::empty(),
{
    let s = seq![g];
    assert(s.drop_last() =~= Seq::<MetrikaGoal>::empty());
    assert(s.last() == g);
    assert(kept_goals(Seq::<MetrikaGoal>::empty()) =~= Seq::<(i64, Seq<char>, bool)>::empty());
    assert(kept_goals(s) =~= kept_goals(s.drop_last()) + kept_goals_of(g));
    assert(kept_goals(s) =~= kept_goals_of(g));
    if g.type_field@ == "step"@ {
        reveal_strlit("step");
        reveal_strlit("action");
        reveal_strlit("form");
        reveal_strlit("messenger");
        reveal_strlit("phone");
        reveal_strlit("social");
        reveal_strlit("call");
        assert("step"@ != "action"@) by {
            assert("step"@.len() != "action"@.len());
        }
        assert("step"@ != "messenger"@) by {
            assert("step"@.len() != "messenger"@.len());
        }
        assert("step"@ != "social"@) by {
            assert("step"@.len() != "social"@.len());
        }
        assert("step"@ != "form"@) by {
            assert("step"@[0] != "form"@[0]);
        }
        assert("step"@ != "phone"@) by {
            assert("step"@.len() != "phone"@.len());
        }
        assert("step"@ != "call"@) by {
            assert("step"@[0] != "call"@[0]);
        }
        assert(!is_single_kind(g.type_field@));
        let k = kept_goals(s);
        assert forall|j: int| 0 <= j < g.steps@.len() implies #[trigger] k[j + 1] == (
            g.steps@[j].id,
            g.name@ + " -> "@ + g.steps@[j].name@,
            false,
        ) by {
            assert(k[j + 1] == Seq::new(
                g.steps@.len(),
                |i: int| (g.steps@[i].id, step_goal_name(g.name@, g.steps@[i].name@), false),
            )[j]);
        }
    }
}

/// Transforming a list made of two parts gives the goals of the first part
/// followed by those of the second.
pub proof fn lemma_kept_goals_append(a: Seq<MetrikaGoal>, b: Seq<MetrikaGoal>)
    ensures
        kept_goals(a + b) == kept_goals(a) + kept_goals(b),
    decreases b.len(),
{
    if b.len() == 0 {
        assert(a + b =~= a);
        assert(kept_goals(a) + kept_goals(b) =~= kept_goals(a));
    } else {
        lemma_kept_goals_append(a, b.drop_last());
        assert((a + b).drop_last() =~= a + b.drop_last());
        assert((a + b).last() == b.last());
        assert(kept_goals(a) + kept_goals(b.drop_last()) + kept_goals_of(b.last()) =~= kept_goals(a)
            + (kept_goals(b.drop_last()) + kept_goals_of(b.last())));
    }
}

/// No goal made from a Metrika list is selected.
pub proof fn lemma_kept_goals_unselected(goals: Seq<MetrikaGoal>)
    ensures
        forall|i: int| 0 <= i < kept_goals(goals).len() ==> !(#[trigger] kept_goals(goals)[i]).2,
    decreases goals.len(),
{
    if goals.len() > 0 {
        lemma_kept_goals_unselected(goals.drop_last());
        let front = kept_goals(goals.drop_last());
        let back = kept_goals_of(goals.last());
        assert forall|i: int| 0 <= i < kept_goals(goals).len() implies !(
        #[trigger] kept_goals(goals)[i]).2 by {
            if i < front.len() {
                assert(kept_goals(goals)[i] == front[i]);
            } else {
                assert(kept_goals(goals)[i] == back[i - front.len()]);
            }
        }
    }
}

/// Every goal made from a Metrika list carries the id of a goal of the list
/// or of one of its steps.
pub proof fn lemma_kept_goals_ids(goals: Seq<MetrikaGoal>)
    ensures
        forall|i: int|
            0 <= i < kept_goals(goals).len() ==> exists|k: int|
                0 <= k < goals.len() && (goals[k].id == (#[trigger] kept_goals(goals)[i]).0
                    || exists|j: int|
                    0 <= j < goals[k].steps@.len() && goals[k].steps@[j].id == kept_goals(goals)[i].0),
    decreases goals.len(),
{
    if goals.len() > 0 {
        let rest = goals.drop_last();
        lemma_kept_goals_ids(rest);
        let front = kept_goals(rest);
        let g = goals.last();
        let back = kept_goals_of(g);
        let last = goals.len() - 1;
        assert forall|i: int| 0 <= i < kept_goals(goals).len() implies exists|k: int|
            0 <= k < goals.len() && (goals[k].id == (#[trigger] kept_goals(goals)[i]).0
                || exists|j: int|
                0 <= j < goals[k].steps@.len() && goals[k].steps@[j].id == kept_goals(goals)[i].0) by {
            if i < front.len() {
                assert(kept_goals(goals)[i] == front[i]);
                let k = choose|k: int|
                    0 <= k < rest.len() && (rest[k].id == (#[trigger] front[i]).0
                        || exists|j: int| 0 <= j < rest[k].steps@.len() && rest[k].steps@[j].id == front[i].0);
                assert(goals[k] == rest[k]);
            } else {
                let t = i - front.len();
                assert(kept_goals(goals)[i] == back[t]);
                assert(goals[last] == g);
                if t > 0 {
                    let j = t - 1;
                    assert(back[t].0 == g.steps@[j].id);
                }
            }
        }
    }
}

} // verus!

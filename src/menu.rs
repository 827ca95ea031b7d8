use vstd::prelude::*;

use crate::text::join;

verus! {

/// What an operator picked from a menu: the index of an action or of a data item.
#[derive(PartialEq, Eq, Structural, Clone, Copy, Debug)]
pub enum Choice {
    Action(usize),
    Data(usize),
}

/// The marker that starts an action's label.
pub open spec fn action_marker() -> Seq<char> {
    seq!['>', '>', ' ']
}

/// The marker that starts a data item's label.
pub open spec fn data_marker() -> Seq<char> {
    seq![' ', '|', ' ']
}

/// How an action is shown.
pub open spec fn action_label(name: Seq<char>) -> Seq<char> {
    action_marker() + name
}

/// How a data item is shown.
pub open spec fn data_label(key: Seq<char>) -> Seq<char> {
    data_marker() + key
}

/// The labels shown for a menu: the actions' first, then the data items'.
pub open spec fn menu_labels(actions: Seq<Seq<char>>, data: Seq<Seq<char>>) -> Seq<Seq<char>> {
    actions.map_values(|a: Seq<char>| action_label(a)) + data.map_values(|d: Seq<char>| data_label(d))
}

/// `r` is the choice that the label `picked` selects: the first action whose
/// label it is, else the first data item whose label it is, else none.
pub open spec fn selects(actions: Seq<Seq<char>>, data: Seq<Seq<char>>, picked: Seq<char>, r: Option<Choice>) -> bool {
    match r {
        Some(Choice::Action(i)) => i < actions.len() && action_label(actions[i as int]) == picked
            && forall|j: int| 0 <= j < i ==> action_label(#[trigger] actions[j]) != picked,
        Some(Choice::Data(i)) => i < data.len() && data_label(data[i as int]) == picked
            && (forall|j: int| 0 <= j < actions.len() ==> action_label(#[trigger] actions[j]) != picked)
            && forall|j: int| 0 <= j < i ==> data_label(#[trigger] data[j]) != picked,
        None => (forall|j: int| 0 <= j < actions.len() ==> action_label(#[trigger] actions[j]) != picked)
            && forall|j: int| 0 <= j < data.len() ==> data_label(#[trigger] data[j]) != picked,
    }
}

/// The text of each string.
pub open spec fn views(v: Seq<String>) -> Seq<Seq<char>> {
    v.map_values(|s: String| s@)
}

/// A menu of fixed actions followed by data items, each shown under a marker
/// that keeps the two kinds of label apart.
pub struct Menu {
    pub actions: Vec<String>,
    pub data: Vec<String>,
}

/// Appends to `out` the label `marker + name` of each name, in order.
fn labelled(marker: &str, names: &Vec<String>, out: &mut Vec<String>)
    ensures
        views(final(out)@) == views(old(out)@) + names@.map_values(|n: String| marker@ + n@),
{
    let mut i: usize = 0;
    while i < names.len()
        invariant
            i <= names@.len(),
            views(out@) == views(old(out)@) + names@.take(i as int).map_values(|n: String| marker@ + n@),
        decreases names@.len() - i,
    {
        let l = join(marker, names[i].as_str());
        let ghost prev = out@;
        out.push(l);
        proof {
            assert(names@.take(i as int + 1) =~= names@.take(i as int).push(names@[i as int]));
            assert(views(out@) =~= views(prev).push(l@));
        }
        i = i + 1;
        proof {
            assert(views(out@) =~= views(old(out)@) + names@.take(i as int).map_values(|n: String| marker@ + n@));
        }
    }
    proof {
        assert(names@.take(i as int) =~= names@);
    }
}

impl Menu {
    /// The labels to present, in order: `">> "` before each action, `" | "`
    /// before each data item.
    pub fn labels(&self) -> (r: Vec<String>)
        ensures
            views(r@) == menu_labels(views(self.actions@), views(self.data@)),
    {
        let mut r: Vec<String> = Vec::new();
        proof {
            reveal_strlit(">> ");
            reveal_strlit(" | ");
        }
        assert(">> "@ =~= action_marker());
        assert(" | "@ =~= data_marker());
        labelled(">> ", &self.actions, &mut r);
        labelled(" | ", &self.data, &mut r);
        assert(views(r@) =~= menu_labels(views(self.actions@), views(self.data@)));
        r
    }

    /// The choice that a label returned by the picker stands for, or `None`
    /// when the label is not one of this menu's.
    pub fn resolve(&self, picked: &str) -> (r: Option<Choice>)
        ensures
            selects(views(self.actions@), views(self.data@), picked@, r),
    {
        proof {
            reveal_strlit(">> ");
            reveal_strlit(" | ");
        }
        let am = ">> ".to_owned();
        let dm = " | ".to_owned();
        assert(am@ =~= action_marker());
        assert(dm@ =~= data_marker());
        let want = picked.to_owned();
        let mut i: usize = 0;
        while i < self.actions.len()
            invariant
                i <= self.actions@.len(),
                want@ == picked@,
                am@ == action_marker(),
                forall|j: int| 0 <= j < i ==> action_label(#[trigger] views(self.actions@)[j]) != picked@,
            decreases self.actions@.len() - i,
        {
            let l = join(am.as_str(), self.actions[i].as_str());
            assert(views(self.actions@)[i as int] == self.actions@[i as int]@);
            if l == want {
                return Some(Choice::Action(i));
            }
            i = i + 1;
        }
        let mut k: usize = 0;
        while k < self.data.len()
            invariant
                k <= self.data@.len(),
                want@ == picked@,
                dm@ == data_marker(),
                forall|j: int| 0 <= j < self.actions@.len() ==> action_label(#[trigger] views(self.actions@)[j]) != picked@,
                forall|j: int| 0 <= j < k ==> data_label(#[trigger] views(self.data@)[j]) != picked@,
            decreases self.data@.len() - k,
        {
            let l = join(dm.as_str(), self.data[k].as_str());
            assert(views(self.data@)[k as int] == self.data@[k as int]@);
            if l == want {
                return Some(Choice::Data(k));
            }
            k = k + 1;
        }
        None
    }
}

/// Picking a data item's label selects a data item with that key, never an
/// action, whatever the actions are called.
pub proof fn lemma_data_label_selects_data(actions: Seq<Seq<char>>, data: Seq<Seq<char>>, key: Seq<char>, r: Option<Choice>)
    requires
        data.contains(key),
        selects(actions, data, data_label(key), r),
    ensures
        r matches Some(Choice::Data(i)) && data[i as int] == key,
{
    let k = choose|k: int| 0 <= k < data.len() && data[k] == key;
    match r {
        Some(Choice::Action(i)) => {
            assert(action_label(actions[i as int])[0] != data_label(key)[0]);
        },
        Some(Choice::Data(i)) => {
            assert(data_label(data[i as int]).subrange(3, data_label(data[i as int]).len() as int) =~= data[i as int]);
            assert(data_label(key).subrange(3, data_label(key).len() as int) =~= key);
        },
        None => {
            assert(data_label(data[k]) == data_label(key));
        },
    }
}

/// Picking an action's label selects an action of that name, never a data item,
/// whatever the data keys are.
pub proof fn lemma_action_label_selects_action(actions: Seq<Seq<char>>, data: Seq<Seq<char>>, name: Seq<char>, r: Option<Choice>)
    requires
        actions.contains(name),
        selects(actions, data, action_label(name), r),
    ensures
        r matches Some(Choice::Action(i)) && actions[i as int] == name,
{
    let k = choose|k: int| 0 <= k < actions.len() && actions[k] == name;
    match r {
        Some(Choice::Action(i)) => {
            assert(action_label(actions[i as int]).subrange(3, action_label(actions[i as int]).len() as int) =~= actions[i as int]);
            assert(action_label(name).subrange(3, action_label(name).len() as int) =~= name);
        },
        Some(Choice::Data(i)) => {
            assert(action_label(actions[k]) == action_label(name));
        },
        None => {
            assert(action_label(actions[k]) == action_label(name));
        },
    }
}

} // verus!

//! The window manager's workspaces.

pub mod state;

pub use crate::i3::state::I3State;
use vstd::prelude::*;

verus! {

/// What is known of one workspace. Its identity is its output and its number.
#[derive(Clone, Debug)]
pub struct WorkspaceState {
    pub num: i32,
    pub name: String,
    /// The output that shows the workspace.
    pub output: String,
    pub visible: bool,
    pub focused: bool,
    pub urgent: bool,
}

/// A workspace record as a value.
pub struct WorkspaceView {
    pub num: i32,
    pub name: Seq<char>,
    pub output: Seq<char>,
    pub visible: bool,
    pub focused: bool,
    pub urgent: bool,
}

impl View for WorkspaceState {
    type V = WorkspaceView;

    open spec fn view(&self) -> WorkspaceView {
        WorkspaceView {
            num: self.num,
            name: self.name@,
            output: self.output@,
            visible: self.visible,
            focused: self.focused,
            urgent: self.urgent,
        }
    }
}

impl WorkspaceState {
    /// A copy of the record.
    pub fn duplicate(&self) -> (copy: WorkspaceState)
        ensures
            copy@ == self@,
    {
        WorkspaceState {
            num: self.num,
            name: self.name.clone(),
            output: self.output.clone(),
            visible: self.visible,
            focused: self.focused,
            urgent: self.urgent,
        }
    }
}

/// The records of `states` as values.
pub open spec fn views(states: Seq<WorkspaceState>) -> Seq<WorkspaceView> {
    states.map_values(|w: WorkspaceState| w@)
}

/// The groups of `groups` as values.
pub open spec fn group_views(groups: Seq<Vec<WorkspaceState>>) -> Seq<Seq<WorkspaceView>> {
    groups.map_values(|g: Vec<WorkspaceState>| views(g@))
}

/// Holds of the workspaces with the number `num`.
pub open spec fn with_num(num: i32) -> spec_fn(WorkspaceView) -> bool {
    |w: WorkspaceView| w.num == num
}

/// Holds of the workspaces with the number `num` on `output`.
pub open spec fn placed(output: Seq<char>, num: i32) -> spec_fn(WorkspaceView) -> bool {
    |w: WorkspaceView| w.output == output && w.num == num
}

/// The numbers of `group` never fall.
pub open spec fn sorted_by_num(group: Seq<WorkspaceView>) -> bool {
    forall|i: int, j: int| 0 <= i <= j < group.len() ==> group[i].num <= group[j].num
}

/// The outputs that `listing` names, each once, in the order in which the
/// listing first names them.
pub open spec fn outputs_of(listing: Seq<WorkspaceView>) -> Seq<Seq<char>>
    decreases listing.len(),
{
    if listing.len() == 0 {
        Seq::empty()
    } else {
        let seen = outputs_of(listing.drop_last());
        if seen.contains(listing.last().output) {
            seen
        } else {
            seen.push(listing.last().output)
        }
    }
}

/// `group` holds the workspaces that `listing` has on `output`, and there is
/// one: sorted by number, those of one number in the order of the listing.
pub open spec fn is_group_of(
    group: Seq<WorkspaceView>,
    output: Seq<char>,
    listing: Seq<WorkspaceView>,
) -> bool {
    &&& group.len() > 0
    &&& forall|i: int| 0 <= i < group.len() ==> (#[trigger] group[i]).output == output
    &&& sorted_by_num(group)
    &&& forall|num: i32| #[trigger]
        group.filter(with_num(num)) == listing.filter(placed(output, num))
}

/// `groups` is `listing` grouped by output: one group for each output that the
/// listing names, in the order of `outputs_of`.
pub open spec fn is_grouping(groups: Seq<Seq<WorkspaceView>>, listing: Seq<WorkspaceView>) -> bool {
    &&& groups.len() == outputs_of(listing).len()
    &&& forall|g: int|
        0 <= g < groups.len() ==> is_group_of(#[trigger] groups[g], outputs_of(listing)[g], listing)
}

/// Every output of `listing` is among `outputs_of`, and none stands there twice.
pub proof fn lemma_outputs_of(listing: Seq<WorkspaceView>)
    ensures
        outputs_of(listing).no_duplicates(),
        forall|i: int|
            0 <= i < listing.len() ==> outputs_of(listing).contains(#[trigger] listing[i].output),
        forall|g: int|
            0 <= g < outputs_of(listing).len() ==> exists|i: int|
                0 <= i < listing.len() && listing[i].output == #[trigger] outputs_of(listing)[g],
    decreases listing.len(),
{
    if listing.len() > 0 {
        let rest = listing.drop_last();
        let seen = outputs_of(rest);
        let all = outputs_of(listing);
        lemma_outputs_of(rest);
        assert forall|i: int| 0 <= i < listing.len() implies all.contains(
            #[trigger] listing[i].output,
        ) by {
            if i < rest.len() {
                assert(rest[i] == listing[i]);
                let at = choose|at: int| 0 <= at < seen.len() && seen[at] == rest[i].output;
                assert(all[at] == listing[i].output);
            } else if seen.contains(listing.last().output) {
            } else {
                assert(all[seen.len() as int] == listing[i].output);
            }
        }
        assert forall|g: int| 0 <= g < all.len() implies exists|i: int|
            0 <= i < listing.len() && listing[i].output == #[trigger] all[g] by {
            if g < seen.len() {
                let i = choose|i: int| 0 <= i < rest.len() && rest[i].output == seen[g];
                assert(listing[i].output == all[g]);
            } else {
                assert(listing[listing.len() - 1].output == all[g]);
            }
        }
    }
}

/// Putting `w` into a sorted group behind all that are not above its number
/// keeps the group sorted, adds `w` as the last of its number, and leaves the
/// workspaces of every other number as they were.
pub proof fn lemma_insert_by_num(group: Seq<WorkspaceView>, slot: int, w: WorkspaceView)
    requires
        sorted_by_num(group),
        0 <= slot <= group.len(),
        forall|j: int| 0 <= j < slot ==> group[j].num <= w.num,
        forall|j: int| slot <= j < group.len() ==> group[j].num > w.num,
    ensures
        sorted_by_num(group.insert(slot, w)),
        group.insert(slot, w).filter(with_num(w.num)) == group.filter(with_num(w.num)).push(w),
        forall|num: i32|
            num != w.num ==> #[trigger] group.insert(slot, w).filter(with_num(num))
                == group.filter(with_num(num)),
{
    let head = group.subrange(0, slot);
    let tail = group.subrange(slot, group.len() as int);
    let grown = group.insert(slot, w);
    assert(group =~= head + tail);
    assert(grown == head.push(w) + tail);
    assert forall|i: int, j: int| 0 <= i <= j < grown.len() implies grown[i].num
        <= grown[j].num by {
        if i < slot {
            assert(grown[i] == group[i]);
        } else if i > slot {
            assert(grown[i] == group[i - 1]);
        }
        if j < slot {
            assert(grown[j] == group[j]);
        } else if j > slot {
            assert(grown[j] == group[j - 1]);
        }
    }
    assert forall|num: i32| #[trigger]
        grown.filter(with_num(num)) == if num == w.num {
            group.filter(with_num(num)).push(w)
        } else {
            group.filter(with_num(num))
        } by {
        let pred = with_num(num);
        Seq::filter_distributes_over_add(head, tail, pred);
        Seq::filter_distributes_over_add(head.push(w), tail, pred);
        head.lemma_filter_push(w, pred);
        if num == w.num {
            assert(tail.all(|x: WorkspaceView| !pred(x)));
            tail.lemma_all_neg_filter_empty(pred);
            assert(tail.filter(pred) =~= Seq::empty());
            assert(head.filter(pred) + tail.filter(pred) =~= head.filter(pred));
            assert(head.filter(pred).push(w) + tail.filter(pred) =~= head.filter(pred).push(w));
        }
    }
}

/// A listing that names no workspace on `output` has none there of any number.
pub proof fn lemma_absent_output(listing: Seq<WorkspaceView>, output: Seq<char>, num: i32)
    requires
        !outputs_of(listing).contains(output),
    ensures
        listing.filter(placed(output, num)) == Seq::<WorkspaceView>::empty(),
{
    lemma_outputs_of(listing);
    let pred = placed(output, num);
    assert forall|i: int| 0 <= i < listing.len() implies !pred(listing[i]) by {
        assert(outputs_of(listing).contains(listing[i].output));
    }
    assert(listing.all(|x: WorkspaceView| !pred(x)));
    listing.lemma_all_neg_filter_empty(pred);
    assert(listing.filter(pred) =~= Seq::empty());
}

/// A grouping stays one when the listing grows by a workspace of an output
/// that has a group, and the workspace is put into that group behind all that
/// are not above its number.
pub proof fn lemma_grouping_put(
    groups: Seq<Seq<WorkspaceView>>,
    listing: Seq<WorkspaceView>,
    g: int,
    slot: int,
    w: WorkspaceView,
)
    requires
        is_grouping(groups, listing),
        0 <= g < groups.len(),
        groups[g][0].output == w.output,
        0 <= slot <= groups[g].len(),
        forall|j: int| 0 <= j < slot ==> groups[g][j].num <= w.num,
        forall|j: int| slot <= j < groups[g].len() ==> groups[g][j].num > w.num,
    ensures
        is_grouping(groups.update(g, groups[g].insert(slot, w)), listing.push(w)),
{
    let grown = listing.push(w);
    let outputs = outputs_of(listing);
    let put = groups.update(g, groups[g].insert(slot, w));
    lemma_outputs_of(listing);
    lemma_grouping_in_order(groups, listing);
    assert(grown.drop_last() =~= listing);
    assert(outputs[g] == w.output);
    assert(outputs_of(grown) == outputs);
    assert forall|h: int| 0 <= h < put.len() implies is_group_of(
        #[trigger] put[h],
        outputs[h],
        grown,
    ) by {
        assert(is_group_of(groups[h], outputs[h], listing));
        if h == g {
            let group = groups[g];
            lemma_insert_by_num(group, slot, w);
            group.insert_ensures(slot, w);
            assert forall|i: int| 0 <= i < put[h].len() implies (#[trigger] put[h][i]).output
                == outputs[h] by {
                if i < slot {
                    assert(put[h][i] == group[i]);
                } else if i > slot {
                    assert(put[h][i] == group[i - 1]);
                }
            }
            assert forall|num: i32| #[trigger]
                put[h].filter(with_num(num)) == grown.filter(placed(outputs[h], num)) by {
                listing.lemma_filter_push(w, placed(outputs[h], num));
                assert(group.filter(with_num(num)) == listing.filter(placed(outputs[h], num)));
            }
        } else {
            assert(outputs[h] != outputs[g]);
            assert forall|num: i32| #[trigger]
                put[h].filter(with_num(num)) == grown.filter(placed(outputs[h], num)) by {
                listing.lemma_filter_push(w, placed(outputs[h], num));
                assert(groups[h].filter(with_num(num)) == listing.filter(
                    placed(outputs[h], num),
                ));
            }
        }
    }
}

/// A grouping stays one when the listing grows by a workspace of an output
/// that has no group yet, and the workspace becomes a group behind the others.
pub proof fn lemma_grouping_open(
    groups: Seq<Seq<WorkspaceView>>,
    listing: Seq<WorkspaceView>,
    w: WorkspaceView,
)
    requires
        is_grouping(groups, listing),
        forall|g: int| 0 <= g < groups.len() ==> (#[trigger] groups[g])[0].output != w.output,
    ensures
        is_grouping(groups.push(seq![w]), listing.push(w)),
{
    let grown = listing.push(w);
    let outputs = outputs_of(listing);
    let opened = groups.push(seq![w]);
    lemma_outputs_of(listing);
    lemma_grouping_in_order(groups, listing);
    assert(grown.drop_last() =~= listing);
    if outputs.contains(w.output) {
        let h = choose|h: int| 0 <= h < outputs.len() && outputs[h] == w.output;
        assert(groups[h][0].output == outputs[h]);
    }
    assert(outputs_of(grown) == outputs.push(w.output));
    assert forall|h: int| 0 <= h < opened.len() implies is_group_of(
        #[trigger] opened[h],
        outputs_of(grown)[h],
        grown,
    ) by {
        if h < groups.len() {
            assert(is_group_of(groups[h], outputs[h], listing));
            assert(outputs[h] != w.output);
            assert forall|num: i32| #[trigger]
                opened[h].filter(with_num(num)) == grown.filter(placed(outputs[h], num)) by {
                listing.lemma_filter_push(w, placed(outputs[h], num));
                assert(groups[h].filter(with_num(num)) == listing.filter(
                    placed(outputs[h], num),
                ));
            }
        } else {
            assert forall|num: i32| #[trigger]
                opened[h].filter(with_num(num)) == grown.filter(placed(w.output, num)) by {
                let none = Seq::<WorkspaceView>::empty();
                listing.lemma_filter_push(w, placed(w.output, num));
                lemma_absent_output(listing, w.output, num);
                none.lemma_filter_push(w, with_num(num));
                none.lemma_filter_len(with_num(num));
                assert(none.filter(with_num(num)) =~= none);
                assert(seq![w] =~= none.push(w));
            }
        }
    }
}

/// A sorted group is known by its workspaces of each number: two sorted groups
/// that hold, for every number, the same workspaces in the same order are one
/// group.
pub proof fn lemma_sorted_group_is_unique(a: Seq<WorkspaceView>, b: Seq<WorkspaceView>)
    requires
        sorted_by_num(a),
        sorted_by_num(b),
        forall|num: i32| #[trigger] a.filter(with_num(num)) == b.filter(with_num(num)),
    ensures
        a == b,
    decreases a.len(),
{
    reveal(Seq::filter);
    if a.len() == 0 {
        if b.len() > 0 {
            let pred = with_num(b.last().num);
            assert(a.filter(pred) == b.filter(pred));
            assert(b.filter(pred).len() > 0);
        }
        assert(a =~= b);
    } else {
        let top = a.last().num;
        assert(a.filter(with_num(top)) == b.filter(with_num(top)));
        assert(a.filter(with_num(top)).last() == a.last());
        if b.len() == 0 {
            assert(b.filter(with_num(top)).len() == 0);
        }
        let other = b.last().num;
        assert(a.filter(with_num(other)) == b.filter(with_num(other)));
        assert(b.filter(with_num(other)).last() == b.last());
        if other > top {
            a.lemma_filter_contains_rev(with_num(other), b.last());
            let i = choose|i: int| 0 <= i < a.len() && a[i] == b.last();
            assert(a[i].num <= a[a.len() - 1].num);
        }
        if top > other {
            b.lemma_filter_contains_rev(with_num(top), a.last());
            let i = choose|i: int| 0 <= i < b.len() && b[i] == a.last();
            assert(b[i].num <= b[b.len() - 1].num);
        }
        assert(a.last() == b.last());
        let a_rest = a.drop_last();
        let b_rest = b.drop_last();
        assert forall|num: i32| #[trigger]
            a_rest.filter(with_num(num)) == b_rest.filter(with_num(num)) by {
            assert(a.filter(with_num(num)) == b.filter(with_num(num)));
            if num == top {
                assert(a.filter(with_num(num)).drop_last() =~= a_rest.filter(with_num(num)));
                assert(b.filter(with_num(num)).drop_last() =~= b_rest.filter(with_num(num)));
            }
        }
        assert forall|i: int, j: int| 0 <= i <= j < a_rest.len() implies a_rest[i].num
            <= a_rest[j].num by {
            assert(a[i].num <= a[j].num);
        }
        assert forall|i: int, j: int| 0 <= i <= j < b_rest.len() implies b_rest[i].num
            <= b_rest[j].num by {
            assert(b[i].num <= b[j].num);
        }
        lemma_sorted_group_is_unique(a_rest, b_rest);
        assert(a =~= a_rest.push(a.last()));
        assert(b =~= b_rest.push(b.last()));
    }
}

/// A listing has one grouping.
pub proof fn lemma_grouping_is_unique(
    a: Seq<Seq<WorkspaceView>>,
    b: Seq<Seq<WorkspaceView>>,
    listing: Seq<WorkspaceView>,
)
    requires
        is_grouping(a, listing),
        is_grouping(b, listing),
    ensures
        a == b,
{
    assert forall|g: int| 0 <= g < a.len() implies a[g] == b[g] by {
        let output = outputs_of(listing)[g];
        assert(is_group_of(a[g], output, listing));
        assert(is_group_of(b[g], output, listing));
        assert forall|num: i32| #[trigger]
            a[g].filter(with_num(num)) == b[g].filter(with_num(num)) by {
            assert(a[g].filter(with_num(num)) == listing.filter(placed(output, num)));
            assert(b[g].filter(with_num(num)) == listing.filter(placed(output, num)));
        }
        lemma_sorted_group_is_unique(a[g], b[g]);
    }
    assert(a =~= b);
}

/// No two workspaces of `listing` are of one output and one number.
pub open spec fn distinct_identities(listing: Seq<WorkspaceView>) -> bool {
    forall|i: int, j: int|
        0 <= i < j < listing.len() ==> !((#[trigger] listing[i]).output == (
        #[trigger] listing[j]).output && listing[i].num == listing[j].num)
}

/// Of a sequence in which one member at most meets `pred`, one member at most
/// is left by a filter on `pred`.
proof fn lemma_filter_one_at_most(s: Seq<WorkspaceView>, pred: spec_fn(WorkspaceView) -> bool)
    requires
        forall|i: int, j: int| 0 <= i < j < s.len() ==> !(pred(s[i]) && pred(s[j])),
    ensures
        s.filter(pred).len() <= 1,
    decreases s.len(),
{
    reveal(Seq::filter);
    if s.len() > 0 {
        let rest = s.drop_last();
        if pred(s.last()) {
            assert forall|i: int| 0 <= i < rest.len() implies !pred(rest[i]) by {
                assert(!(pred(s[i]) && pred(s[s.len() - 1])));
            }
            assert(rest.all(|x: WorkspaceView| !pred(x)));
            rest.lemma_all_neg_filter_empty(pred);
        } else {
            assert forall|i: int, j: int| 0 <= i < j < rest.len() implies !(pred(rest[i]) && pred(
                rest[j],
            )) by {
                assert(!(pred(s[i]) && pred(s[j])));
            }
            lemma_filter_one_at_most(rest, pred);
        }
    }
}

/// Of a sequence in which two members meet `pred`, two members at least are
/// left by a filter on `pred`.
proof fn lemma_filter_two_at_least(
    s: Seq<WorkspaceView>,
    pred: spec_fn(WorkspaceView) -> bool,
    i: int,
    j: int,
)
    requires
        0 <= i < j < s.len(),
        pred(s[i]),
        pred(s[j]),
    ensures
        s.filter(pred).len() >= 2,
    decreases s.len(),
{
    reveal(Seq::filter);
    let rest = s.drop_last();
    if j == s.len() - 1 {
        assert(rest[i] == s[i]);
        rest.lemma_filter_contains(pred, i);
    } else {
        assert(rest[i] == s[i] && rest[j] == s[j]);
        lemma_filter_two_at_least(rest, pred, i, j);
    }
}

/// Where no two workspaces of a listing are of one output and one number, the
/// numbers of every group of its grouping rise from each workspace to the
/// next: within a group, a number names one workspace.
pub proof fn lemma_identities_stay_distinct(
    groups: Seq<Seq<WorkspaceView>>,
    listing: Seq<WorkspaceView>,
)
    requires
        is_grouping(groups, listing),
        distinct_identities(listing),
    ensures
        forall|g: int, i: int, j: int|
            0 <= g < groups.len() && 0 <= i < j < groups[g].len() ==> (#[trigger] groups[g][i]).num
                < (#[trigger] groups[g][j]).num,
{
    assert forall|g: int, i: int, j: int|
        0 <= g < groups.len() && 0 <= i < j < groups[g].len() implies (
    #[trigger] groups[g][i]).num < (#[trigger] groups[g][j]).num by {
        let group = groups[g];
        let output = outputs_of(listing)[g];
        assert(is_group_of(group, output, listing));
        assert(group[i].num <= group[j].num);
        if group[i].num == group[j].num {
            let num = group[i].num;
            lemma_filter_two_at_least(group, with_num(num), i, j);
            assert(group.filter(with_num(num)) == listing.filter(placed(output, num)));
            lemma_filter_one_at_most(listing, placed(output, num));
        }
    }
}

/// The workspaces of a window manager, grouped by output. There is a group for
/// each output that shows a workspace; the workspaces of a group are sorted by
/// number, and no two groups are of one output.
pub struct Workspaces {
    groups: Vec<Vec<WorkspaceState>>,
}

/// What `Workspaces` keeps of its groups.
pub open spec fn groups_in_order(groups: Seq<Seq<WorkspaceView>>) -> bool {
    &&& forall|g: int|
        0 <= g < groups.len() ==> {
            &&& (#[trigger] groups[g]).len() > 0
            &&& sorted_by_num(groups[g])
            &&& forall|i: int|
                0 <= i < groups[g].len() ==> (#[trigger] groups[g][i]).output == groups[g][0].output
        }
    &&& forall|g: int, h: int|
        0 <= g < h < groups.len() ==> (#[trigger] groups[g])[0].output != (
        #[trigger] groups[h])[0].output
}

/// A grouping of a listing is kept in order.
pub proof fn lemma_grouping_in_order(groups: Seq<Seq<WorkspaceView>>, listing: Seq<WorkspaceView>)
    requires
        is_grouping(groups, listing),
    ensures
        groups_in_order(groups),
        forall|g: int| 0 <= g < groups.len() ==> (#[trigger] groups[g])[0].output == outputs_of(listing)[g],
{
    lemma_outputs_of(listing);
    assert forall|g: int| 0 <= g < groups.len() implies (#[trigger] groups[g])[0].output
        == outputs_of(listing)[g] by {
        assert(is_group_of(groups[g], outputs_of(listing)[g], listing));
        assert(groups[g][0].output == outputs_of(listing)[g]);
    }
    assert forall|g: int| 0 <= g < groups.len() implies {
        &&& (#[trigger] groups[g]).len() > 0
        &&& sorted_by_num(groups[g])
        &&& forall|i: int|
            0 <= i < groups[g].len() ==> (#[trigger] groups[g][i]).output == groups[g][0].output
    } by {
        assert(is_group_of(groups[g], outputs_of(listing)[g], listing));
    }
}

impl View for Workspaces {
    type V = Seq<Seq<WorkspaceView>>;

    closed spec fn view(&self) -> Seq<Seq<WorkspaceView>> {
        group_views(self.groups@)
    }
}

impl Clone for Workspaces {
    fn clone(&self) -> (copy: Workspaces)
        ensures
            copy@ == self@,
    {
        self.duplicate()
    }
}

impl Workspaces {
    /// What every value of the type keeps.
    #[verifier::type_invariant]
    pub open spec fn in_order(&self) -> bool {
        groups_in_order(self@)
    }

    /// No workspaces.
    pub fn new() -> (empty: Workspaces)
        ensures
            empty@ == Seq::<Seq<WorkspaceView>>::empty(),
    {
        let groups: Vec<Vec<WorkspaceState>> = Vec::new();
        assert(group_views(groups@) =~= Seq::empty());
        Workspaces { groups }
    }

    /// The number of groups: of outputs that show a workspace.
    pub fn len(&self) -> (n: usize)
        ensures
            n == self@.len(),
    {
        self.groups.len()
    }

    /// The groups, in their order.
    pub fn groups(&self) -> (groups: &Vec<Vec<WorkspaceState>>)
        ensures
            group_views(groups@) == self@,
            groups_in_order(self@),
    {
        proof {
            use_type_invariant(self);
        }
        &self.groups
    }

    /// The workspaces on `output`, sorted by number, if it shows any.
    pub fn get(&self, output: &str) -> (found: Option<&Vec<WorkspaceState>>)
        ensures
            groups_in_order(self@),
            match found {
                Some(group) => exists|g: int|
                    0 <= g < self@.len() && #[trigger] self@[g] == views(group@)
                        && self@[g][0].output == output@,
                None => forall|g: int|
                    0 <= g < self@.len() ==> (#[trigger] self@[g])[0].output != output@,
            },
    {
        proof {
            use_type_invariant(self);
        }
        let wanted = output.to_owned();
        let mut g: usize = 0;
        while g < self.groups.len()
            invariant
                g <= self.groups.len(),
                groups_in_order(self@),
                wanted@ == output@,
                forall|h: int| 0 <= h < g ==> (#[trigger] self@[h])[0].output != output@,
            decreases self.groups.len() - g,
        {
            assert(self@[g as int].len() > 0);
            assert(self@[g as int][0] == self.groups@[g as int]@[0]@);
            if self.groups[g][0].output == wanted {
                assert(self@[g as int] == views(self.groups@[g as int]@));
                return Some(&self.groups[g]);
            }
            g += 1;
        }
        None
    }

    /// A copy of the groups.
    pub fn duplicate(&self) -> (copy: Workspaces)
        ensures
            copy@ == self@,
            groups_in_order(self@),
    {
        proof {
            use_type_invariant(self);
        }
        let mut groups: Vec<Vec<WorkspaceState>> = Vec::new();
        let mut g: usize = 0;
        while g < self.groups.len()
            invariant
                g <= self.groups.len(),
                group_views(groups@) =~= self@.take(g as int),
            decreases self.groups.len() - g,
        {
            let mut group: Vec<WorkspaceState> = Vec::new();
            let mut i: usize = 0;
            while i < self.groups[g].len()
                invariant
                    g < self.groups.len(),
                    i <= self.groups@[g as int].len(),
                    views(group@) =~= views(self.groups@[g as int]@).take(i as int),
                decreases self.groups@[g as int].len() - i,
            {
                let ghost so_far = views(group@);
                let copy = self.groups[g][i].duplicate();
                group.push(copy);
                assert(views(group@) =~= so_far.push(copy@));
                assert(views(self.groups@[g as int]@).take(i as int + 1) =~= so_far.push(copy@));
                i += 1;
            }
            assert(views(group@) =~= self@[g as int]);
            let ghost so_far = group_views(groups@);
            groups.push(group);
            assert(group_views(groups@) =~= so_far.push(self@[g as int]));
            assert(self@.take(g as int + 1) =~= so_far.push(self@[g as int]));
            g += 1;
        }
        assert(group_views(groups@) =~= self@);
        Workspaces { groups }
    }
}

/// Puts `w` into `group`, which is sorted by number, behind all that are not
/// above its number.
fn insert_by_num(group: &mut Vec<WorkspaceState>, w: WorkspaceState) -> (slot: Ghost<int>)
    requires
        sorted_by_num(views(old(group)@)),
    ensures
        0 <= slot@ <= old(group)@.len(),
        forall|j: int| 0 <= j < slot@ ==> views(old(group)@)[j].num <= w.num,
        forall|j: int| slot@ <= j < old(group)@.len() ==> views(old(group)@)[j].num > w.num,
        views(final(group)@) == views(old(group)@).insert(slot@, w@),
{
    let mut slot: usize = 0;
    while slot < group.len() && group[slot].num <= w.num
        invariant
            slot <= group.len(),
            *group == *old(group),
            forall|j: int| 0 <= j < slot ==> views(group@)[j].num <= w.num,
        decreases group.len() - slot,
    {
        slot += 1;
    }
    proof {
        assert forall|j: int| slot <= j < group@.len() implies views(group@)[j].num > w.num by {
            assert(views(group@)[slot as int].num <= views(group@)[j].num);
        }
    }
    let ghost before = group@;
    group.insert(slot, w);
    assert(views(group@) =~= views(before).insert(slot as int, w@));
    Ghost(slot as int)
}

/// Groups a listing of workspaces by output and sorts each group by number.
/// The groups stand in the order in which the listing first names their
/// outputs; workspaces of one output and one number keep the order of the
/// listing.
pub fn get_workspaces(listing: Vec<WorkspaceState>) -> (grouped: Workspaces)
    ensures
        is_grouping(grouped@, views(listing@)),
        groups_in_order(grouped@),
{
    let ghost all = listing@;
    let mut groups: Vec<Vec<WorkspaceState>> = Vec::new();
    assert(group_views(groups@) =~= Seq::empty());
    assert(views(all.take(0)) =~= Seq::empty());
    for w in it: listing
        invariant
            it.seq() == all,
            is_grouping(group_views(groups@), views(all.take(it.index()))),
    {
        let ghost done = views(all.take(it.index()));
        let ghost before = group_views(groups@);
        proof {
            assert(views(all.take(it.index() + 1)) =~= done.push(w@));
            lemma_grouping_in_order(before, done);
        }
        let mut g: usize = 0;
        let mut found = false;
        while g < groups.len() && !found
            invariant
                g <= groups.len(),
                found ==> g < groups.len() && before[g as int][0].output == w@.output,
                before == group_views(groups@),
                groups_in_order(before),
                forall|h: int| 0 <= h < g ==> (#[trigger] before[h])[0].output != w@.output,
            decreases groups.len() - g + if found { 0int } else { 1int },
        {
            assert(before[g as int].len() > 0);
            assert(before[g as int][0] == groups@[g as int]@[0]@);
            if groups[g][0].output == w.output {
                found = true;
            } else {
                g += 1;
            }
        }
        if found {
            assert(sorted_by_num(before[g as int]));
            let mut group = groups.remove(g);
            let slot = insert_by_num(&mut group, w);
            groups.insert(g, group);
            proof {
                lemma_grouping_put(before, done, g as int, slot@, w@);
                assert(group_views(groups@) =~= before.update(
                    g as int,
                    before[g as int].insert(slot@, w@),
                ));
            }
        } else {
            let mut group: Vec<WorkspaceState> = Vec::new();
            group.push(w);
            groups.push(group);
            proof {
                lemma_grouping_open(before, done, w@);
                assert(views(group@) =~= seq![w@]);
                assert(group_views(groups@) =~= before.push(seq![w@]));
            }
        }
    }
    proof {
        assert(all.take(all.len() as int) =~= all);
        lemma_grouping_in_order(group_views(groups@), views(all));
    }
    Workspaces { groups }
}

} // verus!

//! A set of chosen values in which some values exclude all others.

use vstd::prelude::*;
use vstd::string::StringExecFns;
use crate::params::Param;
use crate::text::joined;
use crate::text::lemma_joined_empty;
use crate::text::lemma_joined_push;
use crate::text::lemma_pieces_of_joined;
use crate::text::pieces;
use crate::text::plain;

verus! {

/// What a selection must satisfy: no value stands twice, and a value of the
/// singleton group stands alone.
pub open spec fn exclusive<T>(singles: Set<T>, order: Seq<T>) -> bool {
    &&& order.no_duplicates()
    &&& forall|i: int| 0 <= i < order.len() && singles.contains(#[trigger] order[i]) ==> order.len() == 1
}

/// The selection after `value` is chosen. A value of the singleton group
/// replaces everything. Any other value first evicts the members of the
/// singleton group, then joins the rest at the end unless it is there already.
pub open spec fn chosen<T>(singles: Set<T>, order: Seq<T>, value: T) -> Seq<T> {
    if singles.contains(value) {
        seq![value]
    } else {
        let kept = order.filter(|v: T| !singles.contains(v));
        if kept.contains(value) {
            kept
        } else {
            kept.push(value)
        }
    }
}

/// The selection after each of `values` is chosen in turn.
pub open spec fn chosen_all<T>(singles: Set<T>, order: Seq<T>, values: Seq<T>) -> Seq<T>
    decreases values.len(),
{
    if values.len() == 0 {
        order
    } else {
        chosen(singles, chosen_all(singles, order, values.drop_last()), values.last())
    }
}

/// The wire texts of a selection, in the selection's order.
pub open spec fn names<T: Param>(order: Seq<T>) -> Seq<Seq<char>> {
    order.map_values(|v: T| v.wire())
}

/// The wire texts of a selection, joined with commas in the selection's order.
pub open spec fn rendered<T: Param>(order: Seq<T>) -> Seq<char> {
    joined(names(order))
}

/// The values chosen for one query parameter. The selection holds no value
/// twice. The values of the singleton group, fixed at construction, exclude
/// every other value: where one of them is selected, nothing else is.
///
/// The view is the selection in the order in which its values were chosen,
/// which is also the order in which they are rendered.
pub struct Selector<T> {
    selected: Vec<T>,
    singleset: Vec<T>,
}

impl<T> View for Selector<T> {
    type V = Seq<T>;

    closed spec fn view(&self) -> Seq<T> {
        self.selected@
    }
}

/// Whether `items` holds `value`.
fn holds<T: Param>(items: &Vec<T>, value: &T) -> (found: bool)
    ensures
        found == items@.contains(*value),
{
    let mut i: usize = 0;
    while i < items.len()
        invariant
            i <= items.len(),
            forall|k: int| 0 <= k < i ==> items@[k] != *value,
        decreases items.len() - i,
    {
        if items[i].same(value) {
            return true;
        }
        i += 1;
    }
    false
}

impl<T> Selector<T> {
    /// The singleton group: the values that exclude all others.
    pub closed spec fn singles(&self) -> Set<T> {
        self.singleset@.to_set()
    }

    /// Whether the selection satisfies [`exclusive`]. Every selector that this
    /// library hands out does.
    pub open spec fn wf(&self) -> bool {
        exclusive(self.singles(), self@)
    }

    #[verifier::type_invariant]
    spec fn inv(&self) -> bool {
        self.wf()
    }
}

impl<T: Param> Selector<T> {
    /// A selector with the given singleton group and nothing selected.
    pub fn new(singleset: &[T]) -> (selector: Self)
        ensures
            selector@ == Seq::<T>::empty(),
            selector.singles() == singleset@.to_set(),
            selector.wf(),
    {
        let mut group: Vec<T> = Vec::new();
        let mut i: usize = 0;
        while i < singleset.len()
            invariant
                i <= singleset.len(),
                group@ == singleset@.take(i as int),
            decreases singleset.len() - i,
        {
            group.push(singleset[i]);
            proof {
                assert(group@ =~= singleset@.take(i + 1));
            }
            i += 1;
        }
        proof {
            assert(singleset@.take(singleset.len() as int) =~= singleset@);
        }
        Selector { selected: Vec::new(), singleset: group }
    }

    /// Chooses `value`, evicting what it excludes and what excludes it.
    pub fn select(&mut self, value: T)
        ensures
            final(self).singles() == old(self).singles(),
            final(self)@ == chosen(old(self).singles(), old(self)@, value),
            final(self).wf(),
    {
        proof {
            use_type_invariant(&*self);
        }
        let ghost singles = self.singles();
        let ghost keep = |v: T| !singles.contains(v);
        let mut next: Vec<T> = Vec::new();
        if holds(&self.singleset, &value) {
            next.push(value);
            proof {
                assert(next@ =~= seq![value]);
            }
        } else {
            let mut present = false;
            let mut i: usize = 0;
            while i < self.selected.len()
                invariant
                    i <= self.selected.len(),
                    singles == self.singles(),
                    keep == |v: T| !singles.contains(v),
                    next@ == self.selected@.take(i as int).filter(keep),
                    present == next@.contains(value),
                decreases self.selected.len() - i,
            {
                let item = self.selected[i];
                proof {
                    self.selected@.take(i as int).lemma_filter_push(item, keep);
                    assert(self.selected@.take(i as int).push(item) =~= self.selected@.take(i + 1));
                }
                if !holds(&self.singleset, &item) {
                    if item.same(&value) {
                        present = true;
                    }
                    proof {
                        vstd::seq_lib::lemma_seq_contains_after_push(next@, item, value);
                    }
                    next.push(item);
                }
                i += 1;
            }
            proof {
                assert(self.selected@.take(self.selected.len() as int) =~= self.selected@);
            }
            if !present {
                next.push(value);
            }
        }
        proof {
            lemma_chosen_exclusive(singles, self@, value);
        }
        self.selected = next;
    }

    /// Whether `value` is selected.
    pub fn contains(&self, value: &T) -> (found: bool)
        ensures
            found == self@.contains(*value),
    {
        holds(&self.selected, value)
    }

    /// The selection's wire texts joined with commas; the empty string where
    /// nothing is selected.
    pub fn to_string(&self) -> (text: String)
        ensures
            text@ == rendered(self@),
    {
        let mut out = String::new();
        let mut i: usize = 0;
        while i < self.selected.len()
            invariant
                i <= self.selected.len(),
                out@ == rendered(self.selected@.take(i as int)),
            decreases self.selected.len() - i,
        {
            proof {
                reveal_strlit(",");
                let before = self.selected@.take(i as int);
                let item = self.selected@[i as int];
                lemma_joined_push(names(before), item.wire());
                assert(before.push(item) =~= self.selected@.take(i + 1));
                assert(names(before).push(item.wire()) =~= names(before.push(item)));
                assert(","@ =~= seq![',']);
            }
            if i > 0 {
                out.append(",");
            }
            out.append(self.selected[i].as_str());
            i += 1;
        }
        proof {
            assert(self.selected@.take(self.selected.len() as int) =~= self.selected@);
        }
        out
    }
}

/// Choosing a value keeps a selection free of duplicates and leaves a member
/// of the singleton group alone in it.
pub proof fn lemma_chosen_exclusive<T>(singles: Set<T>, order: Seq<T>, value: T)
    requires
        order.no_duplicates(),
    ensures
        exclusive(singles, chosen(singles, order, value)),
{
    let keep = |v: T| !singles.contains(v);
    let kept = order.filter(keep);
    let next = chosen(singles, order, value);
    if !singles.contains(value) {
        lemma_filter_no_duplicates(order, keep);
        assert forall|i: int| 0 <= i < next.len() implies !singles.contains(#[trigger] next[i]) by {
            if i < kept.len() {
                order.lemma_filter_pred(keep, i);
            }
        }
        if !kept.contains(value) {
            assert forall|i: int, j: int| 0 <= i < next.len() && 0 <= j < next.len() && i != j implies next[i]
                != next[j] by {
                if i < kept.len() && j < kept.len() {
                } else if i < kept.len() {
                    assert(kept.contains(kept[i]));
                } else {
                    assert(kept.contains(kept[j]));
                }
            }
        }
    }
}

/// A filter keeps a sequence free of duplicates.
pub proof fn lemma_filter_no_duplicates<T>(order: Seq<T>, keep: spec_fn(T) -> bool)
    requires
        order.no_duplicates(),
    ensures
        order.filter(keep).no_duplicates(),
    decreases order.len(),
{
    reveal(Seq::filter);
    if order.len() > 0 {
        let front = order.drop_last();
        lemma_filter_no_duplicates(front, keep);
        if keep(order.last()) {
            let kept = front.filter(keep);
            assert forall|i: int| 0 <= i < kept.len() implies kept[i] != order.last() by {
                assert(kept.contains(kept[i]));
                front.lemma_filter_contains_rev(keep, kept[i]);
                let k = choose|k: int| 0 <= k < front.len() && front[k] == kept[i];
                assert(order[k] == front[k]);
            }
        }
    }
}

/// What a filter keeps: the members of the sequence that pass it.
pub proof fn lemma_filter_members<T>(order: Seq<T>, keep: spec_fn(T) -> bool)
    ensures
        forall|x: T| #[trigger] order.filter(keep).contains(x) <==> order.contains(x) && keep(x),
{
    let kept = order.filter(keep);
    assert forall|x: T| #[trigger] kept.contains(x) <==> order.contains(x) && keep(x) by {
        if kept.contains(x) {
            let i = choose|i: int| 0 <= i < kept.len() && kept[i] == x;
            order.lemma_filter_pred(keep, i);
            order.lemma_filter_contains_rev(keep, x);
        }
        if order.contains(x) && keep(x) {
            let i = choose|i: int| 0 <= i < order.len() && order[i] == x;
            order.lemma_filter_contains(keep, i);
        }
    }
}

/// The members of a selection after a choice. A value of the singleton group
/// is then the only member. Any other value joins the members that are not of
/// the singleton group.
pub proof fn lemma_chosen_members<T>(singles: Set<T>, order: Seq<T>, value: T)
    ensures
        chosen(singles, order, value).to_set() == if singles.contains(value) {
            set![value]
        } else {
            order.to_set().difference(singles).insert(value)
        },
{
    let next = chosen(singles, order, value);
    if singles.contains(value) {
        assert(next[0] == value);
        assert forall|x: T| next.to_set().contains(x) <==> set![value].contains(x) by {
            if x == value {
                assert(next.contains(next[0]));
            }
        }
        assert(next.to_set() =~= set![value]);
    } else {
        let keep = |v: T| !singles.contains(v);
        let kept = order.filter(keep);
        lemma_filter_members(order, keep);
        assert forall|x: T|
            next.to_set().contains(x) <==> order.to_set().difference(singles).insert(value).contains(
                x,
            ) by {
            vstd::seq_lib::lemma_seq_contains_after_push(kept, value, x);
            assert(kept.contains(x) <==> order.contains(x) && keep(x));
        }
        assert(next.to_set() =~= order.to_set().difference(singles).insert(value));
    }
}

/// Choosing the same value twice in a row is the same as choosing it once:
/// the selection and its rendering stay as they were after the first time.
pub proof fn lemma_chosen_twice<T: Param>(singles: Set<T>, order: Seq<T>, value: T)
    ensures
        chosen(singles, chosen(singles, order, value), value) == chosen(singles, order, value),
        rendered(chosen(singles, chosen(singles, order, value), value)) == rendered(
            chosen(singles, order, value),
        ),
{
    let once = chosen(singles, order, value);
    if !singles.contains(value) {
        let keep = |v: T| !singles.contains(v);
        lemma_filter_members(order, keep);
        assert forall|i: int| 0 <= i < once.len() implies keep(#[trigger] once[i]) by {
            if i < order.filter(keep).len() {
                order.lemma_filter_pred(keep, i);
            }
        }
        lemma_filter_keeps_all(once, keep);
        vstd::seq_lib::lemma_seq_contains_after_push(order.filter(keep), value, value);
    }
}

/// A filter that every member passes changes nothing.
pub proof fn lemma_filter_keeps_all<T>(order: Seq<T>, keep: spec_fn(T) -> bool)
    requires
        forall|i: int| 0 <= i < order.len() ==> keep(#[trigger] order[i]),
    ensures
        order.filter(keep) == order,
    decreases order.len(),
{
    reveal(Seq::filter);
    if order.len() > 0 {
        lemma_filter_keeps_all(order.drop_last(), keep);
        assert(order.drop_last().push(order.last()) =~= order);
    }
}

/// Mutual exclusion, first half: a value of the singleton group clears
/// whatever was selected before it.
pub proof fn lemma_single_clears<T>(singles: Set<T>, order: Seq<T>, value: T)
    requires
        singles.contains(value),
    ensures
        chosen(singles, order, value) == seq![value],
{
}

/// Mutual exclusion, second half: after a value outside the singleton group
/// is chosen, it is selected and no value of the singleton group is.
pub proof fn lemma_other_evicts<T>(singles: Set<T>, order: Seq<T>, value: T)
    requires
        !singles.contains(value),
    ensures
        chosen(singles, order, value).contains(value),
        forall|x: T| singles.contains(x) ==> !(#[trigger] chosen(singles, order, value).contains(x)),
{
    lemma_chosen_members(singles, order, value);
    let next = chosen(singles, order, value);
    assert(next.to_set().contains(value));
    assert forall|x: T| singles.contains(x) implies !(#[trigger] next.contains(x)) by {
        assert(!next.to_set().contains(x));
    }
}

/// One choice is a turn of one.
pub proof fn lemma_chosen_all_one<T>(singles: Set<T>, order: Seq<T>, value: T)
    ensures
        chosen_all(singles, order, seq![value]) == chosen(singles, order, value),
{
    assert(seq![value].drop_last().len() == 0);
    assert(chosen_all(singles, order, seq![value].drop_last()) == order);
    assert(seq![value].last() == value);
}

/// Choices made in two turns are the choices of one turn, one after the
/// other.
pub proof fn lemma_chosen_all_concat<T>(singles: Set<T>, order: Seq<T>, first: Seq<T>, then: Seq<T>)
    ensures
        chosen_all(singles, chosen_all(singles, order, first), then) == chosen_all(
            singles,
            order,
            first + then,
        ),
    decreases then.len(),
{
    if then.len() == 0 {
        assert(first + then =~= first);
    } else {
        lemma_chosen_all_concat(singles, order, first, then.drop_last());
        assert((first + then).drop_last() =~= first + then.drop_last());
        assert((first + then).last() == then.last());
    }
}

/// Any number of choices keeps a selection free of duplicates and a member
/// of the singleton group alone in it.
pub proof fn lemma_chosen_all_exclusive<T>(singles: Set<T>, order: Seq<T>, values: Seq<T>)
    requires
        exclusive(singles, order),
    ensures
        exclusive(singles, chosen_all(singles, order, values)),
    decreases values.len(),
{
    if values.len() > 0 {
        lemma_chosen_all_exclusive(singles, order, values.drop_last());
        lemma_chosen_exclusive(
            singles,
            chosen_all(singles, order, values.drop_last()),
            values.last(),
        );
    }
}

/// After any choices, the last one decides: a value of the singleton group
/// is then the whole selection; any other value is selected, and no value of
/// the singleton group is.
pub proof fn lemma_chosen_all_last<T>(singles: Set<T>, order: Seq<T>, values: Seq<T>)
    requires
        values.len() > 0,
    ensures
        singles.contains(values.last()) ==> chosen_all(singles, order, values) == seq![values.last()],
        !singles.contains(values.last()) ==> chosen_all(singles, order, values).contains(
            values.last(),
        ) && forall|x: T|
            singles.contains(x) ==> !(#[trigger] chosen_all(singles, order, values).contains(x)),
{
    if !singles.contains(values.last()) {
        lemma_other_evicts(singles, chosen_all(singles, order, values.drop_last()), values.last());
    }
}

/// Where no value excludes another, choices only add up: after any choices
/// the selection holds what it held before and every value chosen, each once.
pub proof fn lemma_chosen_all_adds<T>(order: Seq<T>, values: Seq<T>)
    requires
        order.no_duplicates(),
    ensures
        chosen_all(Set::<T>::empty(), order, values).no_duplicates(),
        chosen_all(Set::<T>::empty(), order, values).to_set() == order.to_set().union(
            values.to_set(),
        ),
    decreases values.len(),
{
    let none = Set::<T>::empty();
    let end = chosen_all(none, order, values);
    if values.len() == 0 {
        assert(values.to_set() =~= Set::<T>::empty());
        assert(end.to_set() =~= order.to_set().union(values.to_set()));
    } else {
        let front = values.drop_last();
        let before = chosen_all(none, order, front);
        lemma_chosen_all_adds(order, front);
        lemma_chosen_exclusive(none, before, values.last());
        lemma_chosen_members(none, before, values.last());
        assert forall|x: T| end.to_set().contains(x) <==> order.to_set().union(
            values.to_set(),
        ).contains(x) by {
            assert(front.push(values.last()) =~= values);
            vstd::seq_lib::lemma_seq_contains_after_push(front, values.last(), x);
        }
        assert(end.to_set() =~= order.to_set().union(values.to_set()));
    }
}

/// A value's wire text is among a selection's names exactly where the value
/// is selected.
pub proof fn lemma_names_members<T: Param>(order: Seq<T>, value: T)
    ensures
        names(order).contains(value.wire()) <==> order.contains(value),
{
    if names(order).contains(value.wire()) {
        let i = choose|i: int| 0 <= i < names(order).len() && names(order)[i] == value.wire();
        order[i].lemma_wire_distinct(value);
        assert(order[i] == value);
    }
    if order.contains(value) {
        let i = choose|i: int| 0 <= i < order.len() && order[i] == value;
        assert(names(order)[i] == value.wire());
    }
}

/// A selection without duplicates has names without duplicates.
pub proof fn lemma_names_no_duplicates<T: Param>(order: Seq<T>)
    requires
        order.no_duplicates(),
    ensures
        names(order).no_duplicates(),
{
    assert forall|i: int, j: int|
        0 <= i < names(order).len() && 0 <= j < names(order).len() && i != j implies names(
        order,
    )[i] != names(order)[j] by {
        if names(order)[i] == names(order)[j] {
            order[i].lemma_wire_distinct(order[j]);
        }
    }
}

/// The rendering shows the selection: cut at its commas, it gives the names
/// of the selected values in order, and it is empty exactly where nothing is
/// selected.
pub proof fn lemma_rendered_pieces<T: Param>(order: Seq<T>)
    ensures
        order.len() > 0 ==> pieces(rendered(order)) == names(order),
        rendered(order).len() == 0 <==> order.len() == 0,
{
    assert forall|i: int| 0 <= i < names(order).len() implies plain(#[trigger] names(order)[i]) && names(
        order,
    )[i].len() > 0 by {
        order[i].lemma_wire_plain();
    }
    lemma_joined_empty(names(order));
    if order.len() > 0 {
        lemma_pieces_of_joined(names(order));
    }
}

/// Two selections that render alike are the same selection.
pub proof fn lemma_rendered_distinct<T: Param>(left: Seq<T>, right: Seq<T>)
    requires
        rendered(left) == rendered(right),
    ensures
        left == right,
{
    lemma_rendered_pieces(left);
    lemma_rendered_pieces(right);
    if left.len() > 0 {
        assert(names(left) == names(right));
        assert(left.len() == names(left).len());
        assert(right.len() == names(right).len());
        assert forall|i: int| 0 <= i < left.len() implies left[i] == right[i] by {
            assert(names(left)[i] == names(right)[i]);
            left[i].lemma_wire_distinct(right[i]);
        }
    }
    assert(left =~= right);
}

} // verus!

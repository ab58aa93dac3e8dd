//! The extra labels that the fetch side puts on every data line of a scrape.

use vstd::prelude::*;
use vstd::string::*;


verus! {

/// Mathematical value of a [`Label`].
pub struct LabelView {
    pub name: Seq<char>,
    pub value: Seq<char>,
}

/// One label: a name and the value it is set to.
#[derive(Debug)]
pub struct Label {
    pub name: String,
    pub value: String,
}

impl View for Label {
    type V = LabelView;

    open spec fn view(&self) -> LabelView {
        LabelView { name: self.name@, value: self.value@ }
    }
}

/// The labels of a vector, each taken by its view.
pub open spec fn labels_view(v: Seq<Label>) -> Seq<LabelView> {
    v.map_values(|l: Label| l@)
}

/// Index of the first label named `name`, or the length where there is none.
pub open spec fn label_index(ls: Seq<LabelView>, name: Seq<char>) -> nat
    decreases ls.len(),
{
    if ls.len() > 0 && ls[0].name != name {
        1 + label_index(ls.skip(1), name)
    } else {
        0
    }
}

/// No two labels carry the same name.
pub open spec fn distinct_names(ls: Seq<LabelView>) -> bool {
    forall|i: int, j: int| 0 <= i < j < ls.len() ==> ls[i].name != ls[j].name
}

/// `ls` with `name` set to `value`: in place where the name is present,
/// at the end where it is not.
pub open spec fn with_label(ls: Seq<LabelView>, name: Seq<char>, value: Seq<char>) -> Seq<
    LabelView,
> {
    let i = label_index(ls, name);
    if i < ls.len() {
        ls.update(i as int, LabelView { name, value })
    } else {
        ls.push(LabelView { name, value })
    }
}

/// `label_index(ls, name)` is the one index before which no label has the name
/// and at which one has it.
pub proof fn lemma_label_index_is(ls: Seq<LabelView>, name: Seq<char>, k: int)
    requires
        0 <= k <= ls.len(),
        forall|j: int| 0 <= j < k ==> ls[j].name != name,
        k < ls.len() ==> ls[k].name == name,
    ensures
        label_index(ls, name) == k,
    decreases ls.len(),
{
    if k > 0 {
        let t = ls.skip(1);
        assert forall|j: int| 0 <= j < k - 1 implies t[j].name != name by {
            assert(t[j] == ls[j + 1]);
        }
        lemma_label_index_is(t, name, k - 1);
    }
}

/// An insertion-ordered mapping from label names to values.
pub struct Labels {
    entries: Vec<Label>,
}

impl View for Labels {
    type V = Seq<LabelView>;

    closed spec fn view(&self) -> Seq<LabelView> {
        labels_view(self.entries@)
    }
}

impl Labels {
    /// Each name is present at most once.
    #[verifier::type_invariant]
    spec fn names_are_distinct(&self) -> bool {
        distinct_names(labels_view(self.entries@))
    }

    pub fn new() -> (l: Self)
        ensures
            l@ == Seq::<LabelView>::empty(),
    {
        let l = Labels { entries: Vec::new() };
        assert(l@ =~= Seq::<LabelView>::empty());
        l
    }

    /// The number of labels. No two of them carry the same name.
    pub fn len(&self) -> (n: usize)
        ensures
            n == self@.len(),
            distinct_names(self@),
    {
        proof {
            use_type_invariant(self);
        }
        self.entries.len()
    }

    pub fn is_empty(&self) -> (b: bool)
        ensures
            b == (self@.len() == 0),
    {
        self.entries.len() == 0
    }

    /// The label at position `i`, in insertion order.
    pub fn get(&self, i: usize) -> (l: &Label)
        requires
            i < self@.len(),
        ensures
            l@ == self@[i as int],
    {
        &self.entries[i]
    }

    /// Sets `name` to `value`, replacing the value of a name already present.
    pub fn insert(&mut self, name: String, value: String)
        ensures
            final(self)@ == with_label(old(self)@, name@, value@),
            distinct_names(final(self)@),
    {
        proof {
            use_type_invariant(&*self);
        }
        let n = self.entries.len();
        let mut i: usize = 0;
        while i < n && self.entries[i].name != name
            invariant
                n == self.entries.len(),
                i <= n,
                forall|j: int| 0 <= j < i ==> self@[j].name != name@,
            decreases n - i,
        {
            i += 1;
        }
        proof {
            lemma_label_index_is(self@, name@, i as int);
        }
        let ghost before = self@;
        let label = Label { name, value };
        let mut entries: Vec<Label> = Vec::new();
        std::mem::swap(&mut entries, &mut self.entries);
        if i < n {
            entries[i] = label;
            assert(labels_view(entries@) =~= before.update(i as int, label@));
        } else {
            entries.push(label);
            assert(labels_view(entries@) =~= before.push(label@));
        }
        assert(distinct_names(labels_view(entries@))) by {
            let after = labels_view(entries@);
            assert forall|x: int, y: int| 0 <= x < y < after.len() implies after[x].name
                != after[y].name by {
                if i < n {
                    assert(after[x].name == before[x].name);
                    assert(after[y].name == before[y].name);
                } else if y == n {
                    assert(after[x].name == before[x].name);
                }
            }
        }
        std::mem::swap(&mut entries, &mut self.entries);
    }
}

} // verus!

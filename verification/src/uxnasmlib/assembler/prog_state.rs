use vstd::prelude::*;

verus! {

/// A label: its address and the addresses of its sub-labels, by name.
#[derive(Debug, PartialEq, Eq, Clone)]
pub struct Label {
    pub address: u16,
    pub sub_labels: Vec<(String, u16)>,
}

pub struct LabelModel {
    pub address: u16,
    pub sub_labels: Seq<(Seq<char>, u16)>,
}

impl View for Label {
    type V = LabelModel;

    open spec fn view(&self) -> LabelModel {
        LabelModel {
            address: self.address,
            sub_labels: self.sub_labels@.map_values(|p: (String, u16)| (p.0@, p.1)),
        }
    }
}

impl Label {
    /// A label at `address` with no sub-labels.
    pub fn new(address: u16) -> (r: Self)
        ensures
            r@ == (LabelModel { address, sub_labels: Seq::empty() }),
    {
        let r = Label { address, sub_labels: Vec::new() };
        assert(r@.sub_labels =~= Seq::<(Seq<char>, u16)>::empty());
        r
    }
}

/// The labels of a program by name, with their models.
pub open spec fn labels_view(labels: Seq<(String, Label)>) -> Seq<(Seq<char>, LabelModel)> {
    labels.map_values(|e: (String, Label)| (e.0@, e.1@))
}

/// `i` is the first entry named `name`.
pub open spec fn first_named<V>(entries: Seq<(Seq<char>, V)>, name: Seq<char>, i: int) -> bool {
    &&& 0 <= i < entries.len()
    &&& entries[i].0 == name
    &&& forall|k: int| 0 <= k < i ==> entries[k].0 != name
}

/// What the first entry named `name` holds, if any entry is.
pub open spec fn lookup<V>(entries: Seq<(Seq<char>, V)>, name: Seq<char>) -> Option<V> {
    if exists|i: int| first_named(entries, name, i) {
        Some(entries[choose|i: int| first_named(entries, name, i)].1)
    } else {
        None
    }
}

/// No name occurs twice among the entries.
pub open spec fn names_unique<V>(entries: Seq<(Seq<char>, V)>) -> bool {
    forall|i: int, j: int| 0 <= i < j < entries.len() ==> entries[i].0 != entries[j].0
}

pub proof fn lemma_first_named_unique<V>(entries: Seq<(Seq<char>, V)>, name: Seq<char>, i: int, j: int)
    requires
        first_named(entries, name, i),
        first_named(entries, name, j),
    ensures
        i == j,
{
    if i < j {
        assert(entries[i].0 != name);
    } else if j < i {
        assert(entries[j].0 != name);
    }
}

/// Where the assembler stands in a program: the address of the next byte, the labels of the
/// program, and the label defined last.
pub struct ProgState<'a> {
    pub counter: u16,
    pub labels: &'a Vec<(String, Label)>,
    pub current_label: String,
}

/// Finds the first label named `name`.
pub fn find_label(labels: &Vec<(String, Label)>, name: &String) -> (r: Option<usize>)
    ensures
        match r {
            Some(i) => first_named(labels_view(labels@), name@, i as int),
            None => lookup(labels_view(labels@), name@) is None,
        },
{
    let mut i: usize = 0;
    while i < labels.len()
        invariant
            i <= labels@.len(),
            forall|k: int| 0 <= k < i ==> labels_view(labels@)[k].0 != name@,
        decreases labels.len() - i,
    {
        if labels[i].0 == *name {
            return Some(i);
        }
        i = i + 1;
    }
    None
}

/// Finds the first sub-label named `name`.
pub fn find_sub_label(label: &Label, name: &String) -> (r: Option<u16>)
    ensures
        r == lookup(label@.sub_labels, name@),
{
    let mut i: usize = 0;
    while i < label.sub_labels.len()
        invariant
            i <= label.sub_labels@.len(),
            forall|k: int| 0 <= k < i ==> label@.sub_labels[k].0 != name@,
        decreases label.sub_labels.len() - i,
    {
        if label.sub_labels[i].0 == *name {
            proof {
                assert(first_named(label@.sub_labels, name@, i as int));
                assert forall|j: int| first_named(label@.sub_labels, name@, j) implies j == i by {
                    lemma_first_named_unique(label@.sub_labels, name@, i as int, j);
                }
            }
            return Some(label.sub_labels[i].1);
        }
        i = i + 1;
    }
    None
}

} // verus!

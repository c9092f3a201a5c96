use vstd::prelude::*;
use vstd::std_specs::cmp::PartialEqSpec;

verus! {

/// The fields of an allele, as mathematical values.
pub struct AlleleView {
    pub gene: Seq<char>,
    pub f1: Option<u16>,
    pub f2: Option<u16>,
    pub f3: Option<u16>,
    pub f4: Option<u16>,
}

/// One nomenclature designation: a gene and up to four numeric fields of
/// increasing specificity.
#[derive(Debug)]
pub struct Allele {
    gene: String,
    f1: Option<u16>,
    f2: Option<u16>,
    f3: Option<u16>,
    f4: Option<u16>,
}

impl View for Allele {
    type V = AlleleView;

    closed spec fn view(&self) -> AlleleView {
        AlleleView { gene: self.gene@, f1: self.f1, f2: self.f2, f3: self.f3, f4: self.f4 }
    }
}

impl AlleleView {
    /// A field is only present when every less specific field is.
    pub open spec fn wf(self) -> bool {
        &&& (self.f2 is Some ==> self.f1 is Some)
        &&& (self.f3 is Some ==> self.f2 is Some)
        &&& (self.f4 is Some ==> self.f3 is Some)
    }

    /// The numeric field at `level` (1 to 4).
    pub open spec fn level(self, level: int) -> Option<u16> {
        if level == 1 {
            self.f1
        } else if level == 2 {
            self.f2
        } else if level == 3 {
            self.f3
        } else {
            self.f4
        }
    }
}

impl Allele {
    /// Every allele keeps the chain of present fields.
    #[verifier::type_invariant]
    closed spec fn inv(&self) -> bool {
        self@.wf()
    }

    pub fn new(
        gene: String,
        f1: Option<u16>,
        f2: Option<u16>,
        f3: Option<u16>,
        f4: Option<u16>,
    ) -> (r: Allele)
        requires
            f2 is Some ==> f1 is Some,
            f3 is Some ==> f2 is Some,
            f4 is Some ==> f3 is Some,
        ensures
            r@ == (AlleleView { gene: gene@, f1, f2, f3, f4 }),
            r@.wf(),
    {
        Allele { gene, f1, f2, f3, f4 }
    }

    pub fn gene(&self) -> (r: &String)
        ensures
            r@ == self@.gene,
    {
        &self.gene
    }

    pub fn f1(&self) -> (r: Option<u16>)
        ensures
            r == self@.f1,
    {
        self.f1
    }

    pub fn f2(&self) -> (r: Option<u16>)
        ensures
            r == self@.f2,
    {
        self.f2
    }

    pub fn f3(&self) -> (r: Option<u16>)
        ensures
            r == self@.f3,
    {
        self.f3
    }

    pub fn f4(&self) -> (r: Option<u16>)
        ensures
            r == self@.f4,
    {
        self.f4
    }

    /// The numeric field at `level` (1 to 4).
    pub fn level(&self, level: usize) -> (r: Option<u16>)
        requires
            1 <= level <= 4,
        ensures
            r == self@.level(level as int),
    {
        if level == 1 {
            self.f1
        } else if level == 2 {
            self.f2
        } else if level == 3 {
            self.f3
        } else {
            self.f4
        }
    }

    /// A field-for-field copy.
    pub fn duplicate(&self) -> (r: Allele)
        ensures
            r@ == self@,
    {
        proof {
            use_type_invariant(self);
        }
        Allele { gene: self.gene.clone(), f1: self.f1, f2: self.f2, f3: self.f3, f4: self.f4 }
    }
}

/// The view of an optional allele.
pub open spec fn opt_view(r: Option<Allele>) -> Option<AlleleView> {
    match r {
        Some(a) => Some(a@),
        None => None,
    }
}

/// All members carry the gene of the first one.
pub open spec fn genes_agree(s: Seq<AlleleView>) -> bool {
    forall|i: int| 0 <= i < s.len() ==> #[trigger] s[i].gene == s[0].gene
}

/// All members carry the numeric field of the first one at `level`.
pub open spec fn level_agrees(s: Seq<AlleleView>, level: int) -> bool {
    forall|i: int| 0 <= i < s.len() ==> #[trigger] s[i].level(level) == s[0].level(level)
}

/// How many numeric levels, counted from the first, all members agree on.
pub open spec fn common_depth(s: Seq<AlleleView>) -> int {
    if !level_agrees(s, 1) {
        0
    } else if !level_agrees(s, 2) {
        1
    } else if !level_agrees(s, 3) {
        2
    } else if !level_agrees(s, 4) {
        3
    } else {
        4
    }
}

/// The most specific allele that every member of `s` descends from.
///
/// Members that share only their gene give that gene with no numeric field;
/// members of different genes have no common allele.
pub open spec fn lowest_common(s: Seq<AlleleView>) -> Option<AlleleView> {
    if s.len() == 0 {
        None
    } else if s.len() == 1 {
        Some(s[0])
    } else if !genes_agree(s) {
        None
    } else {
        let d = common_depth(s);
        Some(
            AlleleView {
                gene: s[0].gene,
                f1: if d >= 1 {
                    s[0].f1
                } else {
                    None
                },
                f2: if d >= 2 {
                    s[0].f2
                } else {
                    None
                },
                f3: if d >= 3 {
                    s[0].f3
                } else {
                    None
                },
                f4: if d >= 4 {
                    s[0].f4
                } else {
                    None
                },
            },
        )
    }
}

/// A single class has as lowest common allele the allele stored under it,
/// unchanged.
pub proof fn lemma_single_class(db: Seq<AlleleView>, id: usize)
    requires
        id < db.len(),
    ensures
        lowest_common(selected(db, seq![id])) == Some(db[id as int]),
{
    assert(selected(db, seq![id]) =~= seq![db[id as int]]);
}

/// Two alleles that share gene and first field but differ at the second have
/// as lowest common allele that gene and first field with nothing after.
pub proof fn lemma_split_at_second_field(a: AlleleView, b: AlleleView)
    requires
        a.gene == b.gene,
        a.f1 == b.f1,
        a.f2 != b.f2,
    ensures
        lowest_common(seq![a, b]) == Some(
            AlleleView { gene: a.gene, f1: a.f1, f2: None, f3: None, f4: None },
        ),
{
    let s = seq![a, b];
    assert(s[1].level(2) != s[0].level(2));
    assert(level_agrees(s, 1));
    assert(genes_agree(s));
}

/// Two alleles of different genes have no common allele.
pub proof fn lemma_different_genes(a: AlleleView, b: AlleleView)
    requires
        a.gene != b.gene,
    ensures
        lowest_common(seq![a, b]) is None,
{
    assert(seq![a, b][1].gene != seq![a, b][0].gene);
}

/// Taking the lowest common allele again, of the result and any member of the
/// set, gives the result back.
pub proof fn lemma_lowest_common_closed(s: Seq<AlleleView>, m: int)
    requires
        0 <= m < s.len(),
        lowest_common(s) is Some,
    ensures
        lowest_common(seq![lowest_common(s).unwrap(), s[m]]) == lowest_common(s),
{
    let r = lowest_common(s).unwrap();
    let t = seq![r, s[m]];
    if s.len() == 1 {
        assert(t[1] == t[0]);
        assert(genes_agree(t));
        assert(level_agrees(t, 1));
        assert(level_agrees(t, 2));
        assert(level_agrees(t, 3));
        assert(level_agrees(t, 4));
    } else {
        let d = common_depth(s);
        assert(s[m].gene == s[0].gene);
        assert(genes_agree(t));
        assert forall|l: int| 1 <= l <= d implies level_agrees(t, l) by {
            assert(level_agrees(s, l));
            assert(s[m].level(l) == s[0].level(l));
            assert(t[1].level(l) == t[0].level(l));
        }
        assert(common_depth(t) >= d);
        let u = lowest_common(t).unwrap();
        assert(u.f1 == r.f1);
        assert(u.f2 == r.f2);
        assert(u.f3 == r.f3);
        assert(u.f4 == r.f4);
    }
}

/// The first item, when every item equals it; `None` for no items or when
/// two differ.
pub fn all_same<T: PartialEq>(items: &[T]) -> (r: Option<&T>)
    requires
        T::obeys_eq_spec(),
    ensures
        r is Some <==> items@.len() > 0 && forall|i: int|
            0 <= i < items@.len() ==> #[trigger] items@[i].eq_spec(&items@[0]),
        r matches Some(x) ==> x == &items@[0],
{
    if items.len() == 0 {
        return None;
    }
    let first = &items[0];
    let mut i: usize = 0;
    while i < items.len()
        invariant
            T::obeys_eq_spec(),
            items@.len() > 0,
            0 <= i <= items@.len(),
            first == &items@[0],
            forall|j: int| 0 <= j < i ==> #[trigger] items@[j].eq_spec(&items@[0]),
        decreases items@.len() - i,
    {
        if items[i] != *first {
            return None;
        }
        i = i + 1;
    }
    Some(first)
}

/// Alleles in a fixed order; the position of each is its equivalence class id.
pub struct AlleleDb {
    alleles: Vec<Allele>,
}

impl View for AlleleDb {
    type V = Seq<AlleleView>;

    closed spec fn view(&self) -> Seq<AlleleView> {
        self.alleles@.map_values(|a: Allele| a@)
    }
}

/// The alleles that a list of class ids names, in its order.
pub open spec fn selected(db: Seq<AlleleView>, ids: Seq<usize>) -> Seq<AlleleView> {
    ids.map_values(|c: usize| db[c as int])
}

impl AlleleDb {
    pub fn new(alleles: Vec<Allele>) -> (r: AlleleDb)
        ensures
            r@ == alleles@.map_values(|a: Allele| a@),
    {
        AlleleDb { alleles }
    }

    pub fn len(&self) -> (r: usize)
        ensures
            r == self@.len(),
    {
        self.alleles.len()
    }

    pub fn get(&self, id: usize) -> (r: &Allele)
        requires
            id < self@.len(),
        ensures
            r@ == self@[id as int],
    {
        &self.alleles[id]
    }

    /// The values at numeric `level` of the alleles that `ids` names.
    fn level_values(&self, ids: &[usize], level: usize) -> (r: Vec<Option<u16>>)
        requires
            1 <= level <= 4,
            forall|i: int| 0 <= i < ids@.len() ==> (#[trigger] ids@[i]) < self@.len(),
        ensures
            r@.len() == ids@.len(),
            forall|i: int|
                0 <= i < ids@.len() ==> #[trigger] r@[i] == self@[ids@[i] as int].level(
                    level as int,
                ),
    {
        let mut r: Vec<Option<u16>> = Vec::new();
        let mut i: usize = 0;
        while i < ids.len()
            invariant
                1 <= level <= 4,
                i <= ids@.len(),
                forall|k: int| 0 <= k < ids@.len() ==> (#[trigger] ids@[k]) < self@.len(),
                r@.len() == i,
                forall|k: int|
                    0 <= k < i ==> #[trigger] r@[k] == self@[ids@[k] as int].level(level as int),
            decreases ids@.len() - i,
        {
            r.push(self.alleles[ids[i]].level(level));
            i = i + 1;
        }
        r
    }

    /// Whether the alleles that `ids` names all carry one gene.
    fn genes_agree(&self, ids: &[usize]) -> (r: bool)
        requires
            ids@.len() > 0,
            forall|i: int| 0 <= i < ids@.len() ==> (#[trigger] ids@[i]) < self@.len(),
        ensures
            r == genes_agree(selected(self@, ids@)),
    {
        let ghost s = selected(self@, ids@);
        let first = &self.alleles[ids[0]].gene;
        let mut i: usize = 1;
        while i < ids.len()
            invariant
                ids@.len() > 0,
                forall|k: int| 0 <= k < ids@.len() ==> (#[trigger] ids@[k]) < self@.len(),
                s == selected(self@, ids@),
                first@ == s[0].gene,
                1 <= i <= ids@.len(),
                forall|k: int| 0 <= k < i ==> #[trigger] s[k].gene == s[0].gene,
            decreases ids@.len() - i,
        {
            if self.alleles[ids[i]].gene != *first {
                assert(s[i as int].gene != s[0].gene);
                return false;
            }
            i = i + 1;
        }
        true
    }

    /// The most specific allele that all the classes in `eq_classes` descend
    /// from: `None` for no classes, the allele itself for one class, the gene
    /// with the numeric fields that all agree on for several classes of one
    /// gene, `None` for classes of different genes.
    pub fn lowest_common_allele(&self, eq_classes: &[usize]) -> (r: Option<Allele>)
        requires
            forall|i: int|
                0 <= i < eq_classes@.len() ==> (#[trigger] eq_classes@[i]) < self@.len(),
        ensures
            opt_view(r) == lowest_common(selected(self@, eq_classes@)),
            r matches Some(a) ==> a@.wf(),
    {
        let ghost s = selected(self@, eq_classes@);
        if eq_classes.len() == 0 {
            return None;
        }
        let first = &self.alleles[eq_classes[0]];
        proof {
            use_type_invariant(first);
        }
        if eq_classes.len() == 1 {
            let a = first.duplicate();
            proof {
                use_type_invariant(&a);
            }
            return Some(a);
        }
        if !self.genes_agree(eq_classes) {
            return None;
        }
        let mut depth: usize = 0;
        while depth < 4
            invariant
                depth <= 4,
                eq_classes@.len() > 1,
                s == selected(self@, eq_classes@),
                forall|i: int|
                    0 <= i < eq_classes@.len() ==> (#[trigger] eq_classes@[i]) < self@.len(),
                forall|l: int| 1 <= l <= depth ==> level_agrees(s, l),
            ensures
                depth == common_depth(s),
            decreases 4 - depth,
        {
            let values = self.level_values(eq_classes, depth + 1);
            if all_same(values.as_slice()).is_none() {
                assert(!level_agrees(s, depth + 1)) by {
                    let k = choose|k: int|
                        0 <= k < values@.len() && !(#[trigger] values@[k]).eq_spec(&values@[0]);
                    assert(s[k].level(depth + 1) != s[0].level(depth + 1));
                }
                break;
            }
            assert(level_agrees(s, depth + 1)) by {
                assert forall|k: int| 0 <= k < s.len() implies #[trigger] s[k].level(depth + 1)
                    == s[0].level(depth + 1) by {
                    assert(values@[k].eq_spec(&values@[0]));
                }
            }
            depth = depth + 1;
        }
        Some(
            Allele {
                gene: first.gene.clone(),
                f1: if depth >= 1 {
                    first.f1
                } else {
                    None
                },
                f2: if depth >= 2 {
                    first.f2
                } else {
                    None
                },
                f3: if depth >= 3 {
                    first.f3
                } else {
                    None
                },
                f4: if depth >= 4 {
                    first.f4
                } else {
                    None
                },
            },
        )
    }
}

} // verus!

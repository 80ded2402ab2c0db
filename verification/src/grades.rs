//! Grades: fetched page by page, then sorted into one bucket per subject.

use crate::http::{accepted, Endpoint, Reply};
use crate::types::{Grade, Grades, Subject, Subjects, PAGE_SIZE};
use crate::{Error, Res};
use vstd::prelude::*;
use vstd::string::StringExecFns;

verus! {

/// How far the paging has come: the grades so far, the offset of the page to
/// ask for next, and whether the last page has been seen.
pub struct PagesView {
    pub grades: Seq<Grade>,
    pub offset: nat,
    pub complete: bool,
}

/// Before the first page.
pub open spec fn spec_start() -> PagesView {
    PagesView { grades: Seq::empty(), offset: 0, complete: false }
}

/// The state after one more page. A page of fewer than `PAGE_SIZE` items is
/// the last one; any other moves the offset on by `PAGE_SIZE`. Once
/// complete, nothing changes any more.
pub open spec fn spec_turn(state: PagesView, page: Seq<Grade>) -> PagesView {
    if state.complete {
        state
    } else if page.len() < PAGE_SIZE {
        PagesView { grades: state.grades + page, offset: state.offset, complete: true }
    } else {
        PagesView {
            grades: state.grades + page,
            offset: state.offset + PAGE_SIZE as nat,
            complete: false,
        }
    }
}

/// The offset to ask for in this state, if any page is still missing.
pub open spec fn spec_next(state: PagesView) -> Option<usize> {
    if state.complete {
        None
    } else {
        Some(state.offset as usize)
    }
}

/// The state after these pages, taken in order from the start.
pub open spec fn spec_after(pages: Seq<Seq<Grade>>) -> PagesView
    decreases pages.len(),
{
    if pages.len() == 0 {
        spec_start()
    } else {
        spec_turn(spec_after(pages.drop_last()), pages.last())
    }
}

/// The items of these pages in one sequence, page after page.
pub open spec fn spec_joined(pages: Seq<Seq<Grade>>) -> Seq<Grade>
    decreases pages.len(),
{
    if pages.len() == 0 {
        Seq::empty()
    } else {
        spec_joined(pages.drop_last()) + pages.last()
    }
}

/// The paging of a student's grades. The caller asks for the page at
/// `next_offset`, hands the reply to `accept`, and goes on until no offset is
/// left.
pub struct GradePages {
    grades: Vec<Grade>,
    offset: usize,
    complete: bool,
}

impl GradePages {
    #[verifier::type_invariant]
    spec fn within(self) -> bool {
        self.offset <= self.grades@.len()
    }

    /// How far the paging has come.
    pub closed spec fn view(self) -> PagesView {
        PagesView { grades: self.grades@, offset: self.offset as nat, complete: self.complete }
    }

    /// Before the first page: the first request starts at offset 0.
    pub fn new() -> (pages: GradePages)
        ensures
            pages@ == spec_start(),
    {
        GradePages { grades: Vec::new(), offset: 0, complete: false }
    }

    /// The offset of the page to ask for next; `None` once the last page has
    /// been seen.
    pub fn next_offset(&self) -> (offset: Option<usize>)
        ensures
            offset == spec_next(self@),
    {
        if self.complete {
            None
        } else {
            Some(self.offset)
        }
    }

    /// Takes the reply to the request for the page at `next_offset` and says
    /// which offset to ask for next. A failed reply fails the whole paging
    /// and leaves the state as it was.
    pub fn accept(&mut self, reply: Reply<Grades>) -> (next: Res<Option<usize>>)
        ensures
            match accepted(Endpoint::Grades, reply) {
                Err(e) => next == Err::<Option<usize>, Error>(e) && final(self)@ == old(self)@,
                Ok(page) => {
                    &&& final(self)@ == spec_turn(old(self)@, page.items@)
                    &&& next == Ok::<Option<usize>, Error>(spec_next(final(self)@))
                },
            },
    {
        let mut page = reply.accept(Endpoint::Grades)?;
        if self.complete {
            return Ok(None);
        }
        let mut before = GradePages::new();
        core::mem::swap(self, &mut before);
        proof {
            use_type_invariant(&before);
        }
        let GradePages { mut grades, offset, complete: _ } = before;
        let length = page.items.len();
        grades.append(&mut page.items);
        let total = grades.len();
        if length < PAGE_SIZE {
            *self = GradePages { grades, offset, complete: true };
            Ok(None)
        } else {
            // A full page has been added to at least `offset` grades.
            assert(offset + PAGE_SIZE <= total);
            *self = GradePages { grades, offset: offset + PAGE_SIZE, complete: false };
            Ok(Some(offset + PAGE_SIZE))
        }
    }

    /// All grades in the order in which they came, once the last page has
    /// been seen; `None` before that, since there is no partial result.
    pub fn into_grades(self) -> (grades: Option<Grades>)
        ensures
            grades is Some <==> self@.complete,
            grades matches Some(g) ==> g.items@ == self@.grades,
    {
        if self.complete {
            Some(Grades { items: self.grades })
        } else {
            None
        }
    }
}

/// Every one of these pages holds at least `PAGE_SIZE` items.
pub open spec fn all_full(pages: Seq<Seq<Grade>>) -> bool {
    forall|i: int| 0 <= i < pages.len() ==> (#[trigger] pages[i]).len() >= PAGE_SIZE
}

/// A full page is never the last: after `n` pages that are all full, the
/// paging asks for offset `n * PAGE_SIZE`, and holds their items in order.
pub proof fn lemma_full_pages_go_on(pages: Seq<Seq<Grade>>)
    requires
        all_full(pages),
    ensures
        spec_after(pages).grades == spec_joined(pages),
        spec_after(pages).offset == pages.len() * PAGE_SIZE,
        !spec_after(pages).complete,
    decreases pages.len(),
{
    if pages.len() > 0 {
        lemma_full_pages_go_on(pages.drop_last());
    }
}

/// The first page with fewer than `PAGE_SIZE` items ends the paging: no
/// further offset is asked for, and the items of all pages are held in order.
pub proof fn lemma_short_page_ends(pages: Seq<Seq<Grade>>, last: Seq<Grade>)
    requires
        all_full(pages),
        last.len() < PAGE_SIZE,
    ensures
        spec_after(pages.push(last)).grades == spec_joined(pages.push(last)),
        spec_after(pages.push(last)).offset == pages.len() * PAGE_SIZE,
        spec_after(pages.push(last)).complete,
        spec_next(spec_after(pages.push(last))) is None,
{
    lemma_full_pages_go_on(pages);
    assert(pages.push(last).drop_last() == pages);
}

/// The acronyms of these subjects.
pub open spec fn spec_acronyms(subjects: Seq<Subject>) -> Set<Seq<char>> {
    Set::new(|k: Seq<char>| exists|i: int| 0 <= i < subjects.len() && subjects[i].acronym@ == k)
}

/// Those of `grades` whose subject has this acronym, in their order.
pub open spec fn graded_as(grades: Seq<Grade>, acronym: Seq<char>) -> Seq<Grade> {
    grades.filter(|g: Grade| g.subject.acronym@ == acronym)
}

/// Every grade is for a subject that is listed.
pub open spec fn all_listed(subjects: Seq<Subject>, grades: Seq<Grade>) -> bool {
    forall|i: int|
        0 <= i < grades.len() ==> spec_acronyms(subjects).contains(
            #[trigger] grades[i].subject.acronym@,
        )
}

/// The grades of one subject.
#[derive(Clone, Debug, PartialEq, Eq)]
pub struct Bucket {
    pub acronym: String,
    pub grades: Vec<Grade>,
}

/// No acronym heads two buckets.
pub open spec fn distinct_acronyms(buckets: Seq<Bucket>) -> bool {
    forall|i: int, j: int|
        0 <= i < j < buckets.len() ==> (#[trigger] buckets[i]).acronym@ != (
        #[trigger] buckets[j]).acronym@
}

/// Whether a bucket for `acronym` is among `buckets`.
pub open spec fn has_bucket(buckets: Seq<Bucket>, acronym: Seq<char>) -> bool {
    exists|i: int| 0 <= i < buckets.len() && (#[trigger] buckets[i]).acronym@ == acronym
}

/// The place of the bucket for `acronym` among `buckets`.
pub open spec fn bucket_of(buckets: Seq<Bucket>, acronym: Seq<char>) -> int {
    choose|i: int| 0 <= i < buckets.len() && (#[trigger] buckets[i]).acronym@ == acronym
}

/// The mapping that these buckets stand for: from acronym to grades.
pub open spec fn buckets_map(buckets: Seq<Bucket>) -> Map<Seq<char>, Seq<Grade>> {
    Map::new(
        |k: Seq<char>| has_bucket(buckets, k),
        |k: Seq<char>| buckets[bucket_of(buckets, k)].grades@,
    )
}

/// The grades of a student by subject: one bucket for each subject's
/// acronym, each holding that subject's grades in the order they came in.
#[derive(Debug, PartialEq, Eq)]
pub struct SubjectGrades {
    buckets: Vec<Bucket>,
}

fn position(buckets: &Vec<Bucket>, acronym: &String) -> (at: Option<usize>)
    ensures
        match at {
            Some(i) => i < buckets@.len() && buckets@[i as int].acronym@ == acronym@,
            None => !has_bucket(buckets@, acronym@),
        },
{
    let mut i: usize = 0;
    while i < buckets.len()
        invariant
            i <= buckets@.len(),
            forall|j: int| 0 <= j < i ==> (#[trigger] buckets@[j]).acronym@ != acronym@,
        decreases buckets@.len() - i,
    {
        if buckets[i].acronym == *acronym {
            return Some(i);
        }
        i += 1;
    }
    None
}

impl SubjectGrades {
    #[verifier::type_invariant]
    spec fn keyed(self) -> bool {
        distinct_acronyms(self.buckets@)
    }

    /// The mapping from acronym to grades.
    pub closed spec fn view(self) -> Map<Seq<char>, Seq<Grade>> {
        buckets_map(self.buckets@)
    }

    /// Sorts `grades` into one bucket per acronym of `subjects`. Each bucket
    /// keeps the order in which its grades came. A grade for a subject that
    /// is not listed fails the whole sorting.
    pub fn group(subjects: &Subjects, grades: Grades) -> (sorted: Res<SubjectGrades>)
        ensures
            sorted is Ok <==> all_listed(subjects.items@, grades.items@),
            sorted matches Ok(by_subject) ==> {
                &&& by_subject@.dom() == spec_acronyms(subjects.items@)
                &&& forall|k: Seq<char>| #[trigger]
                    by_subject@.dom().contains(k) ==> by_subject@[k] == graded_as(grades.items@, k)
            },
            sorted matches Err(e) ==> e == Error::UnexpectedShape,
    {
        let mut buckets: Vec<Bucket> = Vec::new();
        let mut s: usize = 0;
        while s < subjects.items.len()
            invariant
                s <= subjects.items@.len(),
                distinct_acronyms(buckets@),
                forall|k: Seq<char>|
                    has_bucket(buckets@, k) <==> #[trigger] spec_acronyms(
                        subjects.items@.take(s as int),
                    ).contains(k),
                forall|j: int| 0 <= j < buckets@.len() ==> (#[trigger] buckets@[j]).grades@.len() == 0,
            decreases subjects.items@.len() - s,
        {
            let acronym = subjects.items[s].acronym.clone();
            let ghost seen = subjects.items@.take(s as int);
            let ghost more = subjects.items@.take(s + 1);
            let ghost before = buckets@;
            assert(more[s as int].acronym@ == acronym@);
            assert forall|k: Seq<char>| #[trigger]
                spec_acronyms(more).contains(k) <==> (spec_acronyms(seen).contains(k) || k
                    == acronym@) by {
                if spec_acronyms(seen).contains(k) {
                    let i = choose|i: int| 0 <= i < seen.len() && seen[i].acronym@ == k;
                    assert(more[i].acronym@ == k);
                }
                if spec_acronyms(more).contains(k) && k != acronym@ {
                    let i = choose|i: int| 0 <= i < more.len() && more[i].acronym@ == k;
                    assert(seen[i].acronym@ == k);
                }
            }
            if position(&buckets, &acronym).is_none() {
                buckets.push(Bucket { acronym, grades: Vec::new() });
                assert(buckets@[before.len() as int].acronym@ == acronym@);
                assert forall|k: Seq<char>| has_bucket(buckets@, k) <==> (has_bucket(before, k)
                    || k == acronym@) by {
                    if has_bucket(before, k) {
                        let i = bucket_of(before, k);
                        assert(buckets@[i].acronym@ == k);
                    }
                    if has_bucket(buckets@, k) && k != acronym@ {
                        let i = bucket_of(buckets@, k);
                        assert(before[i].acronym@ == k);
                    }
                }
            }
            s += 1;
        }
        assert(subjects.items@.take(s as int) == subjects.items@);
        let ghost all = grades.items@;
        let ghost heads = buckets@;
        for grade in it: grades.items
            invariant
                it.seq() == all,
                buckets@.len() == heads.len(),
                distinct_acronyms(buckets@),
                forall|j: int|
                    0 <= j < heads.len() ==> (#[trigger] buckets@[j]).acronym@ == heads[j].acronym@,
                forall|k: Seq<char>|
                    has_bucket(heads, k) <==> #[trigger] spec_acronyms(subjects.items@).contains(k),
                forall|j: int|
                    0 <= j < heads.len() ==> (#[trigger] buckets@[j]).grades@ == graded_as(
                        all.take(it.index() as int),
                        heads[j].acronym@,
                    ),
                all_listed(subjects.items@, all.take(it.index() as int)),
        {
            let ghost i = it.index() as int;
            let ghost before = buckets@;
            proof {
                assert(all.take(i + 1).drop_last() == all.take(i));
                assert(all.take(i + 1).last() == grade);
                reveal(Seq::filter);
            }
            match position(&buckets, &grade.subject.acronym) {
                None => {
                    proof {
                        if has_bucket(heads, grade.subject.acronym@) {
                            let j = bucket_of(heads, grade.subject.acronym@);
                            assert(buckets@[j].acronym@ == grade.subject.acronym@);
                        }
                        assert(all[i] == grade);
                    }
                    return Err(Error::UnexpectedShape);
                },
                Some(p) => {
                    buckets[p].grades.push(grade);
                    proof {
                        assert(has_bucket(heads, grade.subject.acronym@)) by {
                            assert(heads[p as int].acronym@ == grade.subject.acronym@);
                        }
                        assert forall|j: int| 0 <= j < heads.len() implies (
                        #[trigger] buckets@[j]).grades@ == graded_as(
                            all.take(i + 1),
                            heads[j].acronym@,
                        ) by {
                            assert(before[j].grades@ == graded_as(all.take(i), heads[j].acronym@));
                            if j != p {
                                assert(before[j].acronym@ != before[p as int].acronym@);
                            }
                        }
                        assert forall|n: int| 0 <= n < i + 1 implies spec_acronyms(
                            subjects.items@,
                        ).contains(#[trigger] all.take(i + 1)[n].subject.acronym@) by {
                            if n < i {
                                assert(all.take(i)[n] == all.take(i + 1)[n]);
                            }
                        }
                    }
                },
            }
        }
        assert(all.take(all.len() as int) == all);
        let by_subject = SubjectGrades { buckets };
        proof {
            assert forall|k: Seq<char>| has_bucket(by_subject.buckets@, k) <==> has_bucket(
                heads,
                k,
            ) by {
                if has_bucket(by_subject.buckets@, k) {
                    let j = bucket_of(by_subject.buckets@, k);
                    assert(heads[j].acronym@ == k);
                }
                if has_bucket(heads, k) {
                    let j = bucket_of(heads, k);
                    assert(by_subject.buckets@[j].acronym@ == k);
                }
            }
            assert forall|k: Seq<char>|
                by_subject@.dom().contains(k) <==> spec_acronyms(subjects.items@).contains(
                    k,
                ) by {
                assert(has_bucket(heads, k) <==> spec_acronyms(subjects.items@).contains(k));
            }
            assert(by_subject@.dom() =~= spec_acronyms(subjects.items@));
            assert forall|k: Seq<char>| #[trigger]
                by_subject@.dom().contains(k) implies by_subject@[k] == graded_as(all, k) by {
                let j = bucket_of(by_subject.buckets@, k);
                assert(by_subject.buckets@[j].acronym@ == k);
            }
        }
        Ok(by_subject)
    }

    /// The grades of the subject with this acronym, if there is such a
    /// subject.
    pub fn get(&self, acronym: &str) -> (grades: Option<&Vec<Grade>>)
        ensures
            grades is Some <==> self@.dom().contains(acronym@),
            grades matches Some(found) ==> found@ == self@[acronym@],
    {
        proof {
            use_type_invariant(self);
        }
        let key = String::from_str(acronym);
        match position(&self.buckets, &key) {
            None => None,
            Some(p) => {
                assert(self.buckets@[p as int].acronym@ == acronym@);
                Some(&self.buckets[p].grades)
            },
        }
    }

    /// The buckets themselves, one per acronym.
    pub fn into_buckets(self) -> (buckets: Vec<Bucket>)
        ensures
            distinct_acronyms(buckets@),
            buckets_map(buckets@) == self@,
    {
        proof {
            use_type_invariant(&self);
        }
        self.buckets
    }
}

} // verus!
